//! Dead-declaration and naming-smell detection: syntax-tree matching,
//! reference-count enrichment, classification, and the decision logic of a
//! language-server protocol client.

pub mod model;
pub mod text;
pub mod config;
pub mod tree;
pub mod analyzer;
pub mod sanitize;
pub mod snapshot;
pub mod report;
pub mod protocol;
pub mod framing;
