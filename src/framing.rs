use vstd::prelude::*;
use vstd::string::*;
use crate::text::{
    chars_of, decimal, has_prefix, is_white_space, lemma_trailing_white_step, parse_u64,
    parsed_u64, push_decimal, starts_with, trailing_white, trim_text, trimmed, white_space,
};

verus! {

/// The header that precedes a message body of `n` bytes.
pub open spec fn header_text(n: nat) -> Seq<char> {
    "Content-Length: "@ + decimal(n) + "\r\n\r\n"@
}

/// The bytes of a text whose characters are all ASCII.
pub open spec fn ascii_bytes(s: Seq<char>) -> Seq<u8> {
    Seq::new(s.len(), |i: int| (s[i] as u32) as u8)
}

/// A message on the wire: its header, a blank line, then the body.
pub open spec fn framed(body: Seq<u8>) -> Seq<u8> {
    ascii_bytes(header_text(body.len())) + body
}

/// Frames a message body for sending.
pub fn frame_message(body: &[u8]) -> (r: Vec<u8>)
    ensures
        r@ == framed(body@),
{
    let mut header = String::from_str("Content-Length: ");
    push_decimal(&mut header, body.len() as u64);
    header.append("\r\n\r\n");
    let hv = chars_of(header.as_str());
    let mut out: Vec<u8> = Vec::new();
    let mut i: usize = 0;
    while i < hv.len()
        invariant
            i <= hv.len(),
            hv@ == header_text(body@.len()),
            out@ =~= ascii_bytes(hv@).take(i as int),
        decreases hv.len() - i,
    {
        out.push((hv[i] as u32) as u8);
        i = i + 1;
    }
    let mut k: usize = 0;
    while k < body.len()
        invariant
            k <= body.len(),
            hv@ == header_text(body@.len()),
            out@ =~= ascii_bytes(hv@) + body@.take(k as int),
        decreases body.len() - k,
    {
        out.push(body[k]);
        k = k + 1;
    }
    assert(body@.take(k as int) =~= body@);
    out
}

/// `s` without trailing whitespace.
pub open spec fn trimmed_end(s: Seq<char>) -> Seq<char> {
    s.take(s.len() - trailing_white(s))
}

/// `s` without trailing whitespace, as `str::trim_end` gives it.
pub fn trim_end_text(s: &str) -> (r: String)
    ensures
        r@ == trimmed_end(s@),
{
    let v = chars_of(s);
    let mut j: usize = v.len();
    while j > 0 && white_space(v[j - 1])
        invariant
            j <= v.len(),
            v@ == s@,
            forall|k: int| j <= k < v@.len() ==> is_white_space(#[trigger] v@[k]),
        decreases j,
    {
        j = j - 1;
    }
    proof {
        lemma_trailing_white_step(v@, j as int);
        if j > 0 {
            assert(v@.take(j as int).last() == v@[j - 1]);
        }
    }
    let mut r = String::new();
    let mut k: usize = 0;
    while k < j
        invariant
            k <= j <= v.len(),
            r@ =~= v@.take(k as int),
        decreases j - k,
    {
        r.push(v[k]);
        k = k + 1;
    }
    r
}

/// A header line, classified.
#[derive(Clone, Copy, Debug, PartialEq, Eq)]
pub enum HeaderLine {
    /// The blank line that ends the header.
    End,
    /// A `Content-Length` header with a valid length.
    ContentLength(usize),
    /// A `Content-Length` header whose value is not a length.
    BadLength,
    /// Any other header.
    Other,
}

pub open spec fn header_line_spec(line: Seq<char>) -> HeaderLine {
    let t = trimmed_end(line);
    let prefix = "Content-Length:"@;
    if t.len() == 0 {
        HeaderLine::End
    } else if starts_with(t, prefix) {
        match parsed_u64(trimmed(t.skip(prefix.len() as int))) {
            Some(v) => if v <= usize::MAX {
                HeaderLine::ContentLength(v as usize)
            } else {
                HeaderLine::BadLength
            },
            None => HeaderLine::BadLength,
        }
    } else {
        HeaderLine::Other
    }
}

/// Classifies one header line, its line break included or not.
pub fn classify_header_line(line: &str) -> (r: HeaderLine)
    ensures
        r == header_line_spec(line@),
{
    let t = trim_end_text(line);
    let n = t.as_str().unicode_len();
    if n == 0 {
        return HeaderLine::End;
    }
    if !has_prefix(t.as_str(), "Content-Length:") {
        return HeaderLine::Other;
    }
    proof {
        reveal_strlit("Content-Length:");
    }
    let rest = t.as_str().substring_char(15, n);
    let value = trim_text(rest);
    match parse_u64(value.as_str()) {
        Some(v) => {
            if v <= usize::MAX as u64 {
                HeaderLine::ContentLength(v as usize)
            } else {
                HeaderLine::BadLength
            }
        },
        None => HeaderLine::BadLength,
    }
}

/// Why a message header cannot be read.
#[derive(Clone, Copy, Debug, PartialEq, Eq)]
pub enum FrameError {
    InvalidContentLength,
    MissingContentLength,
}

/// What a reader does after a header line.
#[derive(Clone, Copy, Debug, PartialEq, Eq)]
pub enum FrameStep {
    /// Read the next header line.
    ReadLine,
    /// The header is complete: read a body of this many bytes.
    ReadBody(usize),
    /// The header is malformed.
    Failed(FrameError),
}

/// The header of one incoming message, read line by line.
pub struct FrameHeader {
    content_length: Option<usize>,
}

impl FrameHeader {
    /// The length given by the last `Content-Length` header read so far.
    pub closed spec fn length(&self) -> Option<usize> {
        self.content_length
    }

    pub fn new() -> (r: FrameHeader)
        ensures
            r.length() is None,
    {
        FrameHeader { content_length: None }
    }

    /// Takes one header line: a length is remembered, other headers are
    /// skipped, and the blank line ends the header.
    pub fn on_line(&mut self, line: &str) -> (r: FrameStep)
        ensures
            match header_line_spec(line@) {
                HeaderLine::End => match old(self).length() {
                    Some(n) => r == FrameStep::ReadBody(n),
                    None => r == FrameStep::Failed(FrameError::MissingContentLength),
                },
                HeaderLine::ContentLength(n) => r == FrameStep::ReadLine && final(self).length()
                    == Some(n),
                HeaderLine::BadLength => r == FrameStep::Failed(FrameError::InvalidContentLength),
                HeaderLine::Other => r == FrameStep::ReadLine,
            },
            !(header_line_spec(line@) is ContentLength) ==> final(self).length() == old(
                self,
            ).length(),
    {
        match classify_header_line(line) {
            HeaderLine::End => match self.content_length {
                Some(n) => FrameStep::ReadBody(n),
                None => FrameStep::Failed(FrameError::MissingContentLength),
            },
            HeaderLine::ContentLength(n) => {
                self.content_length = Some(n);
                FrameStep::ReadLine
            },
            HeaderLine::BadLength => FrameStep::Failed(FrameError::InvalidContentLength),
            HeaderLine::Other => FrameStep::ReadLine,
        }
    }
}

} // verus!
