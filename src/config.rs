use vstd::prelude::*;
use crate::model::NodeTarget;
use crate::text::{chars_of, string_of, trim_text, trimmed};

verus! {

/// A grammar the syntax matcher can parse.
#[derive(Clone, Copy, Debug, PartialEq, Eq)]
pub enum Grammar {
    TypeScript,
}

/// A configuration that cannot be used.
#[derive(Debug)]
pub enum ConfigError {
    /// The grammar name, lower-cased, names no supported grammar.
    UnsupportedGrammar(String),
}

/// ASCII letters lower-cased, every other character kept.
pub open spec fn ascii_lower(s: Seq<char>) -> Seq<char> {
    Seq::new(
        s.len(),
        |i: int|
            if 65 <= (s[i] as u32) <= 90 {
                ((s[i] as u32) + 32) as char
            } else {
                s[i]
            },
    )
}

/// `s` with ASCII letters lower-cased, as `str::to_ascii_lowercase` gives it.
pub fn ascii_lowercase(s: &str) -> (r: String)
    ensures
        r@ == ascii_lower(s@),
{
    let v = chars_of(s);
    let mut r = String::new();
    let mut i: usize = 0;
    while i < v.len()
        invariant
            i <= v.len(),
            v@ == s@,
            r@ =~= ascii_lower(s@).take(i as int),
        decreases v.len() - i,
    {
        let c = v[i];
        let u = c as u32;
        if 65 <= u && u <= 90 {
            r.push(((u + 32) as u8) as char);
        } else {
            r.push(c);
        }
        i = i + 1;
    }
    assert(ascii_lower(s@).take(i as int) =~= ascii_lower(s@));
    r
}

impl Grammar {
    /// Reads a grammar name, ignoring ASCII case.
    pub fn from_str(value: &str) -> (r: Result<Grammar, ConfigError>)
        ensures
            match r {
                Ok(g) => g == Grammar::TypeScript && ascii_lower(value@) == "typescript"@,
                Err(ConfigError::UnsupportedGrammar(name)) => name@ == ascii_lower(value@)
                    && ascii_lower(value@) != "typescript"@,
            },
    {
        let lowered = ascii_lowercase(value);
        let expected = String::from_str("typescript");
        if lowered == expected {
            Ok(Grammar::TypeScript)
        } else {
            Err(ConfigError::UnsupportedGrammar(lowered))
        }
    }
}

/// A selection target as written in a configuration file, where the kind may
/// be missing.
#[derive(Debug)]
pub struct RawNodeTarget {
    pub node_type: Option<String>,
    pub ref_type: Option<String>,
    pub children: Vec<RawNodeTarget>,
}

/// Mathematical value of a `NodeTarget` tree.
pub struct NodeTargetView {
    pub node_type: Seq<char>,
    pub ref_type: Option<Seq<char>>,
    pub children: Seq<NodeTargetView>,
}

pub open spec fn opt_chars(s: Option<String>) -> Option<Seq<char>> {
    match s {
        Some(t) => Some(t@),
        None => None,
    }
}

pub open spec fn target_view(t: NodeTarget) -> NodeTargetView
    decreases t,
{
    NodeTargetView {
        node_type: t.node_type@,
        ref_type: opt_chars(t.ref_type),
        children: targets_view(t.children@),
    }
}

pub open spec fn targets_view(s: Seq<NodeTarget>) -> Seq<NodeTargetView>
    decreases s,
{
    if s.len() == 0 {
        Seq::empty()
    } else {
        targets_view(s.drop_last()).push(target_view(s.last()))
    }
}

/// The target a raw target stands for: none without a kind, and children
/// without a kind dropped, with their subtrees.
pub open spec fn raw_target_spec(r: RawNodeTarget) -> Option<NodeTargetView>
    decreases r,
{
    match r.node_type {
        None => None,
        Some(n) => Some(
            NodeTargetView {
                node_type: n@,
                ref_type: opt_chars(r.ref_type),
                children: raw_targets_spec(r.children@),
            },
        ),
    }
}

pub open spec fn raw_targets_spec(s: Seq<RawNodeTarget>) -> Seq<NodeTargetView>
    decreases s,
{
    if s.len() == 0 {
        Seq::empty()
    } else {
        raw_targets_spec(s.drop_last()) + match raw_target_spec(s.last()) {
            Some(v) => seq![v],
            None => Seq::empty(),
        }
    }
}

fn clone_opt(s: &Option<String>) -> (r: Option<String>)
    ensures
        opt_chars(r) == opt_chars(*s),
{
    match s {
        Some(t) => Some(t.clone()),
        None => None,
    }
}

impl RawNodeTarget {
    fn to_target(&self) -> (r: Option<NodeTarget>)
        ensures
            match r {
                Some(t) => raw_target_spec(*self) == Some(target_view(t)),
                None => raw_target_spec(*self) is None,
            },
        decreases self,
    {
        let node_type = match &self.node_type {
            Some(n) => n.clone(),
            None => {
                return None;
            },
        };
        let children = raw_list_to_targets(&self.children);
        Some(NodeTarget { node_type, ref_type: clone_opt(&self.ref_type), children })
    }

    /// The target this raw target stands for, if it names a kind.
    pub fn into_target(self) -> (r: Option<NodeTarget>)
        ensures
            match r {
                Some(t) => raw_target_spec(self) == Some(target_view(t)),
                None => raw_target_spec(self) is None,
            },
    {
        self.to_target()
    }
}

/// The targets that a list of raw targets stands for, in order.
pub fn raw_list_to_targets(raw: &Vec<RawNodeTarget>) -> (r: Vec<NodeTarget>)
    ensures
        targets_view(r@) == raw_targets_spec(raw@),
    decreases raw,
{
    let mut out: Vec<NodeTarget> = Vec::new();
    let mut i: usize = 0;
    assert(raw@.take(0) =~= Seq::<RawNodeTarget>::empty());
    while i < raw.len()
        invariant
            i <= raw.len(),
            targets_view(out@) == raw_targets_spec(raw@.take(i as int)),
        decreases raw.len() - i,
    {
        assert(raw@.take(i + 1).drop_last() =~= raw@.take(i as int));
        assert(raw@.take(i + 1).last() == raw@[i as int]);
        match raw[i].to_target() {
            Some(t) => {
                let ghost before = out@;
                out.push(t);
                assert(out@.drop_last() =~= before);
                assert(targets_view(out@) =~= raw_targets_spec(raw@.take(i + 1)));
            },
            None => {
                assert(raw_targets_spec(raw@.take(i + 1)) =~= raw_targets_spec(
                    raw@.take(i as int),
                ));
            },
        }
        i = i + 1;
    }
    assert(raw@.take(i as int) =~= raw@);
    out
}

/// File glob used when a configuration names none.
pub fn default_file_glob() -> (r: String)
    ensures
        r@ == "**/*.*"@,
{
    String::from_str("**/*.*")
}

/// Text encoding used when a configuration names none.
pub fn default_encoding() -> (r: String)
    ensures
        r@ == "utf-8"@,
{
    String::from_str("utf-8")
}

/// Client version reported to the server when a configuration names none.
pub fn default_lsp_version() -> (r: String)
    ensures
        r@ == "0.0.0"@,
{
    String::from_str("0.0.0")
}

/// The encoding label to look up for a configured encoding name: lower-cased,
/// with `ascii` standing for `us-ascii`.
pub open spec fn encoding_label_spec(name: Seq<char>) -> Seq<char> {
    if ascii_lower(name) == "ascii"@ {
        "us-ascii"@
    } else {
        ascii_lower(name)
    }
}

pub fn encoding_label(name: &str) -> (r: String)
    ensures
        r@ == encoding_label_spec(name@),
{
    let lowered = ascii_lowercase(name);
    let ascii = String::from_str("ascii");
    if lowered == ascii {
        String::from_str("us-ascii")
    } else {
        lowered
    }
}

/// The glob patterns a matcher is built from: the given ones, or the default
/// alone when none are given.
pub fn glob_patterns(patterns: &Vec<String>, default_pattern: Option<&str>) -> (r: Vec<String>)
    ensures
        patterns.len() > 0 ==> r@ == patterns@,
        patterns.len() == 0 ==> match default_pattern {
            Some(d) => r@.len() == 1 && r@[0]@ == d@,
            None => r@.len() == 0,
        },
{
    if patterns.len() > 0 {
        let mut r: Vec<String> = Vec::new();
        let mut i: usize = 0;
        while i < patterns.len()
            invariant
                i <= patterns.len(),
                r@ == patterns@.take(i as int),
            decreases patterns.len() - i,
        {
            r.push(patterns[i].clone());
            i = i + 1;
            assert(r@ =~= patterns@.take(i as int));
        }
        assert(patterns@.take(i as int) =~= patterns@);
        r
    } else {
        match default_pattern {
            Some(d) => vec![d.to_owned()],
            None => Vec::new(),
        }
    }
}

impl NodeTarget {
    /// A copy of the whole target tree.
    pub fn deep_clone(&self) -> (r: NodeTarget)
        ensures
            target_view(r) == target_view(*self),
        decreases self,
    {
        let mut children: Vec<NodeTarget> = Vec::new();
        let mut i: usize = 0;
        while i < self.children.len()
            invariant
                i <= self.children.len(),
                targets_view(children@) == targets_view(self.children@.take(i as int)),
            decreases self.children.len() - i,
        {
            let c = self.children[i].deep_clone();
            let ghost before = children@;
            children.push(c);
            proof {
                assert(children@.drop_last() =~= before);
                assert(self.children@.take(i + 1).drop_last() =~= self.children@.take(i as int));
            }
            i = i + 1;
        }
        assert(self.children@.take(i as int) =~= self.children@);
        NodeTarget {
            node_type: self.node_type.clone(),
            ref_type: clone_opt(&self.ref_type),
            children,
        }
    }
}

/// Copies of all targets of a list, in order.
pub fn clone_targets(targets: &Vec<NodeTarget>) -> (r: Vec<NodeTarget>)
    ensures
        targets_view(r@) == targets_view(targets@),
{
    let mut out: Vec<NodeTarget> = Vec::new();
    let mut i: usize = 0;
    while i < targets.len()
        invariant
            i <= targets.len(),
            targets_view(out@) == targets_view(targets@.take(i as int)),
        decreases targets.len() - i,
    {
        let c = targets[i].deep_clone();
        let ghost before = out@;
        out.push(c);
        proof {
            assert(out@.drop_last() =~= before);
            assert(targets@.take(i + 1).drop_last() =~= targets@.take(i as int));
        }
        i = i + 1;
    }
    assert(targets@.take(i as int) =~= targets@);
    out
}

/// The threshold in force: one given on the command line wins over the
/// configured one.
pub fn effective_threshold(cli_override: Option<usize>, configured: Option<usize>) -> (r: Option<
    usize,
>)
    ensures
        r == match cli_override {
            Some(t) => Some(t),
            None => configured,
        },
{
    match cli_override {
        Some(t) => Some(t),
        None => configured,
    }
}

/// A run fails when the dead count exceeds the threshold, if there is one.
pub fn threshold_exceeded(dead_count: usize, threshold: Option<usize>) -> (r: bool)
    ensures
        r == match threshold {
            Some(t) => dead_count > t,
            None => false,
        },
{
    match threshold {
        Some(t) => dead_count > t,
        None => false,
    }
}

/// `done` with the trimmed `line` added when something is left of it.
pub open spec fn flush_line(done: Seq<Seq<char>>, line: Seq<char>) -> Seq<Seq<char>> {
    if trimmed(line).len() > 0 {
        done.push(trimmed(line))
    } else {
        done
    }
}

/// The entries finished and the line under way after the first `i`
/// characters of `s`.
pub open spec fn scan_lines(s: Seq<char>, i: int) -> (Seq<Seq<char>>, Seq<char>)
    decreases i,
{
    if i <= 0 {
        (Seq::empty(), Seq::empty())
    } else {
        let (done, line) = scan_lines(s, i - 1);
        if s[i - 1] == '\n' {
            (flush_line(done, line), Seq::empty())
        } else {
            (done, line.push(s[i - 1]))
        }
    }
}

/// The lines of a file list, trimmed, without the blank ones.
pub open spec fn list_entries_spec(s: Seq<char>) -> Seq<Seq<char>> {
    let (done, line) = scan_lines(s, s.len() as int);
    flush_line(done, line)
}

fn flush(out: &mut Vec<String>, line: &Vec<char>)
    ensures
        final(out)@.map_values(|e: String| e@) == flush_line(
            old(out)@.map_values(|e: String| e@),
            line@,
        ),
{
    let text = string_of(line);
    let t = trim_text(text.as_str());
    if t.unicode_len() > 0 {
        let ghost before = out@;
        out.push(t);
        assert(out@.map_values(|e: String| e@) =~= before.map_values(|e: String| e@).push(
            trimmed(line@),
        ));
    }
}

/// The entries of a file list: its lines, trimmed, blank ones left out.
pub fn list_entries(raw: &str) -> (r: Vec<String>)
    ensures
        r@.map_values(|e: String| e@) == list_entries_spec(raw@),
{
    let v = chars_of(raw);
    let mut out: Vec<String> = Vec::new();
    let mut line: Vec<char> = Vec::new();
    let mut i: usize = 0;
    while i < v.len()
        invariant
            i <= v.len(),
            v@ == raw@,
            (out@.map_values(|e: String| e@), line@) == scan_lines(raw@, i as int),
        decreases v.len() - i,
    {
        let c = v[i];
        if c == '\n' {
            flush(&mut out, &line);
            line = Vec::new();
            assert(line@ =~= Seq::<char>::empty());
        } else {
            line.push(c);
        }
        i = i + 1;
    }
    flush(&mut out, &line);
    out
}

} // verus!
