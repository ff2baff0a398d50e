use vstd::prelude::*;
use crate::text::chars_of;

verus! {

/// Line comments, up to the end of the line.
pub const LINE_COMMENTS: &'static str = "//([^\\r\\n]*)";

/// Block comments, shortest match.
pub const BLOCK_COMMENTS: &'static str = "/\\*[\\s\\S]*?\\*/";

/// Console logging statements and the whitespace after them.
pub const CONSOLE_LOGS: &'static str = "console\\.log\\([^)]*\\);\\s*";

/// Runs of Cyrillic letters.
pub const CYRILLIC: &'static str = "[а-яА-ЯёЁ]+";

/// What compiling `pattern` with `regex::Regex::new` and removing every match
/// from `text` with `Regex::replace_all` gives; `None` when the pattern does
/// not compile.
pub uninterp spec fn regex_erased(pattern: Seq<char>, text: Seq<char>) -> Option<Seq<char>>;

/// Relies on `regex::Regex::new` and `regex::Regex::replace_all`: the text
/// without the pattern's matches, which depends on the pattern and the text
/// alone.
#[verifier::external_body]
fn erase_matches(pattern: &str, text: &str) -> (r: Option<String>)
    ensures
        match r {
            Some(s) => regex_erased(pattern@, text@) == Some(s@),
            None => regex_erased(pattern@, text@) is None,
        },
{
    match regex::Regex::new(pattern) {
        Ok(re) => Some(re.replace_all(text, "").into_owned()),
        Err(_) => None,
    }
}

/// `text` without the matches of `pattern`; unchanged if it does not compile.
pub open spec fn erased(pattern: Seq<char>, text: Seq<char>) -> Seq<char> {
    match regex_erased(pattern, text) {
        Some(r) => r,
        None => text,
    }
}

fn erase(pattern: &str, text: String) -> (r: String)
    ensures
        r@ == erased(pattern@, text@),
{
    match erase_matches(pattern, text.as_str()) {
        Some(r) => r,
        None => text,
    }
}

/// A character kept as is when ASCII, a space otherwise.
pub open spec fn ascii_or_space(c: char) -> char {
    if (c as u32) < 128 {
        c
    } else {
        ' '
    }
}

pub open spec fn masked(s: Seq<char>) -> Seq<char> {
    Seq::new(s.len(), |i: int| ascii_or_space(s[i]))
}

/// Replaces every non-ASCII character of `s` with a space.
pub fn mask_non_ascii(s: &str) -> (r: String)
    ensures
        r@ == masked(s@),
{
    let v = chars_of(s);
    let mut r = String::new();
    let mut i: usize = 0;
    while i < v.len()
        invariant
            i <= v.len(),
            v@ == s@,
            r@ =~= masked(s@).take(i as int),
        decreases v.len() - i,
    {
        let c = v[i];
        if (c as u32) < 128 {
            r.push(c);
        } else {
            r.push(' ');
        }
        i = i + 1;
    }
    assert(masked(s@).take(i as int) =~= masked(s@));
    r
}

/// The source as analysed: comments and console logging removed, non-ASCII
/// characters blanked, Cyrillic runs removed.
pub open spec fn sanitized(input: Seq<char>) -> Seq<char> {
    let without_line = erased(LINE_COMMENTS@, input);
    let without_block = erased(BLOCK_COMMENTS@, without_line);
    let without_console = erased(CONSOLE_LOGS@, without_block);
    erased(CYRILLIC@, masked(without_console))
}

/// Prepares source text for parsing: removes line and block comments and
/// console logging, replaces non-ASCII characters with spaces, and removes
/// Cyrillic runs.
pub fn sanitize_source(input: &str) -> (r: String)
    ensures
        r@ == sanitized(input@),
{
    let without_line = erase(LINE_COMMENTS, input.to_owned());
    let without_block = erase(BLOCK_COMMENTS, without_line);
    let without_console = erase(CONSOLE_LOGS, without_block);
    let ascii_only = mask_non_ascii(without_console.as_str());
    erase(CYRILLIC, ascii_only)
}

} // verus!
