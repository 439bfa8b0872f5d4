//! Regular-expression matching, done by the `regex` crate.
use vstd::prelude::*;

verus! {

/// The capture groups that `regex::Regex` compiled from `pattern` reports
/// for its leftmost-first match in `text` (group 0 is the whole match);
/// `None` when the pattern does not compile or does not match.
pub uninterp spec fn regex_captures(pattern: Seq<char>, text: Seq<char>) -> Option<Seq<Option<Seq<char>>>>;

/// Text of capture group `i`, empty when the group did not take part in the
/// match.
pub open spec fn group(caps: Seq<Option<Seq<char>>>, i: int) -> Seq<char> {
    if 0 <= i < caps.len() && caps[i] is Some {
        caps[i]->0
    } else {
        Seq::empty()
    }
}

/// Calls `regex::Regex::new(pattern)` and then `Regex::captures(text)`.
/// The contract claims only that the result, group by group, is what the
/// crate computes from these two arguments (the name `regex_captures`).
#[verifier::external_body]
pub(crate) fn captures(pattern: &str, text: &str) -> (r: Option<Vec<Option<String>>>)
    ensures
        r.deep_view() == regex_captures(pattern@, text@),
{
    let re = regex::Regex::new(pattern).ok()?;
    let caps = re.captures(text)?;
    Some(caps.iter().map(|m| m.map(|m| m.as_str().to_string())).collect())
}

/// The capture groups of every successive non-overlapping match that
/// `regex::Regex` compiled from `pattern` finds in `text`, in order; empty
/// when the pattern does not compile or nothing matches.
pub uninterp spec fn regex_captures_all(pattern: Seq<char>, text: Seq<char>) -> Seq<Seq<Option<Seq<char>>>>;

/// Calls `regex::Regex::new(pattern)` and then `Regex::captures_iter(text)`.
/// The contract claims only that the matches, group by group, are what the
/// crate computes from these two arguments (the name `regex_captures_all`).
#[verifier::external_body]
pub(crate) fn captures_all(pattern: &str, text: &str) -> (r: Vec<Vec<Option<String>>>)
    ensures
        r.deep_view() == regex_captures_all(pattern@, text@),
{
    match regex::Regex::new(pattern) {
        Ok(re) => re.captures_iter(text).map(|c| c.iter().map(|m| m.map(|m| m.as_str().to_string())).collect()).collect(),
        Err(_) => Vec::new(),
    }
}

/// One match: the byte offsets of the whole match and the text of group 1.
pub struct Span {
    pub start: usize,
    pub end: usize,
    pub group1: Option<String>,
}

/// The whole-match byte offsets and the group-1 text of every successive
/// non-overlapping match that `regex::Regex` compiled from `pattern` finds
/// in `text`, in order; empty when the pattern does not compile.
pub uninterp spec fn regex_spans(pattern: Seq<char>, text: Seq<char>) -> Seq<(usize, usize, Option<Seq<char>>)>;

/// A match as plain values.
pub open spec fn span_of(m: Span) -> (usize, usize, Option<Seq<char>>) {
    (
        m.start,
        m.end,
        match m.group1 {
            Some(g) => Some(g@),
            None => None,
        },
    )
}

/// The matches as plain values.
pub open spec fn spans_view(v: Seq<Span>) -> Seq<(usize, usize, Option<Seq<char>>)> {
    v.map_values(|m: Span| span_of(m))
}

/// Calls `regex::Regex::new(pattern)`, `Regex::captures_iter(text)` and, on
/// each match, `Captures::get_match` (`Match::start`, `Match::end`) and
/// `Captures::get(1)`. The contract claims that the matches are a function
/// of the two arguments (`regex_spans`) and, as the crate documents, that a
/// match starts no later than it ends and ends within the text.
#[verifier::external_body]
pub(crate) fn match_spans(pattern: &str, text: &str) -> (r: Vec<Span>)
    ensures
        spans_view(r@) == regex_spans(pattern@, text@),
        forall|i: int| 0 <= i < r@.len() ==> #[trigger] r@[i].start <= r@[i].end <= text.len(),
{
    match regex::Regex::new(pattern) {
        Ok(re) => re.captures_iter(text).map(|c| Span {
            start: c.get_match().start(),
            end: c.get_match().end(),
            group1: c.get(1).map(|g| g.as_str().to_string()),
        }).collect(),
        Err(_) => Vec::new(),
    }
}

/// What `str::get(start..end)` gives: the text of the UTF-8 bytes between
/// the two offsets, `None` when they are out of order, beyond the text or
/// inside a character.
pub open spec fn str_byte_range(text: Seq<char>, start: usize, end: usize) -> Option<Seq<char>> {
    let b = vstd::utf8::encode_utf8(text);
    if start <= end && end <= b.len() && vstd::utf8::is_char_boundary(b, start as int) && vstd::utf8::is_char_boundary(
        b,
        end as int,
    ) {
        Some(vstd::utf8::decode_utf8(b.subrange(start as int, end as int)))
    } else {
        None
    }
}

/// Calls `str::get` with a byte range. The contract claims what std
/// documents of it (`str_byte_range`): the slice between two offsets that
/// lie on character boundaries, in order and within the text, else `None`.
#[verifier::external_body]
pub(crate) fn byte_range(text: &str, start: usize, end: usize) -> (r: Option<String>)
    ensures
        match r {
            Some(s) => str_byte_range(text@, start, end) == Some(s@),
            None => str_byte_range(text@, start, end) is None,
        },
{
    text.get(start..end).map(|s| s.to_string())
}

/// Text of capture group `i` of a match, empty when absent.
pub fn group_text(caps: &Vec<Option<String>>, i: usize) -> (r: String)
    ensures
        r@ == group(caps.deep_view(), i as int),
{
    if i < caps.len() {
        match &caps[i] {
            Some(s) => s.clone(),
            None => String::new(),
        }
    } else {
        String::new()
    }
}

} // verus!
