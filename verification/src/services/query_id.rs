//! The bookmarks GraphQL queryId pushed by the browser extension.
use vstd::prelude::*;
use crate::text::{chars_of, is_ascii_alnum};

verus! {

/// `config` table key holding the bookmarks queryId.
pub const KEY_BOOKMARKS_QUERY_ID: &'static str = "bookmarks_query_id";

pub open spec fn query_id_char(c: char) -> bool {
    is_ascii_alnum(c) || c == '-' || c == '_'
}

/// A queryId looks like a base64url token: 8 to 60 characters of
/// `[A-Za-z0-9_-]`.
pub open spec fn spec_is_valid_query_id(v: Seq<char>) -> bool {
    8 <= v.len() <= 60 && forall|i: int| 0 <= i < v.len() ==> query_id_char(#[trigger] v[i])
}

/// Validates the shape of a captured queryId, so that an arbitrary deep
/// link cannot store a bogus value.
pub fn is_valid_query_id(value: &str) -> (b: bool)
    ensures
        b == spec_is_valid_query_id(value@),
{
    let cs = chars_of(value);
    if cs.len() < 8 || cs.len() > 60 {
        return false;
    }
    let mut i: usize = 0;
    while i < cs.len()
        invariant
            i <= cs@.len(),
            cs@ == value@,
            forall|j: int| 0 <= j < i ==> query_id_char(#[trigger] cs@[j]),
        decreases cs@.len() - i,
    {
        let c = cs[i];
        let ok = ('0' <= c && c <= '9') || ('a' <= c && c <= 'z') || ('A' <= c && c <= 'Z') || c == '-'
            || c == '_';
        if !ok {
            return false;
        }
        i = i + 1;
    }
    true
}

} // verus!
