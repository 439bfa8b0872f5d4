//! URL helpers shared by the download pipeline.
//!
//! Every download is keyed by the tweet status id; [`history_key`] is the
//! single rule that picks it.
use vstd::prelude::*;
use crate::pattern::{captures, regex_captures};

verus! {

/// Finds the status id in an x.com / twitter.com URL.
pub const STATUS_ID_PATTERN: &'static str = r"/status/(\d+)";

/// The status id carried by a match of [`STATUS_ID_PATTERN`]: its first
/// capture group.
pub open spec fn status_id_of(caps: Option<Seq<Option<Seq<char>>>>) -> Option<Seq<char>> {
    match caps {
        Some(c) => if 1 < c.len() {
            c[1]
        } else {
            None
        },
        None => None,
    }
}

pub open spec fn opt_str_view(o: Option<String>) -> Option<Seq<char>> {
    match o {
        Some(s) => Some(s@),
        None => None,
    }
}

/// The status id taken from a match of [`STATUS_ID_PATTERN`].
pub fn status_id_from_match(caps: Option<Vec<Option<String>>>) -> (r: Option<String>)
    ensures
        opt_str_view(r) == status_id_of(caps.deep_view()),
{
    match caps {
        Some(c) => {
            if 1 < c.len() {
                match &c[1] {
                    Some(s) => Some(s.clone()),
                    None => None,
                }
            } else {
                None
            }
        },
        None => None,
    }
}

/// Extracts the status (tweet) id from a URL like
/// `https://x.com/user/status/1234567890123456789/video/1`.
pub fn extract_status_id(url: &str) -> (r: Option<String>)
    ensures
        opt_str_view(r) == status_id_of(regex_captures(STATUS_ID_PATTERN@, url@)),
{
    status_id_from_match(captures(STATUS_ID_PATTERN, url))
}

/// The history key from an already extracted status id and the fallback id.
pub open spec fn spec_history_key(status: Option<Seq<char>>, fallback: Option<Seq<char>>) -> Option<Seq<char>> {
    match status {
        Some(s) => Some(s),
        None => match fallback {
            Some(f) => if f.len() > 0 {
                Some(f)
            } else {
                None
            },
            None => None,
        },
    }
}

pub open spec fn opt_str_ref_view(o: Option<&str>) -> Option<Seq<char>> {
    match o {
        Some(s) => Some(s@),
        None => None,
    }
}

/// The history key given the status id found in the URL (if any): that
/// id, else a non-empty fallback, else `None`.
pub fn history_key_from(status: Option<String>, fallback: Option<&str>) -> (r: Option<String>)
    ensures
        opt_str_view(r) == spec_history_key(opt_str_view(status), opt_str_ref_view(fallback)),
{
    match status {
        Some(s) => Some(s),
        None => match fallback {
            Some(f) => if f.is_empty() {
                None
            } else {
                Some(f.to_string())
            },
            None => None,
        },
    }
}

/// Canonical history key for a download: the tweet status id carried by
/// `url`, falling back to `fallback` (the yt-dlp media id) when the URL has
/// none. `None` when neither yields a non-empty id.
pub fn history_key(url: &str, fallback: Option<&str>) -> (r: Option<String>)
    ensures
        opt_str_view(r) == spec_history_key(
            status_id_of(regex_captures(STATUS_ID_PATTERN@, url@)),
            opt_str_ref_view(fallback),
        ),
{
    history_key_from(extract_status_id(url), fallback)
}

} // verus!
