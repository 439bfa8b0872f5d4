//! `xdownload://` deep links sent by the browser extension.
//!
//! - `xdownload://add?url=<percent-encoded status url>` queues a download;
//! - `xdownload://setqueryid?value=<id>` pushes a fresh bookmarks queryId.
use vstd::prelude::*;
use vstd::utf8::{decode_utf8, encode_utf8, valid_utf8};
use crate::services::query_id::{is_valid_query_id, spec_is_valid_query_id};
use crate::commands::download::{is_supported_url, spec_is_supported_url};
use crate::downloader::queue::{DownloadQueue, QueueView, QueuedTask, wf, holds_url, url_of, lemma_holds_after_push};
use crate::models::config::{DownloadConfig, copy_opt};
use crate::services::download_history::SOURCE_BATCH;
use crate::text::{views, trim};
use crate::services::bookmarks::{percent_encoded, is_unreserved, hex_digit};
use crate::text::{
    chars_eq, chars_of, find_char_from, find_char_from_exec, lemma_find_char_from, slice_vec,
    split, split_exec, split_once, starts_with_exec, strip_prefix, string_of, trim_end_char,
};

verus! {

broadcast use vstd::string::group_string_axioms;

// ==================== Percent decoding ====================

/// What `String::from_utf8_lossy` makes of a byte sequence.
pub uninterp spec fn utf8_lossy(bytes: Seq<u8>) -> Seq<char>;

/// Calls `String::from_utf8_lossy`. The contract claims that the result is
/// a function of the bytes alone (`utf8_lossy`) and that valid UTF-8 is
/// decoded unchanged, as its documentation states; how invalid sequences
/// are replaced is left unsaid.
#[verifier::external_body]
pub(crate) fn from_utf8_lossy(bytes: &[u8]) -> (r: String)
    ensures
        r@ == utf8_lossy(bytes@),
        valid_utf8(bytes@) ==> r@ == decode_utf8(bytes@),
{
    String::from_utf8_lossy(bytes).into_owned()
}

/// Value of an ASCII hex digit.
pub open spec fn hex_val(c: u8) -> Option<u8> {
    if 48 <= c <= 57 {
        Some((c - 48) as u8)
    } else if 97 <= c <= 102 {
        Some((c - 97 + 10) as u8)
    } else if 65 <= c <= 70 {
        Some((c - 65 + 10) as u8)
    } else {
        None
    }
}

/// Decodes `%XX` escapes of `b[i..]` into bytes; a `%` not followed by two
/// hex digits (with at least one more byte after the first) stays as is.
pub open spec fn pct_bytes(b: Seq<u8>, i: int) -> Seq<u8>
    decreases b.len() - i,
{
    if i < 0 || i >= b.len() {
        Seq::empty()
    } else if b[i] == 37 && i + 2 < b.len() && hex_val(b[i + 1]) is Some && hex_val(b[i + 2]) is Some {
        seq![(hex_val(b[i + 1])->0 * 16 + hex_val(b[i + 2])->0) as u8] + pct_bytes(b, i + 3)
    } else {
        seq![b[i]] + pct_bytes(b, i + 1)
    }
}

/// Percent-decoding of a string: the escapes of its UTF-8 bytes decoded,
/// then read back as UTF-8 (lossily).
pub open spec fn spec_percent_decode(s: Seq<char>) -> Seq<char> {
    utf8_lossy(pct_bytes(encode_utf8(s), 0))
}

/// The byte values of a sequence of ASCII characters.
pub open spec fn ascii_bytes(cs: Seq<char>) -> Seq<u8> {
    Seq::new(cs.len(), |i: int| cs[i] as u8)
}

/// The characters one byte is percent-encoded as.
pub open spec fn byte_escape(x: u8) -> Seq<char> {
    if is_unreserved(x) {
        seq![x as char]
    } else {
        seq!['%', hex_digit(x / 16), hex_digit(x % 16)]
    }
}

proof fn lemma_percent_encoded_front(b: Seq<u8>)
    requires
        b.len() > 0,
    ensures
        percent_encoded(b) == byte_escape(b[0]) + percent_encoded(b.drop_first()),
    decreases b.len(),
{
    if b.len() == 1 {
        assert(b.drop_last() =~= Seq::<u8>::empty());
        assert(b.drop_first() =~= Seq::<u8>::empty());
        assert(percent_encoded(b.drop_last()) == Seq::<char>::empty());
        assert(percent_encoded(b.drop_first()) == Seq::<char>::empty());
        assert(b.last() == b[0]);
        assert(percent_encoded(b) =~= byte_escape(b[0]));
    } else {
        lemma_percent_encoded_front(b.drop_last());
        assert(b.drop_last().drop_first() =~= b.drop_first().drop_last());
        assert(b.drop_first().last() == b.last());
        assert(b.drop_last()[0] == b[0]);
        assert(percent_encoded(b) =~= byte_escape(b[0]) + percent_encoded(b.drop_first()));
    }
}

proof fn lemma_hex_digit_round_trip(n: u8)
    requires
        n < 16,
    ensures
        '0' <= hex_digit(n) <= '\u{7f}',
        hex_val(hex_digit(n) as u8) == Some(n),
{
}

proof fn lemma_percent_encoded_ascii(b: Seq<u8>)
    ensures
        vstd::utf8::is_ascii_chars(percent_encoded(b)),
    decreases b.len(),
{
    if b.len() > 0 {
        lemma_percent_encoded_ascii(b.drop_last());
        let x = b.last();
        lemma_hex_digit_round_trip(x / 16);
        lemma_hex_digit_round_trip(x % 16);
        let e = percent_encoded(b);
        let a = percent_encoded(b.drop_last());
        assert forall|i: int| 0 <= i < e.len() implies '\0' <= #[trigger] e[i] <= '\u{7f}' by {
            if i < a.len() {
                assert(e[i] == a[i]);
            }
        }
    }
}

/// Decoding scans past a prefix that it has already read.
proof fn lemma_pct_bytes_shift(x: Seq<u8>, y: Seq<u8>, i: int)
    requires
        x.len() <= i,
    ensures
        pct_bytes(x + y, i) == pct_bytes(y, i - x.len()),
    decreases (x + y).len() - i,
{
    let b = x + y;
    let j = i - x.len();
    if i < b.len() {
        assert(b[i] == y[j]);
        if i + 1 < b.len() {
            assert(b[i + 1] == y[j + 1]);
        }
        if i + 2 < b.len() {
            assert(b[i + 2] == y[j + 2]);
        }
        lemma_pct_bytes_shift(x, y, i + 1);
        if i + 3 <= b.len() {
            lemma_pct_bytes_shift(x, y, i + 3);
        }
    }
}

/// Percent-decoding undoes percent-encoding, byte for byte.
proof fn lemma_decode_encoded(b: Seq<u8>)
    ensures
        pct_bytes(ascii_bytes(percent_encoded(b)), 0) == b,
    decreases b.len(),
{
    if b.len() == 0 {
        assert(ascii_bytes(percent_encoded(b)).len() == 0);
    } else {
        let x = b[0];
        lemma_percent_encoded_front(b);
        lemma_decode_encoded(b.drop_first());
        let p = ascii_bytes(byte_escape(x));
        let rest = ascii_bytes(percent_encoded(b.drop_first()));
        let w = ascii_bytes(percent_encoded(b));
        assert(w =~= p + rest);
        lemma_pct_bytes_shift(p, rest, p.len() as int);
        if is_unreserved(x) {
            assert(w[0] == x);
            assert(pct_bytes(w, 0) =~= seq![x] + pct_bytes(w, 1));
        } else {
            lemma_hex_digit_round_trip(x / 16);
            lemma_hex_digit_round_trip(x % 16);
            assert(w[0] == 37);
            assert(w[1] == hex_digit(x / 16) as u8);
            assert(w[2] == hex_digit(x % 16) as u8);
            assert((x / 16) * 16 + x % 16 == x);
            assert(pct_bytes(w, 0) =~= seq![x] + pct_bytes(w, 3));
        }
        assert(pct_bytes(w, 0) =~= seq![x] + b.drop_first());
        assert(seq![x] + b.drop_first() =~= b);
    }
}

fn hex_val_exec(c: u8) -> (r: Option<u8>)
    ensures
        r == hex_val(c),
{
    if 48 <= c && c <= 57 {
        Some(c - 48)
    } else if 97 <= c && c <= 102 {
        Some(c - 97 + 10)
    } else if 65 <= c && c <= 70 {
        Some(c - 65 + 10)
    } else {
        None
    }
}

/// Minimal percent-decode (`%XX` → byte); invalid `%` sequences are kept.
pub fn percent_decode_str(s: &str) -> (r: String)
    ensures
        r@ == spec_percent_decode(s@),
        forall|t: Seq<char>| #[trigger] percent_encoded(encode_utf8(t)) == s@ ==> r@ == t,
{
    let b = s.as_bytes();
    let mut out: Vec<u8> = Vec::new();
    let mut i: usize = 0;
    while i < b.len()
        invariant
            i <= b@.len(),
            b@ == encode_utf8(s@),
            pct_bytes(b@, 0) == out@ + pct_bytes(b@, i as int),
        decreases b@.len() - i,
    {
        let ghost before = out@;
        if b[i] == 37 && b.len() - i > 2 {
            let h = hex_val_exec(b[i + 1]);
            let l = hex_val_exec(b[i + 2]);
            if h.is_some() && l.is_some() {
                let hv = h.unwrap();
                let lv = l.unwrap();
                out.push(hv * 16 + lv);
                assert(out@ + pct_bytes(b@, i + 3) =~= before + pct_bytes(b@, i as int));
                i = i + 3;
                continue;
            }
        }
        out.push(b[i]);
        assert(out@ + pct_bytes(b@, i + 1) =~= before + pct_bytes(b@, i as int));
        i = i + 1;
    }
    assert(out@ =~= out@ + pct_bytes(b@, i as int));
    let r = from_utf8_lossy(out.as_slice());
    proof {
        assert forall|t: Seq<char>| #[trigger] percent_encoded(encode_utf8(t)) == s@ implies r@ == t by {
            let e = percent_encoded(encode_utf8(t));
            lemma_percent_encoded_ascii(encode_utf8(t));
            vstd::utf8::is_ascii_chars_encode_utf8(e);
            assert(encode_utf8(e) =~= ascii_bytes(e));
            lemma_decode_encoded(encode_utf8(t));
            vstd::utf8::encode_utf8_valid_utf8(t);
            vstd::utf8::encode_utf8_decode_utf8(t);
        }
    }
    r
}

// ==================== Deep links ====================

/// Scans the `k=v` pairs of a query string for `key`: `None` when some pair
/// has no `=`, else the raw value of the last pair named `key` (if any).
pub open spec fn scan_pairs(pairs: Seq<Seq<char>>, key: Seq<char>, i: int, acc: Option<Seq<char>>) -> Option<Option<Seq<char>>>
    decreases pairs.len() - i,
{
    if i < 0 || i >= pairs.len() {
        Some(acc)
    } else {
        match split_once(pairs[i], '=') {
            None => None,
            Some((k, v)) => scan_pairs(pairs, key, i + 1, if k == key { Some(v) } else { acc }),
        }
    }
}

/// The decoded value of `key` in a deep link `xdownload://<action>?<query>`
/// whose host (trailing `/` trimmed) is `action`.
pub open spec fn spec_deep_link_param(raw: Seq<char>, action: Seq<char>, key: Seq<char>) -> Option<Seq<char>> {
    match strip_prefix(raw, "xdownload://"@) {
        None => None,
        Some(rest) => match split_once(rest, '?') {
            None => None,
            Some((host, query)) => if trim_end_char(host, '/') != action {
                None
            } else {
                match scan_pairs(split(query, '&'), key, 0, None) {
                    Some(Some(v)) => Some(spec_percent_decode(v)),
                    _ => None,
                }
            },
        },
    }
}

pub open spec fn opt_view(o: Option<String>) -> Option<Seq<char>> {
    match o {
        Some(s) => Some(s@),
        None => None,
    }
}

/// `trim_end_matches(c)` on a character buffer.
pub fn trim_end_char_exec(s: &Vec<char>, c: char) -> (r: Vec<char>)
    ensures
        r@ == trim_end_char(s@, c),
{
    let mut e = s.len();
    assert(s@.take(e as int) =~= s@);
    while e > 0 && s[e - 1] == c
        invariant
            e <= s@.len(),
            trim_end_char(s@, c) == trim_end_char(s@.take(e as int), c),
        decreases e,
    {
        assert(s@.take(e as int).drop_last() =~= s@.take(e - 1));
        e = e - 1;
    }
    assert(trim_end_char(s@.take(e as int), c) == s@.take(e as int));
    slice_vec(s, 0, e)
}

/// The raw (still encoded) value of `key` in `xdownload://<action>?...`.
fn deep_link_raw_param(raw: &str, action: &str, key: &str) -> (r: Option<Vec<char>>)
    ensures
        match r {
            Some(v) => match strip_prefix(raw@, "xdownload://"@) {
                Some(rest) => match split_once(rest, '?') {
                    Some((host, query)) => trim_end_char(host, '/') == action@ && scan_pairs(
                        split(query, '&'),
                        key@,
                        0,
                        None,
                    ) == Some(Some(v@)),
                    None => false,
                },
                None => false,
            },
            None => spec_deep_link_param(raw@, action@, key@) is None,
        },
{
    proof {
        reveal_strlit("xdownload://");
    }
    let cs = chars_of(raw);
    let prefix = chars_of("xdownload://");
    if !starts_with_exec(&cs, &prefix) {
        return None;
    }
    let rest = slice_vec(&cs, 12, cs.len());
    assert(rest@ =~= cs@.skip(12));
    assert(strip_prefix(raw@, "xdownload://"@) == Some(rest@));
    let q = find_char_from_exec(&rest, '?', 0);
    let k = match q {
        Some(k) => k,
        None => return None,
    };
    proof {
        lemma_find_char_from(rest@, '?', 0);
    }
    let host = slice_vec(&rest, 0, k);
    let query = slice_vec(&rest, k + 1, rest.len());
    assert(host@ =~= rest@.take(k as int));
    assert(query@ =~= rest@.skip(k + 1));
    assert(split_once(rest@, '?') == Some((host@, query@)));
    let host_t = trim_end_char_exec(&host, '/');
    let action_cs = chars_of(action);
    if !chars_eq(&host_t, &action_cs) {
        return None;
    }
    let key_cs = chars_of(key);
    let pairs = split_exec(&query, '&');
    let ghost ps = pairs@.map_values(|v: Vec<char>| v@);
    let mut acc: Option<Vec<char>> = None;
    let mut i: usize = 0;
    while i < pairs.len()
        invariant
            i <= pairs@.len(),
            ps == pairs@.map_values(|v: Vec<char>| v@),
            key_cs@ == key@,
            strip_prefix(raw@, "xdownload://"@) == Some(rest@),
            split_once(rest@, '?') == Some((host@, query@)),
            trim_end_char(host@, '/') == action@,
            ps == split(query@, '&'),
            scan_pairs(ps, key@, 0, None) == scan_pairs(
                ps,
                key@,
                i as int,
                match acc {
                    Some(a) => Some(a@),
                    None => None,
                },
            ),
        decreases pairs@.len() - i,
    {
        let pair = &pairs[i];
        assert(ps[i as int] == pair@);
        let eq = find_char_from_exec(pair, '=', 0);
        match eq {
            None => {
                assert(split_once(ps[i as int], '=') is None);
                return None;
            },
            Some(j) => {
                proof {
                    lemma_find_char_from(pair@, '=', 0);
                }
                let plen = pair.len();
                assert(j < plen);
                let kk = slice_vec(pair, 0, j);
                let vv = slice_vec(pair, j + 1, pair.len());
                assert(kk@ =~= pair@.take(j as int));
                assert(vv@ =~= pair@.skip(j + 1));
                assert(split_once(ps[i as int], '=') == Some((kk@, vv@)));
                if chars_eq(&kk, &key_cs) {
                    acc = Some(vv);
                }
            },
        }
        i = i + 1;
    }
    acc
}

/// Parses `xdownload://add?url=<percent-encoded>` (the host may carry a
/// trailing `/`) and returns the decoded target URL; `None` for any other
/// form.
pub fn parse_deep_link_url(raw: &str) -> (r: Option<String>)
    ensures
        opt_view(r) == spec_deep_link_param(raw@, "add"@, "url"@),
{
    match deep_link_raw_param(raw, "add", "url") {
        Some(v) => {
            let vs = string_of(&v);
            Some(percent_decode_str(vs.as_str()))
        },
        None => None,
    }
}

/// Parses `xdownload://setqueryid?value=<encoded>` and returns the decoded
/// queryId when it is a valid one; `None` otherwise.
pub fn parse_query_id_deep_link(raw: &str) -> (r: Option<String>)
    ensures
        opt_view(r) == match spec_deep_link_param(raw@, "setqueryid"@, "value"@) {
            Some(v) => if spec_is_valid_query_id(v) {
                Some(v)
            } else {
                None
            },
            None => None,
        },
{
    match deep_link_raw_param(raw, "setqueryid", "value") {
        Some(v) => {
            let vs = string_of(&v);
            let d = percent_decode_str(vs.as_str());
            if is_valid_query_id(d.as_str()) {
                Some(d)
            } else {
                None
            }
        },
        None => None,
    }
}

// ==================== Handling and batching ====================

/// What a received deep link asks for.
#[derive(Debug)]
pub enum DeepLinkAction {
    /// Store a pushed bookmarks queryId.
    SaveQueryId(String),
    /// Queue a download of this X link.
    Enqueue(String),
    /// Not a deep link of ours, or a link to another site.
    Reject,
}

/// The action of a deep link: a valid `setqueryid` link saves its id; an
/// `add` link to x.com / twitter.com queues its target; anything else is
/// refused.
pub open spec fn spec_classify(raw: Seq<char>) -> (Option<Seq<char>>, Option<Seq<char>>) {
    let qid = match spec_deep_link_param(raw, "setqueryid"@, "value"@) {
        Some(v) => if spec_is_valid_query_id(v) {
            Some(v)
        } else {
            None
        },
        None => None,
    };
    if qid is Some {
        (qid, None)
    } else {
        match spec_deep_link_param(raw, "add"@, "url"@) {
            Some(t) => if spec_is_supported_url(t) {
                (None, Some(t))
            } else {
                (None, None)
            },
            None => (None, None),
        }
    }
}

/// Decides what to do with a received deep link.
pub fn classify_deep_link(raw: &str) -> (r: DeepLinkAction)
    ensures
        match r {
            DeepLinkAction::SaveQueryId(q) => spec_classify(raw@) == (Some(q@), None::<Seq<char>>),
            DeepLinkAction::Enqueue(t) => spec_classify(raw@) == (None::<Seq<char>>, Some(t@)),
            DeepLinkAction::Reject => spec_classify(raw@) == (None::<Seq<char>>, None::<Seq<char>>),
        },
{
    match parse_query_id_deep_link(raw) {
        Some(q) => DeepLinkAction::SaveQueryId(q),
        None => match parse_deep_link_url(raw) {
            Some(t) => {
                if is_supported_url(t.as_str()) {
                    DeepLinkAction::Enqueue(t)
                } else {
                    DeepLinkAction::Reject
                }
            },
            None => DeepLinkAction::Reject,
        },
    }
}

/// The texts in order, each kept only at its first occurrence.
pub open spec fn first_occurrences(s: Seq<Seq<char>>) -> Seq<Seq<char>>
    decreases s.len(),
{
    if s.len() == 0 {
        s
    } else if s.drop_last().contains(s.last()) {
        first_occurrences(s.drop_last())
    } else {
        first_occurrences(s.drop_last()).push(s.last())
    }
}

/// Keeping first occurrences keeps exactly the same texts.
pub proof fn lemma_first_occurrences_contains(s: Seq<Seq<char>>, x: Seq<char>)
    ensures
        first_occurrences(s).contains(x) <==> s.contains(x),
    decreases s.len(),
{
    if s.len() > 0 {
        let init = s.drop_last();
        lemma_first_occurrences_contains(init, x);
        assert(s =~= init.push(s.last()));
        if s.contains(x) && x != s.last() {
            let k = choose|k: int| 0 <= k < s.len() && s[k] == x;
            assert(init[k] == x);
        }
        if init.contains(x) {
            let k = choose|k: int| 0 <= k < init.len() && init[k] == x;
            assert(s[k] == x);
        }
        if !init.contains(s.last()) {
            let f = first_occurrences(init);
            assert(f.push(s.last())[f.len() as int] == s.last());
            if f.contains(x) {
                let k = choose|k: int| 0 <= k < f.len() && f[k] == x;
                assert(f.push(s.last())[k] == x);
            }
            if f.push(s.last()).contains(x) && x != s.last() {
                let k = choose|k: int| 0 <= k < f.len() + 1 && f.push(s.last())[k] == x;
                assert(f[k] == x);
            }
        }
    }
}

/// A batch of links is deduplicated: after keeping first occurrences no
/// link occurs twice, and exactly the links of the batch remain.
pub proof fn law_batch_links_deduplicated(s: Seq<Seq<char>>)
    ensures
        first_occurrences(s).no_duplicates(),
        forall|x: Seq<char>| #[trigger] first_occurrences(s).contains(x) <==> s.contains(x),
    decreases s.len(),
{
    assert forall|x: Seq<char>| #[trigger] first_occurrences(s).contains(x) <==> s.contains(x) by {
        lemma_first_occurrences_contains(s, x);
    }
    if s.len() > 0 {
        let init = s.drop_last();
        law_batch_links_deduplicated(init);
        if !init.contains(s.last()) {
            let f = first_occurrences(init);
            assert(!f.contains(s.last()));
            let g = f.push(s.last());
            assert forall|i: int, j: int| 0 <= i < g.len() && 0 <= j < g.len() && i != j implies g[i] != g[j] by {
                if i < f.len() && j < f.len() {
                } else if i == f.len() as int {
                    assert(f[j] == g[j]);
                } else {
                    assert(f[i] == g[i]);
                }
            }
        }
    }
}

/// Each link of a batch once, in the order of first arrival.
pub fn unique_targets(targets: &Vec<String>) -> (r: Vec<String>)
    ensures
        views(r@) == first_occurrences(views(targets@)),
{
    let mut out: Vec<String> = Vec::new();
    let mut i: usize = 0;
    while i < targets.len()
        invariant
            i <= targets@.len(),
            views(out@) == first_occurrences(views(targets@.take(i as int))),
        decreases targets@.len() - i,
    {
        let t = &targets[i];
        let ghost prefix = views(targets@.take(i as int));
        proof {
            assert(views(targets@.take(i + 1)) =~= prefix.push(t@));
            assert(views(targets@.take(i + 1)).drop_last() =~= prefix);
            lemma_first_occurrences_contains(prefix, t@);
        }
        let mut seen = false;
        let mut j: usize = 0;
        while j < out.len()
            invariant
                j <= out@.len(),
                seen == exists|k: int| 0 <= k < j && #[trigger] out@[k]@ == t@,
            decreases out@.len() - j,
        {
            if out[j] == *t {
                seen = true;
            }
            j = j + 1;
        }
        proof {
            if seen {
                let k = choose|k: int| 0 <= k < out@.len() && #[trigger] out@[k]@ == t@;
                assert(views(out@)[k] == t@);
            } else {
                assert forall|k: int| 0 <= k < views(out@).len() implies views(out@)[k] != t@ by {
                    assert(views(out@)[k] == out@[k]@);
                }
            }
        }
        if !seen {
            let ghost before = views(out@);
            out.push(t.clone());
            proof {
                assert(views(out@) =~= before.push(t@));
            }
        }
        i = i + 1;
    }
    proof {
        assert(targets@.take(i as int) =~= targets@);
    }
    out
}

/// A deep link whose video information was fetched (or not).
#[derive(Debug)]
pub struct FetchedLink {
    pub target: String,
    /// The status id taken from the link (the history key).
    pub video_id: Option<String>,
    pub title: Option<String>,
    /// The fetched information as JSON text, when the fetch succeeded.
    pub info: Option<String>,
}

/// The download config of a deep-link task: best video and audio into
/// `output_dir`, named by title, with the configured rate limit.
pub open spec fn is_deep_link_config(c: DownloadConfig, target: Seq<char>, video_id: Option<String>, title: Option<String>, output_dir: Seq<char>, rate: Option<String>) -> bool {
    &&& c.url@ == target
    &&& c.video_id == video_id
    &&& c.title == title
    &&& c.thumbnail is None
    &&& c.uploader is None
    &&& c.duration == 0
    &&& c.view_count == 0
    &&& c.like_count == 0
    &&& c.format_id@ == "bestvideo+bestaudio/best"@
    &&& c.output_dir@ == output_dir
    &&& c.output_template@ == "%(title)s.%(ext)s"@
    &&& !c.extract_audio && !c.embed_subtitles && !c.embed_thumbnail && !c.write_thumbnail
    &&& c.proxy is None
    &&& c.socket_timeout == 30
    &&& c.cookies_from_browser is None
    &&& c.max_height == 0
    &&& c.download_archive is None
    &&& c.playlist_items is None
    &&& c.download_rate_limit == rate
}

/// The download config of a deep-link task.
pub fn deep_link_config(
    target: &str,
    video_id: Option<String>,
    title: Option<String>,
    output_dir: &str,
    rate: Option<String>,
) -> (r: DownloadConfig)
    ensures
        is_deep_link_config(r, target@, video_id, title, output_dir@, rate),
{
    DownloadConfig {
        url: target.to_string(),
        video_id,
        title,
        thumbnail: None,
        uploader: None,
        duration: 0,
        view_count: 0,
        like_count: 0,
        format_id: "bestvideo+bestaudio/best".to_string(),
        output_dir: output_dir.to_string(),
        output_template: "%(title)s.%(ext)s".to_string(),
        extract_audio: false,
        embed_subtitles: false,
        embed_thumbnail: false,
        write_thumbnail: false,
        proxy: None,
        socket_timeout: 30,
        cookies_from_browser: None,
        max_height: 0,
        download_archive: None,
        playlist_items: None,
        download_rate_limit: rate,
    }
}

/// Whether link `i` of a batch is new: its trimmed URL is not empty, not
/// held by the queue `o` the batch started from, and not that of an
/// earlier link of the batch.
pub open spec fn is_new_link(o: QueueView, ls: Seq<FetchedLink>, i: int) -> bool {
    &&& trim(ls[i].target@).len() > 0
    &&& !holds_url(o, trim(ls[i].target@))
    &&& forall|j: int| 0 <= j < i ==> trim(#[trigger] ls[j].target@) != trim(ls[i].target@)
}

/// The indices, in order, of the new links among the first `n`.
pub open spec fn new_link_indices(o: QueueView, ls: Seq<FetchedLink>, n: int) -> Seq<int>
    decreases n,
{
    if n <= 0 {
        Seq::empty()
    } else {
        let r = new_link_indices(o, ls, n - 1);
        if is_new_link(o, ls, n - 1) {
            r.push(n - 1)
        } else {
            r
        }
    }
}

/// The task queued for a batch link: the deep-link config of the link
/// (its URL trimmed), with the link's title and fetched information, the
/// batch source, waiting and not resumed.
pub open spec fn is_batch_task(t: QueuedTask, l: FetchedLink, output_dir: Seq<char>, rate: Option<String>) -> bool {
    &&& is_deep_link_config(t.config, trim(l.target@), l.video_id, l.title, output_dir, rate)
    &&& t.title == l.title
    &&& t.info == l.info
    &&& t.source == SOURCE_BATCH
    &&& !t.resume
    &&& t.status@ == "queued"@
}

/// Some link before index `i` of the batch has the (non-empty) trimmed URL `u`.
pub open spec fn batch_url(ls: Seq<FetchedLink>, i: int, u: Seq<char>) -> bool {
    exists|j: int| 0 <= j < i && trim(ls[j].target@).len() > 0 && trim(#[trigger] ls[j].target@) == u
}

proof fn lemma_new_link_indices_bound(o: QueueView, ls: Seq<FetchedLink>, n: int)
    requires
        0 <= n,
    ensures
        new_link_indices(o, ls, n).len() <= n,
        forall|k: int| 0 <= k < new_link_indices(o, ls, n).len() ==> 0 <= #[trigger] new_link_indices(o, ls, n)[k] < n,
    decreases n,
{
    if n > 0 {
        lemma_new_link_indices_bound(o, ls, n - 1);
    }
}

/// Queues a batch of deep-link downloads as batch tasks, in order, and
/// returns how many were added: exactly the new links (see `is_new_link`),
/// each as a batch task built from the link (see `is_batch_task`),
/// appended in the order of the links. Afterwards every link of the batch
/// (with a non-empty trimmed URL) is held by the queue; only the queue's
/// waiting list grows, by exactly the added tasks.
pub fn enqueue_deep_links(
    queue: &mut DownloadQueue,
    links: Vec<FetchedLink>,
    output_dir: &str,
    rate: &Option<String>,
) -> (added: usize)
    requires
        wf(old(queue)@),
    ensures
        wf(final(queue)@),
        added == new_link_indices(old(queue)@, links@, links@.len() as int).len(),
        final(queue)@.queued.len() == old(queue)@.queued.len() + added,
        final(queue)@.queued.take(old(queue)@.queued.len() as int) == old(queue)@.queued,
        forall|k: int|
            0 <= k < added ==> is_batch_task(
                #[trigger] final(queue)@.queued[old(queue)@.queued.len() + k],
                links@[new_link_indices(old(queue)@, links@, links@.len() as int)[k]],
                output_dir@,
                *rate,
            ),
        final(queue)@.running == old(queue)@.running,
        final(queue)@.paused_tasks == old(queue)@.paused_tasks,
        final(queue)@.paused == old(queue)@.paused,
        final(queue)@.slots == old(queue)@.slots,
        forall|i: int|
            0 <= i < links@.len() && trim(#[trigger] links@[i].target@).len() > 0 ==> holds_url(
                final(queue)@,
                trim(links@[i].target@),
            ),
{
    let ghost o = queue@;
    let n = links.len();
    let mut added: usize = 0;
    let mut i: usize = 0;
    let ghost ls = links@;
    let mut rest = links;
    while i < n
        invariant
            n == ls.len(),
            i <= n,
            rest@ == ls.subrange(i as int, n as int),
            added <= i,
            added == new_link_indices(o, ls, i as int).len(),
            wf(queue@),
            queue@.queued.len() == o.queued.len() + added,
            queue@.queued.take(o.queued.len() as int) == o.queued,
            forall|k: int|
                0 <= k < added ==> is_batch_task(
                    #[trigger] queue@.queued[o.queued.len() + k],
                    ls[new_link_indices(o, ls, i as int)[k]],
                    output_dir@,
                    *rate,
                ),
            forall|u: Seq<char>| #[trigger] holds_url(queue@, u) <==> holds_url(o, u) || batch_url(ls, i as int, u),
            queue@.running == o.running,
            queue@.paused_tasks == o.paused_tasks,
            queue@.paused == o.paused,
            queue@.slots == o.slots,
            forall|j: int| 0 <= j < i && trim(#[trigger] ls[j].target@).len() > 0 ==> holds_url(queue@, trim(ls[j].target@)),
        decreases n - i,
    {
        let link = rest.remove(0);
        proof {
            assert(ls.subrange(i as int, n as int)[0] == ls[i as int]);
            assert(ls.subrange(i as int, n as int).remove(0) =~= ls.subrange(i + 1, n as int));
        }
        let ghost before = queue@;
        let ghost l = ls[i as int];
        let ghost t = trim(l.target@);
        let ghost idx = new_link_indices(o, ls, i as int);
        proof {
            lemma_new_link_indices_bound(o, ls, i as int);
            if t.len() > 0 {
                if batch_url(ls, i as int, t) {
                    let j = choose|j: int| 0 <= j < i && trim(ls[j].target@).len() > 0 && trim(#[trigger] ls[j].target@) == t;
                    assert(!is_new_link(o, ls, i as int));
                }
                if is_new_link(o, ls, i as int) {
                    assert(!holds_url(before, t));
                }
                if !holds_url(before, t) {
                    assert forall|j: int| 0 <= j < i implies trim(#[trigger] ls[j].target@) != t by {
                        if trim(ls[j].target@) == t {
                            assert(batch_url(ls, i as int, t));
                        }
                    }
                    assert(is_new_link(o, ls, i as int));
                }
            }
        }
        let config = deep_link_config(link.target.as_str(), link.video_id, copy_opt(&link.title), output_dir, copy_opt(rate));
        let r = queue.enqueue(config, link.title, link.info, SOURCE_BATCH);
        proof {
            assert forall|j: int| 0 <= j < i + 1 && trim(#[trigger] ls[j].target@).len() > 0 implies holds_url(queue@, trim(ls[j].target@)) by {
                if j < i {
                    assert(holds_url(before, trim(ls[j].target@)));
                    if queue@.queued.len() > before.queued.len() {
                        lemma_holds_after_push(before, queue@.queued.last(), trim(ls[j].target@));
                        assert(queue@ == QueueView { queued: before.queued.push(queue@.queued.last()), next_seq: queue@.next_seq, ..before });
                    }
                } else {
                    if queue@.queued.len() > before.queued.len() {
                        lemma_holds_after_push(before, queue@.queued.last(), trim(ls[j].target@));
                        assert(queue@ == QueueView { queued: before.queued.push(queue@.queued.last()), next_seq: queue@.next_seq, ..before });
                    }
                }
            }
            assert forall|u: Seq<char>| #[trigger] holds_url(queue@, u) <==> holds_url(o, u) || batch_url(ls, i + 1, u) by {
                assert(holds_url(before, u) <==> holds_url(o, u) || batch_url(ls, i as int, u));
                if u == t && t.len() > 0 {
                    assert(trim(ls[i as int].target@) == u);
                    assert(batch_url(ls, i + 1, u));
                }
                if batch_url(ls, i as int, u) {
                    let j = choose|j: int| 0 <= j < i && trim(ls[j].target@).len() > 0 && trim(#[trigger] ls[j].target@) == u;
                    assert(batch_url(ls, i + 1, u));
                }
                if batch_url(ls, i + 1, u) && !batch_url(ls, i as int, u) {
                    let j = choose|j: int| 0 <= j < i + 1 && trim(ls[j].target@).len() > 0 && trim(#[trigger] ls[j].target@) == u;
                    assert(j == i);
                }
                if queue@.queued.len() > before.queued.len() {
                    assert(queue@ == QueueView { queued: before.queued.push(queue@.queued.last()), next_seq: queue@.next_seq, ..before });
                    lemma_holds_after_push(before, queue@.queued.last(), u);
                    assert(url_of(queue@.queued.last()) == t);
                    assert(holds_url(queue@, u) == holds_url(QueueView { queued: before.queued.push(queue@.queued.last()), ..before }, u));
                } else {
                    if t.len() > 0 {
                        assert(queue@ == QueueView { next_seq: queue@.next_seq, ..before });
                        assert(holds_url(before, t));
                    } else {
                        assert(queue@ == before);
                    }
                    assert(holds_url(queue@, u) == holds_url(before, u));
                }
            }
        }
        match r {
            Ok(_) => {
                proof {
                    assert(is_new_link(o, ls, i as int));
                    assert(new_link_indices(o, ls, i + 1) == idx.push(i as int));
                    assert(queue@.queued == before.queued.push(queue@.queued.last()));
                    assert(is_batch_task(queue@.queued.last(), l, output_dir@, *rate));
                    assert forall|k: int| 0 <= k < added + 1 implies is_batch_task(
                        #[trigger] queue@.queued[o.queued.len() + k],
                        ls[new_link_indices(o, ls, i + 1)[k]],
                        output_dir@,
                        *rate,
                    ) by {
                        if k < added {
                            assert(queue@.queued[o.queued.len() + k] == before.queued[o.queued.len() + k]);
                        }
                    }
                }
                added = added + 1;
                proof {
                    assert(queue@.queued.take(o.queued.len() as int) =~= o.queued);
                }
            },
            Err(_) => {
                proof {
                    assert(!is_new_link(o, ls, i as int));
                    assert(new_link_indices(o, ls, i + 1) == idx);
                }
            },
        }
        i = i + 1;
    }
    added
}

} // verus!
