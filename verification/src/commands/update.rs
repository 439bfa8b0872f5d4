//! Update checks for yt-dlp and ffmpeg: version parsing and comparison and
//! the "is there a newer build" decision.
use vstd::prelude::*;
use crate::numbers::{dec_int, i64_to_string, parse_i64, parse_i64_str, parse_unsigned, parse_u32};
use crate::text::{
    chars_of, find, find_exec, is_digit, slice_vec, split, split_exec, starts_with, string_of,
    trim_start_char, chars_eq, find_char_from, find_char_from_exec, lemma_find_char_from, lemma_find_from,
};

verus! {

broadcast use vstd::string::group_string_axioms;

/// Asset watched for ffmpeg updates.
pub const FFMPEG_ASSET_NAME: &'static str = "ffmpeg-master-latest-win64-gpl.zip";

/// Tolerance for the delay between a build and its release (6 hours).
pub const RELEASE_LAG_TOLERANCE_SECS: i64 = 21600;

/// Remote ffmpeg information is cached for 24 hours.
pub const CACHE_TTL_SECS: i64 = 86400;

pub const KEY_REMOTE_AT: &'static str = "ffmpeg_remote_published_at";
pub const KEY_REMOTE_ETAG: &'static str = "ffmpeg_remote_asset_etag";
pub const KEY_FETCHED_AT: &'static str = "ffmpeg_remote_fetched_at";

// ==================== Update decision ====================

pub open spec fn opt_str(o: Option<&str>) -> Option<Seq<char>> {
    match o {
        Some(s) => Some(s@),
        None => None,
    }
}

/// Whether a newer build exists. When both entity tags are known, whether
/// they differ; otherwise, when the remote asset time is known, whether it
/// is later than the install time (or, lacking that, than the file time
/// plus the release-lag tolerance); otherwise false.
pub open spec fn spec_decide_has_update(
    remote_etag: Option<Seq<char>>,
    local_etag: Option<Seq<char>>,
    remote_asset_at: Option<int>,
    local_installed_at: Option<int>,
    local_mtime: Option<int>,
) -> bool {
    if remote_etag is Some && local_etag is Some {
        remote_etag->0 != local_etag->0
    } else if remote_asset_at is Some {
        let base = if local_installed_at is Some {
            local_installed_at
        } else if local_mtime is Some {
            Some(local_mtime->0 + RELEASE_LAG_TOLERANCE_SECS)
        } else {
            None
        };
        base is Some && remote_asset_at->0 > base->0
    } else {
        false
    }
}

pub open spec fn opt_i64(o: Option<i64>) -> Option<int> {
    match o {
        Some(v) => Some(v as int),
        None => None,
    }
}

/// Decides whether a newer ffmpeg build exists (ETag first, then asset
/// time against install time, or file time plus tolerance).
pub fn decide_has_update(
    remote_etag: Option<&str>,
    local_etag: Option<&str>,
    remote_asset_at: Option<i64>,
    local_installed_at: Option<i64>,
    local_mtime: Option<i64>,
) -> (r: bool)
    requires
        !(remote_etag is Some && local_etag is Some) && remote_asset_at is Some && local_installed_at is None
            && local_mtime is Some ==> local_mtime->0 <= i64::MAX - RELEASE_LAG_TOLERANCE_SECS,
    ensures
        r == spec_decide_has_update(
            opt_str(remote_etag),
            opt_str(local_etag),
            opt_i64(remote_asset_at),
            opt_i64(local_installed_at),
            opt_i64(local_mtime),
        ),
{
    if let (Some(remote), Some(local)) = (remote_etag, local_etag) {
        let a = chars_of(remote);
        let b = chars_of(local);
        return !chars_eq(&a, &b);
    }
    if let Some(remote) = remote_asset_at {
        let base = match local_installed_at {
            Some(i) => Some(i),
            None => match local_mtime {
                Some(m) => Some(m + RELEASE_LAG_TOLERANCE_SECS),
                None => None,
            },
        };
        return match base {
            Some(b) => remote > b,
            None => false,
        };
    }
    false
}

/// The remote cache is fresh when the stored fetch time parses and lies
/// less than `ttl` seconds before `now`.
pub open spec fn spec_cache_fresh(fetched_raw: Option<Seq<char>>, now: int, ttl: int) -> bool {
    match fetched_raw {
        Some(raw) => match parse_i64(raw) {
            Some(f) => now - f < ttl,
            None => false,
        },
        None => false,
    }
}

/// Whether the cached remote ffmpeg information is still within its TTL,
/// given the stored fetch time (`None` when absent) and the current time.
pub fn ffmpeg_remote_cache_fresh(fetched_raw: Option<&str>, now: i64, ttl_secs: i64) -> (r: bool)
    requires
        forall|f: int| #![auto] fetched_raw is Some && parse_i64(fetched_raw->0@) == Some(f) ==> i64::MIN <= now - f <= i64::MAX,
    ensures
        r == spec_cache_fresh(opt_str(fetched_raw), now as int, ttl_secs as int),
{
    match fetched_raw {
        Some(raw) => match parse_i64_str(raw) {
            Some(f) => now - f < ttl_secs,
            None => false,
        },
        None => false,
    }
}

/// The config entries that record a fresh fetch of the remote information:
/// the fetch time `now` under `key_fetched` and the asset time (empty when
/// unknown) under `key_at`.
pub fn save_ffmpeg_remote_cache(key_at: &str, key_fetched: &str, at: Option<&str>, now: i64) -> (r: Vec<(String, String)>)
    ensures
        r@.len() == 2,
        r@[0].0@ == key_fetched@,
        r@[0].1@ == dec_int(now as int),
        r@[1].0@ == key_at@,
        r@[1].1@ == match at {
            Some(a) => a@,
            None => Seq::<char>::empty(),
        },
{
    let mut v: Vec<(String, String)> = Vec::new();
    v.push((key_fetched.to_string(), i64_to_string(now)));
    v.push((
        key_at.to_string(),
        match at {
            Some(a) => a.to_string(),
            None => String::new(),
        },
    ));
    v
}

// ==================== Version parsing ====================

pub open spec fn is_version_sep(c: char) -> bool {
    c == ' ' || c == '\t' || c == '\r' || c == '\n'
}

/// Length of the longest prefix of `s[i..]` without a version separator.
pub open spec fn token_end(s: Seq<char>, i: int) -> int
    decreases s.len() - i,
{
    if 0 <= i < s.len() && !is_version_sep(s[i]) {
        token_end(s, i + 1)
    } else {
        i
    }
}

/// End of the run of ASCII digits that starts at `i`.
pub open spec fn digits_end(s: Seq<char>, i: int) -> int
    decreases s.len() - i,
{
    if 0 <= i < s.len() && is_digit(s[i]) {
        digits_end(s, i + 1)
    } else {
        i
    }
}

/// The version shown for an `ffmpeg -version` first line: a numeric
/// release `7.1-...` gives `7.1`; a master build `N-118075-g...` gives
/// `N-118075`; anything else gives `None`.
pub open spec fn spec_parse_ffmpeg_version(line: Seq<char>) -> Option<Seq<char>> {
    match find(line, "ffmpeg version "@) {
        None => None,
        Some(idx) => {
            let after = line.skip(idx + 15);
            let token = after.take(token_end(after, 0));
            if token.len() == 0 {
                None
            } else if is_digit(token[0]) {
                Some(split(token, '-')[0])
            } else if starts_with(token, "N-"@) && digits_end(token, 2) > 2 {
                Some("N-"@ + token.subrange(2, digits_end(token, 2)))
            } else {
                None
            }
        },
    }
}

pub open spec fn opt_string(o: Option<String>) -> Option<Seq<char>> {
    match o {
        Some(s) => Some(s@),
        None => None,
    }
}

/// Extracts a displayable version from an `ffmpeg -version` first line.
pub fn parse_ffmpeg_version(line: &str) -> (r: Option<String>)
    ensures
        opt_string(r) == spec_parse_ffmpeg_version(line@),
{
    proof {
        reveal_strlit("ffmpeg version ");
        reveal_strlit("N-");
    }
    let cs = chars_of(line);
    let pat = chars_of("ffmpeg version ");
    let idx = match find_exec(&cs, &pat) {
        Some(i) => i,
        None => return None,
    };
    proof {
        crate::text::lemma_find_from(cs@, pat@, 0);
    }
    assert(pat@.len() == 15);
    assert(crate::text::occurs_at(cs@, pat@, idx as int));
    let clen = cs.len();
    assert(idx + 15 <= clen);
    let after = slice_vec(&cs, idx + 15, cs.len());
    assert(after@ =~= cs@.skip(idx + 15));
    let mut e: usize = 0;
    while e < after.len() && !(after[e] == ' ' || after[e] == '\t' || after[e] == '\r' || after[e] == '\n')
        invariant
            e <= after@.len(),
            token_end(after@, 0) == token_end(after@, e as int),
        decreases after@.len() - e,
    {
        e = e + 1;
    }
    let token = slice_vec(&after, 0, e);
    assert(token@ =~= after@.take(e as int));
    if token.len() == 0 {
        return None;
    }
    if '0' <= token[0] && token[0] <= '9' {
        let pieces = split_exec(&token, '-');
        let first = string_of(&pieces[0]);
        assert(pieces@.map_values(|v: Vec<char>| v@)[0] == pieces@[0]@);
        return Some(first);
    }
    if token.len() >= 2 && token[0] == 'N' && token[1] == '-' {
        assert(crate::text::starts_with(token@, "N-"@)) by {
            assert(token@.subrange(0, 2) =~= "N-"@);
        }
        let mut d: usize = 2;
        while d < token.len() && '0' <= token[d] && token[d] <= '9'
            invariant
                2 <= d <= token@.len(),
                digits_end(token@, 2) == digits_end(token@, d as int),
            decreases token@.len() - d,
        {
            d = d + 1;
        }
        if d > 2 {
            let mut out: Vec<char> = Vec::new();
            out.push('N');
            out.push('-');
            let mut k: usize = 2;
            while k < d
                invariant
                    2 <= k <= d <= token@.len(),
                    out@ == "N-"@ + token@.subrange(2, k as int),
                decreases d - k,
            {
                out.push(token[k]);
                k = k + 1;
                assert(out@ =~= "N-"@ + token@.subrange(2, k as int));
            }
            return Some(string_of(&out));
        }
        return None;
    }
    proof {
        if starts_with(token@, "N-"@) {
            assert(token@.subrange(0, 2) == "N-"@);
            assert(token@.subrange(0, 2)[0] == 'N');
            assert(token@.subrange(0, 2)[1] == '-');
        }
    }
    None
}

/// Same as [`parse_ffmpeg_version`], for the bootstrap commands.
pub fn parse_ffmpeg_version_export(line: &str) -> (r: Option<String>)
    ensures
        opt_string(r) == spec_parse_ffmpeg_version(line@),
{
    parse_ffmpeg_version(line)
}

// ==================== Semver comparison ====================

/// The numeric components of a dotted version; components that are no
/// `u32` are skipped.
pub open spec fn version_numbers(pieces: Seq<Seq<char>>) -> Seq<nat>
    decreases pieces.len(),
{
    if pieces.len() == 0 {
        Seq::empty()
    } else {
        let r = version_numbers(pieces.drop_last());
        match parse_unsigned(pieces.last(), u32::MAX as nat) {
            Some(v) => r.push(v),
            None => r,
        }
    }
}

pub open spec fn component(v: Seq<nat>, i: int) -> nat {
    if 0 <= i < v.len() {
        v[i]
    } else {
        0
    }
}

/// Lexicographic comparison from index `i`, missing components read as 0.
pub open spec fn version_order_from(a: Seq<nat>, b: Seq<nat>, i: int) -> i32
    decreases (if a.len() > b.len() { a.len() } else { b.len() }) - i,
{
    if i < 0 || (i >= a.len() && i >= b.len()) {
        0i32
    } else if component(a, i) > component(b, i) {
        1i32
    } else if component(a, i) < component(b, i) {
        -1i32
    } else {
        version_order_from(a, b, i + 1)
    }
}

/// Semver-style comparison of two dotted versions: 1, 0 or -1.
pub open spec fn spec_version_order(a: Seq<char>, b: Seq<char>) -> i32 {
    version_order_from(version_numbers(split(a, '.')), version_numbers(split(b, '.')), 0)
}

proof fn lemma_order_from_antisymmetric(a: Seq<nat>, b: Seq<nat>, i: int)
    ensures
        version_order_from(a, b, i) == -version_order_from(b, a, i),
        version_order_from(a, a, i) == 0,
    decreases (if a.len() > b.len() { a.len() } else { b.len() }) - i,
{
    if i < 0 || (i >= a.len() && i >= b.len()) {
    } else {
        lemma_order_from_antisymmetric(a, b, i + 1);
    }
    if !(i < 0 || i >= a.len()) {
        lemma_order_from_antisymmetric(a, a, i + 1);
    }
}

/// Version comparison is a consistent order: swapping the versions flips
/// the answer, and a version is never newer than itself (so no update is
/// offered for the installed version).
pub proof fn law_version_order_antisymmetric(a: Seq<char>, b: Seq<char>)
    ensures
        spec_version_order(a, b) == -spec_version_order(b, a),
        spec_version_order(a, a) == 0,
{
    lemma_order_from_antisymmetric(version_numbers(split(a, '.')), version_numbers(split(b, '.')), 0);
    lemma_order_from_antisymmetric(version_numbers(split(a, '.')), version_numbers(split(a, '.')), 0);
}

proof fn lemma_order_from_first_difference(a: Seq<nat>, b: Seq<nat>, i: int, k: int)
    requires
        0 <= i <= k,
        forall|j: int| i <= j < k ==> component(a, j) == component(b, j),
        component(a, k) != component(b, k),
    ensures
        version_order_from(a, b, i) == (if component(a, k) > component(b, k) { 1i32 } else { -1i32 }),
    decreases k - i,
{
    if i < k {
        assert(component(a, i) == component(b, i));
        if i >= a.len() && i >= b.len() {
            assert(component(a, k) == 0 && component(b, k) == 0);
        }
        lemma_order_from_first_difference(a, b, i + 1, k);
    } else {
        assert(!(i >= a.len() && i >= b.len()));
    }
}

proof fn lemma_order_from_all_equal(a: Seq<nat>, b: Seq<nat>, i: int)
    requires
        0 <= i,
        forall|j: int| i <= j ==> component(a, j) == component(b, j),
    ensures
        version_order_from(a, b, i) == 0i32,
    decreases (if a.len() > b.len() { a.len() } else { b.len() }) - i,
{
    if !(i >= a.len() && i >= b.len()) {
        assert(component(a, i) == component(b, i));
        lemma_order_from_all_equal(a, b, i + 1);
    }
}

/// Versions are ordered by their first differing numeric component, over
/// all components (a missing one reads as 0): when `a` and `b` agree on the
/// first `k` components and differ at component `k`, the order is 1 or -1
/// as that component is larger or smaller; when they agree on every
/// component they are equal (0).
pub proof fn law_version_order_first_difference(a: Seq<char>, b: Seq<char>, k: int)
    requires
        0 <= k,
    ensures
        ({
            let va = version_numbers(split(a, '.'));
            let vb = version_numbers(split(b, '.'));
            &&& (forall|j: int| 0 <= j < k ==> #[trigger] component(va, j) == component(vb, j)) && component(va, k)
                != component(vb, k) ==> spec_version_order(a, b) == (if component(va, k) > component(vb, k) {
                1i32
            } else {
                -1i32
            })
            &&& (forall|j: int| 0 <= j ==> #[trigger] component(va, j) == component(vb, j)) ==> spec_version_order(a, b)
                == 0i32
        }),
{
    let va = version_numbers(split(a, '.'));
    let vb = version_numbers(split(b, '.'));
    if (forall|j: int| 0 <= j < k ==> #[trigger] component(va, j) == component(vb, j)) && component(va, k) != component(
        vb,
        k,
    ) {
        lemma_order_from_first_difference(va, vb, 0, k);
    }
    if forall|j: int| 0 <= j ==> #[trigger] component(va, j) == component(vb, j) {
        lemma_order_from_all_equal(va, vb, 0);
    }
}

/// The components of a version are its dotted pieces read as numbers: when
/// every piece is a `u32` number, there is one component per piece, each
/// the value of its piece.
pub proof fn law_version_components_are_the_pieces(pieces: Seq<Seq<char>>)
    requires
        forall|i: int| 0 <= i < pieces.len() ==> (#[trigger] parse_unsigned(pieces[i], u32::MAX as nat)) is Some,
    ensures
        version_numbers(pieces).len() == pieces.len(),
        forall|i: int|
            0 <= i < pieces.len() ==> Some(#[trigger] version_numbers(pieces)[i]) == parse_unsigned(
                pieces[i],
                u32::MAX as nat,
            ),
    decreases pieces.len(),
{
    if pieces.len() > 0 {
        let init = pieces.drop_last();
        assert forall|i: int| 0 <= i < init.len() implies (#[trigger] parse_unsigned(init[i], u32::MAX as nat)) is Some by {
            assert(init[i] == pieces[i]);
            assert(parse_unsigned(pieces[i], u32::MAX as nat) is Some);
        }
        law_version_components_are_the_pieces(init);
        assert(parse_unsigned(pieces[pieces.len() - 1], u32::MAX as nat) is Some);
        assert forall|i: int| 0 <= i < pieces.len() implies Some(#[trigger] version_numbers(pieces)[i]) == parse_unsigned(
            pieces[i],
            u32::MAX as nat,
        ) by {
            if i < init.len() {
                assert(init[i] == pieces[i]);
                assert(Some(version_numbers(init)[i]) == parse_unsigned(init[i], u32::MAX as nat));
            }
        }
    }
}

fn version_numbers_exec(v: &str) -> (r: Vec<u32>)
    ensures
        r@.map_values(|x: u32| x as nat) == version_numbers(split(v@, '.')),
{
    let cs = chars_of(v);
    let pieces = split_exec(&cs, '.');
    let ghost ps = pieces@.map_values(|p: Vec<char>| p@);
    let mut out: Vec<u32> = Vec::new();
    let mut i: usize = 0;
    while i < pieces.len()
        invariant
            i <= pieces@.len(),
            ps == pieces@.map_values(|p: Vec<char>| p@),
            ps == split(v@, '.'),
            out@.map_values(|x: u32| x as nat) == version_numbers(ps.take(i as int)),
        decreases pieces@.len() - i,
    {
        let s = string_of(&pieces[i]);
        let parsed = parse_u32(s.as_str());
        assert(ps.take(i + 1).drop_last() =~= ps.take(i as int));
        assert(ps.take(i + 1).last() == ps[i as int]);
        let ghost before = out@;
        match parsed {
            Some(x) => {
                out.push(x);
                assert(out@.map_values(|x: u32| x as nat) =~= before.map_values(|x: u32| x as nat).push(x as nat));
            },
            None => {},
        }
        i = i + 1;
    }
    assert(ps.take(i as int) =~= ps);
    out
}

/// Compares two dotted versions: 1 when `a > b`, -1 when `a < b`, else 0.
pub fn compare_versions(a: &str, b: &str) -> (r: i32)
    ensures
        r == spec_version_order(a@, b@),
{
    let va = version_numbers_exec(a);
    let vb = version_numbers_exec(b);
    let ghost sa = va@.map_values(|x: u32| x as nat);
    let ghost sb = vb@.map_values(|x: u32| x as nat);
    let n = if va.len() > vb.len() { va.len() } else { vb.len() };
    let mut i: usize = 0;
    while i < n
        invariant
            i <= n,
            n == (if va@.len() > vb@.len() { va@.len() } else { vb@.len() }),
            sa == va@.map_values(|x: u32| x as nat),
            sb == vb@.map_values(|x: u32| x as nat),
            sa == version_numbers(split(a@, '.')),
            sb == version_numbers(split(b@, '.')),
            version_order_from(sa, sb, 0) == version_order_from(sa, sb, i as int),
        decreases n - i,
    {
        let na: u32 = if i < va.len() { va[i] } else { 0 };
        let nb: u32 = if i < vb.len() { vb[i] } else { 0 };
        assert(na as nat == component(sa, i as int));
        assert(nb as nat == component(sb, i as int));
        if na > nb {
            return 1;
        }
        if na < nb {
            return -1;
        }
        i = i + 1;
    }
    0
}

/// Semver-style comparison: 1 when `a > b`, -1 when `a < b`, 0 when equal.
pub fn cmp_semver(a: &str, b: &str) -> (r: i32)
    ensures
        r == spec_version_order(a@, b@),
{
    compare_versions(a, b)
}

// ==================== Release tags ====================

/// The tag of a `.../releases/tag/<tag>` URL: its last `/`-separated
/// segment with leading `v`s removed; `None` when that is empty.
pub open spec fn spec_tag_from_release_url(url: Seq<char>) -> Option<Seq<char>> {
    let segs = split(url, '/');
    let tag = trim_start_char(segs[segs.len() - 1], 'v');
    if tag.len() == 0 {
        None
    } else {
        Some(tag)
    }
}

/// The publication time on a GitHub release page: the text between the
/// first `datetime="` and the next `"`, when both are there and the text is
/// not empty.
pub open spec fn spec_published_at_from_html(html: Seq<char>) -> Option<Seq<char>> {
    match find(html, "datetime=\""@) {
        None => None,
        Some(start) => {
            let from = start + 10;
            match find_char_from(html, '"', from) {
                Some(end) => if end > from {
                    Some(html.subrange(from, end))
                } else {
                    None
                },
                None => None,
            }
        },
    }
}

/// Reads the publication time (`datetime="..."`) from a release page.
pub fn published_at_from_html(html: &str) -> (r: Option<String>)
    ensures
        opt_string(r) == spec_published_at_from_html(html@),
{
    let h = chars_of(html);
    let marker = chars_of("datetime=\"");
    proof {
        reveal_strlit("datetime=\"");
        assert(marker@.len() == 10);
    }
    match find_exec(&h, &marker) {
        None => None,
        Some(start) => {
            proof {
                lemma_find_from(h@, marker@, 0);
            }
            let from = start + 10;
            match find_char_from_exec(&h, '"', from) {
                Some(end) => {
                    proof {
                        lemma_find_char_from(h@, '"', from as int);
                    }
                    if end > from {
                        Some(string_of(&slice_vec(&h, from, end)))
                    } else {
                        None
                    }
                },
                None => None,
            }
        },
    }
}

/// Extracts the version tag from the URL that `/releases/latest` redirects
/// to (`https://github.com/o/r/releases/tag/v1.2` gives `1.2`).
pub fn tag_from_release_url(url: &str) -> (r: Option<String>)
    ensures
        opt_string(r) == spec_tag_from_release_url(url@),
{
    let cs = chars_of(url);
    let segs = split_exec(&cs, '/');
    let last = &segs[segs.len() - 1];
    assert(segs@.map_values(|v: Vec<char>| v@)[segs@.len() - 1] == last@);
    let mut b: usize = 0;
    assert(last@.skip(0) =~= last@);
    while b < last.len() && last[b] == 'v'
        invariant
            b <= last@.len(),
            trim_start_char(last@, 'v') == trim_start_char(last@.skip(b as int), 'v'),
        decreases last@.len() - b,
    {
        assert(last@.skip(b as int).drop_first() =~= last@.skip(b + 1));
        b = b + 1;
    }
    assert(trim_start_char(last@.skip(b as int), 'v') == last@.skip(b as int));
    if b == last.len() {
        return None;
    }
    let t = slice_vec(last, b, last.len());
    assert(t@ =~= last@.skip(b as int));
    Some(string_of(&t))
}

/// The newest version named by a release tag (`v` prefix removed) and
/// whether it is newer than `local_version`.
pub fn ytdlp_update_verdict(tag_name: &str, local_version: &str) -> (r: (String, bool))
    ensures
        r.0@ == (if tag_name@.len() > 0 && tag_name@[0] == 'v' { tag_name@.skip(1) } else { tag_name@ }),
        r.1 == (spec_version_order(r.0@, local_version@) > 0),
{
    let cs = chars_of(tag_name);
    let latest = if cs.len() > 0 && cs[0] == 'v' {
        string_of(&slice_vec(&cs, 1, cs.len()))
    } else {
        tag_name.to_string()
    };
    assert(cs@.subrange(1, cs@.len() as int) =~= cs@.skip(1));
    let has_update = compare_versions(latest.as_str(), local_version) > 0;
    (latest, has_update)
}

// ==================== ffmpeg (master build) verdict ====================

/// What `chrono::DateTime::parse_from_rfc2822` followed by a conversion to
/// UTC and `to_rfc3339` makes of an HTTP date; `None` when it does not parse.
pub uninterp spec fn rfc2822_as_rfc3339(s: Seq<char>) -> Option<Seq<char>>;

/// Calls `chrono::DateTime::parse_from_rfc2822`, `with_timezone(&Utc)` and
/// `to_rfc3339`. The contract claims only that the result is a function of
/// the text (`rfc2822_as_rfc3339`).
#[verifier::external_body]
fn http_date_to_rfc3339(s: &str) -> (r: Option<String>)
    ensures
        opt_string(r) == rfc2822_as_rfc3339(s@),
{
    chrono::DateTime::parse_from_rfc2822(s).ok().map(|dt| dt.with_timezone(&chrono::Utc).to_rfc3339())
}

/// What `chrono::DateTime::parse_from_rfc3339` followed by
/// `format("%Y-%m-%d")` gives; `None` when it does not parse.
pub uninterp spec fn rfc3339_day(s: Seq<char>) -> Option<Seq<char>>;

/// Calls `chrono::DateTime::parse_from_rfc3339` and `format("%Y-%m-%d")`.
/// The contract claims only that the result is a function of the text
/// (`rfc3339_day`).
#[verifier::external_body]
fn rfc3339_to_day(s: &str) -> (r: Option<String>)
    ensures
        opt_string(r) == rfc3339_day(s@),
{
    chrono::DateTime::parse_from_rfc3339(s).ok().map(|dt| dt.format("%Y-%m-%d").to_string())
}

/// What `chrono::DateTime::parse_from_rfc3339` followed by `timestamp`
/// gives (Unix seconds); `None` when it does not parse.
pub uninterp spec fn rfc3339_timestamp(s: Seq<char>) -> Option<i64>;

/// Calls `chrono::DateTime::parse_from_rfc3339` and `timestamp`. The
/// contract claims only that the result is a function of the text
/// (`rfc3339_timestamp`).
#[verifier::external_body]
fn rfc3339_to_timestamp(s: &str) -> (r: Option<i64>)
    ensures
        r == rfc3339_timestamp(s@),
{
    chrono::DateTime::parse_from_rfc3339(s).ok().map(|dt| dt.timestamp())
}

/// A release asset as the GitHub API describes it.
#[derive(Debug, Clone)]
pub struct GithubAsset {
    pub name: String,
    pub browser_download_url: String,
    /// When the asset was last uploaded (RFC 3339), when given.
    pub updated_at: Option<String>,
}

/// The latest release as the GitHub API describes it.
#[derive(Debug, Clone)]
pub struct GithubRelease {
    pub tag_name: String,
    pub html_url: String,
    pub assets: Vec<GithubAsset>,
    /// When the release was published (RFC 3339), when given.
    pub published_at: Option<String>,
}

/// The upload time of the first asset named `name` from index `i` on
/// (`Some(None)` when that asset has none); `None` when no asset has the name.
pub open spec fn first_asset_time(assets: Seq<GithubAsset>, name: Seq<char>, i: int) -> Option<Option<Seq<char>>>
    decreases assets.len() - i,
{
    if i < 0 || i >= assets.len() {
        None
    } else if assets[i].name@ == name {
        Some(opt_string(assets[i].updated_at))
    } else {
        first_asset_time(assets, name, i + 1)
    }
}

/// The remote content time of a release: the upload time of its first
/// asset named `name`, else the release's publication time.
pub open spec fn spec_release_asset_time(release: GithubRelease, name: Seq<char>) -> Option<Seq<char>> {
    match first_asset_time(release.assets@, name, 0) {
        Some(Some(t)) => Some(t),
        _ => opt_string(release.published_at),
    }
}

/// The remote content time of `release` for the asset `name` (see
/// `spec_release_asset_time`).
pub fn release_asset_time(release: &GithubRelease, name: &str) -> (r: Option<String>)
    ensures
        opt_string(r) == spec_release_asset_time(*release, name@),
{
    let mut i: usize = 0;
    while i < release.assets.len()
        invariant_except_break
            i <= release.assets@.len(),
            first_asset_time(release.assets@, name@, i as int) == first_asset_time(release.assets@, name@, 0),
        ensures
            match first_asset_time(release.assets@, name@, 0) {
                Some(Some(_)) => false,
                _ => true,
            },
        decreases release.assets@.len() - i,
    {
        let a = &release.assets[i];
        if crate::text::str_eq(a.name.as_str(), name) {
            match &a.updated_at {
                Some(t) => {
                    return Some(t.clone());
                },
                None => {
                    break;
                },
            }
        }
        i = i + 1;
    }
    match &release.published_at {
        Some(p) => Some(p.clone()),
        None => None,
    }
}

/// The remote asset time from a probe: the `Last-Modified` header as
/// RFC 3339, when present and parsable.
pub fn asset_time_from_header(last_modified: Option<&str>) -> (r: Option<String>)
    ensures
        opt_string(r) == match last_modified {
            Some(h) => rfc2822_as_rfc3339(h@),
            None => None,
        },
{
    match last_modified {
        Some(h) => http_date_to_rfc3339(h),
        None => None,
    }
}

/// The outcome of the ffmpeg update check: whether an update exists,
/// whether the build is confirmed up to date (as opposed to "could not
/// check"), and the remote build's day, given only when there is an update.
#[derive(Debug, Clone)]
pub struct FfmpegVerdict {
    pub has_update: bool,
    pub up_to_date: bool,
    pub latest: Option<String>,
}

/// The ffmpeg verdict. With both ETags, they decide (equal means up to
/// date). Otherwise the remote asset time decides against the install time
/// (or the binary's modification time plus the release lag); the build
/// counts as up to date only when the remote time was known.
pub open spec fn spec_ffmpeg_verdict(
    remote_at: Option<Seq<char>>,
    remote_etag: Option<Seq<char>>,
    local_etag: Option<Seq<char>>,
    local_installed_at: Option<int>,
    local_mtime: Option<int>,
    v: FfmpegVerdict,
) -> bool {
    let day = match remote_at {
        Some(a) => rfc3339_day(a),
        None => None,
    };
    if remote_etag is Some && local_etag is Some {
        let h = spec_decide_has_update(remote_etag, local_etag, None, None, None);
        &&& v.has_update == h
        &&& v.up_to_date == !h
        &&& opt_string(v.latest) == if h { day } else { None }
    } else {
        let ts = match remote_at {
            Some(a) => match rfc3339_timestamp(a) {
                Some(t) => Some(t as int),
                None => None,
            },
            None => None,
        };
        let h = spec_decide_has_update(None, None, ts, local_installed_at, local_mtime);
        &&& v.has_update == h
        &&& v.up_to_date == (ts is Some && !h)
        &&& opt_string(v.latest) == if h { day } else { None }
    }
}

/// Decides the ffmpeg update check from the remote and local fingerprints
/// (see `spec_ffmpeg_verdict`).
pub fn ffmpeg_verdict(
    remote_at: Option<&str>,
    remote_etag: Option<&str>,
    local_etag: Option<&str>,
    local_installed_at: Option<i64>,
    local_mtime: Option<i64>,
) -> (r: FfmpegVerdict)
    requires
        !(remote_etag is Some && local_etag is Some) && remote_at is Some && local_installed_at is None
            && local_mtime is Some ==> local_mtime->0 <= i64::MAX - RELEASE_LAG_TOLERANCE_SECS,
    ensures
        spec_ffmpeg_verdict(
            opt_str(remote_at),
            opt_str(remote_etag),
            opt_str(local_etag),
            opt_i64(local_installed_at),
            opt_i64(local_mtime),
            r,
        ),
{
    if remote_etag.is_some() && local_etag.is_some() {
        let h = decide_has_update(remote_etag, local_etag, None, None, None);
        let latest = if h {
            match remote_at {
                Some(a) => rfc3339_to_day(a),
                None => None,
            }
        } else {
            None
        };
        return FfmpegVerdict { has_update: h, up_to_date: !h, latest };
    }
    let ts = match remote_at {
        Some(a) => rfc3339_to_timestamp(a),
        None => None,
    };
    let h = decide_has_update(None, None, ts, local_installed_at, local_mtime);
    let latest = if h {
        match remote_at {
            Some(a) => rfc3339_to_day(a),
            None => None,
        }
    } else {
        None
    };
    FfmpegVerdict { has_update: h, up_to_date: ts.is_some() && !h, latest }
}

} // verus!
