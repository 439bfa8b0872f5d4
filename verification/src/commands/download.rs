//! Download commands: which links are accepted, and how a saved file is
//! found again by its title.
use vstd::prelude::*;
use crate::text::{
    trim, trim_exec, chars_of, strip_prefix, starts_with, starts_with_exec, ends_with, ends_with_exec,
    ascii_lower, ascii_lower_exec, chars_eq, slice_vec, lowercase, to_lowercase, string_of,
};
use crate::services::download_history::{DownloadHistory, DownloadRecord, spec_sanitize_filename};
use crate::models::video_info::VideoInfo;
use crate::utils::app_home::{path_join, join_path, path_absolute, is_absolute_path, AppHome};
use crate::utils::url::{extract_status_id, status_id_of, STATUS_ID_PATTERN};
use crate::pattern::regex_captures;
use crate::text::{copy_str, views};

verus! {

broadcast use vstd::string::group_string_axioms;

pub open spec fn is_url_sep(c: char) -> bool {
    c == '/' || c == '?' || c == '#'
}

/// The index of the first `/`, `?` or `#` among the first `n` characters,
/// or `n` when there is none.
pub open spec fn first_sep_before(s: Seq<char>, n: int) -> int
    decreases n,
{
    if n <= 0 {
        0
    } else {
        let k = first_sep_before(s, n - 1);
        if k < n - 1 {
            k
        } else if is_url_sep(s[n - 1]) {
            n - 1
        } else {
            n
        }
    }
}

/// The text after `https://` or `http://` (the whole text when neither
/// starts it).
pub open spec fn without_scheme(t: Seq<char>) -> Seq<char> {
    match strip_prefix(t, "https://"@) {
        Some(r) => r,
        None => match strip_prefix(t, "http://"@) {
            Some(r) => r,
            None => t,
        },
    }
}

/// The lowercased host of a link: after the scheme, up to the first `/`,
/// `?` or `#`.
pub open spec fn url_host(url: Seq<char>) -> Seq<char> {
    let rest = without_scheme(trim(url));
    ascii_lower(rest.take(first_sep_before(rest, rest.len() as int)))
}

/// A link to x.com or twitter.com, or to a subdomain of either.
pub open spec fn spec_is_supported_url(url: Seq<char>) -> bool {
    let h = url_host(url);
    h == "x.com"@ || ends_with(h, ".x.com"@) || h == "twitter.com"@ || ends_with(h, ".twitter.com"@)
}

proof fn lemma_first_sep_bounds(s: Seq<char>, n: int)
    requires
        0 <= n <= s.len(),
    ensures
        0 <= first_sep_before(s, n) <= n,
    decreases n,
{
    if n > 0 {
        lemma_first_sep_bounds(s, n - 1);
    }
}

proof fn lemma_first_sep_none(s: Seq<char>, k: int)
    requires
        0 <= k <= s.len(),
        forall|i: int| 0 <= i < k ==> !is_url_sep(#[trigger] s[i]),
    ensures
        first_sep_before(s, k) == k,
    decreases k,
{
    if k > 0 {
        lemma_first_sep_none(s, k - 1);
    }
}

/// The host of a link decides whether it is supported: for a link
/// `https://<host><rest>` or `http://<host><rest>` (no blanks around it),
/// where the host holds no `/`, `?` or `#` and the rest is empty or starts
/// with one of them, the host read is the host in lower case, and the link
/// is supported exactly when that host is `x.com` or `twitter.com` or ends
/// with `.x.com` or `.twitter.com`.
pub proof fn law_supported_url_by_host(scheme: Seq<char>, host: Seq<char>, rest: Seq<char>)
    requires
        scheme == "https://"@ || scheme == "http://"@,
        forall|i: int| 0 <= i < host.len() ==> !is_url_sep(#[trigger] host[i]),
        rest.len() == 0 || is_url_sep(rest[0]),
        trim(scheme + host + rest) == scheme + host + rest,
    ensures
        url_host(scheme + host + rest) == ascii_lower(host),
        spec_is_supported_url(scheme + host + rest) <==> ({
            let h = ascii_lower(host);
            h == "x.com"@ || h == "twitter.com"@ || ends_with(h, ".x.com"@) || ends_with(h, ".twitter.com"@)
        }),
{
    reveal_strlit("https://");
    reveal_strlit("http://");
    let u = scheme + host + rest;
    let t = host + rest;
    if scheme == "https://"@ {
        assert(u.subrange(0, 8) =~= scheme);
        assert(u.skip(8) =~= t);
        assert(without_scheme(u) == t);
    } else {
        assert(u[4] == ':');
        assert(!starts_with(u, "https://"@)) by {
            if u.len() >= 8 {
                assert(u.subrange(0, 8)[4] == ':');
                assert("https://"@[4] == 's');
            }
        }
        assert(u.subrange(0, 7) =~= scheme);
        assert(u.skip(7) =~= t);
        assert(without_scheme(u) == t);
    }
    lemma_first_sep_none(t, host.len() as int);
    lemma_first_sep_rest(t, host.len() as int, t.len() as int);
    assert(t.take(host.len() as int) =~= host);
}

/// Whether the link points to x.com / twitter.com or a subdomain of either
/// (`evilx.com` is refused).
pub fn is_supported_url(url: &str) -> (r: bool)
    ensures
        r == spec_is_supported_url(url@),
{
    let t = trim_exec(&chars_of(url));
    let https = chars_of("https://");
    let http = chars_of("http://");
    let rest = if starts_with_exec(&t, &https) {
        slice_vec(&t, https.len(), t.len())
    } else if starts_with_exec(&t, &http) {
        slice_vec(&t, http.len(), t.len())
    } else {
        slice_vec(&t, 0, t.len())
    };
    proof {
        assert(t@.subrange(0, t@.len() as int) =~= t@);
        assert(rest@ =~= without_scheme(trim(url@)));
    }
    let mut k: usize = 0;
    while k < rest.len() && !(rest[k] == '/' || rest[k] == '?' || rest[k] == '#')
        invariant
            k <= rest@.len(),
            first_sep_before(rest@, k as int) == k,
        decreases rest@.len() - k,
    {
        k = k + 1;
    }
    proof {
        assert(first_sep_before(rest@, rest@.len() as int) == k) by {
            lemma_first_sep_rest(rest@, k as int, rest@.len() as int);
        }
    }
    let host = ascii_lower_exec(&slice_vec(&rest, 0, k));
    proof {
        assert(rest@.subrange(0, k as int) =~= rest@.take(k as int));
    }
    let is_x = chars_eq(&host, &chars_of("x.com")) || ends_with_exec(&host, &chars_of(".x.com"));
    let is_twitter = chars_eq(&host, &chars_of("twitter.com")) || ends_with_exec(&host, &chars_of(".twitter.com"));
    is_x || is_twitter
}

/// Once the first separator lies at `k` (or `k` is the end), longer
/// prefixes keep it.
proof fn lemma_first_sep_rest(s: Seq<char>, k: int, n: int)
    requires
        0 <= k <= n <= s.len(),
        first_sep_before(s, k) == k,
        k == s.len() || is_url_sep(s[k]),
    ensures
        first_sep_before(s, n) == k,
    decreases n - k,
{
    if n > k {
        lemma_first_sep_rest(s, k, n - 1);
        if n - 1 == k {
            assert(first_sep_before(s, n) == k);
        }
    }
}

/// File extensions of saved videos and audio.
pub const VIDEO_EXTS: [&'static str; 10] = ["mp4", "webm", "mkv", "flv", "mov", "avi", "ts", "m4a", "mp3", "opus"];

/// The name prefix of a file saved for `title`: the sanitized
/// `title.mp4` without its `.mp4` (every trailing `.mp4` is removed).
pub open spec fn spec_title_prefix(title: Seq<char>) -> Seq<char> {
    trim_mp4(spec_sanitize_filename(title + ".mp4"@))
}

/// `s` with every trailing `.mp4` removed.
pub open spec fn trim_mp4(s: Seq<char>) -> Seq<char>
    decreases s.len(),
{
    if ends_with(s, ".mp4"@) && s.len() >= 4 {
        trim_mp4(s.take(s.len() - 4))
    } else {
        s
    }
}

/// The name prefix of a file saved for `title`.
pub fn title_prefix(title: &str) -> (r: String)
    ensures
        r@ == spec_title_prefix(title@),
{
    let mut name = title.to_string();
    crate::text::push_str(&mut name, ".mp4");
    let cleaned = DownloadHistory::sanitize_filename(name.as_str());
    let mut s = chars_of(cleaned.as_str());
    let suffix = chars_of(".mp4");
    proof {
        assert(suffix@ == ".mp4"@);
    }
    while ends_with_exec(&s, &suffix) && s.len() >= 4
        invariant
            suffix@ == ".mp4"@,
            trim_mp4(s@) == spec_title_prefix(title@),
        decreases s@.len(),
    {
        let n = s.len() - 4;
        let ghost before = s@;
        s = slice_vec(&s, 0, n);
        proof {
            assert(s@ =~= before.take(before.len() - 4));
        }
    }
    string_of(&s)
}

/// A saved video or audio file of the title: its name (lowercased) ends in
/// one of [`VIDEO_EXTS`] after a dot, and it starts with the title prefix.
pub open spec fn spec_is_title_file(name: Seq<char>, prefix: Seq<char>) -> bool {
    &&& exists|i: int| 0 <= i < 10 && ends_with(lowercase(name), "."@ + #[trigger] VIDEO_EXTS@[i]@)
    &&& starts_with(name, prefix)
}

/// Whether the file `name` is a saved video of the title whose prefix is
/// `prefix`.
pub fn is_title_file(name: &str, prefix: &str) -> (r: bool)
    ensures
        r == spec_is_title_file(name@, prefix@),
{
    let lower = chars_of(to_lowercase(name).as_str());
    let exts = VIDEO_EXTS;
    let mut is_video = false;
    let mut i: usize = 0;
    while i < 10
        invariant
            i <= 10,
            exts@ == VIDEO_EXTS@,
            lower@ == lowercase(name@),
            is_video == exists|j: int| 0 <= j < i && ends_with(lowercase(name@), "."@ + #[trigger] VIDEO_EXTS@[j]@),
        decreases 10 - i,
    {
        let mut dot_ext = ".".to_string();
        crate::text::push_str(&mut dot_ext, exts[i]);
        if ends_with_exec(&lower, &chars_of(dot_ext.as_str())) {
            is_video = true;
        }
        proof {
            if ends_with(lowercase(name@), "."@ + VIDEO_EXTS@[i as int]@) {
                assert(exists|j: int| 0 <= j < i + 1 && ends_with(lowercase(name@), "."@ + #[trigger] VIDEO_EXTS@[j]@));
            }
        }
        i = i + 1;
    }
    is_video && starts_with_exec(&chars_of(name), &chars_of(prefix))
}

// ==================== Download state of a video ====================

/// A history path made absolute: kept when absolute, else put below the
/// working directory `cwd`.
pub open spec fn abs_path_of(p: Seq<char>, cwd: Seq<char>) -> Seq<char> {
    if path_absolute(p) {
        p
    } else {
        path_join(cwd, p)
    }
}

/// Makes a possibly relative history path absolute against the working
/// directory `cwd` (empty when it is unknown), so that older records still
/// point at the real file.
pub fn abs_history_path(p: &str, cwd: &str) -> (r: String)
    ensures
        r@ == abs_path_of(p@, cwd@),
{
    if is_absolute_path(p) {
        copy_str(p)
    } else {
        join_path(cwd, p)
    }
}

/// The directory searched for a file of a title: the configured download
/// directory when it is set and absolute, else `downloads/` below the root.
pub open spec fn spec_title_search_dir(download_dir: Option<Seq<char>>, root: Seq<char>) -> Seq<char> {
    match download_dir {
        Some(d) => if d.len() > 0 && path_absolute(d) {
            d
        } else {
            path_join(root, "downloads"@)
        },
        None => path_join(root, "downloads"@),
    }
}

/// Where a file of a title is looked for (see `spec_title_search_dir`).
pub fn title_search_dir(download_dir: &Option<String>, root: &str) -> (r: String)
    ensures
        r@ == spec_title_search_dir(
            match download_dir {
                Some(d) => Some(d@),
                None => None,
            },
            root@,
        ),
{
    match download_dir {
        Some(d) => {
            if chars_of(d.as_str()).len() > 0 && is_absolute_path(d.as_str()) {
                copy_str(d.as_str())
            } else {
                AppHome::downloads_dir(root)
            }
        },
        None => AppHome::downloads_dir(root),
    }
}

/// The first of the directory's file names that is a saved video of the
/// title (see `spec_is_title_file`), joined to the directory.
pub fn find_file_by_title(title: &str, dir: &str, names: &Vec<String>) -> (r: Option<String>)
    ensures
        match r {
            Some(p) => exists|k: int|
                0 <= k < names@.len() && spec_is_title_file(names@[k]@, spec_title_prefix(title@)) && p@ == path_join(
                    dir@,
                    names@[k]@,
                ) && forall|j: int|
                    0 <= j < k ==> !spec_is_title_file(#[trigger] names@[j]@, spec_title_prefix(title@)),
            None => forall|j: int|
                0 <= j < names@.len() ==> !spec_is_title_file(#[trigger] names@[j]@, spec_title_prefix(title@)),
        },
{
    let prefix = title_prefix(title);
    let mut i: usize = 0;
    while i < names.len()
        invariant
            i <= names@.len(),
            prefix@ == spec_title_prefix(title@),
            forall|j: int| 0 <= j < i ==> !spec_is_title_file(#[trigger] names@[j]@, spec_title_prefix(title@)),
        decreases names@.len() - i,
    {
        if is_title_file(names[i].as_str(), prefix.as_str()) {
            return Some(join_path(dir, names[i].as_str()));
        }
        i = i + 1;
    }
    None
}

/// `after` is `before` with the download state of record `rec`: its time,
/// its file made absolute, and whether `file_exists` reports that file.
pub open spec fn with_record_state<F: Fn(&String) -> bool>(
    before: VideoInfo,
    after: VideoInfo,
    rec: DownloadRecord,
    cwd: Seq<char>,
    file_exists: F,
) -> bool {
    &&& after == (VideoInfo {
        downloaded: after.downloaded,
        downloaded_at: after.downloaded_at,
        download_path: after.download_path,
        ..before
    })
    &&& after.downloaded_at == Some(rec.downloaded_at)
    &&& match rec.file_path {
        Some(p) => after.download_path matches Some(ap) && ap@ == abs_path_of(p@, cwd) && call_ensures(
            file_exists,
            (&ap,),
            after.downloaded,
        ),
        None => after.download_path is None && !after.downloaded,
    }
}

/// `after` is `before` with the state a file found by title gives: marked
/// downloaded at that path when `title_file` finds one, else unchanged.
pub open spec fn with_title_state<T: Fn(&String) -> Option<String>>(
    before: VideoInfo,
    after: VideoInfo,
    title_file: T,
) -> bool {
    match before.title {
        Some(t) => exists|res: Option<String>|
            call_ensures(title_file, (&t,), res) && match res {
                Some(p) => after == (VideoInfo { downloaded: true, download_path: Some(p), ..before }),
                None => after == before,
            },
        None => after == before,
    }
}

/// The download state attached to a video: nothing without an id; else the
/// state of its history record (looked up by its id, then by the status id
/// of its URL), or, without a record, whether a file of its title exists.
pub open spec fn spec_attached<
    G: Fn(&String) -> Option<DownloadRecord>,
    F: Fn(&String) -> bool,
    T: Fn(&String) -> Option<String>,
>(before: VideoInfo, after: VideoInfo, cwd: Seq<char>, lookup: G, file_exists: F, title_file: T) -> bool {
    if before.id@.len() == 0 {
        after == before
    } else {
        ||| exists|rec: DownloadRecord|
            call_ensures(lookup, (&before.id,), Some(rec)) && with_record_state(before, after, rec, cwd, file_exists)
        ||| call_ensures(lookup, (&before.id,), None) && match status_id_of(regex_captures(STATUS_ID_PATTERN@, before.url@)) {
            Some(sid) => exists|s: String, res: Option<DownloadRecord>|
                s@ == sid && call_ensures(lookup, (&s,), res) && match res {
                    Some(rec) => with_record_state(before, after, rec, cwd, file_exists),
                    None => with_title_state(before, after, title_file),
                },
            None => with_title_state(before, after, title_file),
        }
    }
}

/// Marks `info` with the state of a record.
fn apply_record<F: Fn(&String) -> bool>(info: &mut VideoInfo, rec: DownloadRecord, cwd: &str, file_exists: F)
    requires
        forall|s: &String| call_requires(file_exists, (s,)),
    ensures
        with_record_state(*old(info), *final(info), rec, cwd@, file_exists),
{
    match rec.file_path {
        Some(p) => {
            let path = abs_history_path(p.as_str(), cwd);
            let exists = file_exists(&path);
            info.downloaded = exists;
            info.downloaded_at = Some(rec.downloaded_at);
            info.download_path = Some(path);
        },
        None => {
            info.downloaded = false;
            info.downloaded_at = Some(rec.downloaded_at);
            info.download_path = None;
        },
    }
}

/// Marks `info` downloaded when a file of its title is found.
fn apply_title<T: Fn(&String) -> Option<String>>(info: &mut VideoInfo, title_file: T)
    requires
        forall|s: &String| call_requires(title_file, (s,)),
    ensures
        with_title_state(*old(info), *final(info), title_file),
{
    let found = match &info.title {
        Some(t) => {
            let res = title_file(t);
            proof {
                assert(call_ensures(title_file, (t,), res));
            }
            res
        },
        None => None,
    };
    match found {
        Some(p) => {
            info.downloaded = true;
            info.download_path = Some(p);
        },
        None => {},
    }
}

/// Attaches the download state to parsed video information (see
/// `spec_attached`): `lookup` reads a history record, `file_exists` checks
/// the disk and `title_file` looks for a saved file of a title.
pub fn attach_download_status<G, F, T>(info: &mut VideoInfo, cwd: &str, lookup: G, file_exists: F, title_file: T)
    where
        G: Fn(&String) -> Option<DownloadRecord>,
        F: Fn(&String) -> bool,
        T: Fn(&String) -> Option<String>,
    requires
        forall|s: &String| call_requires(lookup, (s,)),
        forall|s: &String| call_requires(file_exists, (s,)),
        forall|s: &String| call_requires(title_file, (s,)),
    ensures
        spec_attached(*old(info), *final(info), cwd@, lookup, file_exists, title_file),
{
    if chars_of(info.id.as_str()).len() == 0 {
        return;
    }
    let by_id = lookup(&info.id);
    match by_id {
        Some(rec) => {
            apply_record(info, rec, cwd, file_exists);
            return;
        },
        None => {},
    }
    match extract_status_id(info.url.as_str()) {
        Some(sid) => {
            let res = lookup(&sid);
            match res {
                Some(rec) => {
                    apply_record(info, rec, cwd, file_exists);
                },
                None => {
                    apply_title(info, title_file);
                },
            }
        },
        None => {
            apply_title(info, title_file);
        },
    }
}

} // verus!
