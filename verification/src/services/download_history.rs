//! Download history records: which videos were downloaded, where they were
//! saved and when. The records live in the SQLite table `downloads`; this
//! module holds the record type, its stored codes and the file-name rules.
use vstd::prelude::*;
use crate::pattern::{captures, regex_captures};
use crate::text::{chars_of, rfind_char, rfind_char_exec, slice_vec, string_of, ascii_lower, ascii_lower_exec, chars_eq};

verus! {

broadcast use vstd::string::group_string_axioms;

/// Outcome of a download record.
#[derive(Debug, Clone, Copy, PartialEq, Eq, Structural)]
pub enum DownloadStatus {
    Success,
    Failed,
}

impl Default for DownloadStatus {
    fn default() -> (r: Self)
        ensures
            r == DownloadStatus::Success,
    {
        DownloadStatus::Success
    }
}

/// A download history record (successful or failed), keyed by `video_id`.
#[derive(Debug, Clone)]
pub struct DownloadRecord {
    /// Video id (X tweet status id).
    pub video_id: String,
    pub title: Option<String>,
    pub thumbnail: Option<String>,
    /// Original video URL, used to re-download.
    pub url: Option<String>,
    /// Lowercased user handle taken from the URL.
    pub handle: Option<String>,
    pub uploader: Option<String>,
    pub duration: i64,
    pub view_count: i64,
    pub like_count: i64,
    /// Absolute path of the first saved file.
    pub file_path: Option<String>,
    /// Every saved file (a multi-media tweet gives several).
    pub file_paths: Vec<String>,
    pub file_size: Option<i64>,
    /// Unix time (seconds) the download completed.
    pub downloaded_at: i64,
    pub status: DownloadStatus,
    /// Failure reason when `status` is `Failed`.
    pub error: Option<String>,
    pub attempts: u8,
    /// "single" | "batch" | "bookmark" | "deep".
    pub source: String,
}

/// Stored source codes of a task.
pub const SOURCE_SINGLE: i64 = 0;
pub const SOURCE_BATCH: i64 = 1;
pub const SOURCE_BOOKMARK: i64 = 2;
pub const SOURCE_DEEP: i64 = 3;

/// SQL status column: 0 = Success, 1 = Failed.
pub fn status_code(s: DownloadStatus) -> (r: i64)
    ensures
        r == (if s == DownloadStatus::Success { 0i64 } else { 1i64 }),
{
    match s {
        DownloadStatus::Success => 0,
        DownloadStatus::Failed => 1,
    }
}

/// The status stored as `code` (1 is a failure, anything else a success).
pub fn status_from_code(code: i64) -> (r: DownloadStatus)
    ensures
        r == (if code == 1 { DownloadStatus::Failed } else { DownloadStatus::Success }),
{
    if code == 1 {
        DownloadStatus::Failed
    } else {
        DownloadStatus::Success
    }
}

/// Readable name of a stored source code; unknown codes read as "single".
pub open spec fn spec_source_name(code: i64) -> Seq<char> {
    if code == SOURCE_BATCH {
        "batch"@
    } else if code == SOURCE_BOOKMARK {
        "bookmark"@
    } else if code == SOURCE_DEEP {
        "deep"@
    } else {
        "single"@
    }
}

/// Stored code of a source name; unknown names read as single.
pub open spec fn spec_source_code(s: Seq<char>) -> i64 {
    if s == "batch"@ {
        SOURCE_BATCH
    } else if s == "bookmark"@ {
        SOURCE_BOOKMARK
    } else if s == "deep"@ {
        SOURCE_DEEP
    } else {
        SOURCE_SINGLE
    }
}

/// Default source name of a legacy record.
pub fn default_name() -> (r: &'static str)
    ensures
        r@ == "single"@,
{
    "single"
}

/// The default source of a record.
pub fn default_source() -> (r: String)
    ensures
        r@ == "single"@,
{
    default_name().to_string()
}

/// Readable name of a stored source code.
pub fn source_name(code: i64) -> (r: String)
    ensures
        r@ == spec_source_name(code),
{
    if code == SOURCE_BATCH {
        "batch".to_string()
    } else if code == SOURCE_BOOKMARK {
        "bookmark".to_string()
    } else if code == SOURCE_DEEP {
        "deep".to_string()
    } else {
        "single".to_string()
    }
}

/// Stored code of a source name.
pub fn source_code(s: &str) -> (r: i64)
    ensures
        r == spec_source_code(s@),
{
    let cs = chars_of(s);
    if chars_eq(&cs, &chars_of("batch")) {
        SOURCE_BATCH
    } else if chars_eq(&cs, &chars_of("bookmark")) {
        SOURCE_BOOKMARK
    } else if chars_eq(&cs, &chars_of("deep")) {
        SOURCE_DEEP
    } else {
        SOURCE_SINGLE
    }
}

// ==================== Handles ====================

/// An x.com / twitter.com status URL, capturing the user handle.
pub const HANDLE_PATTERN: &'static str = r"^https?://(?:www\.|mobile\.)?(?:x\.com|twitter\.com)/([A-Za-z0-9_]{1,15})/status/";

/// x.com paths that are no user handle.
pub open spec fn is_system_path(h: Seq<char>) -> bool {
    ||| h == "i"@
    ||| h == "home"@
    ||| h == "explore"@
    ||| h == "search"@
    ||| h == "notifications"@
    ||| h == "messages"@
    ||| h == "settings"@
    ||| h == "intent"@
    ||| h == "share"@
    ||| h == "compose"@
    ||| h == "hashtag"@
}

/// The lowercased handle of a match of [`HANDLE_PATTERN`], unless it is a
/// system path.
pub open spec fn spec_handle_of(caps: Option<Seq<Option<Seq<char>>>>) -> Option<Seq<char>> {
    match caps {
        Some(c) => if 1 < c.len() && c[1] is Some && !is_system_path(ascii_lower(c[1]->0)) {
            Some(ascii_lower(c[1]->0))
        } else {
            None
        },
        None => None,
    }
}

pub open spec fn opt_s(o: Option<String>) -> Option<Seq<char>> {
    match o {
        Some(s) => Some(s@),
        None => None,
    }
}

fn is_system_path_exec(h: &Vec<char>) -> (r: bool)
    ensures
        r == is_system_path(h@),
{
    chars_eq(h, &chars_of("i")) || chars_eq(h, &chars_of("home")) || chars_eq(h, &chars_of("explore"))
        || chars_eq(h, &chars_of("search")) || chars_eq(h, &chars_of("notifications")) || chars_eq(
        h,
        &chars_of("messages"),
    ) || chars_eq(h, &chars_of("settings")) || chars_eq(h, &chars_of("intent")) || chars_eq(
        h,
        &chars_of("share"),
    ) || chars_eq(h, &chars_of("compose")) || chars_eq(h, &chars_of("hashtag"))
}

/// The handle taken from a match of [`HANDLE_PATTERN`].
pub fn handle_from_match(caps: Option<Vec<Option<String>>>) -> (r: Option<String>)
    ensures
        opt_s(r) == spec_handle_of(caps.deep_view()),
{
    match caps {
        Some(c) => {
            if 1 < c.len() {
                match &c[1] {
                    Some(h) => {
                        let lower = ascii_lower_exec(&chars_of(h.as_str()));
                        if is_system_path_exec(&lower) {
                            None
                        } else {
                            Some(string_of(&lower))
                        }
                    },
                    None => None,
                }
            } else {
                None
            }
        },
        None => None,
    }
}

/// Extracts the lowercased user handle from an x.com / twitter.com status
/// URL; `None` for other URLs and for x.com system pages.
pub fn extract_handle(url: &str) -> (r: Option<String>)
    ensures
        opt_s(r) == spec_handle_of(regex_captures(HANDLE_PATTERN@, url@)),
{
    handle_from_match(captures(HANDLE_PATTERN, url))
}

// ==================== File names ====================

/// Characters Windows forbids in file names.
pub open spec fn is_illegal_char(c: char) -> bool {
    c == '\\' || c == '/' || c == ':' || c == '*' || c == '?' || c == '"' || c == '<' || c == '>' || c == '|'
}

pub open spec fn is_path_sep(c: char) -> bool {
    c == '\\' || c == '/'
}

/// Start of the file name: one past the last path separator.
pub open spec fn name_start(p: Seq<char>, end: int) -> int
    decreases end,
{
    if end <= 0 || end > p.len() {
        0
    } else if is_path_sep(p[end - 1]) {
        end
    } else {
        name_start(p, end - 1)
    }
}

/// End of the file name of a path: its length with trailing `\` and `/`
/// left out.
pub open spec fn name_end(p: Seq<char>, end: int) -> int
    decreases end,
{
    if end <= 0 || end > p.len() {
        if end > p.len() { p.len() as int } else { 0 }
    } else if is_path_sep(p[end - 1]) {
        name_end(p, end - 1)
    } else {
        end
    }
}

/// Start of the file name of a path (trailing separators left out): one
/// past the last `\` or `/` before it; after a Windows drive prefix such
/// as `C:` when there is no separator before it.
pub open spec fn file_name_start(p: Seq<char>) -> int {
    let e = name_end(p, p.len() as int);
    let ns = name_start(p, e);
    if ns == 0 && e >= 2 && crate::text::is_ascii_alpha(p[0]) && p[1] == ':' {
        2
    } else {
        ns
    }
}

/// The stem with the characters Windows forbids dropped and each run of
/// spaces (among the kept characters) collapsed to one space.
pub open spec fn clean_stem(stem: Seq<char>) -> Seq<char>
    decreases stem.len(),
{
    if stem.len() == 0 {
        Seq::empty()
    } else {
        let r = clean_stem(stem.drop_last());
        let c = stem.last();
        if is_illegal_char(c) {
            r
        } else if c == ' ' && r.len() > 0 && r.last() == ' ' {
            r
        } else {
            r.push(c)
        }
    }
}

/// `sanitize_filename`: within the file name (the last component, after
/// the last `\` or `/` or a drive prefix such as `C:`, trailing separators
/// left out), the stem (before the last `.`, when that is not the first
/// character) loses the characters Windows forbids and its runs of spaces
/// become one space; the extension is kept. The renamed file name replaces
/// the old one (trailing separators are dropped with it). The path is
/// returned unchanged when the file name is empty, when the cleaned stem is
/// empty, or when nothing changed.
pub open spec fn spec_sanitize_filename(path: Seq<char>) -> Seq<char> {
    let ns = file_name_start(path);
    let name = path.subrange(ns, name_end(path, path.len() as int));
    let (stem, ext) = match rfind_char(name, '.') {
        Some(idx) => if idx > 0 {
            (name.take(idx), name.skip(idx))
        } else {
            (name, Seq::<char>::empty())
        },
        None => (name, Seq::<char>::empty()),
    };
    let cleaned = clean_stem(stem);
    if name.len() == 0 || cleaned.len() == 0 {
        path
    } else if cleaned + ext == name {
        path
    } else {
        path.take(ns) + cleaned + ext
    }
}

/// The download history facade; the SQL work is done by the caller.
pub struct DownloadHistory;

impl DownloadHistory {
    /// Whether a video counts as downloaded: it has a record with a saved
    /// path and `file_exists` reports that file still present (a deleted
    /// file means the video is downloaded again without asking).
    pub fn is_downloaded<F: Fn(&String) -> bool>(record: &Option<DownloadRecord>, file_exists: F) -> (r: bool)
        requires
            forall|p: &String| call_requires(file_exists, (p,)),
        ensures
            match record {
                Some(rec) => match rec.file_path {
                    Some(p) => call_ensures(file_exists, (&p,), r),
                    None => !r,
                },
                None => !r,
            },
    {
        match record {
            Some(rec) => match &rec.file_path {
                Some(p) => file_exists(p),
                None => false,
            },
            None => false,
        }
    }

    /// Makes a file name valid on Windows while keeping it readable: drops
    /// `\ / : * ? " < > |` from the stem and collapses runs of spaces; the
    /// directories and the extension are kept.
    pub fn sanitize_filename(path: &str) -> (r: String)
        ensures
            r@ == spec_sanitize_filename(path@),
    {
        let p = chars_of(path);
        let mut e = p.len();
        while e > 0 && (p[e - 1] == '\\' || p[e - 1] == '/')
            invariant
                e <= p@.len(),
                name_end(p@, p@.len() as int) == name_end(p@, e as int),
            decreases e,
        {
            e = e - 1;
        }
        let mut ns = e;
        while ns > 0 && !(p[ns - 1] == '\\' || p[ns - 1] == '/')
            invariant
                ns <= e <= p@.len(),
                e == name_end(p@, p@.len() as int),
                name_start(p@, e as int) == name_start(p@, ns as int),
            decreases ns,
        {
            ns = ns - 1;
        }
        if ns == 0 && e >= 2 && (('a' <= p[0] && p[0] <= 'z') || ('A' <= p[0] && p[0] <= 'Z')) && p[1] == ':' {
            ns = 2;
        }
        assert(ns == file_name_start(p@));
        let name = slice_vec(&p, ns, e);
        let (stem, ext) = match rfind_char_exec(&name, '.') {
            Some(idx) => {
                proof {
                    crate::services::proxy::lemma_rfind(name@, '.', name@.len() as int);
                }
                if idx > 0 {
                    let s = slice_vec(&name, 0, idx);
                    let e = slice_vec(&name, idx, name.len());
                    assert(s@ =~= name@.take(idx as int));
                    assert(e@ =~= name@.skip(idx as int));
                    (s, e)
                } else {
                    (slice_vec(&name, 0, name.len()), Vec::new())
                }
            },
            None => (slice_vec(&name, 0, name.len()), Vec::new()),
        };
        assert(name@.subrange(0, name@.len() as int) =~= name@);
        let mut cleaned: Vec<char> = Vec::new();
        let mut prev_space = false;
        let mut i: usize = 0;
        while i < stem.len()
            invariant
                i <= stem@.len(),
                cleaned@ == clean_stem(stem@.take(i as int)),
                prev_space == (cleaned@.len() > 0 && cleaned@.last() == ' '),
            decreases stem@.len() - i,
        {
            let c = stem[i];
            assert(stem@.take(i + 1).drop_last() =~= stem@.take(i as int));
            assert(stem@.take(i + 1).last() == c);
            if c == '\\' || c == '/' || c == ':' || c == '*' || c == '?' || c == '"' || c == '<' || c == '>'
                || c == '|' {
                i = i + 1;
                continue;
            }
            if c == ' ' {
                if prev_space {
                    i = i + 1;
                    continue;
                }
                prev_space = true;
            } else {
                prev_space = false;
            }
            cleaned.push(c);
            i = i + 1;
        }
        assert(stem@.take(i as int) =~= stem@);
        if name.len() == 0 || cleaned.len() == 0 {
            return path.to_string();
        }
        let mut new_name = cleaned;
        let mut k: usize = 0;
        let ghost cl = new_name@;
        while k < ext.len()
            invariant
                k <= ext@.len(),
                new_name@ == cl + ext@.take(k as int),
            decreases ext@.len() - k,
        {
            new_name.push(ext[k]);
            k = k + 1;
            assert(new_name@ =~= cl + ext@.take(k as int));
        }
        assert(ext@.take(k as int) =~= ext@);
        if chars_eq(&new_name, &name) {
            return path.to_string();
        }
        let mut out = slice_vec(&p, 0, ns);
        let ghost head = out@;
        let mut j: usize = 0;
        while j < new_name.len()
            invariant
                j <= new_name@.len(),
                out@ == head + new_name@.take(j as int),
            decreases new_name@.len() - j,
        {
            out.push(new_name[j]);
            j = j + 1;
            assert(out@ =~= head + new_name@.take(j as int));
        }
        assert(new_name@.take(j as int) =~= new_name@);
        assert(out@ =~= p@.take(ns as int) + cl + ext@);
        string_of(&out)
    }
}

} // verus!
