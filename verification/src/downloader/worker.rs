//! The decisions of one task's download worker: retrying, settling the
//! outcome and choosing what goes into the download history. The caller
//! runs the loop: it starts an attempt, performs the download and hands the
//! result back here.
use vstd::prelude::*;
use crate::downloader::queue::QueuedTask;
use crate::downloader::ytdlp::{DownloadedMeta, opt_view, opt_int};
use crate::json::{json_get_str, json_get_i64, json_str_field, json_i64_field};
use crate::models::config::copy_opt;
use crate::text::{contains, contains_exec, chars_of, views};

verus! {

broadcast use vstd::string::group_string_axioms;

/// The error text that marks a download cancelled by the user.
pub const CANCELLED_MARK: &'static str = "用户主动取消";

/// The error of a failed download that reported nothing.
pub const NO_DETAIL_ERROR: &'static str = "下载失败（无详细信息）";

/// Whether an error marks a cancellation (such an error is never retried).
pub open spec fn is_cancel_error(e: Option<Seq<char>>) -> bool {
    e matches Some(t) && contains(t, CANCELLED_MARK@)
}

/// The retry state of one worker.
#[derive(Debug)]
pub struct WorkerRun {
    /// Retries left.
    pub retries: u8,
    /// Attempts made so far (saturating).
    pub attempts: u8,
    pub last_error: Option<String>,
    /// Every file the download saved; the first is the main one.
    pub saved_paths: Vec<String>,
}

fn is_cancel_error_exec(e: &Option<String>) -> (r: bool)
    ensures
        r == is_cancel_error(opt_view(*e)),
{
    match e {
        Some(t) => contains_exec(&chars_of(t.as_str()), &chars_of(CANCELLED_MARK)),
        None => false,
    }
}

impl WorkerRun {
    /// A worker with `retry_count` retries (none when unset).
    pub fn new(retry_count: Option<u8>) -> (r: Self)
        ensures
            r.retries == match retry_count {
                Some(n) => n,
                None => 0u8,
            },
            r.attempts == 0,
            r.last_error is None,
            r.saved_paths@.len() == 0,
    {
        WorkerRun {
            retries: match retry_count {
                Some(n) => n,
                None => 0,
            },
            attempts: 0,
            last_error: None,
            saved_paths: Vec::new(),
        }
    }

    /// Counts a new attempt (saturating at 255).
    pub fn begin_attempt(&mut self)
        ensures
            final(self).attempts == if old(self).attempts == u8::MAX {
                u8::MAX
            } else {
                (old(self).attempts + 1) as u8
            },
            final(self).retries == old(self).retries,
            final(self).last_error == old(self).last_error,
            final(self).saved_paths == old(self).saved_paths,
    {
        self.attempts = self.attempts.saturating_add(1);
    }

    /// Takes the result of an attempt and tells whether to try again. Saved
    /// files end the loop. A failure (an empty result counts as one, with
    /// "下载失败（无详细信息）") is kept as the last error; it is retried while
    /// retries are left, unless it marks a cancellation.
    pub fn record(&mut self, result: Result<Vec<String>, String>) -> (again: bool)
        ensures
            final(self).attempts == old(self).attempts,
            match result {
                Ok(p) if p@.len() > 0 => {
                    &&& !again
                    &&& final(self).saved_paths == p
                    &&& final(self).last_error == old(self).last_error
                    &&& final(self).retries == old(self).retries
                },
                _ => {
                    let e = match result {
                        Ok(_) => NO_DETAIL_ERROR@,
                        Err(m) => m@,
                    };
                    &&& opt_view(final(self).last_error) == Some(e)
                    &&& final(self).saved_paths == old(self).saved_paths
                    &&& if contains(e, CANCELLED_MARK@) || old(self).retries == 0 {
                        !again && final(self).retries == old(self).retries
                    } else {
                        again && final(self).retries == old(self).retries - 1
                    }
                },
            },
    {
        match result {
            Ok(p) => {
                if p.len() > 0 {
                    self.saved_paths = p;
                    return false;
                }
                self.last_error = Some(NO_DETAIL_ERROR.to_string());
            },
            Err(m) => {
                self.last_error = Some(m);
            },
        }
        if is_cancel_error_exec(&self.last_error) {
            return false;
        }
        if self.retries > 0 {
            self.retries = self.retries - 1;
            return true;
        }
        false
    }

    /// Whether the run ended in a cancellation.
    pub fn cancelled(&self) -> (r: bool)
        ensures
            r == is_cancel_error(opt_view(self.last_error)),
    {
        is_cancel_error_exec(&self.last_error)
    }

    /// The announced outcome: "completed" with saved files, else
    /// "cancelled" after a cancellation, else "failed".
    pub fn finish_status(&self) -> (r: &'static str)
        ensures
            r@ == if self.saved_paths@.len() > 0 {
                "completed"@
            } else if is_cancel_error(opt_view(self.last_error)) {
                "cancelled"@
            } else {
                "failed"@
            },
    {
        if self.saved_paths.len() > 0 {
            "completed"
        } else if self.cancelled() {
            "cancelled"
        } else {
            "failed"
        }
    }
}

// ==================== History fields ====================

/// The card fields the frontend stored with a task (its JSON info).
#[derive(Debug, Clone)]
pub struct InfoFields {
    pub title: Option<String>,
    pub thumbnail: Option<String>,
    pub uploader: Option<String>,
    pub duration: Option<i64>,
    pub view_count: Option<i64>,
    pub like_count: Option<i64>,
}

/// The fields written to a history record.
#[derive(Debug, Clone)]
pub struct HistoryFields {
    pub title: Option<String>,
    pub thumbnail: Option<String>,
    pub uploader: Option<String>,
    pub duration: i64,
    pub view_count: i64,
    pub like_count: i64,
}

/// `a`, else `b`.
pub open spec fn or_else(a: Option<Seq<char>>, b: Option<Seq<char>>) -> Option<Seq<char>> {
    if a is Some {
        a
    } else {
        b
    }
}

/// `a` when positive, else `b`.
pub open spec fn positive_or(a: int, b: int) -> int {
    if a > 0 {
        a
    } else {
        b
    }
}

pub open spec fn or_zero(o: Option<int>) -> int {
    match o {
        Some(v) => v,
        None => 0,
    }
}

/// The metadata field, if metadata was captured.
pub open spec fn meta_text_of(m: Option<DownloadedMeta>, f: spec_fn(DownloadedMeta) -> Option<String>) -> Option<
    Seq<char>,
> {
    match m {
        Some(x) => opt_view(f(x)),
        None => None,
    }
}

pub open spec fn meta_num_of(m: Option<DownloadedMeta>, f: spec_fn(DownloadedMeta) -> Option<i64>) -> int {
    match m {
        Some(x) => or_zero(opt_int(f(x))),
        None => 0,
    }
}

/// `h` holds the merged history fields: the frontend's card info first,
/// then the task's enqueue-time config (the task title for the title),
/// then yt-dlp's captured metadata; a number counts only when positive.
pub open spec fn merged(h: HistoryFields, task: QueuedTask, info: InfoFields, meta: Option<DownloadedMeta>) -> bool {
    &&& opt_view(h.title) == or_else(
        or_else(opt_view(info.title), opt_view(task.title)),
        meta_text_of(meta, |m: DownloadedMeta| m.title),
    )
    &&& opt_view(h.thumbnail) == or_else(
        or_else(opt_view(info.thumbnail), opt_view(task.config.thumbnail)),
        meta_text_of(meta, |m: DownloadedMeta| m.thumbnail),
    )
    &&& opt_view(h.uploader) == or_else(
        or_else(opt_view(info.uploader), opt_view(task.config.uploader)),
        meta_text_of(meta, |m: DownloadedMeta| m.uploader),
    )
    &&& h.duration == positive_or(
        positive_or(or_zero(opt_int(info.duration)), task.config.duration as int),
        meta_num_of(meta, |m: DownloadedMeta| m.duration),
    )
    &&& h.view_count == positive_or(
        positive_or(or_zero(opt_int(info.view_count)), task.config.view_count as int),
        meta_num_of(meta, |m: DownloadedMeta| m.view_count),
    )
    &&& h.like_count == positive_or(
        positive_or(or_zero(opt_int(info.like_count)), task.config.like_count as int),
        meta_num_of(meta, |m: DownloadedMeta| m.like_count),
    )
}

/// The card fields read from a task's JSON info.
pub open spec fn info_of(info: Option<Seq<char>>) -> (Option<Seq<char>>, Option<Seq<char>>, Option<Seq<char>>, Option<i64>, Option<i64>, Option<i64>) {
    match info {
        Some(t) => (
            json_str_field(t, "title"@),
            json_str_field(t, "thumbnail"@),
            json_str_field(t, "uploader"@),
            json_i64_field(t, "duration"@),
            json_i64_field(t, "view_count"@),
            json_i64_field(t, "like_count"@),
        ),
        None => (None, None, None, None, None, None),
    }
}

impl InfoFields {
    /// Reads the card fields of a task's JSON info (all absent without
    /// info).
    pub fn from_info(info: &Option<String>) -> (r: Self)
        ensures
            info_of(opt_view(*info)) == (
                opt_view(r.title),
                opt_view(r.thumbnail),
                opt_view(r.uploader),
                r.duration,
                r.view_count,
                r.like_count,
            ),
    {
        match info {
            Some(t) => InfoFields {
                title: json_get_str(t.as_str(), "title"),
                thumbnail: json_get_str(t.as_str(), "thumbnail"),
                uploader: json_get_str(t.as_str(), "uploader"),
                duration: json_get_i64(t.as_str(), "duration"),
                view_count: json_get_i64(t.as_str(), "view_count"),
                like_count: json_get_i64(t.as_str(), "like_count"),
            },
            None => InfoFields {
                title: None,
                thumbnail: None,
                uploader: None,
                duration: None,
                view_count: None,
                like_count: None,
            },
        }
    }
}

fn first_some(a: &Option<String>, b: &Option<String>) -> (r: Option<String>)
    ensures
        opt_view(r) == or_else(opt_view(*a), opt_view(*b)),
{
    if a.is_some() {
        copy_opt(a)
    } else {
        copy_opt(b)
    }
}

fn positive_or_exec(a: i64, b: i64) -> (r: i64)
    ensures
        r == positive_or(a as int, b as int),
{
    if a > 0 {
        a
    } else {
        b
    }
}

fn or_zero_exec(o: Option<i64>) -> (r: i64)
    ensures
        r == or_zero(opt_int(o)),
{
    match o {
        Some(v) => v,
        None => 0,
    }
}

/// Merges the history fields of a finished task from the frontend's card
/// info, the task itself and yt-dlp's captured metadata (see [`merged`]).
pub fn merge_history_fields(task: &QueuedTask, info: &InfoFields, meta: &Option<DownloadedMeta>) -> (r: HistoryFields)
    ensures
        merged(r, *task, *info, *meta),
{
    let title = first_some(&first_some(&info.title, &task.title), &match meta {
        Some(m) => copy_opt(&m.title),
        None => None,
    });
    let thumbnail = first_some(&first_some(&info.thumbnail, &task.config.thumbnail), &match meta {
        Some(m) => copy_opt(&m.thumbnail),
        None => None,
    });
    let uploader = first_some(&first_some(&info.uploader, &task.config.uploader), &match meta {
        Some(m) => copy_opt(&m.uploader),
        None => None,
    });
    let duration = positive_or_exec(
        positive_or_exec(or_zero_exec(info.duration), task.config.duration),
        match meta {
            Some(m) => or_zero_exec(m.duration),
            None => 0,
        },
    );
    let view_count = positive_or_exec(
        positive_or_exec(or_zero_exec(info.view_count), task.config.view_count),
        match meta {
            Some(m) => or_zero_exec(m.view_count),
            None => 0,
        },
    );
    let like_count = positive_or_exec(
        positive_or_exec(or_zero_exec(info.like_count), task.config.like_count),
        match meta {
            Some(m) => or_zero_exec(m.like_count),
            None => 0,
        },
    );
    HistoryFields { title, thumbnail, uploader, duration, view_count, like_count }
}

/// The history fields of a finished task: its JSON info is read, then
/// merged with the task and the captured metadata.
pub fn history_fields(task: &QueuedTask, meta: &Option<DownloadedMeta>) -> (r: HistoryFields)
    ensures
        exists|info: InfoFields|
            info_of(opt_view(task.info)) == (
                opt_view(info.title),
                opt_view(info.thumbnail),
                opt_view(info.uploader),
                info.duration,
                info.view_count,
                info.like_count,
            ) && merged(r, *task, info, *meta),
{
    let info = InfoFields::from_info(&task.info);
    let r = merge_history_fields(task, &info, meta);
    assert(info_of(opt_view(task.info)) == (
        opt_view(info.title),
        opt_view(info.thumbnail),
        opt_view(info.uploader),
        info.duration,
        info.view_count,
        info.like_count,
    ) && merged(r, *task, info, *meta));
    r
}

// ==================== History write ====================

/// The last error's text, empty when there is none.
pub open spec fn last_error_text(e: Option<String>) -> Seq<char> {
    match e {
        Some(t) => t@,
        None => Seq::empty(),
    }
}

/// What a finished worker writes to the download history.
#[derive(Debug)]
pub enum HistoryWrite {
    /// Nothing: the task was cancelled or has no video id.
    Skip,
    /// A successful download; `file_path` is the first saved file.
    Success {
        video_id: String,
        url: String,
        fields: HistoryFields,
        file_path: String,
        file_paths: Vec<String>,
        source: i64,
    },
    /// A failed download, after the retries ran out.
    Failed {
        video_id: String,
        url: String,
        fields: HistoryFields,
        error: String,
        attempts: u8,
        source: i64,
    },
}

/// The history write of a finished run: nothing for a cancelled run or a
/// task without video id; a success with the saved files; else a failure
/// with the last error (empty when none) and the attempt count.
pub fn history_write(run: &WorkerRun, task: &QueuedTask, fields: HistoryFields) -> (r: HistoryWrite)
    ensures
        (is_cancel_error(opt_view(run.last_error)) || task.config.video_id is None) ==> (r is Skip),
        !is_cancel_error(opt_view(run.last_error)) && task.config.video_id is Some && run.saved_paths@.len() > 0
            ==> (r == (HistoryWrite::Success {
            video_id: task.config.video_id->0,
            url: task.config.url,
            fields,
            file_path: run.saved_paths@[0],
            file_paths: r->Success_file_paths,
            source: task.source,
        }) && r->Success_file_paths@ == run.saved_paths@),
        !is_cancel_error(opt_view(run.last_error)) && task.config.video_id is Some && run.saved_paths@.len() == 0
            ==> (r == (HistoryWrite::Failed {
            video_id: task.config.video_id->0,
            url: task.config.url,
            fields,
            error: r->Failed_error,
            attempts: run.attempts,
            source: task.source,
        }) && r->Failed_error@ == last_error_text(run.last_error)),
{
    if run.cancelled() {
        return HistoryWrite::Skip;
    }
    match &task.config.video_id {
        Some(vid) => {
            if run.saved_paths.len() > 0 {
                HistoryWrite::Success {
                    video_id: vid.clone(),
                    url: task.config.url.clone(),
                    fields,
                    file_path: run.saved_paths[0].clone(),
                    file_paths: copy_paths(&run.saved_paths),
                    source: task.source,
                }
            } else {
                HistoryWrite::Failed {
                    video_id: vid.clone(),
                    url: task.config.url.clone(),
                    fields,
                    error: match &run.last_error {
                        Some(e) => e.clone(),
                        None => String::new(),
                    },
                    attempts: run.attempts,
                    source: task.source,
                }
            }
        },
        None => HistoryWrite::Skip,
    }
}

/// A copy of a list of paths.
pub fn copy_paths(v: &Vec<String>) -> (r: Vec<String>)
    ensures
        r@ == v@,
{
    let mut out: Vec<String> = Vec::new();
    let mut i: usize = 0;
    while i < v.len()
        invariant
            i <= v@.len(),
            out@ == v@.take(i as int),
        decreases v@.len() - i,
    {
        out.push(v[i].clone());
        proof {
            assert(out@ =~= v@.take(i + 1));
        }
        i = i + 1;
    }
    proof {
        assert(v@.take(i as int) =~= v@);
    }
    out
}

} // verus!
