//! The yt-dlp side of a download: the command lines, the per-task
//! bookkeeping (cancel flags, process ids, captured metadata), the paths of
//! the staging directories and the reading of what yt-dlp leaves behind.
use vstd::prelude::*;
use crate::assoc::{AssocList, lookup};
use crate::models::config::{DownloadConfig, copy_opt};
use crate::numbers::{dec, dec_int, decimal_trunc, decimal_trunc_chars, i64_to_string, u64_to_string};
use crate::text::{
    strs, trim, trim_exec, chars_of, string_of, is_digit, split, split_exec, views, push_arg, extend_args,
    str_eq, contains, contains_exec,
};
use crate::utils::app_home::{path_join, join_path, path_absolute, is_absolute_path, path_parent, parent_path, AppHome};
use crate::services::cookies::{CookieManager, spec_is_chrome_lock_error};
use crate::services::download_history::{DownloadHistory, spec_sanitize_filename};

verus! {

broadcast use vstd::string::group_string_axioms;

// ==================== Rate limit ====================

pub open spec fn is_rate_suffix(c: char) -> bool {
    c == 'k' || c == 'K' || c == 'm' || c == 'M' || c == 'g' || c == 'G'
}

/// The number part of a rate: without a trailing unit letter.
pub open spec fn rate_number(t: Seq<char>) -> Seq<char> {
    if t.len() > 0 && is_rate_suffix(t.last()) {
        t.drop_last()
    } else {
        t
    }
}

/// How many dots `s` holds.
pub open spec fn dot_count(s: Seq<char>) -> nat
    decreases s.len(),
{
    if s.len() == 0 {
        0
    } else {
        dot_count(s.drop_last()) + if s.last() == '.' {
            1nat
        } else {
            0nat
        }
    }
}

/// A yt-dlp `--limit-rate` value: after trimming, a number (digits, at
/// least one, with at most one decimal dot), optionally followed by one of
/// `K M G` (any case).
pub open spec fn spec_is_valid_rate_limit(s: Seq<char>) -> bool {
    let num = rate_number(trim(s));
    &&& num.len() > 0
    &&& forall|i: int| 0 <= i < num.len() ==> is_digit(#[trigger] num[i]) || num[i] == '.'
    &&& dot_count(num) <= 1
    &&& exists|i: int| 0 <= i < num.len() && is_digit(#[trigger] num[i])
}

/// Validates a `--limit-rate` value such as "500K", "1M" or "2.5M", so that
/// a malformed setting is left out instead of breaking the command.
pub fn is_valid_rate_limit(s: &str) -> (r: bool)
    ensures
        r == spec_is_valid_rate_limit(s@),
{
    let t = trim_exec(&chars_of(s));
    let n: usize = if t.len() > 0 {
        let c = t[t.len() - 1];
        if c == 'k' || c == 'K' || c == 'm' || c == 'M' || c == 'g' || c == 'G' {
            t.len() - 1
        } else {
            t.len()
        }
    } else {
        0
    };
    let ghost num = rate_number(t@);
    assert(num =~= t@.take(n as int));
    if n == 0 {
        return false;
    }
    let mut dots: usize = 0;
    let mut digit_seen = false;
    let mut i: usize = 0;
    while i < n
        invariant
            n <= t@.len(),
            num == t@.take(n as int),
            num == rate_number(trim(s@)),
            i <= n,
            dots == dot_count(num.take(i as int)),
            dots <= 1,
            forall|j: int| 0 <= j < i ==> is_digit(#[trigger] num[j]) || num[j] == '.',
            digit_seen == exists|j: int| 0 <= j < i && is_digit(#[trigger] num[j]),
        decreases n - i,
    {
        let c = t[i];
        proof {
            assert(num.take(i + 1).drop_last() =~= num.take(i as int));
            assert(num.take(i + 1).last() == c);
        }
        if c == '.' {
            if dots == 1 {
                proof {
                    assert(dot_count(num.take(i + 1)) == 2);
                    lemma_dot_count_prefix(num, i + 1);
                }
                return false;
            }
            dots = dots + 1;
        } else if !('0' <= c && c <= '9') {
            proof {
                assert(!(is_digit(num[i as int]) || num[i as int] == '.'));
            }
            return false;
        } else {
            assert(is_digit(num[i as int]));
            digit_seen = true;
        }
        i = i + 1;
    }
    proof {
        assert(num.take(n as int) =~= num);
    }
    digit_seen
}

/// The dots of a prefix are no more than those of the whole.
proof fn lemma_dot_count_prefix(s: Seq<char>, k: int)
    requires
        0 <= k <= s.len(),
    ensures
        dot_count(s.take(k)) <= dot_count(s),
    decreases s.len() - k,
{
    if k < s.len() {
        lemma_dot_count_prefix(s, k + 1);
        assert(s.take(k + 1).drop_last() =~= s.take(k));
    } else {
        assert(s.take(k) =~= s);
    }
}

// ==================== Captured metadata ====================

/// Metadata yt-dlp reports after a download, used to fill a history record
/// when the frontend's information is missing.
#[derive(Debug, Clone)]
pub struct DownloadedMeta {
    pub title: Option<String>,
    pub uploader: Option<String>,
    pub thumbnail: Option<String>,
    pub duration: Option<i64>,
    pub view_count: Option<i64>,
    pub like_count: Option<i64>,
}

/// A text field of the metadata line: absent when empty or `NA`.
pub open spec fn meta_text(s: Seq<char>) -> Option<Seq<char>> {
    if s.len() == 0 || s == "NA"@ {
        None
    } else {
        Some(s)
    }
}

/// A number field of the metadata line: absent when empty or `NA`;
/// otherwise the trimmed decimal truncated toward zero, absent when it is
/// no number.
pub open spec fn meta_number(s: Seq<char>) -> Option<int> {
    if s.len() == 0 || s == "NA"@ {
        None
    } else {
        decimal_trunc(trim(s))
    }
}

pub open spec fn opt_view(o: Option<String>) -> Option<Seq<char>> {
    match o {
        Some(s) => Some(s@),
        None => None,
    }
}

pub open spec fn opt_int(o: Option<i64>) -> Option<int> {
    match o {
        Some(v) => Some(v as int),
        None => None,
    }
}

/// `m` holds the fields of a metadata line split at tabs.
pub open spec fn meta_of(m: DownloadedMeta, f: Seq<Seq<char>>) -> bool {
    &&& opt_view(m.title) == meta_text(f[0])
    &&& opt_view(m.uploader) == meta_text(f[1])
    &&& opt_view(m.thumbnail) == meta_text(f[2])
    &&& opt_int(m.duration) == meta_number(f[3])
    &&& opt_int(m.view_count) == meta_number(f[4])
    &&& opt_int(m.like_count) == meta_number(f[5])
}

/// The metadata captured for a task is read once: what `end_task` kept
/// under `id` is what the first `read_task_meta` reads, and it leaves
/// nothing under `id` for a second read.
pub proof fn law_task_meta_read_once(before: DownloaderView, id: Seq<char>, line: String)
    requires
        before.meta.dom().contains(id),
        before.meta[id]@ == line@,
    ensures
        lookup(before.meta, id) matches Some(raw) && raw@ == line@,
        lookup(DownloaderView { meta: before.meta.remove(id), ..before }.meta, id) is None,
{
}

fn meta_text_exec(s: &Vec<char>) -> (r: Option<String>)
    ensures
        opt_view(r) == meta_text(s@),
{
    let na = chars_of("NA");
    if s.len() == 0 || crate::text::chars_eq(s, &na) {
        None
    } else {
        Some(string_of(s))
    }
}

fn meta_number_exec(s: &Vec<char>) -> (r: Option<i64>)
    ensures
        opt_int(r) == meta_number(s@),
{
    let na = chars_of("NA");
    if s.len() == 0 || crate::text::chars_eq(s, &na) {
        None
    } else {
        decimal_trunc_chars(&trim_exec(s))
    }
}

/// Reads the tab-separated metadata line
/// `title uploader thumbnail duration views likes`; `None` when it has
/// fewer than six fields.
pub fn parse_task_meta(raw: &str) -> (r: Option<DownloadedMeta>)
    ensures
        split(raw@, '\t').len() < 6 ==> r is None,
        split(raw@, '\t').len() >= 6 ==> (r matches Some(m) && meta_of(m, split(raw@, '\t'))),
{
    let fields = split_exec(&chars_of(raw), '\t');
    let ghost f = split(raw@, '\t');
    proof {
        assert(fields@.len() == f.len());
    }
    if fields.len() < 6 {
        return None;
    }
    proof {
        assert forall|i: int| 0 <= i < 6 implies fields@[i]@ == f[i] by {
            assert(fields@.map_values(|v: Vec<char>| v@)[i] == fields@[i]@);
        }
    }
    Some(DownloadedMeta {
        title: meta_text_exec(&fields[0]),
        uploader: meta_text_exec(&fields[1]),
        thumbnail: meta_text_exec(&fields[2]),
        duration: meta_number_exec(&fields[3]),
        view_count: meta_number_exec(&fields[4]),
        like_count: meta_number_exec(&fields[5]),
    })
}

// ==================== Outcome of a download ====================

/// The saved paths listed one per line: each trimmed, empty ones left out.
pub open spec fn listed_paths(lines: Seq<Seq<char>>) -> Seq<Seq<char>>
    decreases lines.len(),
{
    if lines.len() == 0 {
        Seq::empty()
    } else if trim(lines.last()).len() == 0 {
        listed_paths(lines.drop_last())
    } else {
        listed_paths(lines.drop_last()).push(trim(lines.last()))
    }
}

/// The saved paths are the lines trimmed, with the empty ones filtered out:
/// none is lost, none is empty, and their order is the order of the lines.
pub proof fn law_listed_paths_are_the_nonempty_lines(lines: Seq<Seq<char>>)
    ensures
        listed_paths(lines) == lines.map_values(|l: Seq<char>| trim(l)).filter(|t: Seq<char>| t.len() > 0),
        forall|i: int| 0 <= i < listed_paths(lines).len() ==> (#[trigger] listed_paths(lines)[i]).len() > 0,
        forall|i: int|
            0 <= i < lines.len() && trim(#[trigger] lines[i]).len() > 0 ==> listed_paths(lines).contains(trim(lines[i])),
    decreases lines.len(),
{
    reveal(Seq::filter);
    let m = lines.map_values(|l: Seq<char>| trim(l));
    if lines.len() > 0 {
        law_listed_paths_are_the_nonempty_lines(lines.drop_last());
        assert(m.drop_last() =~= lines.drop_last().map_values(|l: Seq<char>| trim(l)));
        assert(m.last() == trim(lines.last()));
    } else {
        assert(m =~= Seq::<Seq<char>>::empty());
    }
    assert(listed_paths(lines) == m.filter(|t: Seq<char>| t.len() > 0));
    broadcast use vstd::seq_lib::group_filter_ensures;
    assert forall|i: int| 0 <= i < listed_paths(lines).len() implies (#[trigger] listed_paths(lines)[i]).len() > 0 by {
        m.lemma_filter_pred(|t: Seq<char>| t.len() > 0, i);
    }
    assert forall|i: int|
        0 <= i < lines.len() && trim(#[trigger] lines[i]).len() > 0 implies listed_paths(lines).contains(trim(lines[i])) by {
        assert(m[i] == trim(lines[i]));
        m.lemma_filter_contains(|t: Seq<char>| t.len() > 0, i);
    }
}

/// A successful run reports every saved file: the result lists each
/// non-empty trimmed line of the print-to-file output, in order, and
/// nothing else.
pub proof fn law_successful_download_lists_every_file(cancelled: bool, stderr: Seq<char>, text: Seq<char>)
    ensures
        spec_download_outcome(true, cancelled, stderr, Some(text)) == Ok::<Seq<Seq<char>>, Seq<char>>(
            split(text, '\n').map_values(|l: Seq<char>| trim(l)).filter(|t: Seq<char>| t.len() > 0),
        ),
{
    law_listed_paths_are_the_nonempty_lines(split(text, '\n'));
}

/// The outcome of a finished yt-dlp run. A failed run is "用户主动取消" when
/// the task was cancelled, else "下载失败: " and the stderr text when there
/// is any, else a success with no file. A successful run gives the paths
/// listed in the print-to-file output (none when it could not be read).
pub open spec fn spec_download_outcome(
    success: bool,
    cancelled: bool,
    stderr: Seq<char>,
    listed: Option<Seq<char>>,
) -> Result<Seq<Seq<char>>, Seq<char>> {
    if !success {
        if cancelled {
            Err("用户主动取消"@)
        } else if stderr.len() > 0 {
            Err("下载失败: "@ + stderr)
        } else {
            Ok(Seq::empty())
        }
    } else {
        match listed {
            Some(text) => Ok(listed_paths(split(text, '\n'))),
            None => Ok(Seq::empty()),
        }
    }
}

pub open spec fn outcome_view(r: Result<Vec<String>, String>) -> Result<Seq<Seq<char>>, Seq<char>> {
    match r {
        Ok(v) => Ok(views(v@)),
        Err(e) => Err(e@),
    }
}

pub fn download_outcome(success: bool, cancelled: bool, stderr: &str, listed: Option<&str>) -> (r: Result<
    Vec<String>,
    String,
>)
    ensures
        outcome_view(r) == spec_download_outcome(success, cancelled, stderr@, match listed {
            Some(t) => Some(t@),
            None => None,
        }),
{
    if !success {
        if cancelled {
            return Err("用户主动取消".to_string());
        }
        if chars_of(stderr).len() > 0 {
            let mut e = "下载失败: ".to_string();
            crate::text::push_str(&mut e, stderr);
            return Err(e);
        }
        let v: Vec<String> = Vec::new();
        proof {
            assert(views(v@) =~= Seq::<Seq<char>>::empty());
        }
        return Ok(v);
    }
    match listed {
        Some(text) => {
            let lines = split_exec(&chars_of(text), '\n');
            let ghost ls = split(text@, '\n');
            let mut out: Vec<String> = Vec::new();
            let mut i: usize = 0;
            proof {
                assert(views(out@) =~= listed_paths(ls.take(0)));
            }
            while i < lines.len()
                invariant
                    i <= lines@.len(),
                    lines@.map_values(|v: Vec<char>| v@) == ls,
                    views(out@) == listed_paths(ls.take(i as int)),
                decreases lines@.len() - i,
            {
                proof {
                    assert(ls.take(i + 1).drop_last() =~= ls.take(i as int));
                    assert(ls.take(i + 1).last() == lines@[i as int]@);
                }
                let t = trim_exec(&lines[i]);
                if t.len() > 0 {
                    let s = string_of(&t);
                    out.push(s);
                    proof {
                        assert(views(out@) =~= listed_paths(ls.take(i as int)).push(t@));
                    }
                }
                i = i + 1;
            }
            proof {
                assert(ls.take(i as int) =~= ls);
            }
            Ok(out)
        },
        None => {
            let v: Vec<String> = Vec::new();
            proof {
                assert(views(v@) =~= Seq::<Seq<char>>::empty());
            }
            Ok(v)
        },
    }
}

/// The error of a failed `--dump-json` run: a login / age hint when stderr
/// mentions "age", "login" or "unavailable", else the parse failure.
pub open spec fn spec_info_error(stderr: Seq<char>) -> Seq<char> {
    if contains(stderr, "age"@) || contains(stderr, "login"@) || contains(stderr, "unavailable"@) {
        "需要登录或年龄验证，请设置 Cookies:\n"@ + stderr
    } else {
        "yt-dlp 解析失败: "@ + stderr
    }
}

pub fn info_error(stderr: &str) -> (r: String)
    ensures
        r@ == spec_info_error(stderr@),
{
    let cs = chars_of(stderr);
    let mut e = if contains_exec(&cs, &chars_of("age")) || contains_exec(&cs, &chars_of("login"))
        || contains_exec(&cs, &chars_of("unavailable")) {
        "需要登录或年龄验证，请设置 Cookies:\n".to_string()
    } else {
        "yt-dlp 解析失败: ".to_string()
    };
    crate::text::push_str(&mut e, stderr);
    e
}

// ==================== The downloader ====================

/// The abstract state of a [`YtDlpDownloader`].
pub ghost struct DownloaderView {
    pub ytdlp_path: Seq<char>,
    pub cookies_from_browser: Option<Seq<char>>,
    /// Task id -> cancel flag of the running download.
    pub cancel_flags: Map<Seq<char>, bool>,
    /// Task id -> process id of the running yt-dlp.
    pub pids: Map<Seq<char>, u32>,
    /// Task id -> metadata line captured after the download.
    pub meta: Map<Seq<char>, String>,
}

/// The yt-dlp command-line driver's bookkeeping.
pub struct YtDlpDownloader {
    ytdlp_path: String,
    cookies_from_browser: Option<String>,
    task_cancel_flags: AssocList<bool>,
    task_pids: AssocList<u32>,
    task_meta: AssocList<String>,
}

impl View for YtDlpDownloader {
    type V = DownloaderView;

    closed spec fn view(&self) -> DownloaderView {
        DownloaderView {
            ytdlp_path: self.ytdlp_path@,
            cookies_from_browser: opt_view(self.cookies_from_browser),
            cancel_flags: self.task_cancel_flags@,
            pids: self.task_pids@,
            meta: self.task_meta@,
        }
    }
}

/// The progress line format that `parse_progress_line` reads.
pub const PROGRESS_TEMPLATE: &'static str = "download:%(progress.downloaded_bytes)s|%(progress.total_bytes)s|%(progress._speed_str)s|%(progress._eta_str)s|%(progress._percent_str)s|%(progress.status)s|%(info.acodec)s|%(info.vcodec)s";

/// The tab-separated metadata line that `parse_task_meta` reads.
pub const META_TEMPLATE: &'static str = "after_move:%(title)s\t%(uploader)s\t%(thumbnail)s\t%(duration)s\t%(view_count)s\t%(like_count)s";

/// `flag value` when the value is present and not empty.
pub open spec fn flag_value(flag: Seq<char>, v: Option<Seq<char>>) -> Seq<Seq<char>> {
    match v {
        Some(s) => if s.len() > 0 {
            seq![flag, s]
        } else {
            Seq::empty()
        },
        None => Seq::empty(),
    }
}

/// `flag n` when the setting is present and positive.
pub open spec fn count_flag(flag: Seq<char>, n: Option<u8>) -> Seq<Seq<char>> {
    match n {
        Some(k) => if k > 0 {
            seq![flag, dec(k as nat)]
        } else {
            Seq::empty()
        },
        None => Seq::empty(),
    }
}

/// `--limit-rate r` for a present, non-empty, valid rate.
pub open spec fn rate_args(r: Option<Seq<char>>) -> Seq<Seq<char>> {
    match r {
        Some(s) => if s.len() > 0 && spec_is_valid_rate_limit(s) {
            seq!["--limit-rate"@, s]
        } else {
            Seq::empty()
        },
        None => Seq::empty(),
    }
}

/// `args` when `b` holds.
pub open spec fn when(b: bool, args: Seq<Seq<char>>) -> Seq<Seq<char>> {
    if b {
        args
    } else {
        Seq::empty()
    }
}

/// The cookie browser of a download: the config's own, else the
/// downloader's.
pub open spec fn cookie_browser(config: Option<Seq<char>>, own: Option<Seq<char>>) -> Option<Seq<char>> {
    if config is Some {
        config
    } else {
        own
    }
}

/// The arguments every yt-dlp run starts with: the program, quiet and
/// uncoloured UTF-8 output, the bundled ffmpeg's directory and the
/// application proxy.
pub open spec fn spec_base_command(ytdlp: Seq<char>, ffmpeg: Seq<char>, proxy_url: Option<Seq<char>>) -> Seq<
    Seq<char>,
> {
    seq![ytdlp, "--no-warnings"@, "--no-color"@, "--encoding"@, "utf-8"@] + match path_parent(ffmpeg) {
        Some(d) => seq!["--ffmpeg-location"@, d],
        None => Seq::empty(),
    } + match proxy_url {
        Some(p) => seq!["--proxy"@, p],
        None => Seq::empty(),
    }
}

/// The command of a `--dump-json` information request.
pub open spec fn spec_info_command(base: Seq<Seq<char>>, own: Option<Seq<char>>, url: Seq<char>) -> Seq<Seq<char>> {
    base + flag_value("--cookies-from-browser"@, own) + seq!["--dump-json"@, "--no-playlist"@, url]
}

/// `prefix` followed by the format, the output template in `cache_dir` and
/// the socket timeout. Partial files left in `cache_dir` by an earlier
/// attempt are resumed (yt-dlp continues them by default).
pub open spec fn with_head(prefix: Seq<Seq<char>>, c: DownloadConfig, cache_dir: Seq<char>, sep: char) -> Seq<
    Seq<char>,
> {
    prefix + seq![
        "-f"@,
        c.format_id@,
        "-o"@,
        cache_dir + seq![sep] + c.output_template@,
        "--socket-timeout"@,
        dec_int(c.socket_timeout as int),
    ]
}

/// `prefix` followed by the transfer options of a download: rate limit,
/// HLS fragment settings, playlist items and archive.
pub open spec fn with_transfer(
    prefix: Seq<Seq<char>>,
    c: DownloadConfig,
    hls_fragments: Option<u8>,
    hls_retries: Option<u8>,
) -> Seq<Seq<char>> {
    prefix + rate_args(opt_view(c.download_rate_limit)) + count_flag("--concurrent-fragments"@, hls_fragments)
        + count_flag("--fragment-retries"@, hls_retries) + flag_value(
        "--playlist-items"@,
        opt_view(c.playlist_items),
    ) + flag_value("--download-archive"@, opt_view(c.download_archive))
}

/// `prefix` followed by the output options of a download: audio
/// extraction, subtitles, thumbnails, proxy, cookie browser and height
/// limit.
pub open spec fn with_output(prefix: Seq<Seq<char>>, own: Option<Seq<char>>, c: DownloadConfig) -> Seq<Seq<char>> {
    prefix + when(c.extract_audio, seq!["-x"@, "--audio-format"@, "mp3"@, "--audio-quality"@, "0"@])
        + when(c.embed_subtitles, seq!["--embed-subs"@, "--write-auto-subs"@]) + when(
        c.embed_thumbnail,
        seq!["--embed-thumbnail"@],
    ) + when(c.write_thumbnail, seq!["--write-thumbnail"@]) + flag_value("--proxy"@, opt_view(c.proxy))
        + flag_value("--cookies-from-browser"@, cookie_browser(opt_view(c.cookies_from_browser), own))
        + when(c.max_height > 0, seq!["--format-sort"@, "+height:"@ + dec_int(c.max_height as int)])
}

/// `prefix` followed by the optional arguments of a download.
pub open spec fn with_options(
    prefix: Seq<Seq<char>>,
    own: Option<Seq<char>>,
    c: DownloadConfig,
    hls_fragments: Option<u8>,
    hls_retries: Option<u8>,
) -> Seq<Seq<char>> {
    with_output(with_transfer(prefix, c, hls_fragments, hls_retries), own, c)
}

/// `prefix` followed by the progress and print-to-file arguments and the
/// URL.
pub open spec fn with_tail(prefix: Seq<Seq<char>>, tmp_path: Seq<char>, meta_path: Seq<char>, url: Seq<char>) -> Seq<
    Seq<char>,
> {
    prefix + seq![
        "--newline"@,
        "--progress"@,
        "--progress-template"@,
        PROGRESS_TEMPLATE@,
        "--print-to-file"@,
        "after_move:filepath"@,
        tmp_path,
        "--print-to-file"@,
        META_TEMPLATE@,
        meta_path,
        url,
    ]
}

/// The command of a download staged in `cache_dir`.
pub open spec fn spec_download_command(
    base: Seq<Seq<char>>,
    own: Option<Seq<char>>,
    c: DownloadConfig,
    cache_dir: Seq<char>,
    sep: char,
    hls_fragments: Option<u8>,
    hls_retries: Option<u8>,
    tmp_path: Seq<char>,
    meta_path: Seq<char>,
) -> Seq<Seq<char>> {
    with_tail(
        with_options(with_head(base, c, cache_dir, sep), own, c, hls_fragments, hls_retries),
        tmp_path,
        meta_path,
        c.url@,
    )
}

/// Cache entries untouched for longer than this (seven days, in seconds)
/// are swept at startup.
pub const CACHE_MAX_AGE_SECS: i64 = 604800;

/// An entry found directly in a cache directory, with the time (Unix
/// seconds) it was last modified; for a directory, the latest time of
/// anything inside it.
pub struct CacheEntry {
    pub path: String,
    pub modified: i64,
}

/// Whether an entry modified at `modified` is untouched for over seven
/// days at `now`.
pub open spec fn is_stale(modified: int, now: int) -> bool {
    now - modified > CACHE_MAX_AGE_SECS
}

/// The paths of the stale entries, in order.
pub open spec fn stale_paths(entries: Seq<CacheEntry>, now: int) -> Seq<Seq<char>>
    decreases entries.len(),
{
    if entries.len() == 0 {
        Seq::empty()
    } else {
        let rest = stale_paths(entries.drop_last(), now);
        if is_stale(entries.last().modified as int, now) {
            rest.push(entries.last().path@)
        } else {
            rest
        }
    }
}

/// An output directory made absolute: a relative one is taken below the
/// application root (not the working directory).
pub open spec fn spec_resolve_output_dir(output_dir: Seq<char>, root: Seq<char>) -> Seq<char> {
    if path_absolute(output_dir) {
        output_dir
    } else {
        path_join(root, output_dir)
    }
}

/// The staging directory of a task: `{output_dir}/.xdl_cache/{task_id}`.
pub open spec fn spec_task_cache_dir(output_dir: Seq<char>, task_id: Seq<char>, root: Seq<char>) -> Seq<char> {
    path_join(path_join(spec_resolve_output_dir(output_dir, root), ".xdl_cache"@), task_id)
}

/// The last line of a text, as `str::lines` splits it.
pub open spec fn last_line(text: Seq<char>) -> Option<Seq<char>> {
    let p = split(text, '\n');
    if p.last().len() > 0 {
        Some(p.last())
    } else if p.len() >= 2 {
        let l = p[p.len() - 2];
        if l.len() > 0 && l.last() == '\r' {
            Some(l.drop_last())
        } else {
            Some(l)
        }
    } else {
        None
    }
}

/// Appends `flag value` when the value is present and not empty.
fn push_flag_value(cmd: &mut Vec<String>, flag: &str, v: &Option<String>)
    ensures
        views(final(cmd)@) == views(old(cmd)@) + flag_value(flag@, opt_view(*v)),
{
    match v {
        Some(s) => {
            if chars_of(s.as_str()).len() > 0 {
                push_arg(cmd, flag);
                push_arg(cmd, s.as_str());
                proof {
                    assert(views(cmd@) =~= views(old(cmd)@) + flag_value(flag@, opt_view(*v)));
                }
            } else {
                proof {
                    assert(views(cmd@) =~= views(old(cmd)@) + flag_value(flag@, opt_view(*v)));
                }
            }
        },
        None => {
            proof {
                assert(views(cmd@) =~= views(old(cmd)@) + flag_value(flag@, opt_view(*v)));
            }
        },
    }
}

/// Appends `flag n` when the setting is present and positive.
fn push_count_flag(cmd: &mut Vec<String>, flag: &str, n: Option<u8>)
    ensures
        views(final(cmd)@) == views(old(cmd)@) + count_flag(flag@, n),
{
    match n {
        Some(k) => {
            if k > 0 {
                push_arg(cmd, flag);
                let t = u64_to_string(k as u64);
                push_arg(cmd, t.as_str());
            }
        },
        None => {},
    }
    proof {
        assert(views(cmd@) =~= views(old(cmd)@) + count_flag(flag@, n));
    }
}

impl YtDlpDownloader {
    /// A downloader that runs the yt-dlp program at `ytdlp_path`, with no
    /// cookie browser and no task yet.
    pub fn new(ytdlp_path: String) -> (r: Self)
        ensures
            r@ == (DownloaderView {
                ytdlp_path: ytdlp_path@,
                cookies_from_browser: None,
                cancel_flags: Map::empty(),
                pids: Map::empty(),
                meta: Map::empty(),
            }),
    {
        YtDlpDownloader {
            ytdlp_path,
            cookies_from_browser: None,
            task_cancel_flags: AssocList::new(),
            task_pids: AssocList::new(),
            task_meta: AssocList::new(),
        }
    }

    /// Sets the browser whose cookies yt-dlp reads.
    pub fn set_cookies_from_browser(&mut self, browser: &str)
        ensures
            final(self)@ == (DownloaderView { cookies_from_browser: Some(browser@), ..old(self)@ }),
    {
        self.cookies_from_browser = Some(browser.to_string());
    }

    /// The browser whose cookies yt-dlp reads, if any.
    pub fn get_cookies_from_browser(&self) -> (r: Option<String>)
        ensures
            opt_view(r) == self@.cookies_from_browser,
    {
        copy_opt(&self.cookies_from_browser)
    }

    /// Registers a starting download of task `task_id` (not cancelled).
    pub fn begin_task(&mut self, task_id: &str)
        ensures
            final(self)@ == (DownloaderView {
                cancel_flags: old(self)@.cancel_flags.insert(task_id@, false),
                ..old(self)@
            }),
    {
        self.task_cancel_flags.insert(task_id.to_string(), false);
    }

    /// Records the process id of task `task_id`'s yt-dlp.
    pub fn record_pid(&mut self, task_id: &str, pid: u32)
        ensures
            final(self)@ == (DownloaderView { pids: old(self)@.pids.insert(task_id@, pid), ..old(self)@ }),
    {
        self.task_pids.insert(task_id.to_string(), pid);
    }

    /// Whether the download of task `task_id` was cancelled.
    pub fn is_cancelled(&self, task_id: &str) -> (r: bool)
        ensures
            r == (lookup(self@.cancel_flags, task_id@) == Some(true)),
    {
        match self.task_cancel_flags.get(task_id) {
            Some(b) => b,
            None => false,
        }
    }

    /// Cancels the download of one task: its cancel flag is raised when it
    /// has one, and its process id (if known) is returned for the caller to
    /// kill that process tree; other tasks are untouched.
    pub fn cancel_task(&mut self, task_id: &str) -> (r: Option<u32>)
        ensures
            r == lookup(old(self)@.pids, task_id@),
            final(self)@ == (DownloaderView {
                cancel_flags: if old(self)@.cancel_flags.dom().contains(task_id@) {
                    old(self)@.cancel_flags.insert(task_id@, true)
                } else {
                    old(self)@.cancel_flags
                },
                ..old(self)@
            }),
    {
        if self.task_cancel_flags.contains_key(task_id) {
            self.task_cancel_flags.insert(task_id.to_string(), true);
        }
        self.task_pids.get(task_id)
    }

    /// Ends the bookkeeping of task `task_id`'s download: the last line of
    /// the metadata file (when it could be read and has one) is kept for
    /// `read_task_meta`, and the cancel flag and process id are dropped.
    pub fn end_task(&mut self, task_id: &str, meta_file: Option<&str>)
        ensures
            final(self)@.ytdlp_path == old(self)@.ytdlp_path,
            final(self)@.cookies_from_browser == old(self)@.cookies_from_browser,
            final(self)@.cancel_flags == old(self)@.cancel_flags.remove(task_id@),
            final(self)@.pids == old(self)@.pids.remove(task_id@),
            forall|k: Seq<char>| k != task_id@ ==> lookup(#[trigger] final(self)@.meta, k) == lookup(old(self)@.meta, k),
            match meta_file {
                Some(text) => match last_line(text@) {
                    Some(l) => final(self)@.meta.dom().contains(task_id@) && final(self)@.meta[task_id@]@ == l,
                    None => lookup(final(self)@.meta, task_id@) == lookup(old(self)@.meta, task_id@),
                },
                None => lookup(final(self)@.meta, task_id@) == lookup(old(self)@.meta, task_id@),
            },
    {
        match meta_file {
            Some(text) => {
                match last_line_exec(text) {
                    Some(l) => self.task_meta.insert(task_id.to_string(), l),
                    None => {},
                }
            },
            None => {},
        }
        let _ = self.task_cancel_flags.remove(task_id);
        let _ = self.task_pids.remove(task_id);
    }

    /// Takes the metadata captured for task `task_id` (it is forgotten) and
    /// reads it; `None` when nothing was captured or the line is short.
    pub fn read_task_meta(&mut self, task_id: &str) -> (r: Option<DownloadedMeta>)
        ensures
            final(self)@ == (DownloaderView { meta: old(self)@.meta.remove(task_id@), ..old(self)@ }),
            match lookup(old(self)@.meta, task_id@) {
                Some(raw) => if split(raw@, '\t').len() >= 6 {
                    (r matches Some(m) && meta_of(m, split(raw@, '\t')))
                } else {
                    r is None
                },
                None => r is None,
            },
    {
        match self.task_meta.remove(task_id) {
            Some(raw) => parse_task_meta(raw.as_str()),
            None => None,
        }
    }

    /// The readable name of the cookie browser ("浏览器" when none is set).
    pub fn browser_display_name(&self) -> (r: String)
        ensures
            r@ == match self@.cookies_from_browser {
                Some(b) => b,
                None => "浏览器"@,
            },
    {
        match &self.cookies_from_browser {
            Some(b) => b.clone(),
            None => "浏览器".to_string(),
        }
    }

    /// The error of a failed yt-dlp run that could not read a locked cookie
    /// database: the browser must be closed, or another one chosen. `None`
    /// when the run succeeded or failed for another reason.
    pub fn cookie_lock_failure(&self, success: bool, stderr: &str) -> (r: Option<String>)
        ensures
            (success || !spec_is_chrome_lock_error(stderr@)) ==> r is None,
            !success && spec_is_chrome_lock_error(stderr@) ==> (r matches Some(m) && m@ == {
                let name = match self@.cookies_from_browser {
                    Some(b) => b,
                    None => "浏览器"@,
                };
                "无法读取浏览器 Cookies："@ + name + " 正在运行且锁定了 Cookie 数据库。\n请关闭 "@ + name
                    + " 后重试，或在设置页切换到其他浏览器（如 Firefox）。\n\n"@ + trim(stderr@)
            }),
    {
        if success || !CookieManager::is_chrome_lock_error(stderr) {
            return None;
        }
        let name = self.browser_display_name();
        let mut m = "无法读取浏览器 Cookies：".to_string();
        crate::text::push_str(&mut m, name.as_str());
        crate::text::push_str(&mut m, " 正在运行且锁定了 Cookie 数据库。\n请关闭 ");
        crate::text::push_str(&mut m, name.as_str());
        crate::text::push_str(&mut m, " 后重试，或在设置页切换到其他浏览器（如 Firefox）。\n\n");
        let t = string_of(&trim_exec(&chars_of(stderr)));
        crate::text::push_str(&mut m, t.as_str());
        Some(m)
    }

    /// The arguments every yt-dlp run starts with (see
    /// [`spec_base_command`]); `ffmpeg_path` is the bundled ffmpeg and
    /// `proxy_url` the application proxy, if enabled.
    pub fn build_base_command(&self, ffmpeg_path: &str, proxy_url: Option<String>) -> (r: Vec<String>)
        ensures
            views(r@) == spec_base_command(self@.ytdlp_path, ffmpeg_path@, opt_view(proxy_url)),
    {
        let mut cmd: Vec<String> = Vec::new();
        push_arg(&mut cmd, self.ytdlp_path.as_str());
        crate::text::push_strs(&mut cmd, &["--no-warnings", "--no-color", "--encoding", "utf-8"]);
        let ghost head = views(cmd@);
        match parent_path(ffmpeg_path) {
            Some(d) => {
                push_arg(&mut cmd, "--ffmpeg-location");
                push_arg(&mut cmd, d.as_str());
            },
            None => {},
        }
        let ghost mid = views(cmd@);
        match &proxy_url {
            Some(p) => {
                push_arg(&mut cmd, "--proxy");
                push_arg(&mut cmd, p.as_str());
            },
            None => {},
        }
        proof {
            let ps: Seq<&str> = seq!["--no-warnings", "--no-color", "--encoding", "utf-8"];
            assert(views(cmd@) =~= spec_base_command(self@.ytdlp_path, ffmpeg_path@, opt_view(proxy_url)));
        }
        cmd
    }
}

/// The last line of a text, as `str::lines` splits it.
fn last_line_exec(text: &str) -> (r: Option<String>)
    ensures
        opt_view(r) == last_line(text@),
{
    let parts = split_exec(&chars_of(text), '\n');
    let ghost p = split(text@, '\n');
    proof {
        assert(parts@.len() == p.len());
        assert(parts@[parts@.len() - 1]@ == p.last());
    }
    let n = parts.len();
    if parts[n - 1].len() > 0 {
        return Some(string_of(&parts[n - 1]));
    }
    if n >= 2 {
        let l = &parts[n - 2];
        proof {
            assert(l@ == p[p.len() - 2]);
        }
        if l.len() > 0 && l[l.len() - 1] == '\r' {
            let t = crate::text::slice_vec(l, 0, l.len() - 1);
            proof {
                assert(t@ =~= l@.drop_last());
            }
            return Some(string_of(&t));
        }
        return Some(string_of(l));
    }
    None
}

impl YtDlpDownloader {
    /// The command asking yt-dlp for a video's information as JSON, with
    /// the downloader's cookie browser.
    pub fn info_command(&self, base: &Vec<String>, url: &str) -> (r: Vec<String>)
        ensures
            views(r@) == spec_info_command(views(base@), self@.cookies_from_browser, url@),
    {
        let mut cmd: Vec<String> = Vec::new();
        extend_args(&mut cmd, base);
        push_flag_value(&mut cmd, "--cookies-from-browser", &self.cookies_from_browser);
        crate::text::push_strs(&mut cmd, &["--dump-json", "--no-playlist"]);
        push_arg(&mut cmd, url);
        proof {
            assert(views(cmd@) =~= spec_info_command(views(base@), self@.cookies_from_browser, url@));
        }
        cmd
    }

    /// The command of a download of `config` staged in `cache_dir`
    /// (`sep` is the platform's path separator), with the HLS fragment
    /// settings, writing the saved paths to `tmp_path` and the metadata line
    /// to `meta_path` (see [`spec_download_command`]).
    pub fn download_command(
        &self,
        base: &Vec<String>,
        config: &DownloadConfig,
        cache_dir: &str,
        sep: char,
        hls_fragments: Option<u8>,
        hls_retries: Option<u8>,
        tmp_path: &str,
        meta_path: &str,
    ) -> (r: Vec<String>)
        ensures
            views(r@) == spec_download_command(
                views(base@),
                self@.cookies_from_browser,
                *config,
                cache_dir@,
                sep,
                hls_fragments,
                hls_retries,
                tmp_path@,
                meta_path@,
            ),
    {
        let mut cmd: Vec<String> = Vec::new();
        extend_args(&mut cmd, base);
        proof {
            assert(views(cmd@) =~= views(base@));
        }
        push_download_head(&mut cmd, config, cache_dir, sep);
        self.push_download_options(&mut cmd, config, hls_fragments, hls_retries);
        push_download_tail(&mut cmd, tmp_path, meta_path, config.url.as_str());
        cmd
    }

    fn push_download_options(
        &self,
        cmd: &mut Vec<String>,
        config: &DownloadConfig,
        hls_fragments: Option<u8>,
        hls_retries: Option<u8>,
    )
        ensures
            views(final(cmd)@) == with_options(
                views(old(cmd)@),
                self@.cookies_from_browser,
                *config,
                hls_fragments,
                hls_retries,
            ),
    {
        push_transfer_options(cmd, config, hls_fragments, hls_retries);
        let browser = if config.cookies_from_browser.is_some() {
            copy_opt(&config.cookies_from_browser)
        } else {
            copy_opt(&self.cookies_from_browser)
        };
        push_output_options(cmd, config, &browser);
    }

    /// An output directory made absolute: a relative one is taken below the
    /// application root `root`, never below the working directory.
    pub fn resolve_output_dir(output_dir: &str, root: &str) -> (r: String)
        ensures
            r@ == spec_resolve_output_dir(output_dir@, root@),
    {
        if is_absolute_path(output_dir) {
            output_dir.to_string()
        } else {
            join_path(root, output_dir)
        }
    }

    /// The staging directory of task `task_id`:
    /// `{output_dir}/.xdl_cache/{task_id}`, on the same disk as the output.
    /// It is kept between attempts, so a paused, failed or interrupted task
    /// resumes its partial files.
    pub fn task_cache_dir(output_dir: &str, task_id: &str, root: &str) -> (r: String)
        ensures
            r@ == spec_task_cache_dir(output_dir@, task_id@, root@),
    {
        let out = Self::resolve_output_dir(output_dir, root);
        let cache = join_path(out.as_str(), ".xdl_cache");
        join_path(cache.as_str(), task_id)
    }

    /// The cache directories swept at startup: the `.xdl_cache` of the
    /// download directory (`downloads` when none is set) and the
    /// `download_cache` left by older versions.
    pub fn cache_dirs(download_dir: Option<String>, root: &str) -> (r: Vec<String>)
        ensures
            views(r@) == seq![
                path_join(
                    spec_resolve_output_dir(
                        match download_dir {
                            Some(d) => d@,
                            None => "downloads"@,
                        },
                        root@,
                    ),
                    ".xdl_cache"@,
                ),
                path_join(root@, "download_cache"@),
            ],
    {
        let dir = match download_dir {
            Some(d) => d,
            None => "downloads".to_string(),
        };
        let out = Self::resolve_output_dir(dir.as_str(), root);
        let mut r: Vec<String> = Vec::new();
        r.push(join_path(out.as_str(), ".xdl_cache"));
        r.push(AppHome::download_cache_dir(root));
        proof {
            assert(views(r@) =~= seq![
                path_join(spec_resolve_output_dir(dir@, root@), ".xdl_cache"@),
                path_join(root@, "download_cache"@),
            ]);
        }
        r
    }

    /// The startup sweep of the cache: of the entries found in the cache
    /// directories (each with the time, in Unix seconds, it was last
    /// modified), those untouched for over seven days at `now`, in order.
    /// Newer entries are kept, so interrupted downloads stay resumable.
    pub fn cleanup_download_cache(entries: &Vec<CacheEntry>, now: i64) -> (r: Vec<String>)
        ensures
            views(r@) == stale_paths(entries@, now as int),
    {
        let mut r: Vec<String> = Vec::new();
        let mut i: usize = 0;
        while i < entries.len()
            invariant
                i <= entries@.len(),
                views(r@) == stale_paths(entries@.take(i as int), now as int),
            decreases entries@.len() - i,
        {
            let e = &entries[i];
            proof {
                assert(entries@.take(i + 1).drop_last() =~= entries@.take(i as int));
                assert(entries@.take(i + 1).last() == entries@[i as int]);
            }
            let age: i128 = now as i128 - e.modified as i128;
            if age > CACHE_MAX_AGE_SECS as i128 {
                let ghost before = views(r@);
                r.push(e.path.clone());
                proof {
                    assert(views(r@) =~= before.push(e.path@));
                }
            }
            i = i + 1;
        }
        proof {
            assert(entries@.take(i as int) =~= entries@);
        }
        r
    }

    /// Where a finished file named `file_name` is moved: into the resolved
    /// output directory, its name made valid on Windows.
    pub fn move_target(file_name: &str, output_dir: &str, root: &str) -> (r: String)
        ensures
            r@ == spec_sanitize_filename(path_join(spec_resolve_output_dir(output_dir@, root@), file_name@)),
    {
        let out = Self::resolve_output_dir(output_dir, root);
        let target = join_path(out.as_str(), file_name);
        DownloadHistory::sanitize_filename(target.as_str())
    }
}

fn push_download_head(cmd: &mut Vec<String>, config: &DownloadConfig, cache_dir: &str, sep: char)
    ensures
        views(final(cmd)@) == with_head(views(old(cmd)@), *config, cache_dir@, sep),
{
    let ghost s0 = views(cmd@);
    push_arg(cmd, "-f");
    push_arg(cmd, config.format_id.as_str());
    push_arg(cmd, "-o");
    let mut out = cache_dir.to_string();
    crate::text::push_char(&mut out, sep);
    crate::text::push_str(&mut out, config.output_template.as_str());
    assert(out@ =~= cache_dir@ + seq![sep] + config.output_template@);
    push_arg(cmd, out.as_str());
    push_arg(cmd, "--socket-timeout");
    let st = i64_to_string(config.socket_timeout as i64);
    push_arg(cmd, st.as_str());
    proof {
        assert(views(cmd@) =~= with_head(s0, *config, cache_dir@, sep));
    }
}

fn push_download_tail(cmd: &mut Vec<String>, tmp_path: &str, meta_path: &str, url: &str)
    ensures
        views(final(cmd)@) == with_tail(views(old(cmd)@), tmp_path@, meta_path@, url@),
{
    let ghost s3 = views(cmd@);
    push_arg(cmd, "--newline");
    push_arg(cmd, "--progress");
    push_arg(cmd, "--progress-template");
    push_arg(cmd, PROGRESS_TEMPLATE);
    push_arg(cmd, "--print-to-file");
    push_arg(cmd, "after_move:filepath");
    push_arg(cmd, tmp_path);
    push_arg(cmd, "--print-to-file");
    push_arg(cmd, META_TEMPLATE);
    push_arg(cmd, meta_path);
    push_arg(cmd, url);
    proof {
        assert(views(cmd@) =~= with_tail(s3, tmp_path@, meta_path@, url@));
    }
}

fn push_transfer_options(
    cmd: &mut Vec<String>,
    config: &DownloadConfig,
    hls_fragments: Option<u8>,
    hls_retries: Option<u8>,
)
    ensures
        views(final(cmd)@) == with_transfer(views(old(cmd)@), *config, hls_fragments, hls_retries),
{
    let ghost s1 = views(cmd@);
    match &config.download_rate_limit {
        Some(rate) => {
            if chars_of(rate.as_str()).len() > 0 && is_valid_rate_limit(rate.as_str()) {
                push_arg(cmd, "--limit-rate");
                push_arg(cmd, rate.as_str());
            }
        },
        None => {},
    }
    proof {
        assert(views(cmd@) =~= s1 + rate_args(opt_view(config.download_rate_limit)));
    }
    push_count_flag(cmd, "--concurrent-fragments", hls_fragments);
    push_count_flag(cmd, "--fragment-retries", hls_retries);
    push_flag_value(cmd, "--playlist-items", &config.playlist_items);
    push_flag_value(cmd, "--download-archive", &config.download_archive);
}

fn push_output_options(cmd: &mut Vec<String>, config: &DownloadConfig, browser: &Option<String>)
    ensures
        views(final(cmd)@) == views(old(cmd)@) + when(config.extract_audio, seq!["-x"@, "--audio-format"@, "mp3"@, "--audio-quality"@, "0"@])
            + when(config.embed_subtitles, seq!["--embed-subs"@, "--write-auto-subs"@]) + when(
            config.embed_thumbnail,
            seq!["--embed-thumbnail"@],
        ) + when(config.write_thumbnail, seq!["--write-thumbnail"@]) + flag_value("--proxy"@, opt_view(config.proxy))
            + flag_value("--cookies-from-browser"@, opt_view(*browser))
            + when(config.max_height > 0, seq!["--format-sort"@, "+height:"@ + dec_int(config.max_height as int)]),
{
    let ghost s0 = views(cmd@);
    if config.extract_audio {
        crate::text::push_strs(cmd, &["-x", "--audio-format", "mp3", "--audio-quality", "0"]);
    }
    proof {
        assert(strs(seq!["-x", "--audio-format", "mp3", "--audio-quality", "0"]) =~= seq!["-x"@, "--audio-format"@, "mp3"@, "--audio-quality"@, "0"@]);
        assert(views(cmd@) =~= s0 + when(config.extract_audio, seq!["-x"@, "--audio-format"@, "mp3"@, "--audio-quality"@, "0"@]));
    }
    let ghost s1 = views(cmd@);
    if config.embed_subtitles {
        push_arg(cmd, "--embed-subs");
        push_arg(cmd, "--write-auto-subs");
    }
    proof {
        assert(views(cmd@) =~= s1 + when(config.embed_subtitles, seq!["--embed-subs"@, "--write-auto-subs"@]));
    }
    let ghost s2 = views(cmd@);
    if config.embed_thumbnail {
        push_arg(cmd, "--embed-thumbnail");
    }
    proof {
        assert(views(cmd@) =~= s2 + when(config.embed_thumbnail, seq!["--embed-thumbnail"@]));
    }
    let ghost s3 = views(cmd@);
    if config.write_thumbnail {
        push_arg(cmd, "--write-thumbnail");
    }
    proof {
        assert(views(cmd@) =~= s3 + when(config.write_thumbnail, seq!["--write-thumbnail"@]));
    }
    push_flag_value(cmd, "--proxy", &config.proxy);
    push_flag_value(cmd, "--cookies-from-browser", browser);
    let ghost s4 = views(cmd@);
    if config.max_height > 0 {
        push_arg(cmd, "--format-sort");
        let mut h = "+height:".to_string();
        let hs = i64_to_string(config.max_height as i64);
        crate::text::push_str(&mut h, hs.as_str());
        push_arg(cmd, h.as_str());
    }
    proof {
        assert(views(cmd@) =~= s4 + when(
            config.max_height > 0,
            seq!["--format-sort"@, "+height:"@ + dec_int(config.max_height as int)],
        ));
    }
}

} // verus!
