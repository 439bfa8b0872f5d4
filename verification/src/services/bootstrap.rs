//! First-run download of the tool binaries (yt-dlp, ffmpeg): the cancel
//! flag, the direct-then-proxy fallback, progress reporting and which
//! archive entries are extracted. The transfers themselves are made by the
//! caller.
use vstd::prelude::*;
use crate::text::{
    lowercase, to_lowercase, chars_of, ends_with, ends_with_exec, contains, contains_exec, ascii_lower,
    ascii_lower_exec, chars_eq, copy_str, push_str,
};

verus! {

broadcast use vstd::string::group_string_axioms;

/// The state of a tool download: whether the user asked to cancel it.
pub struct Bootstrap {
    cancelled: bool,
}

impl View for Bootstrap {
    type V = bool;

    /// Whether cancellation was requested.
    closed spec fn view(&self) -> bool {
        self.cancelled
    }
}

/// Signals cancellation of the current tool download.
pub fn cancel_download(b: &mut Bootstrap)
    ensures
        final(b)@,
{
    b.cancelled = true;
}

impl Bootstrap {
    /// No cancellation requested.
    pub fn new() -> (r: Self)
        ensures
            !r@,
    {
        Bootstrap { cancelled: false }
    }

    /// Clears the flag before a new download starts.
    pub fn reset_cancel(&mut self)
        ensures
            !final(self)@,
    {
        self.cancelled = false;
    }

    /// Whether cancellation was requested.
    pub fn is_cancelled(&self) -> (r: bool)
        ensures
            r == self@,
    {
        self.cancelled
    }
}

/// An HTTP status that the transfer goes on with: a success, or a 301/302
/// redirect.
pub open spec fn spec_status_accepted(status: u16) -> bool {
    (200 <= status <= 299) || status == 301 || status == 302
}

/// Whether the transfer goes on after the response `status`.
pub fn status_accepted(status: u16) -> (r: bool)
    ensures
        r == spec_status_accepted(status),
{
    (200 <= status && status <= 299) || status == 301 || status == 302
}

/// The percentage shown while `downloaded` of `total` bytes have arrived:
/// the whole percent below, at most 99 (100 is reported on completion).
pub open spec fn spec_progress_percent(downloaded: nat, total: nat) -> nat {
    let p = downloaded * 100 / total;
    if p > 99 {
        99
    } else {
        p
    }
}

/// The percentage shown for `downloaded` of `total` bytes (`total > 0`).
pub fn progress_percent(downloaded: u64, total: u64) -> (r: u32)
    requires
        total > 0,
    ensures
        r == spec_progress_percent(downloaded as nat, total as nat),
{
    let p: u128 = (downloaded as u128) * 100 / (total as u128);
    if p > 99 {
        99
    } else {
        p as u32
    }
}

/// The last percentage reported during a transfer.
pub struct ProgressTracker {
    pub last_pct: u32,
}

impl ProgressTracker {
    /// Nothing reported yet.
    pub fn new() -> (r: Self)
        ensures
            r.last_pct == 0,
    {
        ProgressTracker { last_pct: 0 }
    }

    /// After a chunk: the percentage to report, when the total size is
    /// known and the percentage went up; the reported values rise strictly
    /// and are at most 99.
    pub fn on_chunk(&mut self, downloaded: u64, total: u64) -> (r: Option<u32>)
        ensures
            old(self).last_pct <= 99 ==> final(self).last_pct <= 99,
            r matches Some(p) ==> p <= 99,
            total == 0 ==> r is None && final(self).last_pct == old(self).last_pct,
            total > 0 ==> {
                let p = spec_progress_percent(downloaded as nat, total as nat);
                if p > old(self).last_pct {
                    r == Some(p as u32) && final(self).last_pct == p
                } else {
                    r is None && final(self).last_pct == old(self).last_pct
                }
            },
    {
        if total == 0 {
            return None;
        }
        let p = progress_percent(downloaded, total);
        if p > self.last_pct {
            self.last_pct = p;
            Some(p)
        } else {
            None
        }
    }
}

/// Which network path a transfer takes.
#[derive(Debug, Clone, Copy, PartialEq, Eq, Structural)]
pub enum Route {
    Direct,
    Proxy,
}

/// How the path is chosen: forced one way, or direct first with the proxy
/// as fallback.
#[derive(Debug, Clone, Copy, PartialEq, Eq, Structural)]
pub enum ForceMode {
    Auto,
    Direct,
    Proxy,
}

/// `"proxy"` and `"direct"` force that path; anything else is automatic.
pub open spec fn spec_force_mode(s: Option<Seq<char>>) -> ForceMode {
    match s {
        Some(m) => if m == "proxy"@ {
            ForceMode::Proxy
        } else if m == "direct"@ {
            ForceMode::Direct
        } else {
            ForceMode::Auto
        },
        None => ForceMode::Auto,
    }
}

/// Reads the forced mode.
pub fn force_mode_of(s: Option<&str>) -> (r: ForceMode)
    ensures
        r == spec_force_mode(
            match s {
                Some(m) => Some(m@),
                None => None,
            },
        ),
{
    match s {
        Some(m) => {
            let c = chars_of(m);
            if chars_eq(&c, &chars_of("proxy")) {
                ForceMode::Proxy
            } else if chars_eq(&c, &chars_of("direct")) {
                ForceMode::Direct
            } else {
                ForceMode::Auto
            }
        },
        None => ForceMode::Auto,
    }
}

/// The first path to try: the proxy when forced (an error when no proxy is
/// configured), else direct.
pub open spec fn spec_first_route(mode: ForceMode, proxy_available: bool) -> Option<Route> {
    match mode {
        ForceMode::Proxy => if proxy_available {
            Some(Route::Proxy)
        } else {
            None
        },
        _ => Some(Route::Direct),
    }
}

/// The first path to try; `Err` holds the message for a forced proxy that
/// is not configured.
pub fn first_route(mode: ForceMode, proxy_available: bool, url: &str) -> (r: Result<Route, String>)
    ensures
        match r {
            Ok(route) => spec_first_route(mode, proxy_available) == Some(route),
            Err(e) => spec_first_route(mode, proxy_available) is None && e@ == "未配置代理，无法使用代理下载: "@
                + url@,
        },
{
    match mode {
        ForceMode::Proxy => {
            if proxy_available {
                Ok(Route::Proxy)
            } else {
                let mut e = copy_str("未配置代理，无法使用代理下载: ");
                push_str(&mut e, url);
                Err(e)
            }
        },
        _ => Ok(Route::Direct),
    }
}

/// After a failed transfer: the proxy is tried only in automatic mode, after
/// the direct path failed, when the user did not cancel and a proxy is
/// configured.
pub open spec fn spec_next_route(mode: ForceMode, failed: Route, cancelled: bool, proxy_available: bool) -> Option<
    Route,
> {
    if mode == ForceMode::Auto && failed == Route::Direct && !cancelled && proxy_available {
        Some(Route::Proxy)
    } else {
        None
    }
}

/// The path to try after a failure, if any.
pub fn next_route(mode: ForceMode, failed: Route, cancelled: bool, proxy_available: bool) -> (r: Option<Route>)
    ensures
        r == spec_next_route(mode, failed, cancelled, proxy_available),
{
    if mode == ForceMode::Auto && failed == Route::Direct && !cancelled && proxy_available {
        Some(Route::Proxy)
    } else {
        None
    }
}

/// The error reported when the transfer on `failed` was the last one
/// tried: a forced proxy and the automatic fallback say so; other failures
/// pass `err` on unchanged.
pub open spec fn spec_failure_message(mode: ForceMode, failed: Route, url: Seq<char>, err: Seq<char>) -> Seq<char> {
    if failed == Route::Proxy {
        if mode == ForceMode::Proxy {
            "代理下载失败: "@ + url + ": "@ + err
        } else {
            "直连与代理下载均失败: "@ + url + ": "@ + err
        }
    } else {
        err
    }
}

/// The error reported for the last failed transfer.
pub fn failure_message(mode: ForceMode, failed: Route, url: &str, err: &str) -> (r: String)
    ensures
        r@ == spec_failure_message(mode, failed, url@, err@),
{
    if failed == Route::Proxy {
        let mut m = if mode == ForceMode::Proxy {
            copy_str("代理下载失败: ")
        } else {
            copy_str("直连与代理下载均失败: ")
        };
        push_str(&mut m, url);
        push_str(&mut m, ": ");
        push_str(&mut m, err);
        m
    } else {
        copy_str(err)
    }
}

/// The file name of the yt-dlp binary.
pub fn ytdlp_file_name(windows: bool) -> (r: &'static str)
    ensures
        r@ == if windows {
            "yt-dlp.exe"@
        } else {
            "yt-dlp"@
        },
{
    if windows {
        "yt-dlp.exe"
    } else {
        "yt-dlp"
    }
}

/// An archive entry that is extracted: one of the three programs, below a
/// `bin/` folder (any case).
pub open spec fn spec_is_ffmpeg_entry(name: Seq<char>) -> bool {
    let l = lowercase(name);
    (ends_with(l, "ffmpeg.exe"@) || ends_with(l, "ffprobe.exe"@) || ends_with(l, "ffplay.exe"@)) && contains(
        l,
        "bin/"@,
    )
}

/// Whether the archive entry `name` is extracted.
pub fn is_ffmpeg_entry(name: &str) -> (r: bool)
    ensures
        r == spec_is_ffmpeg_entry(name@),
{
    let l = chars_of(to_lowercase(name).as_str());
    let prog = ends_with_exec(&l, &chars_of("ffmpeg.exe")) || ends_with_exec(&l, &chars_of("ffprobe.exe"))
        || ends_with_exec(&l, &chars_of("ffplay.exe"));
    prog && contains_exec(&l, &chars_of("bin/"))
}

/// Whether an extracted file is the ffmpeg program itself (ASCII case
/// ignored); its path is the result of the extraction.
pub fn is_ffmpeg_program(file_name: &str) -> (r: bool)
    ensures
        r == (ascii_lower(file_name@) == "ffmpeg.exe"@),
{
    let l = ascii_lower_exec(&chars_of(file_name));
    let r = chars_eq(&l, &chars_of("ffmpeg.exe"));
    proof {
        reveal_strlit("ffmpeg.exe");
        if r {
            assert(ascii_lower(file_name@) =~= "ffmpeg.exe"@);
        }
    }
    r
}

} // verus!
