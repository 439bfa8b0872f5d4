//! The video information that yt-dlp reports: its formats, the choice of a
//! format, and display helpers.
use vstd::prelude::*;
use crate::numbers::{dec, dec2, u64_chars, two_digits};
use crate::text::{string_of, str_eq, chars_of};

verus! {

/// A duration in seconds as `h:mm:ss`, or `m:ss` under an hour; `?` where
/// the duration is unknown (zero or negative).
pub open spec fn spec_format_duration(seconds: int) -> Seq<char> {
    if seconds <= 0 {
        "?"@
    } else {
        let h = seconds / 3600;
        let m = (seconds % 3600) / 60;
        let s = seconds % 60;
        if h > 0 {
            dec(h as nat) + seq![':'] + dec2(m as nat) + seq![':'] + dec2(s as nat)
        } else {
            dec(m as nat) + seq![':'] + dec2(s as nat)
        }
    }
}

/// Appends `w` to `v`.
fn append_chars(v: &mut Vec<char>, w: &Vec<char>)
    ensures
        final(v)@ == old(v)@ + w@,
{
    let mut i: usize = 0;
    while i < w.len()
        invariant
            i <= w@.len(),
            v@ == old(v)@ + w@.take(i as int),
        decreases w@.len() - i,
    {
        v.push(w[i]);
        i = i + 1;
        proof {
            assert(v@ =~= old(v)@ + w@.take(i as int));
        }
    }
    proof {
        assert(w@.take(i as int) =~= w@);
    }
}

/// Formats a duration in seconds for display.
pub fn format_duration(seconds: i64) -> (r: String)
    ensures
        r@ == spec_format_duration(seconds as int),
{
    if seconds <= 0 {
        proof {
            reveal_strlit("?");
        }
        let mut v: Vec<char> = Vec::new();
        v.push('?');
        let r = string_of(&v);
        proof {
            assert(r@ =~= "?"@);
        }
        return r;
    }
    let t = seconds as u64;
    let h = t / 3600;
    let m = (t % 3600) / 60;
    let s = t % 60;
    let mut v: Vec<char> = Vec::new();
    if h > 0 {
        v = u64_chars(h);
        v.push(':');
        append_chars(&mut v, &two_digits(m));
        v.push(':');
        append_chars(&mut v, &two_digits(s));
    } else {
        v = u64_chars(m);
        v.push(':');
        append_chars(&mut v, &two_digits(s));
    }
    let r = string_of(&v);
    proof {
        assert(r@ =~= spec_format_duration(seconds as int));
    }
    r
}

// ==================== Video information ====================

/// The text of an optional string.
pub open spec fn opt_text(o: Option<String>) -> Option<Seq<char>> {
    match o {
        Some(s) => Some(s@),
        None => None,
    }
}

/// One downloadable format that yt-dlp lists. The bitrate and frame rate,
/// which are floating-point, are kept by the caller.
#[derive(Debug, Clone)]
pub struct Format {
    pub format_id: String,
    pub ext: Option<String>,
    pub resolution: Option<String>,
    pub width: Option<i32>,
    pub height: Option<i32>,
    pub filesize: Option<i64>,
    pub filesize_approx: Option<i64>,
    pub vcodec: Option<String>,
    pub acodec: Option<String>,
    pub format_note: Option<String>,
}

/// A codec is present when named and not "none".
pub open spec fn codec_present(c: Option<String>) -> bool {
    match c {
        Some(v) => v@ != "none"@ && v@.len() > 0,
        None => false,
    }
}

/// Whether a codec is present.
fn codec_present_exec(c: &Option<String>) -> (r: bool)
    ensures
        r == codec_present(*c),
{
    match c {
        Some(v) => !str_eq(v.as_str(), "none") && chars_of(v.as_str()).len() > 0,
        None => false,
    }
}

/// The score by which the best format is chosen: its height when it has
/// video, plus 1000 when it has audio.
pub open spec fn format_score(f: Format) -> int {
    (if codec_present(f.vcodec) {
        match f.height {
            Some(h) => h as int,
            None => 0,
        }
    } else {
        0
    }) + if codec_present(f.acodec) {
        1000int
    } else {
        0
    }
}

/// The height used to rank formats, 0 when unknown.
pub open spec fn height_key(f: Format) -> int {
    match f.height {
        Some(h) => h as int,
        None => 0,
    }
}

/// A format with video and audio whose height (9999 when unknown) is at
/// most `max_height`.
pub open spec fn fits_height(f: Format, max_height: i32) -> bool {
    codec_present(f.vcodec) && codec_present(f.acodec) && match f.height {
        Some(h) => h <= max_height,
        None => 9999 <= max_height,
    }
}

impl Format {
    /// Whether the format carries video.
    pub fn has_video(&self) -> (r: bool)
        ensures
            r == codec_present(self.vcodec),
    {
        codec_present_exec(&self.vcodec)
    }

    /// Whether the format carries audio.
    pub fn has_audio(&self) -> (r: bool)
        ensures
            r == codec_present(self.acodec),
    {
        codec_present_exec(&self.acodec)
    }

    /// The exact size, else the approximate one, else 0.
    pub fn file_size(&self) -> (r: i64)
        ensures
            r == match self.filesize {
                Some(s) => s,
                None => match self.filesize_approx {
                    Some(s) => s,
                    None => 0,
                },
            },
    {
        match self.filesize {
            Some(s) => s,
            None => match self.filesize_approx {
                Some(s) => s,
                None => 0,
            },
        }
    }
}

/// The score of a format, computed.
fn score_of(f: &Format) -> (r: i64)
    ensures
        r == format_score(*f),
{
    let v: i64 = if f.has_video() {
        match f.height {
            Some(h) => h as i64,
            None => 0,
        }
    } else {
        0
    };
    let a: i64 = if f.has_audio() {
        1000
    } else {
        0
    };
    v + a
}

/// Information about a video, as yt-dlp's `--dump-json` reports it, with the
/// download state the application adds.
#[derive(Debug, Clone)]
pub struct VideoInfo {
    pub id: String,
    pub url: String,
    pub title: Option<String>,
    pub description: Option<String>,
    pub duration: i64,
    pub thumbnail: Option<String>,
    pub uploader: Option<String>,
    pub view_count: i64,
    pub like_count: i64,
    pub webpage_url: Option<String>,
    pub formats: Vec<Format>,
    /// The number of media entries behind the URL (1 for a single video).
    pub media_count: usize,
    /// Whether the video was downloaded and its file is still there.
    pub downloaded: bool,
    pub downloaded_at: Option<i64>,
    pub download_path: Option<String>,
}

impl VideoInfo {
    /// The best format: the highest score (see `format_score`), the last of
    /// equally scored ones; `None` when there is no format.
    pub fn get_best_format(&self) -> (r: Option<&Format>)
        ensures
            match r {
                Some(f) => exists|k: int|
                    0 <= k < self.formats@.len() && self.formats@[k] == *f && (forall|j: int|
                        0 <= j < self.formats@.len() ==> format_score(#[trigger] self.formats@[j]) <= format_score(
                            self.formats@[k],
                        )) && (forall|j: int|
                        k < j < self.formats@.len() ==> format_score(#[trigger] self.formats@[j]) < format_score(
                            self.formats@[k],
                        )),
                None => self.formats@.len() == 0,
            },
    {
        let fs = &self.formats;
        if fs.len() == 0 {
            return None;
        }
        let mut best: usize = 0;
        let mut best_score: i64 = score_of(&fs[0]);
        let mut i: usize = 1;
        while i < fs.len()
            invariant
                1 <= i <= fs@.len(),
                best < i,
                best_score == format_score(fs@[best as int]),
                forall|j: int| 0 <= j < i ==> format_score(#[trigger] fs@[j]) <= best_score,
                forall|j: int| best < j < i ==> format_score(#[trigger] fs@[j]) < best_score,
            decreases fs@.len() - i,
        {
            let s = score_of(&fs[i]);
            if s >= best_score {
                best = i;
                best_score = s;
            }
            i = i + 1;
        }
        Some(&fs[best])
    }

    /// The format with video and audio of the greatest height up to
    /// `max_height` (see `fits_height`), the last of equally high ones;
    /// `None` when no format fits.
    pub fn get_format_by_height(&self, max_height: i32) -> (r: Option<&Format>)
        ensures
            match r {
                Some(f) => exists|k: int|
                    0 <= k < self.formats@.len() && self.formats@[k] == *f && fits_height(self.formats@[k], max_height)
                        && (forall|j: int|
                        0 <= j < self.formats@.len() && fits_height(self.formats@[j], max_height) ==> height_key(
                            #[trigger] self.formats@[j],
                        ) <= height_key(self.formats@[k])) && (forall|j: int|
                        k < j < self.formats@.len() && fits_height(self.formats@[j], max_height) ==> height_key(
                            #[trigger] self.formats@[j],
                        ) < height_key(self.formats@[k])),
                None => forall|j: int| 0 <= j < self.formats@.len() ==> !fits_height(#[trigger] self.formats@[j], max_height),
            },
    {
        let fs = &self.formats;
        let mut best: Option<usize> = None;
        let mut best_h: i32 = 0;
        let mut i: usize = 0;
        while i < fs.len()
            invariant
                i <= fs@.len(),
                match best {
                    Some(b) => {
                        &&& b < i
                        &&& fits_height(fs@[b as int], max_height)
                        &&& best_h == height_key(fs@[b as int])
                        &&& forall|j: int|
                            0 <= j < i && fits_height(fs@[j], max_height) ==> height_key(#[trigger] fs@[j]) <= best_h
                        &&& forall|j: int|
                            b < j < i && fits_height(fs@[j], max_height) ==> height_key(#[trigger] fs@[j]) < best_h
                    },
                    None => forall|j: int| 0 <= j < i ==> !fits_height(#[trigger] fs@[j], max_height),
                },
            decreases fs@.len() - i,
        {
            let f = &fs[i];
            let fits = f.has_video() && f.has_audio() && match f.height {
                Some(h) => h <= max_height,
                None => 9999 <= max_height,
            };
            if fits {
                let h: i32 = match f.height {
                    Some(h) => h,
                    None => 0,
                };
                let better = match best {
                    Some(_) => h >= best_h,
                    None => true,
                };
                if better {
                    best = Some(i);
                    best_h = h;
                }
            }
            i = i + 1;
        }
        match best {
            Some(b) => Some(&fs[b]),
            None => None,
        }
    }
}

} // verus!
