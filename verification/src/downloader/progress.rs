//! Parsing of yt-dlp progress output.
use vstd::prelude::*;
use crate::models::progress::{DownloadProgress, ProgressView};
use crate::numbers::{decimal_trunc, decimal_trunc_chars};
use crate::pattern::{captures, group, group_text, regex_captures};
use crate::text::{
    ascii_lower, ascii_lower_exec, chars_eq, chars_of, contains, find_char_from_exec,
    lemma_find_char_from, split, split_exec, starts_with, starts_with_exec, string_of, find_char_from,
};

verus! {

broadcast use vstd::string::group_string_axioms;

/// yt-dlp's default stderr progress line:
/// `[download]  50.0% of ~10.0MiB at  1.5MiB/s ETA 00:05`
pub const PROGRESS_PATTERN: &'static str = r"\[download\]\s+(?P<percent>\S+%)\s+of\s+~?[\d.]+\S+\s+at\s+(?P<speed>\S+)\s+ETA\s+(?P<eta>\S+)";

/// The completion line: `[download] 100% of 10.0MiB in 00:05 at 2.0MiB/s`
pub const COMPLETE_PATTERN: &'static str = r"\[download\]\s+100%\s+of\s+[\d.]+\S+\s+in\s+(?P<eta>\S+)\s+at\s+(?P<speed>\S+)";

/// Post-processing lines that follow the download (`[Merger] ...`,
/// `[ExtractAudio] ...`, ...).
pub const POSTPROCESS_PATTERN: &'static str = r"^\[(Merger|ExtractAudio|EmbedThumbnail|Metadata|VideoRemuxer|FixupM4a|FixupStretched|FixupM3u8|FixupTimestamp|FixupDuration|EmbedSubtitle|EmbedInfoJson|SubtitlesConvertor|ThumbnailsConvertor|ModifyChapters|SplitChapters|MoveFiles|Mover)\].*";

// ==================== Specification ====================

/// Stage of a stream from its codecs: audio-only is "audio", any video is
/// "video", neither is empty.
pub open spec fn spec_stage_from_codecs(acodec: Seq<char>, vcodec: Seq<char>) -> Seq<char> {
    let has_v = vcodec.len() != 0 && vcodec != "none"@;
    let has_a = acodec.len() != 0 && acodec != "none"@;
    if has_a && !has_v {
        "audio"@
    } else if has_v {
        "video"@
    } else {
        Seq::empty()
    }
}

/// Byte count of a progress field: 0 for empty, `NA` or `unknown` (any
/// case); otherwise the decimal number truncated toward zero, 0 when the
/// field holds no number.
pub open spec fn spec_parse_long_safe(s: Seq<char>) -> int {
    if s.len() == 0 || s == "NA"@ || ascii_lower(s) == "unknown"@ {
        0
    } else {
        match decimal_trunc(s) {
            Some(v) => v,
            None => 0,
        }
    }
}

/// Field `i` of a split line, empty when missing.
pub open spec fn field(parts: Seq<Seq<char>>, i: int) -> Seq<char> {
    if 0 <= i < parts.len() {
        parts[i]
    } else {
        Seq::empty()
    }
}

/// Progress from the pipe-delimited fields
/// `bytes|total|speed|eta|percent|status|acodec|vcodec`.
pub open spec fn pipe_progress(parts: Seq<Seq<char>>) -> ProgressView {
    ProgressView {
        downloaded_bytes: spec_parse_long_safe(field(parts, 0)),
        total_bytes: spec_parse_long_safe(field(parts, 1)),
        speed: field(parts, 2),
        eta: field(parts, 3),
        percent: field(parts, 4),
        status: field(parts, 5),
        stage: spec_stage_from_codecs(field(parts, 6), field(parts, 7)),
    }
}

/// The progress a line reports, given the matches of the three patterns on
/// it: first the running progress line, then the completion line, then a
/// post-processing line, then the `download:`-prefixed pipe format, then the
/// bare pipe format (both with at least five fields).
pub open spec fn spec_progress(
    line: Seq<char>,
    progress: Option<Seq<Option<Seq<char>>>>,
    complete: Option<Seq<Option<Seq<char>>>>,
    post: Option<Seq<Option<Seq<char>>>>,
) -> Option<ProgressView> {
    if progress is Some {
        let c = progress->0;
        Some(ProgressView {
            downloaded_bytes: 0,
            total_bytes: 0,
            speed: group(c, 2),
            eta: group(c, 3),
            percent: group(c, 1),
            status: "downloading"@,
            stage: Seq::empty(),
        })
    } else if complete is Some {
        let c = complete->0;
        Some(ProgressView {
            downloaded_bytes: 0,
            total_bytes: 0,
            speed: group(c, 2),
            eta: group(c, 1),
            percent: "100%"@,
            status: "finished"@,
            stage: Seq::empty(),
        })
    } else if post is Some {
        let tag = group(post->0, 1);
        Some(ProgressView {
            downloaded_bytes: 0,
            total_bytes: 0,
            speed: Seq::empty(),
            eta: Seq::empty(),
            percent: "100%"@,
            status: if tag == "Merger"@ { "merging"@ } else { "postprocess"@ },
            stage: "merge"@,
        })
    } else if starts_with(line, "download:"@) && contains(line, seq!['|'])
        && split(line.skip(9), '|').len() >= 5 {
        Some(pipe_progress(split(line.skip(9), '|')))
    } else if contains(line, seq!['|']) && split(line, '|').len() >= 5 {
        Some(pipe_progress(split(line, '|')))
    } else {
        None
    }
}

pub open spec fn opt_progress_view(r: Option<DownloadProgress>) -> Option<ProgressView> {
    match r {
        Some(p) => Some(p@),
        None => None,
    }
}

// ==================== Implementation ====================

/// Stage of a stream from its codecs ("audio", "video" or empty).
pub fn stage_from_codecs(acodec: &str, vcodec: &str) -> (r: String)
    ensures
        r@ == spec_stage_from_codecs(acodec@, vcodec@),
{
    proof {
        reveal_strlit("none");
        reveal_strlit("audio");
        reveal_strlit("video");
    }
    let none = chars_of("none");
    let a = chars_of(acodec);
    let v = chars_of(vcodec);
    let has_v = v.len() != 0 && !chars_eq(&v, &none);
    let has_a = a.len() != 0 && !chars_eq(&a, &none);
    if has_a && !has_v {
        "audio".to_string()
    } else if has_v {
        "video".to_string()
    } else {
        String::new()
    }
}

/// Byte count of a progress field (0 for empty / `NA` / `unknown` / no
/// number; a decimal is truncated toward zero).
pub fn parse_long_safe(s: &str) -> (r: i64)
    ensures
        r as int == spec_parse_long_safe(s@),
{
    let cs = chars_of(s);
    parse_long_safe_chars(&cs)
}

fn parse_long_safe_chars(cs: &Vec<char>) -> (r: i64)
    ensures
        r as int == spec_parse_long_safe(cs@),
{
    let na = chars_of("NA");
    let unknown = chars_of("unknown");
    if cs.len() == 0 || chars_eq(cs, &na) || chars_eq(&ascii_lower_exec(cs), &unknown) {
        return 0;
    }
    match decimal_trunc_chars(cs) {
        Some(v) => v,
        None => 0,
    }
}

fn field_string(parts: &Vec<Vec<char>>, i: usize) -> (r: String)
    ensures
        r@ == field(parts@.map_values(|v: Vec<char>| v@), i as int),
{
    if i < parts.len() {
        string_of(&parts[i])
    } else {
        String::new()
    }
}

fn pipe_progress_exec(parts: &Vec<Vec<char>>) -> (r: DownloadProgress)
    requires
        parts@.len() >= 5,
    ensures
        r@ == pipe_progress(parts@.map_values(|v: Vec<char>| v@)),
{
    let ghost ps = parts@.map_values(|v: Vec<char>| v@);
    let downloaded = parse_long_safe_chars(&parts[0]);
    let total = parse_long_safe_chars(&parts[1]);
    let acodec = field_string(parts, 6);
    let vcodec = field_string(parts, 7);
    let stage = stage_from_codecs(acodec.as_str(), vcodec.as_str());
    DownloadProgress {
        downloaded_bytes: downloaded,
        total_bytes: total,
        speed: field_string(parts, 2),
        eta: field_string(parts, 3),
        percent: field_string(parts, 4),
        status: field_string(parts, 5),
        stage,
    }
}

/// The progress a line reports, given the matches of [`PROGRESS_PATTERN`],
/// [`COMPLETE_PATTERN`] and [`POSTPROCESS_PATTERN`] on it.
pub fn progress_from_matches(
    line: &str,
    progress: Option<Vec<Option<String>>>,
    complete: Option<Vec<Option<String>>>,
    post: Option<Vec<Option<String>>>,
) -> (r: Option<DownloadProgress>)
    ensures
        opt_progress_view(r) == spec_progress(
            line@,
            progress.deep_view(),
            complete.deep_view(),
            post.deep_view(),
        ),
{
    proof {
        reveal_strlit("downloading");
        reveal_strlit("finished");
        reveal_strlit("100%");
        reveal_strlit("Merger");
        reveal_strlit("merging");
        reveal_strlit("postprocess");
        reveal_strlit("merge");
        reveal_strlit("download:");
    }
    if let Some(c) = progress {
        return Some(DownloadProgress {
            downloaded_bytes: 0,
            total_bytes: 0,
            speed: group_text(&c, 2),
            eta: group_text(&c, 3),
            percent: group_text(&c, 1),
            status: "downloading".to_string(),
            stage: String::new(),
        });
    }
    if let Some(c) = complete {
        return Some(DownloadProgress {
            downloaded_bytes: 0,
            total_bytes: 0,
            speed: group_text(&c, 2),
            eta: group_text(&c, 1),
            percent: "100%".to_string(),
            status: "finished".to_string(),
            stage: String::new(),
        });
    }
    if let Some(c) = post {
        let tag = group_text(&c, 1);
        let merger = chars_of("Merger");
        let status = if chars_eq(&chars_of(tag.as_str()), &merger) {
            "merging".to_string()
        } else {
            "postprocess".to_string()
        };
        return Some(DownloadProgress {
            downloaded_bytes: 0,
            total_bytes: 0,
            speed: String::new(),
            eta: String::new(),
            percent: "100%".to_string(),
            status,
            stage: "merge".to_string(),
        });
    }
    let cs = chars_of(line);
    let has_pipe = find_char_from_exec(&cs, '|', 0).is_some();
    proof {
        lemma_pipe(cs@);
    }
    let prefix = chars_of("download:");
    if starts_with_exec(&cs, &prefix) && has_pipe {
        let mut rest: Vec<char> = Vec::new();
        let mut i: usize = 9;
        while i < cs.len()
            invariant
                9 <= i <= cs@.len(),
                rest@ == cs@.subrange(9, i as int),
            decreases cs@.len() - i,
        {
            rest.push(cs[i]);
            i = i + 1;
            assert(rest@ =~= cs@.subrange(9, i as int));
        }
        assert(rest@ =~= cs@.skip(9));
        let parts = split_exec(&rest, '|');
        if parts.len() >= 5 {
            return Some(pipe_progress_exec(&parts));
        }
    }
    if has_pipe {
        let parts = split_exec(&cs, '|');
        if parts.len() >= 5 {
            return Some(pipe_progress_exec(&parts));
        }
    }
    None
}

/// `contains(s, "|")` is the same as finding the character.
proof fn lemma_pipe(s: Seq<char>)
    ensures
        contains(s, seq!['|']) <==> find_char_from(s, '|', 0) is Some,
{
    lemma_find_char_from(s, '|', 0);
    if find_char_from(s, '|', 0) is Some {
        let k = find_char_from(s, '|', 0)->0;
        assert(s.subrange(k, k + 1) =~= seq!['|']);
        assert(crate::text::occurs_at(s, seq!['|'], k));
    }
    if contains(s, seq!['|']) {
        let k = choose|k: int| crate::text::occurs_at(s, seq!['|'], k);
        assert(s.subrange(k, k + 1)[0] == s[k]);
    }
}

/// Parses one yt-dlp output line into a progress report: the default
/// stderr progress line, the completion line, a post-processing line, or
/// the pipe-delimited `--progress-template` format (with or without the
/// `download:` prefix). Lines of no such form give `None`.
pub fn parse_progress_line(line: &str) -> (r: Option<DownloadProgress>)
    ensures
        opt_progress_view(r) == spec_progress(
            line@,
            regex_captures(PROGRESS_PATTERN@, line@),
            regex_captures(COMPLETE_PATTERN@, line@),
            regex_captures(POSTPROCESS_PATTERN@, line@),
        ),
{
    let progress = captures(PROGRESS_PATTERN, line);
    let complete = captures(COMPLETE_PATTERN, line);
    let post = captures(POSTPROCESS_PATTERN, line);
    progress_from_matches(line, progress, complete, post)
}

} // verus!
