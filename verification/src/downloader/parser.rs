//! Reading yt-dlp's `--dump-json` output, once parsed, into [`VideoInfo`].
use vstd::prelude::*;
use crate::models::video_info::{Format, VideoInfo, opt_text};
use crate::text::{copy_str, str_eq, chars_of};
use crate::json::{Json, json_get, json_str, json_i64, json_whole, json_array};

verus! {

broadcast use vstd::string::group_string_axioms;

/// The string field `key` of a JSON value.
pub open spec fn str_at(v: Json, key: Seq<char>) -> Option<Seq<char>> {
    json_str(json_get(v, key))
}

/// The id of a format entry: `format_id`, else `id`, else "?".
pub open spec fn format_id_of(val: Json) -> Seq<char> {
    match str_at(val, "format_id"@) {
        Some(s) => s,
        None => match str_at(val, "id"@) {
            Some(s) => s,
            None => "?"@,
        },
    }
}

/// A format entry without a usable id is skipped.
pub open spec fn format_skipped(val: Json) -> bool {
    format_id_of(val).len() == 0 || format_id_of(val) == "?"@
}

/// An integer field cast to `i32`.
pub open spec fn i32_at(v: Json, key: Seq<char>) -> Option<i32> {
    match json_i64(json_get(v, key)) {
        Some(n) => Some(n as i32),
        None => None,
    }
}

/// `f` is the format that the entry `val` describes.
pub open spec fn spec_format_of(val: Json, f: Format) -> bool {
    &&& !format_skipped(val)
    &&& f.format_id@ == format_id_of(val)
    &&& opt_text(f.ext) == str_at(val, "ext"@)
    &&& opt_text(f.resolution) == str_at(val, "resolution"@)
    &&& f.width == i32_at(val, "width"@)
    &&& f.height == i32_at(val, "height"@)
    &&& f.filesize == json_i64(json_get(val, "filesize"@))
    &&& f.filesize_approx == json_i64(json_get(val, "filesize_approx"@))
    &&& opt_text(f.vcodec) == str_at(val, "vcodec"@)
    &&& opt_text(f.acodec) == str_at(val, "acodec"@)
    &&& opt_text(f.format_note) == str_at(val, "format_note"@)
}

/// The string field `key`, copied.
fn str_field(v: &Json, key: &str) -> (r: Option<String>)
    ensures
        opt_text(r) == str_at(*v, key@),
{
    match v.get(key) {
        Some(x) => match x.as_str() {
            Some(s) => Some(copy_str(s)),
            None => None,
        },
        None => None,
    }
}

/// The integer field `key`.
fn i64_field(v: &Json, key: &str) -> (r: Option<i64>)
    ensures
        r == json_i64(json_get(*v, key@)),
{
    match v.get(key) {
        Some(x) => x.as_i64(),
        None => None,
    }
}

/// Reads one entry of the `formats` array; `None` for an entry without a
/// usable id.
pub fn parse_format(val: &Json) -> (r: Option<Format>)
    ensures
        match r {
            Some(f) => spec_format_of(*val, f),
            None => format_skipped(*val),
        },
{
    let id = match str_field(val, "format_id") {
        Some(s) => s,
        None => match str_field(val, "id") {
            Some(s) => s,
            None => copy_str("?"),
        },
    };
    if chars_of(id.as_str()).len() == 0 || str_eq(id.as_str(), "?") {
        return None;
    }
    let width = match i64_field(val, "width") {
        Some(n) => Some(n as i32),
        None => None,
    };
    let height = match i64_field(val, "height") {
        Some(n) => Some(n as i32),
        None => None,
    };
    Some(
        Format {
            format_id: id,
            ext: str_field(val, "ext"),
            resolution: str_field(val, "resolution"),
            width,
            height,
            filesize: i64_field(val, "filesize"),
            filesize_approx: i64_field(val, "filesize_approx"),
            vcodec: str_field(val, "vcodec"),
            acodec: str_field(val, "acodec"),
            format_note: str_field(val, "format_note"),
        },
    )
}

/// `fs` are the formats of the entries, in order, skipped entries left out.
pub open spec fn parsed_formats(entries: Seq<Json>, fs: Seq<Format>) -> bool
    decreases entries.len(),
{
    if entries.len() == 0 {
        fs.len() == 0
    } else if format_skipped(entries.last()) {
        parsed_formats(entries.drop_last(), fs)
    } else {
        &&& fs.len() > 0
        &&& spec_format_of(entries.last(), fs.last())
        &&& parsed_formats(entries.drop_last(), fs.drop_last())
    }
}

/// The page URL: `webpage_url`, else `original_url`, else `url`, else empty.
pub open spec fn page_url_of(root: Json) -> Seq<char> {
    match str_at(root, "webpage_url"@) {
        Some(u) => u,
        None => match str_at(root, "original_url"@) {
            Some(u) => u,
            None => match str_at(root, "url"@) {
                Some(u) => u,
                None => Seq::empty(),
            },
        },
    }
}

/// `info` is what yt-dlp's JSON `root` describes: its fields read as
/// above (the duration's whole seconds, 0 when absent), a single media
/// entry, and nothing downloaded yet.
pub open spec fn spec_video_info(root: Json, info: VideoInfo) -> bool {
    &&& info.id@ == match str_at(root, "id"@) {
        Some(s) => s,
        None => Seq::empty(),
    }
    &&& info.url@ == page_url_of(root)
    &&& opt_text(info.title) == str_at(root, "title"@)
    &&& opt_text(info.description) == str_at(root, "description"@)
    &&& info.duration == match json_whole(json_get(root, "duration"@)) {
        Some(d) => d,
        None => 0,
    }
    &&& opt_text(info.thumbnail) == str_at(root, "thumbnail"@)
    &&& opt_text(info.uploader) == str_at(root, "uploader"@)
    &&& info.view_count == match json_i64(json_get(root, "view_count"@)) {
        Some(n) => n,
        None => 0,
    }
    &&& info.like_count == match json_i64(json_get(root, "like_count"@)) {
        Some(n) => n,
        None => 0,
    }
    &&& opt_text(info.webpage_url) == str_at(root, "webpage_url"@)
    &&& parsed_formats(
        match json_array(json_get(root, "formats"@)) {
            Some(a) => a,
            None => Seq::empty(),
        },
        info.formats@,
    )
    &&& info.media_count == 1
    &&& !info.downloaded
    &&& info.downloaded_at is None
    &&& info.download_path is None
}

/// Reads yt-dlp's `--dump-json` output, once parsed (see `spec_video_info`).
pub fn parse_video_json(root: &Json) -> (r: VideoInfo)
    ensures
        spec_video_info(*root, r),
{
    let id = match str_field(root, "id") {
        Some(s) => s,
        None => String::new(),
    };
    let url = match str_field(root, "webpage_url") {
        Some(u) => u,
        None => match str_field(root, "original_url") {
            Some(u) => u,
            None => match str_field(root, "url") {
                Some(u) => u,
                None => String::new(),
            },
        },
    };
    let duration = match root.get("duration") {
        Some(d) => match d.as_whole() {
            Some(w) => w,
            None => 0,
        },
        None => 0,
    };
    let view_count = match i64_field(root, "view_count") {
        Some(n) => n,
        None => 0,
    };
    let like_count = match i64_field(root, "like_count") {
        Some(n) => n,
        None => 0,
    };
    let mut formats: Vec<Format> = Vec::new();
    match root.get("formats") {
        Some(fv) => match fv.as_array() {
            Some(arr) => {
                let mut i: usize = 0;
                while i < arr.len()
                    invariant
                        i <= arr@.len(),
                        parsed_formats(arr@.take(i as int), formats@),
                    decreases arr@.len() - i,
                {
                    proof {
                        assert(arr@.take(i + 1).drop_last() =~= arr@.take(i as int));
                    }
                    match parse_format(&arr[i]) {
                        Some(f) => {
                            let ghost before = formats@;
                            formats.push(f);
                            proof {
                                assert(formats@.drop_last() =~= before);
                            }
                        },
                        None => {},
                    }
                    i = i + 1;
                }
                proof {
                    assert(arr@.take(i as int) =~= arr@);
                }
            },
            None => {},
        },
        None => {},
    }
    VideoInfo {
        id,
        url,
        title: str_field(root, "title"),
        description: str_field(root, "description"),
        duration,
        thumbnail: str_field(root, "thumbnail"),
        uploader: str_field(root, "uploader"),
        view_count,
        like_count,
        webpage_url: str_field(root, "webpage_url"),
        formats,
        media_count: 1,
        downloaded: false,
        downloaded_at: None,
        download_path: None,
    }
}

} // verus!
