//! The catalogue of synced bookmarks (stored in the `bookmarks` table) and
//! the download state shown for each of them.
use vstd::prelude::*;
use crate::assoc::{AssocList, lookup};
use crate::services::download_history::DownloadRecord;
use crate::models::config::copy_opt;

verus! {

broadcast use vstd::string::group_string_axioms;

/// One row of the bookmark catalogue.
#[derive(Debug, Clone)]
pub struct BookmarkRow {
    pub id: i64,
    pub video_id: String,
    pub url: String,
    pub handle: String,
    pub author_name: String,
    pub title: String,
    pub has_video: bool,
    pub downloaded: bool,
    pub added_at: i64,
}

/// The download history as a map from video id to saved path (a later
/// record of an id overrides an earlier one).
pub open spec fn downloaded_map_of(records: Seq<DownloadRecord>) -> Map<Seq<char>, Option<String>>
    decreases records.len(),
{
    if records.len() == 0 {
        Map::empty()
    } else {
        downloaded_map_of(records.drop_last()).insert(records.last().video_id@, records.last().file_path)
    }
}

/// The map from video id to saved path of the download history.
pub fn build_downloaded_map(records: &Vec<DownloadRecord>) -> (r: AssocList<Option<String>>)
    ensures
        r@ == downloaded_map_of(records@),
{
    let mut m: AssocList<Option<String>> = AssocList::new();
    let mut i: usize = 0;
    while i < records.len()
        invariant
            i <= records@.len(),
            m@ == downloaded_map_of(records@.take(i as int)),
        decreases records@.len() - i,
    {
        proof {
            assert(records@.take(i + 1).drop_last() =~= records@.take(i as int));
            assert(records@.take(i + 1).last() == records@[i as int]);
        }
        m.insert(records[i].video_id.clone(), copy_opt(&records[i].file_path));
        i = i + 1;
    }
    proof {
        assert(records@.take(i as int) =~= records@);
    }
    m
}

/// Whether video `id` is downloaded and its file is still there: it has a
/// record with a saved path, and `file_exists` reports that path present.
pub fn is_downloaded_in<F: Fn(&String) -> bool>(map: &AssocList<Option<String>>, id: &str, file_exists: F) -> (r: bool)
    requires
        forall|p: &String| call_requires(file_exists, (p,)),
    ensures
        match lookup(map@, id@) {
            Some(Some(p)) => call_ensures(file_exists, (&p,), r),
            _ => !r,
        },
{
    match map.get_opt(id) {
        Some(Some(p)) => file_exists(&p),
        _ => false,
    }
}

/// The catalogue rows with their download state checked again (a file may
/// have been deleted since the last sync), and for each row whether its
/// stored state changed (the caller writes those back).
pub fn list<F: Fn(&String) -> bool>(rows: Vec<BookmarkRow>, map: &AssocList<Option<String>>, file_exists: F) -> (r: (
    Vec<BookmarkRow>,
    Vec<bool>,
))
    requires
        forall|p: &String| call_requires(file_exists, (p,)),
    ensures
        r.0@.len() == rows@.len(),
        r.1@.len() == rows@.len(),
        forall|i: int|
            0 <= i < rows@.len() ==> #[trigger] r.0@[i] == (BookmarkRow { downloaded: r.0@[i].downloaded, ..rows@[i] })
                && r.1@[i] == (r.0@[i].downloaded != rows@[i].downloaded) && match lookup(
                map@,
                rows@[i].video_id@,
            ) {
                Some(Some(p)) => call_ensures(file_exists, (&p,), r.0@[i].downloaded),
                _ => !r.0@[i].downloaded,
            },
{
    let ghost orig = rows@;
    let n = rows.len();
    let mut out: Vec<BookmarkRow> = Vec::new();
    let mut changed: Vec<bool> = Vec::new();
    let mut rest = rows;
    let mut i: usize = 0;
    while i < n
        invariant
            n == orig.len(),
            i <= n,
            rest@ == orig.subrange(i as int, n as int),
            forall|p: &String| call_requires(file_exists, (p,)),
            out@.len() == i,
            changed@.len() == i,
            forall|k: int|
                0 <= k < i ==> #[trigger] out@[k] == (BookmarkRow { downloaded: out@[k].downloaded, ..orig[k] })
                    && changed@[k] == (out@[k].downloaded != orig[k].downloaded) && match lookup(
                    map@,
                    orig[k].video_id@,
                ) {
                    Some(Some(p)) => call_ensures(file_exists, (&p,), out@[k].downloaded),
                    _ => !out@[k].downloaded,
                },
        decreases n - i,
    {
        let mut row = rest.remove(0);
        proof {
            assert(orig.subrange(i as int, n as int)[0] == orig[i as int]);
            assert(orig.subrange(i as int, n as int).remove(0) =~= orig.subrange(i + 1, n as int));
        }
        let d = is_downloaded_in(map, row.video_id.as_str(), &file_exists);
        changed.push(row.downloaded != d);
        row.downloaded = d;
        out.push(row);
        i = i + 1;
    }
    (out, changed)
}

} // verus!
