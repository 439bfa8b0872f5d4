//! The application's SQLite database: where it lives, its schema, and the
//! column migrations an older database file needs. Opening connections is
//! the caller's part.
use vstd::prelude::*;
use crate::utils::app_home::{path_join, spec_config_dir, AppHome, join_path};

verus! {

/// The pragmas run on every new connection: a busy timeout first (so a
/// connection racing another through WAL setup waits instead of failing),
/// then WAL journaling with normal synchronisation.
pub const INIT_PRAGMAS: &'static str = "PRAGMA busy_timeout = 5000;
         PRAGMA journal_mode = WAL;
         PRAGMA synchronous = NORMAL;";

/// All tables and indexes, created when missing.
pub const SCHEMA: &'static str = "CREATE TABLE IF NOT EXISTS downloads (
             id            INTEGER PRIMARY KEY AUTOINCREMENT,
             video_id      TEXT NOT NULL UNIQUE,
             title         TEXT,
             thumbnail     TEXT,
             url           TEXT,
             handle        TEXT,
             uploader      TEXT,
             duration      INTEGER NOT NULL DEFAULT 0,
             view_count    INTEGER NOT NULL DEFAULT 0,
             like_count    INTEGER NOT NULL DEFAULT 0,
             file_path     TEXT,
             file_paths    TEXT,
             file_size     INTEGER,
             downloaded_at INTEGER NOT NULL DEFAULT 0,
             status        INTEGER NOT NULL DEFAULT 0,
             error         TEXT,
             attempts      INTEGER NOT NULL DEFAULT 1,
             source        INTEGER NOT NULL DEFAULT 0
         );
         CREATE INDEX IF NOT EXISTS idx_downloads_downloaded_at
             ON downloads(downloaded_at);
         CREATE TABLE IF NOT EXISTS config (
             key   TEXT PRIMARY KEY,
             value TEXT NOT NULL
         );
         CREATE TABLE IF NOT EXISTS bookmarks (
             id          INTEGER PRIMARY KEY AUTOINCREMENT,
             video_id    TEXT NOT NULL UNIQUE,
             url         TEXT NOT NULL,
             handle      TEXT NOT NULL DEFAULT '',
             author_name TEXT NOT NULL DEFAULT '',
             title       TEXT NOT NULL DEFAULT '',
             has_video   INTEGER NOT NULL DEFAULT 0,
             downloaded  INTEGER NOT NULL DEFAULT 0,
             added_at    INTEGER NOT NULL DEFAULT 0
         );
         CREATE INDEX IF NOT EXISTS idx_bookmarks_added_at
             ON bookmarks(added_at DESC);";

/// Counts the `downloads` columns named `source`.
pub const COUNT_SOURCE_COLUMN: &'static str = "SELECT COUNT(*) FROM pragma_table_info('downloads') WHERE name = 'source'";

/// Counts the `downloads` columns named `handle`.
pub const COUNT_HANDLE_COLUMN: &'static str = "SELECT COUNT(*) FROM pragma_table_info('downloads') WHERE name = 'handle'";

/// Adds the `source` column to an older `downloads` table.
pub const ADD_SOURCE_COLUMN: &'static str = "ALTER TABLE downloads ADD COLUMN source INTEGER NOT NULL DEFAULT 0;";

/// Adds the `handle` column to an older `downloads` table.
pub const ADD_HANDLE_COLUMN: &'static str = "ALTER TABLE downloads ADD COLUMN handle TEXT;";

/// The SQLite database file, `config/data.db` below the root.
pub fn db_path(root: &str) -> (r: String)
    ensures
        r@ == path_join(spec_config_dir(root@), "data.db"@),
{
    let dir = AppHome::config_dir(root);
    join_path(dir.as_str(), "data.db")
}

/// The statements that bring an older `downloads` table up to date, given
/// how many `source` and `handle` columns it has: each missing column is
/// added, `source` first.
pub fn schema_migrations(source_columns: i64, handle_columns: i64) -> (r: Vec<&'static str>)
    ensures
        r@ == (if source_columns == 0 {
            seq![ADD_SOURCE_COLUMN]
        } else {
            Seq::empty()
        }) + (if handle_columns == 0 {
            seq![ADD_HANDLE_COLUMN]
        } else {
            Seq::empty()
        }),
{
    let mut v: Vec<&'static str> = Vec::new();
    if source_columns == 0 {
        v.push(ADD_SOURCE_COLUMN);
    }
    if handle_columns == 0 {
        v.push(ADD_HANDLE_COLUMN);
    }
    proof {
        assert(v@ =~= (if source_columns == 0 {
            seq![ADD_SOURCE_COLUMN]
        } else {
            Seq::empty()
        }) + (if handle_columns == 0 {
            seq![ADD_HANDLE_COLUMN]
        } else {
            Seq::empty()
        }));
    }
    v
}

} // verus!
