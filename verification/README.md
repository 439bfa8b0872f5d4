# xdownload

The core of XDownload, a desktop downloader for videos from X (Twitter),
written as a Verus library: each function states its behaviour in
`requires` / `ensures` and Verus proves the body against it.

Layout:

- `src/` — the verified library.
  - `downloader/` — the download queue and its state machine, the worker's
    decisions, yt-dlp command lines and progress-line parsing, video-info
    parsing.
  - `services/` — settings, proxy configuration, browser cookie discovery,
    bookmarks (request building and response parsing), download history
    codes, the database schema, log retention and the log web page, network
    reachability, tool bootstrap routes, translations.
  - `commands/` — the decisions behind the frontend's commands: update
    checks and version ordering, cookie verification, download status.
  - `models/`, `utils/` — data types, paths, URLs, process helpers.
  - `json.rs`, `pattern.rs`, `text.rs`, `numbers.rs` — the JSON value model,
    regular-expression wrappers and string/number helpers the rest builds on.
- `tests/` — tests of the library on concrete values.
- `app/` — plain Rust around the library: files, SQLite, HTTP, child
  processes, the log server, and serialisable copies of the library's types.

Calls into `regex`, `serde_json`, `chrono`, `hmac` and `sha2` go through
small trusted wrappers whose contracts say what those crates document; the
public laws of the library (queue operations, settings read-back, version
ordering, reachability and others) are proof functions in the modules they
concern.
