use xdownload::services::config::DefaultFile;
use xdownload::assoc::AssocList;
use xdownload::commands::cookies::{auth_token_fingerprint, cached_username, retry_verify, username_cache_entries, NO_USER};
use xdownload::commands::download::{abs_history_path, attach_download_status, find_file_by_title, title_search_dir};
use xdownload::models::video_info::VideoInfo;
use xdownload::models::video_info::format_duration;
use xdownload::services::bookmarks::{
    bookmarks_http_error, build_bookmarks_url, extract_bookmarks_query_id, extract_ct0_from_html, extract_js_urls, find_new_bookmarks, history_id_set,
    bookmark_dump_command, build_variables, parse_x_cookies, query_id_failure_hint, BookmarkAuth, BookmarkItem,
};
use xdownload::services::bookmarks_store::is_downloaded_in;
use xdownload::services::bootstrap::{
    cancel_download, failure_message, first_route, force_mode_of, is_ffmpeg_entry, is_ffmpeg_program,
    next_route, progress_percent, status_accepted, Bootstrap, ForceMode, ProgressTracker, Route,
};
use xdownload::services::config::ConfigManager;
use xdownload::services::cookies::{
    pick_firefox_db, BrowserEnv, CookieManager, Hive, ProfileEntry, RegistryKey, BROWSER_FALLBACK_ORDER,
    YTDLP_SUPPORTED_BROWSERS,
};
use xdownload::services::db::{db_path, schema_migrations, ADD_HANDLE_COLUMN, ADD_SOURCE_COLUMN};
use xdownload::services::disclaimer::{accept, is_accepted, sign, verify};
use xdownload::services::download_history::{
    extract_handle, source_name, DownloadHistory, DownloadRecord, DownloadStatus, SOURCE_SINGLE,
};
use xdownload::services::network::{GitHubReachability, NetworkDetect, ReachabilityStep};
use xdownload::services::proxy::{parse_host_port, parse_proxy_url};
use xdownload::services::logs::{day_of_date, expired_logs, log_file_day};
use xdownload::services::log_web::{page_status, response_head, route, Page, ReadStep, RequestReader};

fn env() -> BrowserEnv {
    BrowserEnv {
        local_app_data: Some("L".to_string()),
        app_data: Some("A".to_string()),
        program_files: Some("P".to_string()),
        program_files_x86: None,
    }
}

fn joined(parts: &[&str]) -> String {
    let mut p = std::path::PathBuf::from(parts[0]);
    for x in &parts[1..] {
        p = p.join(x);
    }
    p.to_string_lossy().into_owned()
}

// ---- cookies ----

#[test]
fn installed_browsers_only_returns_ytdlp_supported() {
    let e = env();
    let chrome = joined(&["P", "Google/Chrome/Application/chrome.exe"]);
    let exists = |p: &String| *p == chrome;
    let probe = |b: &str| CookieManager::is_browser_installed(b, &e, true, |_k: &RegistryKey| false, &exists);
    let list = CookieManager::installed_browsers(&probe);
    for b in &list {
        assert!(YTDLP_SUPPORTED_BROWSERS.contains(&b.as_str()), "installed list returned a non-ytdlp browser: {b}");
        assert!(probe(b), "is_browser_installed inconsistent with installed_browsers for {b}");
    }
    assert_eq!(list, vec!["chrome".to_string()]);
    // Even where every registry key and file is reported present, only the
    // probed browsers come out.
    let all = |b: &str| CookieManager::is_browser_installed(b, &e, true, |_k: &RegistryKey| true, |_p: &String| true);
    assert_eq!(
        CookieManager::installed_browsers(&all),
        vec!["brave".to_string(), "chrome".to_string(), "edge".to_string(), "firefox".to_string(), "opera".to_string()]
    );
}

#[test]
fn fallback_order_is_subset_of_ytdlp_supported() {
    for b in BROWSER_FALLBACK_ORDER {
        assert!(YTDLP_SUPPORTED_BROWSERS.contains(&b), "BROWSER_FALLBACK_ORDER contains {b} which yt-dlp does not support");
    }
}

#[test]
fn browser_installed_but_not_ytdlp_supported_is_excluded() {
    assert!(!YTDLP_SUPPORTED_BROWSERS.contains(&"internet-explorer"));
    // Even a probe that reports every browser installed yields only
    // yt-dlp-supported ones.
    for b in CookieManager::installed_browsers(|_b: &str| true) {
        assert!(YTDLP_SUPPORTED_BROWSERS.contains(&b.as_str()));
    }
    assert_eq!(CookieManager::installed_browsers(|_b: &str| true).len(), YTDLP_SUPPORTED_BROWSERS.len());
}

#[test]
fn unsupported_browser_is_never_installed() {
    let e = env();
    assert!(!CookieManager::is_browser_installed("not-a-browser", &e, true, |_k: &RegistryKey| true, |_p: &String| true));
    assert!(!CookieManager::is_browser_installed("safari", &e, true, |_k: &RegistryKey| true, |_p: &String| true));
    assert!(!BROWSER_FALLBACK_ORDER.contains(&"safari"));
}

#[test]
fn browser_cookie_path_matches_known_browsers() {
    let e = env();
    for b in BROWSER_FALLBACK_ORDER {
        let _ = CookieManager::browser_cookie_path(b, &e, &Vec::new());
    }
    assert_eq!(
        CookieManager::browser_cookie_path("Chrome", &e, &Vec::new()),
        Some(joined(&["L", "Google", "Chrome", "User Data", "Default", "Network", "Cookies"]))
    );
    assert_eq!(
        CookieManager::browser_cookie_path("opera", &e, &Vec::new()),
        Some(joined(&["A", "Opera Software", "Opera Stable", "Default", "Network", "Cookies"]))
    );
    assert_eq!(CookieManager::browser_cookie_path("safari", &e, &Vec::new()), None);
    let no_env = BrowserEnv { local_app_data: None, app_data: None, program_files: None, program_files_x86: None };
    assert_eq!(CookieManager::browser_cookie_path("edge", &no_env, &Vec::new()), None);
}

fn profile(name: &str, is_dir: bool, has_db: bool) -> ProfileEntry {
    ProfileEntry { name: name.to_string(), path: format!("prof/{name}"), is_dir, has_cookie_db: has_db }
}

#[test]
fn firefox_prefers_default_release_profile() {
    let entries = vec![profile("a.default", true, true), profile("b.default-release", true, true)];
    assert_eq!(pick_firefox_db(&entries), Some(joined(&["prof/b.default-release", "cookies.sqlite"])));
    let entries = vec![profile("x.file", false, true), profile("a.default", true, true)];
    assert_eq!(pick_firefox_db(&entries), Some(joined(&["prof/a.default", "cookies.sqlite"])));
    let entries = vec![profile("c.default-release", true, false), profile("d", true, false)];
    assert_eq!(pick_firefox_db(&entries), None);
    let e = env();
    let entries = vec![profile("a.default", true, true)];
    assert_eq!(
        CookieManager::browser_cookie_path("firefox", &e, &entries),
        Some(joined(&["prof/a.default", "cookies.sqlite"]))
    );
}

#[test]
fn executable_candidates_follow_the_environment() {
    let e = env();
    assert_eq!(
        CookieManager::executable_candidates("brave", &e),
        vec![
            joined(&["P", "BraveSoftware/Brave-Browser/Application/brave.exe"]),
            joined(&["L", "BraveSoftware/Brave-Browser/Application/brave.exe"]),
        ]
    );
    assert_eq!(
        CookieManager::executable_candidates("EDGE", &e),
        vec![joined(&["P", "Microsoft/Edge/Application/msedge.exe"])]
    );
    assert!(CookieManager::executable_candidates("safari", &e).is_empty());
    let firefox_key = |k: &RegistryKey| k.hive == Hive::LocalMachine && k.path == "SOFTWARE\\Mozilla\\Mozilla Firefox";
    assert!(CookieManager::is_browser_installed("firefox", &e, true, firefox_key, |_p: &String| false));
    assert!(!CookieManager::is_browser_installed("firefox", &e, false, firefox_key, |_p: &String| false));
    assert!(!CookieManager::is_browser_installed("chrome", &e, true, firefox_key, |_p: &String| false));
}

#[test]
fn scan_and_list_follow_fallback_order() {
    let has = |b: &str| b == "edge" || b == "opera";
    assert_eq!(CookieManager::scan_available_browser(&has), Some("edge".to_string()));
    assert_eq!(CookieManager::list_available_browsers(&has), vec!["edge".to_string(), "opera".to_string()]);
    assert_eq!(CookieManager::scan_available_browser(|_b: &str| false), None);
}

#[test]
fn chrome_lock_error_detection() {
    assert!(CookieManager::is_chrome_lock_error("ERROR: Could not copy Chrome cookie database"));
    assert!(CookieManager::is_chrome_lock_error("could not copy the Cookie Database file"));
    assert!(!CookieManager::is_chrome_lock_error("could not copy file"));
    assert!(!CookieManager::is_chrome_lock_error("chrome is running"));
}

// ---- download history ----

#[test]
fn test_sanitize_removes_windows_illegal_chars() {
    assert_eq!(DownloadHistory::sanitize_filename(r#"a*b*c?d"e<f>g|h.mp4"#), "abcdefgh.mp4");
}

#[test]
fn test_sanitize_collapses_spaces() {
    assert_eq!(DownloadHistory::sanitize_filename("hello   world  .mp4"), "hello world .mp4");
    assert_eq!(DownloadHistory::sanitize_filename("a    b.mp4"), "a b.mp4");
}

#[test]
fn test_sanitize_keeps_chinese_and_extension() {
    assert_eq!(DownloadHistory::sanitize_filename("我的 视频 (官方).mp4"), "我的 视频 (官方).mp4");
    assert_eq!(DownloadHistory::sanitize_filename("视频|剪辑.重制.mp4"), "视频剪辑.重制.mp4");
}

#[test]
fn test_sanitize_keeps_valid_name_unchanged() {
    let name = "simple-name_1#+.mp4";
    assert_eq!(DownloadHistory::sanitize_filename(name), name);
}

#[test]
fn test_sanitize_empty_result_returns_original() {
    assert_eq!(DownloadHistory::sanitize_filename(r#"::**??.mp4"#), r#"::**??.mp4"#);
}

#[test]
fn test_sanitize_collapses_spaces_without_extension() {
    assert_eq!(DownloadHistory::sanitize_filename("file  name"), "file name");
}

#[test]
fn test_sanitize_path_preserves_directories() {
    assert_eq!(DownloadHistory::sanitize_filename(r#"D:\Downloads\a b:c.mp4"#), r#"D:\Downloads\a bc.mp4"#);
}

#[test]
fn db_path_is_under_config_dir() {
    let p = db_path("/opt/xdownload");
    assert!(p.ends_with("data.db"));
    assert!(p.contains("config"));
}

#[test]
fn schema_migrations_add_missing_columns() {
    assert_eq!(schema_migrations(0, 0), vec![ADD_SOURCE_COLUMN, ADD_HANDLE_COLUMN]);
    assert_eq!(schema_migrations(1, 0), vec![ADD_HANDLE_COLUMN]);
    assert!(schema_migrations(1, 1).is_empty());
}

#[test]
fn extract_handle_variants() {
    assert_eq!(
        extract_handle("https://x.com/yung_dimsum/status/2086682917766599064/video/1"),
        Some("yung_dimsum".to_string())
    );
    assert_eq!(extract_handle("https://twitter.com/yung_dimsum/status/123"), Some("yung_dimsum".to_string()));
    assert_eq!(extract_handle("https://mobile.twitter.com/Yung_DimSum/status/123"), Some("yung_dimsum".to_string()));
    assert_eq!(extract_handle("https://x.com/u/status/123?lang=zh"), Some("u".to_string()));
    assert_eq!(extract_handle("https://x.com/i/status/123"), None);
    assert_eq!(extract_handle("https://x.com/home"), None);
    assert_eq!(extract_handle("https://example.com/yung/status/123"), None);
    assert_eq!(extract_handle("not a url"), None);
}

fn rec(id: &str, status: DownloadStatus, file_path: Option<&str>) -> DownloadRecord {
    DownloadRecord {
        video_id: id.to_string(),
        title: None,
        thumbnail: None,
        url: None,
        handle: None,
        uploader: None,
        duration: 0,
        view_count: 0,
        like_count: 0,
        file_path: file_path.map(|p| p.to_string()),
        file_paths: vec![],
        file_size: None,
        downloaded_at: 0,
        status,
        error: None,
        attempts: 0,
        source: source_name(SOURCE_SINGLE),
    }
}

#[test]
fn is_downloaded_rechecks_the_file() {
    let r = Some(rec("a", DownloadStatus::Success, Some("/v/a.mp4")));
    assert!(DownloadHistory::is_downloaded(&r, |p: &String| p == "/v/a.mp4"));
    assert!(!DownloadHistory::is_downloaded(&r, |_p: &String| false));
    assert!(!DownloadHistory::is_downloaded(&Some(rec("b", DownloadStatus::Success, None)), |_p: &String| true));
    assert!(!DownloadHistory::is_downloaded(&None, |_p: &String| true));
}

// ---- proxy ----

#[test]
fn test_parse_host_port() {
    assert_eq!(parse_host_port("127.0.0.1:7890"), Some(("127.0.0.1".to_string(), 7890)));
    assert_eq!(parse_host_port("localhost:8080"), Some(("localhost".to_string(), 8080)));
    assert_eq!(parse_host_port("invalid"), None);
}

#[test]
fn test_parse_proxy_url() {
    assert_eq!(
        parse_proxy_url("http://127.0.0.1:7890"),
        Some(("http".to_string(), "127.0.0.1".to_string(), 7890))
    );
    assert_eq!(
        parse_proxy_url("https://proxy.example.com:3128/"),
        Some(("https".to_string(), "proxy.example.com".to_string(), 3128))
    );
    assert_eq!(
        parse_proxy_url("socks5://127.0.0.1:1080"),
        Some(("socks5".to_string(), "127.0.0.1".to_string(), 1080))
    );
    assert_eq!(parse_proxy_url("10.0.0.1:1080"), Some(("http".to_string(), "10.0.0.1".to_string(), 1080)));
}

// ---- bookmarks ----

#[test]
fn query_id_hint_detects_not_found_in_non_200_body() {
    let err = query_id_failure_hint("HTTP 404: {\"errors\":[{\"message\":\"Could not find query\"}]}");
    assert!(err.contains("queryId 已失效"), "err: {err}");
}

#[test]
fn cookie_header_format() {
    let auth = BookmarkAuth { auth_token: "abc".into(), ct0: "def".into() };
    assert!(auth.is_complete());
    assert_eq!(auth.cookie_header(), "auth_token=abc; ct0=def");
    assert!(!BookmarkAuth::default().is_complete());
}

fn item(id: &str, handle: &str, has_video: bool) -> BookmarkItem {
    BookmarkItem {
        tweet_id: id.into(),
        handle: handle.into(),
        url: format!("https://x.com/{handle}/status/{id}"),
        text: format!("t{id}"),
        author_name: handle.to_uppercase(),
        has_video,
    }
}

#[test]
fn find_new_bookmarks_returns_only_unseen() {
    let items = vec![item("1", "a", true), item("2", "b", false)];
    let seen = vec!["1".to_string()];
    let fresh = find_new_bookmarks(&seen, &items);
    assert_eq!(fresh.len(), 1);
    assert_eq!(fresh[0].tweet_id, "2");
    let all = find_new_bookmarks(&Vec::new(), &items);
    assert_eq!(all.len(), 2);
    let all_seen = vec!["1".to_string(), "2".to_string()];
    assert!(find_new_bookmarks(&all_seen, &items).is_empty());
}

#[test]
fn history_id_set_builds_from_download_records() {
    let ids = history_id_set(vec![rec("A", DownloadStatus::Success, None), rec("B", DownloadStatus::Failed, None)]);
    assert_eq!(ids.len(), 2);
    assert!(ids.contains(&"A".to_string()));
    assert!(ids.contains(&"B".to_string()));
    let items = vec![item("A", "a", true), item("C", "c", true)];
    let fresh = find_new_bookmarks(&ids, &items);
    assert_eq!(fresh.len(), 1);
    assert_eq!(fresh[0].tweet_id, "C");
}

#[test]
fn is_downloaded_in_checks_file_existence() {
    let mut map: AssocList<Option<String>> = AssocList::new();
    map.insert("hit".to_string(), None);
    map.insert("gone".to_string(), Some("Z:/definitely/not/exists.mp4".to_string()));
    let exists = |p: &String| std::path::Path::new(p).exists();
    assert!(!is_downloaded_in(&map, "hit", &exists));
    assert!(!is_downloaded_in(&map, "gone", &exists));
    assert!(!is_downloaded_in(&map, "missing", &exists));
    map.insert("here".to_string(), Some("/kept.mp4".to_string()));
    assert!(is_downloaded_in(&map, "here", |p: &String| p == "/kept.mp4"));
}

#[test]
fn build_url_encodes_variables() {
    let url = build_bookmarks_url("AbC123", 100, Some("DAABCgABGODx3_IAAA"));
    assert!(url.starts_with("https://x.com/i/api/graphql/AbC123/Bookmarks?variables="));
    assert!(url.contains("%22count%22%3A100"), "count should be JSON-encoded: {url}");
    assert!(url.contains("DAABCgABGODx3_IAAA"), "cursor should be present: {url}");
}

#[test]
fn build_url_encodes_full_features() {
    let url = build_bookmarks_url("AbC123", 20, None);
    assert!(url.contains("%22rweb_video_screen_enabled%22%3Afalse"), "real features must be URL-encoded into the query: {url}");
    assert!(!url.contains("features=%7B%7D"), "features must not be the old empty object: {url}");
}

#[test]
fn build_url_without_cursor() {
    let url = build_bookmarks_url("AbC123", 50, None);
    assert!(url.contains("%22count%22%3A50"));
    assert!(!url.contains("cursor"), "no cursor when None: {url}");
}

#[test]
fn build_url_variables_exact() {
    let url = build_bookmarks_url("Q", 7, Some("c\"1"));
    assert!(url.contains(
        "variables=%7B%22count%22%3A7%2C%22cursor%22%3A%22c%5C%221%22%2C%22includePromotedContent%22%3Atrue%7D&features="
    ));
}

#[test]
fn extract_js_urls_from_html() {
    let html = r#"
        <html>
          <script src="https://abs.twimg.com/foo/main.abc.js"></script>
          <script src="//cdn.example.com/app.js?x=1"></script>
          <script src="/static/home.js"></script>
          <script src="inline.js"></script>
        </html>"#;
    let urls = extract_js_urls(html, "https://x.com");
    assert_eq!(urls.len(), 3);
    assert!(urls.contains(&"https://abs.twimg.com/foo/main.abc.js".to_string()));
    assert!(urls.contains(&"https://cdn.example.com/app.js?x=1".to_string()));
    assert!(urls.contains(&"https://x.com/static/home.js".to_string()));
    assert_eq!(extract_js_urls(r#"<script src="/a.js">"#, "https://x.com//"), vec!["https://x.com/a.js".to_string()]);
}

#[test]
fn extract_ct0_from_html_finds_token() {
    let html = r#"<script type="application/json">{"ct0":"a1b2C3d4E5f6g7H8","other":1}</script>"#;
    assert_eq!(extract_ct0_from_html(html).as_deref(), Some("a1b2C3d4E5f6g7H8"));
    assert_eq!(extract_ct0_from_html("document.cookie='ct0=zzzzzzzzzzzz; path=/'").as_deref(), Some("zzzzzzzzzzzz"));
}

#[test]
fn extract_ct0_from_html_missing_returns_none() {
    assert_eq!(extract_ct0_from_html("<html><body></body></html>"), None);
}

// ---- disclaimer ----

#[test]
fn accepting_the_disclaimer_is_read_back() {
    let rec = accept();
    assert_eq!(rec.flag, 1);
    assert_eq!(rec.signature.len(), 32);
    assert!(verify(&rec.signature));
    assert!(is_accepted(rec.flag, Some(&rec.signature)));
    assert!(ConfigManager::is_disclaimer_accepted(1, Some(&sign())));
    let rec2 = ConfigManager::accept_disclaimer();
    assert_eq!(rec2.signature, rec.signature);
}

#[test]
fn forged_or_missing_acceptance_is_refused() {
    let mut sig = sign();
    sig[0] ^= 1;
    assert!(!verify(&sig));
    assert!(!is_accepted(1, Some(&sig)));
    assert!(!is_accepted(0, Some(&sign())));
    assert!(!is_accepted(1, None));
    assert!(!verify(&[]));
}

// ---- network ----

#[test]
fn reachability_decisions() {
    assert_eq!(
        NetworkDetect::after_direct_probe(true, true),
        ReachabilityStep::Done(GitHubReachability { direct_ok: true, proxy_configured: false, proxy_ok: false, reachable: true })
    );
    assert_eq!(NetworkDetect::after_direct_probe(false, true), ReachabilityStep::ProbeProxy);
    assert_eq!(
        NetworkDetect::after_direct_probe(false, false),
        ReachabilityStep::Done(GitHubReachability { direct_ok: false, proxy_configured: false, proxy_ok: false, reachable: false })
    );
    assert_eq!(
        NetworkDetect::after_proxy_probe(true),
        GitHubReachability { direct_ok: false, proxy_configured: true, proxy_ok: true, reachable: true }
    );
    assert!(!NetworkDetect::after_proxy_probe(false).reachable);
    assert!(NetworkDetect::answered(Some(404)));
    assert!(!NetworkDetect::answered(None));
    assert!(NetworkDetect::github_accessible(false, Some(true)));
    assert!(!NetworkDetect::github_accessible(false, None));
    assert_eq!(NetworkDetect::latency_proxy_url("127.0.0.1", 7890), "http://127.0.0.1:7890");
}

// ---- bootstrap ----

#[test]
fn bootstrap_cancel_flag() {
    let mut b = Bootstrap::new();
    assert!(!b.is_cancelled());
    cancel_download(&mut b);
    assert!(b.is_cancelled());
    b.reset_cancel();
    assert!(!b.is_cancelled());
}

#[test]
fn bootstrap_progress_reporting() {
    assert_eq!(progress_percent(1, 3), 33);
    assert_eq!(progress_percent(3, 3), 99);
    assert_eq!(progress_percent(0, 10), 0);
    let mut t = ProgressTracker::new();
    assert_eq!(t.on_chunk(5, 100), Some(5));
    assert_eq!(t.on_chunk(5, 100), None);
    assert_eq!(t.on_chunk(50, 0), None);
    assert_eq!(t.on_chunk(100, 100), Some(99));
    assert_eq!(t.on_chunk(200, 100), None);
    assert!(status_accepted(200) && status_accepted(302) && status_accepted(301));
    assert!(!status_accepted(404) && !status_accepted(304));
}

#[test]
fn bootstrap_fallback_routing() {
    assert_eq!(force_mode_of(Some("proxy")), ForceMode::Proxy);
    assert_eq!(force_mode_of(Some("direct")), ForceMode::Direct);
    assert_eq!(force_mode_of(Some("other")), ForceMode::Auto);
    assert_eq!(force_mode_of(None), ForceMode::Auto);
    assert_eq!(first_route(ForceMode::Auto, false, "u"), Ok(Route::Direct));
    assert_eq!(first_route(ForceMode::Proxy, true, "u"), Ok(Route::Proxy));
    assert_eq!(first_route(ForceMode::Proxy, false, "https://a/b"), Err("未配置代理，无法使用代理下载: https://a/b".to_string()));
    assert_eq!(next_route(ForceMode::Auto, Route::Direct, false, true), Some(Route::Proxy));
    assert_eq!(next_route(ForceMode::Auto, Route::Direct, true, true), None);
    assert_eq!(next_route(ForceMode::Auto, Route::Direct, false, false), None);
    assert_eq!(next_route(ForceMode::Direct, Route::Direct, false, true), None);
    assert_eq!(next_route(ForceMode::Auto, Route::Proxy, false, true), None);
    assert_eq!(failure_message(ForceMode::Proxy, Route::Proxy, "u", "e"), "代理下载失败: u: e");
    assert_eq!(failure_message(ForceMode::Auto, Route::Proxy, "u", "e"), "直连与代理下载均失败: u: e");
    assert_eq!(failure_message(ForceMode::Auto, Route::Direct, "u", "e"), "e");
}

#[test]
fn bootstrap_archive_entries() {
    assert!(is_ffmpeg_entry("ffmpeg-master/bin/ffmpeg.exe"));
    assert!(is_ffmpeg_entry("X/BIN/FFPROBE.EXE"));
    assert!(!is_ffmpeg_entry("ffmpeg-master/doc/ffmpeg.exe"));
    assert!(!is_ffmpeg_entry("ffmpeg-master/bin/readme.txt"));
    assert!(is_ffmpeg_program("FFmpeg.exe"));
    assert!(!is_ffmpeg_program("ffprobe.exe"));
}

// ---- video info ----

#[test]
fn format_duration_values() {
    assert_eq!(format_duration(0), "?");
    assert_eq!(format_duration(-5), "?");
    assert_eq!(format_duration(5), "0:05");
    assert_eq!(format_duration(65), "1:05");
    assert_eq!(format_duration(3600), "1:00:00");
    assert_eq!(format_duration(3725), "1:02:05");
    assert_eq!(format_duration(36000 + 59), "10:00:59");
}

// ---- log retention ----

#[test]
fn expired_logs_only_older_than_retention() {
    let today = day_of_date("2026-08-13").expect("valid date");
    let names: Vec<String> = [
        "xdownload.log.2026-07-01",
        "xdownload.log.2026-07-29",
        "xdownload.log.2026-07-30",
        "xdownload.log.2026-08-10",
        "readme.txt",
    ]
    .iter()
    .map(|s| s.to_string())
    .collect();
    assert_eq!(
        expired_logs(&names, today),
        vec!["xdownload.log.2026-07-01".to_string(), "xdownload.log.2026-07-29".to_string()]
    );
    let fresh = vec!["xdownload.log.2026-08-13".to_string(), "xdownload.log.2026-08-01".to_string()];
    assert!(expired_logs(&fresh, today).is_empty());
    assert_eq!(log_file_day("2026-08-13"), Some(today));
    assert_eq!(log_file_day("xdownload.log.2026-08-12"), Some(today - 1));
    assert_eq!(log_file_day("xdownload.log.bad"), None);
}

// ---- Bookmarks queryId discovery ----

#[test]
fn extract_query_id_forward_order() {
    let js = r#"({queryId:"AbCdEfGh12345678",operationName:"Bookmarks"})"#;
    assert_eq!(extract_bookmarks_query_id(js).as_deref(), Some("AbCdEfGh12345678"));
}

#[test]
fn extract_query_id_reversed_order() {
    let js = r#"{"operationName":"Bookmarks","queryId":"xYz_0123456789ab"}"#;
    assert_eq!(extract_bookmarks_query_id(js).as_deref(), Some("xYz_0123456789ab"));
}

#[test]
fn extract_query_id_mapping_object() {
    let js = r#"operationMapping:{"HomeTimeline":"AAAA","Bookmarks":"QwErTyUiop123456"}"#;
    assert_eq!(extract_bookmarks_query_id(js).as_deref(), Some("QwErTyUiop123456"));
}

#[test]
fn extract_query_id_prefers_bookmarks_not_search() {
    let js = r#"({queryId:"SearchQidValue12345",operationName:"BookmarkSearchTimeline"},{queryId:"BookmarksQid98765",operationName:"Bookmarks"})"#;
    assert_eq!(extract_bookmarks_query_id(js).as_deref(), Some("BookmarksQid98765"));
}

#[test]
fn extract_query_id_skips_search_timeline_only() {
    let js = r#"({queryId:"SearchQidValue12345",operationName:"BookmarkSearchTimeline"})"#;
    assert_eq!(extract_bookmarks_query_id(js), None);
}

#[test]
fn extract_query_id_no_match_returns_none() {
    let js = r#"({queryId:"aaa",operationName:"Bookmarks"})"#;
    assert_eq!(extract_bookmarks_query_id(js), None);
    let js2 = r#"({queryId:"AbCdEfGh12345678",operationName:"HomeTimeline"})"#;
    assert_eq!(extract_bookmarks_query_id(js2), None);
}

#[test]
fn bookmarks_http_error_keeps_a_snippet() {
    assert_eq!(bookmarks_http_error(401, "denied"), "书签接口返回 HTTP 401: denied");
    let long = "x".repeat(250);
    assert_eq!(bookmarks_http_error(500, &long), format!("书签接口返回 HTTP 500: {}", "x".repeat(200)));
}

// ---- download state of a video ----

fn video(id: &str, url: &str, title: Option<&str>) -> VideoInfo {
    VideoInfo {
        id: id.to_string(),
        url: url.to_string(),
        title: title.map(|t| t.to_string()),
        description: None,
        duration: 0,
        thumbnail: None,
        uploader: None,
        view_count: 0,
        like_count: 0,
        webpage_url: None,
        formats: vec![],
        media_count: 1,
        downloaded: false,
        downloaded_at: None,
        download_path: None,
    }
}

#[test]
fn history_paths_are_made_absolute() {
    assert_eq!(abs_history_path("/v/a.mp4", "/work"), "/v/a.mp4");
    assert_eq!(abs_history_path("downloads/a.mp4", "/work"), joined(&["/work", "downloads/a.mp4"]));
    assert_eq!(title_search_dir(&Some("/data/dl".to_string()), "/app"), "/data/dl");
    assert_eq!(title_search_dir(&Some("rel".to_string()), "/app"), joined(&["/app", "downloads"]));
    assert_eq!(title_search_dir(&None, "/app"), joined(&["/app", "downloads"]));
}

#[test]
fn file_found_by_title() {
    let names = vec!["notes.txt".to_string(), "My clip.MP4".to_string(), "My clip 2.mp4".to_string()];
    assert_eq!(find_file_by_title("My clip", "/d", &names), Some(joined(&["/d", "My clip.MP4"])));
    assert_eq!(find_file_by_title("Other", "/d", &names), None);
}

#[test]
fn download_state_from_the_history() {
    let rec_a = rec("111", DownloadStatus::Success, Some("/v/a.mp4"));
    let lookup = |id: &String| if id == "111" { Some(rec_a.clone()) } else { None };
    let mut info = video("111", "https://x.com/u/status/111", Some("t"));
    attach_download_status(&mut info, "/work", &lookup, |p: &String| p == "/v/a.mp4", |_t: &String| None);
    assert!(info.downloaded);
    assert_eq!(info.download_path.as_deref(), Some("/v/a.mp4"));
    assert_eq!(info.downloaded_at, Some(0));

    // The record of the status id is used when the media id has none; the
    // file is gone, so it is not downloaded.
    let mut info = video("999", "https://x.com/u/status/111", Some("t"));
    attach_download_status(&mut info, "/work", &lookup, |_p: &String| false, |_t: &String| None);
    assert!(!info.downloaded);
    assert_eq!(info.download_path.as_deref(), Some("/v/a.mp4"));

    // No record: a file of the title marks it downloaded.
    let mut info = video("999", "https://x.com/u/status/222", Some("t"));
    attach_download_status(&mut info, "/work", &lookup, |_p: &String| true, |t: &String| {
        if t == "t" { Some("/d/t.mp4".to_string()) } else { None }
    });
    assert!(info.downloaded);
    assert_eq!(info.download_path.as_deref(), Some("/d/t.mp4"));
    assert_eq!(info.downloaded_at, None);

    // Without an id nothing is looked up.
    let mut info = video("", "https://x.com/u/status/111", Some("t"));
    attach_download_status(&mut info, "/work", &lookup, |_p: &String| true, |_t: &String| Some("/x".to_string()));
    assert!(!info.downloaded);
}

// ---- log viewer HTTP ----

#[test]
fn request_target_is_read_across_chunks() {
    let mut r = RequestReader::new();
    assert!(matches!(r.feed(b"GET /api/logs?file=x HTT"), ReadStep::NeedMore));
    match r.feed(b"P/1.1\r\nHost: a\r\n\r\n") {
        ReadStep::Target(t) => assert_eq!(t, "/api/logs?file=x"),
        other => panic!("unexpected {other:?}"),
    }
    let mut r = RequestReader::new();
    match r.feed(b"GET\r\n\r\n") {
        ReadStep::Target(t) => assert_eq!(t, "/"),
        other => panic!("unexpected {other:?}"),
    }
    let mut r = RequestReader::new();
    match r.feed(b"POST / HTTP/1.1\r\n\r\n") {
        ReadStep::Failed(e) => assert_eq!(e, "log_web: method not allowed"),
        other => panic!("unexpected {other:?}"),
    }
    let mut r = RequestReader::new();
    let big = vec![b'a'; 40000];
    match r.feed(&big) {
        ReadStep::Failed(e) => assert_eq!(e, "log_web: request too large"),
        other => panic!("unexpected {other:?}"),
    }
}

#[test]
fn viewer_routes_and_heads() {
    assert_eq!(route("/api/logs?lines=5"), (Page::Logs, Some("lines=5".to_string())));
    assert_eq!(route("/"), (Page::Index, None));
    assert_eq!(route("/index.html"), (Page::Index, None));
    assert_eq!(route("/x?y"), (Page::NotFound, Some("y".to_string())));
    assert_eq!(page_status(Page::NotFound), (404, "Not Found", "text/plain; charset=utf-8"));
    assert_eq!(
        response_head(200, "OK", "text/plain", 5),
        "HTTP/1.1 200 OK\r\nContent-Type: text/plain\r\nContent-Length: 5\r\nConnection: close\r\nCache-Control: no-store\r\n\r\n"
    );
}

// ---- cookie user-name cache ----

#[test]
fn username_cache_follows_the_browser() {
    assert_eq!(cached_username(Some("chrome"), Some("alice".to_string()), "chrome"), Some("alice".to_string()));
    assert_eq!(cached_username(Some("chrome"), Some(NO_USER.to_string()), "chrome"), Some("@None".to_string()));
    assert_eq!(cached_username(Some("firefox"), Some("alice".to_string()), "chrome"), None);
    assert_eq!(cached_username(None, Some("alice".to_string()), "chrome"), None);
    let entries = username_cache_entries("chrome", "fp", "alice");
    assert_eq!(
        entries,
        vec![
            ("cookies_username_browser".to_string(), "chrome".to_string()),
            ("cookies_username_fingerprint".to_string(), "fp".to_string()),
            ("cookies_username".to_string(), "alice".to_string()),
        ]
    );
    assert_eq!(auth_token_fingerprint("abc"), "ba7816bf8f01cfea414140de5dae2223b00361a396177a9cb410ff61f20015ad");
    assert!(retry_verify(1) && retry_verify(2) && !retry_verify(3));
}

#[test]
fn parse_x_cookies_extracts_auth_and_ct0() {
    let content = [
        "# Netscape HTTP Cookie File\n",
        ".x.com\tTRUE\t/\tTRUE\t0\tauth_token\tSESSIONTOKEN123\n",
        ".x.com\tTRUE\t/\tTRUE\t0\tct0\tCSRFTOKEN456\n",
        ".x.com\tTRUE\t/\tTRUE\t0\tother\tIGNORED\n",
        "example.com\tTRUE\t/\tFALSE\t0\tauth_token\tWRONGDOMAIN\n",
        ".twitter.com\tTRUE\t/\tTRUE\t0\tct0\tTWITTERCT0\n",
    ]
    .concat();
    let auth = parse_x_cookies(&content).expect("parse ok");
    assert_eq!(auth.auth_token, "SESSIONTOKEN123");
    assert_eq!(auth.ct0, "CSRFTOKEN456");
    assert!(auth.is_complete());
}

#[test]
fn parse_x_cookies_missing_ct0_errors() {
    let err = parse_x_cookies(".x.com\tTRUE\t/\tTRUE\t0\tauth_token\tTOKENONLY\n").expect_err("missing ct0 should fail");
    assert!(err.contains("ct0"), "err: {err}");
}

#[test]
fn parse_x_cookies_skips_foreign_domains_and_empty_values() {
    let content = [
        "example.com\tTRUE\t/\tFALSE\t0\tauth_token\tWRONG\r\n",
        "x.com\tTRUE\t/\tTRUE\t0\tauth_token\t\r\n",
        "  twitter.com\tTRUE\t/\tTRUE\t0\tauth_token\tTW  \r\n",
        "x.com\tTRUE\t/\tTRUE\t0\tct0\tC1\n",
    ]
    .concat();
    let auth = parse_x_cookies(&content).expect("parse ok");
    assert_eq!(auth.auth_token, "TW");
    assert_eq!(auth.ct0, "C1");
    let err = parse_x_cookies("example.com\tTRUE\t/\tFALSE\t0\tauth_token\tWRONG\n").expect_err("no auth_token");
    assert!(err.contains("auth_token"), "err: {err}");
}

#[test]
fn bookmark_dump_command_appends_proxy_last() {
    let plain = bookmark_dump_command("yt-dlp", "firefox", "/tmp/c.txt", None);
    assert_eq!(
        plain,
        vec![
            "yt-dlp", "--cookies-from-browser", "firefox", "--cookies", "/tmp/c.txt", "--no-warnings", "--no-color",
            "--skip-download", "--flat-playlist", "https://x.com/home",
        ]
    );
    let proxied = bookmark_dump_command("yt-dlp", "edge", "c.txt", Some("http://127.0.0.1:7890"));
    assert_eq!(proxied.len(), 12);
    assert_eq!(proxied[2], "edge");
    assert_eq!(proxied[10], "--proxy");
    assert_eq!(proxied[11], "http://127.0.0.1:7890");
}

#[test]
fn registry_keys_of_probed_browsers() {
    let keys = CookieManager::registry_keys("Chrome");
    let got: Vec<(Hive, String)> = keys.into_iter().map(|k| (k.hive, k.path)).collect();
    assert_eq!(
        got,
        vec![
            (Hive::LocalMachine, "SOFTWARE\\Google\\Chrome\\BLBeacon".to_string()),
            (Hive::LocalMachine, "SOFTWARE\\WOW6432Node\\Google\\Chrome\\BLBeacon".to_string()),
            (Hive::CurrentUser, "Software\\Google\\Chrome\\BLBeacon".to_string()),
        ]
    );
    assert_eq!(CookieManager::registry_keys("opera")[2].path, "Software\\Opera Software");
    assert!(CookieManager::registry_keys("safari").is_empty());
}

#[test]
fn variables_escape_the_cursor_as_json() {
    assert_eq!(build_variables(20, None), "{\"count\":20,\"includePromotedContent\":true}");
    assert_eq!(
        build_variables(5, Some("a\"b\\c\n\t\u{1}é")),
        "{\"count\":5,\"cursor\":\"a\\\"b\\\\c\\n\\t\\u0001é\",\"includePromotedContent\":true}"
    );
}

#[test]
fn sanitize_follows_windows_path_components() {
    assert_eq!(DownloadHistory::sanitize_filename("C:a*b.mp4"), "C:ab.mp4");
    assert_eq!(DownloadHistory::sanitize_filename("foo/a*b/"), "foo/ab");
    assert_eq!(DownloadHistory::sanitize_filename(r#"D:\dl\x?y.mp4\\"#), r#"D:\dl\xy.mp4"#);
    assert_eq!(DownloadHistory::sanitize_filename("foo/ok.mp4/"), "foo/ok.mp4/");
}

#[test]
fn default_settings_seed_only_a_missing_file() {
    let (s, seed) = ConfigManager::load_default(DefaultFile::Missing);
    assert!(seed);
    assert_eq!(s.lang, None);
    let (s, seed) = ConfigManager::load_default(DefaultFile::Unreadable);
    assert!(!seed);
    assert_eq!(s.lang, None);
    let mut p = xdownload::models::config::AppSettings::default();
    p.lang = Some("en".to_string());
    let (s, seed) = ConfigManager::load_default(DefaultFile::Parsed(p));
    assert!(!seed);
    assert_eq!(s.lang.as_deref(), Some("en"));
}
