use xdownload::services::bookmarks::{confirm_bookmark_enqueue, BookmarkItem};
use xdownload::downloader::queue::{effective_concurrency, DownloadQueue, WorkerExit};
use xdownload::downloader::worker::{WorkerRun, CANCELLED_MARK, NO_DETAIL_ERROR};
use xdownload::downloader::ytdlp::{is_valid_rate_limit, CacheEntry, YtDlpDownloader, CACHE_MAX_AGE_SECS};
use xdownload::models::config::{AppSettings, DownloadConfig};
use xdownload::services::i18n::I18n;
use xdownload::utils::process::{find_ffmpeg, find_ytdlp, join_lines, strip_line_end, ChildRegistry};

fn cfg(url: &str) -> DownloadConfig {
    DownloadConfig::new(url.to_string())
}

fn ids_and_states(q: &DownloadQueue) -> Vec<(String, String)> {
    q.status().into_iter().map(|s| (s.task_id, s.status)).collect()
}

fn pair(id: &str, st: &str) -> (String, String) {
    (id.to_string(), st.to_string())
}

#[test]
fn test_is_valid_rate_limit() {
    assert!(is_valid_rate_limit("1M"));
    assert!(is_valid_rate_limit("500K"));
    assert!(is_valid_rate_limit("2.5M"));
    assert!(is_valid_rate_limit("100M"));
    assert!(is_valid_rate_limit("10"));
    assert!(is_valid_rate_limit(" 1M "));
    assert!(is_valid_rate_limit("1m"));
    assert!(is_valid_rate_limit("1G"));
    assert!(!is_valid_rate_limit(""));
    assert!(!is_valid_rate_limit("M"));
    assert!(!is_valid_rate_limit("1MM"));
    assert!(!is_valid_rate_limit("abc"));
    assert!(!is_valid_rate_limit("1.2.3M"));
    assert!(!is_valid_rate_limit("1 M"));
}

#[test]
fn rate_limit_needs_a_digit() {
    assert!(!is_valid_rate_limit("."));
    assert!(!is_valid_rate_limit(".M"));
    assert!(is_valid_rate_limit(".5M"));
    assert!(is_valid_rate_limit("5."));
}


#[test]
fn queue_refuses_empty_and_duplicate_links() {
    let mut q = DownloadQueue::new();
    assert_eq!(q.enqueue(cfg("https://x.com/a/status/1"), None, None, 0), Ok("0".to_string()));
    assert_eq!(
        q.enqueue(cfg("  https://x.com/a/status/1 "), None, None, 0),
        Err("链接已在队列中".to_string())
    );
    assert_eq!(q.enqueue(cfg("   "), None, None, 0), Err("链接不能为空".to_string()));
    // The refused duplicate used up a sequence number; the empty link did not.
    assert_eq!(q.enqueue(cfg("https://x.com/b/status/2"), None, None, 0), Ok("2".to_string()));
    assert_eq!(ids_and_states(&q), vec![pair("0", "queued"), pair("2", "queued")]);
}

#[test]
fn queue_pump_respects_concurrency_and_pause() {
    let mut q = DownloadQueue::new();
    for i in 0..3 {
        q.enqueue(cfg(&format!("https://x.com/u/status/{i}")), None, None, 0).unwrap();
    }
    let started = q.pump(2);
    assert_eq!(started.iter().map(|t| t.id.clone()).collect::<Vec<_>>(), vec!["0".to_string(), "1".to_string()]);
    assert!(q.pump(2).is_empty());
    assert!(q.has_active());
    assert!(q.running_task("1").is_some());
    assert_eq!(q.finish_worker("1"), WorkerExit::Finished);
    q.pause();
    assert!(q.is_paused());
    assert!(q.pump(2).is_empty());
    q.resume();
    assert_eq!(q.pump(2).len(), 1);
    assert_eq!(effective_concurrency(None), effective_concurrency(None));
}

#[test]
fn queue_pause_all_then_resume_all_restores_order() {
    let mut q = DownloadQueue::new();
    for i in 0..3 {
        q.enqueue(cfg(&format!("https://x.com/u/status/{i}")), None, None, 0).unwrap();
    }
    q.pump(1);
    let paused = q.pause_all();
    assert_eq!(paused, vec!["0".to_string(), "1".to_string(), "2".to_string()]);
    assert!(q.is_paused());
    assert_eq!(ids_and_states(&q), vec![pair("0", "paused"), pair("1", "paused"), pair("2", "paused")]);
    // The worker of the task that was running ends as paused.
    assert_eq!(q.finish_worker("0"), WorkerExit::Paused);
    q.resume_all();
    assert!(!q.is_paused());
    assert_eq!(ids_and_states(&q), vec![pair("0", "queued"), pair("1", "queued"), pair("2", "queued")]);
}

#[test]
fn queue_reorder_moves_within_the_list() {
    let mut q = DownloadQueue::new();
    for i in 0..3 {
        q.enqueue(cfg(&format!("https://x.com/u/status/{i}")), None, None, 0).unwrap();
    }
    assert!(q.reorder_queue("2", 0));
    assert_eq!(ids_and_states(&q), vec![pair("2", "queued"), pair("0", "queued"), pair("1", "queued")]);
    let seqs: Vec<u64> = q.status().iter().map(|s| s.seq).collect();
    assert_eq!(seqs, vec![0, 1, 2]);
    assert!(q.reorder_queue("2", 99));
    assert_eq!(ids_and_states(&q), vec![pair("0", "queued"), pair("1", "queued"), pair("2", "queued")]);
    assert!(!q.reorder_queue("7", 0));
}

#[test]
fn queue_cancel_undoes_enqueue() {
    let mut q = DownloadQueue::new();
    q.enqueue(cfg("https://x.com/a/status/1"), None, None, 0).unwrap();
    let c = q.cancel_task("0").expect("queued task");
    assert_eq!(c.url, "https://x.com/a/status/1");
    assert!(q.status().is_empty());
    assert!(q.cancel_task("0").is_none());
    assert!(q.enqueue(cfg("https://x.com/a/status/1"), None, None, 0).is_ok());
}

#[test]
fn queue_pause_and_resume_single_task() {
    let mut q = DownloadQueue::new();
    for i in 0..3 {
        q.enqueue(cfg(&format!("https://x.com/u/status/{i}")), None, None, 0).unwrap();
    }
    assert!(q.pause_task("1"));
    assert!(!q.pause_task("9"));
    assert_eq!(ids_and_states(&q), vec![pair("1", "paused"), pair("0", "queued"), pair("2", "queued")]);
    q.resume_task("1");
    assert_eq!(ids_and_states(&q), vec![pair("0", "queued"), pair("2", "queued"), pair("1", "queued")]);
    // Pausing again puts it back at the slot it left in the paused list.
    assert!(q.pause_task("1"));
    assert_eq!(ids_and_states(&q)[0], pair("1", "paused"));
}

#[test]
fn queue_cancel_all_keeps_running_listed() {
    let mut q = DownloadQueue::new();
    for i in 0..3 {
        q.enqueue(cfg(&format!("https://x.com/u/status/{i}")), None, None, 0).unwrap();
    }
    q.pump(1);
    let (running, configs) = q.cancel_all();
    assert_eq!(running, vec!["0".to_string()]);
    assert_eq!(configs.len(), 3);
    assert_eq!(ids_and_states(&q), vec![pair("0", "downloading")]);
}

#[test]
fn worker_retries_until_saved() {
    let mut run = WorkerRun::new(Some(2));
    run.begin_attempt();
    assert!(run.record(Err("network".to_string())));
    run.begin_attempt();
    assert!(!run.record(Ok(vec!["/v/a.mp4".to_string()])));
    assert_eq!(run.finish_status(), "completed");
    assert!(!run.cancelled());
}

#[test]
fn worker_stops_on_cancel_and_when_out_of_retries() {
    let mut run = WorkerRun::new(Some(3));
    run.begin_attempt();
    assert!(!run.record(Err(format!("yt-dlp: {CANCELLED_MARK}"))));
    assert!(run.cancelled());
    assert_eq!(run.finish_status(), "cancelled");

    let mut run = WorkerRun::new(None);
    run.begin_attempt();
    assert!(!run.record(Ok(vec![])));
    assert_eq!(run.last_error.as_deref(), Some(NO_DETAIL_ERROR));
    assert_eq!(run.finish_status(), "failed");
}

#[test]
fn downloader_cancel_reports_the_process() {
    let mut d = YtDlpDownloader::new("yt-dlp".to_string());
    d.begin_task("t1");
    assert!(!d.is_cancelled("t1"));
    d.record_pid("t1", 42);
    assert_eq!(d.cancel_task("t1"), Some(42));
    assert!(d.is_cancelled("t1"));
    assert_eq!(d.cancel_task("none"), None);
}

#[test]
fn child_registry_kills_what_is_left() {
    let mut r = ChildRegistry::new();
    r.register_child_pid(Some(1));
    r.register_child_pid(Some(2));
    r.register_child_pid(None);
    r.unregister_child_pid(Some(1));
    assert_eq!(r.kill_all_children(), vec![2]);
    assert!(r.kill_all_children().is_empty());
}

#[test]
fn child_registry_holds_each_pid_once() {
    let mut r = ChildRegistry::new();
    r.register_child_pid(Some(7));
    r.register_child_pid(Some(9));
    r.register_child_pid(Some(7));
    r.register_child_pid(Some(0));
    assert_eq!(r.kill_all_children(), vec![7, 9]);
}

#[test]
fn process_text_helpers() {
    assert_eq!(join_lines(&vec!["a".to_string(), "b".to_string()]), "a\nb");
    assert_eq!(strip_line_end("abc\r\n"), "abc");
    assert_eq!(strip_line_end("abc"), "abc");
}

#[test]
fn tool_lookup_order() {
    let root = "/app";
    let dirs = vec!["/usr/bin".to_string(), "/bin".to_string()];
    let local = std::path::Path::new(root).join("bin").join("yt-dlp").to_string_lossy().into_owned();
    assert_eq!(find_ytdlp(root, false, &dirs, |p: &String| *p == local), local);
    assert_eq!(find_ytdlp(root, false, &dirs, |p: &String| p == "/bin/yt-dlp"), "/bin/yt-dlp");
    assert_eq!(find_ytdlp(root, false, &dirs, |_p: &String| false), "yt-dlp");
    assert_eq!(find_ffmpeg(root, true, &dirs, |p: &String| p == "/usr/bin/ffmpeg"), "/usr/bin/ffmpeg");
    assert_eq!(find_ffmpeg(root, true, &dirs, |_p: &String| false), "ffmpeg");
}

#[test]
fn i18n_switches_language() {
    let mut t = I18n::new();
    assert_eq!(t.get_lang(), "zh");
    assert_eq!(t.get("tab.download"), "下载");
    let mut cfg = AppSettings::default();
    cfg.concurrency = Some(3);
    t.set_lang("en", &mut cfg);
    assert_eq!(t.get_lang(), "en");
    assert_eq!(cfg.lang.as_deref(), Some("en"));
    assert_eq!(cfg.concurrency, Some(3));
    assert_eq!(t.get("tab.download"), "Download");
    assert_eq!(t.get("no.such.key"), "no.such.key");
    t.set_lang("fr", &mut cfg);
    assert_eq!(t.get_lang(), "zh");
    assert_eq!(cfg.lang.as_deref(), Some("fr"));
}

#[test]
fn download_command_resumes_partial_files() {
    let d = YtDlpDownloader::new("yt-dlp".to_string());
    let base = vec!["yt-dlp".to_string(), "--no-warnings".to_string()];
    let mut c = cfg("https://x.com/a/status/1");
    c.format_id = "bestvideo+bestaudio/best".to_string();
    let cmd = d.download_command(&base, &c, "/out/.xdl_cache/t1", '/', None, None, "/tmp/p", "/tmp/m");
    assert!(!cmd.iter().any(|a| a == "--no-continue"));
    assert_eq!(cmd[2], "-f");
    assert_eq!(cmd[3], "bestvideo+bestaudio/best");
    assert_eq!(cmd[4], "-o");
    assert!(cmd[5].starts_with("/out/.xdl_cache/t1/"));
    assert_eq!(cmd[6], "--socket-timeout");
    assert_eq!(cmd.last().map(|s| s.as_str()), Some("https://x.com/a/status/1"));
}

#[test]
fn cache_sweep_keeps_recent_partial_downloads() {
    let now = 1_800_000_000;
    let day = 86_400;
    let entries = vec![
        CacheEntry { path: "c/old".to_string(), modified: now - 10 * day },
        CacheEntry { path: "c/recent".to_string(), modified: now - 3600 },
        CacheEntry { path: "c/edge".to_string(), modified: now - CACHE_MAX_AGE_SECS },
        CacheEntry { path: "c/just_over".to_string(), modified: now - CACHE_MAX_AGE_SECS - 1 },
    ];
    assert_eq!(
        YtDlpDownloader::cleanup_download_cache(&entries, now),
        vec!["c/old".to_string(), "c/just_over".to_string()]
    );
    assert!(YtDlpDownloader::cleanup_download_cache(&Vec::new(), now).is_empty());
    let dirs = YtDlpDownloader::cache_dirs(None, "/app");
    assert_eq!(dirs.len(), 2);
    assert!(dirs[0].ends_with(".xdl_cache"));
    assert!(dirs[1].ends_with("download_cache"));
}

#[test]
fn task_meta_is_read_once() {
    let mut d = YtDlpDownloader::new("yt-dlp".to_string());
    d.end_task("t9", Some("older\tline\nT\tNA\t\t454.601\t12\tNA\n"));
    let m = d.read_task_meta("t9").expect("meta captured");
    assert_eq!(m.title.as_deref(), Some("T"));
    assert_eq!(m.uploader, None);
    assert_eq!(m.thumbnail, None);
    assert_eq!(m.duration, Some(454));
    assert_eq!(m.view_count, Some(12));
    assert_eq!(m.like_count, None);
    assert!(d.read_task_meta("t9").is_none());
}

fn link(target: &str, title: &str) -> xdownload::deep_link::FetchedLink {
    xdownload::deep_link::FetchedLink {
        target: target.to_string(),
        video_id: Some(target.rsplit('/').next().unwrap_or("").to_string()),
        title: Some(title.to_string()),
        info: Some(format!("{{\"title\":\"{title}\"}}")),
    }
}

#[test]
fn deep_link_batch_queues_new_links_as_batch_tasks() {
    let mut q = DownloadQueue::new();
    q.enqueue(cfg("https://x.com/a/status/1"), None, None, 0).unwrap();
    let links = vec![
        link("https://x.com/a/status/1", "held"),
        link(" https://x.com/b/status/2 ", "two"),
        link("", "empty"),
        link("https://x.com/b/status/2", "dup"),
        link("https://x.com/c/status/3", "three"),
    ];
    let added = xdownload::deep_link::enqueue_deep_links(&mut q, links, "/dl", &Some("1M".to_string()));
    assert_eq!(added, 2);
    let st = q.status();
    assert_eq!(st.len(), 3);
    assert_eq!(st[1].url, "https://x.com/b/status/2");
    assert_eq!(st[1].title.as_deref(), Some("two"));
    assert_eq!(st[1].info.as_deref(), Some("{\"title\":\"two\"}"));
    assert_eq!(st[1].source, "batch");
    assert_eq!(st[2].title.as_deref(), Some("three"));
    assert_eq!(st[2].source, "batch");
}

#[test]
fn bookmark_confirm_queues_videos_as_bookmark_tasks() {
    let item = |id: &str, text: &str, has_video: bool| BookmarkItem {
        tweet_id: id.to_string(),
        handle: "h".to_string(),
        url: format!("https://x.com/h/status/{id}"),
        text: text.to_string(),
        author_name: "A".to_string(),
        has_video,
    };
    let mut q = DownloadQueue::new();
    let items = vec![item("1", "one", true), item("2", "text only", false), item("3", "three", true), item("1", "again", true)];
    let r = confirm_bookmark_enqueue(&mut q, &items, "/dl");
    assert_eq!(r.queued_count, 2);
    let st = q.status();
    assert_eq!(st.len(), 2);
    assert_eq!(st[0].title.as_deref(), Some("one"));
    assert_eq!(st[0].source, "bookmark");
    assert_eq!(st[0].info, None);
    assert_eq!(st[1].url, "https://x.com/h/status/3");
    assert_eq!(st[1].title.as_deref(), Some("three"));
}
