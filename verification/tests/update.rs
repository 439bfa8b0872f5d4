use xdownload::commands::update::{
    cmp_semver, decide_has_update, ffmpeg_remote_cache_fresh, parse_ffmpeg_version,
    parse_ffmpeg_version_export, save_ffmpeg_remote_cache, tag_from_release_url,
    ytdlp_update_verdict, RELEASE_LAG_TOLERANCE_SECS, asset_time_from_header, ffmpeg_verdict,
    published_at_from_html, release_asset_time, GithubAsset, GithubRelease, FFMPEG_ASSET_NAME,
};

#[test]
fn decide_no_update_when_installed_after_release() {
    let asset_at = 1_789_999_961;
    let stale_mtime = asset_at - 2_947;
    let installed_at = asset_at + 15_000;
    assert!(!decide_has_update(None, None, Some(asset_at), Some(installed_at), Some(stale_mtime)));
}

#[test]
fn decide_no_update_within_release_lag_tolerance() {
    let asset_at = 1_789_999_961;
    let mtime = asset_at - 2_947;
    assert!(!decide_has_update(None, None, Some(asset_at), None, Some(mtime)));
}

#[test]
fn decide_update_when_local_is_old() {
    let asset_at = 1_789_999_961;
    let mtime = asset_at - RELEASE_LAG_TOLERANCE_SECS - 60;
    assert!(decide_has_update(None, None, Some(asset_at), None, Some(mtime)));
}

#[test]
fn decide_by_etag() {
    assert!(!decide_has_update(Some("W/\"abc\""), Some("W/\"abc\""), None, None, None));
    assert!(decide_has_update(Some("W/\"def\""), Some("W/\"abc\""), None, None, None));
}

#[test]
fn decide_no_update_without_remote_info() {
    assert!(!decide_has_update(None, None, None, Some(1), Some(2)));
    assert!(!decide_has_update(None, Some("W/\"abc\""), None, None, None));
}

#[test]
fn test_parse_ffmpeg_version() {
    assert_eq!(
        parse_ffmpeg_version(
            "ffmpeg version 7.1-essentials_build-www.gyan.dev Copyright (c) 2000-2024"
        )
        .as_deref(),
        Some("7.1")
    );
    assert_eq!(
        parse_ffmpeg_version(
            "ffmpeg version N-118075-g2424a3f01c-20250101 Copyright (c) 2000-2025 the FFmpeg developers"
        )
        .as_deref(),
        Some("N-118075")
    );
    assert_eq!(
        parse_ffmpeg_version("ffmpeg version 8.1 Copyright (c) 2000-2025 the FFmpeg developers")
            .as_deref(),
        Some("8.1")
    );
    assert_eq!(parse_ffmpeg_version("no version here"), None);
    assert_eq!(parse_ffmpeg_version("ffmpeg version N- Copyright (c) 2000-2025").as_deref(), None);
}

#[test]
fn test_cmp_semver() {
    assert_eq!(cmp_semver("7.1", "7.0"), 1);
    assert_eq!(cmp_semver("8.1", "7.1"), 1);
    assert_eq!(cmp_semver("7.1", "7.1"), 0);
    assert_eq!(cmp_semver("7.0", "7.1"), -1);
    assert_eq!(cmp_semver("N-118075", "8.1"), -1);
}

#[test]
fn semver_pads_missing_components_and_skips_junk() {
    assert_eq!(cmp_semver("1.0.0", "1"), 0);
    assert_eq!(cmp_semver("2025.10.22", "2025.9.30"), 1);
    assert_eq!(cmp_semver("1.x.2", "1.2"), 0);
}

#[test]
fn export_matches_parser() {
    assert_eq!(parse_ffmpeg_version_export("ffmpeg version 6.0 x").as_deref(), Some("6.0"));
}

#[test]
fn cache_freshness() {
    assert!(ffmpeg_remote_cache_fresh(Some("1000"), 1500, 86400));
    assert!(!ffmpeg_remote_cache_fresh(Some("1000"), 1000 + 86400, 86400));
    assert!(!ffmpeg_remote_cache_fresh(Some("abc"), 1500, 86400));
    assert!(!ffmpeg_remote_cache_fresh(None, 1500, 86400));
}

#[test]
fn cache_entries_written() {
    let e = save_ffmpeg_remote_cache("at", "fetched", None, -42);
    assert_eq!(e, vec![("fetched".to_string(), "-42".to_string()), ("at".to_string(), String::new())]);
    let e = save_ffmpeg_remote_cache("at", "fetched", Some("2026-01-01T00:00:00Z"), 7);
    assert_eq!(e[1].1, "2026-01-01T00:00:00Z");
}

#[test]
fn release_tags() {
    assert_eq!(
        tag_from_release_url("https://github.com/yt-dlp/yt-dlp/releases/tag/2025.10.22").as_deref(),
        Some("2025.10.22")
    );
    assert_eq!(tag_from_release_url("https://github.com/o/r/releases/tag/v1.2").as_deref(), Some("1.2"));
    assert_eq!(tag_from_release_url("https://github.com/o/r/releases/"), None);
    let (latest, newer) = ytdlp_update_verdict("v2025.10.22", "2025.09.05");
    assert_eq!(latest, "2025.10.22");
    assert!(newer);
    let (_, newer) = ytdlp_update_verdict("2025.09.05", "2025.09.05");
    assert!(!newer);
}

#[test]
fn ffmpeg_verdict_by_etag() {
    let at = Some("2026-09-21T14:12:41+00:00");
    let v = ffmpeg_verdict(at, Some("e1"), Some("e1"), None, None);
    assert!(!v.has_update && v.up_to_date && v.latest.is_none());
    let v = ffmpeg_verdict(at, Some("e2"), Some("e1"), None, None);
    assert!(v.has_update && !v.up_to_date);
    assert_eq!(v.latest.as_deref(), Some("2026-09-21"));
}

#[test]
fn ffmpeg_verdict_by_time() {
    let at = Some("2026-09-21T14:12:41+00:00");
    let v = ffmpeg_verdict(at, Some("e2"), None, Some(0), None);
    assert!(v.has_update && !v.up_to_date);
    assert_eq!(v.latest.as_deref(), Some("2026-09-21"));
    let v = ffmpeg_verdict(at, None, None, Some(4_000_000_000), None);
    assert!(!v.has_update && v.up_to_date && v.latest.is_none());
    // Unknown remote time: not confirmed up to date either.
    let v = ffmpeg_verdict(Some("not a date"), None, None, Some(0), None);
    assert!(!v.has_update && !v.up_to_date);
    let v = ffmpeg_verdict(None, None, None, None, Some(0));
    assert!(!v.has_update && !v.up_to_date);
}

#[test]
fn http_date_becomes_rfc3339() {
    assert_eq!(
        asset_time_from_header(Some("Mon, 21 Sep 2026 14:12:41 GMT")).as_deref(),
        Some("2026-09-21T14:12:41+00:00")
    );
    assert_eq!(asset_time_from_header(Some("not a date")), None);
    assert_eq!(asset_time_from_header(None), None);
}

#[test]
fn published_at_is_read_from_the_first_datetime_attribute() {
    let html = r#"<div><relative-time datetime="2026-08-16T09:30:00Z">Aug 16</relative-time>
        <relative-time datetime="2020-01-01T00:00:00Z"></relative-time></div>"#;
    assert_eq!(published_at_from_html(html), Some("2026-08-16T09:30:00Z".to_string()));
    assert_eq!(published_at_from_html("<p>no time here</p>"), None);
    assert_eq!(published_at_from_html(r#"<x datetime="">"#), None);
    assert_eq!(published_at_from_html(r#"<x datetime="2026"#), None);
}

fn asset(name: &str, updated_at: Option<&str>) -> GithubAsset {
    GithubAsset {
        name: name.to_string(),
        browser_download_url: format!("https://example.com/{name}"),
        updated_at: updated_at.map(|s| s.to_string()),
    }
}

#[test]
fn release_asset_time_prefers_the_named_asset() {
    let mut release = GithubRelease {
        tag_name: "latest".to_string(),
        html_url: "https://github.com/BtbN/FFmpeg-Builds/releases/tag/latest".to_string(),
        assets: vec![
            asset("ffmpeg-master-latest-linux64-gpl.tar.xz", Some("2026-01-01T00:00:00Z")),
            asset(FFMPEG_ASSET_NAME, Some("2026-02-02T00:00:00Z")),
        ],
        published_at: Some("2026-03-03T00:00:00Z".to_string()),
    };
    assert_eq!(release_asset_time(&release, FFMPEG_ASSET_NAME), Some("2026-02-02T00:00:00Z".to_string()));
    release.assets[1].updated_at = None;
    assert_eq!(release_asset_time(&release, FFMPEG_ASSET_NAME), Some("2026-03-03T00:00:00Z".to_string()));
    release.assets.truncate(1);
    release.published_at = None;
    assert_eq!(release_asset_time(&release, FFMPEG_ASSET_NAME), None);
}
