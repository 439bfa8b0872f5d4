use xdownload::services::bookmarks::urlencode;
use xdownload::deep_link::{parse_deep_link_url, parse_query_id_deep_link, percent_decode_str};
use xdownload::services::query_id::is_valid_query_id;
use xdownload::utils::url::{extract_status_id, history_key};

#[test]
fn test_parse_deep_link_standard() {
    let target = parse_deep_link_url(
        "xdownload://add?url=https%3A%2F%2Fx.com%2Fuser%2Fstatus%2F123%2Fvideo%2F1",
    );
    assert_eq!(target.as_deref(), Some("https://x.com/user/status/123/video/1"));
}

#[test]
fn test_parse_deep_link_trailing_slash_host() {
    let target = parse_deep_link_url("xdownload://add/?url=https%3A%2F%2Ftwitter.com%2Fa");
    assert_eq!(target.as_deref(), Some("https://twitter.com/a"));
}

#[test]
fn test_parse_deep_link_rejects_bad_host() {
    assert_eq!(parse_deep_link_url("xdownload://other?url=https://x.com/a"), None);
    assert_eq!(parse_deep_link_url("xdownload://add"), None);
    assert_eq!(parse_deep_link_url("https://x.com/a"), None);
    assert_eq!(parse_deep_link_url(""), None);
}

#[test]
fn test_parse_deep_link_missing_url_param() {
    assert_eq!(parse_deep_link_url("xdownload://add?foo=bar"), None);
}

#[test]
fn test_parse_query_id_deep_link() {
    let v = parse_query_id_deep_link("xdownload://setqueryid?value=iblrFnKr6PZUR-dWpfXG6g");
    assert_eq!(v.as_deref(), Some("iblrFnKr6PZUR-dWpfXG6g"));
    let v = parse_query_id_deep_link("xdownload://setqueryid?value=%69blrFnKr6PZUR-dWpfXG6g");
    assert_eq!(v.as_deref(), Some("iblrFnKr6PZUR-dWpfXG6g"));
    let v = parse_query_id_deep_link("xdownload://setqueryid/?value=abc123_-");
    assert_eq!(v.as_deref(), Some("abc123_-"));
    assert_eq!(parse_query_id_deep_link("xdownload://add?url=https://x.com/a"), None);
    assert_eq!(parse_query_id_deep_link("xdownload://setqueryid?foo=bar"), None);
    assert_eq!(parse_query_id_deep_link("xdownload://setqueryid"), None);
    assert_eq!(parse_query_id_deep_link("xdownload://setqueryid?value=has%20space"), None);
    assert_eq!(parse_query_id_deep_link("xdownload://setqueryid?value=%E6%88%91"), None);
    let long = format!("xdownload://setqueryid?value={}", "a".repeat(65));
    assert_eq!(parse_query_id_deep_link(&long), None);
}

#[test]
fn test_percent_decode_str() {
    assert_eq!(percent_decode_str("abc"), "abc");
    assert_eq!(percent_decode_str("a%20b"), "a b");
    assert_eq!(percent_decode_str("%3A%2F%2F"), "://");
    assert_eq!(percent_decode_str("%E6%88%91"), "我");
    assert_eq!(percent_decode_str("%2f%2F"), "//");
    assert_eq!(percent_decode_str("%"), "%");
    assert_eq!(percent_decode_str("%GG"), "%GG");
}

#[test]
fn deep_link_pair_without_equals_rejects_link() {
    assert_eq!(parse_deep_link_url("xdownload://add?url=a&flag"), None);
    assert_eq!(parse_deep_link_url("xdownload://add?url=a&url=b").as_deref(), Some("b"));
}

#[test]
fn query_id_shape() {
    assert!(is_valid_query_id("abc-_9xY"));
    assert!(is_valid_query_id("iblrFnKr6PZUR-dWpfXG6g"));
    assert!(!is_valid_query_id(""));
    assert!(!is_valid_query_id("abc"));
    assert!(!is_valid_query_id("abc-_9x"));
    assert!(is_valid_query_id(&"a".repeat(60)));
    assert!(!is_valid_query_id(&"a".repeat(61)));
    assert!(!is_valid_query_id(&"a".repeat(65)));
    assert!(!is_valid_query_id("a.b"));
}

#[test]
fn extract_status_id_variants() {
    assert_eq!(
        extract_status_id("https://x.com/user/status/1234567890123456789/video/1"),
        Some("1234567890123456789".to_string())
    );
    assert_eq!(extract_status_id("https://twitter.com/a/status/42"), Some("42".to_string()));
    assert_eq!(
        extract_status_id("https://mobile.twitter.com/a/status/7?lang=zh"),
        Some("7".to_string())
    );
    assert_eq!(extract_status_id("https://x.com/user"), None);
    assert_eq!(extract_status_id(""), None);
}

#[test]
fn history_key_prefers_status_id() {
    assert_eq!(history_key("https://x.com/a/status/900", Some("700")).as_deref(), Some("900"));
    assert_eq!(history_key("https://x.com/a/status/900", None).as_deref(), Some("900"));
}

#[test]
fn history_key_falls_back_when_no_status_id() {
    assert_eq!(history_key("https://x.com/home", Some("700")).as_deref(), Some("700"));
    assert_eq!(history_key("https://x.com/home", Some("")), None);
    assert_eq!(history_key("https://x.com/home", None), None);
}

#[test]
fn percent_decoding_undoes_urlencode() {
    for s in ["", "plain", "a b&c=d", "100% 我的书签", "{\"count\":20}", "~-._", "%41"] {
        assert_eq!(percent_decode_str(&urlencode(s)), s);
    }
}
