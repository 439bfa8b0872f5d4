use xdownload::downloader::parser::{parse_format, parse_video_json};
use xdownload::json::{Json, JsonNumber};
use xdownload::models::video_info::{Format, VideoInfo};
use xdownload::services::bookmarks::{extract_cursor, find_new_bookmarks, parse_bookmarks_response, parse_entry, BookmarkItem};

/// Builds the JSON model of a parsed document.
fn to_json(v: &serde_json::Value) -> Json {
    match v {
        serde_json::Value::Null => Json::Null,
        serde_json::Value::Bool(b) => Json::Bool(*b),
        serde_json::Value::Number(n) => {
            Json::Number(JsonNumber { int: n.as_i64(), whole: n.as_f64().unwrap_or(0.0) as i64 })
        }
        serde_json::Value::String(s) => Json::Str(s.clone()),
        serde_json::Value::Array(a) => Json::Array(a.iter().map(to_json).collect()),
        serde_json::Value::Object(o) => Json::Object(o.iter().map(|(k, x)| (k.clone(), to_json(x))).collect()),
    }
}

fn parse(body: &str) -> Result<Vec<BookmarkItem>, String> {
    let v: serde_json::Value = serde_json::from_str(body).expect("test bodies are JSON");
    parse_bookmarks_response(&to_json(&v))
}

fn real_response() -> String {
    r#"{
          "data": {
            "bookmark_timeline_v2": {
              "timeline": {
                "instructions": [
                  {
                    "type": "TimelineAddEntries",
                    "entries": [
                      {
                        "entryId": "tweet-1900000000000000001",
                        "content": {
                          "entryType": "TimelineTimelineItem",
                          "itemContent": {
                            "itemType": "TimelineTweet",
                            "tweet_results": {
                              "result": {
                                "__typename": "Tweet",
                                "rest_id": "1900000000000000001",
                                "core": {
                                  "user_results": {
                                    "result": {
                                      "__typename": "User",
                                      "rest_id": "12345",
                                      "core": {
                                        "screen_name": "prinsss",
                                        "name": "PriN"
                                      }
                                    }
                                  }
                                },
                                "legacy": {
                                  "full_text": "hello world video",
                                  "created_at": "Sat Aug 01 12:00:00 +0000 2026",
                                  "extended_entities": {
                                    "media": [
                                      {
                                        "id_str": "1999999999999999991",
                                        "media_url_https": "https://pbs.twimg.com/media/xyz.jpg",
                                        "type": "video",
                                        "video_info": {
                                          "variants": [
                                            {"bitrate": 1280000, "content_type": "video/mp4", "url": "https://video.twimg.com/.../vid.mp4"}
                                          ]
                                        }
                                      }
                                    ]
                                  }
                                }
                              }
                            }
                          }
                        }
                      },
                      {
                        "entryId": "tweet-1900000000000000002",
                        "content": {
                          "entryType": "TimelineTimelineItem",
                          "itemContent": {
                            "itemType": "TimelineTweet",
                            "tweet_results": {
                              "result": {
                                "__typename": "Tweet",
                                "rest_id": "1900000000000000002",
                                "core": {
                                  "user_results": {
                                    "result": {
                                      "legacy": {
                                        "screen_name": "github",
                                        "name": "GitHub"
                                      }
                                    }
                                  }
                                },
                                "legacy": {
                                  "full_text": "just a text tweet",
                                  "created_at": "Sat Aug 01 11:00:00 +0000 2026"
                                }
                              }
                            }
                          }
                        }
                      },
                      {
                        "entryId": "cursor-bottom-0-1",
                        "content": {
                          "entryType": "TimelineTimelineCursor",
                          "value": "DAABCgABGODx3_IAAA"
                        }
                      }
                    ]
                  }
                ]
              }
            }
          }
        }"#
    .to_string()
}

#[test]
fn parse_real_response_extracts_tweets() {
    let items = parse(&real_response()).expect("parse ok");
    assert_eq!(items.len(), 2);

    let video = &items[0];
    assert_eq!(video.tweet_id, "1900000000000000001");
    assert_eq!(video.handle, "prinsss");
    assert_eq!(video.author_name, "PriN");
    assert_eq!(video.url, "https://x.com/prinsss/status/1900000000000000001");
    assert_eq!(video.text, "hello world video");
    assert!(video.has_video, "media type=video should be detected");

    let text = &items[1];
    assert_eq!(text.handle, "github");
    assert_eq!(text.url, "https://x.com/github/status/1900000000000000002");
    assert!(!text.has_video, "text-only tweet has no video");
}

#[test]
fn extract_cursor_from_real_response() {
    let v: serde_json::Value = serde_json::from_str(&real_response()).unwrap();
    let cursor = extract_cursor(&to_json(&v)).expect("cursor present");
    assert_eq!(cursor, "DAABCgABGODx3_IAAA");
}

#[test]
fn extract_cursor_absent() {
    let v: serde_json::Value = serde_json::from_str(r#"{"data":{}}"#).unwrap();
    assert_eq!(extract_cursor(&to_json(&v)), None);
    let v: serde_json::Value = serde_json::from_str(
        r#"{"data":{"bookmark_timeline_v2":{"timeline":{"instructions":[{"entries":[{"content":{"entryType":"TimelineTimelineCursor","value":""}}]}]}}}}"#,
    )
    .unwrap();
    assert_eq!(extract_cursor(&to_json(&v)), None);
}

#[test]
fn parse_skips_null_result() {
    let body = r#"{
          "data": {
            "bookmark_timeline_v2": {
              "timeline": {
                "instructions": [
                  {
                    "type": "TimelineAddEntries",
                    "entries": [
                      {
                        "entryId": "tweet-1900000000000000003",
                        "content": {
                          "entryType": "TimelineTimelineItem",
                          "itemContent": {
                            "itemType": "TimelineTweet",
                            "tweet_results": {
                              "result": null
                            }
                          }
                        }
                      }
                    ]
                  }
                ]
              }
            }
          }
        }"#;
    let items = parse(body).expect("parse ok");
    assert!(items.is_empty(), "null result must be skipped");
}

#[test]
fn parse_real_response_without_type_field() {
    let body = r#"{
          "data": {
            "bookmark_timeline_v2": {
              "timeline": {
                "instructions": [
                  {
                    "entries": [
                      {
                        "entryId": "tweet-1900000000000000005",
                        "content": {
                          "entryType": "TimelineTimelineItem",
                          "itemContent": {
                            "itemType": "TimelineTweet",
                            "tweet_results": {
                              "result": {
                                "rest_id": "1900000000000000005",
                                "core": {
                                  "user_results": {
                                    "result": {
                                      "legacy": {
                                        "screen_name": "notype",
                                        "name": "No Type"
                                      }
                                    }
                                  }
                                },
                                "legacy": {
                                  "full_text": "instruction without type field"
                                }
                              }
                            }
                          }
                        }
                      }
                    ]
                  }
                ]
              }
            }
          }
        }"#;
    let items = parse(body).expect("parse ok");
    assert_eq!(items.len(), 1);
    assert_eq!(items[0].handle, "notype");
    assert_eq!(items[0].tweet_id, "1900000000000000005");
}

#[test]
fn parse_animated_gif_counts_as_video() {
    let body = r#"{
          "data": {
            "bookmark_timeline_v2": {
              "timeline": {
                "instructions": [
                  {
                    "type": "TimelineAddEntries",
                    "entries": [
                      {
                        "entryId": "tweet-1900000000000000004",
                        "content": {
                          "entryType": "TimelineTimelineItem",
                          "itemContent": {
                            "itemType": "TimelineTweet",
                            "tweet_results": {
                              "result": {
                                "rest_id": "1900000000000000004",
                                "core": {
                                  "user_results": {
                                    "result": {
                                      "legacy": {
                                        "screen_name": "gifbot",
                                        "name": "Gif Bot"
                                      }
                                    }
                                  }
                                },
                                "legacy": {
                                  "full_text": "an animated gif",
                                  "extended_entities": {
                                    "media": [
                                      {"type": "animated_gif"}
                                    ]
                                  }
                                }
                              }
                            }
                          }
                        }
                      }
                    ]
                  }
                ]
              }
            }
          }
        }"#;
    let items = parse(body).expect("parse ok");
    assert_eq!(items.len(), 1);
    assert!(items[0].has_video, "animated_gif counts as video");
}

#[test]
fn parse_missing_instructions_returns_err() {
    let err = parse(r#"{"data":{}}"#).expect_err("should fail");
    assert!(err.contains("missing"), "err: {err}");
}

#[test]
fn parse_graphql_errors_query_id_expired_hint() {
    let body = r#"{"errors":[{"message":"Could not find query with name 'j5KExFXtSWj8HjRui17ydA'","code":-1,"kind":"other"}]}"#;
    let err = parse(body).expect_err("should fail");
    assert!(err.contains("queryId 已失效"), "err: {err}");
    assert!(err.contains("Could not find"), "err: {err}");
}

#[test]
fn parse_graphql_errors_generic_hint() {
    let body = r#"{"errors":[{"message":"unauthorized","code":64}]}"#;
    let err = parse(body).expect_err("should fail");
    assert!(err.contains("书签接口返回错误"), "err: {err}");
    assert!(err.contains("unauthorized"), "err: {err}");
    assert!(!err.contains("queryId"), "err: {err}");
}

#[test]
fn parse_graphql_errors_joined_or_unknown() {
    let err = parse(r#"{"errors":[{"message":"a"},{"code":1},{"message":"b"}]}"#).expect_err("should fail");
    assert_eq!(err, "书签接口返回错误: a; b");
    let err = parse(r#"{"errors":[{"code":1}]}"#).expect_err("should fail");
    assert_eq!(err, "书签接口返回错误: unknown GraphQL error");
    // An empty errors array is no error.
    assert!(parse(r#"{"errors":[],"data":{"bookmark_timeline_v2":{"timeline":{"instructions":[]}}}}"#).unwrap().is_empty());
}

#[test]
fn parse_entry_reads_integer_ids() {
    let v: serde_json::Value = serde_json::from_str(
        r#"{"content":{"itemContent":{"tweet_results":{"result":{"rest_id":42}}}}}"#,
    )
    .unwrap();
    let it = parse_entry(&to_json(&v)).expect("tweet");
    assert_eq!(it.tweet_id, "42");
    assert_eq!(it.handle, "");
    assert_eq!(it.url, "https://x.com//status/42");
    let v: serde_json::Value = serde_json::from_str(r#"{"content":{"entryType":"TimelineTimelineCursor"}}"#).unwrap();
    assert!(parse_entry(&to_json(&v)).is_none());
}

#[test]
fn find_new_bookmarks_incremental() {
    let mut previous = vec!["1900000000000000001".to_string()];
    let items = parse(&real_response()).expect("parse ok");
    let fresh = find_new_bookmarks(&previous, &items);
    assert_eq!(fresh.len(), 1);
    assert_eq!(fresh[0].tweet_id, "1900000000000000002");
    previous.push("1900000000000000002".to_string());
    let fresh2 = find_new_bookmarks(&previous, &items);
    assert!(fresh2.is_empty());
}

#[test]
fn find_new_bookmarks_empty_previous_returns_all() {
    let items = parse(&real_response()).expect("parse ok");
    let fresh = find_new_bookmarks(&Vec::new(), &items);
    assert_eq!(fresh.len(), 2);
}

// ---- yt-dlp video information ----

fn doc(text: &str) -> Json {
    let v: serde_json::Value = serde_json::from_str(text).expect("test documents are JSON");
    to_json(&v)
}

#[test]
fn test_parse_basic() {
    let json = r#"{
        "id": "123456",
        "webpage_url": "https://x.com/user/status/123456",
        "title": "Hello World",
        "description": "A test video",
        "duration": 65.5,
        "thumbnail": "https://pbs.twimg.com/x.jpg",
        "uploader": "user",
        "view_count": 1000,
        "like_count": 42
    }"#;
    let info = parse_video_json(&doc(json));
    assert_eq!(info.id, "123456");
    assert_eq!(info.title.as_deref(), Some("Hello World"));
    assert_eq!(info.description.as_deref(), Some("A test video"));
    assert_eq!(info.duration, 65);
    assert_eq!(info.uploader.as_deref(), Some("user"));
    assert_eq!(info.view_count, 1000);
    assert_eq!(info.like_count, 42);
    assert!(info.formats.is_empty());
    assert_eq!(info.media_count, 1);
    assert!(!info.downloaded);
}

#[test]
fn test_parse_url_fallbacks() {
    let info = parse_video_json(&doc(r#"{"id": "1", "original_url": "https://x.com/a/status/1"}"#));
    assert_eq!(info.url, "https://x.com/a/status/1");
    let info = parse_video_json(&doc(r#"{"id": "1", "url": "https://twitter.com/b"}"#));
    assert_eq!(info.url, "https://twitter.com/b");
}

#[test]
fn test_parse_duration_variants() {
    let info = parse_video_json(&doc(r#"{"id": "1", "duration": 90}"#));
    assert_eq!(info.duration, 90);
    let info = parse_video_json(&doc(r#"{"id": "1"}"#));
    assert_eq!(info.duration, 0);
}

#[test]
fn test_parse_formats() {
    let json = r#"{
        "id": "1",
        "formats": [
            {"format_id": "18", "ext": "mp4", "vcodec": "h264", "acodec": "mp4a", "width": 640, "height": 360, "filesize": 1000},
            {"id": "248", "ext": "webm", "vcodec": "vp9", "acodec": "none", "resolution": "1920x1080"},
            {"ext": "mp4"}
        ]
    }"#;
    let info = parse_video_json(&doc(json));
    assert_eq!(info.formats.len(), 2, "format without id should be skipped");
    assert_eq!(info.formats[0].format_id, "18");
    assert_eq!(info.formats[0].width, Some(640));
    assert_eq!(info.formats[0].acodec.as_deref(), Some("mp4a"));
    assert_eq!(info.formats[1].format_id, "248");
    assert_eq!(info.formats[1].resolution.as_deref(), Some("1920x1080"));
}

#[test]
fn empty_document_reads_as_empty_info() {
    let info = parse_video_json(&doc("{}"));
    assert_eq!(info.id, "");
    assert_eq!(info.url, "");
}

#[test]
fn test_parse_format_rejects_empty_id() {
    assert!(parse_format(&doc(r#"{"ext": "mp4"}"#)).is_none());
    assert!(parse_format(&doc(r#"{"format_id": "?"}"#)).is_none());
    let f = parse_format(&doc(r#"{"format_id": "137", "vcodec": "h264"}"#)).unwrap();
    assert_eq!(f.format_id, "137");
}

fn fmt(id: &str, v: Option<&str>, a: Option<&str>, height: Option<i32>) -> Format {
    Format {
        format_id: id.to_string(),
        ext: None,
        resolution: None,
        width: None,
        height,
        filesize: None,
        filesize_approx: None,
        vcodec: v.map(|s| s.to_string()),
        acodec: a.map(|s| s.to_string()),
        format_note: None,
    }
}

fn info_with(formats: Vec<Format>) -> VideoInfo {
    let mut info = parse_video_json(&doc("{}"));
    info.formats = formats;
    info
}

#[test]
fn best_format_prefers_audio_then_height() {
    let info = info_with(vec![
        fmt("v1080", Some("vp9"), Some("none"), Some(1080)),
        fmt("av360", Some("h264"), Some("mp4a"), Some(360)),
        fmt("av360b", Some("h264"), Some("mp4a"), Some(360)),
        fmt("a", Some("none"), Some("opus"), None),
    ]);
    // 360 + 1000 beats 1080; of equal scores the last wins.
    assert_eq!(info.get_best_format().unwrap().format_id, "av360b");
    assert!(info_with(vec![]).get_best_format().is_none());
    assert!(fmt("x", Some(""), None, None).has_video() == false);
}

#[test]
fn format_by_height_limits_and_needs_both_streams() {
    let info = info_with(vec![
        fmt("av720", Some("h264"), Some("mp4a"), Some(720)),
        fmt("av480", Some("h264"), Some("mp4a"), Some(480)),
        fmt("v360", Some("h264"), None, Some(360)),
        fmt("avunknown", Some("h264"), Some("mp4a"), None),
    ]);
    assert_eq!(info.get_format_by_height(600).unwrap().format_id, "av480");
    assert_eq!(info.get_format_by_height(720).unwrap().format_id, "av720");
    assert!(info.get_format_by_height(100).is_none());
    assert_eq!(info.get_format_by_height(10000).unwrap().format_id, "av720");
    let mut f = fmt("s", None, None, None);
    f.filesize_approx = Some(7);
    assert_eq!(f.file_size(), 7);
    f.filesize = Some(9);
    assert_eq!(f.file_size(), 9);
}
