//! X bookmarks sync: the authentication cookies, the bookmark items, the
//! diff against the download history and the queuing of chosen videos.
use vstd::prelude::*;
use crate::downloader::queue::{DownloadQueue, QueueView, QueuedTask, wf, holds_url, url_of, lemma_holds_after_push};
use crate::models::config::{DownloadConfig, copy_opt, default_format, default_output_template, spec_default_format, spec_default_output_template};
use crate::services::download_history::{DownloadRecord, SOURCE_BOOKMARK};
use crate::deep_link::{first_occurrences, lemma_first_occurrences_contains};
use crate::text::{views, trim, split, lowercase, to_lowercase, contains, contains_exec, chars_of, push_str, push_char, starts_with, starts_with_exec, trim_end_char, string_of, copy_str, strs, str_eq, string_of_range};
use crate::pattern::{captures, captures_all, group, group_text, regex_captures, regex_captures_all, match_spans, regex_spans, byte_range, str_byte_range, Span, spans_view, span_of};
use crate::deep_link::trim_end_char_exec;
use crate::json::{json_quote, json_quoted, Json, JsonNumber, json_get, json_pointer, json_str, json_array};
use crate::numbers::{dec_int, i64_to_string};
use crate::utils::process::{joined, join_with};
use crate::numbers::{dec, u64_to_string};
use vstd::utf8::encode_utf8;

verus! {

broadcast use vstd::string::group_string_axioms;

/// The cookies the Bookmarks endpoint needs.
#[derive(Debug, Clone)]
pub struct BookmarkAuth {
    /// The `auth_token` session cookie of x.com.
    pub auth_token: String,
    /// The `ct0` cookie, also sent as the CSRF token.
    pub ct0: String,
}

impl Default for BookmarkAuth {
    fn default() -> (r: Self)
        ensures
            r.auth_token@.len() == 0,
            r.ct0@.len() == 0,
    {
        BookmarkAuth { auth_token: String::new(), ct0: String::new() }
    }
}

impl BookmarkAuth {
    /// Whether both cookies are present.
    pub fn is_complete(&self) -> (r: bool)
        ensures
            r == (self.auth_token@.len() > 0 && self.ct0@.len() > 0),
    {
        chars_of(self.auth_token.as_str()).len() > 0 && chars_of(self.ct0.as_str()).len() > 0
    }

    /// The `Cookie` header: `auth_token=<a>; ct0=<c>`.
    pub fn cookie_header(&self) -> (r: String)
        ensures
            r@ == "auth_token="@ + self.auth_token@ + "; ct0="@ + self.ct0@,
    {
        let mut s = "auth_token=".to_string();
        push_str(&mut s, self.auth_token.as_str());
        push_str(&mut s, "; ct0=");
        push_str(&mut s, self.ct0.as_str());
        s
    }
}

// ==================== Cookie file ====================

/// A domain whose cookies count as x.com's.
pub open spec fn is_x_domain(d: Seq<char>) -> bool {
    d == ".x.com"@ || d == "x.com"@ || d == ".twitter.com"@ || d == "twitter.com"@
}

/// The value of cookie `name` on a line of a Netscape cookie file: a
/// trimmed, non-comment line of at least seven tab-separated fields whose
/// domain is x.com's and whose name field is `name`, when the value is not
/// empty.
pub open spec fn x_cookie_on_line(line: Seq<char>, name: Seq<char>) -> Option<Seq<char>> {
    let l = trim(line);
    if l.len() == 0 || l[0] == '#' {
        None
    } else {
        let f = split(l, '\t');
        if f.len() >= 7 && is_x_domain(f[0]) && f[5] == name && f[6].len() > 0 {
            Some(f[6])
        } else {
            None
        }
    }
}

/// The first non-empty value of cookie `name` among the lines from index `i`.
pub open spec fn first_x_cookie(lines: Seq<Seq<char>>, name: Seq<char>, i: int) -> Option<Seq<char>>
    decreases lines.len() - i,
{
    if i < 0 || i >= lines.len() {
        None
    } else if x_cookie_on_line(lines[i], name) is Some {
        x_cookie_on_line(lines[i], name)
    } else {
        first_x_cookie(lines, name, i + 1)
    }
}

/// The error for a cookie file without x.com's `auth_token`.
pub open spec fn spec_missing_auth_token() -> Seq<char> {
    "未在浏览器 cookies 中找到 x.com 的 auth_token，请确保已在浏览器中登录 x.com"@
}

/// The error for a cookie file without x.com's `ct0`.
pub open spec fn spec_missing_ct0() -> Seq<char> {
    "未在浏览器 cookies 中找到 x.com 的 ct0（CSRF token），请刷新 x.com 页面后重试"@
}

fn x_cookie_on_line_exec(line: &Vec<char>, name: &Vec<char>) -> (r: Option<String>)
    ensures
        match r {
            Some(t) => x_cookie_on_line(line@, name@) == Some(t@),
            None => x_cookie_on_line(line@, name@) is None,
        },
{
    let l = crate::text::trim_exec(line);
    if l.len() == 0 || l[0] == '#' {
        return None;
    }
    let f = crate::text::split_exec(&l, '\t');
    let ghost fv = split(l@, '\t');
    proof {
        assert(f@.len() == fv.len());
    }
    if f.len() >= 7 {
        proof {
            assert forall|k: int| 0 <= k < 7 implies f@[k]@ == fv[k] by {
                assert(f@.map_values(|v: Vec<char>| v@)[k] == f@[k]@);
            }
        }
        let d = &f[0];
        let x_domain = crate::text::chars_eq(d, &chars_of(".x.com")) || crate::text::chars_eq(d, &chars_of("x.com"))
            || crate::text::chars_eq(d, &chars_of(".twitter.com")) || crate::text::chars_eq(d, &chars_of("twitter.com"));
        if x_domain && crate::text::chars_eq(&f[5], name) && f[6].len() > 0 {
            return Some(string_of(&f[6]));
        }
    }
    None
}

fn first_x_cookie_exec(lines: &Vec<Vec<char>>, name: &str) -> (r: Option<String>)
    ensures
        match r {
            Some(t) => first_x_cookie(lines@.map_values(|v: Vec<char>| v@), name@, 0) == Some(t@),
            None => first_x_cookie(lines@.map_values(|v: Vec<char>| v@), name@, 0) is None,
        },
{
    let n = chars_of(name);
    let ghost ls = lines@.map_values(|v: Vec<char>| v@);
    let mut i: usize = 0;
    while i < lines.len()
        invariant
            i <= lines@.len(),
            ls == lines@.map_values(|v: Vec<char>| v@),
            n@ == name@,
            first_x_cookie(ls, name@, i as int) == first_x_cookie(ls, name@, 0),
        decreases lines@.len() - i,
    {
        proof {
            assert(ls[i as int] == lines@[i as int]@);
        }
        match x_cookie_on_line_exec(&lines[i], &n) {
            Some(t) => {
                return Some(t);
            },
            None => {},
        }
        i = i + 1;
    }
    None
}

/// The yt-dlp command that dumps `browser`'s cookies into `cookie_file` by
/// visiting x.com's home page without downloading, with the application
/// proxy appended when one is set.
pub open spec fn spec_bookmark_dump_command(
    ytdlp: Seq<char>,
    browser: Seq<char>,
    cookie_file: Seq<char>,
    proxy_url: Option<Seq<char>>,
) -> Seq<Seq<char>> {
    seq![
        ytdlp,
        "--cookies-from-browser"@,
        browser,
        "--cookies"@,
        cookie_file,
        "--no-warnings"@,
        "--no-color"@,
        "--skip-download"@,
        "--flat-playlist"@,
        "https://x.com/home"@,
    ] + match proxy_url {
        Some(p) => seq!["--proxy"@, p],
        None => Seq::empty(),
    }
}

pub fn bookmark_dump_command(ytdlp: &str, browser: &str, cookie_file: &str, proxy_url: Option<&str>) -> (r: Vec<String>)
    ensures
        views(r@) == spec_bookmark_dump_command(ytdlp@, browser@, cookie_file@, match proxy_url {
            Some(p) => Some(p@),
            None => None,
        }),
{
    let mut args: Vec<String> = Vec::new();
    crate::text::push_arg(&mut args, ytdlp);
    crate::text::push_arg(&mut args, "--cookies-from-browser");
    crate::text::push_arg(&mut args, browser);
    crate::text::push_arg(&mut args, "--cookies");
    crate::text::push_arg(&mut args, cookie_file);
    crate::text::push_arg(&mut args, "--no-warnings");
    crate::text::push_arg(&mut args, "--no-color");
    crate::text::push_arg(&mut args, "--skip-download");
    crate::text::push_arg(&mut args, "--flat-playlist");
    crate::text::push_arg(&mut args, "https://x.com/home");
    match proxy_url {
        Some(p) => {
            crate::text::push_arg(&mut args, "--proxy");
            crate::text::push_arg(&mut args, p);
        },
        None => {},
    }
    proof {
        assert(views(args@) =~= spec_bookmark_dump_command(ytdlp@, browser@, cookie_file@, match proxy_url {
            Some(p) => Some(p@),
            None => None,
        }));
    }
    args
}

/// Reads x.com's `auth_token` and `ct0` from the text of a Netscape cookie
/// file: for each, the first non-empty value on a line of an x.com or
/// twitter.com domain. Fails, naming the cookie, when either is missing
/// (`auth_token` is checked first).
pub fn parse_x_cookies(content: &str) -> (r: Result<BookmarkAuth, String>)
    ensures
        ({
            let ls = split(content@, '\n');
            match r {
                Ok(a) => first_x_cookie(ls, "auth_token"@, 0) == Some(a.auth_token@)
                    && first_x_cookie(ls, "ct0"@, 0) == Some(a.ct0@),
                Err(e) => (first_x_cookie(ls, "auth_token"@, 0) is None && e@ == spec_missing_auth_token())
                    || (first_x_cookie(ls, "auth_token"@, 0) is Some && first_x_cookie(ls, "ct0"@, 0) is None
                    && e@ == spec_missing_ct0()),
            }
        }),
{
    let lines = crate::text::split_exec(&chars_of(content), '\n');
    let auth = first_x_cookie_exec(&lines, "auth_token");
    let ct0 = first_x_cookie_exec(&lines, "ct0");
    match auth {
        None => Err("未在浏览器 cookies 中找到 x.com 的 auth_token，请确保已在浏览器中登录 x.com".to_string()),
        Some(auth_token) => match ct0 {
            None => Err("未在浏览器 cookies 中找到 x.com 的 ct0（CSRF token），请刷新 x.com 页面后重试".to_string()),
            Some(ct0) => Ok(BookmarkAuth { auth_token, ct0 }),
        },
    }
}

/// One bookmarked tweet.
#[derive(Debug, Clone, PartialEq, Eq)]
pub struct BookmarkItem {
    /// The tweet id (rest_id).
    pub tweet_id: String,
    /// The author's handle, without '@'.
    pub handle: String,
    /// The status URL, e.g. `https://x.com/user/status/123`.
    pub url: String,
    /// The tweet text.
    pub text: String,
    /// The author's display name.
    pub author_name: String,
    /// Whether the tweet holds a video or an animated GIF.
    pub has_video: bool,
}

impl BookmarkItem {
    /// A field-by-field copy.
    pub fn copy(&self) -> (r: Self)
        ensures
            r == *self,
    {
        BookmarkItem {
            tweet_id: self.tweet_id.clone(),
            handle: self.handle.clone(),
            url: self.url.clone(),
            text: self.text.clone(),
            author_name: self.author_name.clone(),
            has_video: self.has_video,
        }
    }
}

/// One page of results from the Bookmarks endpoint.
#[derive(Debug, Clone)]
pub struct BookmarkPage {
    pub items: Vec<BookmarkItem>,
    /// The next page's cursor; `None` on the last page.
    pub next_cursor: Option<String>,
    /// The HTTP status code.
    pub status: u16,
}

/// A bookmarked video offered by a sync preview, with its download state.
#[derive(Debug, Clone)]
pub struct BookmarkVideo {
    pub item: BookmarkItem,
    /// Downloaded, and the file is still on disk.
    pub downloaded: bool,
}

/// What a sync would find, before anything is queued.
#[derive(Debug, Clone)]
pub struct BookmarkChanges {
    /// Bookmarks currently on X.
    pub total: usize,
    /// Bookmarks never processed before.
    pub new_count: usize,
    /// Every bookmark with a video, with its download state.
    pub video_items: Vec<BookmarkVideo>,
}

/// How many chosen videos were queued.
#[derive(Debug, Clone, Copy)]
pub struct ConfirmResult {
    pub queued_count: usize,
}

/// The phase of a bookmark sync, shown as a progress step.
#[derive(Debug, Clone, Copy, PartialEq, Eq, Structural)]
pub enum BookmarkSyncStep {
    /// Reading the browser's x.com cookies.
    Cookies,
    /// Fetching the bookmark list.
    Fetch,
    /// Storing the fetched bookmarks.
    Persist,
    /// Comparing with the download history.
    Diff,
}

// ==================== Diff ====================

/// The bookmarks whose tweet id is not among `seen`, in order.
pub open spec fn unseen(seen: Seq<Seq<char>>, s: Seq<BookmarkItem>) -> Seq<BookmarkItem>
    decreases s.len(),
{
    if s.len() == 0 {
        s
    } else if seen.contains(s.last().tweet_id@) {
        unseen(seen, s.drop_last())
    } else {
        unseen(seen, s.drop_last()).push(s.last())
    }
}

/// The download history is the sync's cursor: a bookmark is offered as new
/// exactly when its tweet id is not in the history (so a bookmark whose
/// record was deleted is offered again), and the new ones keep their order.
pub proof fn law_new_bookmarks_are_outside_history(seen: Seq<Seq<char>>, s: Seq<BookmarkItem>, b: BookmarkItem)
    ensures
        unseen(seen, s).contains(b) <==> (s.contains(b) && !seen.contains(b.tweet_id@)),
    decreases s.len(),
{
    if s.len() > 0 {
        let init = s.drop_last();
        law_new_bookmarks_are_outside_history(seen, init, b);
        assert(s =~= init.push(s.last()));
        if s.contains(b) && b != s.last() {
            let k = choose|k: int| 0 <= k < s.len() && s[k] == b;
            assert(init[k] == b);
        }
        if init.contains(b) {
            let k = choose|k: int| 0 <= k < init.len() && init[k] == b;
            assert(s[k] == b);
        }
        if !seen.contains(s.last().tweet_id@) {
            let u = unseen(seen, init);
            assert(u.push(s.last())[u.len() as int] == s.last());
            if u.contains(b) {
                let k = choose|k: int| 0 <= k < u.len() && u[k] == b;
                assert(u.push(s.last())[k] == b);
            }
            if u.push(s.last()).contains(b) && b != s.last() {
                let k = choose|k: int| 0 <= k < u.len() + 1 && u.push(s.last())[k] == b;
                assert(u[k] == b);
            }
        }
    }
}

fn contains_text(v: &Vec<String>, x: &String) -> (r: bool)
    ensures
        r == views(v@).contains(x@),
{
    let mut i: usize = 0;
    while i < v.len()
        invariant
            i <= v@.len(),
            forall|k: int| 0 <= k < i ==> #[trigger] v@[k]@ != x@,
        decreases v@.len() - i,
    {
        if v[i] == *x {
            proof {
                assert(views(v@)[i as int] == x@);
            }
            return true;
        }
        i = i + 1;
    }
    proof {
        if views(v@).contains(x@) {
            let k = choose|k: int| 0 <= k < views(v@).len() && views(v@)[k] == x@;
            assert(v@[k]@ == x@);
        }
    }
    false
}

/// The bookmarks of `current` not yet processed (their tweet id is not in
/// `previous_ids`), in the given order (newest first from X).
pub fn find_new_bookmarks(previous_ids: &Vec<String>, current: &Vec<BookmarkItem>) -> (r: Vec<BookmarkItem>)
    ensures
        r@ == unseen(views(previous_ids@), current@),
{
    let mut out: Vec<BookmarkItem> = Vec::new();
    let mut i: usize = 0;
    while i < current.len()
        invariant
            i <= current@.len(),
            out@ == unseen(views(previous_ids@), current@.take(i as int)),
        decreases current@.len() - i,
    {
        proof {
            assert(current@.take(i + 1).drop_last() =~= current@.take(i as int));
            assert(current@.take(i + 1).last() == current@[i as int]);
        }
        if !contains_text(previous_ids, &current[i].tweet_id) {
            out.push(current[i].copy());
        }
        i = i + 1;
    }
    proof {
        assert(current@.take(i as int) =~= current@);
    }
    out
}

/// The feature flags the web client sends with a Bookmarks request.
pub const BOOKMARKS_FEATURES: &'static str = r#"{"rweb_video_screen_enabled":false,"rweb_cashtags_enabled":true,"profile_label_improvements_pcf_label_in_post_enabled":true,"responsive_web_profile_redirect_enabled":true,"rweb_tipjar_consumption_enabled":false,"verified_phone_label_enabled":false,"creator_subscriptions_tweet_preview_api_enabled":true,"responsive_web_graphql_timeline_navigation_enabled":true,"premium_content_api_read_enabled":false,"communities_web_enable_tweet_community_results_fetch":true,"c9s_tweet_anatomy_moderator_badge_enabled":true,"responsive_web_grok_analyze_button_fetch_trends_enabled":false,"responsive_web_grok_analyze_post_followups_enabled":true,"rweb_cashtags_composer_attachment_enabled":true,"responsive_web_jetfuel_frame":true,"responsive_web_grok_share_attachment_enabled":true,"responsive_web_grok_annotations_enabled":true,"articles_preview_enabled":true,"responsive_web_edit_tweet_api_enabled":true,"rweb_conversational_replies_downvote_enabled":false,"graphql_is_translatable_rweb_tweet_is_translatable_enabled":true,"view_counts_everywhere_api_enabled":true,"longform_notetweets_consumption_enabled":true,"responsive_web_twitter_article_tweet_consumption_enabled":true,"content_disclosure_indicator_enabled":true,"content_disclosure_ai_generated_indicator_enabled":true,"responsive_web_grok_show_grok_translated_post":true,"responsive_web_grok_analysis_button_from_backend":true,"post_ctas_fetch_enabled":false,"freedom_of_speech_not_reach_fetch_enabled":true,"standardized_nudges_misinfo":true,"tweet_with_visibility_results_prefer_gql_limited_actions_policy_enabled":true,"longform_notetweets_rich_text_read_enabled":true,"longform_notetweets_inline_media_enabled":false,"responsive_web_grok_image_annotation_enabled":true,"responsive_web_grok_imagine_annotation_enabled":true,"responsive_web_grok_community_note_auto_translation_is_enabled":true,"responsive_web_enhance_cards_enabled":false}"#;

/// The Bookmarks operation id used until a fresh one is captured.
pub const DEFAULT_BOOKMARKS_QUERY_ID: &'static str = "iblrFnKr6PZUR-dWpfXG6g";

/// The GraphQL `variables` object: the page size, the pagination cursor
/// when given, and `includePromotedContent`, keys in sorted order as
/// `serde_json` writes a map.
pub open spec fn spec_variables(count: u32, cursor: Option<Seq<char>>) -> Seq<char> {
    "{\"count\":"@ + dec(count as nat) + match cursor {
        Some(c) => ",\"cursor\":"@ + json_quoted(c),
        None => Seq::empty(),
    } + ",\"includePromotedContent\":true}"@
}

/// Writes the GraphQL `variables` object.
pub fn build_variables(count: u32, cursor: Option<&str>) -> (r: String)
    ensures
        r@ == spec_variables(
            count,
            match cursor {
                Some(c) => Some(c@),
                None => None,
            },
        ),
{
    let mut v = copy_str("{\"count\":");
    let n = u64_to_string(count as u64);
    push_str(&mut v, n.as_str());
    match cursor {
        Some(c) => {
            push_str(&mut v, ",\"cursor\":");
            let q = json_quote(c);
            push_str(&mut v, q.as_str());
        },
        None => {},
    }
    push_str(&mut v, ",\"includePromotedContent\":true}");
    v
}

/// The Bookmarks endpoint URL for an operation id, a page size and an
/// optional cursor: the variables and the feature flags percent-encoded.
pub open spec fn spec_bookmarks_url(query_id: Seq<char>, count: u32, cursor: Option<Seq<char>>) -> Seq<char> {
    "https://x.com/i/api/graphql/"@ + query_id + "/Bookmarks?variables="@ + percent_encoded(
        encode_utf8(spec_variables(count, cursor)),
    ) + "&features="@ + percent_encoded(encode_utf8(BOOKMARKS_FEATURES@))
}

/// Builds the Bookmarks endpoint URL.
pub fn build_bookmarks_url(query_id: &str, count: u32, cursor: Option<&str>) -> (r: String)
    ensures
        r@ == spec_bookmarks_url(
            query_id@,
            count,
            match cursor {
                Some(c) => Some(c@),
                None => None,
            },
        ),
{
    let vars = build_variables(count, cursor);
    let mut u = copy_str("https://x.com/i/api/graphql/");
    push_str(&mut u, query_id);
    push_str(&mut u, "/Bookmarks?variables=");
    let ev = urlencode(vars.as_str());
    push_str(&mut u, ev.as_str());
    push_str(&mut u, "&features=");
    let ef = urlencode(BOOKMARKS_FEATURES);
    push_str(&mut u, ef.as_str());
    u
}

/// The error for a sync without both cookies.
pub const MISSING_AUTH: &'static str = "书签同步需要 auth_token 与 ct0 cookies，请先在设置中配置浏览器 cookies";

/// The error for a non-200 answer of the Bookmarks endpoint: the status and
/// the first 200 characters of the body.
pub open spec fn spec_http_error(status: u16, body: Seq<char>) -> Seq<char> {
    "书签接口返回 HTTP "@ + dec(status as nat) + ": "@ + body.take(
        if body.len() < 200 {
            body.len() as int
        } else {
            200
        },
    )
}

/// Describes a non-200 answer of the Bookmarks endpoint.
pub fn bookmarks_http_error(status: u16, body: &str) -> (r: String)
    ensures
        r@ == spec_http_error(status, body@),
{
    let mut m = copy_str("书签接口返回 HTTP ");
    let n = u64_to_string(status as u64);
    push_str(&mut m, n.as_str());
    push_str(&mut m, ": ");
    let cs = chars_of(body);
    let k: usize = if cs.len() < 200 {
        cs.len()
    } else {
        200
    };
    let snippet = string_of_range(&cs, 0, k);
    push_str(&mut m, snippet.as_str());
    proof {
        assert(snippet@ =~= body@.take(k as int));
    }
    m
}

/// Script tags and links that load a `.js` asset.
pub const JS_URL_PATTERN: &'static str = r#"(?:src|href)="([^"<]+\.js(?:[?"][^"<]*)?)""#;

/// `ct0` in the page's embedded JSON.
pub const CT0_JSON_PATTERN: &'static str = r#""ct0":"([A-Za-z0-9%_\-]{10,})""#;

/// `ct0=` in a cookie setter or a script string.
pub const CT0_COOKIE_PATTERN: &'static str = r#"ct0=([A-Za-z0-9%_\-]{10,})"#;

/// A script URL made absolute: kept when it starts with `http`, given the
/// `https:` scheme when protocol-relative, put below `base` (without its
/// trailing slashes) when it starts with `/`; any other is skipped.
pub open spec fn spec_resolve_js_url(raw: Seq<char>, base: Seq<char>) -> Option<Seq<char>> {
    if starts_with(raw, "http"@) {
        Some(raw)
    } else if starts_with(raw, "//"@) {
        Some("https://"@ + raw.skip(2))
    } else if starts_with(raw, "/"@) {
        Some(trim_end_char(base, '/') + raw)
    } else {
        None
    }
}

/// The resolved URLs of the matches, in order, skipping those that do not
/// resolve.
pub open spec fn spec_js_urls(matches: Seq<Seq<Option<Seq<char>>>>, base: Seq<char>) -> Seq<Seq<char>>
    decreases matches.len(),
{
    if matches.len() == 0 {
        Seq::empty()
    } else {
        let rest = spec_js_urls(matches.drop_last(), base);
        match spec_resolve_js_url(group(matches.last(), 1), base) {
            Some(u) => rest.push(u),
            None => rest,
        }
    }
}

/// Resolves one script URL (see `spec_resolve_js_url`).
fn resolve_js_url(raw: &str, base: &str) -> (r: Option<String>)
    ensures
        match r {
            Some(u) => spec_resolve_js_url(raw@, base@) == Some(u@),
            None => spec_resolve_js_url(raw@, base@) is None,
        },
{
    let c = chars_of(raw);
    if starts_with_exec(&c, &chars_of("http")) {
        Some(copy_str(raw))
    } else if starts_with_exec(&c, &chars_of("//")) {
        let mut u = copy_str("https://");
        let mut i: usize = 2;
        proof {
            reveal_strlit("//");
            assert(u@ =~= "https://"@ + c@.subrange(2, 2));
        }
        while i < c.len()
            invariant
                2 <= i <= c@.len(),
                c@ == raw@,
                u@ == "https://"@ + c@.subrange(2, i as int),
            decreases c@.len() - i,
        {
            push_char(&mut u, c[i]);
            i = i + 1;
            proof {
                assert(u@ =~= "https://"@ + c@.subrange(2, i as int));
            }
        }
        proof {
            assert(c@.subrange(2, i as int) =~= raw@.skip(2));
        }
        Some(u)
    } else if starts_with_exec(&c, &chars_of("/")) {
        let b = trim_end_char_exec(&chars_of(base), '/');
        let mut u = string_of(&b);
        push_str(&mut u, raw);
        Some(u)
    } else {
        None
    }
}

/// The script URLs of the given matches (group 1 of each), resolved
/// against `base` (see `spec_js_urls`).
pub fn js_urls_of_matches(matches: &Vec<Vec<Option<String>>>, base: &str) -> (r: Vec<String>)
    ensures
        views(r@) == spec_js_urls(matches.deep_view(), base@),
{
    let ghost m = matches.deep_view();
    let mut out: Vec<String> = Vec::new();
    let mut i: usize = 0;
    while i < matches.len()
        invariant
            i <= matches@.len(),
            m == matches.deep_view(),
            views(out@) == spec_js_urls(m.take(i as int), base@),
        decreases matches@.len() - i,
    {
        let raw = group_text(&matches[i], 1);
        proof {
            assert(m.take(i + 1).drop_last() =~= m.take(i as int));
            assert(m[i as int] == matches@[i as int].deep_view());
        }
        match resolve_js_url(raw.as_str(), base) {
            Some(u) => {
                out.push(u);
                proof {
                    assert(views(out@) =~= spec_js_urls(m.take(i as int), base@).push(out@.last()@));
                }
            },
            None => {},
        }
        i = i + 1;
    }
    proof {
        assert(m.take(i as int) =~= m);
    }
    out
}

/// The `.js` assets an HTML page loads, made absolute against `base_url`
/// (see `js_urls_of_matches`).
pub fn extract_js_urls(html: &str, base_url: &str) -> (r: Vec<String>)
    ensures
        views(r@) == spec_js_urls(regex_captures_all(JS_URL_PATTERN@, html@), base_url@),
{
    let matches = captures_all(JS_URL_PATTERN, html);
    js_urls_of_matches(&matches, base_url)
}

/// The Bookmarks operation name, as an exact token (so that
/// `BookmarkSearchTimeline` never matches).
pub const OP_PATTERN: &'static str = r#""?operationName"?:"Bookmarks""#;

/// A `queryId` key with its value.
pub const QID_PATTERN: &'static str = r#""?queryId"?:"?([A-Za-z0-9_-]{8,60})"?"#;

/// An operation-to-id map entry for Bookmarks.
pub const QID_MAP_PATTERN: &'static str = r#""Bookmarks":"([A-Za-z0-9_-]{8,60})""#;

/// How far around the operation name the queryId is looked for, in bytes.
pub const QID_WINDOW: usize = 500;

/// The window around an operation match: up to `QID_WINDOW` bytes before and
/// after it (within the text), and the operation's centre inside it.
pub open spec fn op_window(js: Seq<char>, js_len: int, op: (usize, usize, Option<Seq<char>>)) -> Option<(Seq<char>, int)> {
    let ws: int = if op.0 >= QID_WINDOW {
        op.0 - QID_WINDOW
    } else {
        0
    };
    let we: int = if op.1 + QID_WINDOW <= js_len {
        op.1 + QID_WINDOW
    } else {
        js_len
    };
    match str_byte_range(js, ws as usize, we as usize) {
        Some(w) => Some((w, ((op.0 - ws) + (op.1 - ws)) / 2)),
        None => None,
    }
}

/// How far a match's centre lies from `center`.
pub open spec fn span_dist(q: (usize, usize, Option<Seq<char>>), center: int) -> int {
    let c = (q.0 + q.1) / 2;
    if c >= center {
        c - center
    } else {
        center - c
    }
}

/// `k` is the match closest to `center`, the first of equally close ones.
pub open spec fn closest_at(qs: Seq<(usize, usize, Option<Seq<char>>)>, center: int, k: int) -> bool {
    &&& 0 <= k < qs.len()
    &&& forall|j: int| 0 <= j < k ==> span_dist(#[trigger] qs[j], center) > span_dist(qs[k], center)
    &&& forall|j: int| k < j < qs.len() ==> span_dist(#[trigger] qs[j], center) >= span_dist(qs[k], center)
}

/// The text of an optional group, empty when absent.
pub open spec fn text_or_empty(g: Option<Seq<char>>) -> Seq<char> {
    match g {
        Some(t) => t,
        None => Seq::empty(),
    }
}

/// An operation match whose window holds a queryId.
pub open spec fn op_hits(js: Seq<char>, js_len: int, op: (usize, usize, Option<Seq<char>>)) -> bool {
    (op_window(js, js_len, op) matches Some((w, c)) && regex_spans(QID_PATTERN@, w).len() > 0)
}

/// `id` is the queryId closest to the operation match.
pub open spec fn op_picks(js: Seq<char>, js_len: int, op: (usize, usize, Option<Seq<char>>), id: Seq<char>) -> bool {
    match op_window(js, js_len, op) {
        Some(wc) => exists|k: int|
            #[trigger] closest_at(regex_spans(QID_PATTERN@, wc.0), wc.1, k) && text_or_empty(
                regex_spans(QID_PATTERN@, wc.0)[k].2,
            ) == id,
        None => false,
    }
}

/// The Bookmarks queryId in a JS bundle: for the first operation match
/// whose window holds a queryId, the one closest to the operation name;
/// else the id of an operation map entry; else none. A window whose edge
/// falls inside a character is passed over.
pub open spec fn spec_bookmarks_query_id(js: Seq<char>, js_len: int, r: Option<Seq<char>>) -> bool {
    let ops = regex_spans(OP_PATTERN@, js);
    let none_hit = forall|i: int| 0 <= i < ops.len() ==> !op_hits(js, js_len, #[trigger] ops[i]);
    match r {
        Some(id) => (exists|i: int|
            0 <= i < ops.len() && op_hits(js, js_len, ops[i]) && op_picks(js, js_len, ops[i], id) && forall|j: int|
                0 <= j < i ==> !op_hits(js, js_len, #[trigger] ops[j])) || (none_hit && (regex_captures(
            QID_MAP_PATTERN@,
            js,
        ) matches Some(c) && group(c, 1) == id)),
        None => none_hit && regex_captures(QID_MAP_PATTERN@, js) is None,
    }
}

/// The queryId closest to the operation match `op`, if its window holds
/// one.
fn pick_near(js: &str, op: &Span) -> (r: Option<String>)
    requires
        op.start <= op.end <= js.len(),
    ensures
        match r {
            Some(id) => op_picks(js@, js.len() as int, span_of(*op), id@) && op_hits(
                js@,
                js.len() as int,
                span_of(*op),
            ),
            None => !op_hits(js@, js.len() as int, span_of(*op)),
        },
{
    let ghost opv = span_of(*op);
    let len = js.len();
    let ws: usize = if op.start >= QID_WINDOW {
        op.start - QID_WINDOW
    } else {
        0
    };
    let we: usize = if op.end <= len && len - op.end >= QID_WINDOW {
        op.end + QID_WINDOW
    } else {
        len
    };
    let window = match byte_range(js, ws, we) {
        Some(w) => w,
        None => {
            return None;
        },
    };
    let center: usize = (((op.start - ws) as u128 + (op.end - ws) as u128) / 2) as usize;
    let qs = match_spans(QID_PATTERN, window.as_str());
    let ghost qv = spans_view(qs@);
    proof {
        assert(op_window(js@, len as int, opv) == Some((window@, center as int)));
    }
    let mut best: Option<usize> = None;
    let mut best_d: usize = 0;
    let mut i: usize = 0;
    while i < qs.len()
        invariant
            i <= qs@.len(),
            qv == spans_view(qs@),
            qv.len() == qs@.len(),
            forall|k: int| 0 <= k < qs@.len() ==> #[trigger] qs@[k].start <= qs@[k].end,
            match best {
                Some(b) => {
                    &&& b < i
                    &&& best_d == span_dist(qv[b as int], center as int)
                    &&& forall|j: int| 0 <= j < b ==> span_dist(#[trigger] qv[j], center as int) > best_d
                    &&& forall|j: int| b < j < i ==> span_dist(#[trigger] qv[j], center as int) >= best_d
                },
                None => i == 0,
            },
        decreases qs@.len() - i,
    {
        proof {
            assert(qv[i as int] == span_of(qs@[i as int]));
        }
        let q = &qs[i];
        let c: usize = ((q.start as u128 + q.end as u128) / 2) as usize;
        let d: usize = if c >= center {
            c - center
        } else {
            center - c
        };
        let better = match best {
            Some(_) => d < best_d,
            None => true,
        };
        if better {
            best = Some(i);
            best_d = d;
        }
        i = i + 1;
    }
    match best {
        Some(b) => {
            let id = match &qs[b].group1 {
                Some(g) => copy_str(g.as_str()),
                None => String::new(),
            };
            proof {
                assert(qv[b as int] == span_of(qs@[b as int]));
                assert(text_or_empty(qv[b as int].2) == id@);
                assert(closest_at(qv, center as int, b as int));
                assert(qv == regex_spans(QID_PATTERN@, window@));
                assert(op_window(js@, js.len() as int, opv) == Some((window@, center as int)));
                let wc = op_window(js@, js.len() as int, opv)->Some_0;
                assert(wc.0 == window@ && wc.1 == center as int);
                assert(closest_at(regex_spans(QID_PATTERN@, wc.0), wc.1, b as int) && text_or_empty(
                    regex_spans(QID_PATTERN@, wc.0)[b as int].2,
                ) == id@);
                assert(op_hits(js@, js.len() as int, opv));
                assert(op_picks(js@, js.len() as int, opv, id@));
            }
            Some(id)
        },
        None => None,
    }
}

/// Finds the Bookmarks queryId in a JS bundle (see
/// `spec_bookmarks_query_id`).
pub fn extract_bookmarks_query_id(js: &str) -> (r: Option<String>)
    ensures
        spec_bookmarks_query_id(
            js@,
            js.len() as int,
            match r {
                Some(id) => Some(id@),
                None => None,
            },
        ),
{
    let ops = match_spans(OP_PATTERN, js);
    let ghost ov = spans_view(ops@);
    let mut i: usize = 0;
    while i < ops.len()
        invariant
            i <= ops@.len(),
            ov == spans_view(ops@),
            ov == regex_spans(OP_PATTERN@, js@),
            forall|k: int| 0 <= k < ops@.len() ==> #[trigger] ops@[k].start <= ops@[k].end <= js.len(),
            forall|j: int| 0 <= j < i ==> !op_hits(js@, js.len() as int, #[trigger] ov[j]),
        decreases ops@.len() - i,
    {
        proof {
            assert(ov[i as int] == span_of(ops@[i as int]));
        }
        match pick_near(js, &ops[i]) {
            Some(id) => {
                return Some(id);
            },
            None => {},
        }
        i = i + 1;
    }
    match captures(QID_MAP_PATTERN, js) {
        Some(c) => Some(group_text(&c, 1)),
        None => None,
    }
}

/// The fresh `ct0` token: from the embedded JSON when there, else from a
/// `ct0=` setter.
pub open spec fn spec_ct0_of(
    json: Option<Seq<Option<Seq<char>>>>,
    cookie: Option<Seq<Option<Seq<char>>>>,
) -> Option<Seq<char>> {
    match json {
        Some(c) => Some(group(c, 1)),
        None => match cookie {
            Some(c) => Some(group(c, 1)),
            None => None,
        },
    }
}

/// Finds the fresh `ct0` (CSRF token) in x.com page HTML.
pub fn extract_ct0_from_html(html: &str) -> (r: Option<String>)
    ensures
        match r {
            Some(t) => spec_ct0_of(regex_captures(CT0_JSON_PATTERN@, html@), regex_captures(CT0_COOKIE_PATTERN@, html@))
                == Some(t@),
            None => spec_ct0_of(regex_captures(CT0_JSON_PATTERN@, html@), regex_captures(CT0_COOKIE_PATTERN@, html@))
                is None,
        },
{
    match captures(CT0_JSON_PATTERN, html) {
        Some(c) => Some(group_text(&c, 1)),
        None => match captures(CT0_COOKIE_PATTERN, html) {
            Some(c) => Some(group_text(&c, 1)),
            None => None,
        },
    }
}

// ==================== Response parsing ====================

/// Where the tweet of a timeline entry sits.
pub open spec fn result_path() -> Seq<Seq<char>> {
    seq!["content"@, "itemContent"@, "tweet_results"@, "result"@]
}

/// The tweet of an entry; `None` when missing or null (deleted or
/// restricted tweets).
pub open spec fn entry_result(entry: Json) -> Option<Json> {
    match json_pointer(entry, result_path()) {
        Some(Json::Null) => None,
        other => other,
    }
}

/// The tweet id: `rest_id` as a string, or as an integer in decimal.
pub open spec fn tweet_id_of(result: Json) -> Option<Seq<char>> {
    match json_get(result, "rest_id"@) {
        Some(Json::Str(s)) => Some(s@),
        Some(Json::Number(JsonNumber { int: Some(n), .. })) => Some(dec_int(n as int)),
        _ => None,
    }
}

/// The author object: `core.user_results.result.core` in the current
/// shape, else `core.user_results.result.legacy`.
pub open spec fn user_info_of(result: Json) -> Option<Json> {
    match json_pointer(result, seq!["core"@, "user_results"@, "result"@, "core"@]) {
        Some(u) => Some(u),
        None => json_pointer(result, seq!["core"@, "user_results"@, "result"@, "legacy"@]),
    }
}

/// The string field `key` of an optional object, empty when absent.
pub open spec fn text_field(v: Option<Json>, key: Seq<char>) -> Seq<char> {
    match v {
        Some(o) => match json_str(json_get(o, key)) {
            Some(t) => t,
            None => Seq::empty(),
        },
        None => Seq::empty(),
    }
}

/// A media item that is a video or an animated GIF.
pub open spec fn is_video_media(m: Json) -> bool {
    json_str(json_get(m, "type"@)) == Some("video"@) || json_str(json_get(m, "type"@)) == Some("animated_gif"@)
}

/// Whether the tweet's `legacy.extended_entities.media` holds a video.
pub open spec fn has_video_of(result: Json) -> bool {
    match json_get(result, "legacy"@) {
        Some(l) => match json_array(json_pointer(l, seq!["extended_entities"@, "media"@])) {
            Some(ms) => exists|i: int| 0 <= i < ms.len() && is_video_media(#[trigger] ms[i]),
            None => false,
        },
        None => false,
    }
}

/// `it` is the bookmark that the timeline entry describes.
pub open spec fn spec_entry_item(entry: Json, it: BookmarkItem) -> bool {
    match entry_result(entry) {
        Some(res) => {
            &&& tweet_id_of(res) == Some(it.tweet_id@)
            &&& it.handle@ == text_field(user_info_of(res), "screen_name"@)
            &&& it.author_name@ == text_field(user_info_of(res), "name"@)
            &&& it.text@ == text_field(json_get(res, "legacy"@), "full_text"@)
            &&& it.has_video == has_video_of(res)
            &&& it.url@ == "https://x.com/"@ + it.handle@ + "/status/"@ + it.tweet_id@
        },
        None => false,
    }
}

/// An entry that is no tweet (or a tweet without an id) is skipped.
pub open spec fn entry_skipped(entry: Json) -> bool {
    match entry_result(entry) {
        Some(res) => tweet_id_of(res) is None,
        None => true,
    }
}

/// The string field `key` of an optional object, empty when absent.
fn text_of(v: Option<&Json>, key: &str) -> (r: String)
    ensures
        r@ == text_field(
            match v {
                Some(j) => Some(*j),
                None => None,
            },
            key@,
        ),
{
    match v {
        Some(o) => match o.get(key) {
            Some(f) => match f.as_str() {
                Some(t) => copy_str(t),
                None => String::new(),
            },
            None => String::new(),
        },
        None => String::new(),
    }
}

/// Whether the tweet holds a video (see `has_video_of`).
fn tweet_has_video(result: &Json) -> (r: bool)
    ensures
        r == has_video_of(*result),
{
    let legacy = match result.get("legacy") {
        Some(l) => l,
        None => {
            return false;
        },
    };
    let path = ["extended_entities", "media"];
    let m = legacy.pointer(&path);
    proof {
        assert(strs(path@) =~= seq!["extended_entities"@, "media"@]);
    }
    let media = match m {
        Some(v) => match v.as_array() {
            Some(a) => {
                proof {
                    assert(json_get(*result, "legacy"@) == Some(*legacy));
                    assert(json_pointer(*legacy, seq!["extended_entities"@, "media"@]) == Some(*v));
                    assert(json_array(json_pointer(*legacy, seq!["extended_entities"@, "media"@])) == Some(a@));
                    if has_video_of(*result) {
                        let w = choose|w: int| 0 <= w < a@.len() && is_video_media(#[trigger] a@[w]);
                        assert(0 <= w < a@.len() && is_video_media(a@[w]));
                    }
                    if exists|j: int| 0 <= j < a@.len() && is_video_media(#[trigger] a@[j]) {
                        let w = choose|w: int| 0 <= w < a@.len() && is_video_media(#[trigger] a@[w]);
                        assert(is_video_media(a@[w]));
                        let ms = json_array(json_pointer(*legacy, seq!["extended_entities"@, "media"@]))->0;
                        assert(ms == a@);
                        assert(is_video_media(ms[w]));
                        assert(exists|i: int| 0 <= i < ms.len() && is_video_media(#[trigger] ms[i]));
                        assert(has_video_of(*result));
                    }
                }
                a
            },
            None => {
                return false;
            },
        },
        None => {
            return false;
        },
    };
    let mut i: usize = 0;
    while i < media.len()
        invariant
            i <= media@.len(),
            has_video_of(*result) == exists|j: int| 0 <= j < media@.len() && is_video_media(#[trigger] media@[j]),
            forall|j: int| 0 <= j < i ==> !is_video_media(#[trigger] media@[j]),
        decreases media@.len() - i,
    {
        let t = match media[i].get("type") {
            Some(t) => t.as_str(),
            None => None,
        };
        let video = match t {
            Some(t) => str_eq(t, "video") || str_eq(t, "animated_gif"),
            None => false,
        };
        if video {
            proof {
                assert(is_video_media(media@[i as int]));
            }
            return true;
        }
        i = i + 1;
    }
    false
}

/// Reads one timeline entry as a bookmark (see `spec_entry_item`); `None`
/// for an entry that is skipped.
pub fn parse_entry(entry: &Json) -> (r: Option<BookmarkItem>)
    ensures
        match r {
            Some(it) => spec_entry_item(*entry, it),
            None => entry_skipped(*entry),
        },
{
    let rp = ["content", "itemContent", "tweet_results", "result"];
    proof {
        assert(strs(rp@) =~= result_path());
    }
    let result = match entry.pointer(&rp) {
        Some(Json::Null) => {
            return None;
        },
        Some(v) => v,
        None => {
            return None;
        },
    };
    let tweet_id = match result.get("rest_id") {
        Some(Json::Str(s)) => copy_str(s.as_str()),
        Some(Json::Number(JsonNumber { int: Some(n), .. })) => i64_to_string(*n),
        _ => {
            return None;
        },
    };
    let p1 = ["core", "user_results", "result", "core"];
    let p2 = ["core", "user_results", "result", "legacy"];
    proof {
        assert(strs(p1@) =~= seq!["core"@, "user_results"@, "result"@, "core"@]);
        assert(strs(p2@) =~= seq!["core"@, "user_results"@, "result"@, "legacy"@]);
    }
    let user_info = match result.pointer(&p1) {
        Some(u) => Some(u),
        None => result.pointer(&p2),
    };
    let handle = text_of(user_info, "screen_name");
    let author_name = text_of(user_info, "name");
    let text = text_of(result.get("legacy"), "full_text");
    let has_video = tweet_has_video(result);
    let mut url = copy_str("https://x.com/");
    push_str(&mut url, handle.as_str());
    push_str(&mut url, "/status/");
    push_str(&mut url, tweet_id.as_str());
    Some(BookmarkItem { tweet_id, handle, url, text, author_name, has_video })
}

/// The entries of every instruction that carries an `entries` array, in
/// order.
pub open spec fn entries_of(instructions: Seq<Json>) -> Seq<Json>
    decreases instructions.len(),
{
    if instructions.len() == 0 {
        Seq::empty()
    } else {
        entries_of(instructions.drop_last()) + match json_array(json_get(instructions.last(), "entries"@)) {
            Some(es) => es,
            None => Seq::empty(),
        }
    }
}

/// `items` are the bookmarks of the entries, in order, skipped entries left
/// out.
pub open spec fn parsed_items(entries: Seq<Json>, items: Seq<BookmarkItem>) -> bool
    decreases entries.len(),
{
    if entries.len() == 0 {
        items.len() == 0
    } else if entry_skipped(entries.last()) {
        parsed_items(entries.drop_last(), items)
    } else {
        &&& items.len() > 0
        &&& spec_entry_item(entries.last(), items.last())
        &&& parsed_items(entries.drop_last(), items.drop_last())
    }
}

/// The `message` strings of the GraphQL errors, in order.
pub open spec fn error_messages(errors: Seq<Json>) -> Seq<Seq<char>>
    decreases errors.len(),
{
    if errors.len() == 0 {
        Seq::empty()
    } else {
        let rest = error_messages(errors.drop_last());
        match json_str(json_get(errors.last(), "message"@)) {
            Some(m) => rest.push(m),
            None => rest,
        }
    }
}

/// The messages joined with "; ", or "unknown GraphQL error" when there are
/// none.
pub open spec fn error_text(errors: Seq<Json>) -> Seq<char> {
    let j = joined(error_messages(errors), "; "@);
    if j.len() == 0 {
        "unknown GraphQL error"@
    } else {
        j
    }
}

/// The non-empty `errors` array of a response, if any.
pub open spec fn response_errors(root: Json) -> Option<Seq<Json>> {
    match json_array(json_get(root, "errors"@)) {
        Some(e) => if e.len() > 0 {
            Some(e)
        } else {
            None
        },
        None => None,
    }
}

/// The path of the instructions in a Bookmarks response.
pub open spec fn instructions_path() -> Seq<Seq<char>> {
    seq!["data"@, "bookmark_timeline_v2"@, "timeline"@, "instructions"@]
}

/// The error for a response without the bookmarks structure.
pub const MISSING_INSTRUCTIONS: &'static str =
    "queryId 已失效或接口结构异常（missing data.bookmark_timeline_v2.timeline.instructions）";

/// What a parsed Bookmarks response gives: GraphQL errors become an error
/// with the query-id hint; a response without the instructions array is an
/// error; otherwise the bookmarks of all entries.
pub open spec fn spec_parse_response(root: Json, r: Result<Vec<BookmarkItem>, String>) -> bool {
    match response_errors(root) {
        Some(errs) => (r matches Err(e) && e@ == spec_query_id_failure_hint(error_text(errs))),
        None => match json_array(json_pointer(root, instructions_path())) {
            Some(ins) => (r matches Ok(items) && parsed_items(entries_of(ins), items@)),
            None => (r matches Err(e) && e@ == MISSING_INSTRUCTIONS@),
        },
    }
}

/// The joined error messages (see `error_text`).
fn errors_text(errors: &Vec<Json>) -> (r: String)
    ensures
        r@ == error_text(errors@),
{
    let mut msgs: Vec<String> = Vec::new();
    let mut i: usize = 0;
    while i < errors.len()
        invariant
            i <= errors@.len(),
            views(msgs@) == error_messages(errors@.take(i as int)),
        decreases errors@.len() - i,
    {
        proof {
            assert(errors@.take(i + 1).drop_last() =~= errors@.take(i as int));
        }
        let m = match errors[i].get("message") {
            Some(v) => v.as_str(),
            None => None,
        };
        match m {
            Some(t) => {
                msgs.push(copy_str(t));
                proof {
                    assert(views(msgs@) =~= error_messages(errors@.take(i as int)).push(t@));
                }
            },
            None => {},
        }
        i = i + 1;
    }
    proof {
        assert(errors@.take(i as int) =~= errors@);
    }
    let j = join_with(&msgs, "; ");
    if chars_of(j.as_str()).len() == 0 {
        copy_str("unknown GraphQL error")
    } else {
        j
    }
}

/// Reads a parsed Bookmarks response (see `spec_parse_response`).
pub fn parse_bookmarks_response(root: &Json) -> (r: Result<Vec<BookmarkItem>, String>)
    ensures
        spec_parse_response(*root, r),
{
    let errs = match root.get("errors") {
        Some(e) => e.as_array(),
        None => None,
    };
    match errs {
        Some(e) => {
            if e.len() > 0 {
                let t = errors_text(e);
                return Err(query_id_failure_hint(t.as_str()));
            }
        },
        None => {},
    }
    let ip = ["data", "bookmark_timeline_v2", "timeline", "instructions"];
    proof {
        assert(strs(ip@) =~= instructions_path());
    }
    let ins = match root.pointer(&ip) {
        Some(v) => match v.as_array() {
            Some(a) => a,
            None => {
                return Err(copy_str(MISSING_INSTRUCTIONS));
            },
        },
        None => {
            return Err(copy_str(MISSING_INSTRUCTIONS));
        },
    };
    let mut items: Vec<BookmarkItem> = Vec::new();
    let mut k: usize = 0;
    while k < ins.len()
        invariant
            k <= ins@.len(),
            parsed_items(entries_of(ins@.take(k as int)), items@),
        decreases ins@.len() - k,
    {
        proof {
            assert(ins@.take(k + 1).drop_last() =~= ins@.take(k as int));
        }
        let entries = match ins[k].get("entries") {
            Some(e) => e.as_array(),
            None => None,
        };
        match entries {
            Some(es) => {
                let ghost before = entries_of(ins@.take(k as int));
                let mut j: usize = 0;
                while j < es.len()
                    invariant
                        j <= es@.len(),
                        parsed_items(before + es@.take(j as int), items@),
                    decreases es@.len() - j,
                {
                    proof {
                        assert((before + es@.take(j + 1)).drop_last() =~= before + es@.take(j as int));
                        assert((before + es@.take(j + 1)).last() == es@[j as int]);
                    }
                    match parse_entry(&es[j]) {
                        Some(it) => {
                            let ghost old_items = items@;
                            items.push(it);
                            proof {
                                assert(items@.drop_last() =~= old_items);
                            }
                        },
                        None => {},
                    }
                    j = j + 1;
                }
                proof {
                    assert(es@.take(j as int) =~= es@);
                    assert(entries_of(ins@.take(k + 1)) =~= before + es@);
                }
            },
            None => {
                proof {
                    assert(entries_of(ins@.take(k + 1)) =~= entries_of(ins@.take(k as int)));
                }
            },
        }
        k = k + 1;
    }
    proof {
        assert(ins@.take(k as int) =~= ins@);
    }
    Ok(items)
}

/// The entry type of a pagination cursor.
pub open spec fn is_cursor_entry(entry: Json) -> bool {
    json_str(json_pointer(entry, seq!["content"@, "entryType"@])) == Some("TimelineTimelineCursor"@)
}

/// The `content.value` string of an entry.
pub open spec fn cursor_value(entry: Json) -> Option<Seq<char>> {
    json_str(json_pointer(entry, seq!["content"@, "value"@]))
}

/// A cursor entry with a non-empty value.
pub open spec fn valid_cursor(entry: Json) -> bool {
    is_cursor_entry(entry) && (cursor_value(entry) matches Some(v) && v.len() > 0)
}

/// The value of the first valid cursor entry, in order.
pub open spec fn first_cursor(entries: Seq<Json>) -> Option<Seq<char>>
    decreases entries.len(),
{
    if entries.len() == 0 {
        None
    } else if valid_cursor(entries[0]) {
        cursor_value(entries[0])
    } else {
        first_cursor(entries.drop_first())
    }
}

/// `entries_of` distributes over concatenation.
pub proof fn lemma_entries_concat(a: Seq<Json>, b: Seq<Json>)
    ensures
        entries_of(a + b) == entries_of(a) + entries_of(b),
    decreases b.len(),
{
    if b.len() == 0 {
        assert(a + b =~= a);
        assert(entries_of(a) + entries_of(b) =~= entries_of(a));
    } else {
        lemma_entries_concat(a, b.drop_last());
        assert((a + b).drop_last() =~= a + b.drop_last());
        assert((a + b).last() == b.last());
        assert(entries_of(a + b) =~= entries_of(a) + entries_of(b));
    }
}

/// A prefix without valid cursors does not change the first cursor.
pub proof fn lemma_first_cursor_skip(p: Seq<Json>, s: Seq<Json>)
    requires
        forall|i: int| 0 <= i < p.len() ==> !valid_cursor(#[trigger] p[i]),
    ensures
        first_cursor(p + s) == first_cursor(s),
    decreases p.len(),
{
    if p.len() > 0 {
        assert((p + s)[0] == p[0]);
        assert((p + s).drop_first() =~= p.drop_first() + s);
        assert forall|i: int| 0 <= i < p.drop_first().len() implies !valid_cursor(#[trigger] p.drop_first()[i]) by {
            assert(p.drop_first()[i] == p[i + 1]);
        }
        lemma_first_cursor_skip(p.drop_first(), s);
    } else {
        assert(p + s =~= s);
    }
}

/// The cursor of the next page: the value of the first cursor entry that
/// has one; `None` when the response has no instructions array or no such
/// entry.
pub fn extract_cursor(root: &Json) -> (r: Option<String>)
    ensures
        match r {
            Some(c) => (json_array(json_pointer(*root, instructions_path())) matches Some(ins) && first_cursor(
                entries_of(ins),
            ) == Some(c@)),
            None => (json_array(json_pointer(*root, instructions_path())) matches Some(ins) ==> first_cursor(
                entries_of(ins),
            ) is None),
        },
{
    let ip = ["data", "bookmark_timeline_v2", "timeline", "instructions"];
    proof {
        assert(strs(ip@) =~= instructions_path());
    }
    let ins = match root.pointer(&ip) {
        Some(v) => match v.as_array() {
            Some(a) => a,
            None => {
                return None;
            },
        },
        None => {
            return None;
        },
    };
    let tp = ["content", "entryType"];
    let vp = ["content", "value"];
    proof {
        assert(strs(tp@) =~= seq!["content"@, "entryType"@]);
        assert(strs(vp@) =~= seq!["content"@, "value"@]);
    }
    let ghost all = entries_of(ins@);
    let mut k: usize = 0;
    while k < ins.len()
        invariant
            k <= ins@.len(),
            all == entries_of(ins@),
            json_array(json_pointer(*root, instructions_path())) == Some(ins@),
            strs(tp@) == seq!["content"@, "entryType"@],
            strs(vp@) == seq!["content"@, "value"@],
            forall|i: int|
                0 <= i < entries_of(ins@.take(k as int)).len() ==> !valid_cursor(
                    #[trigger] entries_of(ins@.take(k as int))[i],
                ),
        decreases ins@.len() - k,
    {
        let ghost pre = entries_of(ins@.take(k as int));
        let ghost post = entries_of(ins@.skip(k + 1));
        proof {
            assert(ins@.take(k + 1).drop_last() =~= ins@.take(k as int));
            lemma_entries_concat(ins@.take(k + 1), ins@.skip(k + 1));
            assert(ins@.take(k + 1) + ins@.skip(k + 1) =~= ins@);
        }
        let entries = match ins[k].get("entries") {
            Some(e) => e.as_array(),
            None => None,
        };
        match entries {
            Some(es) => {
                proof {
                    assert(entries_of(ins@.take(k + 1)) =~= pre + es@);
                }
                let mut j: usize = 0;
                while j < es.len()
                    invariant
                        j <= es@.len(),
                        all == pre + es@ + post,
                        json_array(json_pointer(*root, instructions_path())) == Some(ins@),
                        all == entries_of(ins@),
                        strs(tp@) == seq!["content"@, "entryType"@],
                        strs(vp@) == seq!["content"@, "value"@],
                        forall|i: int|
                            0 <= i < (pre + es@.take(j as int)).len() ==> !valid_cursor(
                                #[trigger] (pre + es@.take(j as int))[i],
                            ),
                    decreases es@.len() - j,
                {
                    let e = &es[j];
                    let is_cursor = match e.pointer(&tp) {
                        Some(t) => match t.as_str() {
                            Some(t) => str_eq(t, "TimelineTimelineCursor"),
                            None => false,
                        },
                        None => false,
                    };
                    if is_cursor {
                        let v = match e.pointer(&vp) {
                            Some(v) => v.as_str(),
                            None => None,
                        };
                        match v {
                            Some(v) => {
                                if chars_of(v).len() > 0 {
                                    proof {
                                        assert(valid_cursor(es@[j as int]));
                                        let tail = es@.skip(j as int) + post;
                                        assert(all =~= (pre + es@.take(j as int)) + tail);
                                        lemma_first_cursor_skip(pre + es@.take(j as int), tail);
                                        assert(tail[0] == es@[j as int]);
                                    }
                                    return Some(copy_str(v));
                                }
                            },
                            None => {},
                        }
                    }
                    proof {
                        assert(!valid_cursor(es@[j as int]));
                        assert(pre + es@.take(j + 1) =~= (pre + es@.take(j as int)).push(es@[j as int]));
                    }
                    j = j + 1;
                }
                proof {
                    assert(es@.take(j as int) =~= es@);
                }
            },
            None => {
                proof {
                    assert(entries_of(ins@.take(k + 1)) =~= pre);
                }
            },
        }
        k = k + 1;
    }
    proof {
        assert(ins@.take(k as int) =~= ins@);
        assert(all + Seq::<Json>::empty() =~= all);
        lemma_first_cursor_skip(all, Seq::<Json>::empty());
    }
    None
}

/// The ids of the download history (successes and failures alike): the
/// sync's record of processed bookmarks, each id once.
pub fn history_id_set(records: Vec<DownloadRecord>) -> (r: Vec<String>)
    ensures
        views(r@) == first_occurrences(records@.map_values(|d: DownloadRecord| d.video_id@)),
{
    let ghost all = records@.map_values(|d: DownloadRecord| d.video_id@);
    let mut out: Vec<String> = Vec::new();
    let mut i: usize = 0;
    while i < records.len()
        invariant
            i <= records@.len(),
            all == records@.map_values(|d: DownloadRecord| d.video_id@),
            views(out@) == first_occurrences(all.take(i as int)),
        decreases records@.len() - i,
    {
        let id = &records[i].video_id;
        proof {
            assert(all.take(i + 1).drop_last() =~= all.take(i as int));
            assert(all.take(i + 1).last() == id@);
            lemma_first_occurrences_contains(all.take(i as int), id@);
        }
        if !contains_text(&out, id) {
            let ghost before = views(out@);
            out.push(id.clone());
            proof {
                assert(views(out@) =~= before.push(id@));
            }
        }
        i = i + 1;
    }
    proof {
        assert(all.take(i as int) =~= all);
    }
    out
}

/// The sync preview of `all` bookmarks: how many there are, how many are
/// new (see [`find_new_bookmarks`]), and every video bookmark with whether
/// `downloaded` says it is downloaded.
pub fn bookmark_changes<F: Fn(&String) -> bool>(all: &Vec<BookmarkItem>, history_ids: &Vec<String>, downloaded: F) -> (r:
    BookmarkChanges)
    requires
        forall|s: &String| call_requires(downloaded, (s,)),
    ensures
        r.total == all@.len(),
        r.new_count == unseen(views(history_ids@), all@).len(),
        r.video_items@.len() == videos_of(all@).len(),
        forall|i: int|
            0 <= i < r.video_items@.len() ==> (#[trigger] r.video_items@[i]).item == videos_of(all@)[i]
                && call_ensures(downloaded, (&r.video_items@[i].item.tweet_id,), r.video_items@[i].downloaded),
{
    let fresh = find_new_bookmarks(history_ids, all);
    let mut videos: Vec<BookmarkVideo> = Vec::new();
    let mut i: usize = 0;
    while i < all.len()
        invariant
            i <= all@.len(),
            forall|s: &String| call_requires(downloaded, (s,)),
            videos@.len() == videos_of(all@.take(i as int)).len(),
            forall|k: int|
                0 <= k < videos@.len() ==> (#[trigger] videos@[k]).item == videos_of(all@.take(i as int))[k]
                    && call_ensures(downloaded, (&videos@[k].item.tweet_id,), videos@[k].downloaded),
        decreases all@.len() - i,
    {
        proof {
            assert(all@.take(i + 1).drop_last() =~= all@.take(i as int));
            assert(all@.take(i + 1).last() == all@[i as int]);
        }
        if all[i].has_video {
            let item = all[i].copy();
            let d = downloaded(&item.tweet_id);
            videos.push(BookmarkVideo { item, downloaded: d });
        }
        i = i + 1;
    }
    proof {
        assert(all@.take(i as int) =~= all@);
    }
    BookmarkChanges { total: all.len(), new_count: fresh.len(), video_items: videos }
}

/// The bookmarks that hold a video, in order.
pub open spec fn videos_of(s: Seq<BookmarkItem>) -> Seq<BookmarkItem>
    decreases s.len(),
{
    if s.len() == 0 {
        s
    } else if s.last().has_video {
        videos_of(s.drop_last()).push(s.last())
    } else {
        videos_of(s.drop_last())
    }
}

/// The video bookmarks are the bookmarks filtered by `has_video`: every
/// listed item holds a video, every bookmark that holds a video is listed,
/// and the listed items keep the order of the bookmarks.
pub proof fn law_video_items_are_the_video_bookmarks(s: Seq<BookmarkItem>)
    ensures
        videos_of(s) == s.filter(|b: BookmarkItem| b.has_video),
        forall|i: int| 0 <= i < videos_of(s).len() ==> (#[trigger] videos_of(s)[i]).has_video,
        forall|i: int| 0 <= i < s.len() && (#[trigger] s[i]).has_video ==> videos_of(s).contains(s[i]),
        videos_of(s).len() <= s.len(),
    decreases s.len(),
{
    reveal(Seq::filter);
    if s.len() > 0 {
        law_video_items_are_the_video_bookmarks(s.drop_last());
    }
    assert(videos_of(s) == s.filter(|b: BookmarkItem| b.has_video));
    broadcast use vstd::seq_lib::group_filter_ensures;
    assert forall|i: int| 0 <= i < s.len() && (#[trigger] s[i]).has_video implies videos_of(s).contains(s[i]) by {
        s.lemma_filter_contains(|b: BookmarkItem| b.has_video, i);
    }
    assert forall|i: int| 0 <= i < videos_of(s).len() implies (#[trigger] videos_of(s)[i]).has_video by {
        s.lemma_filter_pred(|b: BookmarkItem| b.has_video, i);
    }
}

// ==================== Messages and URLs ====================

/// An error of the Bookmarks endpoint, prefixed with a "queryId 已失效" hint
/// when it looks like a stale or unknown queryId ("could not find",
/// "queryid" or "not found", any case); other errors get a plain prefix.
pub open spec fn spec_query_id_failure_hint(msg: Seq<char>) -> Seq<char> {
    let l = lowercase(msg);
    if contains(l, "could not find"@) || contains(l, "queryid"@) || contains(l, "not found"@) {
        "queryId 已失效或不存在，请使用浏览器扩展重新捕获并推送："@ + msg
    } else {
        "书签接口返回错误: "@ + msg
    }
}

pub fn query_id_failure_hint(msg: &str) -> (r: String)
    ensures
        r@ == spec_query_id_failure_hint(msg@),
{
    let lower = chars_of(to_lowercase(msg).as_str());
    let mut s = if contains_exec(&lower, &chars_of("could not find")) || contains_exec(&lower, &chars_of("queryid"))
        || contains_exec(&lower, &chars_of("not found")) {
        "queryId 已失效或不存在，请使用浏览器扩展重新捕获并推送：".to_string()
    } else {
        "书签接口返回错误: ".to_string()
    };
    push_str(&mut s, msg);
    s
}

/// Bytes kept as they are by percent-encoding.
pub open spec fn is_unreserved(b: u8) -> bool {
    (65 <= b <= 90) || (97 <= b <= 122) || (48 <= b <= 57) || b == 45 || b == 95 || b == 46 || b == 126
}

/// The uppercase hex digit of `n` (`n < 16`).
pub open spec fn hex_digit(n: u8) -> char {
    if n < 10 {
        (48 + n) as char
    } else {
        (55 + n) as char
    }
}

/// Percent-encoding of a byte sequence: unreserved bytes as characters,
/// others as `%XX` (uppercase hex).
pub open spec fn percent_encoded(b: Seq<u8>) -> Seq<char>
    decreases b.len(),
{
    if b.len() == 0 {
        Seq::empty()
    } else {
        let x = b.last();
        percent_encoded(b.drop_last()) + if is_unreserved(x) {
            seq![x as char]
        } else {
            seq!['%', hex_digit(x / 16), hex_digit(x % 16)]
        }
    }
}

fn hex_digit_exec(n: u8) -> (r: char)
    requires
        n < 16,
    ensures
        r == hex_digit(n),
{
    if n < 10 {
        (48 + n) as char
    } else {
        (55 + n) as char
    }
}

/// Percent-encodes a query parameter: the UTF-8 bytes of `s`, unreserved
/// ones kept, others as `%XX`.
pub fn urlencode(s: &str) -> (r: String)
    ensures
        r@ == percent_encoded(vstd::utf8::encode_utf8(s@)),
{
    let b = s.as_bytes();
    let mut out = String::new();
    let mut i: usize = 0;
    while i < b.len()
        invariant
            i <= b@.len(),
            out@ == percent_encoded(b@.take(i as int)),
        decreases b@.len() - i,
    {
        let x = b[i];
        proof {
            assert(b@.take(i + 1).drop_last() =~= b@.take(i as int));
            assert(b@.take(i + 1).last() == x);
        }
        if (65 <= x && x <= 90) || (97 <= x && x <= 122) || (48 <= x && x <= 57) || x == 45 || x == 95 || x == 46
            || x == 126 {
            push_char(&mut out, x as char);
            proof {
                assert(out@ =~= percent_encoded(b@.take(i + 1)));
            }
        } else {
            push_char(&mut out, '%');
            push_char(&mut out, hex_digit_exec(x / 16));
            push_char(&mut out, hex_digit_exec(x % 16));
            proof {
                assert(out@ =~= percent_encoded(b@.take(i + 1)));
            }
        }
        i = i + 1;
    }
    proof {
        assert(b@.take(i as int) =~= b@);
    }
    out
}

// ==================== Queuing ====================

/// The download config of a bookmark video: the tweet's URL and id, its
/// text as title, its author as uploader, the default format and name
/// template, into `output_dir`.
pub open spec fn is_bookmark_config(c: DownloadConfig, item: BookmarkItem, output_dir: Seq<char>) -> bool {
    &&& c.url == item.url
    &&& c.video_id == Some(item.tweet_id)
    &&& c.title == Some(item.text)
    &&& c.uploader == Some(item.author_name)
    &&& c.output_dir@ == output_dir
    &&& c.thumbnail is None
    &&& c.duration == 0 && c.view_count == 0 && c.like_count == 0
    &&& c.format_id@ == spec_default_format()
    &&& c.output_template@ == spec_default_output_template()
    &&& !c.extract_audio && !c.embed_subtitles && !c.embed_thumbnail && !c.write_thumbnail
    &&& c.proxy is None
    &&& c.socket_timeout == 30
    &&& c.cookies_from_browser is None
    &&& c.max_height == 0
    &&& c.download_archive is None
    &&& c.playlist_items is None
    &&& c.download_rate_limit is None
}

/// The download config of a bookmark video.
pub fn bookmark_config(item: &BookmarkItem, output_dir: &str) -> (r: DownloadConfig)
    ensures
        is_bookmark_config(r, *item, output_dir@),
{
    DownloadConfig {
        url: item.url.clone(),
        video_id: Some(item.tweet_id.clone()),
        title: Some(item.text.clone()),
        thumbnail: None,
        uploader: Some(item.author_name.clone()),
        duration: 0,
        view_count: 0,
        like_count: 0,
        format_id: default_format(),
        output_dir: output_dir.to_string(),
        output_template: default_output_template(),
        extract_audio: false,
        embed_subtitles: false,
        embed_thumbnail: false,
        write_thumbnail: false,
        proxy: None,
        socket_timeout: 30,
        cookies_from_browser: None,
        max_height: 0,
        download_archive: None,
        playlist_items: None,
        download_rate_limit: None,
    }
}

/// Whether chosen item `i` is queued: it has a video, its trimmed URL is
/// not empty, not held by the queue `o` it started from, and not that of
/// an earlier chosen video.
pub open spec fn is_new_item(o: QueueView, items: Seq<BookmarkItem>, i: int) -> bool {
    &&& items[i].has_video
    &&& trim(items[i].url@).len() > 0
    &&& !holds_url(o, trim(items[i].url@))
    &&& forall|j: int| 0 <= j < i && #[trigger] items[j].has_video ==> trim(items[j].url@) != trim(items[i].url@)
}

/// The indices, in order, of the queued items among the first `n`.
pub open spec fn new_item_indices(o: QueueView, items: Seq<BookmarkItem>, n: int) -> Seq<int>
    decreases n,
{
    if n <= 0 {
        Seq::empty()
    } else {
        let r = new_item_indices(o, items, n - 1);
        if is_new_item(o, items, n - 1) {
            r.push(n - 1)
        } else {
            r
        }
    }
}

/// The task queued for a bookmark video: its bookmark config (URL
/// trimmed), its text as title, no card information, the bookmark source,
/// waiting and not resumed.
pub open spec fn is_bookmark_task(t: QueuedTask, item: BookmarkItem, output_dir: Seq<char>) -> bool {
    &&& t.config.url@ == trim(item.url@)
    &&& is_bookmark_config(DownloadConfig { url: item.url, ..t.config }, item, output_dir)
    &&& t.title == Some(item.text)
    &&& t.info is None
    &&& t.source == SOURCE_BOOKMARK
    &&& !t.resume
    &&& t.status@ == "queued"@
}

/// Some chosen video before index `i` has the (non-empty) trimmed URL `u`.
pub open spec fn item_url(items: Seq<BookmarkItem>, i: int, u: Seq<char>) -> bool {
    exists|j: int| 0 <= j < i && #[trigger] items[j].has_video && trim(items[j].url@).len() > 0 && trim(items[j].url@) == u
}

proof fn lemma_new_item_indices_bound(o: QueueView, items: Seq<BookmarkItem>, n: int)
    requires
        0 <= n,
    ensures
        new_item_indices(o, items, n).len() <= n,
        forall|k: int| 0 <= k < new_item_indices(o, items, n).len() ==> 0 <= #[trigger] new_item_indices(o, items, n)[k] < n,
    decreases n,
{
    if n > 0 {
        lemma_new_item_indices_bound(o, items, n - 1);
    }
}

/// Queues the chosen bookmark videos as bookmark tasks that wait for the
/// queue to be started, and counts the ones queued: exactly the chosen
/// items with a video whose URL is new to the queue (see `is_new_item`),
/// in order, each as a bookmark task (see `is_bookmark_task`); items
/// without video are skipped. Afterwards the URL of every chosen video
/// (when its trimmed URL is not empty) is held by the queue; only the
/// waiting list grows, by exactly the queued tasks.
pub fn confirm_bookmark_enqueue(queue: &mut DownloadQueue, items: &Vec<BookmarkItem>, output_dir: &str) -> (r:
    ConfirmResult)
    requires
        wf(old(queue)@),
    ensures
        wf(final(queue)@),
        r.queued_count == new_item_indices(old(queue)@, items@, items@.len() as int).len(),
        final(queue)@.queued.len() == old(queue)@.queued.len() + r.queued_count,
        final(queue)@.queued.take(old(queue)@.queued.len() as int) == old(queue)@.queued,
        forall|k: int|
            0 <= k < r.queued_count ==> is_bookmark_task(
                #[trigger] final(queue)@.queued[old(queue)@.queued.len() + k],
                items@[new_item_indices(old(queue)@, items@, items@.len() as int)[k]],
                output_dir@,
            ),
        final(queue)@.running == old(queue)@.running,
        final(queue)@.paused_tasks == old(queue)@.paused_tasks,
        final(queue)@.paused == old(queue)@.paused,
        final(queue)@.slots == old(queue)@.slots,
        forall|i: int|
            0 <= i < items@.len() && (#[trigger] items@[i]).has_video && trim(items@[i].url@).len() > 0
                ==> holds_url(final(queue)@, trim(items@[i].url@)),
{
    let ghost o = queue@;
    let ghost its = items@;
    let mut queued: usize = 0;
    let mut i: usize = 0;
    while i < items.len()
        invariant
            its == items@,
            i <= items@.len(),
            queued <= i,
            queued == new_item_indices(o, its, i as int).len(),
            wf(queue@),
            queue@.queued.len() == o.queued.len() + queued,
            queue@.queued.take(o.queued.len() as int) == o.queued,
            forall|k: int|
                0 <= k < queued ==> is_bookmark_task(
                    #[trigger] queue@.queued[o.queued.len() + k],
                    its[new_item_indices(o, its, i as int)[k]],
                    output_dir@,
                ),
            forall|u: Seq<char>| #[trigger] holds_url(queue@, u) <==> holds_url(o, u) || item_url(its, i as int, u),
            queue@.running == o.running,
            queue@.paused_tasks == o.paused_tasks,
            queue@.paused == o.paused,
            queue@.slots == o.slots,
            forall|j: int|
                0 <= j < i && (#[trigger] items@[j]).has_video && trim(items@[j].url@).len() > 0 ==> holds_url(
                    queue@,
                    trim(items@[j].url@),
                ),
        decreases items@.len() - i,
    {
        let ghost idx = new_item_indices(o, its, i as int);
        let ghost t = trim(its[i as int].url@);
        proof {
            lemma_new_item_indices_bound(o, its, i as int);
        }
        if items[i].has_video {
            let ghost before = queue@;
            proof {
                if t.len() > 0 {
                    if item_url(its, i as int, t) {
                        let j = choose|j: int|
                            0 <= j < i && #[trigger] its[j].has_video && trim(its[j].url@).len() > 0 && trim(its[j].url@) == t;
                        assert(!is_new_item(o, its, i as int));
                    }
                    if !holds_url(before, t) {
                        assert forall|j: int| 0 <= j < i && #[trigger] its[j].has_video implies trim(its[j].url@) != t by {
                            if trim(its[j].url@) == t {
                                assert(item_url(its, i as int, t));
                            }
                        }
                        assert(is_new_item(o, its, i as int));
                    }
                }
            }
            let cfg = bookmark_config(&items[i], output_dir);
            let r = queue.enqueue(cfg, Some(items[i].text.clone()), None, SOURCE_BOOKMARK);
            proof {
                assert forall|j: int|
                    0 <= j < i + 1 && (#[trigger] items@[j]).has_video && trim(items@[j].url@).len() > 0 implies holds_url(
                    queue@,
                    trim(items@[j].url@),
                ) by {
                    if queue@.queued.len() > before.queued.len() {
                        lemma_holds_after_push(before, queue@.queued.last(), trim(items@[j].url@));
                        assert(queue@ == QueueView {
                            queued: before.queued.push(queue@.queued.last()),
                            next_seq: queue@.next_seq,
                            ..before
                        });
                    }
                }
                assert forall|u: Seq<char>| #[trigger] holds_url(queue@, u) <==> holds_url(o, u) || item_url(its, i + 1, u) by {
                    assert(holds_url(before, u) <==> holds_url(o, u) || item_url(its, i as int, u));
                    if u == t && t.len() > 0 {
                        assert(its[i as int].has_video);
                        assert(item_url(its, i + 1, u));
                    }
                    if item_url(its, i as int, u) {
                        let j = choose|j: int|
                            0 <= j < i && #[trigger] its[j].has_video && trim(its[j].url@).len() > 0 && trim(its[j].url@) == u;
                        assert(item_url(its, i + 1, u));
                    }
                    if item_url(its, i + 1, u) && !item_url(its, i as int, u) {
                        let j = choose|j: int|
                            0 <= j < i + 1 && #[trigger] its[j].has_video && trim(its[j].url@).len() > 0 && trim(its[j].url@) == u;
                        assert(j == i);
                    }
                    if queue@.queued.len() > before.queued.len() {
                        assert(queue@ == QueueView {
                            queued: before.queued.push(queue@.queued.last()),
                            next_seq: queue@.next_seq,
                            ..before
                        });
                        lemma_holds_after_push(before, queue@.queued.last(), u);
                        assert(url_of(queue@.queued.last()) == t);
                        assert(holds_url(queue@, u) == holds_url(
                            QueueView { queued: before.queued.push(queue@.queued.last()), ..before },
                            u,
                        ));
                    } else {
                        if t.len() > 0 {
                            assert(queue@ == QueueView { next_seq: queue@.next_seq, ..before });
                            assert(holds_url(before, t));
                        } else {
                            assert(queue@ == before);
                        }
                        assert(holds_url(queue@, u) == holds_url(before, u));
                    }
                }
            }
            match r {
                Ok(_) => {
                    proof {
                        assert(is_new_item(o, its, i as int));
                        assert(new_item_indices(o, its, i + 1) == idx.push(i as int));
                        assert(queue@.queued == before.queued.push(queue@.queued.last()));
                        assert(is_bookmark_task(queue@.queued.last(), its[i as int], output_dir@));
                        assert forall|k: int| 0 <= k < queued + 1 implies is_bookmark_task(
                            #[trigger] queue@.queued[o.queued.len() + k],
                            its[new_item_indices(o, its, i + 1)[k]],
                            output_dir@,
                        ) by {
                            if k < queued {
                                assert(queue@.queued[o.queued.len() + k] == before.queued[o.queued.len() + k]);
                            }
                        }
                    }
                    queued = queued + 1;
                    proof {
                        assert(queue@.queued.take(o.queued.len() as int) =~= o.queued);
                    }
                },
                Err(_) => {
                    proof {
                        assert(!is_new_item(o, its, i as int));
                        assert(new_item_indices(o, its, i + 1) == idx);
                    }
                },
            }
        } else {
            proof {
                assert(!is_new_item(o, its, i as int));
                assert(new_item_indices(o, its, i + 1) == idx);
                assert forall|u: Seq<char>| #[trigger] holds_url(queue@, u) <==> holds_url(o, u) || item_url(its, i + 1, u) by {
                    if item_url(its, i + 1, u) && !item_url(its, i as int, u) {
                        let j = choose|j: int|
                            0 <= j < i + 1 && #[trigger] its[j].has_video && trim(its[j].url@).len() > 0 && trim(its[j].url@) == u;
                        assert(j == i);
                    }
                    if item_url(its, i as int, u) {
                        let j = choose|j: int|
                            0 <= j < i && #[trigger] its[j].has_video && trim(its[j].url@).len() > 0 && trim(its[j].url@) == u;
                        assert(item_url(its, i + 1, u));
                    }
                }
            }
        }
        i = i + 1;
    }
    ConfirmResult { queued_count: queued }
}

} // verus!
