//! Cookie validation: the yt-dlp command that dumps a browser's cookies,
//! reading x.com's `auth_token` from the dump, and reading the logged-in
//! user's name from x.com's home page.
use vstd::prelude::*;
use vstd::utf8::encode_utf8;
use crate::numbers::{dec, u64_to_string};
use crate::text::{
    chars_of, string_of, push_str, push_arg, views, trim, trim_exec, split, split_exec, lowercase, to_lowercase,
    contains, contains_exec, find_from, find_from_exec, lemma_find_from, find_char_from, find_char_from_exec,
    lemma_find_char_from, skip_ws, skip_ws_exec, starts_with, starts_with_exec, slice_vec, chars_eq, push_char,
};

use sha2::Digest;

verus! {

broadcast use vstd::string::group_string_axioms;

/// What `char::is_alphanumeric` answers (Unicode letters and numbers).
pub uninterp spec fn unicode_alphanumeric(c: char) -> bool;

/// Calls `char::is_alphanumeric`. The contract claims that the answer is a
/// function of the character (`unicode_alphanumeric`) and, as std
/// documents (alphabetic or numeric), that among ASCII characters exactly
/// the letters and digits are alphanumeric; for other characters it is
/// left unsaid.
#[verifier::external_body]
fn is_alphanumeric(c: char) -> (r: bool)
    ensures
        r == unicode_alphanumeric(c),
        c <= '\u{7f}' ==> (r <==> crate::text::is_ascii_alnum(c)),
{
    c.is_alphanumeric()
}

/// The quoted JSON key of the user name.
pub const SCREEN_NAME_KEY: &'static str = "\"screen_name\"";

/// A character of a user name: `_`, or a letter or digit (for ASCII, the
/// letters `a`-`z`, `A`-`Z` and the digits).
pub open spec fn is_name_char(c: char) -> bool {
    if c <= '\u{7f}' {
        crate::text::is_ascii_alnum(c) || c == '_'
    } else {
        unicode_alphanumeric(c)
    }
}

/// A plausible user name: not empty, at most 30 bytes, letters, digits and
/// `_` only.
pub open spec fn is_screen_name(n: Seq<char>) -> bool {
    &&& n.len() > 0
    &&& encode_utf8(n).len() <= 30
    &&& forall|i: int| 0 <= i < n.len() ==> is_name_char(#[trigger] n[i])
}

/// The user name of `: "<name>"` read from index `j` (blanks allowed
/// around the colon), when it is a plausible one.
pub open spec fn name_at(s: Seq<char>, j: int) -> Option<Seq<char>> {
    let a = skip_ws(s, j);
    if 0 <= a < s.len() && s[a] == ':' {
        let b = skip_ws(s, a + 1);
        if 0 <= b < s.len() && s[b] == '"' {
            match find_char_from(s, '"', b + 1) {
                Some(e) => if is_screen_name(s.subrange(b + 1, e)) {
                    Some(s.subrange(b + 1, e))
                } else {
                    None
                },
                None => None,
            }
        } else {
            None
        }
    } else {
        None
    }
}

/// The first plausible user name of a `"screen_name": "<name>"` entry at
/// or after index `from`.
pub open spec fn screen_name_from(s: Seq<char>, from: int) -> Option<Seq<char>>
    decreases s.len() + 1 - from,
{
    if from < 0 {
        None
    } else {
        match find_from(s, SCREEN_NAME_KEY@, from) {
            Some(pos) => {
                let j = pos + SCREEN_NAME_KEY@.len();
                match name_at(s, j) {
                    Some(n) => Some(n),
                    None => if from < j && j <= s.len() {
                        screen_name_from(s, j)
                    } else {
                        None
                    },
                }
            },
            None => None,
        }
    }
}

/// A text has at least as many UTF-8 bytes as characters, and at most
/// four bytes per character.
proof fn lemma_utf8_len_bounds(c: Seq<char>)
    ensures
        c.len() <= encode_utf8(c).len() <= 4 * c.len(),
    decreases c.len(),
{
    if c.len() > 0 {
        lemma_utf8_len_bounds(c.drop_first());
        let e = vstd::utf8::encode_scalar(c[0] as u32);
        assert(1 <= e.len() <= 4);
    }
}

fn is_screen_name_exec(n: &Vec<char>) -> (r: bool)
    ensures
        r == is_screen_name(n@),
{
    if n.len() == 0 {
        return false;
    }
    proof {
        lemma_utf8_len_bounds(n@);
    }
    if n.len() > 30 {
        return false;
    }
    let text = string_of(n);
    if text.as_str().len() > 30 {
        return false;
    }
    let mut i: usize = 0;
    while i < n.len()
        invariant
            i <= n@.len(),
            forall|k: int| 0 <= k < i ==> is_name_char(#[trigger] n@[k]),
        decreases n@.len() - i,
    {
        if !(is_alphanumeric(n[i]) || n[i] == '_') {
            return false;
        }
        i = i + 1;
    }
    true
}

fn name_at_exec(s: &Vec<char>, j: usize) -> (r: Option<String>)
    requires
        j <= s@.len(),
    ensures
        match r {
            Some(n) => name_at(s@, j as int) == Some(n@),
            None => name_at(s@, j as int) is None,
        },
{
    let a = skip_ws_exec(s, j);
    if a < s.len() && s[a] == ':' {
        let b = skip_ws_exec(s, a + 1);
        if b < s.len() && s[b] == '"' {
            match find_char_from_exec(s, '"', b + 1) {
                Some(e) => {
                    proof {
                        lemma_find_char_from(s@, '"', b + 1);
                    }
                    let name = slice_vec(s, b + 1, e);
                    if is_screen_name_exec(&name) {
                        Some(string_of(&name))
                    } else {
                        None
                    }
                },
                None => None,
            }
        } else {
            None
        }
    } else {
        None
    }
}

/// Reads the logged-in user's name from x.com's page: the first
/// `"screen_name": "<name>"` entry whose name is plausible (see
/// [`is_screen_name`]).
pub fn extract_screen_name_from_html(html: &str) -> (r: Option<String>)
    ensures
        match r {
            Some(n) => screen_name_from(html@, 0) == Some(n@),
            None => screen_name_from(html@, 0) is None,
        },
{
    let s = chars_of(html);
    let key = chars_of(SCREEN_NAME_KEY);
    proof {
        reveal_strlit("\"screen_name\"");
        assert(key@.len() == 13);
    }
    let mut from: usize = 0;
    while from <= s.len()
        invariant
            s@ == html@,
            key@ == SCREEN_NAME_KEY@,
            key@.len() == 13,
            screen_name_from(s@, from as int) == screen_name_from(s@, 0),
        decreases s@.len() + 1 - from,
    {
        match find_from_exec(&s, &key, from) {
            Some(pos) => {
                proof {
                    lemma_find_from(s@, key@, from as int);
                }
                let j = pos + key.len();
                match name_at_exec(&s, j) {
                    Some(n) => {
                        return Some(n);
                    },
                    None => {
                        from = j;
                    },
                }
            },
            None => {
                return None;
            },
        }
    }
    proof {
        assert(screen_name_from(s@, from as int) is None);
    }
    None
}

/// The name after the first `screen_name` anywhere: the text between the
/// first two double quotes after the next colon.
pub open spec fn loose_screen_name(s: Seq<char>) -> Option<Seq<char>> {
    match find_from(s, "screen_name"@, 0) {
        Some(idx) => match find_char_from(s, ':', idx) {
            Some(colon) => match find_char_from(s, '"', colon + 1) {
                Some(start) => match find_char_from(s, '"', start + 1) {
                    Some(end) => Some(s.subrange(start + 1, end)),
                    None => None,
                },
                None => None,
            },
            None => None,
        },
        None => None,
    }
}

/// The outcome of checking an `auth_token` against x.com's home page,
/// given the reply's status and body: a redirect means the token is
/// invalid or expired; another non-2xx status is an error; otherwise the
/// user name is read from the page (strictly, then loosely).
pub open spec fn spec_verify_outcome(status: u16, body: Seq<char>) -> Result<Seq<char>, (Seq<char>, Seq<char>)> {
    if 300 <= status <= 399 {
        Err(("auth_token 已过期或无效，请在浏览器中重新登录 x.com"@, "token_invalid"@))
    } else if !(200 <= status <= 299) {
        Err(("x.com 返回错误 (HTTP "@ + dec(status as nat) + ")"@, "token_invalid"@))
    } else {
        match screen_name_from(body, 0) {
            Some(n) => Ok(n),
            None => match loose_screen_name(body) {
                Some(n) => Ok(n),
                None => Err(("未能从 x.com 页面中解析出用户名，可能页面结构已变更"@, "parse"@)),
            },
        }
    }
}

pub open spec fn verify_view(r: Result<String, (String, &'static str)>) -> Result<Seq<char>, (Seq<char>, Seq<char>)> {
    match r {
        Ok(n) => Ok(n@),
        Err((m, c)) => Err((m@, c@)),
    }
}

fn loose_screen_name_exec(s: &Vec<char>) -> (r: Option<String>)
    ensures
        match r {
            Some(n) => loose_screen_name(s@) == Some(n@),
            None => loose_screen_name(s@) is None,
        },
{
    let n = s.len();
    match find_from_exec(s, &chars_of("screen_name"), 0) {
        Some(idx) => {
            proof {
                lemma_find_from(s@, "screen_name"@, 0);
            }
            match find_char_from_exec(s, ':', idx) {
                Some(colon) => {
                    proof {
                        lemma_find_char_from(s@, ':', idx as int);
                        assert(colon < n);
                    }
                    match find_char_from_exec(s, '"', colon + 1) {
                        Some(start) => {
                            proof {
                                lemma_find_char_from(s@, '"', colon + 1);
                                assert(start < n);
                            }
                            match find_char_from_exec(s, '"', start + 1) {
                                Some(end) => {
                                    proof {
                                        lemma_find_char_from(s@, '"', start + 1);
                                    }
                                    Some(string_of(&slice_vec(s, start + 1, end)))
                                },
                                None => None,
                            }
                        },
                        None => None,
                    }
                },
                None => None,
            }
        },
        None => None,
    }
}

/// Decides the outcome of checking an `auth_token` (see
/// [`spec_verify_outcome`]).
pub fn verify_outcome(status: u16, body: &str) -> (r: Result<String, (String, &'static str)>)
    ensures
        verify_view(r) == spec_verify_outcome(status, body@),
{
    if 300 <= status && status <= 399 {
        return Err(("auth_token 已过期或无效，请在浏览器中重新登录 x.com".to_string(), "token_invalid"));
    }
    if !(200 <= status && status <= 299) {
        let mut m = "x.com 返回错误 (HTTP ".to_string();
        let n = u64_to_string(status as u64);
        push_str(&mut m, n.as_str());
        push_str(&mut m, ")");
        return Err((m, "token_invalid"));
    }
    match extract_screen_name_from_html(body) {
        Some(n) => Ok(n),
        None => match loose_screen_name_exec(&chars_of(body)) {
            Some(n) => Ok(n),
            None => Err(("未能从 x.com 页面中解析出用户名，可能页面结构已变更".to_string(), "parse")),
        },
    }
}

// ==================== Cookie dump ====================

/// A browser was chosen (neither empty nor "none").
pub fn browser_selected(browser: &str) -> (r: bool)
    ensures
        r == (browser@.len() > 0 && browser@ != "none"@),
{
    chars_of(browser).len() > 0 && !crate::text::str_eq(browser, "none")
}

/// The yt-dlp command that dumps `browser`'s cookies into `cookie_file`
/// (through the application proxy when one is set), visiting x.com's home
/// page without downloading.
pub open spec fn spec_dump_command(ytdlp: Seq<char>, browser: Seq<char>, cookie_file: Seq<char>, proxy_url: Option<Seq<char>>) -> Seq<Seq<char>> {
    seq![ytdlp, "--cookies-from-browser"@, browser, "--cookies"@, cookie_file, "--no-warnings"@, "--no-color"@]
        + match proxy_url {
        Some(p) => seq!["--proxy"@, p],
        None => Seq::empty(),
    } + seq!["--skip-download"@, "--flat-playlist"@, "https://x.com/home"@]
}

pub fn dump_command(ytdlp: &str, browser: &str, cookie_file: &str, proxy_url: Option<String>) -> (r: Vec<String>)
    ensures
        views(r@) == spec_dump_command(ytdlp@, browser@, cookie_file@, match proxy_url {
            Some(p) => Some(p@),
            None => None,
        }),
{
    let mut args: Vec<String> = Vec::new();
    push_arg(&mut args, ytdlp);
    push_arg(&mut args, "--cookies-from-browser");
    push_arg(&mut args, browser);
    push_arg(&mut args, "--cookies");
    push_arg(&mut args, cookie_file);
    push_arg(&mut args, "--no-warnings");
    push_arg(&mut args, "--no-color");
    match &proxy_url {
        Some(p) => {
            push_arg(&mut args, "--proxy");
            push_arg(&mut args, p.as_str());
        },
        None => {},
    }
    push_arg(&mut args, "--skip-download");
    push_arg(&mut args, "--flat-playlist");
    push_arg(&mut args, "https://x.com/home");
    proof {
        assert(views(args@) =~= spec_dump_command(ytdlp@, browser@, cookie_file@, match proxy_url {
            Some(p) => Some(p@),
            None => None,
        }));
    }
    args
}

/// The `auth_token` on a line of a Netscape cookie file: a trimmed,
/// non-comment line of at least seven tab-separated fields whose domain is
/// `.x.com` or `x.com`, whose name is `auth_token` and whose value is not
/// empty.
pub open spec fn token_on_line(line: Seq<char>) -> Option<Seq<char>> {
    let l = trim(line);
    if l.len() == 0 || l[0] == '#' {
        None
    } else {
        let f = split(l, '\t');
        if f.len() >= 7 && (f[0] == ".x.com"@ || f[0] == "x.com"@) && f[5] == "auth_token"@ && f[6].len() > 0 {
            Some(f[6])
        } else {
            None
        }
    }
}

/// The first `auth_token` among the lines from index `i`.
pub open spec fn token_from(lines: Seq<Seq<char>>, i: int) -> Option<Seq<char>>
    decreases lines.len() - i,
{
    if i < 0 || i >= lines.len() {
        None
    } else if token_on_line(lines[i]) is Some {
        token_on_line(lines[i])
    } else {
        token_from(lines, i + 1)
    }
}

fn token_on_line_exec(line: &Vec<char>) -> (r: Option<String>)
    ensures
        match r {
            Some(t) => token_on_line(line@) == Some(t@),
            None => token_on_line(line@) is None,
        },
{
    let l = trim_exec(line);
    if l.len() == 0 || l[0] == '#' {
        return None;
    }
    let f = split_exec(&l, '\t');
    let ghost fv = split(l@, '\t');
    proof {
        assert(f@.len() == fv.len());
    }
    if f.len() >= 7 {
        proof {
            assert forall|k: int| 0 <= k < 7 implies f@[k]@ == fv[k] by {
                assert(f@.map_values(|v: Vec<char>| v@)[k] == f@[k]@);
            }
        }
        if (chars_eq(&f[0], &chars_of(".x.com")) || chars_eq(&f[0], &chars_of("x.com"))) && chars_eq(
            &f[5],
            &chars_of("auth_token"),
        ) && f[6].len() > 0 {
            return Some(string_of(&f[6]));
        }
    }
    None
}

/// Reads x.com's `auth_token` from the text of a Netscape cookie file; the
/// error "未找到 auth_token" when no line holds one.
pub fn parse_auth_token(text: &str) -> (r: Result<String, String>)
    ensures
        match r {
            Ok(t) => token_from(split(text@, '\n'), 0) == Some(t@),
            Err(e) => token_from(split(text@, '\n'), 0) is None && e@ == "未找到 auth_token"@,
        },
{
    let lines = split_exec(&chars_of(text), '\n');
    let ghost ls = split(text@, '\n');
    let mut i: usize = 0;
    while i < lines.len()
        invariant
            i <= lines@.len(),
            lines@.map_values(|v: Vec<char>| v@) == ls,
            ls == split(text@, '\n'),
            token_from(ls, i as int) == token_from(ls, 0),
        decreases lines@.len() - i,
    {
        proof {
            assert(lines@.map_values(|v: Vec<char>| v@)[i as int] == lines@[i as int]@);
            assert(ls[i as int] == lines@[i as int]@);
            assert(ls.len() == lines@.len());
        }
        match token_on_line_exec(&lines[i]) {
            Some(t) => {
                assert(token_from(ls, i as int) == Some(t@));
                return Ok(t);
            },
            None => {},
        }
        i = i + 1;
    }
    Err("未找到 auth_token".to_string())
}

/// Why a cookie dump gave no `auth_token`, from yt-dlp's stderr (any case):
/// a locked cookie database, a browser never used, or no x.com login.
pub open spec fn spec_dump_failure(browser: Seq<char>, stderr: Seq<char>) -> (Seq<char>, Seq<char>) {
    let l = lowercase(stderr);
    if contains(l, "could not copy"@) || (contains(l, "copy"@) && contains(l, "database"@)) {
        (browser + " 正在运行，Cookie 数据库被锁定，请关闭浏览器后重试"@, "browser_locked"@)
    } else if contains(l, "could not find"@) || contains(l, "not found"@) {
        ("未找到 "@ + browser + " Cookie 数据库（浏览器未安装或从未使用）"@, "browser_not_found"@)
    } else {
        ("未在浏览器 cookie 中找到 x.com 的 auth_token，请确保已在浏览器中登录 x.com"@, "no_auth_token"@)
    }
}

pub fn dump_failure(browser: &str, stderr: &str) -> (r: (String, &'static str))
    ensures
        (r.0@, r.1@) == spec_dump_failure(browser@, stderr@),
{
    let l = chars_of(to_lowercase(stderr).as_str());
    if contains_exec(&l, &chars_of("could not copy")) || (contains_exec(&l, &chars_of("copy")) && contains_exec(
        &l,
        &chars_of("database"),
    )) {
        let mut m = browser.to_string();
        push_str(&mut m, " 正在运行，Cookie 数据库被锁定，请关闭浏览器后重试");
        (m, "browser_locked")
    } else if contains_exec(&l, &chars_of("could not find")) || contains_exec(&l, &chars_of("not found")) {
        let mut m = "未找到 ".to_string();
        push_str(&mut m, browser);
        push_str(&mut m, " Cookie 数据库（浏览器未安装或从未使用）");
        (m, "browser_not_found")
    } else {
        ("未在浏览器 cookie 中找到 x.com 的 auth_token，请确保已在浏览器中登录 x.com".to_string(), "no_auth_token")
    }
}

/// The failure of a cookie dump whose yt-dlp run failed: a timeout, or
/// another error.
pub fn dump_error(browser: &str, msg: &str) -> (r: (String, &'static str))
    ensures
        (r.0@, r.1@) == if contains(msg@, "timeout"@) {
            (browser@ + " 验证超时"@, "timeout"@)
        } else {
            ("cookies 提取异常: "@ + msg@, "unknown"@)
        },
{
    if contains_exec(&chars_of(msg), &chars_of("timeout")) {
        let mut m = browser.to_string();
        push_str(&mut m, " 验证超时");
        (m, "timeout")
    } else {
        let mut m = "cookies 提取异常: ".to_string();
        push_str(&mut m, msg);
        (m, "unknown")
    }
}

// ==================== Username cache ====================

/// The `config` keys of the cached user name and what it belongs to.
pub const KEY_CACHED_BROWSER: &'static str = "cookies_username_browser";
pub const KEY_CACHED_FINGERPRINT: &'static str = "cookies_username_fingerprint";
pub const KEY_CACHED_USERNAME: &'static str = "cookies_username";

/// The name cached when no attempt could verify the cookies (read as "not
/// logged in").
pub const NO_USER: &'static str = "@None";

/// How many times the token is verified before giving up.
pub const MAX_VERIFY_ATTEMPTS: u32 = 3;

/// The cached user name, used only when it was cached for the same browser.
pub fn cached_username(cached_browser: Option<&str>, cached_name: Option<String>, browser: &str) -> (r: Option<String>)
    ensures
        match cached_browser {
            Some(b) if b@ == browser@ => match (r, cached_name) {
                (Some(x), Some(y)) => x@ == y@,
                (None, None) => true,
                _ => false,
            },
            _ => r is None,
        },
{
    match cached_browser {
        Some(b) => {
            if crate::text::str_eq(b, browser) {
                match cached_name {
                    Some(n) => Some(n),
                    None => None,
                }
            } else {
                None
            }
        },
        None => None,
    }
}

/// The entries written to the `config` table for a verified (or failed)
/// browser: the browser, the cookies' fingerprint and the user name.
pub fn username_cache_entries(browser: &str, fingerprint: &str, username: &str) -> (r: Vec<(String, String)>)
    ensures
        r@.len() == 3,
        r@[0].0@ == KEY_CACHED_BROWSER@ && r@[0].1@ == browser@,
        r@[1].0@ == KEY_CACHED_FINGERPRINT@ && r@[1].1@ == fingerprint@,
        r@[2].0@ == KEY_CACHED_USERNAME@ && r@[2].1@ == username@,
{
    let mut v: Vec<(String, String)> = Vec::new();
    v.push((KEY_CACHED_BROWSER.to_string(), browser.to_string()));
    v.push((KEY_CACHED_FINGERPRINT.to_string(), fingerprint.to_string()));
    v.push((KEY_CACHED_USERNAME.to_string(), username.to_string()));
    v
}

/// What SHA-256 computes for a byte sequence.
pub uninterp spec fn sha256_of(bytes: Seq<u8>) -> Seq<u8>;

/// Calls `sha2::Sha256::digest`. The contract claims that the digest is a
/// function of the bytes (`sha256_of`) and is 32 bytes long, the SHA-256
/// output size.
#[verifier::external_body]
fn sha256(bytes: &[u8]) -> (r: Vec<u8>)
    ensures
        r@ == sha256_of(bytes@),
        r@.len() == 32,
{
    sha2::Sha256::digest(bytes).to_vec()
}

/// A lowercase hexadecimal digit.
pub open spec fn lower_hex_digit(n: u8) -> char {
    if n < 10 {
        (48 + n) as char
    } else {
        (87 + n) as char
    }
}

/// The bytes in lowercase hexadecimal, two digits each.
pub open spec fn lower_hex(b: Seq<u8>) -> Seq<char>
    decreases b.len(),
{
    if b.len() == 0 {
        Seq::empty()
    } else {
        lower_hex(b.drop_last()) + seq![lower_hex_digit(b.last() / 16), lower_hex_digit(b.last() % 16)]
    }
}

fn lower_hex_digit_exec(n: u8) -> (r: char)
    requires
        n < 16,
    ensures
        r == lower_hex_digit(n),
{
    if n < 10 {
        (48 + n) as char
    } else {
        (87 + n) as char
    }
}

/// The fingerprint of a set of cookies: the SHA-256 of the `auth_token`, in
/// lowercase hexadecimal.
pub fn auth_token_fingerprint(token: &str) -> (r: String)
    ensures
        r@ == lower_hex(sha256_of(encode_utf8(token@))),
{
    let d = sha256(token.as_bytes());
    let mut out = String::new();
    let mut i: usize = 0;
    while i < d.len()
        invariant
            i <= d@.len(),
            out@ == lower_hex(d@.take(i as int)),
        decreases d@.len() - i,
    {
        let b = d[i];
        push_char(&mut out, lower_hex_digit_exec(b / 16));
        push_char(&mut out, lower_hex_digit_exec(b % 16));
        proof {
            assert(d@.take(i + 1).drop_last() =~= d@.take(i as int));
            assert(out@ =~= lower_hex(d@.take(i + 1)));
        }
        i = i + 1;
    }
    proof {
        assert(d@.take(i as int) =~= d@);
    }
    out
}

/// After a failed verification: another attempt follows while fewer than
/// `MAX_VERIFY_ATTEMPTS` were made.
pub fn retry_verify(attempt: u32) -> (r: bool)
    ensures
        r == (attempt < MAX_VERIFY_ATTEMPTS),
{
    attempt < MAX_VERIFY_ATTEMPTS
}

} // verus!
