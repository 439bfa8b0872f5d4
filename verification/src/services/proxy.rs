//! Proxy configuration: the runtime proxy state and the parsing of proxy
//! settings found in the environment or the system.
use vstd::prelude::*;
use crate::numbers::{dec, parse_unsigned, parse_u16, u64_to_string};
use crate::text::{
    chars_of, find, find_exec, lowercase, rfind_char, rfind_char_exec, slice_vec, split,
    split_exec, split_once, string_of, to_lowercase, trim, trim_end_char, trim_exec,
    find_char_from, find_char_from_exec, lemma_find_char_from, push_str, split_from,
};

verus! {

broadcast use vstd::string::group_string_axioms;

/// Result of a proxy connectivity test.
#[derive(Debug, Clone)]
pub struct ProxyTestResult {
    pub success: bool,
    pub http_status: i32,
    pub elapsed_ms: u64,
    pub message: String,
}

impl ProxyTestResult {
    pub fn new(success: bool, http_status: i32, elapsed_ms: u64, message: String) -> (r: Self)
        ensures
            r.success == success,
            r.http_status == http_status,
            r.elapsed_ms == elapsed_ms,
            r.message == message,
    {
        ProxyTestResult { success, http_status, elapsed_ms, message }
    }
}

/// The proxy settings in effect: scheme, host and port, whether the proxy
/// is on, and whether it came from the system settings.
#[derive(Debug, Clone)]
pub struct ProxyConfig {
    pub scheme: String,
    pub host: String,
    pub port: u16,
    pub enabled: bool,
    pub from_system_proxy: bool,
}

/// Proxy-related variables read from the environment.
#[derive(Debug, Clone)]
pub struct ProxyEnvironment {
    /// `http.proxyHost` / `http.proxyPort`.
    pub http_host: Option<String>,
    pub http_port: Option<String>,
    /// `https.proxyHost` / `https.proxyPort`.
    pub https_host: Option<String>,
    pub https_port: Option<String>,
    /// `HTTP_PROXY`, `HTTPS_PROXY`, `http_proxy`, `https_proxy`, in order.
    pub proxy_urls: Vec<Option<String>>,
}

/// `scheme://host:port`.
pub open spec fn spec_proxy_url(scheme: Seq<char>, host: Seq<char>, port: u16) -> Seq<char> {
    scheme + "://"@ + host + seq![':'] + dec(port as nat)
}

/// Port of a `host:port` pair given the text after the last `:`.
pub open spec fn spec_parse_host_port(s: Seq<char>) -> Option<(Seq<char>, u16)> {
    match rfind_char(s, ':') {
        None => None,
        Some(i) => match parse_unsigned(s.skip(i + 1), u16::MAX as nat) {
            None => None,
            Some(p) => if i == 0 {
                None
            } else {
                Some((s.take(i), p as u16))
            },
        },
    }
}

/// `scheme://host:port` or `host:port` (scheme defaults to `http`, is
/// lowercased, and a trailing `/` is ignored).
pub open spec fn spec_parse_proxy_url(url: Seq<char>) -> Option<(Seq<char>, Seq<char>, u16)> {
    let t = trim_end_char(trim(url), '/');
    let (scheme, rest) = match find(t, "://"@) {
        Some(idx) => (lowercase(t.take(idx)), t.skip(idx + 3)),
        None => ("http"@, t),
    };
    match spec_parse_host_port(rest) {
        Some((h, p)) => Some((scheme, h, p)),
        None => None,
    }
}

/// The value of the first `name=value` part, trimmed.
pub open spec fn first_assigned(parts: Seq<Seq<char>>, i: int) -> Option<Seq<char>>
    decreases parts.len() - i,
{
    if i < 0 || i >= parts.len() {
        None
    } else {
        match split_once(parts[i], '=') {
            Some((_, v)) => Some(trim(v)),
            None => first_assigned(parts, i + 1),
        }
    }
}

/// The `host:port` of a system proxy server setting, which is either
/// `host:port` or `http=host:port;https=host:port` (the first assigned
/// value is used).
pub open spec fn spec_parse_proxy_server(server: Seq<char>) -> Option<(Seq<char>, u16)> {
    if server.len() == 0 {
        None
    } else {
        let host_port = if find_char_from(server, '=', 0) is Some {
            match first_assigned(split(server, ';'), 0) {
                Some(v) => v,
                None => server,
            }
        } else {
            server
        };
        spec_parse_host_port(host_port)
    }
}

proof fn lemma_skip_ws_bounds(s: Seq<char>, i: int)
    requires
        0 <= i <= s.len(),
    ensures
        i <= crate::text::skip_ws(s, i) <= s.len(),
    decreases s.len() - i,
{
    if i < s.len() && crate::text::is_ws(s[i]) {
        lemma_skip_ws_bounds(s, i + 1);
    }
}

proof fn lemma_back_ws_bounds(s: Seq<char>, lo: int, end: int)
    requires
        0 <= lo <= end <= s.len(),
    ensures
        lo <= crate::text::back_ws(s, lo, end) <= end,
    decreases end,
{
    if lo < end && 0 < end && crate::text::is_ws(s[end - 1]) {
        lemma_back_ws_bounds(s, lo, end - 1);
    }
}

/// Every character of a trimmed text is one of the text's characters.
proof fn lemma_trim_within(s: Seq<char>)
    ensures
        forall|j: int| 0 <= j < trim(s).len() ==> exists|k: int| 0 <= k < s.len() && s[k] == #[trigger] trim(s)[j],
{
    let b = crate::text::skip_ws(s, 0);
    lemma_skip_ws_bounds(s, 0);
    lemma_back_ws_bounds(s, b, s.len() as int);
    assert forall|j: int| 0 <= j < trim(s).len() implies exists|k: int| 0 <= k < s.len() && s[k] == #[trigger] trim(s)[j] by {
        assert(s[b + j] == trim(s)[j]);
    }
}

/// The first piece of a split runs up to the first separator.
proof fn lemma_split_first(s: Seq<char>, sep: char, m: int, i: int)
    requires
        0 <= i <= m <= s.len(),
        m == s.len() || s[m] == sep,
        forall|j: int| 0 <= j < m ==> s[j] != sep,
    ensures
        split_from(s, sep, 0, i).len() > 0,
        split_from(s, sep, 0, i)[0] == s.subrange(0, m),
    decreases m - i,
{
    if i < m {
        lemma_split_first(s, sep, m, i + 1);
    }
}

/// A multi-protocol system proxy setting `name=host:port;...` gives the
/// host and port of its first assignment: the value after the first `=`,
/// trimmed, split at its last `:`. The host is the text before that `:`,
/// the port the number after it, and the host holds no `=` when the value
/// holds none.
pub proof fn law_proxy_server_first_assignment(name: Seq<char>, value: Seq<char>, tail: Seq<char>)
    requires
        forall|i: int| 0 <= i < name.len() ==> #[trigger] name[i] != '=' && name[i] != ';',
        forall|i: int| 0 <= i < value.len() ==> #[trigger] value[i] != ';',
        tail.len() == 0 || tail[0] == ';',
    ensures
        spec_parse_proxy_server(name + seq!['='] + value + tail) == spec_parse_host_port(trim(value)),
        spec_parse_proxy_server(name + seq!['='] + value + tail) matches Some((h, p)) ==> {
            let t = trim(value);
            exists|k: int|
                0 < k < t.len() && t[k] == ':' && h == t.take(k) && (forall|j: int| k < j < t.len() ==> t[j] != ':')
                    && parse_unsigned(t.skip(k + 1), u16::MAX as nat) == Some(p as nat)
        },
        (forall|i: int| 0 <= i < value.len() ==> value[i] != '=') ==> (spec_parse_proxy_server(
            name + seq!['='] + value + tail,
        ) matches Some((h, _)) ==> forall|j: int| 0 <= j < h.len() ==> h[j] != '='),
{
    let server = name + seq!['='] + value + tail;
    let head = name + seq!['='] + value;
    let m = head.len() as int;
    assert forall|j: int| 0 <= j < m implies server[j] != ';' by {
        if j < name.len() {
            assert(server[j] == name[j]);
        } else if j > name.len() {
            assert(server[j] == value[j - name.len() - 1]);
        }
    }
    lemma_split_first(server, ';', m, 0);
    assert(server.subrange(0, m) =~= head);
    let part = split(server, ';')[0];
    assert(part == head);
    crate::text::lemma_find_char_from(head, '=', 0);
    assert(head[name.len() as int] == '=');
    assert forall|j: int| 0 <= j < name.len() implies head[j] != '=' by {
        assert(head[j] == name[j]);
    }
    assert(find_char_from(head, '=', 0) == Some(name.len() as int));
    assert(head.skip(name.len() + 1int) =~= value);
    assert(first_assigned(split(server, ';'), 0) == Some(trim(value)));
    crate::text::lemma_find_char_from(server, '=', 0);
    assert(server[name.len() as int] == '=');
    assert(find_char_from(server, '=', 0) is Some);
    let t = trim(value);
    match crate::text::rfind_char(t, ':') {
        Some(k) => {
            lemma_rfind(t, ':', t.len() as int);
            lemma_rfind_last(t, ':', t.len() as int);
        },
        None => {},
    }
    if forall|i: int| 0 <= i < value.len() ==> value[i] != '=' {
        lemma_trim_within(value);
        if let Some((h, _)) = spec_parse_host_port(t) {
            assert forall|j: int| 0 <= j < h.len() implies h[j] != '=' by {
                let k = choose|k: int| 0 <= k < value.len() && value[k] == #[trigger] t[j];
                assert(h[j] == t[j]);
            }
        }
    }
}

/// Nothing after a character found by `rfind_char_before` is that
/// character.
proof fn lemma_rfind_last(s: Seq<char>, c: char, end: int)
    requires
        end <= s.len(),
    ensures
        match crate::text::rfind_char_before(s, c, end) {
            Some(i) => forall|j: int| i < j < end ==> s[j] != c,
            None => forall|j: int| 0 <= j < end ==> s[j] != c,
        },
    decreases end,
{
    if end > 0 && s[end - 1] != c {
        lemma_rfind_last(s, c, end - 1);
    }
}

pub open spec fn opt_pair_view(r: Option<(String, u16)>) -> Option<(Seq<char>, u16)> {
    match r {
        Some((h, p)) => Some((h@, p)),
        None => None,
    }
}

pub open spec fn opt_triple_view(r: Option<(String, String, u16)>) -> Option<(Seq<char>, Seq<char>, u16)> {
    match r {
        Some((s, h, p)) => Some((s@, h@, p)),
        None => None,
    }
}

/// Parses `host:port` (split at the last `:`).
pub fn parse_host_port(s: &str) -> (r: Option<(String, u16)>)
    ensures
        opt_pair_view(r) == spec_parse_host_port(s@),
{
    let cs = chars_of(s);
    parse_host_port_chars(&cs)
}

fn parse_host_port_chars(cs: &Vec<char>) -> (r: Option<(String, u16)>)
    ensures
        opt_pair_view(r) == spec_parse_host_port(cs@),
{
    let i = match rfind_char_exec(cs, ':') {
        Some(i) => i,
        None => return None,
    };
    proof {
        lemma_rfind(cs@, ':', cs@.len() as int);
    }
    let clen = cs.len();
    assert(i < clen);
    let port_cs = slice_vec(cs, i + 1, cs.len());
    assert(port_cs@ =~= cs@.skip(i + 1));
    let port_s = string_of(&port_cs);
    let port = match parse_u16(port_s.as_str()) {
        Some(p) => p,
        None => return None,
    };
    if i == 0 {
        return None;
    }
    let host = slice_vec(cs, 0, i);
    assert(host@ =~= cs@.take(i as int));
    Some((string_of(&host), port))
}

/// A character found by `rfind_char_before` lies before `end`.
pub proof fn lemma_rfind(s: Seq<char>, c: char, end: int)
    requires
        end <= s.len(),
    ensures
        match crate::text::rfind_char_before(s, c, end) {
            Some(i) => 0 <= i < end && s[i] == c,
            None => true,
        },
    decreases end,
{
    if end > 0 && s[end - 1] != c {
        lemma_rfind(s, c, end - 1);
    }
}

fn trim_end_slash(s: &Vec<char>) -> (r: Vec<char>)
    ensures
        r@ == trim_end_char(s@, '/'),
{
    let mut e = s.len();
    assert(s@.take(e as int) =~= s@);
    while e > 0 && s[e - 1] == '/'
        invariant
            e <= s@.len(),
            trim_end_char(s@, '/') == trim_end_char(s@.take(e as int), '/'),
        decreases e,
    {
        assert(s@.take(e as int).drop_last() =~= s@.take(e - 1));
        e = e - 1;
    }
    slice_vec(s, 0, e)
}

/// Parses a proxy URL like `socks5://host:port` or `host:port` into
/// `(scheme, host, port)`; the scheme defaults to `http`.
pub fn parse_proxy_url(url: &str) -> (r: Option<(String, String, u16)>)
    ensures
        opt_triple_view(r) == spec_parse_proxy_url(url@),
{
    proof {
        reveal_strlit("://");
        reveal_strlit("http");
    }
    let cs = chars_of(url);
    let t0 = trim_exec(&cs);
    let t = trim_end_slash(&t0);
    let sep = chars_of("://");
    let (scheme, rest) = match find_exec(&t, &sep) {
        Some(idx) => {
            proof {
                crate::text::lemma_find_from(t@, sep@, 0);
            }
            let tlen = t.len();
            assert(idx + 3 <= tlen);
            let head = slice_vec(&t, 0, idx);
            assert(head@ =~= t@.take(idx as int));
            let head_s = string_of(&head);
            let rest = slice_vec(&t, idx + 3, t.len());
            assert(rest@ =~= t@.skip(idx + 3));
            (to_lowercase(head_s.as_str()), rest)
        },
        None => ("http".to_string(), t),
    };
    match parse_host_port_chars(&rest) {
        Some((h, p)) => Some((scheme, h, p)),
        None => None,
    }
}

/// Parses a system proxy server setting (`host:port` or
/// `http=host:port;https=...`) into `(host, port)`.
pub fn parse_proxy_server(server: &str) -> (r: Option<(String, u16)>)
    ensures
        opt_pair_view(r) == spec_parse_proxy_server(server@),
{
    let cs = chars_of(server);
    if cs.len() == 0 {
        return None;
    }
    if find_char_from_exec(&cs, '=', 0).is_none() {
        return parse_host_port_chars(&cs);
    }
    let parts = split_exec(&cs, ';');
    let ghost ps = parts@.map_values(|v: Vec<char>| v@);
    let mut i: usize = 0;
    while i < parts.len()
        invariant
            i <= parts@.len(),
            ps == parts@.map_values(|v: Vec<char>| v@),
            ps == split(cs@, ';'),
            cs@ == server@,
            cs@.len() > 0,
            find_char_from(cs@, '=', 0) is Some,
            first_assigned(ps, 0) == first_assigned(ps, i as int),
        decreases parts@.len() - i,
    {
        let part = &parts[i];
        assert(ps[i as int] == part@);
        match find_char_from_exec(part, '=', 0) {
            Some(j) => {
                proof {
                    lemma_find_char_from(part@, '=', 0);
                }
                let plen = part.len();
                assert(j < plen);
                let v = slice_vec(part, j + 1, part.len());
                assert(v@ =~= part@.skip(j + 1));
                assert(split_once(ps[i as int], '=') == Some((part@.take(j as int), v@)));
                let tv = trim_exec(&v);
                return parse_host_port_chars(&tv);
            },
            None => {},
        }
        i = i + 1;
    }
    parse_host_port_chars(&cs)
}

/// The state the environment variables select: the JVM-style
/// `http.proxyHost`/`http.proxyPort` (port 8080 by default or when it does
/// not parse), then the `https.` pair, then the first proxy URL variable
/// that parses. The scheme is set only by a proxy URL.
pub open spec fn env_port(port: Option<Seq<char>>) -> u16 {
    match parse_unsigned(
        match port {
            Some(p) => p,
            None => "8080"@,
        },
        u16::MAX as nat,
    ) {
        Some(v) => v as u16,
        None => 8080,
    }
}

pub open spec fn opt_s(o: Option<String>) -> Option<Seq<char>> {
    match o {
        Some(s) => Some(s@),
        None => None,
    }
}

pub open spec fn nonempty(o: Option<Seq<char>>) -> bool {
    o is Some && o->0.len() > 0
}

/// The first proxy URL variable (from index `i`) that is non-empty and
/// parses.
pub open spec fn first_proxy_url(urls: Seq<Option<Seq<char>>>, i: int) -> Option<(Seq<char>, Seq<char>, u16)>
    decreases urls.len() - i,
{
    if i < 0 || i >= urls.len() {
        None
    } else if nonempty(urls[i]) && spec_parse_proxy_url(urls[i]->0) is Some {
        spec_parse_proxy_url(urls[i]->0)
    } else {
        first_proxy_url(urls, i + 1)
    }
}

impl ProxyConfig {
    /// A proxy is active when it is on and has a host.
    pub open spec fn spec_is_enabled(&self) -> bool {
        self.enabled && self.host@.len() > 0
    }

    /// No proxy, scheme `http`.
    pub fn new() -> (r: Self)
        ensures
            r.scheme@ == "http"@,
            r.host@ == Seq::<char>::empty(),
            r.port == 0,
            !r.enabled,
            !r.from_system_proxy,
    {
        ProxyConfig {
            scheme: "http".to_string(),
            host: String::new(),
            port: 0,
            enabled: false,
            from_system_proxy: false,
        }
    }

    /// Manual proxy override with the `http` scheme.
    pub fn set_proxy(&mut self, host: &str, port: u16)
        ensures
            final(self).host@ == host@,
            final(self).port == port,
            final(self).scheme@ == "http"@,
            final(self).enabled,
            !final(self).from_system_proxy,
    {
        self.set_proxy_full(host, port, "http");
        proof {
            reveal_strlit("http");
        }
    }

    /// Manual proxy override with an explicit scheme (`http` when empty).
    pub fn set_proxy_full(&mut self, host: &str, port: u16, scheme: &str)
        ensures
            final(self).host@ == host@,
            final(self).port == port,
            final(self).scheme@ == (if scheme@.len() == 0 { "http"@ } else { scheme@ }),
            final(self).enabled,
            !final(self).from_system_proxy,
    {
        self.host = host.to_string();
        self.port = port;
        self.scheme = if scheme.is_empty() {
            "http".to_string()
        } else {
            scheme.to_string()
        };
        self.enabled = true;
        self.from_system_proxy = false;
    }

    /// The configured scheme.
    pub fn get_proxy_scheme(&self) -> (r: String)
        ensures
            r@ == self.scheme@,
    {
        self.scheme.clone()
    }

    /// Turns the proxy off, keeping its settings.
    pub fn disable(&mut self)
        ensures
            !final(self).enabled,
            final(self).host == old(self).host,
            final(self).port == old(self).port,
            final(self).scheme == old(self).scheme,
            final(self).from_system_proxy == old(self).from_system_proxy,
    {
        self.enabled = false;
    }

    /// Turns the existing proxy back on, keeping its settings and origin.
    pub fn enable(&mut self)
        ensures
            final(self).enabled,
            final(self).host == old(self).host,
            final(self).port == old(self).port,
            final(self).scheme == old(self).scheme,
            final(self).from_system_proxy == old(self).from_system_proxy,
    {
        self.enabled = true;
    }

    /// Whether a proxy is active (on, with a host).
    pub fn is_enabled(&self) -> (r: bool)
        ensures
            r == self.spec_is_enabled(),
    {
        self.enabled && !self.host.as_str().is_empty()
    }

    pub fn get_proxy_host(&self) -> (r: String)
        ensures
            r@ == self.host@,
    {
        self.host.clone()
    }

    pub fn get_proxy_port(&self) -> (r: u16)
        ensures
            r == self.port,
    {
        self.port
    }

    /// Whether the proxy was taken from the system settings.
    pub fn is_from_system_proxy(&self) -> (r: bool)
        ensures
            r == self.from_system_proxy,
    {
        self.from_system_proxy
    }

    fn url_string(&self) -> (r: String)
        ensures
            r@ == spec_proxy_url(self.scheme@, self.host@, self.port),
    {
        let mut s = self.scheme.clone();
        push_str(&mut s, "://");
        push_str(&mut s, self.host.as_str());
        push_str(&mut s, ":");
        let p = u64_to_string(self.port as u64);
        push_str(&mut s, p.as_str());
        proof {
            reveal_strlit("://");
            reveal_strlit(":");
        }
        assert(s@ =~= spec_proxy_url(self.scheme@, self.host@, self.port));
        s
    }

    /// `scheme://host:port` for display, `none` when no proxy is active.
    pub fn get_proxy_string(&self) -> (r: String)
        ensures
            r@ == if self.spec_is_enabled() {
                spec_proxy_url(self.scheme@, self.host@, self.port)
            } else {
                "none"@
            },
    {
        if !self.enabled || self.host.as_str().is_empty() {
            return "none".to_string();
        }
        self.url_string()
    }

    /// `--proxy scheme://host:port` for the yt-dlp command line, empty when
    /// no proxy is active.
    pub fn to_cli_args(&self) -> (r: String)
        ensures
            r@ == if self.spec_is_enabled() {
                "--proxy "@ + spec_proxy_url(self.scheme@, self.host@, self.port)
            } else {
                Seq::<char>::empty()
            },
    {
        if !self.enabled || self.host.as_str().is_empty() {
            return String::new();
        }
        let mut s = "--proxy ".to_string();
        let u = self.url_string();
        push_str(&mut s, u.as_str());
        s
    }

    /// `scheme://host:port`, `None` when no proxy is active.
    pub fn to_proxy_url(&self) -> (r: Option<String>)
        ensures
            opt_s(r) == if self.spec_is_enabled() {
                Some(spec_proxy_url(self.scheme@, self.host@, self.port))
            } else {
                None
            },
    {
        if !self.enabled || self.host.as_str().is_empty() {
            return None;
        }
        Some(self.url_string())
    }

    /// What a proxy test reads: `(scheme, host, port)` of the active proxy,
    /// `None` when there is none.
    pub fn test_target(&self) -> (r: Option<(String, String, u16)>)
        ensures
            opt_triple_view(r) == if self.spec_is_enabled() {
                Some((self.scheme@, self.host@, self.port))
            } else {
                None
            },
    {
        if !self.enabled || self.host.as_str().is_empty() {
            return None;
        }
        Some((self.scheme.clone(), self.host.clone(), self.port))
    }

    fn env_port_exec(port: &Option<String>) -> (r: u16)
        ensures
            r == env_port(opt_s(*port)),
    {
        proof {
            reveal_strlit("8080");
        }
        let p = match port {
            Some(p) => parse_u16(p.as_str()),
            None => parse_u16("8080"),
        };
        match p {
            Some(v) => v,
            None => 8080,
        }
    }

    /// Takes the proxy from the environment unless one is already on: the
    /// `http.` pair, then the `https.` pair (both keep the scheme), then the
    /// first proxy URL variable that parses.
    pub fn init_from_environment(&mut self, env: &ProxyEnvironment)
        ensures
            old(self).enabled ==> *final(self) == *old(self),
            !old(self).enabled && nonempty(opt_s(env.http_host)) ==> {
                &&& final(self).host@ == env.http_host->0@
                &&& final(self).port == env_port(opt_s(env.http_port))
                &&& final(self).enabled
                &&& final(self).scheme == old(self).scheme
                &&& final(self).from_system_proxy == old(self).from_system_proxy
            },
            !old(self).enabled && !nonempty(opt_s(env.http_host)) && nonempty(opt_s(env.https_host)) ==> {
                &&& final(self).host@ == env.https_host->0@
                &&& final(self).port == env_port(opt_s(env.https_port))
                &&& final(self).enabled
                &&& final(self).scheme == old(self).scheme
                &&& final(self).from_system_proxy == old(self).from_system_proxy
            },
            !old(self).enabled && !nonempty(opt_s(env.http_host)) && !nonempty(opt_s(env.https_host)) ==> {
                match first_proxy_url(env.proxy_urls@.map_values(|o: Option<String>| opt_s(o)), 0) {
                    Some((s, h, p)) => {
                        &&& final(self).scheme@ == s
                        &&& final(self).host@ == h
                        &&& final(self).port == p
                        &&& final(self).enabled
                        &&& final(self).from_system_proxy == old(self).from_system_proxy
                    },
                    None => *final(self) == *old(self),
                }
            },
    {
        if self.enabled {
            return;
        }
        if let Some(h) = &env.http_host {
            if !h.as_str().is_empty() {
                self.host = h.clone();
                self.port = Self::env_port_exec(&env.http_port);
                self.enabled = true;
                return;
            }
        }
        if let Some(h) = &env.https_host {
            if !h.as_str().is_empty() {
                self.host = h.clone();
                self.port = Self::env_port_exec(&env.https_port);
                self.enabled = true;
                return;
            }
        }
        let ghost urls = env.proxy_urls@.map_values(|o: Option<String>| opt_s(o));
        let mut i: usize = 0;
        while i < env.proxy_urls.len()
            invariant
                i <= env.proxy_urls@.len(),
                urls == env.proxy_urls@.map_values(|o: Option<String>| opt_s(o)),
                first_proxy_url(urls, 0) == first_proxy_url(urls, i as int),
                *self == *old(self),
                !old(self).enabled,
                !nonempty(opt_s(env.http_host)),
                !nonempty(opt_s(env.https_host)),
            decreases env.proxy_urls@.len() - i,
        {
            assert(urls[i as int] == opt_s(env.proxy_urls@[i as int]));
            if let Some(val) = &env.proxy_urls[i] {
                if !val.as_str().is_empty() {
                    if let Some((scheme, host, port)) = parse_proxy_url(val.as_str()) {
                        self.host = host;
                        self.port = port;
                        self.scheme = scheme;
                        self.enabled = true;
                        return;
                    }
                }
            }
            i = i + 1;
        }
    }

    /// Applies a proxy detected in the system settings. On a platform
    /// without system proxy settings nothing happens; a proxy already taken
    /// from the system is kept. Returns whether a system proxy is in effect.
    pub fn detect_system_proxy(&mut self, supported: bool, detected: Option<(String, u16)>) -> (r: bool)
        ensures
            !supported ==> !r && *final(self) == *old(self),
            supported && old(self).from_system_proxy ==> r && *final(self) == *old(self),
            supported && !old(self).from_system_proxy ==> match detected {
                Some((h, p)) => {
                    &&& r
                    &&& final(self).host == h
                    &&& final(self).port == p
                    &&& final(self).enabled
                    &&& final(self).from_system_proxy
                    &&& final(self).scheme == old(self).scheme
                },
                None => !r && *final(self) == *old(self),
            },
    {
        if !supported {
            return false;
        }
        if self.from_system_proxy {
            return true;
        }
        match detected {
            Some((host, port)) => {
                self.host = host;
                self.port = port;
                self.enabled = true;
                self.from_system_proxy = true;
                true
            },
            None => false,
        }
    }
}

impl Default for ProxyConfig {
    fn default() -> (r: Self)
        ensures
            r.scheme@ == "http"@,
            r.host@ == Seq::<char>::empty(),
            r.port == 0,
            !r.enabled,
            !r.from_system_proxy,
    {
        Self::new()
    }
}

} // verus!
