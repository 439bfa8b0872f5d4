//! The local log viewer's HTTP side: reading the request target from the
//! bytes received, routing it, and the response head. The socket is the
//! caller's.
use vstd::prelude::*;
use crate::deep_link::{from_utf8_lossy, utf8_lossy};
use crate::numbers::{dec, u64_to_string};
use crate::text::{
    chars_of, copy_str, is_ws, is_ws_exec, push_str, skip_ws, skip_ws_exec, split_once, string_of_range, str_eq,
    find_char_from_exec, lemma_find_char_from, find_char_from,
};

verus! {

broadcast use vstd::string::group_string_axioms;

/// The longest request head accepted, in bytes.
pub const MAX_REQUEST: usize = 32768;

/// The first index at or after `i` that holds whitespace (or the end).
pub open spec fn skip_non_ws(s: Seq<char>, i: int) -> int
    decreases s.len() - i,
{
    if 0 <= i < s.len() && !is_ws(s[i]) {
        skip_non_ws(s, i + 1)
    } else {
        i
    }
}

/// The first line of a request head: up to the first line feed.
pub open spec fn first_line(head: Seq<char>) -> Seq<char>
    decreases head.len(),
{
    if head.len() == 0 {
        head
    } else if head[0] == '\n' {
        Seq::empty()
    } else {
        seq![head[0]] + first_line(head.drop_first())
    }
}

/// The first whitespace-separated word of a line, empty when none.
pub open spec fn first_word(l: Seq<char>) -> Seq<char> {
    let a = skip_ws(l, 0);
    l.subrange(a, skip_non_ws(l, a))
}

/// The second whitespace-separated word of a line, `None` when none.
pub open spec fn second_word(l: Seq<char>) -> Option<Seq<char>> {
    let b = skip_non_ws(l, skip_ws(l, 0));
    let c = skip_ws(l, b);
    if c < l.len() {
        Some(l.subrange(c, skip_non_ws(l, c)))
    } else {
        None
    }
}

/// Where the request head ends: the first `\r\n\r\n` at or after `i`.
pub open spec fn head_end_from(b: Seq<u8>, i: int) -> Option<int>
    decreases b.len() - i,
{
    if i < 0 || i + 4 > b.len() {
        None
    } else if is_crlfcrlf(b, i) {
        Some(i)
    } else {
        head_end_from(b, i + 1)
    }
}

/// Where the request head ends: the first `\r\n\r\n`.
pub open spec fn head_end(b: Seq<u8>) -> Option<int> {
    head_end_from(b, 0)
}

proof fn lemma_head_end_from(b: Seq<u8>, i: int)
    ensures
        head_end_from(b, i) matches Some(k) ==> i <= k && k + 4 <= b.len() && is_crlfcrlf(b, k),
    decreases b.len() - i,
{
    if !(i < 0 || i + 4 > b.len()) && !is_crlfcrlf(b, i) {
        lemma_head_end_from(b, i + 1);
    }
}

/// `\r\n\r\n` starts at `i`.
pub open spec fn is_crlfcrlf(b: Seq<u8>, i: int) -> bool {
    0 <= i && i + 4 <= b.len() && b[i] == 13 && b[i + 1] == 10 && b[i + 2] == 13 && b[i + 3] == 10
}

/// What reading the request gives after more bytes arrived.
#[derive(Debug)]
pub enum ReadStep {
    /// The head is not complete yet.
    NeedMore,
    /// The target of a GET request (with its query).
    Target(String),
    /// The request is refused.
    Failed(String),
}

/// The outcome for a complete head of `h` bytes: the target of a GET
/// request (`/` when it names none), else refused.
pub open spec fn spec_request_target(head: Seq<u8>) -> Result<Seq<char>, Seq<char>> {
    let l = first_line(utf8_lossy(head));
    if first_word(l) == "GET"@ {
        Ok(
            match second_word(l) {
                Some(t) => t,
                None => "/"@,
            },
        )
    } else {
        Err("log_web: method not allowed"@)
    }
}

/// The bytes of a request received so far.
pub struct RequestReader {
    pub received: Vec<u8>,
}

fn skip_non_ws_exec(s: &[char], from: usize) -> (r: usize)
    requires
        from <= s@.len(),
    ensures
        r == skip_non_ws(s@, from as int),
        from <= r <= s@.len(),
{
    let mut i = from;
    while i < s.len() && !is_ws_exec(s[i])
        invariant
            from <= i <= s@.len(),
            skip_non_ws(s@, from as int) == skip_non_ws(s@, i as int),
        decreases s@.len() - i,
    {
        i = i + 1;
    }
    i
}

proof fn lemma_first_line_prefix(h: Seq<char>, k: int)
    requires
        0 <= k <= h.len(),
        forall|j: int| 0 <= j < k ==> h[j] != '\n',
        k == h.len() || h[k] == '\n',
    ensures
        first_line(h) == h.take(k),
    decreases k,
{
    if k > 0 {
        lemma_first_line_prefix(h.drop_first(), k - 1);
        assert(seq![h[0]] + h.drop_first().take(k - 1) =~= h.take(k));
    } else if h.len() > 0 {
        assert(h.take(0) =~= Seq::<char>::empty());
    } else {
        assert(h.take(0) =~= h);
    }
}

/// Reads method and target from a complete head (see
/// `spec_request_target`).
fn request_target(head: &[u8]) -> (r: Result<String, String>)
    ensures
        match r {
            Ok(t) => spec_request_target(head@) == Ok::<Seq<char>, Seq<char>>(t@),
            Err(e) => spec_request_target(head@) == Err::<Seq<char>, Seq<char>>(e@),
        },
{
    let text = from_utf8_lossy(head);
    let h = chars_of(text.as_str());
    let mut k: usize = 0;
    while k < h.len() && h[k] != '\n'
        invariant
            k <= h@.len(),
            forall|j: int| 0 <= j < k ==> h@[j] != '\n',
        decreases h@.len() - k,
    {
        k = k + 1;
    }
    proof {
        lemma_first_line_prefix(h@, k as int);
    }
    let l = crate::text::slice_vec(&h, 0, k);
    proof {
        assert(l@ =~= first_line(utf8_lossy(head@)));
    }
    let a = skip_ws_exec(&l, 0);
    let b = skip_non_ws_exec(&l, a);
    let method = crate::text::slice_vec(&l, a, b);
    proof {
        assert(method@ =~= first_word(l@));
    }
    if !crate::text::chars_eq(&method, &chars_of("GET")) {
        return Err(copy_str("log_web: method not allowed"));
    }
    let c = skip_ws_exec(&l, b);
    if c < l.len() {
        let d = skip_non_ws_exec(&l, c);
        Ok(string_of_range(&l, c, d))
    } else {
        Ok(copy_str("/"))
    }
}

/// The first `\r\n\r\n` in the bytes.
fn find_head_end(b: &Vec<u8>) -> (r: Option<usize>)
    ensures
        match r {
            Some(i) => head_end(b@) == Some(i as int),
            None => head_end(b@) is None,
        },
{
    let mut i: usize = 0;
    while i < b.len() && b.len() - i >= 4
        invariant
            i <= b@.len(),
            head_end(b@) == head_end_from(b@, i as int),
        decreases b@.len() - i,
    {
        if b[i] == 13 && b[i + 1] == 10 && b[i + 2] == 13 && b[i + 3] == 10 {
            return Some(i);
        }
        i = i + 1;
    }
    None
}

/// Appends bytes.
fn append_bytes(v: &mut Vec<u8>, chunk: &[u8])
    ensures
        final(v)@ == old(v)@ + chunk@,
{
    let mut i: usize = 0;
    while i < chunk.len()
        invariant
            i <= chunk@.len(),
            v@ == old(v)@ + chunk@.take(i as int),
        decreases chunk@.len() - i,
    {
        v.push(chunk[i]);
        i = i + 1;
        proof {
            assert(v@ =~= old(v)@ + chunk@.take(i as int));
        }
    }
    proof {
        assert(chunk@.take(i as int) =~= chunk@);
    }
}

/// The first `n` bytes.
fn prefix_bytes(b: &Vec<u8>, n: usize) -> (r: Vec<u8>)
    requires
        n <= b@.len(),
    ensures
        r@ == b@.take(n as int),
{
    let mut out: Vec<u8> = Vec::new();
    let mut i: usize = 0;
    while i < n
        invariant
            i <= n <= b@.len(),
            out@ == b@.take(i as int),
        decreases n - i,
    {
        out.push(b[i]);
        i = i + 1;
        proof {
            assert(out@ =~= b@.take(i as int));
        }
    }
    out
}

impl RequestReader {
    /// Nothing received yet.
    pub fn new() -> (r: Self)
        ensures
            r.received@.len() == 0,
    {
        RequestReader { received: Vec::new() }
    }

    /// Takes the next bytes received. Over `MAX_REQUEST` bytes in all the
    /// request is refused; once the head is complete the outcome is that of
    /// `spec_request_target` on it; otherwise more is needed.
    pub fn feed(&mut self, chunk: &[u8]) -> (r: ReadStep)
        ensures
            final(self).received@ == old(self).received@ + chunk@,
            final(self).received@.len() > MAX_REQUEST ==> (r matches ReadStep::Failed(e) && e@
                == "log_web: request too large"@),
            final(self).received@.len() <= MAX_REQUEST ==> match head_end(final(self).received@) {
                None => r is NeedMore,
                Some(pos) => match spec_request_target(final(self).received@.take(pos)) {
                    Ok(t) => (r matches ReadStep::Target(x) && x@ == t),
                    Err(e) => (r matches ReadStep::Failed(x) && x@ == e),
                },
            },
    {
        append_bytes(&mut self.received, chunk);
        if self.received.len() > MAX_REQUEST {
            return ReadStep::Failed(copy_str("log_web: request too large"));
        }
        match find_head_end(&self.received) {
            None => ReadStep::NeedMore,
            Some(pos) => {
                proof {
                    lemma_head_end_from(self.received@, 0);
                }
                let head = prefix_bytes(&self.received, pos);
                match request_target(head.as_slice()) {
                    Ok(t) => ReadStep::Target(t),
                    Err(e) => ReadStep::Failed(e),
                }
            },
        }
    }
}

/// What the viewer serves for a path.
#[derive(Debug, Clone, Copy, PartialEq, Eq, Structural)]
pub enum Page {
    Index,
    Logs,
    NotFound,
}

/// The page of a request target: its path (before `?`) decides; the query
/// is handed to the log reader.
pub open spec fn spec_page(target: Seq<char>) -> (Page, Option<Seq<char>>) {
    let (path, query) = match split_once(target, '?') {
        Some((p, q)) => (p, Some(q)),
        None => (target, None),
    };
    (
        if path == "/"@ || path == "/index.html"@ {
            Page::Index
        } else if path == "/api/logs"@ {
            Page::Logs
        } else {
            Page::NotFound
        },
        query,
    )
}

/// Routes a request target (see `spec_page`).
pub fn route(target: &str) -> (r: (Page, Option<String>))
    ensures
        r.0 == spec_page(target@).0,
        match r.1 {
            Some(q) => spec_page(target@).1 == Some(q@),
            None => spec_page(target@).1 is None,
        },
{
    let cs = chars_of(target);
    let n = cs.len();
    let (p, query) = match find_char_from_exec(&cs, '?', 0) {
        Some(k) => {
            proof {
                lemma_find_char_from(cs@, '?', 0);
                assert(find_char_from(cs@, '?', 0) == Some(k as int));
                assert(k < n);
            }
            let q = string_of_range(&cs, k + 1, n);
            let p = string_of_range(&cs, 0, k);
            proof {
                assert(p@ =~= cs@.take(k as int));
                assert(q@ =~= cs@.skip(k + 1));
            }
            (p, Some(q))
        },
        None => (copy_str(target), None),
    };
    let page = if str_eq(p.as_str(), "/") || str_eq(p.as_str(), "/index.html") {
        Page::Index
    } else if str_eq(p.as_str(), "/api/logs") {
        Page::Logs
    } else {
        Page::NotFound
    };
    (page, query)
}

/// The status line fields and content type of a page.
pub fn page_status(page: Page) -> (r: (u16, &'static str, &'static str))
    ensures
        page == Page::NotFound ==> r.0 == 404 && r.1@ == "Not Found"@ && r.2@ == "text/plain; charset=utf-8"@,
        page == Page::Index ==> r.0 == 200 && r.1@ == "OK"@ && r.2@ == "text/html; charset=utf-8"@,
        page == Page::Logs ==> r.0 == 200 && r.1@ == "OK"@ && r.2@ == "application/json; charset=utf-8"@,
{
    match page {
        Page::Index => (200, "OK", "text/html; charset=utf-8"),
        Page::Logs => (200, "OK", "application/json; charset=utf-8"),
        Page::NotFound => (404, "Not Found", "text/plain; charset=utf-8"),
    }
}

/// The response head for a body of `len` bytes.
pub open spec fn spec_response_head(status: u16, status_text: Seq<char>, content_type: Seq<char>, len: nat) -> Seq<char> {
    "HTTP/1.1 "@ + dec(status as nat) + " "@ + status_text + "\r\nContent-Type: "@ + content_type
        + "\r\nContent-Length: "@ + dec(len) + "\r\nConnection: close\r\nCache-Control: no-store\r\n\r\n"@
}

/// Writes the response head.
pub fn response_head(status: u16, status_text: &str, content_type: &str, len: usize) -> (r: String)
    ensures
        r@ == spec_response_head(status, status_text@, content_type@, len as nat),
{
    let mut h = copy_str("HTTP/1.1 ");
    push_str(&mut h, u64_to_string(status as u64).as_str());
    push_str(&mut h, " ");
    push_str(&mut h, status_text);
    push_str(&mut h, "\r\nContent-Type: ");
    push_str(&mut h, content_type);
    push_str(&mut h, "\r\nContent-Length: ");
    push_str(&mut h, u64_to_string(len as u64).as_str());
    push_str(&mut h, "\r\nConnection: close\r\nCache-Control: no-store\r\n\r\n");
    h
}

} // verus!
