//! The log viewer: which log files may be read, which one is shown, and
//! the tail of its text that is sent to the viewer.
use vstd::prelude::*;
use crate::numbers::{parse_unsigned, parse_u64};
use crate::text::{
    chars_of, starts_with, starts_with_exec, contains, contains_exec, views, split, split_exec, string_of,
    str_eq, split_once, strip_prefix, string_of_range,
};
use chrono::Datelike;

verus! {

broadcast use vstd::string::group_string_axioms;

/// The number of lines shown by default.
pub const MAX_LINES: usize = 2000;

/// At most this many bytes are read from the end of a log file.
pub const MAX_BYTES: u64 = 4194304;

/// A log file name that may be read: `xdownload.log.*` without any path
/// separator or `..`, so no other file can be reached.
pub open spec fn spec_is_safe_log_name(name: Seq<char>) -> bool {
    &&& starts_with(name, "xdownload.log."@)
    &&& !contains(name, "/"@)
    &&& !contains(name, "\\\\"@)
    &&& !contains(name, ".."@)
}

pub fn is_safe_log_name(name: &str) -> (r: bool)
    ensures
        r == spec_is_safe_log_name(name@),
{
    let n = chars_of(name);
    starts_with_exec(&n, &chars_of("xdownload.log.")) && !contains_exec(&n, &chars_of("/")) && !contains_exec(
        &n,
        &chars_of("\\\\"),
    ) && !contains_exec(&n, &chars_of(".."))
}

/// A line count asked for, kept within `1..=20000`.
pub open spec fn clamp_lines(n: nat) -> usize {
    if n < 1 {
        1
    } else if n > 20000 {
        20000
    } else {
        n as usize
    }
}

/// The `file` and `lines` parameters of a log request.
#[derive(Debug, Clone)]
pub struct QueryParams {
    pub file: Option<String>,
    pub lines: usize,
}

/// The parameters read from `k=v` pairs from index `i` on, starting from
/// the given ones: a later pair overrides an earlier one; a `lines` value
/// that is no number is ignored.
pub open spec fn params_from(pairs: Seq<Seq<char>>, file: Option<Seq<char>>, lines: usize) -> (Option<Seq<char>>, usize)
    decreases pairs.len(),
{
    if pairs.len() == 0 {
        (file, lines)
    } else {
        let (f, l) = params_from(pairs.drop_last(), file, lines);
        let p = pairs.last();
        let (k, v) = match split_once(p, '=') {
            Some((k, v)) => (k, v),
            None => (p, Seq::empty()),
        };
        if k == "file"@ {
            (Some(v), l)
        } else if k == "lines"@ {
            match parse_unsigned(v, usize::MAX as nat) {
                Some(n) => (f, clamp_lines(n)),
                None => (f, l),
            }
        } else {
            (f, l)
        }
    }
}

/// The parameters of a query string (none: no file, 2000 lines).
pub open spec fn spec_parse_query(query: Option<Seq<char>>) -> (Option<Seq<char>>, usize) {
    match query {
        Some(q) => params_from(split(q, '&'), None, MAX_LINES),
        None => (None, MAX_LINES),
    }
}

pub open spec fn opt_view(o: Option<String>) -> Option<Seq<char>> {
    match o {
        Some(s) => Some(s@),
        None => None,
    }
}

/// Reads the `file` and `lines` parameters of a log request.
pub fn parse_query(query: Option<&str>) -> (r: QueryParams)
    ensures
        (opt_view(r.file), r.lines) == spec_parse_query(match query {
            Some(q) => Some(q@),
            None => None,
        }),
{
    let mut params = QueryParams { file: None, lines: MAX_LINES };
    let q = match query {
        Some(q) => q,
        None => {
            return params;
        },
    };
    let pairs = split_exec(&chars_of(q), '&');
    let ghost ps = split(q@, '&');
    let mut i: usize = 0;
    while i < pairs.len()
        invariant
            i <= pairs@.len(),
            pairs@.map_values(|v: Vec<char>| v@) == ps,
            ps == split(q@, '&'),
            (opt_view(params.file), params.lines) == params_from(ps.take(i as int), None, MAX_LINES),
        decreases pairs@.len() - i,
    {
        proof {
            assert(ps.take(i + 1).drop_last() =~= ps.take(i as int));
            assert(ps.take(i + 1).last() == pairs@[i as int]@);
        }
        let pair = &pairs[i];
        let mut eq: usize = 0;
        while eq < pair.len() && pair[eq] != '='
            invariant
                eq <= pair@.len(),
                forall|j: int| 0 <= j < eq ==> pair@[j] != '=',
            decreases pair@.len() - eq,
        {
            eq = eq + 1;
        }
        let (k, v) = if eq < pair.len() {
            (crate::text::slice_vec(pair, 0, eq), crate::text::slice_vec(pair, eq + 1, pair.len()))
        } else {
            (crate::text::slice_vec(pair, 0, pair.len()), Vec::new())
        };
        proof {
            lemma_split_once_at(pair@, eq as int);
            assert(pair@.subrange(0, pair@.len() as int) =~= pair@);
        }
        if crate::text::chars_eq(&k, &chars_of("file")) {
            params.file = Some(string_of(&v));
        } else if crate::text::chars_eq(&k, &chars_of("lines")) {
            match crate::numbers::parse_unsigned_chars(&v, usize::MAX as u64) {
                Some(n) => {
                    let n = n as usize;
                    params.lines = if n < 1 {
                        1
                    } else if n > 20000 {
                        20000
                    } else {
                        n
                    };
                },
                None => {},
            }
        }
        i = i + 1;
    }
    proof {
        assert(ps.take(i as int) =~= ps);
    }
    params
}

/// Where `split_once` at `=` cuts a pair whose first `=` (if any) is at `eq`.
proof fn lemma_split_once_at(p: Seq<char>, eq: int)
    requires
        0 <= eq <= p.len(),
        eq == p.len() || p[eq] == '=',
        forall|j: int| 0 <= j < eq ==> p[j] != '=',
    ensures
        eq < p.len() ==> split_once(p, '=') == Some((p.subrange(0, eq), p.subrange(eq + 1, p.len() as int))),
        eq == p.len() ==> split_once(p, '=') is None,
{
    crate::text::lemma_find_char_from(p, '=', 0);
    if eq < p.len() {
        assert(crate::text::find_char_from(p, '=', 0) == Some(eq));
    }
}

/// The file shown: the asked one when it is safe and listed, else the
/// first listed (the newest), else none (empty).
pub open spec fn spec_choose_target(file: Option<Seq<char>>, files: Seq<Seq<char>>) -> Seq<char> {
    match file {
        Some(f) if spec_is_safe_log_name(f) && files.contains(f) => f,
        _ => if files.len() > 0 {
            files[0]
        } else {
            Seq::empty()
        },
    }
}

pub fn choose_target(file: Option<String>, files: &Vec<String>) -> (r: String)
    ensures
        r@ == spec_choose_target(opt_view(file), views(files@)),
{
    match file {
        Some(f) => {
            if is_safe_log_name(f.as_str()) {
                let mut i: usize = 0;
                while i < files.len()
                    invariant
                        i <= files@.len(),
                        spec_is_safe_log_name(f@),
                        opt_view(file) == Some(f@),
                        forall|k: int| 0 <= k < i ==> #[trigger] files@[k]@ != f@,
                    decreases files@.len() - i,
                {
                    if files[i] == f {
                        proof {
                            assert(views(files@)[i as int] == f@);
                        }
                        return f;
                    }
                    i = i + 1;
                }
                proof {
                    if views(files@).contains(f@) {
                        let k = choose|k: int| 0 <= k < views(files@).len() && views(files@)[k] == f@;
                        assert(files@[k]@ == f@);
                    }
                }
            }
        },
        None => {},
    }
    if files.len() > 0 {
        files[0].clone()
    } else {
        String::new()
    }
}

/// The lines of a text as `str::lines` gives them: split at `\n`, a
/// `\r` before a `\n` removed, a final empty piece dropped.
pub open spec fn text_lines(text: Seq<char>) -> Seq<Seq<char>> {
    let p = split(text, '\n');
    let body = Seq::new((p.len() - 1) as nat, |i: int| if p[i].len() > 0 && p[i].last() == '\r' {
        p[i].drop_last()
    } else {
        p[i]
    });
    if p.last().len() > 0 {
        body.push(p.last())
    } else {
        body
    }
}

/// The tail sent to the viewer: the text's lines, without the first one
/// when the read started inside the file (it is likely cut), and of those
/// only the last `max_lines`.
pub open spec fn spec_tail(text: Seq<char>, truncated: bool, max_lines: usize) -> Seq<Seq<char>> {
    let all = text_lines(text);
    let l = if truncated && all.len() > 0 {
        all.drop_first()
    } else {
        all
    };
    if l.len() > max_lines {
        l.skip(l.len() - max_lines)
    } else {
        l
    }
}

pub fn tail_lines(text: &str, truncated: bool, max_lines: usize) -> (r: Vec<String>)
    ensures
        views(r@) == spec_tail(text@, truncated, max_lines),
{
    let parts = split_exec(&chars_of(text), '\n');
    let ghost p = split(text@, '\n');
    proof {
        assert(parts@.len() == p.len());
    }
    let n = parts.len();
    let mut all: Vec<String> = Vec::new();
    let mut i: usize = 0;
    while i + 1 < n
        invariant
            n == parts@.len(),
            n >= 1,
            parts@.map_values(|v: Vec<char>| v@) == p,
            i < n,
            views(all@) == Seq::new(i as nat, |k: int| if p[k].len() > 0 && p[k].last() == '\r' {
                p[k].drop_last()
            } else {
                p[k]
            }),
        decreases n - i,
    {
        let piece = &parts[i];
        proof {
            assert(parts@.map_values(|v: Vec<char>| v@)[i as int] == piece@);
        }
        let line = if piece.len() > 0 && piece[piece.len() - 1] == '\r' {
            let t = crate::text::slice_vec(piece, 0, piece.len() - 1);
            proof {
                assert(t@ =~= piece@.drop_last());
            }
            string_of(&t)
        } else {
            string_of(piece)
        };
        let ghost before = views(all@);
        let ghost expected = if p[i as int].len() > 0 && p[i as int].last() == '\r' {
            p[i as int].drop_last()
        } else {
            p[i as int]
        };
        assert(line@ == expected);
        all.push(line);
        proof {
            assert(views(all@) =~= before.push(expected));
            assert(views(all@) =~= Seq::new((i + 1) as nat, |k: int| if p[k].len() > 0 && p[k].last() == '\r' {
                p[k].drop_last()
            } else {
                p[k]
            }));
        }
        i = i + 1;
    }
    proof {
        assert(parts@.map_values(|v: Vec<char>| v@)[n - 1] == parts@[n - 1]@);
        assert(p.last() == parts@[n - 1]@);
    }
    if parts[n - 1].len() > 0 {
        let ghost before = views(all@);
        all.push(string_of(&parts[n - 1]));
        proof {
            assert(views(all@) =~= before.push(p.last()));
        }
    }
    proof {
        assert(views(all@) =~= text_lines(text@));
    }
    let ghost all_v = views(all@);
    let start: usize = if truncated && all.len() > 0 {
        1
    } else {
        0
    };
    let count = all.len() - start;
    let from = if count > max_lines {
        start + (count - max_lines)
    } else {
        start
    };
    let mut out: Vec<String> = Vec::new();
    let mut j = from;
    while j < all.len()
        invariant
            from <= j <= all@.len(),
            views(all@) == all_v,
            views(out@) == all_v.subrange(from as int, j as int),
        decreases all@.len() - j,
    {
        let ghost before = views(out@);
        proof {
            assert(all_v[j as int] == all@[j as int]@);
        }
        out.push(all[j].clone());
        proof {
            assert(views(out@) =~= before.push(all_v[j as int]));
            assert(views(out@) =~= all_v.subrange(from as int, j + 1));
        }
        j = j + 1;
    }
    proof {
        let l = if truncated && all_v.len() > 0 {
            all_v.drop_first()
        } else {
            all_v
        };
        if l.len() > max_lines {
            assert(views(out@) =~= l.skip(l.len() - max_lines));
        } else {
            assert(views(out@) =~= l);
        }
    }
    out
}

// ==================== Retention ====================

/// Log files older than this many days are deleted.
pub const LOG_RETENTION_DAYS: i64 = 14;

/// The name prefix of the daily log files, followed by the date.
pub const LOG_FILE_PREFIX: &'static str = "xdownload.log.";

/// The date format of a log file name.
pub const LOG_DATE_FORMAT: &'static str = "%Y-%m-%d";

/// What `chrono::NaiveDate::parse_from_str(text, fmt)` gives, as the
/// day number counted from 1 January of year 1 (day 1); `None` when the
/// text does not parse.
pub uninterp spec fn parsed_date_days(text: Seq<char>, fmt: Seq<char>) -> Option<i32>;

/// Calls `chrono::NaiveDate::parse_from_str` and `Datelike::num_days_from_ce`.
/// The contract claims only that the result is a function of the text and
/// the format (`parsed_date_days`).
#[verifier::external_body]
fn parse_date_days(text: &str, fmt: &str) -> (r: Option<i32>)
    ensures
        r == parsed_date_days(text@, fmt@),
{
    chrono::NaiveDate::parse_from_str(text, fmt).ok().map(|d| d.num_days_from_ce())
}

/// The date part of a log file name: what follows the prefix, or the whole
/// name without it.
pub open spec fn log_date_text(name: Seq<char>) -> Seq<char> {
    match strip_prefix(name, LOG_FILE_PREFIX@) {
        Some(rest) => rest,
        None => name,
    }
}

/// The day number of the date a log file name carries, if it parses.
pub fn log_file_day(name: &str) -> (r: Option<i32>)
    ensures
        r == parsed_date_days(log_date_text(name@), LOG_DATE_FORMAT@),
{
    let c = chars_of(name);
    let p = chars_of(LOG_FILE_PREFIX);
    if starts_with_exec(&c, &p) {
        let rest = string_of_range(&c, p.len(), c.len());
        proof {
            assert(rest@ =~= name@.skip(LOG_FILE_PREFIX@.len() as int));
        }
        parse_date_days(rest.as_str(), LOG_DATE_FORMAT)
    } else {
        parse_date_days(name, LOG_DATE_FORMAT)
    }
}

/// A log file is expired when its name carries a date before the cutoff,
/// `LOG_RETENTION_DAYS` days before `today`; a name without a date is never
/// expired.
pub open spec fn is_expired_log(name: Seq<char>, today: int) -> bool {
    match parsed_date_days(log_date_text(name), LOG_DATE_FORMAT@) {
        Some(d) => d < today - LOG_RETENTION_DAYS,
        None => false,
    }
}

/// The expired names among `names`, in order.
pub open spec fn expired_logs_of(names: Seq<Seq<char>>, today: int) -> Seq<Seq<char>>
    decreases names.len(),
{
    if names.len() == 0 {
        Seq::empty()
    } else {
        let rest = expired_logs_of(names.drop_last(), today);
        if is_expired_log(names.last(), today) {
            rest.push(names.last())
        } else {
            rest
        }
    }
}

/// The log files to delete among the files of the logs directory, given
/// today's day number (see `is_expired_log`); the caller deletes them and
/// counts the deletions that succeed.
pub fn expired_logs(names: &Vec<String>, today: i32) -> (r: Vec<String>)
    ensures
        views(r@) == expired_logs_of(views(names@), today as int),
{
    let cutoff: i64 = today as i64 - LOG_RETENTION_DAYS;
    let mut out: Vec<String> = Vec::new();
    let mut i: usize = 0;
    while i < names.len()
        invariant
            i <= names@.len(),
            cutoff == today - LOG_RETENTION_DAYS,
            views(out@) == expired_logs_of(views(names@.take(i as int)), today as int),
        decreases names@.len() - i,
    {
        let d = log_file_day(names[i].as_str());
        let expired = match d {
            Some(day) => (day as i64) < cutoff,
            None => false,
        };
        proof {
            assert(views(names@.take(i + 1)).drop_last() =~= views(names@.take(i as int)));
            assert(views(names@.take(i + 1)).last() == names@[i as int]@);
        }
        if expired {
            out.push(names[i].clone());
            proof {
                assert(views(out@) =~= expired_logs_of(views(names@.take(i as int)), today as int).push(
                    names@[i as int]@,
                ));
            }
        }
        i = i + 1;
    }
    proof {
        assert(names@.take(i as int) =~= names@);
    }
    out
}

/// The day number of a `YYYY-MM-DD` date.
pub fn day_of_date(date: &str) -> (r: Option<i32>)
    ensures
        r == parsed_date_days(date@, LOG_DATE_FORMAT@),
{
    parse_date_days(date, LOG_DATE_FORMAT)
}

} // verus!
