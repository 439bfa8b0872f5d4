//! Install and uninstall support: the uninstall entry found in the
//! registry and how its command line is split.
use vstd::prelude::*;
use crate::text::{
    trim, trim_exec, chars_of, string_of, is_ws, is_ws_exec, lowercase, to_lowercase, starts_with,
    starts_with_exec, views, find_char_from, find_char_from_exec, lemma_find_char_from, slice_vec,
};
use crate::utils::app_home::{path_file_stem, file_stem_of};

verus! {

broadcast use vstd::string::group_string_axioms;

/// The uninstall entry of the application.
#[derive(Debug, Clone)]
pub struct UninstallInfo {
    pub installed: bool,
    pub uninstall_string: Option<String>,
    pub display_name: Option<String>,
}

/// The entry for a found registry key (its `UninstallString` and
/// `DisplayName` values, when readable), or for none: a blank uninstall
/// string counts as none.
pub fn uninstall_info(found: Option<(Option<String>, Option<String>)>) -> (r: UninstallInfo)
    ensures
        match found {
            Some((u, d)) => {
                &&& r.installed
                &&& r.display_name == d
                &&& r.uninstall_string == match u {
                    Some(s) => if trim(s@).len() > 0 {
                        Some(s)
                    } else {
                        None
                    },
                    None => None,
                }
            },
            None => !r.installed && r.uninstall_string is None && r.display_name is None,
        },
{
    match found {
        Some((u, d)) => {
            let us = match u {
                Some(s) => {
                    if trim_exec(&chars_of(s.as_str())).len() > 0 {
                        Some(s)
                    } else {
                        None
                    }
                },
                None => None,
            };
            UninstallInfo { installed: true, uninstall_string: us, display_name: d }
        },
        None => UninstallInfo { installed: false, uninstall_string: None, display_name: None },
    }
}

/// Splitting an argument string from index `i`, with the arguments found so
/// far, the argument being built and whether a quote is open: blanks (space
/// or tab) outside quotes separate arguments, a double quote opens or closes
/// a quote, and `""` inside a quote stands for one `"`.
pub open spec fn args_from(s: Seq<char>, i: int, args: Seq<Seq<char>>, cur: Seq<char>, in_quote: bool) -> Seq<
    Seq<char>,
>
    decreases s.len() - i,
{
    if i >= s.len() || i < 0 {
        if cur.len() > 0 {
            args.push(cur)
        } else {
            args
        }
    } else {
        let c = s[i];
        if c == '"' {
            if in_quote && i + 1 < s.len() && s[i + 1] == '"' {
                args_from(s, i + 2, args, cur.push('"'), in_quote)
            } else {
                args_from(s, i + 1, args, cur, !in_quote)
            }
        } else if (c == ' ' || c == '\t') && !in_quote {
            if cur.len() > 0 {
                args_from(s, i + 1, args.push(cur), Seq::empty(), in_quote)
            } else {
                args_from(s, i + 1, args, cur, in_quote)
            }
        } else {
            args_from(s, i + 1, args, cur.push(c), in_quote)
        }
    }
}

/// The arguments of an argument string.
pub open spec fn spec_parse_args(s: Seq<char>) -> Seq<Seq<char>> {
    args_from(s, 0, Seq::empty(), Seq::empty(), false)
}

/// Splits an argument string, with double quotes grouping.
pub fn parse_args(s: &str) -> (r: Vec<String>)
    ensures
        views(r@) == spec_parse_args(s@),
{
    let cs = chars_of(s);
    let mut args: Vec<String> = Vec::new();
    let mut current: Vec<char> = Vec::new();
    let mut in_quote = false;
    let mut i: usize = 0;
    proof {
        assert(views(args@) =~= Seq::<Seq<char>>::empty());
    }
    while i < cs.len()
        invariant
            cs@ == s@,
            i <= cs@.len(),
            args_from(s@, i as int, views(args@), current@, in_quote) == spec_parse_args(s@),
        decreases cs@.len() - i,
    {
        let c = cs[i];
        if c == '"' {
            if in_quote && i + 1 < cs.len() && cs[i + 1] == '"' {
                current.push('"');
                i = i + 2;
            } else {
                in_quote = !in_quote;
                i = i + 1;
            }
        } else if (c == ' ' || c == '\t') && !in_quote {
            if current.len() > 0 {
                let ghost before = views(args@);
                let ghost cur = current@;
                args.push(string_of(&current));
                current = Vec::new();
                proof {
                    assert(views(args@) =~= before.push(cur));
                }
            }
            i = i + 1;
        } else {
            current.push(c);
            i = i + 1;
        }
    }
    if current.len() > 0 {
        let ghost before = views(args@);
        args.push(string_of(&current));
        proof {
            assert(views(args@) =~= before.push(current@));
        }
    }
    args
}

/// The first index of a whitespace character in `s` from `i`, or the
/// length when there is none.
pub open spec fn first_ws_from(s: Seq<char>, i: int) -> int
    decreases s.len() - i,
{
    if i >= s.len() || i < 0 {
        s.len() as int
    } else if is_ws(s[i]) {
        i
    } else {
        first_ws_from(s, i + 1)
    }
}

/// An uninstall command split into the program and its arguments: a quoted
/// program runs up to the closing quote; otherwise the program is the first
/// whitespace-delimited token. The rest is trimmed and split by
/// [`spec_parse_args`]. An empty command gives an empty program and no
/// arguments.
pub open spec fn spec_parse_uninstall_command(u: Seq<char>) -> (Seq<char>, Seq<Seq<char>>) {
    let s = trim(u);
    if s.len() == 0 {
        (Seq::empty(), Seq::empty())
    } else if s[0] == '"' && find_char_from(s.skip(1), '"', 0) is Some {
        let rest = s.skip(1);
        let end = find_char_from(rest, '"', 0)->0;
        (rest.take(end), spec_parse_args(trim(rest.skip(end + 1))))
    } else {
        let k = first_ws_from(s, 0);
        if k < s.len() {
            (trim(s.take(k)), spec_parse_args(trim(s.skip(k + 1))))
        } else {
            (trim(s), spec_parse_args(Seq::empty()))
        }
    }
}

/// Splits an uninstall command into the program and its arguments,
/// respecting quotes: `"C:\Program Files\X\Uninstall.exe" /S` gives the
/// quoted path and `["/S"]`.
pub fn parse_uninstall_command(uninstall_string: &str) -> (r: (String, Vec<String>))
    ensures
        (r.0@, views(r.1@)) == spec_parse_uninstall_command(uninstall_string@),
{
    let s = trim_exec(&chars_of(uninstall_string));
    if s.len() == 0 {
        let v: Vec<String> = Vec::new();
        proof {
            assert(views(v@) =~= Seq::<Seq<char>>::empty());
        }
        return (String::new(), v);
    }
    if s[0] == '"' {
        let rest = slice_vec(&s, 1, s.len());
        proof {
            assert(rest@ =~= s@.skip(1));
        }
        match find_char_from_exec(&rest, '"', 0) {
            Some(end) => {
                proof {
                    lemma_find_char_from(rest@, '"', 0);
                }
                let exe = slice_vec(&rest, 0, end);
                let after = slice_vec(&rest, end + 1, rest.len());
                proof {
                    assert(exe@ =~= rest@.take(end as int));
                    assert(after@ =~= rest@.skip(end + 1));
                }
                let args_text = string_of(&trim_exec(&after));
                return (string_of(&exe), parse_args(args_text.as_str()));
            },
            None => {},
        }
    }
    let mut k: usize = 0;
    while k < s.len() && !is_ws_exec(s[k])
        invariant
            k <= s@.len(),
            first_ws_from(s@, k as int) == first_ws_from(s@, 0),
        decreases s@.len() - k,
    {
        k = k + 1;
    }
    proof {
        assert(first_ws_from(s@, k as int) == k as int);
    }
    if k < s.len() {
        let exe = trim_exec(&slice_vec(&s, 0, k));
        let after = slice_vec(&s, k + 1, s.len());
        proof {
            assert(s@.subrange(0, k as int) =~= s@.take(k as int));
            assert(after@ =~= s@.skip(k + 1));
        }
        let args_text = string_of(&trim_exec(&after));
        (string_of(&exe), parse_args(args_text.as_str()))
    } else {
        let exe = trim_exec(&s);
        let empty = String::new();
        let v = parse_args(empty.as_str());
        (string_of(&exe), v)
    }
}

/// An NSIS uninstaller: its file stem, lowercased, starts with "uninstall"
/// or "uninst".
pub open spec fn spec_is_nsis_uninstaller(exe: Seq<char>) -> bool {
    let stem = match path_file_stem(exe) {
        Some(s) => lowercase(s),
        None => Seq::empty(),
    };
    starts_with(stem, "uninstall"@) || starts_with(stem, "uninst"@)
}

/// Whether the program is an NSIS uninstaller ("Uninstall.exe",
/// "uninst.exe").
pub fn is_nsis_uninstaller(exe: &str) -> (r: bool)
    ensures
        r == spec_is_nsis_uninstaller(exe@),
{
    let stem = match file_stem_of(exe) {
        Some(s) => chars_of(to_lowercase(s.as_str()).as_str()),
        None => Vec::new(),
    };
    starts_with_exec(&stem, &chars_of("uninstall")) || starts_with_exec(&stem, &chars_of("uninst"))
}

} // verus!
