//! External processes: their results, the registry of live children that
//! are killed on quit, and where the tools are looked for.
use vstd::prelude::*;
use crate::text::{views, chars_of, string_of, push_str};
use crate::utils::app_home::{path_join, join_path, AppHome};

verus! {

broadcast use vstd::string::group_string_axioms;

/// The lines joined with `sep` between them.
pub open spec fn joined(lines: Seq<Seq<char>>, sep: Seq<char>) -> Seq<char>
    decreases lines.len(),
{
    if lines.len() == 0 {
        Seq::empty()
    } else if lines.len() == 1 {
        lines[0]
    } else {
        joined(lines.drop_last(), sep) + sep + lines.last()
    }
}

/// Joins the lines with `sep` between them.
pub fn join_with(lines: &Vec<String>, sep: &str) -> (r: String)
    ensures
        r@ == joined(views(lines@), sep@),
{
    let mut out = String::new();
    let mut i: usize = 0;
    while i < lines.len()
        invariant
            i <= lines@.len(),
            out@ == joined(views(lines@.take(i as int)), sep@),
        decreases lines@.len() - i,
    {
        proof {
            assert(views(lines@.take(i + 1)).drop_last() =~= views(lines@.take(i as int)));
            assert(views(lines@.take(i + 1)).last() == lines@[i as int]@);
            assert(views(lines@.take(i + 1)).len() == i + 1);
        }
        if i > 0 {
            push_str(&mut out, sep);
        }
        push_str(&mut out, lines[i].as_str());
        proof {
            if i == 0 {
                assert(views(lines@.take(1))[0] == lines@[0]@);
                assert(out@ =~= lines@[0]@);
            }
        }
        i = i + 1;
    }
    proof {
        assert(lines@.take(i as int) =~= lines@);
    }
    out
}

/// Joins lines with newlines.
pub fn join_lines(lines: &Vec<String>) -> (r: String)
    ensures
        r@ == joined(views(lines@), "\n"@),
{
    join_with(lines, "\n")
}

/// The result of running an external command.
#[derive(Debug, Clone)]
pub struct CommandResult {
    pub exit_code: i32,
    pub stdout: Vec<String>,
    pub stderr: Vec<String>,
}

impl CommandResult {
    /// Whether the command exited with code 0.
    pub fn is_success(&self) -> (r: bool)
        ensures
            r == (self.exit_code == 0),
    {
        self.exit_code == 0
    }

    /// The standard output, lines joined with newlines.
    pub fn stdout_text(&self) -> (r: String)
        ensures
            r@ == joined(views(self.stdout@), "\n"@),
    {
        join_lines(&self.stdout)
    }

    /// The standard error, lines joined with newlines.
    pub fn stderr_text(&self) -> (r: String)
        ensures
            r@ == joined(views(self.stderr@), "\n"@),
    {
        join_lines(&self.stderr)
    }
}

/// A line read from a pipe without its trailing `\r` and `\n` characters.
pub open spec fn without_line_end(s: Seq<char>) -> Seq<char>
    decreases s.len(),
{
    if s.len() > 0 && (s.last() == '\r' || s.last() == '\n') {
        without_line_end(s.drop_last())
    } else {
        s
    }
}

/// Strips the trailing `\r` and `\n` characters of a line read from a pipe.
pub fn strip_line_end(s: &str) -> (r: String)
    ensures
        r@ == without_line_end(s@),
{
    let cs = chars_of(s);
    let mut n = cs.len();
    proof {
        assert(cs@.take(n as int) =~= cs@);
    }
    while n > 0 && (cs[n - 1] == '\r' || cs[n - 1] == '\n')
        invariant
            n <= cs@.len(),
            cs@ == s@,
            without_line_end(cs@.take(n as int)) == without_line_end(s@),
        decreases n,
    {
        proof {
            assert(cs@.take(n as int).drop_last() =~= cs@.take(n - 1));
        }
        n = n - 1;
    }
    crate::text::string_of_range(&cs, 0, n)
}

// ==================== Live children ====================

/// The process ids of the live child processes, each held once.
pub struct ChildRegistry {
    pids: Vec<u32>,
}

impl View for ChildRegistry {
    type V = Set<u32>;

    closed spec fn view(&self) -> Set<u32> {
        self.pids@.to_set()
    }
}

/// Whether `v` holds `x`.
fn holds_pid(v: &Vec<u32>, x: u32) -> (r: bool)
    ensures
        r == v@.contains(x),
{
    let mut i: usize = 0;
    while i < v.len()
        invariant
            i <= v@.len(),
            forall|j: int| 0 <= j < i ==> v@[j] != x,
        decreases v@.len() - i,
    {
        if v[i] == x {
            return true;
        }
        i = i + 1;
    }
    false
}

impl ChildRegistry {
    /// No pid is registered twice.
    #[verifier::type_invariant]
    spec fn inv(self) -> bool {
        self.pids@.no_duplicates()
    }

    /// No live child.
    pub fn new() -> (r: Self)
        ensures
            r@ == Set::<u32>::empty(),
    {
        let r = ChildRegistry { pids: Vec::new() };
        proof {
            assert(r.pids@.to_set() =~= Set::<u32>::empty());
        }
        r
    }

    /// Registers a spawned child (ids 0 and unknown are ignored; a child
    /// already registered stays registered once).
    pub fn register_child_pid(&mut self, pid: Option<u32>)
        ensures
            final(self)@ == match pid {
                Some(p) => if p > 0 {
                    old(self)@.insert(p)
                } else {
                    old(self)@
                },
                None => old(self)@,
            },
    {
        proof {
            use_type_invariant(&*self);
        }
        match pid {
            Some(p) => {
                if p > 0 {
                    let mut v: Vec<u32> = Vec::new();
                    std::mem::swap(&mut v, &mut self.pids);
                    let ghost before = v@;
                    if !holds_pid(&v, p) {
                        v.push(p);
                        proof {
                            before.lemma_push_to_set_commute(p);
                            assert forall|a: int, b: int| 0 <= a < b < v@.len() implies v@[a] != v@[b] by {
                                if b == v@.len() - 1 {
                                    assert(before.contains(v@[a]));
                                }
                            }
                        }
                    } else {
                        proof {
                            assert(before.to_set().insert(p) =~= before.to_set());
                        }
                    }
                    self.pids = v;
                }
            },
            None => {},
        }
    }

    /// Removes a finished child.
    pub fn unregister_child_pid(&mut self, pid: Option<u32>)
        ensures
            final(self)@ == match pid {
                Some(p) => old(self)@.remove(p),
                None => old(self)@,
            },
    {
        proof {
            use_type_invariant(&*self);
        }
        match pid {
            Some(p) => {
                let ghost orig = self.pids@;
                let mut kept: Vec<u32> = Vec::new();
                let mut i: usize = 0;
                while i < self.pids.len()
                    invariant
                        i <= self.pids@.len(),
                        self.pids@ == orig,
                        orig.no_duplicates(),
                        kept@.to_set() =~= orig.take(i as int).to_set().remove(p),
                        kept@.no_duplicates(),
                        forall|k: int| 0 <= k < kept@.len() ==> orig.take(i as int).contains(#[trigger] kept@[k]),
                    decreases self.pids@.len() - i,
                {
                    let x = self.pids[i];
                    proof {
                        assert(orig.take(i + 1) =~= orig.take(i as int).push(x));
                        orig.take(i as int).lemma_push_to_set_commute(x);
                        assert(!orig.take(i as int).contains(x));
                        assert forall|k: int| 0 <= k < kept@.len() implies orig.take(i + 1).contains(
                            #[trigger] kept@[k],
                        ) by {
                            let j = choose|j: int| 0 <= j < i && orig.take(i as int)[j] == kept@[k];
                            assert(orig.take(i + 1)[j] == kept@[k]);
                        }
                    }
                    if x != p {
                        let ghost before = kept@;
                        kept.push(x);
                        proof {
                            before.lemma_push_to_set_commute(x);
                            assert(!before.contains(x));
                            assert forall|a: int, b: int| 0 <= a < b < kept@.len() implies kept@[a] != kept@[b] by {
                                if b == kept@.len() - 1 {
                                    assert(before.contains(kept@[a]));
                                }
                            }
                            assert(orig.take(i + 1)[i as int] == x);
                        }
                    }
                    i = i + 1;
                }
                proof {
                    assert(orig.take(i as int) =~= orig);
                }
                self.pids = kept;
            },
            None => {},
        }
    }

    /// Empties the registry and gives back every registered child, each
    /// once, whose process trees the caller kills.
    pub fn kill_all_children(&mut self) -> (r: Vec<u32>)
        ensures
            r@.to_set() == old(self)@,
            r@.no_duplicates(),
            final(self)@ == Set::<u32>::empty(),
    {
        proof {
            use_type_invariant(&*self);
        }
        let mut taken: Vec<u32> = Vec::new();
        std::mem::swap(&mut taken, &mut self.pids);
        proof {
            assert(self.pids@.to_set() =~= Set::<u32>::empty());
        }
        taken
    }
}

// ==================== Tools ====================

/// The ffmpeg bundled in the application's `bin/` directory (`ffmpeg.exe`
/// on Windows).
pub fn bundled_ffmpeg_path(root: &str, windows: bool) -> (r: String)
    ensures
        r@ == path_join(path_join(root@, "bin"@), if windows {
            "ffmpeg.exe"@
        } else {
            "ffmpeg"@
        }),
{
    let bin = AppHome::bin_dir(root);
    if windows {
        join_path(bin.as_str(), "ffmpeg.exe")
    } else {
        join_path(bin.as_str(), "ffmpeg")
    }
}

/// Where a tool is looked for, in order: the bundled copy, then each name
/// in each `PATH` directory (all directories for the first name, then for
/// the next).
pub open spec fn tool_candidates(local: Seq<char>, names: Seq<Seq<char>>, dirs: Seq<Seq<char>>) -> Seq<Seq<char>> {
    seq![local] + Seq::new(names.len() * dirs.len(), |k: int| path_join(dirs[k % (dirs.len() as int)], names[k / (dirs.len() as int)]))
}

/// `present` may answer `b` for a path with the text `c`.
pub open spec fn probe_says<F: Fn(&String) -> bool>(present: F, c: Seq<char>, b: bool) -> bool {
    exists|p: String| p@ == c && call_ensures(present, (&p,), b)
}

/// The candidates are tried in order: the result is the first one `present`
/// reports, or `default` when it reports none.
pub open spec fn spec_first_present<F: Fn(&String) -> bool>(
    present: F,
    cands: Seq<Seq<char>>,
    default: Seq<char>,
    r: String,
) -> bool {
    ||| (r@ == default && forall|j: int| 0 <= j < cands.len() ==> probe_says(present, #[trigger] cands[j], false))
    ||| exists|k: int|
        0 <= k < cands.len() && r@ == cands[k] && call_ensures(present, (&r,), true) && forall|j: int|
            0 <= j < k ==> probe_says(present, #[trigger] cands[j], false)
}

/// The first candidate (see `tool_candidates`) that `present` reports, else
/// `default`.
pub fn find_tool<F: Fn(&String) -> bool>(
    local: String,
    names: &Vec<String>,
    dirs: &Vec<String>,
    default: &str,
    present: F,
) -> (r: String)
    requires
        forall|p: &String| call_requires(present, (p,)),
    ensures
        spec_first_present(present, tool_candidates(local@, views(names@), views(dirs@)), default@, r),
{
    let ghost cs = tool_candidates(local@, views(names@), views(dirs@));
    let ghost d = dirs@.len() as int;
    if present(&local) {
        proof {
            assert(cs[0] == local@);
        }
        return local;
    }
    proof {
        assert(cs[0] == local@);
        assert(probe_says(present, cs[0], false));
    }
    let mut a: usize = 0;
    while a < names.len()
        invariant
            a <= names@.len(),
            cs == tool_candidates(local@, views(names@), views(dirs@)),
            d == dirs@.len(),
            cs.len() == 1 + names@.len() * d,
            forall|p: &String| call_requires(present, (p,)),
            forall|j: int| 0 <= j < 1 + a * d ==> probe_says(present, #[trigger] cs[j], false),
        decreases names@.len() - a,
    {
        let mut b: usize = 0;
        while b < dirs.len()
            invariant
                b <= dirs@.len(),
                a < names@.len(),
                cs == tool_candidates(local@, views(names@), views(dirs@)),
                d == dirs@.len(),
                cs.len() == 1 + names@.len() * d,
                forall|p: &String| call_requires(present, (p,)),
                forall|j: int| 0 <= j < 1 + a * d + b ==> probe_says(present, #[trigger] cs[j], false),
            decreases dirs@.len() - b,
        {
            let cand = join_path(dirs[b].as_str(), names[a].as_str());
            let hit = present(&cand);
            proof {
                let k = a * d + b;
                assert(0 <= k < names@.len() * d) by (nonlinear_arith)
                    requires
                        a < names@.len(),
                        b < d,
                        k == a * d + b,
                ;
                assert(k % d == b && k / d == a) by (nonlinear_arith)
                    requires
                        b < d,
                        k == a * d + b,
                ;
                assert(cs[k + 1] == path_join(dirs@[b as int]@, names@[a as int]@));
                assert(cs[k + 1] == cand@);
            }
            if hit {
                return cand;
            }
            b = b + 1;
        }
        proof {
            assert(1 + a * d + d == 1 + (a + 1) * d) by (nonlinear_arith);
        }
        a = a + 1;
    }
    default.to_string()
}

/// Where yt-dlp is looked for: the copy in `bin/`, then `yt-dlp.exe` and
/// `yt-dlp` (Windows) or `yt-dlp` (elsewhere) in each `PATH` directory;
/// `yt-dlp` itself (left to the system) when none is present.
pub fn find_ytdlp<F: Fn(&String) -> bool>(root: &str, windows: bool, path_dirs: &Vec<String>, present: F) -> (r: String)
    requires
        forall|p: &String| call_requires(present, (p,)),
    ensures
        spec_first_present(
            present,
            tool_candidates(
                path_join(path_join(root@, "bin"@), if windows { "yt-dlp.exe"@ } else { "yt-dlp"@ }),
                if windows { seq!["yt-dlp.exe"@, "yt-dlp"@] } else { seq!["yt-dlp"@] },
                views(path_dirs@),
            ),
            "yt-dlp"@,
            r,
        ),
{
    let bin = AppHome::bin_dir(root);
    let local = if windows { join_path(bin.as_str(), "yt-dlp.exe") } else { join_path(bin.as_str(), "yt-dlp") };
    let mut names: Vec<String> = Vec::new();
    if windows {
        names.push("yt-dlp.exe".to_string());
    }
    names.push("yt-dlp".to_string());
    proof {
        if windows {
            assert(views(names@) =~= seq!["yt-dlp.exe"@, "yt-dlp"@]);
        } else {
            assert(views(names@) =~= seq!["yt-dlp"@]);
        }
    }
    find_tool(local, &names, path_dirs, "yt-dlp", present)
}

/// Where ffmpeg is looked for: the bundled copy, then `ffmpeg.exe` and
/// `ffmpeg` (Windows) or `ffmpeg` (elsewhere) in each `PATH` directory;
/// `ffmpeg` itself when none is present.
pub fn find_ffmpeg<F: Fn(&String) -> bool>(root: &str, windows: bool, path_dirs: &Vec<String>, present: F) -> (r: String)
    requires
        forall|p: &String| call_requires(present, (p,)),
    ensures
        spec_first_present(
            present,
            tool_candidates(
                path_join(path_join(root@, "bin"@), if windows { "ffmpeg.exe"@ } else { "ffmpeg"@ }),
                if windows { seq!["ffmpeg.exe"@, "ffmpeg"@] } else { seq!["ffmpeg"@] },
                views(path_dirs@),
            ),
            "ffmpeg"@,
            r,
        ),
{
    let local = bundled_ffmpeg_path(root, windows);
    let mut names: Vec<String> = Vec::new();
    if windows {
        names.push("ffmpeg.exe".to_string());
    }
    names.push("ffmpeg".to_string());
    proof {
        if windows {
            assert(views(names@) =~= seq!["ffmpeg.exe"@, "ffmpeg"@]);
        } else {
            assert(views(names@) =~= seq!["ffmpeg"@]);
        }
    }
    find_tool(local, &names, path_dirs, "ffmpeg", present)
}

} // verus!
