//! Browser cookie sources: which browsers yt-dlp can read cookies from,
//! where their cookie databases live, and how a locked database shows up.
use vstd::prelude::*;
use crate::text::{lowercase, to_lowercase, contains, contains_exec, chars_of, str_eq, views, strs, ends_with, ends_with_exec, copy_str};
use crate::utils::app_home::{path_join, join_path};

verus! {

broadcast use vstd::string::group_string_axioms;

/// Browser cookie detection.
pub struct CookieManager;

/// The browsers tried for cookies, in order.
pub const BROWSER_FALLBACK_ORDER: [&'static str; 5] = ["chrome", "firefox", "edge", "brave", "opera"];

/// The browsers that yt-dlp's `--cookies-from-browser` supports.
pub const YTDLP_SUPPORTED_BROWSERS: [&'static str; 9] = [
    "brave",
    "chrome",
    "chromium",
    "edge",
    "firefox",
    "opera",
    "safari",
    "vivaldi",
    "whale",
];

/// yt-dlp's stderr tells of a locked Chrome cookie database: it says
/// "could not copy" together with "chrome" or "cookie database" (any case).
pub open spec fn spec_is_chrome_lock_error(stderr: Seq<char>) -> bool {
    let l = lowercase(stderr);
    (contains(l, "could not copy"@) && contains(l, "chrome"@)) || (contains(l, "could not copy"@)
        && contains(l, "cookie database"@))
}

/// The environment directories that browser files are looked up under
/// (`LOCALAPPDATA`, `APPDATA`, `PROGRAMFILES`, `PROGRAMFILES(X86)`), each
/// absent where the variable is unset.
pub struct BrowserEnv {
    pub local_app_data: Option<String>,
    pub app_data: Option<String>,
    pub program_files: Option<String>,
    pub program_files_x86: Option<String>,
}

/// The text of a directory that may be unset, as a list of zero or one item.
pub open spec fn opt_dir(d: Option<String>) -> Seq<Seq<char>> {
    match d {
        Some(s) => seq![s@],
        None => Seq::empty(),
    }
}

/// Where a browser's executable lies below the program directories (the
/// `bool` says whether it may also lie below `LOCALAPPDATA`); `None` for a
/// browser that is not probed.
pub open spec fn exe_layout(b: Seq<char>) -> Option<(bool, Seq<char>)> {
    if b == "chrome"@ {
        Some((true, "Google/Chrome/Application/chrome.exe"@))
    } else if b == "edge"@ {
        Some((false, "Microsoft/Edge/Application/msedge.exe"@))
    } else if b == "firefox"@ {
        Some((false, "Mozilla Firefox/firefox.exe"@))
    } else if b == "brave"@ {
        Some((true, "BraveSoftware/Brave-Browser/Application/brave.exe"@))
    } else if b == "opera"@ {
        Some((true, "Opera/launcher.exe"@))
    } else {
        None
    }
}

/// Each root joined with `rel`.
pub open spec fn joined_under(roots: Seq<Seq<char>>, rel: Seq<char>) -> Seq<Seq<char>> {
    roots.map_values(|r: Seq<char>| path_join(r, rel))
}

/// The executable paths whose presence marks `browser` (any case) as
/// installed: below `PROGRAMFILES`, `PROGRAMFILES(X86)` and, for some
/// browsers, `LOCALAPPDATA`, in that order.
pub open spec fn spec_executable_candidates(browser: Seq<char>, env: BrowserEnv) -> Seq<Seq<char>> {
    match exe_layout(lowercase(browser)) {
        None => Seq::empty(),
        Some((with_local, rel)) => joined_under(
            opt_dir(env.program_files) + opt_dir(env.program_files_x86) + if with_local {
                opt_dir(env.local_app_data)
            } else {
                Seq::empty()
            },
            rel,
        ),
    }
}

/// A registry hive that browser keys are looked up in.
#[derive(Debug, Clone, Copy, PartialEq, Eq, Structural)]
pub enum Hive {
    /// `HKEY_LOCAL_MACHINE`.
    LocalMachine,
    /// `HKEY_CURRENT_USER`.
    CurrentUser,
}

/// A registry key whose presence marks a browser as installed.
pub struct RegistryKey {
    pub hive: Hive,
    pub path: String,
}

/// The hive and path of a key.
pub open spec fn key_view(k: RegistryKey) -> (Hive, Seq<char>) {
    (k.hive, k.path@)
}

/// The product key below `SOFTWARE` of a probed browser (already in lower
/// case); `None` for a browser that is not probed.
pub open spec fn registry_product(b: Seq<char>) -> Option<Seq<char>> {
    if b == "chrome"@ {
        Some("Google\\Chrome\\BLBeacon"@)
    } else if b == "edge"@ {
        Some("Microsoft\\Edge\\BLBeacon"@)
    } else if b == "firefox"@ {
        Some("Mozilla\\Mozilla Firefox"@)
    } else if b == "brave"@ {
        Some("BraveSoftware\\Brave-Browser\\BLBeacon"@)
    } else if b == "opera"@ {
        Some("Opera Software"@)
    } else {
        None
    }
}

/// Whether `browser` (any case) is one of the browsers whose installation
/// is probed: chrome, edge, firefox, brave or opera.
pub open spec fn is_probed_browser(browser: Seq<char>) -> bool {
    exe_layout(lowercase(browser)) is Some
}

/// The registry keys whose presence marks `browser` (any case) as
/// installed: the machine-wide key, its 32-bit twin, and the per-user key.
pub open spec fn spec_registry_keys(browser: Seq<char>) -> Seq<(Hive, Seq<char>)> {
    match registry_product(lowercase(browser)) {
        None => Seq::empty(),
        Some(x) => seq![
            (Hive::LocalMachine, "SOFTWARE\\"@ + x),
            (Hive::LocalMachine, "SOFTWARE\\WOW6432Node\\"@ + x),
            (Hive::CurrentUser, "Software\\"@ + x),
        ],
    }
}

proof fn lemma_probed_tables_agree(b: Seq<char>)
    ensures
        registry_product(b) is Some <==> exe_layout(b) is Some,
{
}

/// Appends `root` joined with `rel`, where `root` is set.
fn push_joined(v: &mut Vec<String>, root: &Option<String>, rel: &str)
    ensures
        views(final(v)@) == views(old(v)@) + joined_under(opt_dir(*root), rel@),
{
    match root {
        Some(r) => {
            let p = join_path(r.as_str(), rel);
            v.push(p);
            proof {
                assert(views(v@) =~= views(old(v)@) + joined_under(opt_dir(*root), rel@));
            }
        },
        None => {
            proof {
                assert(views(v@) =~= views(old(v)@) + joined_under(opt_dir(*root), rel@));
            }
        },
    }
}

/// Selects the items whose flag is set, in order.
pub open spec fn select<T>(items: Seq<T>, keep: Seq<bool>) -> Seq<T>
    decreases items.len(),
{
    if items.len() == 0 || keep.len() == 0 {
        Seq::empty()
    } else {
        let rest = select(items.drop_last(), keep.drop_last());
        if keep.last() {
            rest.push(items.last())
        } else {
            rest
        }
    }
}

/// One step of `select`: appending an item with its flag.
pub proof fn lemma_select_push<T>(items: Seq<T>, keep: Seq<bool>, x: T, k: bool)
    requires
        items.len() == keep.len(),
    ensures
        select(items.push(x), keep.push(k)) == if k {
            select(items, keep).push(x)
        } else {
            select(items, keep)
        },
{
    assert(items.push(x).drop_last() =~= items);
    assert(keep.push(k).drop_last() =~= keep);
}

/// Everything `select` keeps is among the items.
pub proof fn lemma_select_within<T>(items: Seq<T>, keep: Seq<bool>, y: T)
    requires
        select(items, keep).contains(y),
    ensures
        items.contains(y),
    decreases items.len(),
{
    if items.len() == 0 || keep.len() == 0 {
    } else {
        let rest = select(items.drop_last(), keep.drop_last());
        if rest.contains(y) {
            lemma_select_within(items.drop_last(), keep.drop_last(), y);
            let j = choose|j: int| 0 <= j < items.drop_last().len() && items.drop_last()[j] == y;
            assert(items[j] == y);
        } else {
            assert(items[items.len() - 1] == y);
        }
    }
}

/// Everything `select` keeps is an item whose flag is set.
pub proof fn lemma_select_kept<T>(items: Seq<T>, keep: Seq<bool>, y: T)
    requires
        items.len() == keep.len(),
        select(items, keep).contains(y),
    ensures
        exists|j: int| 0 <= j < items.len() && j < keep.len() && items[j] == y && keep[j],
    decreases items.len(),
{
    if items.len() == 0 || keep.len() == 0 {
    } else {
        let rest = select(items.drop_last(), keep.drop_last());
        if rest.contains(y) {
            lemma_select_kept(items.drop_last(), keep.drop_last(), y);
            let j = choose|j: int|
                0 <= j < items.drop_last().len() && j < keep.drop_last().len() && items.drop_last()[j] == y
                    && keep.drop_last()[j];
            assert(items[j] == y && keep[j]);
        } else {
            assert(keep.last() && items.last() == y);
            assert(items[items.len() - 1] == y && keep[items.len() - 1]);
        }
    }
}

/// The installed browsers are those yt-dlp supports and whose installation
/// is probed: when each flag of `installed_browsers` comes from
/// `is_browser_installed` (which is false for a browser that is not
/// probed), every browser listed is yt-dlp-supported and probed, so none
/// but chrome, edge, firefox, brave and opera can appear.
pub proof fn law_installed_browsers_are_supported_and_probed(keep: Seq<bool>, b: Seq<char>)
    requires
        keep.len() == YTDLP_SUPPORTED_BROWSERS@.len(),
        forall|i: int| 0 <= i < keep.len() && #[trigger] keep[i] ==> is_probed_browser(YTDLP_SUPPORTED_BROWSERS@[i]@),
        select(strs(YTDLP_SUPPORTED_BROWSERS@), keep).contains(b),
    ensures
        strs(YTDLP_SUPPORTED_BROWSERS@).contains(b),
        is_probed_browser(b),
{
    lemma_select_kept(strs(YTDLP_SUPPORTED_BROWSERS@), keep, b);
    let j = choose|j: int|
        0 <= j < strs(YTDLP_SUPPORTED_BROWSERS@).len() && j < keep.len() && strs(YTDLP_SUPPORTED_BROWSERS@)[j] == b
            && keep[j];
    assert(strs(YTDLP_SUPPORTED_BROWSERS@)[j] == YTDLP_SUPPORTED_BROWSERS@[j]@);
}

/// A directory entry of the Firefox profiles directory, with what the
/// caller found on disk: whether it is a directory and whether it holds a
/// `cookies.sqlite` file.
pub struct ProfileEntry {
    pub name: String,
    pub path: String,
    pub is_dir: bool,
    pub has_cookie_db: bool,
}

/// A `*.default-release` profile that holds a cookie database.
pub open spec fn release_profile(e: ProfileEntry) -> bool {
    ends_with(e.name@, ".default-release"@) && e.has_cookie_db
}

/// A profile directory that holds a cookie database.
pub open spec fn usable_profile(e: ProfileEntry) -> bool {
    e.is_dir && e.has_cookie_db
}

/// The cookie database of the profile at `path`.
pub open spec fn profile_db(e: ProfileEntry) -> Seq<char> {
    path_join(e.path@, "cookies.sqlite"@)
}

/// Which Firefox cookie database is used: that of the first
/// `*.default-release` profile holding one, else that of the first profile
/// directory holding one.
pub open spec fn spec_pick_firefox_db(es: Seq<ProfileEntry>, db: Option<Seq<char>>) -> bool {
    match db {
        Some(p) => exists|k: int|
            0 <= k < es.len() && p == profile_db(es[k]) && ((release_profile(es[k]) && forall|j: int|
                0 <= j < k ==> !release_profile(#[trigger] es[j])) || ((forall|j: int|
                0 <= j < es.len() ==> !release_profile(#[trigger] es[j])) && usable_profile(es[k]) && forall|j: int|
                0 <= j < k ==> !usable_profile(#[trigger] es[j]))),
        None => forall|j: int| 0 <= j < es.len() ==> !release_profile(#[trigger] es[j]) && !usable_profile(es[j]),
    }
}

/// The path `base` joined with each part in turn.
pub open spec fn join_all(base: Seq<char>, parts: Seq<Seq<char>>) -> Seq<char>
    decreases parts.len(),
{
    if parts.len() == 0 {
        base
    } else {
        join_all(path_join(base, parts[0]), parts.drop_first())
    }
}

/// Joins each part onto `base` in turn.
fn join_parts(base: &str, parts: &[&str]) -> (r: String)
    ensures
        r@ == join_all(base@, strs(parts@)),
{
    let mut acc = copy_str(base);
    let mut i: usize = 0;
    proof {
        assert(parts@.skip(0) =~= parts@);
    }
    while i < parts.len()
        invariant
            i <= parts@.len(),
            join_all(acc@, strs(parts@.skip(i as int))) == join_all(base@, strs(parts@)),
        decreases parts@.len() - i,
    {
        let next = join_path(acc.as_str(), parts[i]);
        proof {
            let rest = strs(parts@.skip(i as int));
            assert(rest[0] == parts@[i as int]@);
            assert(rest.drop_first() =~= strs(parts@.skip(i + 1)));
        }
        acc = next;
        i = i + 1;
    }
    proof {
        assert(strs(parts@.skip(i as int)) =~= Seq::<Seq<char>>::empty());
    }
    acc
}

/// The cookie-database path below a directory that may be unset.
pub open spec fn db_below(root: Option<String>, parts: Seq<Seq<char>>) -> Option<Seq<char>> {
    match root {
        Some(r) => Some(join_all(r@, parts)),
        None => None,
    }
}

/// The path parts of the Chromium-family cookie databases.
pub open spec fn chromium_db_parts(vendor: Seq<Seq<char>>) -> Seq<Seq<char>> {
    vendor + seq!["User Data"@, "Default"@, "Network"@, "Cookies"@]
}

/// Where `browser` (any case) keeps its cookie database: Chrome, Edge and
/// Brave below `LOCALAPPDATA`, Opera below `APPDATA`, Firefox in the profile
/// that `spec_pick_firefox_db` picks (when `APPDATA` is set); `None` for any
/// other browser or an unset directory.
pub open spec fn spec_browser_cookie_path(
    browser: Seq<char>,
    env: BrowserEnv,
    profiles: Seq<ProfileEntry>,
    r: Option<Seq<char>>,
) -> bool {
    let b = lowercase(browser);
    if b == "chrome"@ {
        r == db_below(env.local_app_data, chromium_db_parts(seq!["Google"@, "Chrome"@]))
    } else if b == "firefox"@ {
        if env.app_data is Some {
            spec_pick_firefox_db(profiles, r)
        } else {
            r is None
        }
    } else if b == "edge"@ {
        r == db_below(env.local_app_data, chromium_db_parts(seq!["Microsoft"@, "Edge"@]))
    } else if b == "brave"@ {
        r == db_below(env.local_app_data, chromium_db_parts(seq!["BraveSoftware"@, "Brave-Browser"@]))
    } else if b == "opera"@ {
        r == db_below(env.app_data, seq!["Opera Software"@, "Opera Stable"@, "Default"@, "Network"@, "Cookies"@])
    } else {
        r is None
    }
}

/// `parts` joined below `root`, where `root` is set.
fn join_below(root: &Option<String>, parts: &[&str]) -> (r: Option<String>)
    ensures
        r matches Some(p) ==> db_below(*root, strs(parts@)) == Some(p@),
        r is None ==> db_below(*root, strs(parts@)) is None,
{
    match root {
        Some(d) => Some(join_parts(d.as_str(), parts)),
        None => None,
    }
}

/// The Firefox cookie database among the profile entries (see
/// `spec_pick_firefox_db`).
pub fn pick_firefox_db(entries: &Vec<ProfileEntry>) -> (r: Option<String>)
    ensures
        spec_pick_firefox_db(
            entries@,
            match r {
                Some(p) => Some(p@),
                None => None,
            },
        ),
{
    let suffix = chars_of(".default-release");
    let mut i: usize = 0;
    while i < entries.len()
        invariant
            i <= entries@.len(),
            suffix@ == ".default-release"@,
            forall|j: int| 0 <= j < i ==> !release_profile(#[trigger] entries@[j]),
        decreases entries@.len() - i,
    {
        let e = &entries[i];
        if ends_with_exec(&chars_of(e.name.as_str()), &suffix) && e.has_cookie_db {
            let p = join_path(e.path.as_str(), "cookies.sqlite");
            proof {
                assert(release_profile(entries@[i as int]));
            }
            return Some(p);
        }
        i = i + 1;
    }
    let mut k: usize = 0;
    while k < entries.len()
        invariant
            k <= entries@.len(),
            forall|j: int| 0 <= j < entries@.len() ==> !release_profile(#[trigger] entries@[j]),
            forall|j: int| 0 <= j < k ==> !usable_profile(#[trigger] entries@[j]),
        decreases entries@.len() - k,
    {
        let e = &entries[k];
        if e.is_dir && e.has_cookie_db {
            let p = join_path(e.path.as_str(), "cookies.sqlite");
            proof {
                assert(usable_profile(entries@[k as int]));
            }
            return Some(p);
        }
        k = k + 1;
    }
    None
}

impl CookieManager {
    /// Where `browser` keeps its cookie database (see
    /// `spec_browser_cookie_path`); `profiles` are the entries of the Firefox
    /// profiles directory, empty where it does not exist.
    pub fn browser_cookie_path(browser: &str, env: &BrowserEnv, profiles: &Vec<ProfileEntry>) -> (r: Option<String>)
        ensures
            spec_browser_cookie_path(
                browser@,
                *env,
                profiles@,
                match r {
                    Some(p) => Some(p@),
                    None => None,
                },
            ),
    {
        let lower = to_lowercase(browser);
        let b = lower.as_str();
        if str_eq(b, "chrome") {
            let parts = ["Google", "Chrome", "User Data", "Default", "Network", "Cookies"];
            let r = join_below(&env.local_app_data, &parts);
            proof {
                assert(strs(parts@) =~= chromium_db_parts(seq!["Google"@, "Chrome"@]));
            }
            r
        } else if str_eq(b, "firefox") {
            if env.app_data.is_none() {
                return None;
            }
            pick_firefox_db(profiles)
        } else if str_eq(b, "edge") {
            let parts = ["Microsoft", "Edge", "User Data", "Default", "Network", "Cookies"];
            let r = join_below(&env.local_app_data, &parts);
            proof {
                assert(strs(parts@) =~= chromium_db_parts(seq!["Microsoft"@, "Edge"@]));
            }
            r
        } else if str_eq(b, "brave") {
            let parts = ["BraveSoftware", "Brave-Browser", "User Data", "Default", "Network", "Cookies"];
            let r = join_below(&env.local_app_data, &parts);
            proof {
                assert(strs(parts@) =~= chromium_db_parts(seq!["BraveSoftware"@, "Brave-Browser"@]));
            }
            r
        } else if str_eq(b, "opera") {
            let parts = ["Opera Software", "Opera Stable", "Default", "Network", "Cookies"];
            let r = join_below(&env.app_data, &parts);
            proof {
                assert(strs(parts@) =~= seq!["Opera Software"@, "Opera Stable"@, "Default"@, "Network"@, "Cookies"@]);
            }
            r
        } else {
            None
        }
    }

    /// The executable paths probed for `browser` (see
    /// `spec_executable_candidates`).
    pub fn executable_candidates(browser: &str, env: &BrowserEnv) -> (r: Vec<String>)
        ensures
            views(r@) == spec_executable_candidates(browser@, *env),
    {
        let lower = to_lowercase(browser);
        let b = lower.as_str();
        let layout: Option<(bool, &str)> = if str_eq(b, "chrome") {
            Some((true, "Google/Chrome/Application/chrome.exe"))
        } else if str_eq(b, "edge") {
            Some((false, "Microsoft/Edge/Application/msedge.exe"))
        } else if str_eq(b, "firefox") {
            Some((false, "Mozilla Firefox/firefox.exe"))
        } else if str_eq(b, "brave") {
            Some((true, "BraveSoftware/Brave-Browser/Application/brave.exe"))
        } else if str_eq(b, "opera") {
            Some((true, "Opera/launcher.exe"))
        } else {
            None
        };
        let mut v: Vec<String> = Vec::new();
        match layout {
            None => {
                proof {
                    assert(views(v@) =~= Seq::<Seq<char>>::empty());
                }
            },
            Some((with_local, rel)) => {
                let ghost rel_v = rel@;
                push_joined(&mut v, &env.program_files, rel);
                push_joined(&mut v, &env.program_files_x86, rel);
                if with_local {
                    push_joined(&mut v, &env.local_app_data, rel);
                }
                proof {
                    let a = opt_dir(env.program_files);
                    let b2 = opt_dir(env.program_files_x86);
                    let c = if with_local { opt_dir(env.local_app_data) } else { Seq::empty() };
                    assert(joined_under(a + b2 + c, rel_v) =~= joined_under(a, rel_v) + joined_under(b2, rel_v)
                        + joined_under(c, rel_v));
                    assert(views(v@) =~= joined_under(a, rel_v) + joined_under(b2, rel_v) + joined_under(c, rel_v));
                }
            },
        }
        v
    }

    /// The registry keys probed for `browser` (see `spec_registry_keys`).
    pub fn registry_keys(browser: &str) -> (r: Vec<RegistryKey>)
        ensures
            r@.map_values(|k: RegistryKey| key_view(k)) == spec_registry_keys(browser@),
    {
        let lower = to_lowercase(browser);
        let b = lower.as_str();
        let product: Option<&str> = if str_eq(b, "chrome") {
            Some("Google\\Chrome\\BLBeacon")
        } else if str_eq(b, "edge") {
            Some("Microsoft\\Edge\\BLBeacon")
        } else if str_eq(b, "firefox") {
            Some("Mozilla\\Mozilla Firefox")
        } else if str_eq(b, "brave") {
            Some("BraveSoftware\\Brave-Browser\\BLBeacon")
        } else if str_eq(b, "opera") {
            Some("Opera Software")
        } else {
            None
        };
        let mut v: Vec<RegistryKey> = Vec::new();
        match product {
            None => {},
            Some(x) => {
                let mut a = "SOFTWARE\\".to_string();
                crate::text::push_str(&mut a, x);
                let mut w = "SOFTWARE\\WOW6432Node\\".to_string();
                crate::text::push_str(&mut w, x);
                let mut u = "Software\\".to_string();
                crate::text::push_str(&mut u, x);
                v.push(RegistryKey { hive: Hive::LocalMachine, path: a });
                v.push(RegistryKey { hive: Hive::LocalMachine, path: w });
                v.push(RegistryKey { hive: Hive::CurrentUser, path: u });
            },
        }
        proof {
            assert(v@.map_values(|k: RegistryKey| key_view(k)) =~= spec_registry_keys(browser@));
        }
        v
    }

    /// Whether `browser` counts as installed. On Windows its registry keys
    /// are tried first, in order, and `key_exists` reporting one present
    /// ends the search; then `present` is asked about its executable
    /// candidates, in order, until one is found. A browser that is not
    /// probed (anything but chrome, edge, firefox, brave or opera, in any
    /// case) is never installed.
    pub fn is_browser_installed<G: Fn(&RegistryKey) -> bool, F: Fn(&String) -> bool>(
        browser: &str,
        env: &BrowserEnv,
        windows: bool,
        key_exists: G,
        present: F,
    ) -> (r: bool)
        requires
            forall|k: &RegistryKey| call_requires(key_exists, (k,)),
            forall|p: &String| call_requires(present, (p,)),
        ensures
            !is_probed_browser(browser@) ==> !r,
            r ==> (windows && exists|i: int, k: RegistryKey|
                0 <= i < spec_registry_keys(browser@).len() && key_view(k) == spec_registry_keys(browser@)[i]
                    && call_ensures(key_exists, (&k,), true)) || exists|i: int, p: String|
                0 <= i < spec_executable_candidates(browser@, *env).len() && p@ == spec_executable_candidates(
                    browser@,
                    *env,
                )[i] && call_ensures(present, (&p,), true),
            !r ==> (windows ==> forall|i: int|
                0 <= i < spec_registry_keys(browser@).len() ==> exists|k: RegistryKey|
                    key_view(k) == #[trigger] spec_registry_keys(browser@)[i] && call_ensures(
                        key_exists,
                        (&k,),
                        false,
                    )) && forall|i: int|
                0 <= i < spec_executable_candidates(browser@, *env).len() ==> exists|p: String|
                    p@ == #[trigger] spec_executable_candidates(browser@, *env)[i] && call_ensures(
                        present,
                        (&p,),
                        false,
                    ),
    {
        proof {
            lemma_probed_tables_agree(lowercase(browser@));
        }
        if windows {
            let keys = Self::registry_keys(browser);
            let ghost ks = spec_registry_keys(browser@);
            let mut i: usize = 0;
            while i < keys.len()
                invariant
                    windows,
                    i <= keys@.len(),
                    keys@.map_values(|k: RegistryKey| key_view(k)) == ks,
                    ks == spec_registry_keys(browser@),
                    forall|k: &RegistryKey| call_requires(key_exists, (k,)),
                    forall|j: int|
                        0 <= j < i ==> exists|k: RegistryKey|
                            key_view(k) == #[trigger] ks[j] && call_ensures(key_exists, (&k,), false),
                decreases keys@.len() - i,
            {
                let hit = key_exists(&keys[i]);
                proof {
                    assert(key_view(keys@[i as int]) == ks[i as int]);
                }
                if hit {
                    proof {
                        assert(ks.len() > 0);
                        assert(registry_product(lowercase(browser@)) is Some);
                        let kk = keys@[i as int];
                        assert(0 <= i < ks.len() && key_view(kk) == ks[i as int] && call_ensures(
                            key_exists,
                            (&kk,),
                            true,
                        ));
                        assert(exists|j: int, k: RegistryKey|
                            0 <= j < spec_registry_keys(browser@).len() && key_view(k) == spec_registry_keys(browser@)[j]
                                && call_ensures(key_exists, (&k,), true));
                    }
                    return true;
                }
                i = i + 1;
            }
        }
        let cands = Self::executable_candidates(browser, env);
        let ghost cs = spec_executable_candidates(browser@, *env);
        let mut i: usize = 0;
        while i < cands.len()
            invariant
                i <= cands@.len(),
                views(cands@) == cs,
                cs == spec_executable_candidates(browser@, *env),
                forall|p: &String| call_requires(present, (p,)),
                forall|k: int|
                    0 <= k < i ==> exists|p: String| p@ == #[trigger] cs[k] && call_ensures(present, (&p,), false),
            decreases cands@.len() - i,
        {
            let hit = present(&cands[i]);
            proof {
                assert(cands@[i as int]@ == cs[i as int]);
            }
            if hit {
                proof {
                    assert(cs.len() > 0);
                    assert(exe_layout(lowercase(browser@)) is Some);
                }
                return true;
            }
            i = i + 1;
        }
        false
    }

    /// The yt-dlp-supported browsers that `installed` reports installed, in
    /// the order of `YTDLP_SUPPORTED_BROWSERS`: the list never holds a browser
    /// that yt-dlp cannot read.
    pub fn installed_browsers<F: Fn(&str) -> bool>(installed: F) -> (r: Vec<String>)
        requires
            forall|b: &str| call_requires(installed, (b,)),
        ensures
            exists|keep: Seq<bool>|
                keep.len() == YTDLP_SUPPORTED_BROWSERS@.len() && (forall|i: int|
                    0 <= i < keep.len() ==> call_ensures(installed, (YTDLP_SUPPORTED_BROWSERS@[i],), #[trigger] keep[i]))
                    && views(r@) == select(strs(YTDLP_SUPPORTED_BROWSERS@), keep),
            forall|i: int| 0 <= i < r@.len() ==> strs(YTDLP_SUPPORTED_BROWSERS@).contains(#[trigger] r@[i]@),
    {
        let r = filter_names(&YTDLP_SUPPORTED_BROWSERS, installed);
        proof {
            assert forall|i: int| 0 <= i < r@.len() implies strs(YTDLP_SUPPORTED_BROWSERS@).contains(
                #[trigger] r@[i]@,
            ) by {
                let keep = choose|keep: Seq<bool>|
                    keep.len() == YTDLP_SUPPORTED_BROWSERS@.len() && (forall|i: int|
                        0 <= i < keep.len() ==> call_ensures(installed, (YTDLP_SUPPORTED_BROWSERS@[i],), #[trigger] keep[i]))
                        && views(r@) == select(strs(YTDLP_SUPPORTED_BROWSERS@), keep);
                assert(views(r@)[i] == r@[i]@);
                lemma_select_within(strs(YTDLP_SUPPORTED_BROWSERS@), keep, r@[i]@);
            }
        }
        r
    }

    /// The first browser, in fallback order, whose cookie database
    /// `has_cookie_db` reports present.
    pub fn scan_available_browser<F: Fn(&str) -> bool>(has_cookie_db: F) -> (r: Option<String>)
        requires
            forall|b: &str| call_requires(has_cookie_db, (b,)),
        ensures
            match r {
                Some(s) => exists|k: int|
                    0 <= k < BROWSER_FALLBACK_ORDER@.len() && s@ == BROWSER_FALLBACK_ORDER@[k]@
                        && call_ensures(has_cookie_db, (BROWSER_FALLBACK_ORDER@[k],), true) && forall|j: int|
                        0 <= j < k ==> call_ensures(has_cookie_db, (#[trigger] BROWSER_FALLBACK_ORDER@[j],), false),
                None => forall|j: int|
                    0 <= j < BROWSER_FALLBACK_ORDER@.len() ==> call_ensures(
                        has_cookie_db,
                        (#[trigger] BROWSER_FALLBACK_ORDER@[j],),
                        false,
                    ),
            },
    {
        let order = &BROWSER_FALLBACK_ORDER;
        let mut i: usize = 0;
        while i < order.len()
            invariant
                i <= order@.len(),
                order@ == BROWSER_FALLBACK_ORDER@,
                forall|b: &str| call_requires(has_cookie_db, (b,)),
                forall|j: int| 0 <= j < i ==> call_ensures(has_cookie_db, (#[trigger] order@[j],), false),
            decreases order@.len() - i,
        {
            if has_cookie_db(order[i]) {
                return Some(order[i].to_string());
            }
            i = i + 1;
        }
        None
    }

    /// The browsers, in fallback order, whose cookie database `has_cookie_db`
    /// reports present.
    pub fn list_available_browsers<F: Fn(&str) -> bool>(has_cookie_db: F) -> (r: Vec<String>)
        requires
            forall|b: &str| call_requires(has_cookie_db, (b,)),
        ensures
            exists|keep: Seq<bool>|
                keep.len() == BROWSER_FALLBACK_ORDER@.len() && (forall|i: int|
                    0 <= i < keep.len() ==> call_ensures(has_cookie_db, (BROWSER_FALLBACK_ORDER@[i],), #[trigger] keep[i]))
                    && views(r@) == select(strs(BROWSER_FALLBACK_ORDER@), keep),
    {
        filter_names(&BROWSER_FALLBACK_ORDER, has_cookie_db)
    }

    /// Whether yt-dlp failed because the browser holds its cookie database
    /// locked.
    pub fn is_chrome_lock_error(stderr: &str) -> (r: bool)
        ensures
            r == spec_is_chrome_lock_error(stderr@),
    {
        let lower = chars_of(to_lowercase(stderr).as_str());
        let copy = contains_exec(&lower, &chars_of("could not copy"));
        let chrome = contains_exec(&lower, &chars_of("chrome"));
        let db = contains_exec(&lower, &chars_of("cookie database"));
        (copy && chrome) || (copy && db)
    }
}

/// The names that `keep_name` accepts, in order.
fn filter_names<F: Fn(&str) -> bool>(names: &[&str], keep_name: F) -> (r: Vec<String>)
    requires
        forall|b: &str| call_requires(keep_name, (b,)),
    ensures
        exists|keep: Seq<bool>|
            keep.len() == names@.len() && (forall|i: int|
                0 <= i < keep.len() ==> call_ensures(keep_name, (names@[i],), #[trigger] keep[i])) && views(r@)
                == select(strs(names@), keep),
{
    let mut out: Vec<String> = Vec::new();
    let ghost mut keep: Seq<bool> = Seq::empty();
    let mut i: usize = 0;
    while i < names.len()
        invariant
            i <= names@.len(),
            keep.len() == i,
            forall|b: &str| call_requires(keep_name, (b,)),
            forall|j: int| 0 <= j < i ==> call_ensures(keep_name, (names@[j],), #[trigger] keep[j]),
            views(out@) == select(strs(names@.take(i as int)), keep),
        decreases names@.len() - i,
    {
        let k = keep_name(names[i]);
        proof {
            assert(strs(names@.take(i + 1)) =~= strs(names@.take(i as int)).push(names@[i as int]@));
            lemma_select_push(strs(names@.take(i as int)), keep, names@[i as int]@, k);
        }
        if k {
            out.push(names[i].to_string());
            proof {
                assert(views(out@) =~= select(strs(names@.take(i as int)), keep).push(names@[i as int]@));
            }
        }
        proof {
            keep = keep.push(k);
        }
        i = i + 1;
    }
    proof {
        assert(names@.take(i as int) =~= names@);
    }
    out
}

} // verus!
