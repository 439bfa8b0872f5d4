//! Persistent configuration: what each settings change does to the stored
//! [`AppSettings`]. Reading and writing `config/settings.json` and
//! `config/default.json` is done by the caller; these functions compute the
//! settings to read back or to write.
use vstd::prelude::*;
use crate::models::config::AppSettings;
use crate::services::proxy::ProxyConfig;
use crate::utils::app_home::{join_path, path_join, spec_config_dir, AppHome};
use crate::services::disclaimer::{self, AcceptanceRecord, spec_signature, spec_is_accepted};

verus! {

broadcast use vstd::string::group_string_axioms;

/// The privacy mode a configuration holds, off when never set.
pub open spec fn spec_privacy_mode(cfg: AppSettings) -> bool {
    match cfg.privacy_mode {
        Some(b) => b,
        None => false,
    }
}

/// The cookie browser a configuration holds, if any and non-empty.
pub open spec fn spec_cookie_source(cfg: AppSettings) -> Option<Seq<char>> {
    match cfg.cookies_from_browser {
        Some(b) => if b@.len() > 0 {
            Some(b@)
        } else {
            None
        },
        None => None,
    }
}

/// Persistent configuration manager.
pub struct ConfigManager;

pub open spec fn opt_s(o: Option<String>) -> Option<Seq<char>> {
    match o {
        Some(s) => Some(s@),
        None => None,
    }
}

/// Every field of `a` and `b` is equal except possibly the listed ones.
pub open spec fn same_proxy_free(a: AppSettings, b: AppSettings) -> bool {
    &&& a.download_dir == b.download_dir
    &&& a.cookies_from_browser == b.cookies_from_browser
    &&& a.lang == b.lang
    &&& a.concurrency == b.concurrency
    &&& a.retry_count == b.retry_count
    &&& a.queue_persist == b.queue_persist
    &&& a.privacy_mode == b.privacy_mode
    &&& a.download_rate_limit == b.download_rate_limit
    &&& a.hls_concurrent_fragments == b.hls_concurrent_fragments
    &&& a.hls_fragment_retries == b.hls_fragment_retries
    &&& a.keep_awake == b.keep_awake
    &&& a.tools_use_proxy == b.tools_use_proxy
}

/// What was found at `default.json`.
pub enum DefaultFile {
    /// No such file.
    Missing,
    /// A file that could not be read or does not parse as settings.
    Unreadable,
    /// The settings the file holds.
    Parsed(AppSettings),
}

impl ConfigManager {
    /// The acceptance record to store when the disclaimer is accepted.
    pub fn accept_disclaimer() -> (r: AcceptanceRecord)
        ensures
            r.flag == 1,
            r.signature@ == spec_signature(),
    {
        disclaimer::accept()
    }

    /// Whether the stored flag and signature record an acceptance.
    pub fn is_disclaimer_accepted(flag: u32, sig: Option<&[u8]>) -> (r: bool)
        ensures
            r == spec_is_accepted(
                flag,
                match sig {
                    Some(s) => Some(s@),
                    None => None,
                },
            ),
    {
        disclaimer::is_accepted(flag, sig)
    }

    /// Path of the active configuration, `config/settings.json`.
    pub fn active_file(root: &str) -> (r: String)
        ensures
            r@ == path_join(spec_config_dir(root@), "settings.json"@),
    {
        let dir = AppHome::config_dir(root);
        join_path(dir.as_str(), "settings.json")
    }

    /// Path of the default configuration, `config/default.json`.
    pub fn default_file(root: &str) -> (r: String)
        ensures
            r@ == path_join(spec_config_dir(root@), "default.json"@),
    {
        let dir = AppHome::config_dir(root);
        join_path(dir.as_str(), "default.json")
    }

    /// Same as [`Self::active_file`].
    pub fn active_config_path(root: &str) -> (r: String)
        ensures
            r@ == path_join(spec_config_dir(root@), "settings.json"@),
    {
        Self::active_file(root)
    }

    /// Same as [`Self::default_file`].
    pub fn default_config_path(root: &str) -> (r: String)
        ensures
            r@ == path_join(spec_config_dir(root@), "default.json"@),
    {
        Self::default_file(root)
    }

    /// The active configuration: the parsed file, or the defaults when the
    /// file is missing or does not parse.
    pub fn load(parsed: Option<AppSettings>) -> (r: AppSettings)
        ensures
            match parsed {
                Some(p) => r == p,
                None => r.is_empty(),
            },
    {
        match parsed {
            Some(p) => p,
            None => AppSettings::default(),
        }
    }

    /// The default configuration, and whether `default.json` must be seeded
    /// with it: only a missing file is seeded; one that exists but does not
    /// parse gives the factory defaults and is left as it is.
    pub fn load_default(file: DefaultFile) -> (r: (AppSettings, bool))
        ensures
            match file {
                DefaultFile::Parsed(p) => r.0 == p && !r.1,
                DefaultFile::Unreadable => r.0.is_empty() && !r.1,
                DefaultFile::Missing => r.0.is_empty() && r.1,
            },
    {
        match file {
            DefaultFile::Parsed(p) => (p, false),
            DefaultFile::Unreadable => (AppSettings::default(), false),
            DefaultFile::Missing => (AppSettings::default(), true),
        }
    }

    /// Records a proxy.
    pub fn save_proxy(cfg: &mut AppSettings, host: &str, port: u32, scheme: &str)
        ensures
            opt_s(final(cfg).proxy_host) == Some(host@),
            final(cfg).proxy_port == Some(port),
            opt_s(final(cfg).proxy_scheme) == Some(scheme@),
            same_proxy_free(*final(cfg), *old(cfg)),
    {
        cfg.proxy_host = Some(host.to_string());
        cfg.proxy_port = Some(port);
        cfg.proxy_scheme = Some(scheme.to_string());
    }

    /// Forgets the proxy.
    pub fn remove_proxy(cfg: &mut AppSettings)
        ensures
            final(cfg).proxy_host is None,
            final(cfg).proxy_port is None,
            final(cfg).proxy_scheme is None,
            same_proxy_free(*final(cfg), *old(cfg)),
    {
        cfg.proxy_host = None;
        cfg.proxy_port = None;
        cfg.proxy_scheme = None;
    }

    /// Applies the saved proxy to the runtime proxy, unless that came from
    /// the system settings. A saved proxy needs a non-empty host and a
    /// port (capped at 65535); its scheme defaults to `http`. Returns
    /// whether a proxy was applied.
    pub fn apply_saved_proxy(cfg: &AppSettings, proxy: &mut ProxyConfig) -> (r: bool)
        ensures
            r == (!old(proxy).from_system_proxy && cfg.proxy_host is Some && cfg.proxy_port is Some
                && cfg.proxy_host->0@.len() > 0),
            !r ==> *final(proxy) == *old(proxy),
            r ==> {
                &&& final(proxy).host@ == cfg.proxy_host->0@
                &&& final(proxy).port as int == if cfg.proxy_port->0 > 65535 {
                    65535
                } else {
                    cfg.proxy_port->0 as int
                }
                &&& final(proxy).scheme@ == match cfg.proxy_scheme {
                    Some(s) => if s@.len() == 0 {
                        "http"@
                    } else {
                        s@
                    },
                    None => "http"@,
                }
                &&& final(proxy).enabled
                &&& !final(proxy).from_system_proxy
            },
    {
        if proxy.is_from_system_proxy() {
            return false;
        }
        match (&cfg.proxy_host, cfg.proxy_port) {
            (Some(host), Some(port)) => {
                if host.as_str().is_empty() {
                    return false;
                }
                let p: u16 = if port > 65535 { 65535 } else { port as u16 };
                match &cfg.proxy_scheme {
                    Some(s) => proxy.set_proxy_full(host.as_str(), p, s.as_str()),
                    None => proxy.set_proxy_full(host.as_str(), p, "http"),
                }
                proof {
                    reveal_strlit("http");
                }
                true
            },
            _ => false,
        }
    }

    /// Records the cookie browser; `None` or an empty name changes nothing.
    pub fn save_cookie_source(cfg: &mut AppSettings, browser: Option<&str>)
        ensures
            match browser {
                Some(b) => if b@.len() > 0 {
                    opt_s(final(cfg).cookies_from_browser) == Some(b@)
                } else {
                    final(cfg).cookies_from_browser == old(cfg).cookies_from_browser
                },
                None => final(cfg).cookies_from_browser == old(cfg).cookies_from_browser,
            },
            *final(cfg) == (AppSettings { cookies_from_browser: final(cfg).cookies_from_browser, ..*old(cfg) }),
    {
        if let Some(b) = browser {
            if !b.is_empty() {
                cfg.cookies_from_browser = Some(b.to_string());
            }
        }
    }

    /// Forgets the cookie browser.
    pub fn clear_cookies(cfg: &mut AppSettings)
        ensures
            *final(cfg) == (AppSettings { cookies_from_browser: None, ..*old(cfg) }),
    {
        cfg.cookies_from_browser = None;
    }

    /// The saved cookie browser, if any and non-empty.
    pub fn load_cookie_source(cfg: &AppSettings) -> (r: Option<String>)
        ensures
            opt_s(r) == spec_cookie_source(*cfg),
    {
        match &cfg.cookies_from_browser {
            Some(b) => if b.as_str().is_empty() {
                None
            } else {
                Some(b.clone())
            },
            None => None,
        }
    }

    /// Records the language.
    pub fn save_lang(cfg: &mut AppSettings, lang: &str)
        ensures
            opt_s(final(cfg).lang) == Some(lang@),
            *final(cfg) == (AppSettings { lang: final(cfg).lang, ..*old(cfg) }),
    {
        cfg.lang = Some(lang.to_string());
    }

    /// The saved language.
    pub fn load_lang(cfg: &AppSettings) -> (r: Option<String>)
        ensures
            opt_s(r) == opt_s(cfg.lang),
    {
        cfg.lang.clone()
    }

    /// Records the privacy mode.
    pub fn save_privacy_mode(cfg: &mut AppSettings, enabled: bool)
        ensures
            *final(cfg) == (AppSettings { privacy_mode: Some(enabled), ..*old(cfg) }),
    {
        cfg.privacy_mode = Some(enabled);
    }

    /// Records whether tool downloads use the proxy.
    pub fn save_tools_use_proxy(cfg: &mut AppSettings, enabled: bool)
        ensures
            *final(cfg) == (AppSettings { tools_use_proxy: Some(enabled), ..*old(cfg) }),
    {
        cfg.tools_use_proxy = Some(enabled);
    }

    /// The privacy mode, off when never set.
    pub fn load_privacy_mode(cfg: &AppSettings) -> (r: bool)
        ensures
            r == spec_privacy_mode(*cfg),
    {
        match cfg.privacy_mode {
            Some(b) => b,
            None => false,
        }
    }

    /// Records the download directory; an empty one resets to the default.
    pub fn save_download_dir(cfg: &mut AppSettings, dir: &str)
        ensures
            opt_s(final(cfg).download_dir) == if dir@.len() == 0 {
                None
            } else {
                Some(dir@)
            },
            *final(cfg) == (AppSettings { download_dir: final(cfg).download_dir, ..*old(cfg) }),
    {
        if dir.is_empty() {
            cfg.download_dir = None;
        } else {
            cfg.download_dir = Some(dir.to_string());
        }
    }

    /// The saved download directory.
    pub fn load_download_dir(cfg: &AppSettings) -> (r: Option<String>)
        ensures
            opt_s(r) == opt_s(cfg.download_dir),
    {
        cfg.download_dir.clone()
    }
}

/// What a settings change records is what the next read gives back, and
/// it leaves the other settings alone: the privacy mode saved is the one
/// loaded, a non-empty cookie browser saved is the one loaded and clearing
/// it loads none, and a saved language or download directory reads back.
pub proof fn law_settings_read_back(cfg: AppSettings, enabled: bool, browser: String, lang: String, dir: String)
    ensures
        spec_privacy_mode(AppSettings { privacy_mode: Some(enabled), ..cfg }) == enabled,
        browser@.len() > 0 ==> spec_cookie_source(AppSettings { cookies_from_browser: Some(browser), ..cfg })
            == Some(browser@),
        spec_cookie_source(AppSettings { cookies_from_browser: None, ..cfg }) is None,
        opt_s(AppSettings { lang: Some(lang), ..cfg }.lang) == Some(lang@),
        dir@.len() > 0 ==> opt_s(AppSettings { download_dir: Some(dir), ..cfg }.download_dir) == Some(dir@),
        spec_privacy_mode(AppSettings { lang: Some(lang), ..cfg }) == spec_privacy_mode(cfg),
        spec_cookie_source(AppSettings { privacy_mode: Some(enabled), ..cfg }) == spec_cookie_source(cfg),
{
}

} // verus!
