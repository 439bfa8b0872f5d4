//! The interface strings in Chinese and English, and the choice of
//! language.
use vstd::prelude::*;
use crate::assoc::{AssocList, lookup};
use crate::models::config::AppSettings;
use crate::services::config::{ConfigManager, opt_s};
use crate::text::{str_eq, contains, contains_exec, starts_with, starts_with_exec, chars_of};

verus! {

broadcast use vstd::string::group_string_axioms;

/// Every interface string: key, Chinese text, English text.
pub const STRINGS: [(&'static str, &'static str, &'static str); 100] = [
    ("tab.download", "下载", "Download"),
    ("tab.settings", "设置", "Settings"),
    ("tab.log", "日志", "Log"),
    ("tab.about", "关于", "About"),
    ("url.label", "链接:", "URL:"),
    ("url.fetch", "获取信息", "Fetch Info"),
    ("url.paste", "粘贴", "Paste"),
    ("video.info", "视频信息", "Video Info"),
    ("video.author", "作者:", "Author:"),
    ("video.duration", "时长:", "Duration:"),
    ("video.views", "播放:", "Views:"),
    ("format.title", "格式列表", "Formats"),
    ("format.best", "最佳", "Best"),
    ("format.bestva", "视频+音频", "Video+Audio"),
    ("format.audio", "仅音频", "Audio Only"),
    ("opt.title", "配置状态", "Status"),
    ("opt.dir", "输出目录:", "Output Dir:"),
    ("settings.dir", "视频保存位置:", "Download Dir:"),
    ("tools.hint", "提示: 下载慢或无法访问Github请先配置代理。也可手动下载解压到bin目录。", "Tip: slow or GitHub unreachable? Configure proxy first. Or extract to bin/ manually."),
    ("opt.browse", "浏览", "Browse"),
    ("opt.audio", "仅提取音频 (MP3)", "Extract Audio (MP3)"),
    ("opt.retries", "重试次数:", "Retries:"),
    ("opt.start", "状态信息", "Status"),
    ("opt.download", "下载", "Download"),
    ("opt.cancel", "取消", "CANCEL"),
    ("prog.fetching", "正在获取视频信息...", "Fetching video info..."),
    ("prog.ready", "就绪", "Ready"),
    ("prog.downloading", "正在下载...", "Downloading..."),
    ("prog.cancelled", "已取消", "Cancelled"),
    ("prog.complete", "下载完成", "Download complete"),
    ("prog.complete.msg", "下载完成!\n保存至: ", "Download complete!\nSaved to: "),
    ("prog.failed", "下载失败", "Download failed"),
    ("prog.done.title", "完成", "Done"),
    ("prog.error.title", "获取错误", "Fetch Error"),
    ("prog.eta", "剩余:", "ETA: "),
    ("proxy.title", "代理", "Proxy"),
    ("proxy.none", "无代理", "No Proxy"),
    ("proxy.manual", "手动代理", "Manual Proxy"),
    ("proxy.host", "主机:", "Host:"),
    ("proxy.port", "端口:", "Port:"),
    ("proxy.test", "测试代理", "Test Proxy"),
    ("proxy.autodetect", "自动检测", "Auto Detect"),
    ("proxy.testing", "测试中...", "Testing..."),
    ("proxy.ok", "通过 - x.com ", "OK - x.com "),
    ("proxy.failed", "失败", "Failed"),
    ("proxy.detecting", "检测中...", "Detecting..."),
    ("proxy.overseas", "海外环境 - 无需代理", "Overseas - no proxy needed"),
    ("proxy.domestic", "国内环境 - 建议代理", "Domestic - proxy recommended"),
    ("proxy.disabled", "代理已禁用", "Proxy disabled"),
    ("cookies.title", "Cookies", "Cookies"),
    ("cookies.browser", "浏览器:", "Browser:"),
    ("cookies.validate", "验证", "Validate"),
    ("cookies.save", "保存并应用", "Save & Apply"),
    ("cookies.validating", "验证中...", "Validating cookies..."),
    ("cookies.scanning", "扫描中...", "Scanning..."),
    ("cookies.saved", "已保存: ", "Saved: "),
    ("cookies.none", "无", "none"),
    ("lang.title", "语言 / Language", "Language"),
    ("lang.restart", "语言已更改。重启后完全生效。", "Language changed. Restart to apply fully."),
    ("lang.zh", "中文", "Chinese"),
    ("lang.en", "English", "English"),
    ("about.desc", "基于 yt-dlp 的视频下载器", "Video downloader based on yt-dlp"),
    ("about.ytdlp", "yt-dlp: ", "yt-dlp: "),
    ("about.ffmpeg", "ffmpeg: ", "ffmpeg: "),
    ("about.ffmpeg.ok", "可用", "Available"),
    ("about.ffmpeg.no", "未找到", "Not found"),
    ("about.update", "更新 yt-dlp", "Update yt-dlp"),
    ("about.updating", "更新中...", "Updating..."),
    ("about.update.title", "更新 yt-dlp", "Updating yt-dlp"),
    ("wizard.title", "首次运行设置", "First Run Setup"),
    ("wizard.env", "环境检查", "Environment"),
    ("wizard.proxy.title", "网络与代理", "Network & Proxy"),
    ("wizard.cookies.title", "Cookies", "Cookies"),
    ("wizard.next", "下一步 >", "Next >"),
    ("wizard.back", "< 上一步", "< Back"),
    ("wizard.skip", "跳过", "Skip"),
    ("wizard.finish", "完成", "Finish"),
    ("wizard.download.tools", "下载缺失工具", "Download Missing Tools"),
    ("wizard.ytdlp.checking", "yt-dlp: 检查中...", "yt-dlp: checking..."),
    ("wizard.ffmpeg.checking", "ffmpeg: 检查中...", "ffmpeg: checking..."),
    ("wizard.ytdlp.ok", "yt-dlp: 可用", "yt-dlp: OK"),
    ("wizard.ytdlp.no", "yt-dlp: 未找到", "yt-dlp: NOT FOUND"),
    ("wizard.ffmpeg.ok", "ffmpeg: 可用", "ffmpeg: OK"),
    ("wizard.ffmpeg.no", "ffmpeg: 未找到", "ffmpeg: NOT FOUND"),
    ("settings.viewlog", "查看日志", "View Log"),
    ("status.proxy", "代理: ", "Proxy: "),
    ("status.cookies", "Cookies: ", "Cookies: "),
    ("status.none", "无", "none"),
    ("status.ok", "可用", "OK"),
    ("status.na", "无", "N/A"),
    ("common.ok", "确定", "OK"),
    ("common.cancel", "取消", "Cancel"),
    ("common.unknown", "未知", "Unknown"),
    ("common.seconds", "秒", "s"),
    ("table.id", "ID", "ID"),
    ("table.ext", "扩展名", "Ext"),
    ("table.res", "分辨率", "Resolution"),
    ("table.size", "大小", "Size"),
    ("table.type", "类型", "Type"),
    ("app.title", "X下载", "XDownload"),
];

/// The texts of one language given by a list of entries; a later entry of
/// a key overrides an earlier one.
pub open spec fn text_map(s: Seq<(&'static str, &'static str, &'static str)>, english: bool) -> Map<
    Seq<char>,
    Seq<char>,
>
    decreases s.len(),
{
    if s.len() == 0 {
        Map::empty()
    } else {
        text_map(s.drop_last(), english).insert(
            s.last().0@,
            if english {
                s.last().2@
            } else {
                s.last().1@
            },
        )
    }
}

/// A map of strings holds the given texts.
pub open spec fn holds_texts(m: Map<Seq<char>, String>, t: Map<Seq<char>, Seq<char>>) -> bool {
    &&& m.dom() =~= t.dom()
    &&& forall|k: Seq<char>| #[trigger] m.dom().contains(k) ==> m[k]@ == t[k]
}

/// Adds one string in both languages.
pub fn put(zh: &mut AssocList<String>, en: &mut AssocList<String>, key: &str, zh_val: &str, en_val: &str)
    ensures
        final(zh)@ == old(zh)@.insert(key@, final(zh)@[key@]),
        final(zh)@[key@]@ == zh_val@,
        final(en)@ == old(en)@.insert(key@, final(en)@[key@]),
        final(en)@[key@]@ == en_val@,
{
    zh.insert(key.to_string(), zh_val.to_string());
    en.insert(key.to_string(), en_val.to_string());
}

/// The Chinese and English string tables.
pub fn tables() -> (r: (AssocList<String>, AssocList<String>))
    ensures
        holds_texts(r.0@, text_map(STRINGS@, false)),
        holds_texts(r.1@, text_map(STRINGS@, true)),
{
    let mut zh: AssocList<String> = AssocList::new();
    let mut en: AssocList<String> = AssocList::new();
    let table = STRINGS;
    let mut i: usize = 0;
    while i < 100
        invariant
            i <= 100,
            table@ == STRINGS@,
            holds_texts(zh@, text_map(STRINGS@.take(i as int), false)),
            holds_texts(en@, text_map(STRINGS@.take(i as int), true)),
        decreases 100 - i,
    {
        let (k, z, e) = table[i];
        proof {
            assert(STRINGS@.take(i + 1).drop_last() =~= STRINGS@.take(i as int));
            assert(STRINGS@.take(i + 1).last() == (k, z, e));
        }
        put(&mut zh, &mut en, k, z, e);
        i = i + 1;
    }
    proof {
        assert(STRINGS@.take(100) =~= STRINGS@);
    }
    (zh, en)
}

/// The active language and the string tables.
pub struct I18n {
    /// 1 = English, anything else Chinese.
    lang: u8,
    zh: AssocList<String>,
    en: AssocList<String>,
}

/// The text of `key` in the given language; the key itself when it has
/// none.
pub open spec fn spec_get(key: Seq<char>, english: bool) -> Seq<char> {
    let t = text_map(STRINGS@, english);
    if t.dom().contains(key) {
        t[key]
    } else {
        key
    }
}

/// Time zones of Chinese-speaking regions.
pub const ZH_TIME_ZONES: [&'static str; 8] = [
    "Asia/Shanghai",
    "Asia/Chongqing",
    "Asia/Harbin",
    "Asia/Urumqi",
    "Asia/Taipei",
    "Asia/Hong_Kong",
    "Asia/Macau",
    "Asia/Singapore",
];

/// The language guessed from the environment: Chinese when the time zone
/// names a Chinese-speaking region or the language settings start with
/// "zh", else English.
pub open spec fn spec_auto_detect(tz: Seq<char>, user_language: Option<Seq<char>>, lang_env: Option<Seq<char>>) -> u8 {
    if exists|i: int| 0 <= i < 8 && contains(tz, #[trigger] ZH_TIME_ZONES@[i]@) {
        0
    } else if user_language matches Some(l) && starts_with(l, "zh"@) {
        0
    } else if lang_env matches Some(l) && starts_with(l, "zh"@) {
        0
    } else {
        1
    }
}

pub open spec fn opt_view(o: Option<String>) -> Option<Seq<char>> {
    match o {
        Some(s) => Some(s@),
        None => None,
    }
}

impl I18n {
    #[verifier::type_invariant]
    spec fn inv(self) -> bool {
        &&& holds_texts(self.zh@, text_map(STRINGS@, false))
        &&& holds_texts(self.en@, text_map(STRINGS@, true))
    }

    /// Whether English is active.
    pub closed spec fn english(self) -> bool {
        self.lang == 1
    }

    /// The tables, in Chinese.
    pub fn new() -> (r: Self)
        ensures
            !r.english(),
    {
        let (zh, en) = tables();
        I18n { lang: 0, zh, en }
    }

    /// The text of `key` in the active language; the key itself when it has
    /// none.
    pub fn get(&self, key: &str) -> (r: String)
        ensures
            r@ == spec_get(key@, self.english()),
    {
        proof {
            use_type_invariant(self);
        }
        let found = if self.lang == 1 {
            self.en.get_text(key)
        } else {
            self.zh.get_text(key)
        };
        match found {
            Some(t) => t,
            None => key.to_string(),
        }
    }

    /// The active language code: "en" or "zh".
    pub fn get_lang(&self) -> (r: String)
        ensures
            r@ == if self.english() {
                "en"@
            } else {
                "zh"@
            },
    {
        if self.lang == 1 {
            "en".to_string()
        } else {
            "zh".to_string()
        }
    }

    /// Selects the language of a code ("en" is English, anything else
    /// Chinese) and records the code in the settings `cfg`, leaving the
    /// other settings as they were.
    pub fn set_lang(&mut self, code: &str, cfg: &mut AppSettings)
        ensures
            final(self).english() == (code@ == "en"@),
            opt_s(final(cfg).lang) == Some(code@),
            *final(cfg) == (AppSettings { lang: final(cfg).lang, ..*old(cfg) }),
    {
        proof {
            use_type_invariant(&*self);
        }
        self.select_lang(code);
        ConfigManager::save_lang(cfg, code);
    }

    fn select_lang(&mut self, code: &str)
        ensures
            final(self).english() == (code@ == "en"@),
    {
        proof {
            use_type_invariant(&*self);
        }
        if str_eq(code, "en") {
            self.lang = 1;
        } else {
            self.lang = 0;
        }
    }

    /// Selects the saved language, or the one the environment suggests when
    /// none is saved (`tz`, `user_language` and `lang_env` are the `TZ`,
    /// `user.language` and `LANG` variables).
    pub fn load_saved(
        &mut self,
        saved: Option<String>,
        tz: &str,
        user_language: Option<String>,
        lang_env: Option<String>,
    )
        ensures
            final(self).english() == match saved {
                Some(s) => s@ == "en"@,
                None => spec_auto_detect(tz@, opt_view(user_language), opt_view(lang_env)) == 1,
            },
    {
        proof {
            use_type_invariant(&*self);
        }
        match saved {
            Some(s) => self.select_lang(s.as_str()),
            None => {
                self.lang = auto_detect(tz, &user_language, &lang_env);
            },
        }
    }
}

/// Guesses the language from the environment (see [`spec_auto_detect`]).
pub fn auto_detect(tz: &str, user_language: &Option<String>, lang_env: &Option<String>) -> (r: u8)
    ensures
        r == spec_auto_detect(tz@, opt_view(*user_language), opt_view(*lang_env)),
{
    let zones = ZH_TIME_ZONES;
    let t = chars_of(tz);
    let mut i: usize = 0;
    while i < 8
        invariant
            i <= 8,
            zones@ == ZH_TIME_ZONES@,
            t@ == tz@,
            forall|j: int| 0 <= j < i ==> !contains(tz@, #[trigger] ZH_TIME_ZONES@[j]@),
        decreases 8 - i,
    {
        if contains_exec(&t, &chars_of(zones[i])) {
            return 0;
        }
        i = i + 1;
    }
    match user_language {
        Some(l) => {
            if starts_with_exec(&chars_of(l.as_str()), &chars_of("zh")) {
                return 0;
            }
        },
        None => {},
    }
    match lang_env {
        Some(l) => {
            if starts_with_exec(&chars_of(l.as_str()), &chars_of("zh")) {
                return 0;
            }
        },
        None => {},
    }
    1
}

} // verus!
