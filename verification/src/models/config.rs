//! Download configuration and application settings.
use vstd::prelude::*;

verus! {

broadcast use vstd::string::group_string_axioms;

/// Configuration of one download.
#[derive(Debug, Clone)]
pub struct DownloadConfig {
    pub url: String,
    /// Video identifier, used as the download history key.
    pub video_id: Option<String>,
    pub title: Option<String>,
    pub thumbnail: Option<String>,
    pub uploader: Option<String>,
    pub duration: i64,
    pub view_count: i64,
    pub like_count: i64,
    pub format_id: String,
    pub output_dir: String,
    pub output_template: String,
    pub extract_audio: bool,
    pub embed_subtitles: bool,
    pub embed_thumbnail: bool,
    pub write_thumbnail: bool,
    pub proxy: Option<String>,
    pub socket_timeout: i32,
    pub cookies_from_browser: Option<String>,
    pub max_height: i32,
    pub download_archive: Option<String>,
    /// yt-dlp `--playlist-items`; `None` downloads every media entry.
    pub playlist_items: Option<String>,
    /// yt-dlp `--limit-rate`; `None` / empty means unlimited.
    pub download_rate_limit: Option<String>,
}

/// Best video plus best audio, merged; a single best file otherwise.
pub open spec fn spec_default_format() -> Seq<char> {
    "bestvideo+bestaudio/best"@
}

pub open spec fn spec_default_output_dir() -> Seq<char> {
    "downloads"@
}

pub open spec fn spec_default_output_template() -> Seq<char> {
    "%(title)s.%(ext)s"@
}

pub fn default_format() -> (r: String)
    ensures
        r@ == spec_default_format(),
{
    "bestvideo+bestaudio/best".to_string()
}

pub fn default_output_dir() -> (r: String)
    ensures
        r@ == spec_default_output_dir(),
{
    "downloads".to_string()
}

pub fn default_output_template() -> (r: String)
    ensures
        r@ == spec_default_output_template(),
{
    "%(title)s.%(ext)s".to_string()
}

pub fn default_socket_timeout() -> (r: i32)
    ensures
        r == 30,
{
    30
}

impl DownloadConfig {
    /// The configuration every new download starts from: the given URL, no
    /// metadata, the default format / directory / template, a 30 s socket
    /// timeout and every option off.
    pub open spec fn is_new_for(&self, url: Seq<char>) -> bool {
        &&& self.url@ == url
        &&& self.video_id is None
        &&& self.title is None
        &&& self.thumbnail is None
        &&& self.uploader is None
        &&& self.duration == 0
        &&& self.view_count == 0
        &&& self.like_count == 0
        &&& self.format_id@ == spec_default_format()
        &&& self.output_dir@ == spec_default_output_dir()
        &&& self.output_template@ == spec_default_output_template()
        &&& !self.extract_audio
        &&& !self.embed_subtitles
        &&& !self.embed_thumbnail
        &&& !self.write_thumbnail
        &&& self.proxy is None
        &&& self.socket_timeout == 30
        &&& self.cookies_from_browser is None
        &&& self.max_height == 0
        &&& self.download_archive is None
        &&& self.playlist_items is None
        &&& self.download_rate_limit is None
    }

    pub fn new(url: String) -> (r: Self)
        ensures
            r.is_new_for(url@),
    {
        DownloadConfig {
            url,
            video_id: None,
            title: None,
            thumbnail: None,
            uploader: None,
            duration: 0,
            view_count: 0,
            like_count: 0,
            format_id: default_format(),
            output_dir: default_output_dir(),
            output_template: default_output_template(),
            extract_audio: false,
            embed_subtitles: false,
            embed_thumbnail: false,
            write_thumbnail: false,
            proxy: None,
            socket_timeout: default_socket_timeout(),
            cookies_from_browser: None,
            max_height: 0,
            download_archive: None,
            playlist_items: None,
            download_rate_limit: None,
        }
    }
}

/// A copy of an optional string.
pub fn copy_opt(o: &Option<String>) -> (r: Option<String>)
    ensures
        r == *o,
{
    match o {
        Some(s) => Some(s.clone()),
        None => None,
    }
}

impl DownloadConfig {
    /// A field-by-field copy.
    pub fn copy(&self) -> (r: Self)
        ensures
            r == *self,
    {
        DownloadConfig {
            url: self.url.clone(),
            video_id: copy_opt(&self.video_id),
            title: copy_opt(&self.title),
            thumbnail: copy_opt(&self.thumbnail),
            uploader: copy_opt(&self.uploader),
            duration: self.duration,
            view_count: self.view_count,
            like_count: self.like_count,
            format_id: self.format_id.clone(),
            output_dir: self.output_dir.clone(),
            output_template: self.output_template.clone(),
            extract_audio: self.extract_audio,
            embed_subtitles: self.embed_subtitles,
            embed_thumbnail: self.embed_thumbnail,
            write_thumbnail: self.write_thumbnail,
            proxy: copy_opt(&self.proxy),
            socket_timeout: self.socket_timeout,
            cookies_from_browser: copy_opt(&self.cookies_from_browser),
            max_height: self.max_height,
            download_archive: copy_opt(&self.download_archive),
            playlist_items: copy_opt(&self.playlist_items),
            download_rate_limit: copy_opt(&self.download_rate_limit),
        }
    }
}

impl Default for DownloadConfig {
    fn default() -> (r: Self)
        ensures
            r.is_new_for(Seq::empty()),
    {
        Self::new(String::new())
    }
}

/// Application settings stored in `config/settings.json`.
#[derive(Debug, Clone)]
pub struct AppSettings {
    pub download_dir: Option<String>,
    pub proxy_host: Option<String>,
    pub proxy_port: Option<u32>,
    /// Proxy scheme, e.g. "http" / "socks5" / "https".
    pub proxy_scheme: Option<String>,
    pub cookies_from_browser: Option<String>,
    pub lang: Option<String>,
    pub concurrency: Option<u8>,
    pub retry_count: Option<u8>,
    pub queue_persist: Option<bool>,
    /// Privacy mode (titles masked, covers blurred); `None` means off.
    pub privacy_mode: Option<bool>,
    /// yt-dlp `--limit-rate`, e.g. "1M"; `None` means unlimited.
    pub download_rate_limit: Option<String>,
    /// yt-dlp `--concurrent-fragments`; `None` passes nothing.
    pub hls_concurrent_fragments: Option<u8>,
    /// yt-dlp `--fragment-retries`; `None` passes nothing.
    pub hls_fragment_retries: Option<u8>,
    /// Keep the system awake while downloads run; `None` means off.
    pub keep_awake: Option<bool>,
    /// Whether tool downloads (yt-dlp / ffmpeg) go through the proxy.
    pub tools_use_proxy: Option<bool>,
}

impl AppSettings {
    /// Every setting absent.
    pub open spec fn is_empty(&self) -> bool {
        &&& self.download_dir is None
        &&& self.proxy_host is None
        &&& self.proxy_port is None
        &&& self.proxy_scheme is None
        &&& self.cookies_from_browser is None
        &&& self.lang is None
        &&& self.concurrency is None
        &&& self.retry_count is None
        &&& self.queue_persist is None
        &&& self.privacy_mode is None
        &&& self.download_rate_limit is None
        &&& self.hls_concurrent_fragments is None
        &&& self.hls_fragment_retries is None
        &&& self.keep_awake is None
        &&& self.tools_use_proxy is None
    }
}

impl Default for AppSettings {
    fn default() -> (r: Self)
        ensures
            r.is_empty(),
    {
        AppSettings {
            download_dir: None,
            proxy_host: None,
            proxy_port: None,
            proxy_scheme: None,
            cookies_from_browser: None,
            lang: None,
            concurrency: None,
            retry_count: None,
            queue_persist: None,
            privacy_mode: None,
            download_rate_limit: None,
            hls_concurrent_fragments: None,
            hls_fragment_retries: None,
            keep_awake: None,
            tools_use_proxy: None,
        }
    }
}

} // verus!
