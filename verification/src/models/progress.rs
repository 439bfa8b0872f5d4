//! Download progress reported while yt-dlp runs.
use vstd::prelude::*;

verus! {

/// Download progress parsed from one yt-dlp output line.
#[derive(Debug, Clone)]
pub struct DownloadProgress {
    pub downloaded_bytes: i64,
    pub total_bytes: i64,
    pub speed: String,
    pub eta: String,
    pub percent: String,
    pub status: String,
    /// "video" / "audio" while a stream downloads, "merge" while
    /// post-processing, empty when unknown.
    pub stage: String,
}

/// Mathematical model of a [`DownloadProgress`].
pub struct ProgressView {
    pub downloaded_bytes: int,
    pub total_bytes: int,
    pub speed: Seq<char>,
    pub eta: Seq<char>,
    pub percent: Seq<char>,
    pub status: Seq<char>,
    pub stage: Seq<char>,
}

impl View for DownloadProgress {
    type V = ProgressView;

    open spec fn view(&self) -> ProgressView {
        ProgressView {
            downloaded_bytes: self.downloaded_bytes as int,
            total_bytes: self.total_bytes as int,
            speed: self.speed@,
            eta: self.eta@,
            percent: self.percent@,
            status: self.status@,
            stage: self.stage@,
        }
    }
}

impl Default for DownloadProgress {
    fn default() -> (r: Self)
        ensures
            r.downloaded_bytes == 0,
            r.total_bytes == 0,
            r.speed@ == Seq::<char>::empty(),
            r.eta@ == Seq::<char>::empty(),
            r.percent@ == Seq::<char>::empty(),
            r.status@ == Seq::<char>::empty(),
            r.stage@ == Seq::<char>::empty(),
    {
        DownloadProgress {
            downloaded_bytes: 0,
            total_bytes: 0,
            speed: String::new(),
            eta: String::new(),
            percent: String::new(),
            status: String::new(),
            stage: String::new(),
        }
    }
}

} // verus!
