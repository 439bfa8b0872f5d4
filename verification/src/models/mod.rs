pub mod progress;
pub mod config;
pub mod video_info;
