//! Verified core of the XDownload video downloader: progress parsing, the
//! download queue, settings and proxy state, link handling and the other
//! rules of the application.
pub mod text;
pub mod assoc;
pub mod json;
pub mod numbers;
pub mod pattern;
pub mod models;
pub mod downloader;
pub mod utils;
pub mod services;
pub mod deep_link;
pub mod commands;
