pub mod query_id;
pub mod proxy;
pub mod config;
pub mod download_history;
pub mod cookies;
pub mod i18n;
pub mod bookmarks;
pub mod bookmarks_store;
pub mod disclaimer;
pub mod logs;
pub mod network;
pub mod bootstrap;
pub mod db;
pub mod log_web;
