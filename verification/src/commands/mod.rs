pub mod update;
pub mod download;
pub mod bootstrap;
pub mod cookies;
