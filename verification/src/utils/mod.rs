pub mod url;
pub mod app_home;
pub mod process;
