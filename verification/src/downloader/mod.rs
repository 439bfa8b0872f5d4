pub mod progress;
pub mod queue;
pub mod ytdlp;
pub mod worker;
pub mod parser;
