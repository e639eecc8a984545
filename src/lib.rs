pub mod level;
pub mod gate;
pub mod tuning;
pub mod text;
pub mod config;
pub mod recording;
pub mod app_state;
pub mod transcript;
pub mod backend;
pub mod llm;
pub mod status;
pub mod device;
