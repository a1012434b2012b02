pub mod acceleration;
pub mod app;
pub mod cli;
pub mod config;
pub mod error;
pub mod export;
pub mod lifecycle;
pub mod logging;
pub mod media;
pub mod paths;
pub mod preview_server;
pub mod text;
