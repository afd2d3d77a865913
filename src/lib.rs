pub mod http_types;
pub mod text;
pub mod http_request_builder;
pub mod request_builder;
pub mod response;
pub mod session;
pub mod file_downloader;
pub mod config;
pub mod settings;
pub mod progress_bar;
pub mod digest;
