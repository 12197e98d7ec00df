pub mod cache;
pub mod config;
pub mod metrics;
pub mod protocol;
pub mod server;
pub mod text;
