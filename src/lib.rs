pub mod backup;
pub mod cloudflare;
pub mod config;
pub mod discovery;
pub mod errors;
pub mod ipv4;
pub mod retry;
pub mod text;
