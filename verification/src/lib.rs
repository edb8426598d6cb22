pub mod commands;
pub mod config;
pub mod error;
pub mod http;
pub mod launcher;
pub mod text;
