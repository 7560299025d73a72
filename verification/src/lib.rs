pub mod accounts;
pub mod config;
pub mod error;
pub mod paths;
pub mod session;
pub mod ssh;
pub mod text;
pub mod ui;
