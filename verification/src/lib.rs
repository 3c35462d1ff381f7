//! Core of an interactive HTTP client for the terminal.

pub mod actions;
pub mod app;
pub mod default_keymap;
pub mod drawing;
pub mod editing;
pub mod effects;
pub mod exchange;
pub mod headers;
pub mod http_client;
pub mod jq;
pub mod keymap;
pub mod shown;
pub mod storage;
pub mod streaming;
pub mod suggestions;
pub mod text;
pub mod ui;
pub mod uv_client;
