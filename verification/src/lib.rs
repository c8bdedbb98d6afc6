//! Verified core of a personal administration tool for a double-hop Xray
//! VPN: user management over the Xray server config, vless:// URL and QR
//! rendering, the Telegram bot's replies and decisions, and the state of the
//! terminal screens.

pub mod text;
pub mod json;
pub mod b64;
pub mod error;
pub mod ui;
pub mod xray;
pub mod app;
pub mod ssh;
pub mod backend;
pub mod config;
pub mod native;
pub mod telegram;
pub mod cli;
pub mod steps;
pub mod migrate;
pub mod deploy;
