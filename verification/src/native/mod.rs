//! Xray installed as a native systemd service: bridge and egress configs
//! and client URLs.

pub mod url;
pub mod config_render;
