//! The Xray server: its users, config documents, statistics and snapshots.

pub mod client;
pub mod types;
pub mod server;
pub mod config;
pub mod config_render;
pub mod snapshot;
pub mod remote;

use vstd::prelude::*;

verus! {

/// Where the Amnezia container keeps Xray's public key.
pub const PUBLIC_KEY_PATH: &'static str = "/opt/amnezia/xray/xray_public.key";

} // verus!
