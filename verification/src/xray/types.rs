//! Plain data types shared across the library.

use vstd::prelude::*;

use crate::text::{owned, push_str};

verus! {

/// A user as shown by the tool: identity, traffic and online count.
#[derive(Debug, Clone, PartialEq)]
pub struct XrayUser {
    pub uuid: String,
    pub name: String,
    pub email: String,
    pub flow: String,
    pub stats: TrafficStats,
    pub online_count: u32,
}

/// The e-mail under which a user name is registered: `<name>@vpn`.
pub open spec fn email_of(name: Seq<char>) -> Seq<char> {
    name + "@vpn"@
}

impl XrayUser {
    pub fn email_from_name(name: &str) -> (e: String)
        ensures
            e@ == email_of(name@),
    {
        let mut e = owned(name);
        push_str(&mut e, "@vpn");
        e
    }
}

/// Traffic counters of one user or inbound.
#[derive(Debug, Clone, Default, PartialEq)]
pub struct TrafficStats {
    pub uplink: u64,
    pub downlink: u64,
}

/// Parameters of a vless:// URL over TCP + Reality.
#[derive(Debug, Clone)]
pub struct VlessUrlParams {
    pub uuid: String,
    pub host: String,
    pub port: u16,
    pub sni: String,
    pub public_key: String,
    pub short_id: String,
    pub name: String,
}

} // verus!
