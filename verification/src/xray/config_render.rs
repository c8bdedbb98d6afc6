//! The clients of the bridge's Xray config (XHTTP + Reality inbound).

use vstd::prelude::*;

use crate::error::AppError;
use crate::json::{at, deep_seq, json_parse, lemma_deep_seq, nth, parse_json, Json, JsonV};
use crate::text::{new_string, owned, push_str, str_eq};
use crate::xray::server::str_or_empty;

verus! {

/// A client of the bridge: its id and email.
#[derive(Debug, Clone)]
pub struct ClientEntry {
    pub uuid: String,
    pub email: String,
}

/// The clients read from the bridge config.
#[derive(Debug)]
pub struct ParsedBridgeConfig {
    pub clients: Vec<ClientEntry>,
}

pub open spec fn client_entry_view(c: ClientEntry) -> (Seq<char>, Seq<char>) {
    (c.uuid@, c.email@)
}

pub open spec fn entries_view(cs: Seq<ClientEntry>) -> Seq<(Seq<char>, Seq<char>)> {
    cs.map_values(|c: ClientEntry| client_entry_view(c))
}

/// The first inbound of a config.
pub open spec fn first_inbound(v: JsonV) -> JsonV {
    nth(at(v, "inbounds"@), 0)
}

/// The clients of a bridge config: of its first inbound, which must be
/// XHTTP with Reality.
pub open spec fn bridge_clients_of(raw: Seq<char>) -> Result<Seq<(Seq<char>, Seq<char>)>, Seq<char>> {
    match json_parse(raw) {
        Err(e) => Err("parse bridge config: "@ + e),
        Ok(v) => {
            let ib = first_inbound(v);
            let network = str_or_empty(at(at(ib, "streamSettings"@), "network"@));
            let security = str_or_empty(at(at(ib, "streamSettings"@), "security"@));
            if network != "xhttp"@ || security != "reality"@ {
                Err(
                    "bridge inbound must be network=xhttp security=reality, got network="@ + network
                        + " security="@ + security,
                )
            } else {
                match at(at(ib, "settings"@), "clients"@) {
                    JsonV::Array(cs) => Ok(
                        cs.map_values(
                            |c: JsonV| (str_or_empty(at(c, "id"@)), str_or_empty(at(c, "email"@))),
                        ),
                    ),
                    _ => Err("missing clients array"@),
                }
            }
        },
    }
}

/// `j[i]` of an array, if it is one and has that element.
fn element(j: &Json, i: usize) -> (r: Option<&Json>)
    ensures
        match r {
            Some(x) => x.deep() == nth(j.deep(), i as int),
            None => nth(j.deep(), i as int) == JsonV::Null,
        },
{
    match j.as_array() {
        Some(a) => {
            proof {
                lemma_deep_seq(a@);
            }
            if i < a.len() {
                Some(&a[i])
            } else {
                None
            }
        },
        None => None,
    }
}

/// `j[key]`, `null` where it is missing, as a reference or nothing.
fn member<'a>(j: Option<&'a Json>, key: &str) -> (r: Option<&'a Json>)
    ensures
        match r {
            Some(x) => j is Some && x.deep() == at(j->0.deep(), key@),
            None => j is None || at(j->0.deep(), key@) == JsonV::Null,
        },
{
    match j {
        Some(v) => v.get(key),
        None => None,
    }
}

/// The string at `j`, or the empty string.
fn str_or_empty_exec(j: Option<&Json>) -> (r: String)
    ensures
        r@ == match j {
            Some(x) => str_or_empty(x.deep()),
            None => Seq::empty(),
        },
{
    match j {
        Some(v) => match v.as_str() {
            Some(s) => owned(s),
            None => new_string(),
        },
        None => new_string(),
    }
}

/// Reads the clients of the bridge config.
pub fn parse_bridge_config(raw: &str) -> (r: Result<ParsedBridgeConfig, AppError>)
    ensures
        match bridge_clients_of(raw@) {
            Ok(cs) => r matches Ok(p) && entries_view(p.clients@) == cs,
            Err(m) => r matches Err(e) && e is Config && e->Config_0@ == m,
        },
{
    let v = match parse_json(raw) {
        Ok(v) => v,
        Err(e) => {
            let mut m = owned("parse bridge config: ");
            push_str(&mut m, e.as_str());
            return Err(AppError::Config(m));
        },
    };
    let ib = match v.get("inbounds") {
        Some(a) => element(a, 0),
        None => None,
    };
    let stream = member(ib, "streamSettings");
    let network = str_or_empty_exec(member(stream, "network"));
    let security = str_or_empty_exec(member(stream, "security"));
    proof {
        reveal_strlit("xhttp");
        reveal_strlit("reality");
    }
    if !str_eq(network.as_str(), "xhttp") || !str_eq(security.as_str(), "reality") {
        let mut m = owned("bridge inbound must be network=xhttp security=reality, got network=");
        push_str(&mut m, network.as_str());
        push_str(&mut m, " security=");
        push_str(&mut m, security.as_str());
        return Err(AppError::Config(m));
    }
    let cs = match member(member(ib, "settings"), "clients") {
        Some(c) => match c.as_array() {
            Some(a) => a,
            None => return Err(AppError::Config(owned("missing clients array"))),
        },
        None => return Err(AppError::Config(owned("missing clients array"))),
    };
    proof {
        lemma_deep_seq(cs@);
    }
    let ghost want = deep_seq(cs@).map_values(
        |c: JsonV| (str_or_empty(at(c, "id"@)), str_or_empty(at(c, "email"@))),
    );
    let mut out: Vec<ClientEntry> = Vec::new();
    let mut i: usize = 0;
    while i < cs.len()
        invariant
            i <= cs.len(),
            deep_seq(cs@).len() == cs.len(),
            forall|k: int| 0 <= k < cs.len() ==> #[trigger] deep_seq(cs@)[k] == cs@[k].deep(),
            want == deep_seq(cs@).map_values(
                |c: JsonV| (str_or_empty(at(c, "id"@)), str_or_empty(at(c, "email"@))),
            ),
            entries_view(out@) == want.subrange(0, i as int),
        decreases cs.len() - i,
    {
        let c = &cs[i];
        let uuid = str_or_empty_exec(c.get("id"));
        let email = str_or_empty_exec(c.get("email"));
        let ghost before = out@;
        out.push(ClientEntry { uuid, email });
        assert(entries_view(out@) =~= want.subrange(0, i + 1)) by {
            assert(entries_view(out@) =~= entries_view(before).push(
                (out@.last().uuid@, out@.last().email@),
            ));
        }
        i = i + 1;
    }
    assert(want.subrange(0, cs.len() as int) =~= want);
    Ok(ParsedBridgeConfig { clients: out })
}

} // verus!
