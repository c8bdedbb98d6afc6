//! The two documents of the Amnezia Xray container: `server.json` (Xray's
//! own config) and `clientsTable` (the names Amnezia gives to client ids).

use vstd::prelude::*;

use crate::error::AppError;
use crate::json::{
    at, deep_seq, first_where, has_str, lemma_deep_seq, parse_json, position_with_str,
    render_pretty, json_normal, json_parse, json_pretty, Json, JsonV,
};
use crate::text::{new_string, owned, push_str, str_eq};
use crate::config::opt_view;

verus! {

/// One row of `clientsTable`: a client id and the name shown for it.
#[derive(Debug)]
pub struct TableEntry {
    pub client_id: String,
    pub client_name: String,
}

/// `clientsTable`: the names of the clients.
#[derive(Debug)]
pub struct ClientsTable {
    pub entries: Vec<TableEntry>,
}

/// The rows of a table as (id, name) pairs.
pub open spec fn table_view(es: Seq<TableEntry>) -> Seq<(Seq<char>, Seq<char>)> {
    Seq::new(es.len(), |i: int| (es[i].client_id@, es[i].client_name@))
}

impl ClientsTable {
    pub open spec fn view(&self) -> Seq<(Seq<char>, Seq<char>)> {
        table_view(self.entries@)
    }
}

/// The name of the first row with id `uuid`.
pub open spec fn table_name(t: Seq<(Seq<char>, Seq<char>)>, uuid: Seq<char>) -> Option<Seq<char>>
    decreases t.len(),
{
    if t.len() == 0 {
        None
    } else if t[0].0 == uuid {
        Some(t[0].1)
    } else {
        table_name(t.subrange(1, t.len() as int), uuid)
    }
}

/// A string at `j[k]`, or the empty string.
pub open spec fn str_or_empty(j: JsonV) -> Seq<char> {
    match j {
        JsonV::Str(s) => s,
        _ => Seq::empty(),
    }
}

/// The rows that a `clientsTable` array describes: each element with a
/// string `clientId` gives one row, named by its `userData.clientName`.
pub open spec fn table_rows(a: Seq<JsonV>) -> Seq<(Seq<char>, Seq<char>)>
    decreases a.len(),
{
    if a.len() == 0 {
        Seq::empty()
    } else {
        let rest = table_rows(a.drop_last());
        let e = a.last();
        match at(e, "clientId"@) {
            JsonV::Str(id) => rest.push((id, str_or_empty(at(at(e, "userData"@), "clientName"@)))),
            _ => rest,
        }
    }
}

/// What `ClientsTable::parse` makes of a text.
pub open spec fn clients_table_of(s: Seq<char>) -> Result<Seq<(Seq<char>, Seq<char>)>, Seq<char>> {
    match json_parse(s) {
        Ok(JsonV::Array(a)) => Ok(table_rows(a)),
        Ok(_) => Err("clients table is not a JSON array"@),
        Err(m) => Err("failed to parse clients table: "@ + m),
    }
}

/// The string held by `j`, if it is one.
fn str_value(j: Option<&Json>) -> (r: Option<String>)
    ensures
        match r {
            Some(s) => j is Some && j->0.deep() == JsonV::Str(s@),
            None => j is None || !(j->0.deep() is Str),
        },
{
    match j {
        Some(v) => match v.as_str() {
            Some(s) => Some(owned(s)),
            None => None,
        },
        None => None,
    }
}

impl ClientsTable {
    /// Reads `clientsTable`.
    pub fn parse(text: &str) -> (r: Result<ClientsTable, AppError>)
        ensures
            match r {
                Ok(t) => clients_table_of(text@) == Ok::<_, Seq<char>>(t@),
                Err(e) => clients_table_of(text@) matches Err(m) && e is Xray && e->Xray_0@ == m,
            },
    {
        let j = match parse_json(text) {
            Ok(j) => j,
            Err(m) => {
                let mut msg = owned("failed to parse clients table: ");
                push_str(&mut msg, m.as_str());
                return Err(AppError::Xray(msg));
            },
        };
        let a = match j.as_array() {
            Some(a) => a,
            None => return Err(AppError::Xray(owned("clients table is not a JSON array"))),
        };
        proof {
            lemma_deep_seq(a@);
        }
        let mut entries: Vec<TableEntry> = Vec::new();
        let mut i: usize = 0;
        while i < a.len()
            invariant
                i <= a.len(),
                deep_seq(a@).len() == a.len(),
                forall|k: int| 0 <= k < a.len() ==> #[trigger] deep_seq(a@)[k] == a@[k].deep(),
                table_view(entries@) == table_rows(deep_seq(a@).subrange(0, i as int)),
            decreases a.len() - i,
        {
            let e = &a[i];
            let ghost pre = deep_seq(a@).subrange(0, i as int);
            assert(deep_seq(a@).subrange(0, i + 1).drop_last() =~= pre);
            match str_value(e.get("clientId")) {
                Some(id) => {
                    let name = match e.get("userData") {
                        Some(u) => match str_value(u.get("clientName")) {
                            Some(n) => n,
                            None => new_string(),
                        },
                        None => new_string(),
                    };
                    let ghost before = entries@;
                    entries.push(TableEntry { client_id: id, client_name: name });
                    assert(table_view(entries@) =~= table_view(before).push(
                        (entries@.last().client_id@, entries@.last().client_name@),
                    ));
                },
                None => {},
            }
            i = i + 1;
        }
        assert(deep_seq(a@).subrange(0, a.len() as int) =~= deep_seq(a@));
        Ok(ClientsTable { entries })
    }

    /// The name of the client with id `uuid`.
    pub fn name_for_uuid(&self, uuid: &str) -> (r: Option<&str>)
        ensures
            match r {
                Some(n) => table_name(self@, uuid@) == Some(n@),
                None => table_name(self@, uuid@) is None,
            },
    {
        let n = self.entries.len();
        assert(self@.subrange(0, n as int) =~= self@);
        let mut i: usize = 0;
        while i < n
            invariant
                n == self.entries.len(),
                i <= n,
                table_name(self@, uuid@) == table_name(self@.subrange(i as int, n as int), uuid@),
            decreases n - i,
        {
            let e = &self.entries[i];
            if str_eq(e.client_id.as_str(), uuid) {
                return Some(e.client_name.as_str());
            }
            assert(self@.subrange(i as int, n as int).subrange(1, (n - i) as int) =~= self@.subrange(
                i + 1,
                n as int,
            ));
            i = i + 1;
        }
        None
    }
}

/// `server.json`, as a JSON document.
#[derive(Debug)]
pub struct ServerConfig {
    pub raw: Json,
}

/// A client of the VLESS inbound.
#[derive(Debug)]
pub struct ServerClient {
    pub id: String,
    pub email: Option<String>,
    pub flow: Option<String>,
}

/// The string held by `j`, if it is one.
pub open spec fn str_of(j: JsonV) -> Option<Seq<char>> {
    match j {
        JsonV::Str(s) => Some(s),
        _ => None,
    }
}

/// The elements of the array `j`, or none.
pub open spec fn elems(j: JsonV) -> Seq<JsonV> {
    match j {
        JsonV::Array(a) => a,
        _ => Seq::empty(),
    }
}

/// The inbounds of a config.
pub open spec fn inbounds_of(raw: JsonV) -> Seq<JsonV> {
    elems(at(raw, "inbounds"@))
}

/// An inbound whose protocol is VLESS.
pub open spec fn is_vless() -> spec_fn(JsonV) -> bool {
    has_str("protocol"@, "vless"@)
}

/// Index of the VLESS inbound (the first inbound with that protocol), or -1.
pub open spec fn vless_pos(raw: JsonV) -> int {
    first_where(inbounds_of(raw), is_vless())
}

/// The clients array of the VLESS inbound.
pub open spec fn vless_clients(raw: JsonV) -> Seq<JsonV> {
    let p = vless_pos(raw);
    if p >= 0 {
        elems(at(at(inbounds_of(raw)[p], "settings"@), "clients"@))
    } else {
        Seq::empty()
    }
}

/// `s` holds the string `v`.
pub open spec fn str_in(s: Seq<JsonV>, v: Seq<char>) -> bool {
    exists|i: int| 0 <= i < s.len() && s[i] == JsonV::Str(v)
}

/// The `api` section is an object tagged `api` whose services include the
/// handler and the stats service.
pub open spec fn api_complete(raw: JsonV) -> bool {
    let api = at(raw, "api"@);
    &&& api is Object
    &&& at(api, "tag"@) == JsonV::Str("api"@)
    &&& at(api, "services"@) is Array
    &&& str_in(elems(at(api, "services"@)), "HandlerService"@)
    &&& str_in(elems(at(api, "services"@)), "StatsService"@)
}

/// What `ServerConfig::parse` makes of a text.
pub open spec fn server_config_of(s: Seq<char>) -> Result<JsonV, Seq<char>> {
    match json_parse(s) {
        Ok(j) => Ok(j),
        Err(m) => Err("failed to parse server config: "@ + m),
    }
}

/// The string at `j[key]`.
pub fn str_field<'a>(j: &'a Json, key: &str) -> (r: Option<&'a str>)
    ensures
        match r {
            Some(s) => at(j.deep(), key@) == JsonV::Str(s@),
            None => !(at(j.deep(), key@) is Str),
        },
{
    match j.get(key) {
        Some(v) => v.as_str(),
        None => None,
    }
}

/// Whether `s` holds the string `v`.
pub fn contains_str(s: &Vec<Json>, v: &str) -> (r: bool)
    ensures
        r == str_in(deep_seq(s@), v@),
{
    proof {
        lemma_deep_seq(s@);
    }
    let mut i: usize = 0;
    while i < s.len()
        invariant
            i <= s.len(),
            deep_seq(s@).len() == s.len(),
            forall|k: int| 0 <= k < s.len() ==> #[trigger] deep_seq(s@)[k] == s@[k].deep(),
            forall|k: int| 0 <= k < i ==> deep_seq(s@)[k] != JsonV::Str(v@),
        decreases s.len() - i,
    {
        match s[i].as_str() {
            Some(x) => {
                if str_eq(x, v) {
                    assert(deep_seq(s@)[i as int] == JsonV::Str(v@));
                    return true;
                }
            },
            None => {},
        }
        i = i + 1;
    }
    false
}

impl ServerConfig {
    /// Reads `server.json`.
    pub fn parse(text: &str) -> (r: Result<ServerConfig, AppError>)
        ensures
            match r {
                Ok(c) => server_config_of(text@) == Ok::<JsonV, Seq<char>>(c.raw.deep()),
                Err(e) => server_config_of(text@) matches Err(m) && e is Xray && e->Xray_0@ == m,
            },
    {
        match parse_json(text) {
            Ok(j) => Ok(ServerConfig { raw: j }),
            Err(m) => {
                let mut msg = owned("failed to parse server config: ");
                push_str(&mut msg, m.as_str());
                Err(AppError::Xray(msg))
            },
        }
    }

    /// The config as pretty JSON text.
    pub fn to_json(&self) -> (r: String)
        ensures
            r@ == json_pretty(json_normal(self.raw.deep())),
    {
        render_pretty(&self.raw)
    }

    /// Whether the `api` section is complete.
    pub fn has_api(&self) -> (r: bool)
        ensures
            r == api_complete(self.raw.deep()),
    {
        match self.raw.get("api") {
            Some(api) => {
                if !api.is_object() {
                    return false;
                }
                match str_field(api, "tag") {
                    Some(t) => {
                        if !str_eq(t, "api") {
                            return false;
                        }
                    },
                    None => {
                        return false;
                    },
                }
                match api.get("services") {
                    Some(sv) => match sv.as_array() {
                        Some(a) => contains_str(a, "HandlerService") && contains_str(a, "StatsService"),
                        None => false,
                    },
                    None => false,
                }
            },
            None => false,
        }
    }

    /// Index of the VLESS inbound.
    pub fn vless_inbound_index(&self) -> (r: Option<usize>)
        ensures
            match r {
                Some(i) => vless_pos(self.raw.deep()) == i && i < inbounds_of(self.raw.deep()).len(),
                None => vless_pos(self.raw.deep()) == -1,
            },
    {
        match self.raw.get("inbounds") {
            Some(ib) => match ib.as_array() {
                Some(a) => {
                    proof {
                        lemma_deep_seq(a@);
                    }
                    position_with_str(a, "protocol", "vless")
                },
                None => None,
            },
            None => None,
        }
    }
}

/// A client as `clients()` reports it: its id (or empty), its email and its
/// flow where they are strings.
pub open spec fn client_view(c: JsonV) -> (Seq<char>, Option<Seq<char>>, Option<Seq<char>>) {
    (str_or_empty(at(c, "id"@)), str_of(at(c, "email"@)), str_of(at(c, "flow"@)))
}

impl ServerClient {
    pub open spec fn view(&self) -> (Seq<char>, Option<Seq<char>>, Option<Seq<char>>) {
        (self.id@, opt_view(self.email), opt_view(self.flow))
    }
}

impl ServerConfig {
    /// The clients of the VLESS inbound.
    pub fn clients(&self) -> (r: Vec<ServerClient>)
        ensures
            r.len() == vless_clients(self.raw.deep()).len(),
            forall|i: int| 0 <= i < r.len() ==> #[trigger] r@[i]@ == client_view(vless_clients(self.raw.deep())[i]),
    {
        let mut out: Vec<ServerClient> = Vec::new();
        let p = match self.vless_inbound_index() {
            Some(p) => p,
            None => return out,
        };
        let ib = match self.raw.get("inbounds") {
            Some(ib) => ib,
            None => return out,
        };
        let a = match ib.as_array() {
            Some(a) => a,
            None => return out,
        };
        proof {
            lemma_deep_seq(a@);
        }
        let cs = match a[p].get("settings") {
            Some(st) => match st.get("clients") {
                Some(c) => match c.as_array() {
                    Some(cs) => cs,
                    None => return out,
                },
                None => return out,
            },
            None => return out,
        };
        proof {
            lemma_deep_seq(cs@);
        }
        let mut i: usize = 0;
        while i < cs.len()
            invariant
                i <= cs.len(),
                deep_seq(cs@) == vless_clients(self.raw.deep()),
                deep_seq(cs@).len() == cs.len(),
                forall|k: int| 0 <= k < cs.len() ==> #[trigger] deep_seq(cs@)[k] == cs@[k].deep(),
                out.len() == i,
                forall|k: int| 0 <= k < i ==> #[trigger] out@[k]@ == client_view(deep_seq(cs@)[k]),
            decreases cs.len() - i,
        {
            let c = &cs[i];
            let id = match str_field(c, "id") {
                Some(s) => owned(s),
                None => new_string(),
            };
            let email = match str_field(c, "email") {
                Some(s) => Some(owned(s)),
                None => None,
            };
            let flow = match str_field(c, "flow") {
                Some(s) => Some(owned(s)),
                None => None,
            };
            out.push(ServerClient { id, email, flow });
            i = i + 1;
        }
        out
    }
}

} // verus!
