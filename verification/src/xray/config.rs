//! Turning on Xray's API in `server.json`: the `api`, `stats` and `policy`
//! sections, the API routing rule and inbound, the `vless-in` tag and the
//! client emails that the statistics are keyed by.

use vstd::prelude::*;

use crate::error::AppError;
use crate::json::{
    at, deep_seq, empty_object, field, first_where, has_str, json_str, lemma_at_with_field,
    lemma_deep_seq, lemma_deep_seq_push, lemma_taken, lemma_taken_back, lemma_with_field,
    settable, taken, with_field, Json, JsonV,
};
use crate::xray::server::{
    api_complete, contains_str, elems, inbounds_of, is_vless, str_field, str_in, str_or_empty,
    table_name, vless_pos, ClientsTable, ServerConfig,
};
use crate::text::{owned, push_str, str_eq};

verus! {

pub const SERVER_CONFIG_PATH: &'static str = "/opt/amnezia/xray/server.json";

pub const CLIENTS_TABLE_PATH: &'static str = "/opt/amnezia/xray/clientsTable";

/// Port of the API inbound.
pub const API_LISTEN_PORT: u16 = 8080;

/// `j` if it is an object, else an empty object.
pub open spec fn obj_or_empty(j: JsonV) -> JsonV {
    if j is Object {
        j
    } else {
        JsonV::Object(Seq::empty())
    }
}

/// `sv` with the string `name` appended unless it holds it already.
pub open spec fn with_service(sv: Seq<JsonV>, name: Seq<char>) -> Seq<JsonV> {
    if str_in(sv, name) {
        sv
    } else {
        sv.push(JsonV::Str(name))
    }
}

/// The `api` section merged in: tagged `api`, with the handler and stats
/// services added to whatever services it lists.
pub open spec fn api_added(raw: JsonV) -> JsonV {
    let api1 = with_field(obj_or_empty(at(raw, "api"@)), "tag"@, JsonV::Str("api"@));
    let sv = elems(at(api1, "services"@));
    let sv2 = with_service(with_service(sv, "HandlerService"@), "StatsService"@);
    with_field(raw, "api"@, with_field(api1, "services"@, JsonV::Array(sv2)))
}

/// The `stats` section, made an empty object unless it is an object.
pub open spec fn stats_fixed(raw: JsonV) -> JsonV {
    if at(raw, "stats"@) is Object {
        raw
    } else {
        with_field(raw, "stats"@, JsonV::Object(Seq::empty()))
    }
}

/// Policy level 0 counts user traffic and the system policy counts inbound
/// traffic.
pub open spec fn policy_complete(raw: JsonV) -> bool {
    let p = at(raw, "policy"@);
    let l0 = at(at(p, "levels"@), "0"@);
    let sys = at(p, "system"@);
    &&& field(raw, "policy"@) is Some
    &&& at(l0, "statsUserUplink"@) == JsonV::Bool(true)
    &&& at(l0, "statsUserDownlink"@) == JsonV::Bool(true)
    &&& at(sys, "statsInboundUplink"@) == JsonV::Bool(true)
    &&& at(sys, "statsInboundDownlink"@) == JsonV::Bool(true)
}

/// `j` with two keys set to `true`.
pub open spec fn two_flags(j: JsonV, a: Seq<char>, b: Seq<char>) -> JsonV {
    with_field(with_field(j, a, JsonV::Bool(true)), b, JsonV::Bool(true))
}

/// The policy flags merged in, keeping every other key of the section.
pub open spec fn policy_added(raw: JsonV) -> JsonV {
    let p1 = obj_or_empty(at(raw, "policy"@));
    let l1 = obj_or_empty(at(p1, "levels"@));
    let z2 = two_flags(obj_or_empty(at(l1, "0"@)), "statsUserUplink"@, "statsUserDownlink"@);
    let p2 = with_field(p1, "levels"@, with_field(l1, "0"@, z2));
    let s2 = two_flags(obj_or_empty(at(p2, "system"@)), "statsInboundUplink"@, "statsInboundDownlink"@);
    with_field(raw, "policy"@, with_field(p2, "system"@, s2))
}

/// Takes out `j[key]`, an object or, in its place, an empty one.
fn take_object(j: &mut Json, key: &str) -> (r: Json)
    ensures
        r.deep() == obj_or_empty(at(old(j).deep(), key@)),
        final(j).deep() == taken(old(j).deep(), key@),
{
    let v = j.take(key);
    if v.is_object() {
        v
    } else {
        empty_object()
    }
}

/// Sets two keys of an object to `true`.
fn set_two_flags(j: &mut Json, a: &str, b: &str)
    requires
        settable(old(j).deep()),
    ensures
        final(j).deep() == two_flags(old(j).deep(), a@, b@),
{
    j.set(a, Json::Bool(true));
    proof {
        lemma_with_field(old(j).deep(), a@, JsonV::Bool(true), b@);
    }
    j.set(b, Json::Bool(true));
}

/// Merges the `api` section into the config.
fn add_api_section(raw: &mut Json)
    requires
        settable(old(raw).deep()),
    ensures
        final(raw).deep() == api_added(old(raw).deep()),
{
    let ghost r0 = raw.deep();
    let mut api = take_object(raw, "api");
    proof {
        lemma_taken(r0, "api"@, JsonV::Null);
    }
    api.set("tag", json_str("api"));
    let ghost api1 = api.deep();
    proof {
        lemma_with_field(obj_or_empty(at(r0, "api"@)), "tag"@, JsonV::Str("api"@), "services"@);
    }
    let sv = api.take("services");
    let mut list: Vec<Json> = match sv {
        Json::Array(v) => v,
        _ => Vec::new(),
    };
    proof {
        lemma_deep_seq(list@);
        assert(deep_seq(list@) =~= elems(at(api1, "services"@)));
    }
    if !contains_str(&list, "HandlerService") {
        let ghost before = list@;
        let item = json_str("HandlerService");
        let ghost iv = item;
        list.push(item);
        proof {
            lemma_deep_seq_push(before, iv);
        }
    }
    if !contains_str(&list, "StatsService") {
        let ghost before = list@;
        let item = json_str("StatsService");
        let ghost iv = item;
        list.push(item);
        proof {
            lemma_deep_seq_push(before, iv);
        }
    }
    proof {
        lemma_taken(api1, "services"@, JsonV::Array(deep_seq(list@)));
    }
    api.set("services", Json::Array(list));
    proof {
        lemma_taken(r0, "api"@, api.deep());
    }
    raw.set("api", api);
}

/// Makes the `stats` section an object.
fn fix_stats_section(raw: &mut Json) -> (r: bool)
    requires
        old(raw).deep() is Object,
    ensures
        r == !(at(old(raw).deep(), "stats"@) is Object),
        final(raw).deep() == stats_fixed(old(raw).deep()),
{
    let ok = match raw.get("stats") {
        Some(v) => v.is_object(),
        None => false,
    };
    if !ok {
        raw.set("stats", empty_object());
    }
    !ok
}

/// The bool at `j[key]` is `true`.
fn flag_set(j: Option<&Json>, key: &str) -> (r: bool)
    ensures
        r == (j is Some && at(j->0.deep(), key@) == JsonV::Bool(true)),
{
    match j {
        Some(v) => match v.get(key) {
            Some(b) => match b.as_bool() {
                Some(x) => x,
                None => false,
            },
            None => false,
        },
        None => false,
    }
}

/// Whether the policy section has all the stats flags set.
fn has_complete_policy(raw: &Json) -> (r: bool)
    ensures
        r == policy_complete(raw.deep()),
{
    let policy = match raw.get("policy") {
        Some(p) => p,
        None => return false,
    };
    let level0 = match policy.get("levels") {
        Some(l) => l.get("0"),
        None => None,
    };
    let has_user = flag_set(level0, "statsUserUplink") && flag_set(level0, "statsUserDownlink");
    let system = policy.get("system");
    let has_system = flag_set(system, "statsInboundUplink") && flag_set(system, "statsInboundDownlink");
    has_user && has_system
}

/// Merges the stats flags into the policy section.
fn add_policy_section(raw: &mut Json)
    requires
        old(raw).deep() is Object,
    ensures
        final(raw).deep() == policy_added(old(raw).deep()),
{
    let ghost r0 = raw.deep();
    let mut policy = take_object(raw, "policy");
    let ghost p1 = policy.deep();
    let mut levels = take_object(&mut policy, "levels");
    let ghost l1 = levels.deep();
    let mut level0 = take_object(&mut levels, "0");
    set_two_flags(&mut level0, "statsUserUplink", "statsUserDownlink");
    proof {
        lemma_taken(l1, "0"@, level0.deep());
    }
    levels.set("0", level0);
    proof {
        lemma_taken(p1, "levels"@, levels.deep());
    }
    policy.set("levels", levels);
    let ghost p2 = policy.deep();
    let mut system = take_object(&mut policy, "system");
    set_two_flags(&mut system, "statsInboundUplink", "statsInboundDownlink");
    proof {
        lemma_with_field(p1, "levels"@, with_field(l1, "0"@, level0.deep()), "system"@);
        lemma_taken(p2, "system"@, system.deep());
    }
    policy.set("system", system);
    proof {
        lemma_taken(r0, "policy"@, policy.deep());
    }
    raw.set("policy", policy);
}

/// The routing rule that sends the API inbound to the API.
pub open spec fn api_rule() -> JsonV {
    JsonV::Object(
        seq![
            ("inboundTag"@, JsonV::Array(seq![JsonV::Str("api"@)])),
            ("outboundTag"@, JsonV::Str("api"@)),
            ("type"@, JsonV::Str("field"@)),
        ],
    )
}

/// A rule whose outbound is the API.
pub open spec fn to_api() -> spec_fn(JsonV) -> bool {
    has_str("outboundTag"@, "api"@)
}

/// A correct API rule: outbound `api`, `api` among its inbound tags, type
/// `field`.
pub open spec fn is_api_rule(r: JsonV) -> bool {
    &&& at(r, "outboundTag"@) == JsonV::Str("api"@)
    &&& str_in(elems(at(r, "inboundTag"@)), "api"@)
    &&& at(r, "type"@) == JsonV::Str("field"@)
}

/// The API rule made present: the first rule to the API is kept if correct
/// and replaced if not; with none, the API rule goes first.
pub open spec fn routing_step(raw: JsonV) -> (JsonV, bool) {
    match field(raw, "routing"@) {
        Some(routing) => {
            if at(routing, "rules"@) is Array {
                let rs = elems(at(routing, "rules"@));
                let p = first_where(rs, to_api());
                if p >= 0 {
                    if is_api_rule(rs[p]) {
                        (raw, false)
                    } else {
                        (
                            with_field(
                                raw,
                                "routing"@,
                                with_field(routing, "rules"@, JsonV::Array(rs.update(p, api_rule()))),
                            ),
                            true,
                        )
                    }
                } else {
                    (
                        with_field(
                            raw,
                            "routing"@,
                            with_field(routing, "rules"@, JsonV::Array(seq![api_rule()] + rs)),
                        ),
                        true,
                    )
                }
            } else {
                (
                    with_field(
                        raw,
                        "routing"@,
                        with_field(routing, "rules"@, JsonV::Array(seq![api_rule()])),
                    ),
                    true,
                )
            }
        },
        None => (
            with_field(
                raw,
                "routing"@,
                JsonV::Object(seq![("rules"@, JsonV::Array(seq![api_rule()]))]),
            ),
            true,
        ),
    }
}

/// `routing_step` can write into the routing section: it is an object,
/// `null`, absent, or its rules are an array.
pub open spec fn routing_writable(raw: JsonV) -> bool {
    field(raw, "routing"@) is Some ==> (at(at(raw, "routing"@), "rules"@) is Array || settable(
        at(raw, "routing"@),
    ))
}

/// An object of the given entries.
fn object_of(es: Vec<(String, Json)>) -> (r: Json)
    ensures
        r.deep() == JsonV::Object(crate::json::deep_entries(es@)),
{
    Json::Object(es)
}

/// The API routing rule.
fn make_api_rule() -> (r: Json)
    ensures
        r.deep() == api_rule(),
{
    let mut tags: Vec<Json> = Vec::new();
    tags.push(json_str("api"));
    proof {
        lemma_deep_seq(tags@);
        assert(deep_seq(tags@) =~= seq![JsonV::Str("api"@)]);
    }
    let mut es: Vec<(String, Json)> = Vec::new();
    es.push((owned("inboundTag"), Json::Array(tags)));
    es.push((owned("outboundTag"), json_str("api")));
    es.push((owned("type"), json_str("field")));
    let r = object_of(es);
    proof {
        crate::json::lemma_deep_entries(es@);
        assert(crate::json::deep_entries(es@) =~= api_rule()->Object_0);
    }
    r
}

/// Whether a rule is a correct API rule.
fn check_api_rule(r: &Json) -> (b: bool)
    ensures
        b == is_api_rule(r.deep()),
{
    let out = match crate::xray::server::str_field(r, "outboundTag") {
        Some(t) => crate::text::str_eq(t, "api"),
        None => false,
    };
    let inb = match r.get("inboundTag") {
        Some(t) => match t.as_array() {
            Some(a) => contains_str(a, "api"),
            None => false,
        },
        None => false,
    };
    let ty = match crate::xray::server::str_field(r, "type") {
        Some(t) => crate::text::str_eq(t, "field"),
        None => false,
    };
    out && inb && ty
}

/// Makes the API routing rule present and correct.
fn add_api_routing_rule(raw: &mut Json) -> (changed: bool)
    requires
        old(raw).deep() is Object,
        routing_writable(old(raw).deep()),
    ensures
        (final(raw).deep(), changed) == routing_step(old(raw).deep()),
{
    let ghost r0 = raw.deep();
    if raw.get("routing").is_none() {
        let mut rules: Vec<Json> = Vec::new();
        rules.push(make_api_rule());
        proof {
            lemma_deep_seq(rules@);
            assert(deep_seq(rules@) =~= seq![api_rule()]);
        }
        let mut es: Vec<(String, Json)> = Vec::new();
        es.push((owned("rules"), Json::Array(rules)));
        let routing = object_of(es);
        proof {
            crate::json::lemma_deep_entries(es@);
            assert(crate::json::deep_entries(es@) =~= seq![("rules"@, JsonV::Array(seq![api_rule()]))]);
        }
        raw.set("routing", routing);
        return true;
    }
    let mut routing = raw.take("routing");
    let ghost rt0 = routing.deep();
    proof {
        lemma_taken(r0, "routing"@, JsonV::Null);
    }
    let rules = routing.take("rules");
    let ghost rules0 = rules.deep();
    match rules {
        Json::Array(mut rs) => {
            proof {
                lemma_deep_seq(rs@);
                crate::json::lemma_first_where(deep_seq(rs@), to_api());
            }
            let ghost rsv = deep_seq(rs@);
            let changed = match crate::json::position_with_str(&rs, "outboundTag", "api") {
                Some(p) => {
                    if check_api_rule(&rs[p]) {
                        false
                    } else {
                        rs.set(p, make_api_rule());
                        proof {
                            lemma_deep_seq(rs@);
                            assert(deep_seq(rs@) =~= rsv.update(p as int, api_rule()));
                        }
                        true
                    }
                },
                None => {
                    rs.insert(0, make_api_rule());
                    proof {
                        lemma_deep_seq(rs@);
                        assert(deep_seq(rs@) =~= seq![api_rule()] + rsv);
                    }
                    true
                },
            };
            proof {
                lemma_taken(rt0, "rules"@, JsonV::Array(deep_seq(rs@)));
                if !changed {
                    lemma_taken_back(rt0, "rules"@);
                }
            }
            routing.set("rules", Json::Array(rs));
            proof {
                lemma_taken(r0, "routing"@, routing.deep());
                if !changed {
                    lemma_taken_back(r0, "routing"@);
                }
            }
            raw.set("routing", routing);
            changed
        },
        _ => {
            let mut list: Vec<Json> = Vec::new();
            list.push(make_api_rule());
            proof {
                lemma_deep_seq(list@);
                assert(deep_seq(list@) =~= seq![api_rule()]);
                lemma_taken(rt0, "rules"@, JsonV::Array(deep_seq(list@)));
            }
            routing.set("rules", Json::Array(list));
            proof {
                lemma_taken(r0, "routing"@, routing.deep());
            }
            raw.set("routing", routing);
            true
        },
    }
}

/// The API inbound: dokodemo-door on 127.0.0.1, port 8080.
pub open spec fn api_inbound() -> JsonV {
    JsonV::Object(
        seq![
            ("tag"@, JsonV::Str("api"@)),
            ("port"@, JsonV::UInt(8080)),
            ("listen"@, JsonV::Str("127.0.0.1"@)),
            ("protocol"@, JsonV::Str("dokodemo-door"@)),
            ("settings"@, JsonV::Object(seq![("address"@, JsonV::Str("127.0.0.1"@))])),
        ],
    )
}

/// An inbound tagged `api`.
pub open spec fn tagged_api() -> spec_fn(JsonV) -> bool {
    has_str("tag"@, "api"@)
}

/// A correct API inbound.
pub open spec fn is_api_inbound(ib: JsonV) -> bool {
    &&& at(ib, "tag"@) == JsonV::Str("api"@)
    &&& at(ib, "protocol"@) == JsonV::Str("dokodemo-door"@)
    &&& at(ib, "listen"@) == JsonV::Str("127.0.0.1"@)
    &&& at(ib, "port"@) == JsonV::UInt(API_LISTEN_PORT as u64)
}

/// The API inbound made present: the first inbound tagged `api` is kept if
/// correct and replaced if not; with none, it is appended.  Nothing happens
/// where `inbounds` is not an array.
pub open spec fn inbound_step(raw: JsonV) -> (JsonV, bool) {
    if at(raw, "inbounds"@) is Array {
        let is = elems(at(raw, "inbounds"@));
        let p = first_where(is, tagged_api());
        if p >= 0 {
            if is_api_inbound(is[p]) {
                (raw, false)
            } else {
                (with_field(raw, "inbounds"@, JsonV::Array(is.update(p, api_inbound()))), true)
            }
        } else {
            (with_field(raw, "inbounds"@, JsonV::Array(is.push(api_inbound()))), true)
        }
    } else {
        (raw, false)
    }
}

/// The API inbound.
fn make_api_inbound() -> (r: Json)
    ensures
        r.deep() == api_inbound(),
{
    let mut settings: Vec<(String, Json)> = Vec::new();
    settings.push((owned("address"), json_str("127.0.0.1")));
    let s = object_of(settings);
    proof {
        crate::json::lemma_deep_entries(settings@);
        assert(crate::json::deep_entries(settings@) =~= seq![("address"@, JsonV::Str("127.0.0.1"@))]);
    }
    let mut es: Vec<(String, Json)> = Vec::new();
    es.push((owned("tag"), json_str("api")));
    es.push((owned("port"), Json::UInt(API_LISTEN_PORT as u64)));
    es.push((owned("listen"), json_str("127.0.0.1")));
    es.push((owned("protocol"), json_str("dokodemo-door")));
    es.push((owned("settings"), s));
    let r = object_of(es);
    proof {
        crate::json::lemma_deep_entries(es@);
        assert(crate::json::deep_entries(es@) =~= api_inbound()->Object_0);
    }
    r
}

/// Whether an inbound is a correct API inbound.
fn check_api_inbound(ib: &Json) -> (b: bool)
    ensures
        b == is_api_inbound(ib.deep()),
{
    let tag = match crate::xray::server::str_field(ib, "tag") {
        Some(t) => crate::text::str_eq(t, "api"),
        None => false,
    };
    let protocol = match crate::xray::server::str_field(ib, "protocol") {
        Some(t) => crate::text::str_eq(t, "dokodemo-door"),
        None => false,
    };
    let listen = match crate::xray::server::str_field(ib, "listen") {
        Some(t) => crate::text::str_eq(t, "127.0.0.1"),
        None => false,
    };
    let port = match ib.get("port") {
        Some(p) => match p.as_u64() {
            Some(n) => n == API_LISTEN_PORT as u64,
            None => false,
        },
        None => false,
    };
    tag && protocol && listen && port
}

/// Makes the API inbound present and correct.
fn add_api_inbound(raw: &mut Json) -> (changed: bool)
    requires
        old(raw).deep() is Object,
    ensures
        (final(raw).deep(), changed) == inbound_step(old(raw).deep()),
{
    let ghost r0 = raw.deep();
    let is_arr = match raw.get("inbounds") {
        Some(v) => v.is_array(),
        None => false,
    };
    if !is_arr {
        return false;
    }
    let ib = raw.take("inbounds");
    proof {
        lemma_taken(r0, "inbounds"@, JsonV::Null);
    }
    let mut list: Vec<Json> = match ib {
        Json::Array(v) => v,
        _ => Vec::new(),
    };
    proof {
        lemma_deep_seq(list@);
    }
    let ghost isv = deep_seq(list@);
    let changed = match crate::json::position_with_str(&list, "tag", "api") {
        Some(p) => {
            if check_api_inbound(&list[p]) {
                false
            } else {
                list.set(p, make_api_inbound());
                proof {
                    lemma_deep_seq(list@);
                    assert(deep_seq(list@) =~= isv.update(p as int, api_inbound()));
                }
                true
            }
        },
        None => {
            let item = make_api_inbound();
            let ghost iv = item;
            list.push(item);
            proof {
                lemma_deep_seq(list@);
                assert(deep_seq(list@) =~= isv.push(api_inbound()));
            }
            true
        },
    };
    proof {
        lemma_taken(r0, "inbounds"@, JsonV::Array(deep_seq(list@)));
        if !changed {
            lemma_taken_back(r0, "inbounds"@);
        }
    }
    raw.set("inbounds", Json::Array(list));
    changed
}

/// A tag, renamed from `old` to `new`.
pub open spec fn rename_tag(t: JsonV, old: Seq<char>, new: Seq<char>) -> JsonV {
    if t == JsonV::Str(old) {
        JsonV::Str(new)
    } else {
        t
    }
}

/// A routing rule with `old` renamed to `new` among its inbound tags.
pub open spec fn rename_rule(r: JsonV, old: Seq<char>, new: Seq<char>) -> JsonV {
    match field(r, "inboundTag"@) {
        Some(JsonV::Array(ts)) => with_field(
            r,
            "inboundTag"@,
            JsonV::Array(ts.map_values(|t: JsonV| rename_tag(t, old, new))),
        ),
        _ => r,
    }
}

/// The config with `old` renamed to `new` in the inbound tags of every
/// routing rule.
pub open spec fn renamed_rules(raw: JsonV, old: Seq<char>, new: Seq<char>) -> JsonV {
    match field(raw, "routing"@) {
        Some(routing) => match field(routing, "rules"@) {
            Some(JsonV::Array(rs)) => with_field(
                raw,
                "routing"@,
                with_field(
                    routing,
                    "rules"@,
                    JsonV::Array(rs.map_values(|r: JsonV| rename_rule(r, old, new))),
                ),
            ),
            _ => raw,
        },
        None => raw,
    }
}

/// The VLESS inbound tagged `vless-in`, and the routing rules that named it
/// by its former tag made to name the new one.
pub open spec fn tag_step(raw: JsonV) -> Result<(JsonV, bool), Seq<char>> {
    let p = vless_pos(raw);
    if p < 0 {
        Err("no VLESS inbound found"@)
    } else {
        let is = inbounds_of(raw);
        let x = is[p];
        let cur = str_or_empty(at(x, "tag"@));
        if cur == "vless-in"@ {
            Ok((raw, false))
        } else {
            let r1 = with_field(
                raw,
                "inbounds"@,
                JsonV::Array(is.update(p, with_field(x, "tag"@, JsonV::Str("vless-in"@)))),
            );
            Ok(
                (
                    if cur.len() > 0 {
                        renamed_rules(r1, cur, "vless-in"@)
                    } else {
                        r1
                    },
                    true,
                ),
            )
        }
    }
}

/// Renames `old` to `new` among the tags of `ts`.
fn rename_tags_in(ts: &mut Vec<Json>, from: &str, to: &str)
    ensures
        deep_seq(final(ts)@) == deep_seq(old(ts)@).map_values(|t: JsonV| rename_tag(t, from@, to@)),
{
    let ghost t0 = deep_seq(ts@);
    proof {
        lemma_deep_seq(ts@);
    }
    let mut i: usize = 0;
    while i < ts.len()
        invariant
            i <= ts.len(),
            t0.len() == ts.len(),
            deep_seq(ts@).len() == ts.len(),
            forall|k: int| 0 <= k < ts.len() ==> #[trigger] deep_seq(ts@)[k] == ts@[k].deep(),
            forall|k: int| 0 <= k < i ==> ts@[k].deep() == rename_tag(t0[k], from@, to@),
            forall|k: int| i <= k < ts.len() ==> ts@[k].deep() == t0[k],
        decreases ts.len() - i,
    {
        let hit = match ts[i].as_str() {
            Some(s) => str_eq(s, from),
            None => false,
        };
        if hit {
            ts.set(i, json_str(to));
        }
        proof {
            lemma_deep_seq(ts@);
        }
        i = i + 1;
    }
    assert(deep_seq(ts@) =~= t0.map_values(|t: JsonV| rename_tag(t, from@, to@)));
}

/// Renames `old` to `new` among the inbound tags of a rule.
fn rename_in_rule(r: Json, from: &str, to: &str) -> (out: Json)
    ensures
        out.deep() == rename_rule(r.deep(), from@, to@),
{
    let is_arr = match r.get("inboundTag") {
        Some(t) => t.is_array(),
        None => false,
    };
    if !is_arr {
        return r;
    }
    let mut r = r;
    let ghost r0 = r.deep();
    let tags = r.take("inboundTag");
    match tags {
        Json::Array(mut ts) => {
            rename_tags_in(&mut ts, from, to);
            proof {
                lemma_taken(r0, "inboundTag"@, JsonV::Array(deep_seq(ts@)));
            }
            r.set("inboundTag", Json::Array(ts));
            r
        },
        _ => r,
    }
}

/// Renames `old` to `new` among the inbound tags of every routing rule.
fn update_routing_inbound_tags(raw: &mut Json, from: &str, to: &str)
    requires
        old(raw).deep() is Object,
    ensures
        final(raw).deep() == renamed_rules(old(raw).deep(), from@, to@),
{
    let ghost r0 = raw.deep();
    let has_rules = match raw.get("routing") {
        Some(rt) => match rt.get("rules") {
            Some(rs) => rs.is_array(),
            None => false,
        },
        None => false,
    };
    if !has_rules {
        return;
    }
    let mut routing = raw.take("routing");
    let ghost rt0 = routing.deep();
    let rules = routing.take("rules");
    match rules {
        Json::Array(mut rs) => {
            let ghost s0 = deep_seq(rs@);
            proof {
                lemma_deep_seq(rs@);
            }
            let mut i: usize = 0;
            while i < rs.len()
                invariant
                    i <= rs.len(),
                    s0.len() == rs.len(),
                    forall|k: int| 0 <= k < i ==> rs@[k].deep() == rename_rule(s0[k], from@, to@),
                    forall|k: int| i <= k < rs.len() ==> rs@[k].deep() == s0[k],
                decreases rs.len() - i,
            {
                let r = rs.remove(i);
                let r2 = rename_in_rule(r, from, to);
                rs.insert(i, r2);
                i = i + 1;
            }
            proof {
                lemma_deep_seq(rs@);
                assert(deep_seq(rs@) =~= s0.map_values(|r: JsonV| rename_rule(r, from@, to@)));
                lemma_taken(rt0, "rules"@, JsonV::Array(deep_seq(rs@)));
            }
            routing.set("rules", Json::Array(rs));
            proof {
                lemma_taken(r0, "routing"@, routing.deep());
            }
            raw.set("routing", routing);
        },
        _ => {},
    }
}

/// Makes the VLESS inbound's tag `vless-in`, renaming it in the routing
/// rules.
pub fn normalize_vless_tag(config: &mut ServerConfig) -> (r: Result<bool, AppError>)
    ensures
        match tag_step(old(config).raw.deep()) {
            Ok((raw, changed)) => r == Ok::<bool, AppError>(changed) && final(config).raw.deep() == raw,
            Err(m) => r matches Err(e) && e is Xray && e->Xray_0@ == m && final(config).raw.deep()
                == old(config).raw.deep(),
        },
{
    let ghost r0 = config.raw.deep();
    let p = match config.vless_inbound_index() {
        Some(p) => p,
        None => return Err(AppError::Xray(owned("no VLESS inbound found"))),
    };
    let ib = config.raw.take("inbounds");
    let mut list: Vec<Json> = match ib {
        Json::Array(v) => v,
        _ => Vec::new(),
    };
    proof {
        lemma_deep_seq(list@);
        crate::json::lemma_first_where(inbounds_of(r0), is_vless());
    }
    let ghost isv = deep_seq(list@);
    let old_tag = match str_field(&list[p], "tag") {
        Some(t) => owned(t),
        None => crate::text::new_string(),
    };
    assert(old_tag@ == str_or_empty(at(isv[p as int], "tag"@)));
    if str_eq(old_tag.as_str(), "vless-in") {
        proof {
            lemma_taken_back(r0, "inbounds"@);
        }
        config.raw.set("inbounds", Json::Array(list));
        return Ok(false);
    }
    let mut x = list.remove(p);
    let ghost xv = x.deep();
    proof {
        crate::json::lemma_at_str(xv, "protocol"@);
    }
    x.set("tag", json_str("vless-in"));
    list.insert(p, x);
    proof {
        lemma_deep_seq(list@);
        assert(deep_seq(list@) =~= isv.update(p as int, with_field(xv, "tag"@, JsonV::Str("vless-in"@))));
        lemma_taken(r0, "inbounds"@, JsonV::Array(deep_seq(list@)));
    }
    config.raw.set("inbounds", Json::Array(list));
    if old_tag.as_str().unicode_len() > 0 {
        update_routing_inbound_tags(&mut config.raw, old_tag.as_str(), "vless-in");
    }
    Ok(true)
}

/// A client without a string email.
pub open spec fn needs_email(c: JsonV) -> bool {
    !(at(c, "email"@) is Str)
}

/// The email a client gets: its name from `clientsTable` (or its id, or
/// `unknown`), then `@vpn`.
pub open spec fn email_for(c: JsonV, table: Seq<(Seq<char>, Seq<char>)>) -> Seq<char> {
    let uuid = match at(c, "id"@) {
        JsonV::Str(s) => s,
        _ => "unknown"@,
    };
    let name = match table_name(table, uuid) {
        Some(n) => n,
        None => uuid,
    };
    name + "@vpn"@
}

/// The email a client without one gets comes from the `clientsTable` row
/// of its id, wherever that row stands: the first row whose `clientId` is
/// the client's id gives `<clientName>@vpn`; with no such row the id itself
/// is the name.
pub proof fn lemma_email_from_table_row(c: JsonV, table: Seq<(Seq<char>, Seq<char>)>, id: Seq<char>)
    requires
        at(c, "id"@) == JsonV::Str(id),
    ensures
        forall|i: int|
            0 <= i < table.len() && table[i].0 == id && (forall|j: int| 0 <= j < i ==> table[j].0 != id)
                ==> email_for(c, table) == table[i].1 + "@vpn"@,
        (forall|j: int| 0 <= j < table.len() ==> table[j].0 != id) ==> email_for(c, table) == id + "@vpn"@,
{
    assert forall|i: int|
        0 <= i < table.len() && table[i].0 == id && (forall|j: int| 0 <= j < i ==> table[j].0 != id)
            implies email_for(c, table) == table[i].1 + "@vpn"@ by {
        lemma_table_name_row(table, id, i);
    }
    if forall|j: int| 0 <= j < table.len() ==> table[j].0 != id {
        lemma_table_name_none(table, id);
    }
}

proof fn lemma_table_name_row(t: Seq<(Seq<char>, Seq<char>)>, id: Seq<char>, i: int)
    requires
        0 <= i < t.len(),
        t[i].0 == id,
        forall|j: int| 0 <= j < i ==> t[j].0 != id,
    ensures
        table_name(t, id) == Some(t[i].1),
    decreases i,
{
    if i > 0 {
        let rest = t.subrange(1, t.len() as int);
        assert(t[0].0 != id);
        assert forall|j: int| 0 <= j < i - 1 implies rest[j].0 != id by {
            assert(rest[j] == t[j + 1]);
        }
        assert(rest[i - 1] == t[i]);
        lemma_table_name_row(rest, id, i - 1);
    }
}

proof fn lemma_table_name_none(t: Seq<(Seq<char>, Seq<char>)>, id: Seq<char>)
    requires
        forall|j: int| 0 <= j < t.len() ==> t[j].0 != id,
    ensures
        table_name(t, id) is None,
    decreases t.len(),
{
    if t.len() > 0 {
        let rest = t.subrange(1, t.len() as int);
        assert(t[0].0 != id);
        assert forall|j: int| 0 <= j < rest.len() implies rest[j].0 != id by {
            assert(rest[j] == t[j + 1]);
        }
        lemma_table_name_none(rest, id);
    }
}

/// A client given an email and level 0 where it has no email.
pub open spec fn fixed_client(c: JsonV, table: Seq<(Seq<char>, Seq<char>)>) -> JsonV {
    if needs_email(c) {
        with_field(
            with_field(c, "email"@, JsonV::Str(email_for(c, table))),
            "level"@,
            JsonV::UInt(0),
        )
    } else {
        c
    }
}

/// The clients array of an inbound, if it has one.
pub open spec fn clients_at(x: JsonV) -> Option<Seq<JsonV>> {
    match field(x, "settings"@) {
        Some(st) => match field(st, "clients"@) {
            Some(JsonV::Array(cs)) => Some(cs),
            _ => None,
        },
        None => None,
    }
}

/// Emails given to the clients of the VLESS inbound that have none.
pub open spec fn email_step(raw: JsonV, table: Seq<(Seq<char>, Seq<char>)>) -> Result<
    (JsonV, bool),
    Seq<char>,
> {
    let p = vless_pos(raw);
    if p < 0 {
        Err("no VLESS inbound found"@)
    } else {
        let is = inbounds_of(raw);
        let x = is[p];
        match clients_at(x) {
            None => Err("no clients array found"@),
            Some(cs) => {
                if exists|i: int| 0 <= i < cs.len() && needs_email(#[trigger] cs[i]) {
                    let st = at(x, "settings"@);
                    let cs2 = cs.map_values(|c: JsonV| fixed_client(c, table));
                    Ok(
                        (
                            with_field(
                                raw,
                                "inbounds"@,
                                JsonV::Array(
                                    is.update(
                                        p,
                                        with_field(
                                            x,
                                            "settings"@,
                                            with_field(st, "clients"@, JsonV::Array(cs2)),
                                        ),
                                    ),
                                ),
                            ),
                            true,
                        ),
                    )
                } else {
                    Ok((raw, false))
                }
            },
        }
    }
}

/// Every client that gets an email can be written into.
pub open spec fn emails_writable(raw: JsonV) -> bool {
    let p = vless_pos(raw);
    p >= 0 ==> match clients_at(inbounds_of(raw)[p]) {
        Some(cs) => forall|i: int|
            0 <= i < cs.len() && needs_email(#[trigger] cs[i]) ==> settable(cs[i]),
        None => true,
    }
}

/// Gives a client its email and level where it has no email.
fn fix_client(c: Json, table: &ClientsTable) -> (r: Json)
    requires
        needs_email(c.deep()) ==> settable(c.deep()),
    ensures
        r.deep() == fixed_client(c.deep(), table@),
{
    if str_field(&c, "email").is_some() {
        return c;
    }
    let uuid = match str_field(&c, "id") {
        Some(s) => owned(s),
        None => owned("unknown"),
    };
    let mut email = match table.name_for_uuid(uuid.as_str()) {
        Some(n) => owned(n),
        None => owned(uuid.as_str()),
    };
    push_str(&mut email, "@vpn");
    let mut c = c;
    let ghost c0 = c.deep();
    c.set("email", Json::Str(email));
    proof {
        lemma_with_field(c0, "email"@, JsonV::Str(email_for(c0, table@)), "level"@);
    }
    c.set("level", Json::UInt(0));
    c
}

/// Whether some client lacks an email.
fn any_needs_email(cs: &Vec<Json>) -> (r: bool)
    ensures
        r == exists|i: int| 0 <= i < deep_seq(cs@).len() && needs_email(#[trigger] deep_seq(cs@)[i]),
{
    proof {
        lemma_deep_seq(cs@);
    }
    let mut i: usize = 0;
    while i < cs.len()
        invariant
            i <= cs.len(),
            deep_seq(cs@).len() == cs.len(),
            forall|k: int| 0 <= k < cs.len() ==> #[trigger] deep_seq(cs@)[k] == cs@[k].deep(),
            forall|k: int| 0 <= k < i ==> !needs_email(#[trigger] deep_seq(cs@)[k]),
        decreases cs.len() - i,
    {
        if str_field(&cs[i], "email").is_none() {
            assert(needs_email(deep_seq(cs@)[i as int]));
            return true;
        }
        i = i + 1;
    }
    false
}

/// The clients array of an inbound.
fn clients_of(x: &Json) -> (r: Option<&Vec<Json>>)
    ensures
        match r {
            Some(cs) => clients_at(x.deep()) == Some(deep_seq(cs@)),
            None => clients_at(x.deep()) is None,
        },
{
    match x.get("settings") {
        Some(st) => match st.get("clients") {
            Some(c) => c.as_array(),
            None => None,
        },
        None => None,
    }
}

/// Gives every client of the VLESS inbound without an email one.
fn add_email_to_clients(config: &mut ServerConfig, table: &ClientsTable) -> (r: Result<bool, AppError>)
    requires
        emails_writable(old(config).raw.deep()),
        old(config).raw.deep() is Object,
    ensures
        match email_step(old(config).raw.deep(), table@) {
            Ok((raw, changed)) => r == Ok::<bool, AppError>(changed) && final(config).raw.deep() == raw,
            Err(m) => r matches Err(e) && e is Xray && e->Xray_0@ == m && final(config).raw.deep()
                == old(config).raw.deep(),
        },
{
    let ghost r0 = config.raw.deep();
    let p = match config.vless_inbound_index() {
        Some(p) => p,
        None => return Err(AppError::Xray(owned("no VLESS inbound found"))),
    };
    let needs = match config.raw.get("inbounds") {
        Some(ib) => match ib.as_array() {
            Some(a) => {
                proof {
                    lemma_deep_seq(a@);
                }
                match clients_of(&a[p]) {
                    Some(cs) => any_needs_email(cs),
                    None => return Err(AppError::Xray(owned("no clients array found"))),
                }
            },
            None => false,
        },
        None => false,
    };
    if !needs {
        return Ok(false);
    }
    let ib = config.raw.take("inbounds");
    let mut list: Vec<Json> = match ib {
        Json::Array(v) => v,
        _ => Vec::new(),
    };
    proof {
        lemma_deep_seq(list@);
    }
    let ghost isv = deep_seq(list@);
    let mut x = list.remove(p);
    let ghost xv = x.deep();
    let mut settings = x.take("settings");
    let ghost sv = settings.deep();
    let clients = settings.take("clients");
    let mut cs: Vec<Json> = match clients {
        Json::Array(v) => v,
        _ => Vec::new(),
    };
    let ghost c0 = deep_seq(cs@);
    proof {
        lemma_deep_seq(cs@);
    }
    let mut i: usize = 0;
    while i < cs.len()
        invariant
            i <= cs.len(),
            c0.len() == cs.len(),
            forall|k: int| 0 <= k < c0.len() && needs_email(#[trigger] c0[k]) ==> settable(c0[k]),
            forall|k: int| 0 <= k < i ==> cs@[k].deep() == fixed_client(c0[k], table@),
            forall|k: int| i <= k < cs.len() ==> cs@[k].deep() == c0[k],
        decreases cs.len() - i,
    {
        let c = cs.remove(i);
        assert(c.deep() == c0[i as int]);
        let c2 = fix_client(c, table);
        cs.insert(i, c2);
        i = i + 1;
    }
    proof {
        lemma_deep_seq(cs@);
        assert(deep_seq(cs@) =~= c0.map_values(|c: JsonV| fixed_client(c, table@)));
        lemma_taken(sv, "clients"@, JsonV::Array(deep_seq(cs@)));
    }
    settings.set("clients", Json::Array(cs));
    proof {
        lemma_taken(xv, "settings"@, settings.deep());
    }
    x.set("settings", settings);
    list.insert(p, x);
    proof {
        lemma_deep_seq(list@);
        assert(deep_seq(list@) =~= isv.update(p as int, x.deep()));
        lemma_taken(r0, "inbounds"@, JsonV::Array(deep_seq(list@)));
    }
    config.raw.set("inbounds", Json::Array(list));
    Ok(true)
}

/// The config once the `api` section is complete: merged in where it is not.
pub open spec fn api_stage(raw: JsonV) -> JsonV {
    if api_complete(raw) {
        raw
    } else {
        api_added(raw)
    }
}

/// The config once the `stats` and `policy` sections are in place too.
pub open spec fn policy_stage(raw: JsonV) -> JsonV {
    let r2 = stats_fixed(api_stage(raw));
    if policy_complete(r2) {
        r2
    } else {
        policy_added(r2)
    }
}

/// The config once the sections, the API rule and the API inbound are in
/// place, and whether any of that changed it.
pub open spec fn sections_step(raw: JsonV) -> (JsonV, bool) {
    let r1 = api_stage(raw);
    let r2 = stats_fixed(r1);
    let (r4, a4) = routing_step(policy_stage(raw));
    let (r5, a5) = inbound_step(r4);
    (
        r5,
        !api_complete(raw) || !(at(r1, "stats"@) is Object) || !policy_complete(r2) || a4 || a5,
    )
}

/// What `enable_api` does to a config: the config it leaves, and whether
/// it changed it or why it failed.
pub open spec fn enable_api_outcome(raw: JsonV, table: Seq<(Seq<char>, Seq<char>)>) -> (
    JsonV,
    Result<bool, Seq<char>>,
) {
    let (r5, a) = sections_step(raw);
    match tag_step(r5) {
        Err(m) => (r5, Err(m)),
        Ok((r6, a6)) => match email_step(r6, table) {
            Err(m) => (r6, Err(m)),
            Ok((r7, a7)) => (r7, Ok(a || a6 || a7)),
        },
    }
}

/// `enable_api` can write everything it writes: the config is an object
/// (or `null`), the routing section can take a rules array, and the clients
/// that get an email are objects.
pub open spec fn enable_api_writable(raw: JsonV, table: Seq<(Seq<char>, Seq<char>)>) -> bool {
    &&& settable(raw)
    &&& routing_writable(policy_stage(raw))
    &&& (tag_step(sections_step(raw).0) matches Ok((r6, _)) ==> emails_writable(r6))
}

/// Whether a value can take a key: an object, or `null` (which becomes one).
fn is_settable(j: &Json) -> (r: bool)
    ensures
        r == settable(j.deep()),
{
    match j {
        Json::Object(_) => true,
        Json::Null => true,
        _ => false,
    }
}

/// Whether the routing section can take the API rule.
fn routing_writable_exec(raw: &Json) -> (r: bool)
    ensures
        r == routing_writable(raw.deep()),
{
    match raw.get("routing") {
        None => true,
        Some(routing) => {
            let rules_array = match routing.get("rules") {
                Some(x) => x.is_array(),
                None => false,
            };
            rules_array || is_settable(routing)
        },
    }
}

/// A client that lacks an email and cannot take one makes the config
/// unwritable.
proof fn lemma_emails_not_writable(raw: JsonV, cv: Seq<JsonV>, i: int)
    requires
        vless_pos(raw) >= 0,
        clients_at(inbounds_of(raw)[vless_pos(raw)]) == Some(cv),
        0 <= i < cv.len(),
        needs_email(cv[i]),
        !settable(cv[i]),
    ensures
        !emails_writable(raw),
{
    let p = vless_pos(raw);
    assert(p >= 0);
    let c = clients_at(inbounds_of(raw)[p]);
    assert(c == Some(cv));
    assert(c matches Some(cs) && cs == cv);
    assert(!(forall|k: int| 0 <= k < cv.len() && needs_email(#[trigger] cv[k]) ==> settable(cv[k])));
}

/// Whether every client of the VLESS inbound that lacks an email can take
/// one.
fn emails_writable_exec(config: &ServerConfig) -> (r: bool)
    ensures
        r == emails_writable(config.raw.deep()),
{
    let p = match config.vless_inbound_index() {
        Some(p) => p,
        None => return true,
    };
    let a = match config.raw.get("inbounds") {
        Some(ib) => match ib.as_array() {
            Some(a) => a,
            None => return true,
        },
        None => return true,
    };
    proof {
        lemma_deep_seq(a@);
    }
    let cs = match clients_of(&a[p]) {
        Some(cs) => cs,
        None => return true,
    };
    proof {
        lemma_deep_seq(cs@);
    }
    assert(inbounds_of(config.raw.deep())[p as int] == a@[p as int].deep());
    let ghost cv = deep_seq(cs@);
    assert(clients_at(inbounds_of(config.raw.deep())[p as int]) == Some(cv));
    let mut i: usize = 0;
    while i < cs.len()
        invariant
            i <= cs.len(),
            cv == deep_seq(cs@),
            vless_pos(config.raw.deep()) == p,
            p < inbounds_of(config.raw.deep()).len(),
            clients_at(inbounds_of(config.raw.deep())[p as int]) == Some(cv),
            deep_seq(cs@).len() == cs.len(),
            forall|k: int| 0 <= k < cs.len() ==> #[trigger] deep_seq(cs@)[k] == cs@[k].deep(),
            forall|k: int| 0 <= k < i && needs_email(#[trigger] deep_seq(cs@)[k]) ==> settable(deep_seq(cs@)[k]),
        decreases cs.len() - i,
    {
        if str_field(&cs[i], "email").is_none() && !is_settable(&cs[i]) {
            assert(needs_email(cv[i as int]));
            proof {
                lemma_emails_not_writable(config.raw.deep(), cv, i as int);
            }
            return false;
        }
        i = i + 1;
    }
    true
}

/// `enable_api` on any config: `None` where the config is one it cannot
/// write into (see `enable_api_writable`), the config then being left
/// partly changed; else what `enable_api` gives.
pub fn try_enable_api(config: &mut ServerConfig, clients_table: &ClientsTable) -> (r: Option<Result<bool, AppError>>)
    ensures
        r is None <==> !enable_api_writable(old(config).raw.deep(), clients_table@),
        r matches Some(res) ==> {
            &&& final(config).raw.deep() == enable_api_outcome(old(config).raw.deep(), clients_table@).0
            &&& match enable_api_outcome(old(config).raw.deep(), clients_table@).1 {
                Ok(b) => res == Ok::<bool, AppError>(b),
                Err(m) => res matches Err(e) && e is Xray && e->Xray_0@ == m,
            }
        },
{
    let ghost r0 = config.raw.deep();
    if !is_settable(&config.raw) {
        return None;
    }
    let mut added_any = false;
    if !config.has_api() {
        add_api_section(&mut config.raw);
        added_any = true;
        proof {
            lemma_with_field(r0, "api"@, at(config.raw.deep(), "api"@), "api"@);
        }
    }
    assert(config.raw.deep() is Object);
    let ghost r1 = config.raw.deep();
    if fix_stats_section(&mut config.raw) {
        added_any = true;
    }
    proof {
        if !(at(r1, "stats"@) is Object) {
            lemma_with_field(r1, "stats"@, JsonV::Object(Seq::empty()), "stats"@);
        }
    }
    if !has_complete_policy(&config.raw) {
        add_policy_section(&mut config.raw);
        added_any = true;
    }
    proof {
        let r2 = stats_fixed(r1);
        if !policy_complete(r2) {
            lemma_with_field(r2, "policy"@, at(policy_added(r2), "policy"@), "policy"@);
        }
    }
    let ghost r3 = config.raw.deep();
    assert(r3 == policy_stage(r0));
    if !routing_writable_exec(&config.raw) {
        return None;
    }
    let added_routing = add_api_routing_rule(&mut config.raw);
    proof {
        if field(r3, "routing"@) is Some {
            if at(at(r3, "routing"@), "rules"@) is Array {
                lemma_with_field(r3, "routing"@, at(config.raw.deep(), "routing"@), "routing"@);
            } else {
                lemma_with_field(r3, "routing"@, at(config.raw.deep(), "routing"@), "routing"@);
            }
        } else {
            lemma_with_field(r3, "routing"@, at(config.raw.deep(), "routing"@), "routing"@);
        }
    }
    let ghost r4 = config.raw.deep();
    let added_inbound = add_api_inbound(&mut config.raw);
    proof {
        if at(r4, "inbounds"@) is Array {
            lemma_with_field(r4, "inbounds"@, at(config.raw.deep(), "inbounds"@), "inbounds"@);
        }
    }
    let added_api = added_any || added_routing || added_inbound;
    let tag_changed = match normalize_vless_tag(config) {
        Ok(b) => b,
        Err(e) => return Some(Err(e)),
    };
    if !emails_writable_exec(config) {
        return None;
    }
    let emails_changed = match add_email_to_clients(config, clients_table) {
        Ok(b) => b,
        Err(e) => return Some(Err(e)),
    };
    Some(Ok(added_api || tag_changed || emails_changed))
}

/// Ensures the Xray API is enabled in the server config: the `api`,
/// `stats` and `policy` sections, the API routing rule and dokodemo-door
/// inbound, the `vless-in` tag and an email on every client.  Returns
/// whether the config was changed.
pub fn enable_api(config: &mut ServerConfig, clients_table: &ClientsTable) -> (r: Result<
    bool,
    AppError,
>)
    requires
        enable_api_writable(old(config).raw.deep(), clients_table@),
    ensures
        final(config).raw.deep() == enable_api_outcome(old(config).raw.deep(), clients_table@).0,
        match enable_api_outcome(old(config).raw.deep(), clients_table@).1 {
            Ok(b) => r == Ok::<bool, AppError>(b),
            Err(m) => r matches Err(e) && e is Xray && e->Xray_0@ == m,
        },
{
    match try_enable_api(config, clients_table) {
        Some(r) => r,
        None => Ok(false),
    }
}

/// `a` and `b` agree on every key but `k`.
pub open spec fn same_except(a: JsonV, b: JsonV, k: Seq<char>) -> bool {
    forall|k2: Seq<char>| k2 != k ==> #[trigger] field(a, k2) == field(b, k2)
}

proof fn lemma_same_except_with_field(j: JsonV, k: Seq<char>, v: JsonV)
    requires
        settable(j),
    ensures
        same_except(with_field(j, k, v), j, k),
        field(with_field(j, k, v), k) == Some(v),
        with_field(j, k, v) is Object,
{
    assert forall|k2: Seq<char>| k2 != k implies #[trigger] field(with_field(j, k, v), k2) == field(
        j,
        k2,
    ) by {
        lemma_with_field(j, k, v, k2);
    }
    lemma_with_field(j, k, v, k);
}

proof fn lemma_key_names()
    ensures
        "api"@ != "stats"@,
        "api"@ != "policy"@,
        "api"@ != "routing"@,
        "api"@ != "inbounds"@,
        "stats"@ != "policy"@,
        "stats"@ != "routing"@,
        "stats"@ != "inbounds"@,
        "policy"@ != "routing"@,
        "policy"@ != "inbounds"@,
        "routing"@ != "inbounds"@,
        "tag"@ != "services"@,
        "levels"@ != "system"@,
        "statsUserUplink"@ != "statsUserDownlink"@,
        "statsInboundUplink"@ != "statsInboundDownlink"@,
        "outboundTag"@ != "inboundTag"@,
        "type"@ != "inboundTag"@,
        "type"@ != "outboundTag"@,
        "tag"@ != "protocol"@,
        "tag"@ != "settings"@,
        "protocol"@ != "settings"@,
        "email"@ != "level"@,
        "vless-in"@ != "api"@,
        "vless"@ != "dokodemo-door"@,
{
    reveal_strlit("api");
    reveal_strlit("stats");
    reveal_strlit("policy");
    reveal_strlit("routing");
    reveal_strlit("inbounds");
    reveal_strlit("tag");
    reveal_strlit("services");
    reveal_strlit("levels");
    reveal_strlit("system");
    reveal_strlit("statsUserUplink");
    reveal_strlit("statsUserDownlink");
    reveal_strlit("statsInboundUplink");
    reveal_strlit("statsInboundDownlink");
    reveal_strlit("outboundTag");
    reveal_strlit("inboundTag");
    reveal_strlit("type");
    reveal_strlit("protocol");
    reveal_strlit("settings");
    reveal_strlit("email");
    reveal_strlit("level");
    reveal_strlit("vless-in");
    reveal_strlit("vless");
    reveal_strlit("dokodemo-door");
    assert("api"@.len() == 3);
    assert("stats"@.len() == 5);
    assert("policy"@.len() == 6);
    assert("routing"@.len() == 7);
    assert("inbounds"@.len() == 8);
    assert("tag"@.len() == 3);
    assert("services"@.len() == 8);
    assert("levels"@.len() == 6);
    assert("system"@.len() == 6);
    assert("statsUserUplink"@.len() == 15);
    assert("statsUserDownlink"@.len() == 17);
    assert("statsInboundUplink"@.len() == 18);
    assert("statsInboundDownlink"@.len() == 20);
    assert("outboundTag"@.len() == 11);
    assert("inboundTag"@.len() == 10);
    assert("type"@.len() == 4);
    assert("protocol"@.len() == 8);
    assert("settings"@.len() == 8);
    assert("email"@.len() == 5);
    assert("level"@.len() == 5);
    assert("vless-in"@.len() == 8);
    assert("vless"@.len() == 5);
    assert("dokodemo-door"@.len() == 13);
    assert("statsUserUplink"@[9] != "statsUserDownlink"@[9]);
    assert("statsInboundUplink"@[12] != "statsInboundDownlink"@[12]);
    assert("outboundTag"@[0] != "inboundTag"@[0]);
    assert("email"@[0] != "level"@[0]);
    assert("routing"@[0] != "inbounds"@[0]);
    assert("protocol"@[0] != "settings"@[0]);
    assert("levels"@[0] != "system"@[0]);
}

proof fn lemma_with_service(sv: Seq<JsonV>, n: Seq<char>, m: Seq<char>)
    ensures
        str_in(with_service(sv, n), n),
        str_in(sv, m) ==> str_in(with_service(sv, n), m),
{
    if !str_in(sv, n) {
        let w = sv.push(JsonV::Str(n));
        assert(w[sv.len() as int] == JsonV::Str(n));
        if str_in(sv, m) {
            let i = choose|i: int| 0 <= i < sv.len() && sv[i] == JsonV::Str(m);
            assert(w[i] == JsonV::Str(m));
        }
    }
}

/// The `api` stage completes the section and touches no other key.
proof fn lemma_api_stage(raw: JsonV)
    requires
        settable(raw),
    ensures
        api_complete(api_stage(raw)),
        api_stage(raw) is Object,
        same_except(api_stage(raw), raw, "api"@),
{
    lemma_key_names();
    if api_complete(raw) {
        assert(field(raw, "api"@) is Some);
    } else {
        let api1 = with_field(obj_or_empty(at(raw, "api"@)), "tag"@, JsonV::Str("api"@));
        let sv = elems(at(api1, "services"@));
        let sv1 = with_service(sv, "HandlerService"@);
        let sv2 = with_service(sv1, "StatsService"@);
        lemma_with_service(sv, "HandlerService"@, "StatsService"@);
        lemma_with_service(sv1, "StatsService"@, "HandlerService"@);
        lemma_at_with_field(obj_or_empty(at(raw, "api"@)), "tag"@, JsonV::Str("api"@), "services"@);
        lemma_at_with_field(api1, "services"@, JsonV::Array(sv2), "tag"@);
        let api = with_field(api1, "services"@, JsonV::Array(sv2));
        lemma_same_except_with_field(raw, "api"@, api);
    }
}

proof fn lemma_two_flags(j: JsonV, a: Seq<char>, b: Seq<char>)
    requires
        settable(j),
        a != b,
    ensures
        at(two_flags(j, a, b), a) == JsonV::Bool(true),
        at(two_flags(j, a, b), b) == JsonV::Bool(true),
        two_flags(j, a, b) is Object,
{
    lemma_at_with_field(j, a, JsonV::Bool(true), b);
    lemma_at_with_field(with_field(j, a, JsonV::Bool(true)), b, JsonV::Bool(true), a);
}

/// The stats and policy stages complete their sections and touch no other
/// key.
proof fn lemma_policy_stage(raw: JsonV)
    requires
        settable(raw),
    ensures
        api_complete(policy_stage(raw)),
        at(policy_stage(raw), "stats"@) is Object,
        policy_complete(policy_stage(raw)),
        policy_stage(raw) is Object,
        field(policy_stage(raw), "routing"@) == field(raw, "routing"@),
        field(policy_stage(raw), "inbounds"@) == field(raw, "inbounds"@),
{
    lemma_key_names();
    lemma_api_stage(raw);
    let r1 = api_stage(raw);
    let r2 = stats_fixed(r1);
    if !(at(r1, "stats"@) is Object) {
        lemma_same_except_with_field(r1, "stats"@, JsonV::Object(Seq::empty()));
    }
    assert(field(r2, "api"@) == field(r1, "api"@));
    assert(at(r2, "stats"@) is Object);
    if !policy_complete(r2) {
        let p1 = obj_or_empty(at(r2, "policy"@));
        let l1 = obj_or_empty(at(p1, "levels"@));
        let z2 = two_flags(obj_or_empty(at(l1, "0"@)), "statsUserUplink"@, "statsUserDownlink"@);
        lemma_two_flags(obj_or_empty(at(l1, "0"@)), "statsUserUplink"@, "statsUserDownlink"@);
        lemma_at_with_field(l1, "0"@, z2, "0"@);
        let p2 = with_field(p1, "levels"@, with_field(l1, "0"@, z2));
        lemma_at_with_field(p1, "levels"@, with_field(l1, "0"@, z2), "system"@);
        let s2 = two_flags(obj_or_empty(at(p2, "system"@)), "statsInboundUplink"@, "statsInboundDownlink"@);
        lemma_two_flags(obj_or_empty(at(p2, "system"@)), "statsInboundUplink"@, "statsInboundDownlink"@);
        lemma_at_with_field(p2, "system"@, s2, "levels"@);
        lemma_same_except_with_field(r2, "policy"@, with_field(p2, "system"@, s2));
    }
}

/// The routing section holds a correct API rule as its first rule to the
/// API.
pub open spec fn routing_ok(raw: JsonV) -> bool {
    let rt = at(raw, "routing"@);
    let rs = elems(at(rt, "rules"@));
    &&& field(raw, "routing"@) is Some
    &&& at(rt, "rules"@) is Array
    &&& first_where(rs, to_api()) >= 0
    &&& is_api_rule(rs[first_where(rs, to_api())])
}

proof fn lemma_api_rule()
    ensures
        is_api_rule(api_rule()),
        to_api()(api_rule()),
{
    lemma_key_names();
    let es = api_rule()->Object_0;
    crate::json::lemma_key_index_is(es, "outboundTag"@, 1);
    crate::json::lemma_key_index_is(es, "inboundTag"@, 0);
    reveal_strlit("type");
    reveal_strlit("outboundTag");
    reveal_strlit("inboundTag");
    crate::json::lemma_key_index_is(es, "type"@, 2);
    assert(elems(at(api_rule(), "inboundTag"@))[0] == JsonV::Str("api"@));
}

/// After the routing step the API rule is in place, and no other key has
/// changed.
proof fn lemma_routing_step(raw: JsonV)
    requires
        raw is Object,
        routing_writable(raw),
    ensures
        routing_ok(routing_step(raw).0),
        routing_step(raw).0 is Object,
        same_except(routing_step(raw).0, raw, "routing"@),
{
    lemma_api_rule();
    let one = seq![api_rule()];
    crate::json::lemma_first_where_is(one, to_api(), 0);
    match field(raw, "routing"@) {
        Some(routing) => {
            if at(routing, "rules"@) is Array {
                let rs = elems(at(routing, "rules"@));
                let p = first_where(rs, to_api());
                crate::json::lemma_first_where(rs, to_api());
                if p >= 0 {
                    if !is_api_rule(rs[p]) {
                        let rs2 = rs.update(p, api_rule());
                        crate::json::lemma_first_where_is(rs2, to_api(), p);
                        lemma_at_with_field(routing, "rules"@, JsonV::Array(rs2), "rules"@);
                        lemma_same_except_with_field(raw, "routing"@, with_field(routing, "rules"@, JsonV::Array(rs2)));
                    }
                } else {
                    let rs2 = one + rs;
                    crate::json::lemma_first_where_is(rs2, to_api(), 0);
                    lemma_at_with_field(routing, "rules"@, JsonV::Array(rs2), "rules"@);
                    lemma_same_except_with_field(raw, "routing"@, with_field(routing, "rules"@, JsonV::Array(rs2)));
                }
            } else {
                lemma_at_with_field(routing, "rules"@, JsonV::Array(one), "rules"@);
                lemma_same_except_with_field(raw, "routing"@, with_field(routing, "rules"@, JsonV::Array(one)));
            }
        },
        None => {
            let rt = JsonV::Object(seq![("rules"@, JsonV::Array(one))]);
            crate::json::lemma_key_index_is(rt->Object_0, "rules"@, 0);
            lemma_same_except_with_field(raw, "routing"@, rt);
        },
    }
}

/// Renaming a tag other than `api` keeps the API rule correct, and touches
/// nothing but the routing section.
proof fn lemma_rename_keeps_routing(x: JsonV, from: Seq<char>, to: Seq<char>)
    requires
        x is Object,
        routing_ok(x),
        from != "api"@,
    ensures
        routing_ok(renamed_rules(x, from, to)),
        renamed_rules(x, from, to) is Object,
        same_except(renamed_rules(x, from, to), x, "routing"@),
{
    lemma_key_names();
    let rt = at(x, "routing"@);
    let rs = elems(at(rt, "rules"@));
    let f = |r: JsonV| rename_rule(r, from, to);
    let rs2 = rs.map_values(f);
    assert forall|j: int| 0 <= j < rs.len() implies to_api()(rs[j]) == to_api()(rs2[j]) by {
        let r = rs[j];
        match field(r, "inboundTag"@) {
            Some(JsonV::Array(ts)) => {
                lemma_at_with_field(r, "inboundTag"@, JsonV::Array(ts.map_values(|t: JsonV| rename_tag(t, from, to))), "outboundTag"@);
            },
            _ => {},
        }
    }
    crate::json::lemma_first_where_same(rs, rs2, to_api());
    let p = first_where(rs, to_api());
    crate::json::lemma_first_where(rs, to_api());
    let r = rs[p];
    let ts = elems(at(r, "inboundTag"@));
    assert(at(r, "inboundTag"@) is Array);
    assert(field(r, "inboundTag"@) == Some(JsonV::Array(ts)));
    let i = choose|i: int| 0 <= i < ts.len() && ts[i] == JsonV::Str("api"@);
    let ts2 = ts.map_values(|t: JsonV| rename_tag(t, from, to));
    assert(ts2[i] == JsonV::Str("api"@));
    lemma_at_with_field(r, "inboundTag"@, JsonV::Array(ts2), "outboundTag"@);
    lemma_at_with_field(r, "inboundTag"@, JsonV::Array(ts2), "type"@);
    assert(is_api_rule(rs2[p]));
    lemma_at_with_field(rt, "rules"@, JsonV::Array(rs2), "rules"@);
    lemma_same_except_with_field(x, "routing"@, with_field(rt, "rules"@, JsonV::Array(rs2)));
}

/// The inbounds hold a correct API inbound as their first inbound tagged
/// `api`.
pub open spec fn inbound_ok(raw: JsonV) -> bool {
    let is = elems(at(raw, "inbounds"@));
    &&& at(raw, "inbounds"@) is Array
    &&& first_where(is, tagged_api()) >= 0
    &&& is_api_inbound(is[first_where(is, tagged_api())])
}

proof fn lemma_api_inbound()
    ensures
        is_api_inbound(api_inbound()),
        tagged_api()(api_inbound()),
{
    let es = api_inbound()->Object_0;
    reveal_strlit("tag");
    reveal_strlit("port");
    reveal_strlit("listen");
    reveal_strlit("protocol");
    assert("tag"@.len() == 3);
    assert("port"@.len() == 4);
    assert("listen"@.len() == 6);
    assert("protocol"@.len() == 8);
    assert("port"@[0] != "tag"@[0]);
    crate::json::lemma_key_index_is(es, "tag"@, 0);
    crate::json::lemma_key_index_is(es, "port"@, 1);
    crate::json::lemma_key_index_is(es, "listen"@, 2);
    crate::json::lemma_key_index_is(es, "protocol"@, 3);
}

/// After the inbound step the API inbound is in place where the inbounds
/// are an array; no other key changes.
proof fn lemma_inbound_step(raw: JsonV)
    requires
        raw is Object,
    ensures
        inbound_step(raw).0 is Object,
        same_except(inbound_step(raw).0, raw, "inbounds"@),
        at(raw, "inbounds"@) is Array ==> inbound_ok(inbound_step(raw).0),
        !(at(raw, "inbounds"@) is Array) ==> inbound_step(raw).0 == raw,
{
    lemma_api_inbound();
    assert(same_except(raw, raw, "inbounds"@));
    if at(raw, "inbounds"@) is Array {
        let is = elems(at(raw, "inbounds"@));
        let p = first_where(is, tagged_api());
        crate::json::lemma_first_where(is, tagged_api());
        if p >= 0 {
            if !is_api_inbound(is[p]) {
                let is2 = is.update(p, api_inbound());
                crate::json::lemma_first_where_is(is2, tagged_api(), p);
                lemma_same_except_with_field(raw, "inbounds"@, JsonV::Array(is2));
            }
        } else {
            let is2 = is.push(api_inbound());
            crate::json::lemma_first_where_is(is2, tagged_api(), is.len() as int);
            lemma_same_except_with_field(raw, "inbounds"@, JsonV::Array(is2));
        }
    }
}

/// The VLESS inbound is tagged `vless-in`.
pub open spec fn tag_ok(raw: JsonV) -> bool {
    vless_pos(raw) >= 0 && at(inbounds_of(raw)[vless_pos(raw)], "tag"@) == JsonV::Str("vless-in"@)
}

/// Every client of the VLESS inbound has an email.
pub open spec fn emails_ok(raw: JsonV) -> bool {
    let p = vless_pos(raw);
    &&& p >= 0
    &&& clients_at(inbounds_of(raw)[p]) is Some
    &&& forall|i: int|
        0 <= i < clients_at(inbounds_of(raw)[p])->0.len() ==> !needs_email(
            #[trigger] clients_at(inbounds_of(raw)[p])->0[i],
        )
}

/// Replacing the inbound at `q` by one that agrees with it on `key`.
proof fn lemma_update_keeps(is: Seq<JsonV>, q: int, y: JsonV, pr: spec_fn(JsonV) -> bool)
    requires
        0 <= q < is.len(),
        pr(y) == pr(is[q]),
    ensures
        first_where(is.update(q, y), pr) == first_where(is, pr),
{
    crate::json::lemma_first_where_same(is, is.update(q, y), pr);
}

/// The tag step keeps the API inbound correct and leaves the VLESS inbound
/// tagged `vless-in`.
proof fn lemma_tag_step(r5: JsonV)
    requires
        r5 is Object,
        routing_ok(r5),
        inbound_ok(r5),
        tag_step(r5) is Ok,
        !(at(inbounds_of(r5)[vless_pos(r5)], "tag"@) == JsonV::Str("api"@)),
    ensures
        ({
            let r6 = tag_step(r5)->Ok_0.0;
            &&& r6 is Object
            &&& routing_ok(r6)
            &&& inbound_ok(r6)
            &&& tag_ok(r6)
            &&& field(r6, "api"@) == field(r5, "api"@)
            &&& field(r6, "stats"@) == field(r5, "stats"@)
            &&& field(r6, "policy"@) == field(r5, "policy"@)
        }),
{
    lemma_key_names();
    reveal_strlit("vless-in");
    assert("vless-in"@.len() == 8);
    let is = inbounds_of(r5);
    let q = vless_pos(r5);
    crate::json::lemma_first_where(is, is_vless());
    let x = is[q];
    let cur = str_or_empty(at(x, "tag"@));
    let p = first_where(is, tagged_api());
    crate::json::lemma_first_where(is, tagged_api());
    assert(p != q);
    if cur != "vless-in"@ {
        crate::json::lemma_at_str(x, "protocol"@);
        let x2 = with_field(x, "tag"@, JsonV::Str("vless-in"@));
        lemma_at_with_field(x, "tag"@, JsonV::Str("vless-in"@), "protocol"@);
        let is2 = is.update(q, x2);
        lemma_update_keeps(is, q, x2, is_vless());
        crate::json::lemma_first_where_is(is2, tagged_api(), p);
        let r1 = with_field(r5, "inbounds"@, JsonV::Array(is2));
        lemma_same_except_with_field(r5, "inbounds"@, JsonV::Array(is2));
        assert(field(r1, "routing"@) == field(r5, "routing"@));
        if cur.len() > 0 {
            assert(cur != "api"@);
            lemma_rename_keeps_routing(r1, cur, "vless-in"@);
            let r6 = renamed_rules(r1, cur, "vless-in"@);
            assert(field(r6, "inbounds"@) == field(r1, "inbounds"@));
            assert(field(r6, "api"@) == field(r1, "api"@));
            assert(field(r6, "stats"@) == field(r1, "stats"@));
            assert(field(r6, "policy"@) == field(r1, "policy"@));
        }
    } else {
        assert(at(x, "tag"@) is Str);
    }
}

/// The email step keeps the rule, the API inbound and the tag, and leaves
/// an email on every client.
proof fn lemma_email_step(r6: JsonV, table: Seq<(Seq<char>, Seq<char>)>)
    requires
        r6 is Object,
        routing_ok(r6),
        inbound_ok(r6),
        tag_ok(r6),
        emails_writable(r6),
        email_step(r6, table) is Ok,
    ensures
        ({
            let r7 = email_step(r6, table)->Ok_0.0;
            &&& r7 is Object
            &&& routing_ok(r7)
            &&& inbound_ok(r7)
            &&& tag_ok(r7)
            &&& emails_ok(r7)
            &&& field(r7, "api"@) == field(r6, "api"@)
            &&& field(r7, "stats"@) == field(r6, "stats"@)
            &&& field(r7, "policy"@) == field(r6, "policy"@)
        }),
{
    lemma_key_names();
    reveal_strlit("clients");
    let is = inbounds_of(r6);
    let q = vless_pos(r6);
    crate::json::lemma_first_where(is, is_vless());
    let x = is[q];
    let cs = clients_at(x)->0;
    let p = first_where(is, tagged_api());
    crate::json::lemma_first_where(is, tagged_api());
    assert(p != q);
    if exists|i: int| 0 <= i < cs.len() && needs_email(#[trigger] cs[i]) {
        let table0 = table;
        let st = at(x, "settings"@);
        let cs2 = cs.map_values(|c: JsonV| fixed_client(c, table));
        assert forall|i: int| 0 <= i < cs2.len() implies !needs_email(#[trigger] cs2[i]) by {
            let c = cs[i];
            if needs_email(c) {
                lemma_at_with_field(c, "email"@, JsonV::Str(email_for(c, table)), "level"@);
                lemma_at_with_field(
                    with_field(c, "email"@, JsonV::Str(email_for(c, table))),
                    "level"@,
                    JsonV::UInt(0),
                    "email"@,
                );
            }
        }
        crate::json::lemma_at_str(x, "protocol"@);
        let st2 = with_field(st, "clients"@, JsonV::Array(cs2));
        lemma_with_field(st, "clients"@, JsonV::Array(cs2), "clients"@);
        let x2 = with_field(x, "settings"@, st2);
        lemma_with_field(x, "settings"@, st2, "settings"@);
        lemma_at_with_field(x, "settings"@, st2, "protocol"@);
        lemma_at_with_field(x, "settings"@, st2, "tag"@);
        let is2 = is.update(q, x2);
        lemma_update_keeps(is, q, x2, is_vless());
        lemma_update_keeps(is, q, x2, tagged_api());
        lemma_same_except_with_field(r6, "inbounds"@, JsonV::Array(is2));
        let r7 = with_field(r6, "inbounds"@, JsonV::Array(is2));
        assert(field(r7, "routing"@) == field(r6, "routing"@));
        assert(field(r7, "api"@) == field(r6, "api"@));
        assert(field(r7, "stats"@) == field(r6, "stats"@));
        assert(field(r7, "policy"@) == field(r6, "policy"@));
        assert(clients_at(inbounds_of(r7)[q]) == Some(cs2));
    }
}

/// The VLESS inbound is tagged `api` when the tag step comes to it, so
/// renaming that tag would rename the API rule's inbound tag as well.
pub open spec fn vless_tagged_api(raw: JsonV) -> bool {
    let r5 = sections_step(raw).0;
    vless_pos(r5) >= 0 && at(inbounds_of(r5)[vless_pos(r5)], "tag"@) == JsonV::Str("api"@)
}

/// What enabling the API leaves: on a config that `enable_api` repaired
/// successfully, the `api` section is complete, stats are on, the policy
/// counts traffic per user and per inbound, a routing rule sends the API
/// inbound to the API, the API inbound is there, the VLESS inbound is
/// tagged `vless-in`, and every client has an email.  This fails where the
/// VLESS inbound is itself tagged `api` behind a correct API inbound:
/// renaming its tag renames the API rule's inbound tag too.
pub proof fn lemma_enable_api_enables(raw: JsonV, table: Seq<(Seq<char>, Seq<char>)>)
    requires
        enable_api_writable(raw, table),
        enable_api_outcome(raw, table).1 is Ok,
        !vless_tagged_api(raw),
    ensures
        ({
            let r = enable_api_outcome(raw, table).0;
            &&& api_complete(r)
            &&& at(r, "stats"@) is Object
            &&& policy_complete(r)
            &&& routing_ok(r)
            &&& inbound_ok(r)
            &&& tag_ok(r)
            &&& emails_ok(r)
        }),
{
    lemma_key_names();
    lemma_policy_stage(raw);
    let r3 = policy_stage(raw);
    lemma_routing_step(r3);
    let r4 = routing_step(r3).0;
    assert(field(r4, "inbounds"@) == field(r3, "inbounds"@));
    assert(field(r4, "api"@) == field(r3, "api"@));
    assert(field(r4, "stats"@) == field(r3, "stats"@));
    assert(field(r4, "policy"@) == field(r3, "policy"@));
    lemma_inbound_step(r4);
    let r5 = inbound_step(r4).0;
    assert(r5 == sections_step(raw).0);
    assert(field(r5, "routing"@) == field(r4, "routing"@));
    assert(field(r5, "api"@) == field(r4, "api"@));
    assert(field(r5, "stats"@) == field(r4, "stats"@));
    assert(field(r5, "policy"@) == field(r4, "policy"@));
    if !(at(r4, "inbounds"@) is Array) {
        assert(inbounds_of(r5) == Seq::<JsonV>::empty());
        assert(vless_pos(r5) == -1);
    }
    assert(inbound_ok(r5));
    lemma_tag_step(r5);
    let r6 = tag_step(r5)->Ok_0.0;
    lemma_email_step(r6, table);
    let r7 = email_step(r6, table)->Ok_0.0;
    assert(enable_api_outcome(raw, table).0 == r7);
    assert(api_complete(r7));
    assert(at(r7, "stats"@) is Object);
    assert(policy_complete(r7));
}

/// The top-level keys `enable_api` writes.
pub open spec fn api_key(k: Seq<char>) -> bool {
    k == "api"@ || k == "stats"@ || k == "policy"@ || k == "routing"@ || k == "inbounds"@
}

/// `enable_api` leaves every other top-level key of the config as it was,
/// whether it succeeds or not.
pub proof fn lemma_enable_api_keeps_other_keys(raw: JsonV, table: Seq<(Seq<char>, Seq<char>)>, k: Seq<char>)
    requires
        enable_api_writable(raw, table),
        !api_key(k),
    ensures
        field(enable_api_outcome(raw, table).0, k) == field(raw, k),
{
    lemma_api_stage(raw);
    let r1 = api_stage(raw);
    assert(field(r1, k) == field(raw, k));
    let r2 = stats_fixed(r1);
    if !(at(r1, "stats"@) is Object) {
        lemma_with_field(r1, "stats"@, JsonV::Object(Seq::empty()), k);
    }
    assert(field(r2, k) == field(raw, k));
    let r3 = policy_stage(raw);
    if !policy_complete(r2) {
        let p1 = obj_or_empty(at(r2, "policy"@));
        let l1 = obj_or_empty(at(p1, "levels"@));
        let z2 = two_flags(obj_or_empty(at(l1, "0"@)), "statsUserUplink"@, "statsUserDownlink"@);
        let p2 = with_field(p1, "levels"@, with_field(l1, "0"@, z2));
        let s2 = two_flags(obj_or_empty(at(p2, "system"@)), "statsInboundUplink"@, "statsInboundDownlink"@);
        lemma_stats_fixed_object(r1);
        lemma_with_field(r2, "policy"@, with_field(p2, "system"@, s2), k);
    }
    assert(field(r3, k) == field(raw, k));
    lemma_policy_stage(raw);
    lemma_routing_step(r3);
    let r4 = routing_step(r3).0;
    assert(field(r4, k) == field(raw, k));
    lemma_inbound_step(r4);
    let r5 = inbound_step(r4).0;
    assert(field(r5, k) == field(raw, k));
    assert(r5 == sections_step(raw).0);
    if let Ok((r6, _)) = tag_step(r5) {
        let q = vless_pos(r5);
        let is = inbounds_of(r5);
        let x = is[q];
        let cur = str_or_empty(at(x, "tag"@));
        if cur != "vless-in"@ {
            let v = JsonV::Array(is.update(q, with_field(x, "tag"@, JsonV::Str("vless-in"@))));
            lemma_with_field(r5, "inbounds"@, v, k);
            let t1 = with_field(r5, "inbounds"@, v);
            if cur.len() > 0 {
                if let Some(routing) = field(t1, "routing"@) {
                    if let Some(JsonV::Array(rs)) = field(routing, "rules"@) {
                        lemma_with_field(
                            t1,
                            "routing"@,
                            with_field(
                                routing,
                                "rules"@,
                                JsonV::Array(rs.map_values(|r: JsonV| rename_rule(r, cur, "vless-in"@))),
                            ),
                            k,
                        );
                    }
                }
            }
        }
        assert(field(r6, k) == field(raw, k));
        if let Ok((r7, _)) = email_step(r6, table) {
            let q6 = vless_pos(r6);
            let is6 = inbounds_of(r6);
            let x6 = is6[q6];
            if let Some(cs) = clients_at(x6) {
                if exists|i: int| 0 <= i < cs.len() && needs_email(#[trigger] cs[i]) {
                    let st = at(x6, "settings"@);
                    let cs2 = cs.map_values(|c: JsonV| fixed_client(c, table));
                    lemma_tag_step_object(r5);
                    lemma_with_field(
                        r6,
                        "inbounds"@,
                        JsonV::Array(is6.update(q6, with_field(x6, "settings"@, with_field(st, "clients"@, JsonV::Array(cs2))))),
                        k,
                    );
                }
            }
            assert(field(r7, k) == field(raw, k));
        }
    }
}

/// Fixing the `stats` section of an object leaves an object.
proof fn lemma_stats_fixed_object(r: JsonV)
    requires
        r is Object,
    ensures
        stats_fixed(r) is Object,
{
    if !(at(r, "stats"@) is Object) {
        lemma_with_field(r, "stats"@, JsonV::Object(Seq::empty()), "stats"@);
    }
}

/// The tag step of an object leaves an object.
proof fn lemma_tag_step_object(r5: JsonV)
    requires
        r5 is Object,
    ensures
        tag_step(r5) matches Ok((r6, _)) ==> r6 is Object,
{
    if let Ok((r6, _)) = tag_step(r5) {
        let q = vless_pos(r5);
        let is = inbounds_of(r5);
        let x = is[q];
        let cur = str_or_empty(at(x, "tag"@));
        if cur != "vless-in"@ {
            let v = JsonV::Array(is.update(q, with_field(x, "tag"@, JsonV::Str("vless-in"@))));
            lemma_with_field(r5, "inbounds"@, v, "inbounds"@);
            let t1 = with_field(r5, "inbounds"@, v);
            if cur.len() > 0 {
                if let Some(routing) = field(t1, "routing"@) {
                    if let Some(JsonV::Array(rs)) = field(routing, "rules"@) {
                        lemma_with_field(
                            t1,
                            "routing"@,
                            with_field(
                                routing,
                                "rules"@,
                                JsonV::Array(rs.map_values(|r: JsonV| rename_rule(r, cur, "vless-in"@))),
                            ),
                            "routing"@,
                        );
                    }
                }
            }
        }
    }
}

/// Enabling the API twice is enabling it once: on a config that
/// `enable_api` repaired successfully, a second call changes nothing and
/// reports no change.  This fails where the VLESS inbound is itself tagged
/// `api` behind a correct API inbound: renaming its tag renames the API
/// rule's inbound tag too, which the next call repairs again.
pub proof fn lemma_enable_api_idempotent(raw: JsonV, table: Seq<(Seq<char>, Seq<char>)>)
    requires
        enable_api_writable(raw, table),
        enable_api_outcome(raw, table).1 is Ok,
        !vless_tagged_api(raw),
    ensures
        enable_api_writable(enable_api_outcome(raw, table).0, table),
        enable_api_outcome(enable_api_outcome(raw, table).0, table) == (
            enable_api_outcome(raw, table).0,
            Ok::<bool, Seq<char>>(false),
        ),
{
    lemma_key_names();
    lemma_policy_stage(raw);
    let r3 = policy_stage(raw);
    lemma_routing_step(r3);
    let r4 = routing_step(r3).0;
    assert(field(r4, "inbounds"@) == field(r3, "inbounds"@));
    assert(field(r4, "api"@) == field(r3, "api"@));
    assert(field(r4, "stats"@) == field(r3, "stats"@));
    assert(field(r4, "policy"@) == field(r3, "policy"@));
    lemma_inbound_step(r4);
    let r5 = inbound_step(r4).0;
    assert(r5 == sections_step(raw).0);
    assert(field(r5, "routing"@) == field(r4, "routing"@));
    assert(field(r5, "api"@) == field(r4, "api"@));
    assert(field(r5, "stats"@) == field(r4, "stats"@));
    assert(field(r5, "policy"@) == field(r4, "policy"@));
    if !(at(r4, "inbounds"@) is Array) {
        assert(inbounds_of(r5) == Seq::<JsonV>::empty());
        assert(vless_pos(r5) == -1);
    }
    assert(inbound_ok(r5));
    lemma_tag_step(r5);
    let r6 = tag_step(r5)->Ok_0.0;
    lemma_email_step(r6, table);
    let r7 = email_step(r6, table)->Ok_0.0;
    assert(enable_api_outcome(raw, table).0 == r7);
    assert(api_complete(r7));
    assert(at(r7, "stats"@) is Object);
    assert(policy_complete(r7));
    assert(api_stage(r7) == r7);
    assert(stats_fixed(r7) == r7);
    assert(policy_stage(r7) == r7);
    assert(routing_step(r7) == (r7, false));
    assert(inbound_step(r7) == (r7, false));
    assert(sections_step(r7) == (r7, false));
    assert(tag_step(r7) == Ok::<(JsonV, bool), Seq<char>>((r7, false)));
    assert(email_step(r7, table) == Ok::<(JsonV, bool), Seq<char>>((r7, false)));
}

} // verus!
