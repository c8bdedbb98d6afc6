//! The Xray configs of the two hops: the bridge (clients in, XHTTP +
//! Reality out to the egress) and the egress (bridge in, freedom out).

use vstd::prelude::*;

use crate::json::{
    arr1, at, deep_seq, field, json_normal, json_parse, json_plain, json_pretty, json_str,
    key_index, lemma_deep_seq, lemma_key_index_is, lemma_normal_field, lemma_normal_seq, normal_seq,
    nth, obj1, obj2, obj3, obj4, render_pretty, with_entry, Json, JsonV,
};
use crate::xray::config_render::{bridge_clients_of, entries_view};
use crate::xray::server::str_or_empty;
use crate::text::{dec, owned, push_dec, push_str};
use crate::xray::config_render::ClientEntry;

verus! {

/// Where the bridge sends its traffic on: the egress server.
#[derive(Debug, Clone)]
pub struct EgressOutbound {
    pub address: String,
    pub port: u16,
    pub bridge_uuid: String,
    pub xhttp_path: String,
    pub reality_public_key: String,
    pub reality_short_id: String,
    pub server_name: String,
}

/// What the bridge config is made from.
#[derive(Debug, Clone)]
pub struct BridgeConfigInput {
    pub clients: Vec<ClientEntry>,
    pub reality_private_key: String,
    pub reality_short_id: String,
    pub xhttp_path: String,
    pub sni: String,
    pub egress_outbound: EgressOutbound,
}

/// What the egress config is made from.
#[derive(Debug, Clone)]
pub struct EgressConfigInput {
    pub bridge_uuid: String,
    pub port: u16,
    pub xhttp_path: String,
    pub reality_private_key: String,
    pub reality_short_id: String,
    pub domain: String,
    pub nginx_port: u16,
}

pub open spec fn s(x: Seq<char>) -> JsonV {
    JsonV::Str(x)
}

pub open spec fn o1(k1: Seq<char>, v1: JsonV) -> JsonV {
    JsonV::Object(seq![(k1, v1)])
}

pub open spec fn o2(k1: Seq<char>, v1: JsonV, k2: Seq<char>, v2: JsonV) -> JsonV {
    JsonV::Object(seq![(k1, v1), (k2, v2)])
}

pub open spec fn o3(k1: Seq<char>, v1: JsonV, k2: Seq<char>, v2: JsonV, k3: Seq<char>, v3: JsonV) -> JsonV {
    JsonV::Object(seq![(k1, v1), (k2, v2), (k3, v3)])
}

pub open spec fn o4(
    k1: Seq<char>,
    v1: JsonV,
    k2: Seq<char>,
    v2: JsonV,
    k3: Seq<char>,
    v3: JsonV,
    k4: Seq<char>,
    v4: JsonV,
) -> JsonV {
    JsonV::Object(seq![(k1, v1), (k2, v2), (k3, v3), (k4, v4)])
}

/// `o` with one more entry.
pub open spec fn plus(o: JsonV, k: Seq<char>, v: JsonV) -> JsonV {
    JsonV::Object(o->Object_0.push((k, v)))
}

pub open spec fn a1(v: JsonV) -> JsonV {
    JsonV::Array(seq![v])
}

/// The `log` section both configs share.
pub open spec fn log_section() -> JsonV {
    o3(
        "loglevel"@,
        s("warning"@),
        "access"@,
        s("/var/log/xray/access.log"@),
        "error"@,
        s("/var/log/xray/error.log"@),
    )
}

fn make_log_section() -> (r: Json)
    ensures
        r.deep() == log_section(),
{
    obj3(
        "loglevel",
        json_str("warning"),
        "access",
        json_str("/var/log/xray/access.log"),
        "error",
        json_str("/var/log/xray/error.log"),
    )
}

/// `text` then `:` and a port.
pub open spec fn host_port_text(text: Seq<char>, port: nat) -> Seq<char> {
    text + ":"@ + dec(port)
}

fn host_port_string(text: &str, port: u16) -> (r: String)
    ensures
        r@ == host_port_text(text@, port as nat),
{
    let mut r = owned(text);
    push_str(&mut r, ":");
    push_dec(&mut r, port as u64);
    r
}

/// An XHTTP + Reality inbound's stream settings.
pub open spec fn reality_in(path: Seq<char>, dest: Seq<char>, name: Seq<char>, key: Seq<char>, sid: Seq<char>) -> JsonV {
    o4(
        "network"@,
        s("xhttp"@),
        "security"@,
        s("reality"@),
        "xhttpSettings"@,
        o1("path"@, s(path)),
        "realitySettings"@,
        o4("dest"@, s(dest), "serverNames"@, a1(s(name)), "privateKey"@, s(key), "shortIds"@, a1(s(sid))),
    )
}

fn make_reality_in(path: &str, dest: &str, name: &str, key: &str, sid: &str) -> (r: Json)
    ensures
        r.deep() == reality_in(path@, dest@, name@, key@, sid@),
{
    obj4(
        "network",
        json_str("xhttp"),
        "security",
        json_str("reality"),
        "xhttpSettings",
        obj1("path", json_str(path)),
        "realitySettings",
        obj4(
            "dest",
            json_str(dest),
            "serverNames",
            arr1(json_str(name)),
            "privateKey",
            json_str(key),
            "shortIds",
            arr1(json_str(sid)),
        ),
    )
}

/// A VLESS inbound on 0.0.0.0.
pub open spec fn vless_inbound(port: u16, tag: Seq<char>, clients: JsonV, stream: JsonV) -> JsonV {
    plus(
        plus(
            o4("listen"@, s("0.0.0.0"@), "port"@, JsonV::UInt(port as u64), "tag"@, s(tag), "protocol"@, s("vless"@)),
            "settings"@,
            o2("clients"@, clients, "decryption"@, s("none"@)),
        ),
        "streamSettings"@,
        stream,
    )
}

fn make_vless_inbound(port: u16, tag: &str, clients: Json, stream: Json) -> (r: Json)
    ensures
        r.deep() == vless_inbound(port, tag@, clients.deep(), stream.deep()),
{
    let base = obj4(
        "listen",
        json_str("0.0.0.0"),
        "port",
        Json::UInt(port as u64),
        "tag",
        json_str(tag),
        "protocol",
        json_str("vless"),
    );
    let with_settings = with_entry(base, "settings", obj2("clients", clients, "decryption", json_str("none")));
    with_entry(with_settings, "streamSettings", stream)
}

/// The bridge's clients as `{id, email}` objects.
pub open spec fn clients_json(cs: Seq<ClientEntry>) -> JsonV {
    JsonV::Array(Seq::new(cs.len(), |i: int| o2("id"@, s(cs[i].uuid@), "email"@, s(cs[i].email@))))
}

fn make_clients(cs: &Vec<ClientEntry>) -> (r: Json)
    ensures
        r.deep() == clients_json(cs@),
{
    let mut out: Vec<Json> = Vec::new();
    let mut i: usize = 0;
    while i < cs.len()
        invariant
            i <= cs.len(),
            deep_seq(out@) == Seq::new(i as nat, |k: int| o2("id"@, s(cs@[k].uuid@), "email"@, s(cs@[k].email@))),
        decreases cs.len() - i,
    {
        let item = obj2("id", json_str(cs[i].uuid.as_str()), "email", json_str(cs[i].email.as_str()));
        let ghost before = out@;
        let ghost iv = item;
        out.push(item);
        proof {
            crate::json::lemma_deep_seq_push(before, iv);
            assert(deep_seq(out@) =~= Seq::new((i + 1) as nat, |k: int| o2("id"@, s(cs@[k].uuid@), "email"@, s(cs@[k].email@))));
        }
        i = i + 1;
    }
    assert(Seq::new(cs.len() as nat, |k: int| o2("id"@, s(cs@[k].uuid@), "email"@, s(cs@[k].email@))) =~= clients_json(cs@)->Array_0);
    Json::Array(out)
}

/// The bridge's outbound to the egress.
pub open spec fn egress_outbound(e: EgressOutbound) -> JsonV {
    o4(
        "tag"@,
        s("foreign-egress"@),
        "protocol"@,
        s("vless"@),
        "settings"@,
        o1(
            "vnext"@,
            a1(
                o3(
                    "address"@,
                    s(e.address@),
                    "port"@,
                    JsonV::UInt(e.port as u64),
                    "users"@,
                    a1(o2("id"@, s(e.bridge_uuid@), "encryption"@, s("none"@))),
                ),
            ),
        ),
        "streamSettings"@,
        o4(
            "network"@,
            s("xhttp"@),
            "security"@,
            s("reality"@),
            "xhttpSettings"@,
            o1("path"@, s(e.xhttp_path@)),
            "realitySettings"@,
            o4(
                "fingerprint"@,
                s("chrome"@),
                "serverName"@,
                s(e.server_name@),
                "publicKey"@,
                s(e.reality_public_key@),
                "shortId"@,
                s(e.reality_short_id@),
            ),
        ),
    )
}

fn make_egress_outbound(e: &EgressOutbound) -> (r: Json)
    ensures
        r.deep() == egress_outbound(*e),
{
    obj4(
        "tag",
        json_str("foreign-egress"),
        "protocol",
        json_str("vless"),
        "settings",
        obj1(
            "vnext",
            arr1(
                obj3(
                    "address",
                    json_str(e.address.as_str()),
                    "port",
                    Json::UInt(e.port as u64),
                    "users",
                    arr1(obj2("id", json_str(e.bridge_uuid.as_str()), "encryption", json_str("none"))),
                ),
            ),
        ),
        "streamSettings",
        obj4(
            "network",
            json_str("xhttp"),
            "security",
            json_str("reality"),
            "xhttpSettings",
            obj1("path", json_str(e.xhttp_path.as_str())),
            "realitySettings",
            obj4(
                "fingerprint",
                json_str("chrome"),
                "serverName",
                json_str(e.server_name.as_str()),
                "publicKey",
                json_str(e.reality_public_key.as_str()),
                "shortId",
                json_str(e.reality_short_id.as_str()),
            ),
        ),
    )
}

/// A routing rule of type `field` with one more key.
pub open spec fn rule(k: Seq<char>, v: JsonV, out: Seq<char>) -> JsonV {
    o3("type"@, s("field"@), k, v, "outboundTag"@, s(out))
}

fn make_rule(k: &str, v: Json, out: &str) -> (r: Json)
    ensures
        r.deep() == rule(k@, v.deep(), out@),
{
    obj3("type", json_str("field"), k, v, "outboundTag", json_str(out))
}

/// The bridge's routing: private and Russian destinations go out
/// directly, everything else to the egress.
pub open spec fn bridge_routing() -> JsonV {
    o2(
        "domainStrategy"@,
        s("IPIfNonMatch"@),
        "rules"@,
        JsonV::Array(
            seq![
                rule("ip"@, a1(s("geoip:private"@)), "direct"@),
                rule("domain"@, a1(s("geosite:category-ru"@)), "direct"@),
                rule("ip"@, a1(s("geoip:ru"@)), "direct"@),
                rule("network"@, s("tcp,udp"@), "foreign-egress"@),
            ],
        ),
    )
}

fn make_bridge_routing() -> (r: Json)
    ensures
        r.deep() == bridge_routing(),
{
    let r1 = make_rule("ip", arr1(json_str("geoip:private")), "direct");
    let r2 = make_rule("domain", arr1(json_str("geosite:category-ru")), "direct");
    let r3 = make_rule("ip", arr1(json_str("geoip:ru")), "direct");
    let r4 = make_rule("network", json_str("tcp,udp"), "foreign-egress");
    let ghost (d1, d2, d3, d4) = (r1.deep(), r2.deep(), r3.deep(), r4.deep());
    let rules = vec![r1, r2, r3, r4];
    proof {
        lemma_deep_seq(rules@);
        assert(deep_seq(rules@) =~= seq![d1, d2, d3, d4]);
    }
    obj2("domainStrategy", json_str("IPIfNonMatch"), "rules", Json::Array(rules))
}

/// The bridge config.
pub open spec fn bridge_config(i: BridgeConfigInput) -> JsonV {
    o4(
        "log"@,
        log_section(),
        "inbounds"@,
        a1(
            vless_inbound(
                443,
                "client-in"@,
                clients_json(i.clients@),
                reality_in(i.xhttp_path@, host_port_text(i.sni@, 443), i.sni@, i.reality_private_key@, i.reality_short_id@),
            ),
        ),
        "outbounds"@,
        JsonV::Array(
            seq![
                egress_outbound(i.egress_outbound),
                o2("protocol"@, s("freedom"@), "tag"@, s("direct"@)),
                o2("protocol"@, s("blackhole"@), "tag"@, s("block"@)),
            ],
        ),
        "routing"@,
        bridge_routing(),
    )
}

// ---- reading the bridge config back ----------------------------------------------------

proof fn lemma_plain_o1(k1: Seq<char>, v1: JsonV, c: nat)
    requires
        json_plain(v1, c),
    ensures
        json_plain(o1(k1, v1), c + 1),
{
    let es = seq![(k1, v1)];
    assert forall|i: int| 0 <= i < es.len() implies json_plain(#[trigger] es[i].1, c) by {}
}

proof fn lemma_plain_o2(k1: Seq<char>, v1: JsonV, k2: Seq<char>, v2: JsonV, c: nat)
    requires
        json_plain(v1, c),
        json_plain(v2, c),
    ensures
        json_plain(o2(k1, v1, k2, v2), c + 1),
{
    let es = seq![(k1, v1), (k2, v2)];
    assert forall|i: int| 0 <= i < es.len() implies json_plain(#[trigger] es[i].1, c) by {
        if i == 0 {
        } else {
        }
    }
}

proof fn lemma_plain_o3(k1: Seq<char>, v1: JsonV, k2: Seq<char>, v2: JsonV, k3: Seq<char>, v3: JsonV, c: nat)
    requires
        json_plain(v1, c),
        json_plain(v2, c),
        json_plain(v3, c),
    ensures
        json_plain(o3(k1, v1, k2, v2, k3, v3), c + 1),
{
    let es = seq![(k1, v1), (k2, v2), (k3, v3)];
    assert forall|i: int| 0 <= i < es.len() implies json_plain(#[trigger] es[i].1, c) by {
        if i == 0 {
        } else if i == 1 {
        } else {
        }
    }
}

proof fn lemma_plain_o4(
    k1: Seq<char>,
    v1: JsonV,
    k2: Seq<char>,
    v2: JsonV,
    k3: Seq<char>,
    v3: JsonV,
    k4: Seq<char>,
    v4: JsonV,
    c: nat,
)
    requires
        json_plain(v1, c),
        json_plain(v2, c),
        json_plain(v3, c),
        json_plain(v4, c),
    ensures
        json_plain(o4(k1, v1, k2, v2, k3, v3, k4, v4), c + 1),
{
    let es = seq![(k1, v1), (k2, v2), (k3, v3), (k4, v4)];
    assert forall|i: int| 0 <= i < es.len() implies json_plain(#[trigger] es[i].1, c) by {
        if i == 0 {
        } else if i == 1 {
        } else if i == 2 {
        } else {
        }
    }
}

proof fn lemma_plain_plus(o: JsonV, k: Seq<char>, v: JsonV, c: nat)
    requires
        o is Object,
        json_plain(o, c + 1),
        json_plain(v, c),
    ensures
        json_plain(plus(o, k, v), c + 1),
{
    let es = o->Object_0.push((k, v));
    assert forall|i: int| 0 <= i < es.len() implies json_plain(#[trigger] es[i].1, c) by {
        if i < o->Object_0.len() {
            assert(es[i] == o->Object_0[i]);
        }
    }
}

proof fn lemma_plain_a1(v: JsonV, c: nat)
    requires
        json_plain(v, c),
    ensures
        json_plain(a1(v), c + 1),
{
    let a = seq![v];
    assert forall|i: int| 0 <= i < a.len() implies json_plain(#[trigger] a[i], c) by {}
}

proof fn lemma_plain_arr(a: Seq<JsonV>, c: nat)
    requires
        forall|i: int| 0 <= i < a.len() ==> json_plain(#[trigger] a[i], c),
    ensures
        json_plain(JsonV::Array(a), c + 1),
{
}

proof fn lemma_plain_reality(path: Seq<char>, dest: Seq<char>, name: Seq<char>, key: Seq<char>, sid: Seq<char>, c: nat)
    ensures
        json_plain(reality_in(path, dest, name, key, sid), c + 3),
{
    lemma_plain_o1("path"@, s(path), c + 1);
    lemma_plain_a1(s(name), c);
    lemma_plain_a1(s(sid), c);
    lemma_plain_o4("dest"@, s(dest), "serverNames"@, a1(s(name)), "privateKey"@, s(key), "shortIds"@, a1(s(sid)), c + 1);
    lemma_plain_o4(
        "network"@,
        s("xhttp"@),
        "security"@,
        s("reality"@),
        "xhttpSettings"@,
        o1("path"@, s(path)),
        "realitySettings"@,
        o4("dest"@, s(dest), "serverNames"@, a1(s(name)), "privateKey"@, s(key), "shortIds"@, a1(s(sid))),
        c + 2,
    );
}

/// The bridge config holds only strings and small integers, a few levels
/// deep, so `serde_json` reads its text back exactly.
proof fn lemma_bridge_plain(i: BridgeConfigInput)
    ensures
        json_plain(bridge_config(i), 100),
{
    let cj = clients_json(i.clients@);
    let ca = cj->Array_0;
    assert forall|k: int| 0 <= k < ca.len() implies json_plain(#[trigger] ca[k], 95) by {
        lemma_plain_o2("id"@, s(i.clients@[k].uuid@), "email"@, s(i.clients@[k].email@), 94);
    }
    lemma_plain_arr(ca, 95);
    let settings = o2("clients"@, cj, "decryption"@, s("none"@));
    lemma_plain_o2("clients"@, cj, "decryption"@, s("none"@), 96);
    let base = o4("listen"@, s("0.0.0.0"@), "port"@, JsonV::UInt(443u16 as u64), "tag"@, s("client-in"@), "protocol"@, s("vless"@));
    lemma_plain_o4("listen"@, s("0.0.0.0"@), "port"@, JsonV::UInt(443u16 as u64), "tag"@, s("client-in"@), "protocol"@, s("vless"@), 97);
    lemma_plain_plus(base, "settings"@, settings, 97);
    let st = reality_in(i.xhttp_path@, host_port_text(i.sni@, 443), i.sni@, i.reality_private_key@, i.reality_short_id@);
    lemma_plain_reality(i.xhttp_path@, host_port_text(i.sni@, 443), i.sni@, i.reality_private_key@, i.reality_short_id@, 94);
    lemma_plain_plus(plus(base, "settings"@, settings), "streamSettings"@, st, 97);
    let ib = vless_inbound(443, "client-in"@, cj, st);
    lemma_plain_a1(ib, 98);
    lemma_plain_o3("loglevel"@, s("warning"@), "access"@, s("/var/log/xray/access.log"@), "error"@, s("/var/log/xray/error.log"@), 98);
    let e = i.egress_outbound;
    let user = o2("id"@, s(e.bridge_uuid@), "encryption"@, s("none"@));
    lemma_plain_o2("id"@, s(e.bridge_uuid@), "encryption"@, s("none"@), 92);
    lemma_plain_a1(user, 93);
    let vn = o3("address"@, s(e.address@), "port"@, JsonV::UInt(e.port as u64), "users"@, a1(user));
    lemma_plain_o3("address"@, s(e.address@), "port"@, JsonV::UInt(e.port as u64), "users"@, a1(user), 94);
    lemma_plain_a1(vn, 95);
    lemma_plain_o1("vnext"@, a1(vn), 96);
    lemma_plain_o1("path"@, s(e.xhttp_path@), 95);
    let rs = o4("fingerprint"@, s("chrome"@), "serverName"@, s(e.server_name@), "publicKey"@, s(e.reality_public_key@), "shortId"@, s(e.reality_short_id@));
    lemma_plain_o4("fingerprint"@, s("chrome"@), "serverName"@, s(e.server_name@), "publicKey"@, s(e.reality_public_key@), "shortId"@, s(e.reality_short_id@), 95);
    let ess = o4("network"@, s("xhttp"@), "security"@, s("reality"@), "xhttpSettings"@, o1("path"@, s(e.xhttp_path@)), "realitySettings"@, rs);
    lemma_plain_o4("network"@, s("xhttp"@), "security"@, s("reality"@), "xhttpSettings"@, o1("path"@, s(e.xhttp_path@)), "realitySettings"@, rs, 96);
    lemma_plain_o4("tag"@, s("foreign-egress"@), "protocol"@, s("vless"@), "settings"@, o1("vnext"@, a1(vn)), "streamSettings"@, ess, 97);
    assert(egress_outbound(e) == o4("tag"@, s("foreign-egress"@), "protocol"@, s("vless"@), "settings"@, o1("vnext"@, a1(vn)), "streamSettings"@, ess));
    lemma_plain_o2("protocol"@, s("freedom"@), "tag"@, s("direct"@), 97);
    lemma_plain_o2("protocol"@, s("blackhole"@), "tag"@, s("block"@), 97);
    let outs = seq![
        egress_outbound(e),
        o2("protocol"@, s("freedom"@), "tag"@, s("direct"@)),
        o2("protocol"@, s("blackhole"@), "tag"@, s("block"@)),
    ];
    assert forall|k: int| 0 <= k < outs.len() implies json_plain(#[trigger] outs[k], 98) by {
        if k == 0 {
        } else if k == 1 {
        } else {
        }
    }
    lemma_plain_arr(outs, 98);
    lemma_plain_a1(s("geoip:private"@), 95);
    lemma_plain_a1(s("geosite:category-ru"@), 95);
    lemma_plain_a1(s("geoip:ru"@), 95);
    lemma_plain_o3("type"@, s("field"@), "ip"@, a1(s("geoip:private"@)), "outboundTag"@, s("direct"@), 96);
    lemma_plain_o3("type"@, s("field"@), "domain"@, a1(s("geosite:category-ru"@)), "outboundTag"@, s("direct"@), 96);
    lemma_plain_o3("type"@, s("field"@), "ip"@, a1(s("geoip:ru"@)), "outboundTag"@, s("direct"@), 96);
    lemma_plain_o3("type"@, s("field"@), "network"@, s("tcp,udp"@), "outboundTag"@, s("foreign-egress"@), 96);
    let rules = seq![
        rule("ip"@, a1(s("geoip:private"@)), "direct"@),
        rule("domain"@, a1(s("geosite:category-ru"@)), "direct"@),
        rule("ip"@, a1(s("geoip:ru"@)), "direct"@),
        rule("network"@, s("tcp,udp"@), "foreign-egress"@),
    ];
    assert forall|k: int| 0 <= k < rules.len() implies json_plain(#[trigger] rules[k], 97) by {
        if k == 0 {
        } else if k == 1 {
        } else if k == 2 {
        } else {
        }
    }
    lemma_plain_arr(rules, 97);
    lemma_plain_o2("domainStrategy"@, s("IPIfNonMatch"@), "rules"@, JsonV::Array(rules), 98);
    lemma_plain_o4(
        "log"@,
        log_section(),
        "inbounds"@,
        a1(ib),
        "outbounds"@,
        JsonV::Array(outs),
        "routing"@,
        bridge_routing(),
        99,
    );
}

/// The entry of key `k` of a two-entry object, normalized.
proof fn lemma_o2_normal_at(k1: Seq<char>, v1: JsonV, k2: Seq<char>, v2: JsonV)
    requires
        k1 != k2,
    ensures
        at(json_normal(o2(k1, v1, k2, v2)), k1) == json_normal(v1),
        at(json_normal(o2(k1, v1, k2, v2)), k2) == json_normal(v2),
{
    let es = seq![(k1, v1), (k2, v2)];
    lemma_normal_field(es, k1);
    lemma_normal_field(es, k2);
    lemma_key_index_is(es, k1, 0);
    lemma_key_index_is(es, k2, 1);
}

/// The clients read back from the text of the bridge config are the
/// clients it was made with, in order.
proof fn lemma_bridge_read_back(i: BridgeConfigInput, raw: Seq<char>)
    requires
        json_parse(raw) == Ok::<JsonV, Seq<char>>(json_normal(bridge_config(i))),
    ensures
        bridge_clients_of(raw) == Ok::<Seq<(Seq<char>, Seq<char>)>, Seq<char>>(entries_view(i.clients@)),
{
    reveal_strlit("log");
    reveal_strlit("inbounds");
    reveal_strlit("outbounds");
    reveal_strlit("routing");
    reveal_strlit("listen");
    reveal_strlit("port");
    reveal_strlit("tag");
    reveal_strlit("protocol");
    reveal_strlit("settings");
    reveal_strlit("streamSettings");
    reveal_strlit("network");
    reveal_strlit("security");
    reveal_strlit("xhttpSettings");
    reveal_strlit("realitySettings");
    reveal_strlit("clients");
    reveal_strlit("decryption");
    reveal_strlit("id");
    reveal_strlit("email");
    let cj = clients_json(i.clients@);
    let st = reality_in(i.xhttp_path@, host_port_text(i.sni@, 443), i.sni@, i.reality_private_key@, i.reality_short_id@);
    let ib = vless_inbound(443, "client-in"@, cj, st);
    let b = bridge_config(i);
    let bes = b->Object_0;
    // the first inbound
    assert(bes[0].0 == "log"@ && bes[1].0 == "inbounds"@ && bes[2].0 == "outbounds"@ && bes[3].0 == "routing"@);
    assert("log"@.len() == 3 && "inbounds"@.len() == 8 && "outbounds"@.len() == 9 && "routing"@.len() == 7);
    assert(bes[0].0 != "inbounds"@ && bes[2].0 != "inbounds"@ && bes[3].0 != "inbounds"@);
    lemma_normal_field(bes, "inbounds"@);
    lemma_key_index_is(bes, "inbounds"@, 1);
    lemma_normal_seq(seq![ib]);
    let nib = json_normal(ib);
    assert(nth(at(json_normal(b), "inbounds"@), 0) == nib);
    // its stream settings and settings
    let ies = ib->Object_0;
    assert(ies.len() == 6);
    assert(ies[5].0 == "streamSettings"@ && ies[4].0 == "settings"@);
    assert(ies[0].0 == "listen"@ && ies[1].0 == "port"@ && ies[2].0 == "tag"@ && ies[3].0 == "protocol"@);
    assert("listen"@.len() == 6 && "port"@.len() == 4 && "tag"@.len() == 3 && "protocol"@.len() == 8);
    assert("settings"@.len() == 8 && "streamSettings"@.len() == 14);
    assert("protocol"@[0] == 'p' && "settings"@[0] == 's');
    assert(ies[0].0 != "settings"@ && ies[1].0 != "settings"@ && ies[2].0 != "settings"@ && ies[3].0 != "settings"@);
    assert(ies[5].0 != "settings"@);
    assert(ies[0].0 != "streamSettings"@ && ies[1].0 != "streamSettings"@ && ies[2].0 != "streamSettings"@);
    assert(ies[3].0 != "streamSettings"@ && ies[4].0 != "streamSettings"@);
    lemma_normal_field(ies, "streamSettings"@);
    lemma_normal_field(ies, "settings"@);
    lemma_key_index_is(ies, "streamSettings"@, 5);
    lemma_key_index_is(ies, "settings"@, 4);
    assert(at(nib, "streamSettings"@) == json_normal(st));
    assert(at(nib, "settings"@) == json_normal(o2("clients"@, cj, "decryption"@, s("none"@))));
    let ses = st->Object_0;
    assert(ses[0].0 == "network"@ && ses[1].0 == "security"@ && ses[2].0 == "xhttpSettings"@ && ses[3].0 == "realitySettings"@);
    assert("network"@.len() == 7 && "security"@.len() == 8 && "xhttpSettings"@.len() == 13 && "realitySettings"@.len() == 15);
    assert("clients"@.len() == 7 && "decryption"@.len() == 10 && "id"@.len() == 2 && "email"@.len() == 5);
    assert(ses[0].0 != "security"@ && ses[2].0 != "network"@ && ses[3].0 != "network"@);
    assert(ses[2].0 != "security"@ && ses[3].0 != "security"@ && ses[1].0 != "network"@);
    lemma_normal_field(ses, "network"@);
    lemma_normal_field(ses, "security"@);
    lemma_key_index_is(ses, "network"@, 0);
    lemma_key_index_is(ses, "security"@, 1);
    assert(str_or_empty(at(at(nib, "streamSettings"@), "network"@)) == "xhttp"@);
    assert(str_or_empty(at(at(nib, "streamSettings"@), "security"@)) == "reality"@);
    lemma_o2_normal_at("clients"@, cj, "decryption"@, s("none"@));
    let ca = cj->Array_0;
    lemma_normal_seq(ca);
    let ncs = normal_seq(ca);
    assert(at(at(nib, "settings"@), "clients"@) == JsonV::Array(ncs));
    let got = ncs.map_values(|c: JsonV| (str_or_empty(at(c, "id"@)), str_or_empty(at(c, "email"@))));
    assert forall|k: int| 0 <= k < got.len() implies got[k] == entries_view(i.clients@)[k] by {
        lemma_o2_normal_at("id"@, s(i.clients@[k].uuid@), "email"@, s(i.clients@[k].email@));
        assert(ca[k] == o2("id"@, s(i.clients@[k].uuid@), "email"@, s(i.clients@[k].email@)));
    }
    assert(got =~= entries_view(i.clients@));
}

/// Renders the bridge config as pretty JSON.  Its text parses back as the
/// config's tree, as `serde_json` keeps it, and `parse_bridge_config`
/// reads from it the clients it was made with.
pub fn render_bridge_config(input: &BridgeConfigInput) -> (r: Result<String, crate::error::AppError>)
    ensures
        r matches Ok(t) && t@ == json_pretty(json_normal(bridge_config(*input))),
        r matches Ok(t) && json_parse(t@) == Ok::<JsonV, Seq<char>>(json_normal(bridge_config(*input))),
        r matches Ok(t) && bridge_clients_of(t@) == Ok::<Seq<(Seq<char>, Seq<char>)>, Seq<char>>(
            entries_view(input.clients@),
        ),
{
    let dest = host_port_string(input.sni.as_str(), 443);
    let stream = make_reality_in(
        input.xhttp_path.as_str(),
        dest.as_str(),
        input.sni.as_str(),
        input.reality_private_key.as_str(),
        input.reality_short_id.as_str(),
    );
    let inbound = make_vless_inbound(443, "client-in", make_clients(&input.clients), stream);
    let o1v = make_egress_outbound(&input.egress_outbound);
    let o2v = obj2("protocol", json_str("freedom"), "tag", json_str("direct"));
    let o3v = obj2("protocol", json_str("blackhole"), "tag", json_str("block"));
    let ghost (d1, d2, d3) = (o1v.deep(), o2v.deep(), o3v.deep());
    let outbounds = vec![o1v, o2v, o3v];
    proof {
        lemma_deep_seq(outbounds@);
        assert(deep_seq(outbounds@) =~= seq![d1, d2, d3]);
    }
    let config = obj4(
        "log",
        make_log_section(),
        "inbounds",
        arr1(inbound),
        "outbounds",
        Json::Array(outbounds),
        "routing",
        make_bridge_routing(),
    );
    let text = render_pretty(&config);
    proof {
        lemma_bridge_plain(*input);
        lemma_bridge_read_back(*input, text@);
    }
    Ok(text)
}

/// The egress config.
pub open spec fn egress_config(i: EgressConfigInput) -> JsonV {
    o3(
        "log"@,
        log_section(),
        "inbounds"@,
        a1(
            vless_inbound(
                i.port,
                "bridge-in"@,
                a1(o2("id"@, s(i.bridge_uuid@), "email"@, s("bridge@vpn"@))),
                reality_in(
                    i.xhttp_path@,
                    host_port_text("127.0.0.1"@, i.nginx_port as nat),
                    i.domain@,
                    i.reality_private_key@,
                    i.reality_short_id@,
                ),
            ),
        ),
        "outbounds"@,
        a1(o2("protocol"@, s("freedom"@), "tag"@, s("direct"@))),
    )
}

/// The egress config holds only strings and small integers, a few levels
/// deep, so `serde_json` reads its text back exactly.
proof fn lemma_egress_plain(i: EgressConfigInput)
    ensures
        json_plain(egress_config(i), 100),
{
    let client = o2("id"@, s(i.bridge_uuid@), "email"@, s("bridge@vpn"@));
    lemma_plain_o2("id"@, s(i.bridge_uuid@), "email"@, s("bridge@vpn"@), 94);
    lemma_plain_a1(client, 95);
    let cj = a1(client);
    let settings = o2("clients"@, cj, "decryption"@, s("none"@));
    lemma_plain_o2("clients"@, cj, "decryption"@, s("none"@), 96);
    let base = o4("listen"@, s("0.0.0.0"@), "port"@, JsonV::UInt(i.port as u64), "tag"@, s("bridge-in"@), "protocol"@, s("vless"@));
    lemma_plain_o4("listen"@, s("0.0.0.0"@), "port"@, JsonV::UInt(i.port as u64), "tag"@, s("bridge-in"@), "protocol"@, s("vless"@), 97);
    lemma_plain_plus(base, "settings"@, settings, 97);
    let dest = host_port_text("127.0.0.1"@, i.nginx_port as nat);
    let st = reality_in(i.xhttp_path@, dest, i.domain@, i.reality_private_key@, i.reality_short_id@);
    lemma_plain_reality(i.xhttp_path@, dest, i.domain@, i.reality_private_key@, i.reality_short_id@, 94);
    lemma_plain_plus(plus(base, "settings"@, settings), "streamSettings"@, st, 97);
    let ib = vless_inbound(i.port, "bridge-in"@, cj, st);
    lemma_plain_a1(ib, 98);
    lemma_plain_o3("loglevel"@, s("warning"@), "access"@, s("/var/log/xray/access.log"@), "error"@, s("/var/log/xray/error.log"@), 98);
    let out = o2("protocol"@, s("freedom"@), "tag"@, s("direct"@));
    lemma_plain_o2("protocol"@, s("freedom"@), "tag"@, s("direct"@), 97);
    lemma_plain_a1(out, 98);
    lemma_plain_o3("log"@, log_section(), "inbounds"@, a1(ib), "outbounds"@, a1(out), 99);
}

/// Renders the egress config as pretty JSON.  Its text parses back as the
/// config's tree, as `serde_json` keeps it.
pub fn render_egress_config(input: &EgressConfigInput) -> (r: Result<String, crate::error::AppError>)
    ensures
        r matches Ok(t) && t@ == json_pretty(json_normal(egress_config(*input))),
        r matches Ok(t) && json_parse(t@) == Ok::<JsonV, Seq<char>>(json_normal(egress_config(*input))),
{
    let dest = host_port_string("127.0.0.1", input.nginx_port);
    let stream = make_reality_in(
        input.xhttp_path.as_str(),
        dest.as_str(),
        input.domain.as_str(),
        input.reality_private_key.as_str(),
        input.reality_short_id.as_str(),
    );
    let clients = arr1(obj2("id", json_str(input.bridge_uuid.as_str()), "email", json_str("bridge@vpn")));
    let inbound = make_vless_inbound(input.port, "bridge-in", clients, stream);
    let config = obj3(
        "log",
        make_log_section(),
        "inbounds",
        arr1(inbound),
        "outbounds",
        arr1(obj2("protocol", json_str("freedom"), "tag", json_str("direct"))),
    );
    let text = render_pretty(&config);
    proof {
        lemma_egress_plain(*input);
    }
    Ok(text)
}

} // verus!
