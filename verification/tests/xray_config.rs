use amnezia_xray_admin::json::Json;
use amnezia_xray_admin::xray::config::{enable_api, normalize_vless_tag, try_enable_api, API_LISTEN_PORT};
use amnezia_xray_admin::xray::server::{ClientsTable, ServerConfig};

fn sample_server_json() -> &'static str {
    r#"{
        "inbounds": [
            {
                "listen": "0.0.0.0",
                "port": 443,
                "protocol": "vless",
                "settings": {
                    "clients": [
                        {
                            "id": "aaaaaaaa-1111-2222-3333-bbbbbbbbbbbb",
                            "flow": "xtls-rprx-vision"
                        },
                        {
                            "id": "cccccccc-4444-5555-6666-dddddddddddd",
                            "flow": "xtls-rprx-vision",
                            "email": "alice@vpn"
                        }
                    ],
                    "decryption": "none"
                },
                "streamSettings": {
                    "network": "tcp",
                    "security": "reality",
                    "realitySettings": {
                        "dest": "www.googletagmanager.com:443",
                        "serverNames": ["www.googletagmanager.com"],
                        "privateKey": "test-private-key",
                        "shortIds": ["abcd1234"]
                    }
                }
            }
        ],
        "outbounds": [
            {"protocol": "freedom", "tag": "direct"}
        ]
    }"#
}

fn sample_clients_table() -> &'static str {
    r#"[
        {"clientId": "aaaaaaaa-1111-2222-3333-bbbbbbbbbbbb", "userData": {"clientName": "bob", "creationDate": ""}},
        {"clientId": "cccccccc-4444-5555-6666-dddddddddddd", "userData": {"clientName": "alice", "creationDate": ""}}
    ]"#
}

fn sample_server_json_with_api() -> &'static str {
    r#"{
        "api": {"tag": "api", "services": ["HandlerService", "StatsService"]},
        "stats": {},
        "policy": {
            "levels": {"0": {"statsUserUplink": true, "statsUserDownlink": true}},
            "system": {"statsInboundUplink": true, "statsInboundDownlink": true}
        },
        "routing": {
            "rules": [{"inboundTag": ["api"], "outboundTag": "api", "type": "field"}]
        },
        "inbounds": [
            {
                "tag": "api",
                "port": 8080,
                "listen": "127.0.0.1",
                "protocol": "dokodemo-door",
                "settings": {"address": "127.0.0.1"}
            },
            {
                "tag": "vless-in",
                "listen": "0.0.0.0",
                "port": 443,
                "protocol": "vless",
                "settings": {
                    "clients": [
                        {"id": "uuid1", "flow": "xtls-rprx-vision", "email": "bob@vpn"}
                    ],
                    "decryption": "none"
                }
            }
        ],
        "outbounds": [{"protocol": "freedom", "tag": "direct"}]
    }"#
}

/// `j[k1][k2]...`, with `null` where a key is missing.
fn path<'a>(j: &'a Json, keys: &[&str]) -> Option<&'a Json> {
    let mut cur = j;
    for k in keys {
        cur = cur.get(k)?;
    }
    Some(cur)
}

fn str_at<'a>(j: &'a Json, keys: &[&str]) -> Option<&'a str> {
    path(j, keys).and_then(|v| v.as_str())
}

fn array_at<'a>(j: &'a Json, keys: &[&str]) -> &'a Vec<Json> {
    path(j, keys).and_then(|v| v.as_array()).expect("array")
}

fn bool_at(j: &Json, keys: &[&str]) -> Option<bool> {
    path(j, keys).and_then(|v| v.as_bool())
}

/// The config as `serde_json` reads its text.
fn raw(c: &ServerConfig) -> serde_json::Value {
    serde_json::from_str(&c.to_json()).unwrap()
}

fn parse_both(server: &str, table: &str) -> (ServerConfig, ClientsTable) {
    (ServerConfig::parse(server).unwrap(), ClientsTable::parse(table).unwrap())
}

#[test]
fn test_enable_api_transforms_config() {
    let (mut config, table) = parse_both(sample_server_json(), sample_clients_table());

    assert!(!config.has_api());
    let modified = enable_api(&mut config, &table).unwrap();
    assert!(modified);
    assert!(config.has_api());

    assert_eq!(str_at(&config.raw, &["api", "tag"]), Some("api"));
    let services = array_at(&config.raw, &["api", "services"]);
    assert!(services.iter().any(|s| s.as_str() == Some("HandlerService")));
    assert!(services.iter().any(|s| s.as_str() == Some("StatsService")));
}

#[test]
fn test_enable_api_adds_stats_section() {
    let (mut config, table) = parse_both(sample_server_json(), sample_clients_table());
    enable_api(&mut config, &table).unwrap();
    assert!(config.raw.get("stats").is_some());
}

#[test]
fn test_enable_api_adds_policy_section() {
    let (mut config, table) = parse_both(sample_server_json(), sample_clients_table());
    enable_api(&mut config, &table).unwrap();
    assert_eq!(bool_at(&config.raw, &["policy", "levels", "0", "statsUserUplink"]), Some(true));
    assert_eq!(bool_at(&config.raw, &["policy", "levels", "0", "statsUserDownlink"]), Some(true));
    assert_eq!(bool_at(&config.raw, &["policy", "system", "statsInboundUplink"]), Some(true));
    assert_eq!(bool_at(&config.raw, &["policy", "system", "statsInboundDownlink"]), Some(true));
}

#[test]
fn test_enable_api_adds_routing_rule() {
    let (mut config, table) = parse_both(sample_server_json(), sample_clients_table());
    enable_api(&mut config, &table).unwrap();

    let rules = array_at(&config.raw, &["routing", "rules"]);
    assert!(!rules.is_empty());
    let api_rule = &rules[0];
    assert_eq!(str_at(api_rule, &["outboundTag"]), Some("api"));
    let inbound_tags = array_at(api_rule, &["inboundTag"]);
    assert!(inbound_tags.iter().any(|t| t.as_str() == Some("api")));
}

#[test]
fn test_enable_api_adds_dokodemo_door_inbound() {
    let (mut config, table) = parse_both(sample_server_json(), sample_clients_table());
    enable_api(&mut config, &table).unwrap();

    let inbounds = array_at(&config.raw, &["inbounds"]);
    let api_inbound = inbounds
        .iter()
        .find(|ib| str_at(ib, &["tag"]) == Some("api"))
        .expect("API inbound should exist");

    assert_eq!(path(api_inbound, &["port"]).and_then(|p| p.as_u64()), Some(API_LISTEN_PORT as u64));
    assert_eq!(str_at(api_inbound, &["listen"]), Some("127.0.0.1"));
    assert_eq!(str_at(api_inbound, &["protocol"]), Some("dokodemo-door"));
}

#[test]
fn test_enable_api_tags_vless_inbound() {
    let (mut config, table) = parse_both(sample_server_json(), sample_clients_table());
    enable_api(&mut config, &table).unwrap();

    let inbounds = array_at(&config.raw, &["inbounds"]);
    let vless_inbound = inbounds
        .iter()
        .find(|ib| str_at(ib, &["protocol"]) == Some("vless"))
        .expect("VLESS inbound should exist");
    assert_eq!(str_at(vless_inbound, &["tag"]), Some("vless-in"));
}

#[test]
fn test_enable_api_adds_email_to_clients() {
    let (mut config, table) = parse_both(sample_server_json(), sample_clients_table());
    enable_api(&mut config, &table).unwrap();

    let clients = config.clients();
    let bob = clients
        .iter()
        .find(|c| c.id == "aaaaaaaa-1111-2222-3333-bbbbbbbbbbbb")
        .unwrap();
    assert_eq!(bob.email, Some("bob@vpn".to_string()));

    let alice = clients
        .iter()
        .find(|c| c.id == "cccccccc-4444-5555-6666-dddddddddddd")
        .unwrap();
    assert_eq!(alice.email, Some("alice@vpn".to_string()));
}

#[test]
fn test_enable_api_skips_if_already_enabled() {
    let (mut config, table) = parse_both(sample_server_json_with_api(), sample_clients_table());
    let modified = enable_api(&mut config, &table).unwrap();
    assert!(!modified);
}

#[test]
fn test_enable_api_preserves_existing_fields() {
    let (mut config, table) = parse_both(sample_server_json(), sample_clients_table());
    enable_api(&mut config, &table).unwrap();

    let outbounds = array_at(&config.raw, &["outbounds"]);
    assert_eq!(outbounds.len(), 1);
    assert_eq!(str_at(&outbounds[0], &["protocol"]), Some("freedom"));

    let vless = array_at(&config.raw, &["inbounds"])
        .iter()
        .find(|ib| str_at(ib, &["protocol"]) == Some("vless"))
        .unwrap();
    assert_eq!(str_at(vless, &["streamSettings", "security"]), Some("reality"));
    assert_eq!(path(vless, &["port"]).and_then(|p| p.as_u64()), Some(443));
}

#[test]
fn test_enable_api_already_normalized_returns_false() {
    let (mut config, table) = parse_both(sample_server_json_with_api(), sample_clients_table());
    let modified = enable_api(&mut config, &table).unwrap();
    assert!(!modified, "fully configured server should not be modified");
}

#[test]
fn enable_api_second_run_changes_nothing() {
    let (mut config, table) = parse_both(sample_server_json(), sample_clients_table());
    assert!(enable_api(&mut config, &table).unwrap());
    let first = config.to_json();
    assert!(!enable_api(&mut config, &table).unwrap());
    assert_eq!(config.to_json(), first);
}

#[test]
fn enable_api_missing_clients_array_errors() {
    let json = r#"{"inbounds": [{"protocol": "vless", "settings": {}}]}"#;
    let (mut config, table) = parse_both(json, "[]");
    let err = enable_api(&mut config, &table).unwrap_err();
    assert_eq!(err.message(), "Xray error: no clients array found");
}

#[test]
fn server_config_parse_rejects_malformed_json() {
    let err = ServerConfig::parse("{not json").unwrap_err();
    assert!(err.message().starts_with("Xray error: failed to parse server config: "));
    let err = ClientsTable::parse("{}").unwrap_err();
    assert_eq!(err.message(), "Xray error: clients table is not a JSON array");
}

#[test]
fn clients_table_names_by_id() {
    let table = ClientsTable::parse(sample_clients_table()).unwrap();
    assert_eq!(table.name_for_uuid("cccccccc-4444-5555-6666-dddddddddddd"), Some("alice"));
    assert_eq!(table.name_for_uuid("nope"), None);
}

#[test]
fn server_config_round_trips_through_text() {
    let (mut config, table) = parse_both(sample_server_json(), sample_clients_table());
    enable_api(&mut config, &table).unwrap();
    let text = config.to_json();
    let config2 = ServerConfig::parse(&text).unwrap();
    assert!(config2.has_api());
    assert_eq!(config2.clients().len(), 2);
}

#[test]
fn test_enable_api_client_without_table_entry_uses_uuid() {
    let json = r#"{
        "inbounds": [{
            "protocol": "vless",
            "settings": {
                "clients": [
                    {"id": "unknown-uuid", "flow": "xtls-rprx-vision"}
                ]
            }
        }]
    }"#;
    let mut config = ServerConfig::parse(json).unwrap();
    let table = ClientsTable::parse("[]").unwrap();

    enable_api(&mut config, &table).unwrap();

    let clients = config.clients();
    assert_eq!(clients[0].email, Some("unknown-uuid@vpn".to_string()));
}

#[test]
fn test_enable_api_existing_routing_preserved() {
    let json = r#"{
        "inbounds": [{
            "protocol": "vless",
            "settings": {
                "clients": [{"id": "uuid1", "flow": "xtls-rprx-vision"}]
            }
        }],
        "routing": {
            "rules": [
                {"type": "field", "outboundTag": "block", "domain": ["geosite:category-ads"]}
            ]
        }
    }"#;
    let mut config = ServerConfig::parse(json).unwrap();
    let table = ClientsTable::parse("[]").unwrap();

    enable_api(&mut config, &table).unwrap();

    let config_raw = raw(&config);
    let rules = config_raw["routing"]["rules"].as_array().unwrap();
    // API rule should be first, existing rule preserved
    assert_eq!(rules.len(), 2);
    assert_eq!(rules[0]["outboundTag"], "api");
    assert_eq!(rules[1]["outboundTag"], "block");
}

#[test]
fn test_enable_api_preserves_existing_tag() {
    let json = r#"{
        "inbounds": [{
            "protocol": "vless",
            "tag": "my-custom-tag",
            "settings": {
                "clients": [{"id": "uuid1", "flow": "xtls-rprx-vision"}]
            }
        }]
    }"#;
    let mut config = ServerConfig::parse(json).unwrap();
    let table = ClientsTable::parse("[]").unwrap();

    enable_api(&mut config, &table).unwrap();

    let config_raw = raw(&config);
    let vless = config_raw["inbounds"]
        .as_array()
        .unwrap()
        .iter()
        .find(|ib| ib["protocol"] == "vless")
        .unwrap();
    // Should normalize tag to "vless-in" for consistency with API commands
    assert_eq!(vless["tag"], "vless-in");
}

#[test]
fn test_enable_api_roundtrip_json() {
    let mut config = ServerConfig::parse(sample_server_json()).unwrap();
    let table = ClientsTable::parse(sample_clients_table()).unwrap();

    enable_api(&mut config, &table).unwrap();

    // Roundtrip through JSON
    let json = config.to_json();
    let config2 = ServerConfig::parse(&json).unwrap();
    assert!(config2.has_api());
    assert_eq!(config2.clients().len(), 2);
}

#[test]
fn test_enable_api_no_vless_inbound_errors() {
    let json = r#"{
        "inbounds": [{"protocol": "vmess", "settings": {"clients": []}}]
    }"#;
    let mut config = ServerConfig::parse(json).unwrap();
    let table = ClientsTable::parse("[]").unwrap();

    let result = enable_api(&mut config, &table);
    assert!(result.is_err());
}

#[test]
fn test_enable_api_normalizes_partial_config() {
    // Server has API section but missing vless-in tag and client emails
    let json = r#"{
        "api": {"tag": "api", "services": ["HandlerService", "StatsService"]},
        "stats": {},
        "policy": {"levels": {"0": {"statsUserUplink": true, "statsUserDownlink": true}}},
        "inbounds": [{
            "protocol": "vless",
            "tag": "custom-tag",
            "settings": {
                "clients": [
                    {"id": "uuid-1", "flow": "xtls-rprx-vision"}
                ]
            }
        }]
    }"#;
    let mut config = ServerConfig::parse(json).unwrap();
    let table = ClientsTable::parse(
        r#"[{"clientId": "uuid-1", "userData": {"clientName": "alice", "creationDate": ""}}]"#,
    )
    .unwrap();

    // API already exists, but tag and emails need fixing
    assert!(config.has_api());
    let modified = enable_api(&mut config, &table).unwrap();
    assert!(
        modified,
        "should report modified when tag/emails were normalized"
    );

    // Verify tag was normalized
    let config_raw = raw(&config);
    let vless = config_raw["inbounds"]
        .as_array()
        .unwrap()
        .iter()
        .find(|ib| ib["protocol"] == "vless")
        .unwrap();
    assert_eq!(vless["tag"], "vless-in");

    // Verify email was added
    let clients = config.clients();
    assert_eq!(clients[0].email, Some("alice@vpn".to_string()));
}

#[test]
fn test_enable_api_repairs_missing_sections_when_api_exists() {
    // Server has api key but is missing stats, policy, routing rule, and api inbound
    let json = r#"{
        "api": {"tag": "api", "services": ["HandlerService", "StatsService"]},
        "inbounds": [{
            "protocol": "vless",
            "tag": "vless-in",
            "settings": {
                "clients": [
                    {"id": "uuid-1", "flow": "xtls-rprx-vision", "email": "alice@vpn", "level": 0}
                ],
                "decryption": "none"
            }
        }],
        "outbounds": [{"protocol": "freedom", "tag": "direct"}]
    }"#;
    let mut config = ServerConfig::parse(json).unwrap();
    let table = ClientsTable::parse(
        r#"[{"clientId": "uuid-1", "userData": {"clientName": "alice", "creationDate": ""}}]"#,
    )
    .unwrap();

    assert!(config.has_api());
    let modified = enable_api(&mut config, &table).unwrap();
    assert!(
        modified,
        "should add missing stats/policy/routing/inbound sections"
    );

    // Verify stats was added
    let config_raw = raw(&config);
    assert!(config_raw.get("stats").is_some(), "stats section missing");

    // Verify policy was added
    let policy = config_raw.get("policy").expect("policy section missing");
    assert_eq!(policy["levels"]["0"]["statsUserUplink"], true);

    // Verify routing rule was added
    let rules = config_raw["routing"]["rules"].as_array().unwrap();
    assert!(
        rules.iter().any(|r| r["outboundTag"] == "api"),
        "api routing rule missing"
    );

    // Verify api inbound was added
    let inbounds = config_raw["inbounds"].as_array().unwrap();
    assert!(
        inbounds
            .iter()
            .any(|ib| ib.get("tag").and_then(|t| t.as_str()) == Some("api")),
        "api inbound missing"
    );
}

#[test]
fn test_enable_api_repairs_missing_routing_rule_only() {
    // Server has everything except the routing rule for api — this was the
    // bug where add_api_routing_rule's mutation wasn't tracked in `modified`.
    let json = r#"{
        "api": {"tag": "api", "services": ["HandlerService", "StatsService"]},
        "stats": {},
        "policy": {"levels": {"0": {"statsUserUplink": true, "statsUserDownlink": true}},
                   "system": {"statsInboundUplink": true, "statsInboundDownlink": true}},
        "routing": {
            "rules": [{"type": "field", "outboundTag": "block", "domain": ["geosite:category-ads"]}]
        },
        "inbounds": [
            {"tag": "api", "port": 8080, "listen": "127.0.0.1", "protocol": "dokodemo-door",
             "settings": {"address": "127.0.0.1"}},
            {"tag": "vless-in", "protocol": "vless",
             "settings": {"clients": [{"id": "uuid-1", "flow": "xtls-rprx-vision", "email": "alice@vpn", "level": 0}],
                          "decryption": "none"}}
        ],
        "outbounds": [{"protocol": "freedom", "tag": "direct"}]
    }"#;
    let mut config = ServerConfig::parse(json).unwrap();
    let table = ClientsTable::parse(
        r#"[{"clientId": "uuid-1", "userData": {"clientName": "alice", "creationDate": ""}}]"#,
    )
    .unwrap();

    assert!(config.has_api());
    let modified = enable_api(&mut config, &table).unwrap();
    assert!(
        modified,
        "should report modified when only routing rule was missing"
    );

    // Verify routing rule was added
    let config_raw = raw(&config);
    let rules = config_raw["routing"]["rules"].as_array().unwrap();
    assert_eq!(rules[0]["outboundTag"], "api", "api rule should be first");
    assert_eq!(rules.len(), 2, "existing rule should be preserved");
}

#[test]
fn test_enable_api_repairs_incomplete_policy() {
    // Server has policy but missing system stats flags
    let json = r#"{
        "api": {"tag": "api", "services": ["HandlerService", "StatsService"]},
        "stats": {},
        "policy": {
            "levels": {"0": {"statsUserUplink": true, "statsUserDownlink": true}}
        },
        "routing": {
            "rules": [{"inboundTag": ["api"], "outboundTag": "api", "type": "field"}]
        },
        "inbounds": [
            {"tag": "api", "port": 8080, "listen": "127.0.0.1", "protocol": "dokodemo-door",
             "settings": {"address": "127.0.0.1"}},
            {"tag": "vless-in", "protocol": "vless",
             "settings": {"clients": [{"id": "uuid-1", "flow": "xtls-rprx-vision", "email": "alice@vpn", "level": 0}],
                          "decryption": "none"}}
        ],
        "outbounds": [{"protocol": "freedom", "tag": "direct"}]
    }"#;
    let mut config = ServerConfig::parse(json).unwrap();
    let table = ClientsTable::parse(
        r#"[{"clientId": "uuid-1", "userData": {"clientName": "alice", "creationDate": ""}}]"#,
    )
    .unwrap();

    let modified = enable_api(&mut config, &table).unwrap();
    assert!(
        modified,
        "should repair incomplete policy (missing system stats)"
    );

    let config_raw = raw(&config);
    let policy = config_raw.get("policy").unwrap();
    assert_eq!(policy["system"]["statsInboundUplink"], true);
    assert_eq!(policy["system"]["statsInboundDownlink"], true);
    assert_eq!(policy["levels"]["0"]["statsUserUplink"], true);
    assert_eq!(policy["levels"]["0"]["statsUserDownlink"], true);
}

#[test]
fn test_enable_api_policy_merge_preserves_custom_levels() {
    // Server has policy with custom level 1 but missing system stats.
    // The fix should merge required fields without dropping level 1.
    let json = r#"{
        "api": {"tag": "api", "services": ["HandlerService", "StatsService"]},
        "stats": {},
        "policy": {
            "levels": {
                "0": {"statsUserUplink": true, "statsUserDownlink": true},
                "1": {"handshake": 4, "connIdle": 300}
            }
        },
        "routing": {
            "rules": [{"inboundTag": ["api"], "outboundTag": "api", "type": "field"}]
        },
        "inbounds": [
            {"tag": "api", "port": 8080, "listen": "127.0.0.1", "protocol": "dokodemo-door",
             "settings": {"address": "127.0.0.1"}},
            {"tag": "vless-in", "protocol": "vless",
             "settings": {"clients": [{"id": "uuid-1", "flow": "xtls-rprx-vision", "email": "alice@vpn", "level": 0}],
                          "decryption": "none"}}
        ],
        "outbounds": [{"protocol": "freedom", "tag": "direct"}]
    }"#;
    let mut config = ServerConfig::parse(json).unwrap();
    let table = ClientsTable::parse(
        r#"[{"clientId": "uuid-1", "userData": {"clientName": "alice", "creationDate": ""}}]"#,
    )
    .unwrap();

    let modified = enable_api(&mut config, &table).unwrap();
    assert!(modified, "should repair missing system stats");

    let config_raw = raw(&config);
    let policy = config_raw.get("policy").unwrap();
    // Required fields added
    assert_eq!(policy["system"]["statsInboundUplink"], true);
    assert_eq!(policy["system"]["statsInboundDownlink"], true);
    // Custom level 1 preserved
    assert_eq!(policy["levels"]["1"]["handshake"], 4);
    assert_eq!(policy["levels"]["1"]["connIdle"], 300);
}

#[test]
fn test_enable_api_repairs_broken_routing_rule() {
    // Routing rule has outboundTag "api" but missing inboundTag
    let json = r#"{
        "api": {"tag": "api", "services": ["HandlerService", "StatsService"]},
        "stats": {},
        "policy": {"levels": {"0": {"statsUserUplink": true, "statsUserDownlink": true}},
                   "system": {"statsInboundUplink": true, "statsInboundDownlink": true}},
        "routing": {
            "rules": [{"outboundTag": "api", "type": "field"}]
        },
        "inbounds": [
            {"tag": "api", "port": 8080, "listen": "127.0.0.1", "protocol": "dokodemo-door",
             "settings": {"address": "127.0.0.1"}},
            {"tag": "vless-in", "protocol": "vless",
             "settings": {"clients": [{"id": "uuid-1", "flow": "xtls-rprx-vision", "email": "alice@vpn", "level": 0}],
                          "decryption": "none"}}
        ],
        "outbounds": [{"protocol": "freedom", "tag": "direct"}]
    }"#;
    let mut config = ServerConfig::parse(json).unwrap();
    let table = ClientsTable::parse(
        r#"[{"clientId": "uuid-1", "userData": {"clientName": "alice", "creationDate": ""}}]"#,
    )
    .unwrap();

    let modified = enable_api(&mut config, &table).unwrap();
    assert!(modified, "should repair broken routing rule");

    let config_raw = raw(&config);
    let rules = config_raw["routing"]["rules"].as_array().unwrap();
    assert_eq!(
        rules.len(),
        1,
        "broken rule should be replaced, not duplicated"
    );
    assert_eq!(rules[0]["outboundTag"], "api");
    let inbound_tags = rules[0]["inboundTag"].as_array().unwrap();
    assert!(inbound_tags.iter().any(|t| t == "api"));
}

#[test]
fn test_enable_api_repairs_broken_api_inbound() {
    // API inbound has tag "api" but wrong protocol
    let json = r#"{
        "api": {"tag": "api", "services": ["HandlerService", "StatsService"]},
        "stats": {},
        "policy": {"levels": {"0": {"statsUserUplink": true, "statsUserDownlink": true}},
                   "system": {"statsInboundUplink": true, "statsInboundDownlink": true}},
        "routing": {
            "rules": [{"inboundTag": ["api"], "outboundTag": "api", "type": "field"}]
        },
        "inbounds": [
            {"tag": "api", "port": 9999, "listen": "0.0.0.0", "protocol": "http"},
            {"tag": "vless-in", "protocol": "vless",
             "settings": {"clients": [{"id": "uuid-1", "flow": "xtls-rprx-vision", "email": "alice@vpn", "level": 0}],
                          "decryption": "none"}}
        ],
        "outbounds": [{"protocol": "freedom", "tag": "direct"}]
    }"#;
    let mut config = ServerConfig::parse(json).unwrap();
    let table = ClientsTable::parse(
        r#"[{"clientId": "uuid-1", "userData": {"clientName": "alice", "creationDate": ""}}]"#,
    )
    .unwrap();

    let modified = enable_api(&mut config, &table).unwrap();
    assert!(modified, "should repair broken api inbound");

    let config_raw = raw(&config);
    let inbounds = config_raw["inbounds"].as_array().unwrap();
    let api_ib = inbounds.iter().find(|ib| ib["tag"] == "api").unwrap();
    assert_eq!(api_ib["protocol"], "dokodemo-door");
    assert_eq!(api_ib["port"], 8080);
    assert_eq!(api_ib["listen"], "127.0.0.1");
    // Should still have 2 inbounds (replaced, not added)
    assert_eq!(inbounds.len(), 2);
}

#[test]
fn test_enable_api_repairs_wrong_api_tag() {
    // API section has correct services but wrong tag — should be replaced
    let json = r#"{
        "api": {"tag": "wrong", "services": ["HandlerService", "StatsService"]},
        "stats": {},
        "policy": {"levels": {"0": {"statsUserUplink": true, "statsUserDownlink": true}},
                   "system": {"statsInboundUplink": true, "statsInboundDownlink": true}},
        "routing": {
            "rules": [{"inboundTag": ["api"], "outboundTag": "api", "type": "field"}]
        },
        "inbounds": [
            {"tag": "api", "port": 8080, "listen": "127.0.0.1", "protocol": "dokodemo-door",
             "settings": {"address": "127.0.0.1"}},
            {"tag": "vless-in", "protocol": "vless",
             "settings": {"clients": [{"id": "uuid-1", "flow": "xtls-rprx-vision", "email": "alice@vpn", "level": 0}],
                          "decryption": "none"}}
        ],
        "outbounds": [{"protocol": "freedom", "tag": "direct"}]
    }"#;
    let mut config = ServerConfig::parse(json).unwrap();
    let table = ClientsTable::parse(
        r#"[{"clientId": "uuid-1", "userData": {"clientName": "alice", "creationDate": ""}}]"#,
    )
    .unwrap();

    let modified = enable_api(&mut config, &table).unwrap();
    assert!(modified, "should repair wrong api tag");
    let config_raw = raw(&config);
    assert_eq!(config_raw["api"]["tag"], "api");
}

#[test]
fn test_enable_api_handles_malformed_policy_values() {
    // policy, levels, and system are non-object types that should be replaced
    let json = r#"{
        "api": {"tag": "api", "services": ["HandlerService", "StatsService"]},
        "stats": {},
        "policy": null,
        "routing": {
            "rules": [{"inboundTag": ["api"], "outboundTag": "api", "type": "field"}]
        },
        "inbounds": [
            {"tag": "api", "port": 8080, "listen": "127.0.0.1", "protocol": "dokodemo-door",
             "settings": {"address": "127.0.0.1"}},
            {"tag": "vless-in", "protocol": "vless",
             "settings": {"clients": [{"id": "uuid-1", "flow": "xtls-rprx-vision", "email": "alice@vpn", "level": 0}],
                          "decryption": "none"}}
        ],
        "outbounds": [{"protocol": "freedom", "tag": "direct"}]
    }"#;
    let mut config = ServerConfig::parse(json).unwrap();
    let table = ClientsTable::parse(
        r#"[{"clientId": "uuid-1", "userData": {"clientName": "alice", "creationDate": ""}}]"#,
    )
    .unwrap();

    // Should not panic on null policy
    let modified = enable_api(&mut config, &table).unwrap();
    assert!(modified);
    let config_raw = raw(&config);
    assert_eq!(config_raw["policy"]["levels"]["0"]["statsUserUplink"], true);
    assert_eq!(config_raw["policy"]["system"]["statsInboundUplink"], true);
}

#[test]
fn test_enable_api_handles_policy_with_array_levels() {
    // levels is an array instead of an object — should be replaced
    let json = r#"{
        "api": {"tag": "api", "services": ["HandlerService", "StatsService"]},
        "stats": {},
        "policy": {"levels": [], "system": true},
        "routing": {
            "rules": [{"inboundTag": ["api"], "outboundTag": "api", "type": "field"}]
        },
        "inbounds": [
            {"tag": "api", "port": 8080, "listen": "127.0.0.1", "protocol": "dokodemo-door",
             "settings": {"address": "127.0.0.1"}},
            {"tag": "vless-in", "protocol": "vless",
             "settings": {"clients": [{"id": "uuid-1", "flow": "xtls-rprx-vision", "email": "alice@vpn", "level": 0}],
                          "decryption": "none"}}
        ],
        "outbounds": [{"protocol": "freedom", "tag": "direct"}]
    }"#;
    let mut config = ServerConfig::parse(json).unwrap();
    let table = ClientsTable::parse(
        r#"[{"clientId": "uuid-1", "userData": {"clientName": "alice", "creationDate": ""}}]"#,
    )
    .unwrap();

    // Should not panic on array levels or boolean system
    let modified = enable_api(&mut config, &table).unwrap();
    assert!(modified);
    let config_raw = raw(&config);
    assert_eq!(config_raw["policy"]["levels"]["0"]["statsUserUplink"], true);
    assert_eq!(config_raw["policy"]["system"]["statsInboundUplink"], true);
}

#[test]
fn test_enable_api_repairs_malformed_stats_section() {
    // "stats": null should be treated as missing and repaired to {}
    let json = r#"{
        "api": {"tag": "api", "services": ["HandlerService", "StatsService"]},
        "stats": null,
        "policy": {"levels": {"0": {"statsUserUplink": true, "statsUserDownlink": true}},
                    "system": {"statsInboundUplink": true, "statsInboundDownlink": true}},
        "routing": {
            "rules": [{"inboundTag": ["api"], "outboundTag": "api", "type": "field"}]
        },
        "inbounds": [
            {"tag": "api", "port": 8080, "listen": "127.0.0.1", "protocol": "dokodemo-door",
             "settings": {"address": "127.0.0.1"}},
            {"tag": "vless-in", "protocol": "vless",
             "settings": {"clients": [{"id": "uuid-1", "flow": "xtls-rprx-vision", "email": "alice@vpn", "level": 0}],
                          "decryption": "none"}}
        ],
        "outbounds": [{"protocol": "freedom", "tag": "direct"}]
    }"#;
    let mut config = ServerConfig::parse(json).unwrap();
    let table = ClientsTable::parse(
        r#"[{"clientId": "uuid-1", "userData": {"clientName": "alice", "creationDate": ""}}]"#,
    )
    .unwrap();

    let modified = enable_api(&mut config, &table).unwrap();
    assert!(modified, "null stats should be repaired");
    let config_raw = raw(&config);
    assert!(config_raw["stats"].is_object());
}

#[test]
fn test_normalize_vless_tag_updates_routing_rules() {
    // VLESS inbound has a custom tag; a routing rule references it via inboundTag.
    // After normalization, the routing rule should reference "vless-in".
    let json = r#"{
        "routing": {
            "rules": [
                {"inboundTag": ["api"], "outboundTag": "api", "type": "field"},
                {"inboundTag": ["my-vless"], "outboundTag": "direct", "type": "field"}
            ]
        },
        "inbounds": [{
            "protocol": "vless",
            "tag": "my-vless",
            "settings": {
                "clients": [{"id": "uuid-1", "flow": "xtls-rprx-vision"}],
                "decryption": "none"
            }
        }]
    }"#;
    let mut config = ServerConfig::parse(json).unwrap();

    let changed = normalize_vless_tag(&mut config).unwrap();
    assert!(changed);

    // Routing rule should now reference "vless-in" instead of "my-vless"
    let config_raw = raw(&config);
    let rules = config_raw["routing"]["rules"].as_array().unwrap();
    let vless_rule = &rules[1];
    let tags = vless_rule["inboundTag"].as_array().unwrap();
    assert_eq!(tags[0], "vless-in");

    // API routing rule should be untouched
    let api_rule = &rules[0];
    let api_tags = api_rule["inboundTag"].as_array().unwrap();
    assert_eq!(api_tags[0], "api");
}

#[test]
fn test_normalize_vless_tag_no_change_when_already_correct() {
    let json = r#"{
        "inbounds": [{
            "protocol": "vless",
            "tag": "vless-in",
            "settings": {
                "clients": [{"id": "uuid-1", "flow": "xtls-rprx-vision"}],
                "decryption": "none"
            }
        }]
    }"#;
    let mut config = ServerConfig::parse(json).unwrap();

    let changed = normalize_vless_tag(&mut config).unwrap();
    assert!(!changed);
}

#[test]
fn test_normalize_vless_tag_no_routing_section() {
    // VLESS has wrong tag but no routing section at all — should still normalize
    let json = r#"{
        "inbounds": [{
            "protocol": "vless",
            "tag": "old-tag",
            "settings": {
                "clients": [{"id": "uuid-1", "flow": "xtls-rprx-vision"}],
                "decryption": "none"
            }
        }]
    }"#;
    let mut config = ServerConfig::parse(json).unwrap();

    let changed = normalize_vless_tag(&mut config).unwrap();
    assert!(changed);

    let config_raw = raw(&config);
    let vless = &config_raw["inbounds"].as_array().unwrap()[0];
    assert_eq!(vless["tag"], "vless-in");
}

#[test]
fn try_enable_api_refuses_configs_it_cannot_write() {
    let table = ClientsTable::parse("[]").unwrap();
    let mut c = ServerConfig::parse("[1, 2]").unwrap();
    assert!(try_enable_api(&mut c, &table).is_none());
    let mut c = ServerConfig::parse(r#"{"routing": 5, "inbounds": [{"protocol": "vless", "settings": {"clients": []}}]}"#).unwrap();
    assert!(try_enable_api(&mut c, &table).is_none());
    let mut c = ServerConfig::parse(r#"{"inbounds": [{"protocol": "vless", "settings": {"clients": [7]}}]}"#).unwrap();
    assert!(try_enable_api(&mut c, &table).is_none());
    let mut c = ServerConfig::parse(r#"{"inbounds": [{"protocol": "vmess"}]}"#).unwrap();
    assert!(matches!(try_enable_api(&mut c, &table), Some(Err(_))));
    let (mut c, table) = parse_both(sample_server_json(), sample_clients_table());
    assert!(matches!(try_enable_api(&mut c, &table), Some(Ok(true))));
    assert!(matches!(try_enable_api(&mut c, &table), Some(Ok(false))));
}
