use amnezia_xray_admin::steps::Next;
use amnezia_xray_admin::xray::client::{AddClient, AddStage, BridgeParams};
use amnezia_xray_admin::ssh::CommandOutput;
use amnezia_xray_admin::xray::client::{
    add_client_command, bridge_public_key, bridge_settings, check_new_client, clients_from_output,
    get_uuid, inbound_totals_from_output, parse_inbound_stats, parse_user_stats,
    remove_client_command, user_stats_from_output,
};
use amnezia_xray_admin::xray::config_render::{parse_bridge_config, ClientEntry};

const BRIDGE: &str = r#"{
    "inbounds": [{
        "listen": "0.0.0.0", "port": 443, "tag": "client-in", "protocol": "vless",
        "settings": {"clients": [
            {"id": "00000000-0000-0000-0000-000000000001", "email": "alice@vpn"},
            {"id": "00000000-0000-0000-0000-000000000002", "email": "bob@vpn"}
        ], "decryption": "none"},
        "streamSettings": {
            "network": "xhttp", "security": "reality",
            "xhttpSettings": {"path": "/testpath"},
            "realitySettings": {"dest": "www.sberbank.ru:443", "serverNames": ["www.sberbank.ru"],
                                "privateKey": "K", "shortIds": ["TESTSID"]}
        }
    }],
    "outbounds": []
}"#;

fn out(stdout: &str, stderr: &str, code: u32) -> CommandOutput {
    CommandOutput { stdout: stdout.to_string(), stderr: stderr.to_string(), exit_code: code }
}

fn lookup<'a>(m: &'a [(String, amnezia_xray_admin::xray::types::TrafficStats)], k: &str) -> &'a amnezia_xray_admin::xray::types::TrafficStats {
    &m.iter().find(|(e, _)| e == k).unwrap().1
}

#[test]
fn parse_user_stats_groups_by_email() {
    let json = r#"{
        "stat": [
            { "name": "user>>>rita@vpn>>>traffic>>>downlink", "value": 1000 },
            { "name": "user>>>rita@vpn>>>traffic>>>uplink",   "value": 200  },
            { "name": "user>>>ivan@vpn>>>traffic>>>downlink", "value": 50   }
        ]
    }"#;
    let map = parse_user_stats(json).unwrap();
    assert_eq!(lookup(&map, "rita@vpn").uplink, 200);
    assert_eq!(lookup(&map, "rita@vpn").downlink, 1000);
    assert_eq!(lookup(&map, "ivan@vpn").uplink, 0);
    assert_eq!(lookup(&map, "ivan@vpn").downlink, 50);
    assert_eq!(map.len(), 2);
}

#[test]
fn parse_user_stats_empty() {
    assert!(parse_user_stats(r#"{"stat":[]}"#).unwrap().is_empty());
    assert!(parse_user_stats(r#"{}"#).unwrap().is_empty());
}

#[test]
fn parse_user_stats_skips_malformed_entries() {
    let json = r#"{
        "stat": [
            { "name": "user>>>short", "value": 1 },
            { "name": "outbound>>>foo>>>traffic>>>uplink", "value": 2 },
            { "name": "user>>>x@y>>>traffic>>>uplink" },
            { "value": 3 },
            "not-an-object"
        ]
    }"#;
    assert!(parse_user_stats(json).unwrap().is_empty());
}

#[test]
fn parse_user_stats_rejects_non_json() {
    let err = parse_user_stats("not json").unwrap_err();
    assert!(err.message().starts_with("Config error: parse statsquery: "));
}

#[test]
fn parse_inbound_stats_sums_uplink_and_downlink() {
    let json = r#"{
        "stat": [
            { "name": "inbound>>>client-in>>>traffic>>>uplink",   "value": 10 },
            { "name": "inbound>>>client-in>>>traffic>>>downlink", "value": 90 },
            { "name": "inbound>>>client-in>>>traffic>>>uplink",   "value": 5 }
        ]
    }"#;
    assert_eq!(parse_inbound_stats(json).unwrap(), (15, 90));
}

#[test]
fn parse_inbound_stats_empty() {
    assert_eq!(parse_inbound_stats(r#"{"stat":[]}"#).unwrap(), (0, 0));
}

#[test]
fn stats_outputs_fall_back_to_nothing() {
    assert!(user_stats_from_output(&out("", "connection refused", 1)).is_empty());
    assert!(user_stats_from_output(&out("garbage", "", 0)).is_empty());
    assert_eq!(inbound_totals_from_output(&out("", "x", 1)), Some((0, 0)));
    assert_eq!(inbound_totals_from_output(&out("garbage", "", 0)), Some((0, 0)));
    let big = r#"{"stat":[{"name":"a>>>b>>>c>>>uplink","value":18446744073709551615},{"name":"a>>>b>>>c>>>uplink","value":1}]}"#;
    assert_eq!(inbound_totals_from_output(&out(big, "", 0)), None);
}

#[test]
fn parse_bridge_config_extracts_clients() {
    let parsed = parse_bridge_config(BRIDGE).unwrap();
    assert_eq!(parsed.clients.len(), 2);
    assert_eq!(parsed.clients[0].email, "alice@vpn");
    assert_eq!(parsed.clients[1].uuid, "00000000-0000-0000-0000-000000000002");
}

#[test]
fn parse_bridge_config_rejects_non_xhttp() {
    let raw = r#"{"inbounds": [{"protocol": "vless", "streamSettings": {"network": "tcp", "security": "reality"}}], "outbounds": []}"#;
    let err = parse_bridge_config(raw).unwrap_err();
    assert!(err.message().contains("xhttp"));
    assert_eq!(
        err.message(),
        "Config error: bridge inbound must be network=xhttp security=reality, got network=tcp security=reality"
    );
}

#[test]
fn clients_from_output_reports_failures() {
    let err = clients_from_output(&out("", "permission denied", 1)).unwrap_err();
    assert_eq!(err.message(), "Config error: read bridge config: permission denied");
    assert_eq!(clients_from_output(&out(BRIDGE, "", 0)).unwrap().len(), 2);
}

#[test]
fn new_clients_are_checked() {
    let existing = vec![ClientEntry { uuid: "u1".into(), email: "alice@vpn".into() }];
    assert_eq!(check_new_client("bob", &existing).unwrap(), "bob@vpn");
    assert_eq!(
        check_new_client("alice", &existing).unwrap_err().message(),
        "Config error: user 'alice' already exists"
    );
    assert!(check_new_client("a'b", &existing).is_err());
    assert_eq!(get_uuid(&existing, "alice").unwrap(), "u1");
    assert_eq!(get_uuid(&existing, "zed").unwrap_err().message(), "Config error: user 'zed' not found");
}

#[test]
fn edit_commands_quote_their_arguments() {
    let c = add_client_command("uuid-1", "bob@vpn");
    assert!(c.starts_with("sudo cp /usr/local/etc/xray/config.json /usr/local/etc/xray/config.json.bak-$(date +%s) && "));
    assert!(c.contains("--arg uuid 'uuid-1' --arg email 'bob@vpn'"));
    assert!(c.ends_with("sudo mv /usr/local/etc/xray/config.json.new /usr/local/etc/xray/config.json"));
    let r = remove_client_command("bob").unwrap();
    assert!(r.contains("--arg email 'bob@vpn' '.inbounds[0].settings.clients |= map(select(.email != $email))'"));
    assert!(remove_client_command("").is_err());
}

#[test]
fn bridge_settings_and_key() {
    let (port, sni, sid, path) = bridge_settings(BRIDGE).unwrap();
    assert_eq!((port, sni.as_str(), sid.as_str(), path.as_str()), (443, "www.sberbank.ru", "TESTSID", "/testpath"));
    assert_eq!(bridge_public_key(&out("  PUBKEY\n", "", 0)).unwrap(), "PUBKEY");
    assert_eq!(
        bridge_public_key(&out("\n", "", 0)).unwrap_err().message(),
        "Config error: reality public key file /usr/local/etc/xray/reality-public-key is empty"
    );
    assert!(bridge_public_key(&out("", "no such file", 1)).unwrap_err().message().contains("During bridge setup"));
}

#[test]
fn add_client_reads_then_appends_with_a_fresh_id() {
    let (mut m, first) = AddClient::start("carol").unwrap();
    assert!(matches!(first, Next::Run(_, ref c) if c == "sudo cat /usr/local/etc/xray/config.json"));
    let next = m.step(Ok(out(BRIDGE, "", 0)));
    assert_eq!(m.stage, AddStage::Add);
    assert_eq!(m.email, "carol@vpn");
    assert_eq!(m.uuid.len(), 36);
    let u: Vec<char> = m.uuid.chars().collect();
    for (i, c) in u.iter().enumerate() {
        if [8, 13, 18, 23].contains(&i) {
            assert_eq!(*c, '-');
        } else {
            assert!(c.is_ascii_hexdigit() && !c.is_ascii_uppercase());
        }
    }
    assert_eq!(u[14], '4');
    assert!("89ab".contains(u[19]));
    match next {
        Next::Run(_, cmd) => {
            assert!(cmd.contains(&format!("--arg uuid '{}'", m.uuid)));
            assert!(cmd.contains("--arg email 'carol@vpn'"));
        }
        _ => panic!("expected the append"),
    }
    assert!(matches!(m.step(Ok(out("", "", 0))), Next::Finish));
    let e = m.entry();
    assert_eq!(e.email, "carol@vpn");
    assert_eq!(e.uuid, m.uuid);
}

#[test]
fn add_client_refuses_taken_and_unfit_names() {
    assert!(AddClient::start("a'b").is_err());
    assert!(AddClient::start("").is_err());
    let (mut m, _) = AddClient::start("alice").unwrap();
    match m.step(Ok(out(BRIDGE, "", 0))) {
        Next::Fail(e) => assert_eq!(e.message(), "Config error: user 'alice' already exists"),
        _ => panic!("expected a refusal"),
    }
    let (mut m, _) = AddClient::start("carol").unwrap();
    let _ = m.step(Ok(out(BRIDGE, "", 0)));
    match m.step(Ok(out("", "jq: error", 5))) {
        Next::Fail(e) => assert_eq!(e.message(), "Config error: add client: jq: error"),
        _ => panic!("expected a failure"),
    }
}

#[test]
fn bridge_params_read_config_then_key() {
    let (mut m, first) = BridgeParams::start();
    assert!(matches!(first, Next::Run(_, ref c) if c == "sudo cat /usr/local/etc/xray/config.json"));
    let next = m.step(Ok(out(BRIDGE, "", 0)));
    assert!(matches!(next, Next::Run(_, ref c) if c == "sudo cat /usr/local/etc/xray/reality-public-key"));
    assert!(matches!(m.step(Ok(out("PUB\n", "", 0))), Next::Finish));
    let p = m.params();
    assert_eq!(p.port, 443);
    assert_eq!(p.sni, "www.sberbank.ru");
    assert_eq!(p.short_id, "TESTSID");
    assert_eq!(p.path, "/testpath");
    assert_eq!(p.public_key, "PUB");
    let (mut m, _) = BridgeParams::start();
    match m.step(Ok(out("", "denied", 1))) {
        Next::Fail(e) => assert_eq!(e.message(), "Config error: read bridge config: denied"),
        _ => panic!("expected a failure"),
    }
}
