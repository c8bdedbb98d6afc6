use amnezia_xray_admin::native::config_render::{
    render_bridge_config, render_egress_config, BridgeConfigInput, EgressConfigInput, EgressOutbound,
};
use amnezia_xray_admin::xray::config_render::ClientEntry;

fn value(text: &str) -> serde_json::Value {
    serde_json::from_str(text).unwrap()
}

#[test]
fn bridge_config_matches_snapshot() {
    let input = BridgeConfigInput {
        clients: vec![
            ClientEntry { uuid: "00000000-0000-0000-0000-000000000001".into(), email: "alice@vpn".into() },
            ClientEntry { uuid: "00000000-0000-0000-0000-000000000002".into(), email: "bob@vpn".into() },
        ],
        reality_private_key: "TEST_PRIVATE_KEY".into(),
        reality_short_id: "TESTSID".into(),
        xhttp_path: "/testpath".into(),
        sni: "www.sberbank.ru".into(),
        egress_outbound: EgressOutbound {
            address: "1.2.3.4".into(),
            port: 8444,
            bridge_uuid: "00000000-0000-0000-0000-000000000009".into(),
            xhttp_path: "/egresspath".into(),
            reality_public_key: "EGRESS_PUBLIC".into(),
            reality_short_id: "EGRESSSID".into(),
            server_name: "example.duckdns.org".into(),
        },
    };
    let rendered = render_bridge_config(&input).unwrap();
    let expected = r#"{
      "log": {"loglevel": "warning", "access": "/var/log/xray/access.log", "error": "/var/log/xray/error.log"},
      "inbounds": [{
        "listen": "0.0.0.0", "port": 443, "tag": "client-in", "protocol": "vless",
        "settings": {
          "clients": [
            {"id": "00000000-0000-0000-0000-000000000001", "email": "alice@vpn"},
            {"id": "00000000-0000-0000-0000-000000000002", "email": "bob@vpn"}
          ],
          "decryption": "none"
        },
        "streamSettings": {
          "network": "xhttp", "security": "reality",
          "xhttpSettings": {"path": "/testpath"},
          "realitySettings": {
            "dest": "www.sberbank.ru:443", "serverNames": ["www.sberbank.ru"],
            "privateKey": "TEST_PRIVATE_KEY", "shortIds": ["TESTSID"]
          }
        }
      }],
      "outbounds": [
        {
          "tag": "foreign-egress", "protocol": "vless",
          "settings": {"vnext": [{"address": "1.2.3.4", "port": 8444,
            "users": [{"id": "00000000-0000-0000-0000-000000000009", "encryption": "none"}]}]},
          "streamSettings": {
            "network": "xhttp", "security": "reality",
            "xhttpSettings": {"path": "/egresspath"},
            "realitySettings": {"fingerprint": "chrome", "serverName": "example.duckdns.org",
              "publicKey": "EGRESS_PUBLIC", "shortId": "EGRESSSID"}
          }
        },
        {"protocol": "freedom", "tag": "direct"},
        {"protocol": "blackhole", "tag": "block"}
      ],
      "routing": {
        "domainStrategy": "IPIfNonMatch",
        "rules": [
          {"type": "field", "ip": ["geoip:private"], "outboundTag": "direct"},
          {"type": "field", "domain": ["geosite:category-ru"], "outboundTag": "direct"},
          {"type": "field", "ip": ["geoip:ru"], "outboundTag": "direct"},
          {"type": "field", "network": "tcp,udp", "outboundTag": "foreign-egress"}
        ]
      }
    }"#;
    assert_eq!(value(&rendered), value(expected));
    assert!(rendered.contains("\n  \"inbounds\": ["));
}

#[test]
fn egress_config_matches_snapshot() {
    let input = EgressConfigInput {
        bridge_uuid: "00000000-0000-0000-0000-000000000009".into(),
        port: 8444,
        xhttp_path: "/egresspath".into(),
        reality_private_key: "EGRESS_PRIVATE".into(),
        reality_short_id: "EGRESSSID".into(),
        domain: "example.duckdns.org".into(),
        nginx_port: 9443,
    };
    let rendered = render_egress_config(&input).unwrap();
    let expected = r#"{
      "log": {"loglevel": "warning", "access": "/var/log/xray/access.log", "error": "/var/log/xray/error.log"},
      "inbounds": [{
        "listen": "0.0.0.0", "port": 8444, "tag": "bridge-in", "protocol": "vless",
        "settings": {"clients": [{"id": "00000000-0000-0000-0000-000000000009", "email": "bridge@vpn"}], "decryption": "none"},
        "streamSettings": {
          "network": "xhttp", "security": "reality",
          "xhttpSettings": {"path": "/egresspath"},
          "realitySettings": {"dest": "127.0.0.1:9443", "serverNames": ["example.duckdns.org"],
            "privateKey": "EGRESS_PRIVATE", "shortIds": ["EGRESSSID"]}
        }
      }],
      "outbounds": [{"protocol": "freedom", "tag": "direct"}]
    }"#;
    assert_eq!(value(&rendered), value(expected));
}
