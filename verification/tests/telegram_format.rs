use amnezia_xray_admin::telegram::format::{
    access_denied_text, format_add_message, format_delete_confirm_message,
    format_delete_success_message, format_status_message, format_uptime, format_url_message,
    format_users_message, help_text, html_escape, validate_user_name, welcome_text, ServerInfo,
};
use amnezia_xray_admin::xray::types::{TrafficStats, XrayUser};

fn user(uuid: &str, name: &str, email: &str, flow: &str) -> XrayUser {
    XrayUser {
        uuid: uuid.to_string(),
        name: name.to_string(),
        email: email.to_string(),
        flow: flow.to_string(),
        stats: TrafficStats::default(),
        online_count: 0,
    }
}

#[test]
fn format_test_format_uptime_ranges() {
    assert_eq!(format_uptime(0), "0m");
    assert_eq!(format_uptime(59), "0m");
    assert_eq!(format_uptime(60), "1m");
    assert_eq!(format_uptime(3_600), "1h 0m");
    assert_eq!(format_uptime(3_660), "1h 1m");
    assert_eq!(format_uptime(86_400), "1d 0h 0m");
    assert_eq!(format_uptime(90_061), "1d 1h 1m");
}

#[test]
fn format_test_help_text_contains_all_commands() {
    let text = help_text();
    for cmd in ["/start", "/help", "/users", "/add", "/delete", "/url", "/qr", "/status"] {
        assert!(text.contains(cmd), "missing {}", cmd);
    }
}

#[test]
fn format_test_welcome_text() {
    let text = welcome_text();
    assert!(text.contains("Welcome, admin"));
    assert!(text.contains("/help"));
}

#[test]
fn format_test_access_denied_text() {
    let text = access_denied_text();
    assert!(text.contains("Access denied"));
    assert!(text.contains("administrator"));
}

#[test]
fn format_test_help_text_not_empty() {
    let text = help_text();
    assert!(!text.is_empty());
    assert!(text.lines().count() >= 5);
}

#[test]
fn format_test_format_users_message_empty() {
    let text = format_users_message(&vec![]);
    assert_eq!(text, "No users found.");
}

#[test]
fn format_test_format_users_message_with_users() {
    let users = vec![
        (
            user("aaaa-bbbb-cccc", "Alice", "Alice@vpn", "xtls-rprx-vision"),
            TrafficStats { uplink: 1024 * 1024 * 100, downlink: 1024 * 1024 * 1024 * 2 },
            1,
        ),
        (
            user("dddd-eeee-ffff", "Bob", "Bob@vpn", "xtls-rprx-vision"),
            TrafficStats { uplink: 0, downlink: 0 },
            0,
        ),
    ];
    let text = format_users_message(&users);
    assert!(text.contains("Alice"), "text: {}", text);
    assert!(text.contains("Bob"), "text: {}", text);
    assert!(text.contains("🟢 1"), "text: {}", text);
    assert!(text.contains("⚪"), "text: {}", text);
    assert!(text.contains("100.0 MB"), "text: {}", text);
    assert!(text.contains("2.0 GB"), "text: {}", text);
}

#[test]
fn format_test_format_users_message_unnamed_user() {
    let users = vec![(user("12345678-abcd-efgh", "", "@vpn", ""), TrafficStats::default(), 0)];
    let text = format_users_message(&users);
    assert!(text.contains("12345678"), "text: {}", text);
}

#[test]
fn format_users_message_exact_lines() {
    let users = vec![
        (user("u1", "Alice", "Alice@vpn", ""), TrafficStats { uplink: 512, downlink: 2048 }, 2),
        (user("12345678-abcd", "", "@vpn", ""), TrafficStats::default(), 0),
    ];
    assert_eq!(
        format_users_message(&users),
        "👥 Users:\n\n🟢 2 Alice ↑512 B ↓2.0 KB\n⚪ 12345678 ↑0 B ↓0 B"
    );
}

#[test]
fn format_test_format_add_message() {
    let text = format_add_message("Alice", "uuid-123", "vless://uuid-123@1.2.3.4:443?...");
    assert!(text.contains("Alice"), "text: {}", text);
    assert!(text.contains("uuid-123"), "text: {}", text);
    assert!(text.contains("vless://"), "text: {}", text);
    assert!(text.contains("✅"), "text: {}", text);
}

#[test]
fn format_test_format_add_message_special_name() {
    let text = format_add_message("Bob's Phone [iOS]", "uuid-456", "vless://...");
    assert!(text.contains("Bob's Phone [iOS]"), "text: {}", text);
}

#[test]
fn format_add_message_escapes_html() {
    assert_eq!(
        format_add_message("a<b>&c", "u", "v"),
        "✅ User 'a&lt;b&gt;&amp;c' added.\n\nUUID: <code>u</code>\nURL: <code>v</code>"
    );
    assert_eq!(html_escape("x & <y>"), "x &amp; &lt;y&gt;");
}

#[test]
fn format_test_format_delete_confirm_message() {
    let text = format_delete_confirm_message("Alice");
    assert!(text.contains("Alice"), "text: {}", text);
    assert!(text.contains("⚠️"), "text: {}", text);
    assert!(text.contains("Delete"), "text: {}", text);
}

#[test]
fn format_test_format_delete_success_message() {
    let text = format_delete_success_message("Alice");
    assert!(text.contains("Alice"), "text: {}", text);
    assert!(text.contains("deleted"), "text: {}", text);
}

#[test]
fn format_test_validate_user_name_valid() {
    assert!(validate_user_name("Alice").is_none());
    assert!(validate_user_name("Bob's Phone").is_none());
    assert!(validate_user_name("Admin [macOS]").is_none());
    assert!(validate_user_name("a").is_none());
}

#[test]
fn format_test_validate_user_name_empty() {
    assert!(validate_user_name("").is_some());
    assert!(validate_user_name("   ").is_some());
}

#[test]
fn format_test_add_without_argument_shows_usage_hint() {
    assert_eq!(validate_user_name(""), Some("Usage: /add <name>".to_string()));
    assert_eq!(validate_user_name("   "), Some("Usage: /add <name>".to_string()));
}

#[test]
fn format_test_validate_user_name_too_long() {
    let long_name = "a".repeat(51);
    let result = validate_user_name(&long_name);
    assert!(result.is_some());
    assert!(result.unwrap().contains("too long"));
    assert!(validate_user_name(&"a".repeat(50)).is_none());
}

#[test]
fn format_test_validate_user_name_at_sign() {
    assert!(validate_user_name("foo@bar").is_some());
}

#[test]
fn format_test_validate_user_name_triple_arrow() {
    assert!(validate_user_name("foo>>>bar").is_some());
    assert!(validate_user_name("foo>>bar").is_none());
}

#[test]
fn validate_user_name_rejects_control_characters() {
    assert_eq!(
        validate_user_name("a\u{7}b"),
        Some("Name must not contain control characters.".to_string())
    );
}

#[test]
fn format_test_validate_user_name_usage_hint() {
    let result = validate_user_name("").unwrap();
    assert!(result.contains("/add"), "result: {}", result);
}

#[test]
fn format_test_format_url_message() {
    let text = format_url_message("Alice", "vless://uuid@1.2.3.4:443?test=1#Alice");
    assert!(text.contains("Alice"), "text: {}", text);
    assert!(text.contains("vless://"), "text: {}", text);
    assert!(text.contains("🔗"), "text: {}", text);
}

#[test]
fn format_test_format_url_message_special_name() {
    let text = format_url_message("Bob's Phone [iOS]", "vless://...");
    assert!(text.contains("Bob's Phone [iOS]"), "text: {}", text);
}

#[test]
fn format_status_message_reports_versions() {
    let info = ServerInfo { version: "1.8.4".to_string(), uplink: 1024 * 1024 * 500, downlink: 1024 * 1024 * 1024 * 10 };
    let text = format_status_message(&info, 5, 2, "Up 2 hours", Some("1.8.4"));
    assert_eq!(
        text,
        "📊 Server Status:\n\nXray: v1.8.4 ✅\nUptime: Up 2 hours\nUsers: 5 (2 online)\nUpload: 500.0 MB\nDownload: 10.0 GB"
    );
    let info = ServerInfo { version: "1.8.0".to_string(), uplink: 0, downlink: 0 };
    let text = format_status_message(&info, 3, 0, "Up 5 minutes", Some("1.9.0"));
    assert!(text.contains("⬆️ v1.9.0"), "text: {}", text);
    let text = format_status_message(&info, 3, 0, "", None);
    assert!(text.contains("0 online"), "text: {}", text);
    assert!(!text.contains("Uptime"), "text: {}", text);
}

#[test]
fn format_test_format_status_message() {
    let info = ServerInfo {
        version: "1.8.4".to_string(),
        uplink: 1024 * 1024 * 500,
        downlink: 1024 * 1024 * 1024 * 10,
    };
    let text = format_status_message(&info, 5, 2, "Up 2 hours", Some("1.8.4"));
    assert!(text.contains("v1.8.4"), "text: {}", text);
    assert!(text.contains("✅"), "text: {}", text);
    assert!(text.contains("Up 2 hours"), "text: {}", text);
    assert!(text.contains("5"), "text: {}", text);
    assert!(text.contains("2 online"), "text: {}", text);
    assert!(text.contains("500.0 MB"), "text: {}", text);
    assert!(text.contains("10.0 GB"), "text: {}", text);
}

#[test]
fn format_test_format_status_message_update_available() {
    let info = ServerInfo {
        version: "1.8.0".to_string(),
        uplink: 0,
        downlink: 0,
    };
    let text = format_status_message(&info, 3, 0, "Up 5 minutes", Some("1.9.0"));
    assert!(text.contains("⬆️ v1.9.0"), "text: {}", text);
}

#[test]
fn format_test_format_status_message_zero_online() {
    let info = ServerInfo {
        version: "1.8.0".to_string(),
        uplink: 0,
        downlink: 0,
    };
    let text = format_status_message(&info, 3, 0, "", None);
    assert!(text.contains("0 online"), "text: {}", text);
    assert!(text.contains("3"), "text: {}", text);
}
