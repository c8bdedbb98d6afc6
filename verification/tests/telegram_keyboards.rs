use amnezia_xray_admin::telegram::keyboards::{
    build_user_keyboard, delete_confirmation_keyboard, format_empty_keyboard_message,
    format_selection_message,
};
use amnezia_xray_admin::telegram::{DELETE_PREFIX, QR_PREFIX, URL_PREFIX};
use amnezia_xray_admin::xray::types::{TrafficStats, XrayUser};

fn user(uuid: &str, name: &str) -> XrayUser {
    XrayUser {
        uuid: uuid.to_string(),
        name: name.to_string(),
        email: format!("{}@vpn", name),
        flow: String::new(),
        stats: TrafficStats::default(),
        online_count: 0,
    }
}

#[test]
fn keyboards_test_format_empty_keyboard_message_no_users() {
    let msg = format_empty_keyboard_message("/url <name>", &vec![], 0);
    assert_eq!(msg, "No users found.");
}

#[test]
fn keyboards_test_format_empty_keyboard_message_unnamed_only() {
    let msg = format_empty_keyboard_message("/url <name>", &vec![], 3);
    assert!(msg.contains("3 user(s) have no name set"));
    assert!(msg.contains("/users"));
}

#[test]
fn keyboards_test_format_empty_keyboard_message_skipped_and_unnamed() {
    let skipped = vec!["LongName".to_string()];
    let msg = format_empty_keyboard_message("/delete <name>", &skipped, 2);
    assert!(msg.contains("1 user(s) have names too long"));
    assert!(msg.contains("LongName"));
    assert!(msg.contains("2 user(s) have no name set"));
}

#[test]
fn keyboards_test_format_selection_message_no_skipped() {
    let msg = format_selection_message("Select a user:", &vec![], 0);
    assert_eq!(msg, "Select a user:");
}

#[test]
fn keyboards_test_format_selection_message_with_skipped() {
    let skipped = vec!["LongUserName".to_string()];
    let msg = format_selection_message("Select a user:", &skipped, 0);
    assert!(msg.contains("Select a user:"));
    assert!(msg.contains("LongUserName"));
    assert!(msg.contains("1 user(s)"));
}

#[test]
fn keyboards_test_format_selection_message_with_unnamed() {
    let msg = format_selection_message("Select a user:", &vec![], 3);
    assert!(msg.contains("Select a user:"));
    assert!(msg.contains("3 unnamed user(s) not shown"));
    assert!(msg.contains("/users"));
}

#[test]
fn keyboards_test_format_selection_message_with_skipped_and_unnamed() {
    let skipped = vec!["LongName".to_string()];
    let msg = format_selection_message("Select a user:", &skipped, 2);
    assert!(msg.contains("Select a user:"));
    assert!(msg.contains("LongName"));
    assert!(msg.contains("2 unnamed user(s) not shown"));
    assert_eq!(
        msg,
        "Select a user:\n\nNote: 1 user(s) have names too long for inline buttons. Use the command with the name directly: LongName\n2 unnamed user(s) not shown. Use /users to see them."
    );
}

#[test]
fn keyboards_test_delete_confirmation_keyboard() {
    let keyboard = delete_confirmation_keyboard("test-uuid-abc");
    assert_eq!(keyboard.rows.len(), 1);
    assert_eq!(keyboard.rows[0].len(), 2);
    assert_eq!(keyboard.rows[0][0].text, "Yes, delete");
    assert_eq!(keyboard.rows[0][1].text, "Cancel");
    assert_eq!(keyboard.rows[0][0].callback_data, "delete_confirm:test-uuid-abc");
    assert_eq!(keyboard.rows[0][1].callback_data, "delete_cancel:test-uuid-abc");
}

#[test]
fn keyboards_test_build_user_keyboard_prefixes() {
    let users = vec![user("uuid-1", "Alice"), user("uuid-2", "Bob")];
    for prefix in [URL_PREFIX, QR_PREFIX, DELETE_PREFIX] {
        let result = build_user_keyboard(&users, prefix);
        assert!(result.skipped_names.is_empty());
        assert_eq!(result.unnamed_count, 0);
        assert_eq!(result.keyboard.rows.len(), 2);
        assert_eq!(result.keyboard.rows[0][0].text, "Alice");
        assert_eq!(result.keyboard.rows[1][0].text, "Bob");
        assert_eq!(result.keyboard.rows[0][0].callback_data, format!("{}Alice", prefix));
        assert_eq!(result.keyboard.rows[1][0].callback_data, format!("{}Bob", prefix));
    }
}

#[test]
fn keyboards_test_build_user_keyboard_skips_empty_and_long_names() {
    let long_name = "a".repeat(58);
    let users = vec![user("uuid-1", "Alice"), user("uuid-2", ""), user("uuid-3", &long_name)];
    let result = build_user_keyboard(&users, DELETE_PREFIX);
    assert_eq!(result.keyboard.rows.len(), 1);
    assert_eq!(result.keyboard.rows[0][0].text, "Alice");
    assert_eq!(result.skipped_names, vec![long_name]);
    assert_eq!(result.unnamed_count, 1);
    // "delete:" is 7 bytes, so a 57-byte name still fits.
    let fits = build_user_keyboard(&vec![user("u", &"b".repeat(57))], DELETE_PREFIX);
    assert_eq!(fits.keyboard.rows.len(), 1);
}

#[test]
fn keyboards_test_build_user_keyboard_empty_list() {
    let result = build_user_keyboard(&vec![], URL_PREFIX);
    assert!(result.keyboard.rows.is_empty());
    assert!(result.skipped_names.is_empty());
    assert_eq!(result.unnamed_count, 0);
}

#[test]
fn skipped_names_are_cut_to_the_budget() {
    let skipped: Vec<String> = (0..400).map(|i| format!("user-with-a-long-name-{:03}", i)).collect();
    let msg = format_empty_keyboard_message("/url <name>", &skipped, 0);
    assert!(msg.contains("user-with-a-long-name-000"));
    assert!(msg.contains(" more"));
    assert!(msg.len() < 4096);
    let one = vec!["x".repeat(5000)];
    let msg = format_empty_keyboard_message("/url <name>", &one, 0);
    assert!(msg.ends_with("..."));
    assert!(msg.len() < 4096);
}

#[test]
fn keyboards_test_delete_confirmation_keyboard_callback_data() {
    let keyboard = delete_confirmation_keyboard("test-uuid-abc");
    let buttons = &keyboard.rows;

    let confirm_data = buttons[0][0].callback_data.clone();
    let cancel_data = buttons[0][1].callback_data.clone();

    assert_eq!(confirm_data, "delete_confirm:test-uuid-abc");
    assert_eq!(cancel_data, "delete_cancel:test-uuid-abc");
}

#[test]
fn keyboards_test_build_user_keyboard_url_prefix() {
    let users = vec![
        XrayUser {
            uuid: "uuid-1".to_string(),
            name: "Alice".to_string(),
            email: "Alice@vpn".to_string(),
            flow: String::new(),
            stats: TrafficStats::default(),
            online_count: 0,
        },
        XrayUser {
            uuid: "uuid-2".to_string(),
            name: "Bob".to_string(),
            email: "Bob@vpn".to_string(),
            flow: String::new(),
            stats: TrafficStats::default(),
            online_count: 0,
        },
    ];
    let result = build_user_keyboard(&users, URL_PREFIX);
    assert!(result.skipped_names.is_empty());
    assert_eq!(result.unnamed_count, 0);
    let buttons = &result.keyboard.rows;
    assert_eq!(buttons.len(), 2, "should have two rows");
    assert_eq!(buttons[0][0].text, "Alice");
    assert_eq!(buttons[1][0].text, "Bob");

    let alice_data = buttons[0][0].callback_data.clone();
    let bob_data = buttons[1][0].callback_data.clone();
    assert_eq!(alice_data, "url:Alice");
    assert_eq!(bob_data, "url:Bob");
}

#[test]
fn keyboards_test_build_user_keyboard_skips_empty_names() {
    let users = vec![
        XrayUser {
            uuid: "uuid-1".to_string(),
            name: "Alice".to_string(),
            email: "Alice@vpn".to_string(),
            flow: String::new(),
            stats: TrafficStats::default(),
            online_count: 0,
        },
        XrayUser {
            uuid: "uuid-2".to_string(),
            name: String::new(),
            email: "@vpn".to_string(),
            flow: String::new(),
            stats: TrafficStats::default(),
            online_count: 0,
        },
    ];
    let result = build_user_keyboard(&users, "url:");
    let buttons = &result.keyboard.rows;
    assert_eq!(buttons.len(), 1, "should skip unnamed user");
    assert_eq!(buttons[0][0].text, "Alice");
    assert_eq!(result.unnamed_count, 1);
}

#[test]
fn keyboards_test_build_user_keyboard_different_prefixes() {
    let users = vec![XrayUser {
        uuid: "uuid-1".to_string(),
        name: "Alice".to_string(),
        email: "Alice@vpn".to_string(),
        flow: String::new(),
        stats: TrafficStats::default(),
        online_count: 0,
    }];

    for prefix in &["url:", "qr:", "delete:"] {
        let result = build_user_keyboard(&users, prefix);
        let data = result.keyboard.rows[0][0].callback_data.clone();
        assert_eq!(data, format!("{}Alice", prefix));
    }
}

#[test]
fn keyboards_test_build_user_keyboard_qr_prefix() {
    let users = vec![
        XrayUser {
            uuid: "uuid-1".to_string(),
            name: "Alice".to_string(),
            email: "Alice@vpn".to_string(),
            flow: String::new(),
            stats: TrafficStats::default(),
            online_count: 0,
        },
        XrayUser {
            uuid: "uuid-2".to_string(),
            name: "Bob".to_string(),
            email: "Bob@vpn".to_string(),
            flow: String::new(),
            stats: TrafficStats::default(),
            online_count: 0,
        },
    ];
    let result = build_user_keyboard(&users, QR_PREFIX);
    assert!(result.skipped_names.is_empty());
    let buttons = &result.keyboard.rows;
    assert_eq!(buttons.len(), 2);
    assert_eq!(buttons[0][0].text, "Alice");
    assert_eq!(buttons[1][0].text, "Bob");

    let alice_data = buttons[0][0].callback_data.clone();
    let bob_data = buttons[1][0].callback_data.clone();
    assert_eq!(alice_data, "qr:Alice");
    assert_eq!(bob_data, "qr:Bob");
}

#[test]
fn keyboards_test_build_user_keyboard_delete_prefix() {
    let users = vec![
        XrayUser {
            uuid: "uuid-1".to_string(),
            name: "Alice".to_string(),
            email: "Alice@vpn".to_string(),
            flow: String::new(),
            stats: TrafficStats::default(),
            online_count: 0,
        },
        XrayUser {
            uuid: "uuid-2".to_string(),
            name: "Bob".to_string(),
            email: "Bob@vpn".to_string(),
            flow: String::new(),
            stats: TrafficStats::default(),
            online_count: 0,
        },
    ];
    let result = build_user_keyboard(&users, DELETE_PREFIX);
    assert!(result.skipped_names.is_empty());
    let buttons = &result.keyboard.rows;
    assert_eq!(buttons.len(), 2);
    assert_eq!(buttons[0][0].text, "Alice");
    assert_eq!(buttons[1][0].text, "Bob");

    let alice_data = buttons[0][0].callback_data.clone();
    let bob_data = buttons[1][0].callback_data.clone();
    assert_eq!(alice_data, "delete:Alice");
    assert_eq!(bob_data, "delete:Bob");
}

#[test]
fn keyboards_test_build_user_keyboard_skips_long_names() {
    // "delete:" is 7 bytes, so max name is 57 bytes
    let long_name = "a".repeat(58);
    let short_name = "Alice".to_string();
    let users = vec![
        XrayUser {
            uuid: "uuid-1".to_string(),
            name: short_name.clone(),
            email: "Alice@vpn".to_string(),
            flow: String::new(),
            stats: TrafficStats::default(),
            online_count: 0,
        },
        XrayUser {
            uuid: "uuid-2".to_string(),
            name: long_name.clone(),
            email: "long@vpn".to_string(),
            flow: String::new(),
            stats: TrafficStats::default(),
            online_count: 0,
        },
    ];
    let result = build_user_keyboard(&users, DELETE_PREFIX);
    assert_eq!(result.keyboard.rows.len(), 1);
    assert_eq!(result.keyboard.rows[0][0].text, "Alice");
    assert_eq!(result.skipped_names, vec![long_name]);
}

#[test]
fn keyboards_test_build_user_keyboard_all_skipped() {
    let long_name = "a".repeat(61);
    let users = vec![XrayUser {
        uuid: "uuid-1".to_string(),
        name: long_name.clone(),
        email: "long@vpn".to_string(),
        flow: String::new(),
        stats: TrafficStats::default(),
        online_count: 0,
    }];
    let result = build_user_keyboard(&users, URL_PREFIX);
    assert!(result.keyboard.rows.is_empty());
    assert_eq!(result.skipped_names, vec![long_name]);
}

#[test]
fn keyboards_test_build_user_keyboard_all_unnamed() {
    let users = vec![
        XrayUser {
            uuid: "uuid-1".to_string(),
            name: String::new(),
            email: "@vpn".to_string(),
            flow: String::new(),
            stats: TrafficStats::default(),
            online_count: 0,
        },
        XrayUser {
            uuid: "uuid-2".to_string(),
            name: String::new(),
            email: "@vpn".to_string(),
            flow: String::new(),
            stats: TrafficStats::default(),
            online_count: 0,
        },
    ];
    let result = build_user_keyboard(&users, URL_PREFIX);
    assert!(result.keyboard.rows.is_empty());
    assert!(result.skipped_names.is_empty());
    assert_eq!(result.unnamed_count, 2);
}

#[test]
fn skipped_names_that_fit_are_all_shown() {
    let long = "x".repeat(3890);
    let skipped = vec![long.clone(), "b".to_string()];
    let msg = format_empty_keyboard_message("/url <name>", &skipped, 0);
    assert!(msg.ends_with(&format!("{}, b", long)));
    assert!(!msg.contains(" more"));
}
