use amnezia_xray_admin::config::{Cli, Config};
use amnezia_xray_admin::telegram::{
    is_admin, Command, DELETE_CANCEL_PREFIX, DELETE_CONFIRM_PREFIX, DELETE_PREFIX, QR_PREFIX,
    URL_PREFIX,
};

fn empty_cli() -> Cli {
    Cli {
        host: None,
        port: None,
        user: None,
        key_path: None,
        list_users: false,
        user_url: None,
        user_qr: None,
        online_status: false,
        server_info: false,
        local: false,
        telegram_bot: false,
        telegram_token: None,
        admin_id: None,
        add_user: None,
        delete_user: None,
        yes: false,
    }
}

#[test]
fn mod_test_is_admin_no_admin_configured() {
    let config = Config::default();
    assert!(!is_admin(config.telegram_admin_chat_id, 12345));
}

#[test]
fn mod_test_is_admin_matching() {
    let config = Config {
        telegram_admin_chat_id: Some(12345),
        ..Default::default()
    };
    assert!(is_admin(config.telegram_admin_chat_id, 12345));
}

#[test]
fn mod_test_is_admin_wrong_user() {
    let config = Config {
        telegram_admin_chat_id: Some(12345),
        ..Default::default()
    };
    assert!(!is_admin(config.telegram_admin_chat_id, 99999));
}

#[test]
fn mod_test_is_admin_negative_id() {
    // Telegram group chat IDs can be negative
    let config = Config {
        telegram_admin_chat_id: Some(-100123456),
        ..Default::default()
    };
    assert!(is_admin(config.telegram_admin_chat_id, -100123456));
    assert!(!is_admin(config.telegram_admin_chat_id, 100123456));
}

#[test]
fn mod_test_bot_commands_parse() {
    let cmds = Command::bot_commands();
    let descriptions: String = cmds
        .iter()
        .map(|c| c.0.as_str())
        .collect::<Vec<_>>()
        .join(",");
    assert!(descriptions.contains("start"), "commands: {}", descriptions);
    assert!(descriptions.contains("help"), "commands: {}", descriptions);
    assert!(descriptions.contains("users"), "commands: {}", descriptions);
    assert!(
        descriptions.contains("status"),
        "commands: {}",
        descriptions
    );
    assert!(descriptions.contains("add"), "commands: {}", descriptions);
    assert!(
        descriptions.contains("delete"),
        "commands: {}",
        descriptions
    );
}

#[test]
fn mod_test_bot_commands_include_url_and_qr() {
    let cmds = Command::bot_commands();
    let descriptions: String = cmds
        .iter()
        .map(|c| c.0.as_str())
        .collect::<Vec<_>>()
        .join(",");
    assert!(descriptions.contains("url"), "commands: {}", descriptions);
    assert!(descriptions.contains("qr"), "commands: {}", descriptions);
}

#[test]
fn mod_test_url_callback_data_parsing() {
    let callback_data = "url:Alice";
    let user_name = callback_data.strip_prefix(URL_PREFIX);
    assert_eq!(user_name, Some("Alice"));

    let callback_data = "url:Bob's Phone [iOS]";
    let user_name = callback_data.strip_prefix(URL_PREFIX);
    assert_eq!(user_name, Some("Bob's Phone [iOS]"));
}

#[test]
fn mod_test_url_callback_data_no_match() {
    let callback_data = "qr:Alice";
    assert!(callback_data.strip_prefix(URL_PREFIX).is_none());
}

#[test]
fn mod_test_qr_callback_data_parsing() {
    let callback_data = "qr:Alice";
    let user_name = callback_data.strip_prefix(QR_PREFIX);
    assert_eq!(user_name, Some("Alice"));

    let callback_data = "qr:Bob's Phone [iOS]";
    let user_name = callback_data.strip_prefix(QR_PREFIX);
    assert_eq!(user_name, Some("Bob's Phone [iOS]"));
}

#[test]
fn mod_test_qr_callback_data_no_match() {
    let callback_data = "url:Alice";
    assert!(callback_data.strip_prefix(QR_PREFIX).is_none());

    let callback_data = "delete:Alice";
    assert!(callback_data.strip_prefix(QR_PREFIX).is_none());
}

#[test]
fn mod_test_delete_callback_data_parsing() {
    let callback_data = "delete:Alice";
    let user_name = callback_data.strip_prefix(DELETE_PREFIX);
    assert_eq!(user_name, Some("Alice"));

    let callback_data = "delete:Bob's Phone [iOS]";
    let user_name = callback_data.strip_prefix(DELETE_PREFIX);
    assert_eq!(user_name, Some("Bob's Phone [iOS]"));
}

#[test]
fn mod_test_delete_callback_data_no_match() {
    let callback_data = "url:Alice";
    assert!(callback_data.strip_prefix(DELETE_PREFIX).is_none());

    let callback_data = "qr:Alice";
    assert!(callback_data.strip_prefix(DELETE_PREFIX).is_none());
}

#[test]
fn mod_test_delete_prefix_does_not_match_confirm_cancel() {
    let confirm_data = "delete_confirm:uuid-123";
    assert!(confirm_data.strip_prefix(DELETE_PREFIX).is_none());

    let cancel_data = "delete_cancel:uuid-123";
    assert!(cancel_data.strip_prefix(DELETE_PREFIX).is_none());
}

#[test]
fn mod_test_delete_confirm_cancel_prefixes_distinct() {
    assert_ne!(DELETE_PREFIX, DELETE_CONFIRM_PREFIX);
    assert_ne!(DELETE_PREFIX, DELETE_CANCEL_PREFIX);
    assert_ne!(DELETE_CONFIRM_PREFIX, DELETE_CANCEL_PREFIX);

    assert!(!DELETE_CONFIRM_PREFIX.starts_with(DELETE_PREFIX));
    assert!(!DELETE_CANCEL_PREFIX.starts_with(DELETE_PREFIX));
}

#[test]
fn mod_test_admin_id_merged_into_config() {
    let mut config = Config::default();
    assert_eq!(config.telegram_admin_chat_id, None);

    let cli = Cli { admin_id: Some(999), ..empty_cli() };
    config.merge_cli(&cli);
    assert_eq!(config.telegram_admin_chat_id, Some(999));
}
