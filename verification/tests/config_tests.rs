use amnezia_xray_admin::config::{Cli, Config};

fn empty_cli() -> Cli {
    Cli {
        host: None,
        port: None,
        user: None,
        key_path: None,
        list_users: false,
        user_url: None,
        user_qr: None,
        online_status: false,
        server_info: false,
        local: false,
        telegram_bot: false,
        telegram_token: None,
        admin_id: None,
        add_user: None,
        delete_user: None,
        yes: false,
    }
}

#[test]
fn test_default_config() {
    let config = Config::default();
    assert_eq!(config.host, None);
    assert_eq!(config.port, 22);
    assert_eq!(config.user, "root");
    assert_eq!(config.key_path, None);
}

#[test]
fn test_merge_cli_all_fields() {
    let mut config = Config::default();
    let cli = Cli {
        host: Some("5.6.7.8".to_string()),
        port: Some(3333),
        user: Some("testuser".to_string()),
        key_path: Some("/tmp/key".to_string()),
        ..empty_cli()
    };
    config.merge_cli(&cli);

    assert_eq!(config.host.as_deref(), Some("5.6.7.8"));
    assert_eq!(config.port, 3333);
    assert_eq!(config.user, "testuser");
    assert_eq!(config.key_path, Some("/tmp/key".to_string()));
}

#[test]
fn test_merge_cli_partial_preserves_config() {
    let mut config = Config {
        host: Some("original.host".to_string()),
        port: 2222,
        user: "original".to_string(),
        key_path: Some("/original/key".to_string()),
        telegram_token: None,
        telegram_admin_chat_id: None,
        ..Config::default()
    };
    let cli = Cli { port: Some(4444), ..empty_cli() };
    config.merge_cli(&cli);

    assert_eq!(config.host.as_deref(), Some("original.host"));
    assert_eq!(config.port, 4444);
    assert_eq!(config.user, "original");
    assert_eq!(config.key_path, Some("/original/key".to_string()));
}

#[test]
fn test_merge_cli_none_preserves_defaults() {
    let mut config = Config::default();
    let cli = empty_cli();
    config.merge_cli(&cli);
    assert_eq!(config, Config::default());
}

#[test]
fn test_merge_cli_admin_id() {
    let mut config = Config::default();
    let cli = Cli { admin_id: Some(987654321), ..empty_cli() };
    config.merge_cli(&cli);
    assert_eq!(config.telegram_admin_chat_id, Some(987654321));
}
