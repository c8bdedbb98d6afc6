use amnezia_xray_admin::backend::{resolve_connection, resolve_connection_with};
use amnezia_xray_admin::config::{expand_key_path, expand_tilde, Config, SshHostEntry};

fn config(host: Option<&str>, ssh_host: Option<&str>, port: u16, user: &str, key: Option<&str>) -> Config {
    Config {
        host: host.map(|s| s.to_string()),
        port,
        user: user.to_string(),
        key_path: key.map(|s| s.to_string()),
        ssh_host: ssh_host.map(|s| s.to_string()),
        container: "amnezia-xray".to_string(),
        telegram_token: None,
        telegram_admin_chat_id: None,
        bot_image: String::new(),
        snapshot_dir: None,
    }
}

fn check_with_host() {
    let c = config(Some("1.2.3.4"), None, 2222, "admin", None);
    let (host, port, user, key) = resolve_connection(&c, None).unwrap();
    assert_eq!(host, "1.2.3.4");
    assert_eq!(port, 2222);
    assert_eq!(user, "admin");
    assert!(key.is_none());
}

fn check_no_host() {
    let result = resolve_connection(&Config::default(), None);
    assert!(result.is_err());
    assert_eq!(result.unwrap_err().message(), "Config error: no host configured");
}

fn check_alias_not_in_ssh_config() {
    let c = config(None, Some("nonexistent-alias"), 22, "root", None);
    let (host, port, user, _key) = resolve_connection(&c, None).unwrap();
    assert_eq!(host, "nonexistent-alias");
    assert_eq!(port, 22);
    assert_eq!(user, "root");
}

fn check_expands_tilde() {
    let c = config(Some("1.2.3.4"), None, 22, "root", Some("~/.ssh/id_ed25519"));
    let (_host, _port, _user, key) = resolve_connection(&c, None).unwrap();
    let key_path = key.expect("key_path should be Some");
    assert!(!key_path.starts_with("~/"), "tilde should be expanded, got: {}", key_path);
    assert!(key_path.ends_with(".ssh/id_ed25519"), "suffix kept, got: {}", key_path);
}

fn check_absolute_key_unchanged() {
    let c = config(Some("1.2.3.4"), None, 22, "root", Some("/home/user/.ssh/id_rsa"));
    let (_host, _port, _user, key) = resolve_connection(&c, None).unwrap();
    assert_eq!(key.expect("key_path should be Some"), "/home/user/.ssh/id_rsa");
}

#[test]
fn backend_test_resolve_connection_with_host() {
    check_with_host();
}

#[test]
fn backend_test_resolve_connection_no_host() {
    check_no_host();
}

#[test]
fn backend_test_resolve_connection_ssh_host_not_in_config() {
    check_alias_not_in_ssh_config();
}

#[test]
fn backend_test_resolve_connection_expands_tilde_in_key_path() {
    check_expands_tilde();
}

#[test]
fn backend_test_resolve_connection_absolute_key_path_unchanged() {
    check_absolute_key_unchanged();
}

#[test]
fn backend_test_expand_key_path_none() {
    assert!(expand_key_path(&None).is_none());
}

#[test]
fn main_test_resolve_connection_with_host() {
    check_with_host();
}

#[test]
fn main_test_resolve_connection_no_host() {
    check_no_host();
}

#[test]
fn main_test_resolve_connection_ssh_host_not_in_config() {
    check_alias_not_in_ssh_config();
}

#[test]
fn main_test_resolve_connection_expands_tilde_in_key_path() {
    check_expands_tilde();
}

#[test]
fn main_test_resolve_connection_absolute_key_path_unchanged() {
    check_absolute_key_unchanged();
}

#[test]
fn main_test_expand_key_path_none() {
    assert!(expand_key_path(&None).is_none());
}

#[test]
fn resolve_connection_uses_ssh_config_entry() {
    let c = config(None, Some("vps"), 22, "root", Some("~/.ssh/default"));
    let entry = SshHostEntry {
        hostname: Some("10.0.0.5".to_string()),
        port: Some(2200),
        user: None,
        identity_file: Some("~/.ssh/vps_key".to_string()),
    };
    let (host, port, user, key) = resolve_connection_with(&c, Some(&entry), Some("/home/me")).unwrap();
    assert_eq!(host, "10.0.0.5");
    assert_eq!(port, 2200);
    assert_eq!(user, "root");
    assert_eq!(key, Some("/home/me/.ssh/vps_key".to_string()));
}

#[test]
fn test_expand_tilde() {
    let result = expand_tilde("~/test/path");
    assert!(!result.starts_with("~/"));
    assert!(result.ends_with("/test/path"));
    assert_eq!(expand_tilde("/absolute/path"), "/absolute/path");
    let result = expand_tilde("~/");
    assert!(!result.starts_with("~/"));
}

#[test]
fn test_expand_tilde_no_expand_for_non_tilde() {
    assert_eq!(expand_tilde("relative/path"), "relative/path");
    assert_eq!(expand_tilde("~notapath"), "~notapath");
}
