use amnezia_xray_admin::json::{parse_json, render_pretty, Json};
use amnezia_xray_admin::app::{App, Screen};
use amnezia_xray_admin::backend::{LocalBackend, NativeLocalBackend, XrayBackend};
use amnezia_xray_admin::error::AppError;
use amnezia_xray_admin::native::url::{render_qr_ascii, render_qr_png, render_xhttp_url, XhttpUrlParams};
use amnezia_xray_admin::ssh::CommandOutput;
use amnezia_xray_admin::xray::types::{TrafficStats, XrayUser};
use amnezia_xray_admin::xray::client::validate_name;
use amnezia_xray_admin::xray::PUBLIC_KEY_PATH;

#[test]
fn test_app_new_and_quit() {
    let mut app = App::new();
    assert_eq!(app.screen, Screen::Dashboard);
    assert!(app.running);
    app.quit();
    assert!(!app.running);
}

#[test]
fn test_display_ssh_error() {
    let err = AppError::Ssh("connection refused".to_string());
    assert_eq!(err.message(), "SSH error: connection refused");
}

#[test]
fn test_display_xray_error() {
    let err = AppError::Xray("gRPC unavailable".to_string());
    assert_eq!(err.message(), "Xray error: gRPC unavailable");
}

#[test]
fn test_display_config_error() {
    let err = AppError::Config("missing field".to_string());
    assert_eq!(err.message(), "Config error: missing field");
}

#[test]
fn test_display_io_error() {
    let io_err = std::io::Error::new(std::io::ErrorKind::NotFound, "file not found");
    let err = AppError::Io(io_err);
    assert_eq!(err.message(), "IO error: file not found");
}

#[test]
fn test_from_io_error() {
    let io_err = std::io::Error::new(std::io::ErrorKind::PermissionDenied, "access denied");
    let err: AppError = io_err.into();
    assert!(matches!(err, AppError::Io(_)));
    assert_eq!(err.message(), "IO error: access denied");
}

#[test]
fn test_error_source_io() {
    let io_err = std::io::Error::new(std::io::ErrorKind::NotFound, "not found");
    let err = AppError::Io(io_err);
    assert!(err.has_source());
}

#[test]
fn test_error_source_none_for_string_variants() {
    let err = AppError::Ssh("test".to_string());
    assert!(!err.has_source());
    let err = AppError::Xray("test".to_string());
    assert!(!err.has_source());
    let err = AppError::Config("test".to_string());
    assert!(!err.has_source());
}

#[test]
fn test_debug_impl() {
    let err = AppError::Ssh("test".to_string());
    let debug = format!("{:?}", err);
    assert!(debug.contains("Ssh"));
    assert!(debug.contains("test"));
}

#[test]
fn test_command_output_success() {
    let output = CommandOutput {
        stdout: "hello".to_string(),
        stderr: String::new(),
        exit_code: 0,
    };
    assert!(output.success());
}

#[test]
fn test_command_output_failure() {
    let output = CommandOutput {
        stdout: String::new(),
        stderr: "error".to_string(),
        exit_code: 1,
    };
    assert!(!output.success());
}

#[test]
fn test_command_output_combined() {
    let both = CommandOutput { stdout: " out \n".into(), stderr: "\terr ".into(), exit_code: 1 };
    assert_eq!(both.combined_output(), "out\nerr");
    let only_err = CommandOutput { stdout: "  ".into(), stderr: "err".into(), exit_code: 1 };
    assert_eq!(only_err.combined_output(), "err");
    let only_out = CommandOutput { stdout: "out".into(), stderr: String::new(), exit_code: 0 };
    assert_eq!(only_out.combined_output(), "out");
}

#[test]
fn xhttp_url_format_matches_expected() {
    let params = XhttpUrlParams {
        uuid: "00000000-0000-0000-0000-000000000001".into(),
        host: "1.2.3.4".into(),
        port: 443,
        path: "/testpath".into(),
        sni: "www.sberbank.ru".into(),
        public_key: "TEST_PUB".into(),
        short_id: "TESTSID".into(),
        name: "alice".into(),
    };
    let url = render_xhttp_url(&params);
    assert_eq!(
        url,
        "vless://00000000-0000-0000-0000-000000000001@1.2.3.4:443?encryption=none&type=xhttp&path=%2Ftestpath&security=reality&sni=www.sberbank.ru&fp=chrome&pbk=TEST_PUB&sid=TESTSID#alice"
    );
}

#[test]
fn test_email_from_name() {
    assert_eq!(XrayUser::email_from_name("alice"), "alice@vpn");
    assert_eq!(XrayUser::email_from_name("bob"), "bob@vpn");
}

#[test]
fn test_traffic_stats_default() {
    let stats = TrafficStats::default();
    assert_eq!(stats.uplink, 0);
    assert_eq!(stats.downlink, 0);
}

/// Backend used by tests: reports a fixed container and host.
pub struct MockBackend {
    container: String,
    host: String,
}

impl MockBackend {
    pub fn new(container: &str, hostname: &str) -> Self {
        Self { container: container.to_string(), host: hostname.to_string() }
    }
}

impl XrayBackend for MockBackend {
    fn container_name(&self) -> &str {
        &self.container
    }

    fn hostname(&self) -> &str {
        &self.host
    }
}

#[test]
fn test_mock_backend_accessors() {
    let backend = MockBackend::new("test-container", "1.2.3.4");
    assert_eq!(backend.container_name(), "test-container");
    assert_eq!(backend.hostname(), "1.2.3.4");
}

#[test]
fn test_local_backend_accessors() {
    let backend = LocalBackend::new("10.0.0.1".to_string());
    assert_eq!(backend.container_name(), "");
    assert_eq!(backend.hostname(), "10.0.0.1");
}

#[test]
fn test_local_backend_as_dyn_trait() {
    let backend = LocalBackend::new("1.2.3.4".to_string());
    let dyn_ref: &dyn XrayBackend = &backend;
    assert_eq!(dyn_ref.container_name(), "");
    assert_eq!(dyn_ref.hostname(), "1.2.3.4");
}

#[test]
fn test_native_local_backend_accessors() {
    let backend = NativeLocalBackend::new("5.6.7.8".to_string());
    assert_eq!(backend.container_name(), "");
    assert_eq!(backend.hostname(), "5.6.7.8");
}

#[test]
fn test_public_key_path_is_inside_container() {
    assert_eq!(PUBLIC_KEY_PATH, "/opt/amnezia/xray/xray_public.key");
    assert!(PUBLIC_KEY_PATH.starts_with("/opt/amnezia/"));
}

#[test]
fn validate_name_rejects_quotes() {
    assert!(validate_name("foo'bar").is_err());
    assert!(validate_name("foo\"bar").is_err());
    assert!(validate_name("").is_err());
    assert!(validate_name("ok name").is_ok());
    assert!(validate_name("Admin [macOS Tahoe (26.3.1)]").is_ok());
    assert!(validate_name("user-1_a.b").is_ok());
}

#[test]
fn qr_produces_valid_png() {
    let url = "vless://test";
    let png = render_qr_png(url).unwrap();
    // PNG magic header
    assert_eq!(&png[..8], &[0x89, 0x50, 0x4E, 0x47, 0x0D, 0x0A, 0x1A, 0x0A]);
}

#[test]
fn ascii_qr_non_empty() {
    let ascii = render_qr_ascii("vless://test");
    assert!(ascii.len() > 100);
    assert!(ascii.contains('\n'));
}

#[test]
fn other_numbers_survive_a_round_trip() {
    let j = parse_json(r#"{"a": -5, "b": 1.5, "c": 7}"#).unwrap();
    match &j {
        Json::Object(es) => {
            assert!(matches!(es[0].1, Json::Num(_)));
            assert!(matches!(es[1].1, Json::Num(_)));
            assert!(matches!(es[2].1, Json::UInt(7)));
        }
        _ => panic!("expected an object"),
    }
    let text = render_pretty(&j);
    let again = parse_json(&text).unwrap();
    assert_eq!(render_pretty(&again), text);
    assert!(text.contains("-5") && text.contains("1.5"));
}
