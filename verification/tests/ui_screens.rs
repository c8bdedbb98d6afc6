use amnezia_xray_admin::ui::add_user::{self, AddUserResult, AddUserState};
use amnezia_xray_admin::ui::dashboard::{self, DashboardState, UserTable};
use amnezia_xray_admin::ui::qr::{self, QrBody, QrViewState};
use amnezia_xray_admin::ui::telegram_setup::{self, DeployStatus, TelegramSetupState};
use amnezia_xray_admin::ui::theme::{
    accent_style, alert_style, border_style, header_style, muted_style, secondary_style, selected_style,
    status_style, text_style, title_style, Piece, Style, ACCENT, ALERT, BG, BORDER, MUTED, PRIMARY, SECONDARY,
};
use amnezia_xray_admin::ui::user_detail::{self, DetailMode, UserDetailState};
use amnezia_xray_admin::ui::Rect;
use amnezia_xray_admin::xray::types::{TrafficStats, XrayUser};

fn make_user(name: &str, uuid: &str, up: u64, down: u64, online: u32) -> XrayUser {
    XrayUser {
        uuid: uuid.to_string(),
        name: name.to_string(),
        email: format!("{}@vpn", name),
        flow: "xtls-rprx-vision".to_string(),
        stats: TrafficStats {
            uplink: up,
            downlink: down,
        },
        online_count: online,
    }
}

fn texts(line: &[Piece]) -> Vec<&str> {
    line.iter().map(|p| p.text.as_str()).collect()
}

fn joined(lines: &[Vec<Piece>]) -> Vec<String> {
    lines.iter().map(|l| l.iter().map(|p| p.text.as_str()).collect::<String>()).collect()
}

#[test]
fn test_color_values() {
    assert_eq!(BG, 0x0a0a0a);
    assert_eq!(PRIMARY, 0x00ff41);
    assert_eq!(SECONDARY, 0x00d4ff);
    assert_eq!(ACCENT, 0xff00ff);
    assert_eq!(ALERT, 0xff0040);
    assert_eq!(MUTED, 0x444444);
    assert_eq!(BORDER, 0x1a3a1a);
}

#[test]
fn test_styles_have_correct_fg() {
    assert_eq!(title_style().fg, Some(PRIMARY));
    assert_eq!(text_style().fg, Some(PRIMARY));
    assert_eq!(muted_style().fg, Some(MUTED));
    assert_eq!(accent_style().fg, Some(ACCENT));
    assert_eq!(alert_style().fg, Some(ALERT));
    assert_eq!(secondary_style().fg, Some(SECONDARY));
    assert_eq!(status_style().fg, Some(SECONDARY));
    assert_eq!(border_style().fg, Some(BORDER));
}

#[test]
fn test_selected_style_inverts_colors() {
    let style = selected_style();
    assert_eq!(style.bg, Some(PRIMARY));
    assert_eq!(style.fg, Some(0x0a0a0a));
}

#[test]
fn title_and_header_styles_are_bold() {
    assert!(title_style().bold);
    assert!(header_style().bold);
    assert!(!text_style().bold);
    assert_eq!(text_style().bg, Some(BG));
    assert_eq!(title_style().bg, None);
}

#[test]
fn test_draw_qr_view_renders_without_panic() {
    let mut state = QrViewState::default();
    state.open("alice".to_string(), "vless://uuid@1.2.3.4:443?test=1#alice".to_string());
    let screen = qr::draw(&state);
    assert_eq!(screen.title.text, " QR: alice ");
    match screen.body {
        QrBody::Code { code, url } => {
            assert_eq!(code.len(), state.qr_lines.len());
            assert_eq!(code[0][0].text, state.qr_lines[0]);
            assert_eq!(joined(&url), vec!["".to_string(), "vless://uuid@1.2.3.4:443?test=1#alice".to_string()]);
        }
        QrBody::Message(_) => panic!("expected the code"),
    }
}

#[test]
fn test_draw_qr_view_empty_state() {
    let state = QrViewState::default();
    match qr::draw(&state).body {
        QrBody::Message(p) => {
            assert_eq!(p.text, "No QR code to display");
            assert_eq!(p.style, muted_style());
        }
        QrBody::Code { .. } => panic!("expected a message"),
    }
}

#[test]
fn test_draw_qr_view_with_error() {
    let state = QrViewState {
        user_name: "bob".to_string(),
        vless_url: String::new(),
        qr_lines: Vec::new(),
        error: Some("test error".to_string()),
    };
    let screen = qr::draw(&state);
    assert_eq!(screen.title.text, " QR: bob ");
    match screen.body {
        QrBody::Message(p) => {
            assert_eq!(p.text, "Error: test error");
            assert_eq!(p.style, alert_style());
        }
        QrBody::Code { .. } => panic!("expected a message"),
    }
}

#[test]
fn test_draw_qr_view_small_terminal() {
    let mut state = QrViewState::default();
    state.open("alice".to_string(), "short".to_string());
    match qr::draw(&state).body {
        QrBody::Code { code, url } => {
            assert!(!code.is_empty());
            assert_eq!(url[1][0].text, "short");
        }
        QrBody::Message(_) => panic!("expected the code"),
    }
}

#[test]
fn dashboard_header_shows_host_version_traffic_and_spinner() {
    let mut state = DashboardState::default();
    state.server_host = "1.2.3.4".to_string();
    state.server_version = "25.1.1".to_string();
    state.total_upload = 1536;
    state.total_download = 512;
    state.users = vec![make_user("alice", "aaaaaaaa-1111", 0, 0, 0)];
    let (header, _) = dashboard::draw(&state);
    assert_eq!(header.len(), 2);
    assert!(header[0].is_empty());
    assert_eq!(
        texts(&header[1]),
        vec![
            "  Host: ",
            "1.2.3.4",
            "  |  Xray: ",
            "25.1.1",
            "  |  ",
            "Up: 1.5 KB  Down: 512 B",
            "  |  Users: 1",
            " \u{280b} Loading..."
        ]
    );
    state.loading = false;
    state.server_host.clear();
    state.server_version.clear();
    let (header, _) = dashboard::draw(&state);
    assert_eq!(header[1][1].text, "connecting...");
    assert_eq!(header[1][3].text, "-");
    assert_eq!(header[1][7].text, "");
}

#[test]
fn dashboard_table_rows_follow_users() {
    let mut state = DashboardState::default();
    state.users = vec![
        make_user("alice", "12345678-abcd", 2048, 0, 2),
        make_user("bob", "87654321-dcba", 0, 1024 * 1024, 0),
    ];
    match dashboard::draw_user_table(&state) {
        UserTable::Rows { header, rows } => {
            assert_eq!(texts(&header), vec!["", "Name", "UUID", "Upload", "Download", "Online"]);
            assert_eq!(texts(&rows[0]), vec![" ", "alice", "12345678", "2.0 KB", "0 B", "\u{25cf} (2)"]);
            assert_eq!(rows[0][5].style, title_style());
            assert_eq!(texts(&rows[1]), vec![" ", "bob", "87654321", "0 B", "1.0 MB", "\u{25cf}"]);
            assert_eq!(rows[1][5].style, alert_style());
            assert_eq!(rows[1][0].style, Style { fg: None, bg: None, bold: false });
        }
        UserTable::Message(_) => panic!("expected rows"),
    }
}

#[test]
fn dashboard_without_users_shows_a_message() {
    let mut state = DashboardState::default();
    match dashboard::draw_user_table(&state) {
        UserTable::Message(lines) => assert_eq!(joined(&lines)[1], "  Loading user data..."),
        UserTable::Rows { .. } => panic!("expected a message"),
    }
    state.loading = false;
    match dashboard::draw_user_table(&state) {
        UserTable::Message(lines) => {
            assert_eq!(joined(&lines)[1], "  No users found. Press [a] to add a user.")
        }
        UserTable::Rows { .. } => panic!("expected a message"),
    }
}

#[test]
fn user_detail_view_lists_ips_and_keeps_keys_at_the_bottom() {
    let mut state = UserDetailState::default();
    state.open(make_user("alice", "uuid-1", 1024, 0, 3));
    state.online_ips = (1..=7).map(|i| format!("10.0.0.{}", i)).collect();
    let panel = user_detail::draw(&state);
    assert_eq!(panel.title.text, " User Detail ");
    let lines = joined(&panel.rows);
    assert_eq!(lines[1], "  Name:  alice");
    assert_eq!(lines[6], "    Upload:   1.0 KB");
    assert_eq!(lines[10], "    \u{25cf} Online (3)");
    assert_eq!(lines[11], "    Connected IPs:");
    assert_eq!(lines[12], "      10.0.0.1");
    assert_eq!(lines[16], "      10.0.0.5");
    assert_eq!(lines[17], "      ... and 2 more");
    assert_eq!(lines.len(), 18);
    assert_eq!(texts(&panel.footer), vec!["  [Esc] back  [d]elete  [c]opy URL  [q] QR code"]);
}

#[test]
fn user_detail_delete_modes() {
    let mut state = UserDetailState::default();
    state.open(make_user("alice", "uuid-1", 0, 0, 0));
    state.mode = DetailMode::DeleteConfirm;
    state.delete_input = "ali".to_string();
    let panel = user_detail::draw(&state);
    assert_eq!(panel.rows[6][1].text, "ali_");
    assert_eq!(panel.rows[6][1].style, alert_style());
    state.delete_input = "alice".to_string();
    assert_eq!(user_detail::draw(&state).rows[6][1].style, title_style());

    state.mode = DetailMode::DeleteSuccess;
    let lines = joined(&user_detail::draw(&state).rows);
    assert_eq!(lines[3], "  Removed: alice");

    state.mode = DetailMode::DeleteError("x".repeat(70));
    let lines = joined(&user_detail::draw(&state).rows);
    assert_eq!(lines[3], format!("  {}", "x".repeat(60)));

    let empty = UserDetailState::default();
    assert_eq!(joined(&user_detail::draw(&empty).rows), vec!["  No user selected".to_string()]);
}

#[test]
fn add_user_dialog_by_state() {
    let area = Rect { x: 0, y: 0, width: 100, height: 40 };
    let mut state = AddUserState::default();
    state.name = "bob".to_string();
    let (rect, panel) = add_user::draw(&state, area);
    assert_eq!(rect, Rect { x: 25, y: 15, width: 50, height: 9 });
    assert_eq!(panel.title.text, " Add User ");
    assert_eq!(joined(&panel.rows)[3], "  > bob_");

    state.result = AddUserResult::Success {
        name: "bob".to_string(),
        uuid: "0123456789012345678901234567890123456789".to_string(),
    };
    let (rect, panel) = add_user::draw(&state, area);
    assert_eq!(rect, Rect { x: 22, y: 14, width: 56, height: 11 });
    assert_eq!(panel.title.text, " User Added ");
    assert_eq!(joined(&panel.rows)[4], "  UUID: 012345678901234567890123456789012345");

    state.result = AddUserResult::Error("é".repeat(60));
    let (_, panel) = add_user::draw(&state, area);
    assert_eq!(panel.title.text, " Error ");
    assert_eq!(joined(&panel.rows)[3], format!("  {}", "é".repeat(50)));
}

#[test]
fn telegram_setup_screen_follows_focus_and_status() {
    let mut state = TelegramSetupState::from_token(Some("123456789:ABCDEF"));
    let screen = telegram_setup::draw(&state);
    assert_eq!(screen.title.text, " Telegram Bot Setup ");
    assert_eq!(screen.instructions.len(), 6);
    assert_eq!(texts(&screen.token), vec!["Bot Token", "> ", "12345***********_"]);
    assert_eq!(screen.button.style, secondary_style());
    assert!(screen.status.is_none());

    state.focus_next();
    state.deploy_status = DeployStatus::Error("boom".to_string());
    let screen = telegram_setup::draw(&state);
    assert_eq!(texts(&screen.token), vec!["Bot Token", ": ", "12345***********"]);
    assert_eq!(screen.button.style, selected_style());
    let status = screen.status.expect("a status line");
    assert_eq!(status.text, "  Error: boom");
    assert_eq!(status.style, alert_style());
}
