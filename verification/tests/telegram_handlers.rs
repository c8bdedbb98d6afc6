use amnezia_xray_admin::error::AppError;
use amnezia_xray_admin::ssh::CommandOutput;
use amnezia_xray_admin::telegram::handlers::{
    delete_target, name_from_email, qr_caption, qr_reply, stats_lookup, status_reply,
    trimmed_output, uptime_from_output, users_for_keyboard, users_for_listing,
};
use amnezia_xray_admin::telegram::keyboards::UserKeyboardResult;
use amnezia_xray_admin::telegram::keyboards::{build_user_keyboard, Keyboard};
use amnezia_xray_admin::telegram::{
    error_reply, keyboard_reply, plan_callback, plan_command, qr_sent_text, CallbackPlan, Choice,
    Command, CommandPlan, DELETE_PREFIX,
};
use amnezia_xray_admin::text::parse_u64;
use amnezia_xray_admin::xray::config_render::ClientEntry;
use amnezia_xray_admin::xray::types::TrafficStats;

fn entry(uuid: &str, email: &str) -> ClientEntry {
    ClientEntry { uuid: uuid.to_string(), email: email.to_string() }
}

fn out(stdout: &str, exit_code: u32) -> CommandOutput {
    CommandOutput { stdout: stdout.to_string(), stderr: String::new(), exit_code }
}

#[test]
fn names_drop_the_vpn_suffix_once() {
    assert_eq!(name_from_email("alice@vpn"), "alice");
    assert_eq!(name_from_email("alice"), "alice");
    assert_eq!(name_from_email("@vpn"), "");
    assert_eq!(name_from_email("a@vpn@vpn"), "a@vpn");
    assert_eq!(name_from_email("alice@vpn.org"), "alice@vpn.org");
}

#[test]
fn listing_pairs_each_client_with_its_counters() {
    let clients = vec![entry("u1", "alice@vpn"), entry("u2", "bob@vpn")];
    let stats = vec![(
        "alice@vpn".to_string(),
        TrafficStats { uplink: 10, downlink: 20 },
    )];
    let rows = users_for_listing(&clients, &stats);
    assert_eq!(rows.len(), 2);
    assert_eq!(rows[0].0.name, "alice");
    assert_eq!(rows[0].0.uuid, "u1");
    assert_eq!(rows[0].0.email, "alice@vpn");
    assert_eq!(rows[0].0.flow, "");
    assert_eq!(rows[0].1, TrafficStats { uplink: 10, downlink: 20 });
    assert_eq!(rows[0].0.stats, TrafficStats { uplink: 10, downlink: 20 });
    assert_eq!(rows[0].2, 0);
    assert_eq!(rows[1].0.name, "bob");
    assert_eq!(rows[1].1, TrafficStats::default());
}

#[test]
fn stats_lookup_finds_an_email_or_gives_zero() {
    let stats = vec![
        ("a@vpn".to_string(), TrafficStats { uplink: 1, downlink: 2 }),
        ("b@vpn".to_string(), TrafficStats { uplink: 3, downlink: 4 }),
    ];
    assert_eq!(stats_lookup(&stats, "b@vpn"), TrafficStats { uplink: 3, downlink: 4 });
    assert_eq!(stats_lookup(&stats, "c@vpn"), TrafficStats::default());
}

#[test]
fn keyboard_users_come_from_the_clients() {
    let clients = vec![entry("u1", "alice@vpn"), entry("u2", "@vpn")];
    let users = users_for_keyboard(&clients);
    assert_eq!(users.len(), 2);
    assert_eq!(users[0].name, "alice");
    assert_eq!(users[1].name, "");
    let result = build_user_keyboard(&users, DELETE_PREFIX);
    assert_eq!(result.keyboard.rows.len(), 1);
    assert_eq!(result.keyboard.rows[0][0].callback_data, "delete:alice");
    assert_eq!(result.unnamed_count, 1);
}

#[test]
fn delete_target_names_the_first_client_with_the_id() {
    let clients = vec![entry("u1", "alice@vpn"), entry("u2", "bob@vpn"), entry("u2", "carol@vpn")];
    assert_eq!(delete_target(&clients, "u2").unwrap(), "bob");
    match delete_target(&clients, "u9") {
        Err(AppError::Xray(m)) => assert_eq!(m, "user with uuid 'u9' not found"),
        other => panic!("unexpected: {:?}", other),
    }
}

#[test]
fn qr_caption_escapes_html() {
    assert_eq!(
        qr_caption("a<b", "vless://x?a=1&b=2"),
        "🔗 a&lt;b\n\n<code>vless://x?a=1&amp;b=2</code>"
    );
}

#[test]
fn qr_reply_draws_a_png_with_its_caption() {
    let (png, caption) = qr_reply("alice", "vless://test").unwrap();
    assert_eq!(&png[..4], &[0x89, 0x50, 0x4E, 0x47]);
    assert_eq!(caption, "🔗 alice\n\n<code>vless://test</code>");
    assert_eq!(qr_sent_text("alice"), "QR for alice");
}

#[test]
fn qr_reply_reports_data_too_long_for_a_code() {
    let long = "x".repeat(8000);
    match qr_reply("alice", &long) {
        Err(AppError::Xray(m)) => {
            assert!(m.starts_with("QR generation failed: Config error: qr encode: "), "{}", m)
        }
        other => panic!("unexpected: {:?}", other.map(|_| ())),
    }
}

#[test]
fn trimmed_output_needs_success_and_text() {
    assert_eq!(trimmed_output(Some(&out("  Xray 1.8.4 \n", 0))), Some("Xray 1.8.4".to_string()));
    assert_eq!(trimmed_output(Some(&out(" \n ", 0))), None);
    assert_eq!(trimmed_output(Some(&out("x", 1))), None);
    assert_eq!(trimmed_output(None), None);
}

#[test]
fn uptime_reads_seconds() {
    assert_eq!(uptime_from_output(Some(&out("90061\n", 0))), Some("1d 1h 1m".to_string()));
    assert_eq!(uptime_from_output(Some(&out("+60", 0))), Some("1m".to_string()));
    assert_eq!(uptime_from_output(Some(&out("-5", 0))), None);
    assert_eq!(uptime_from_output(Some(&out("12a", 0))), None);
    assert_eq!(uptime_from_output(Some(&out("60", 3))), None);
}

#[test]
fn parse_u64_matches_std() {
    for s in ["0", "+7", "18446744073709551615", "18446744073709551616", "", "+", "1 2", "-1", "007"] {
        assert_eq!(parse_u64(s), s.parse::<u64>().ok(), "{:?}", s);
    }
}

#[test]
fn status_reply_falls_back_to_unknown() {
    let text = status_reply(3, (1024, 2048), None, None);
    assert_eq!(
        text,
        "📊 Server Status:\n\nXray: vunknown\nUsers: 3 (0 online)\nUpload: 1.0 KB\nDownload: 2.0 KB"
    );
    let text = status_reply(1, (0, 0), Some(&out("1.8.4\n", 0)), Some(&out("3600", 0)));
    assert_eq!(
        text,
        "📊 Server Status:\n\nXray: v1.8.4\nUptime: 1h 0m\nUsers: 1 (0 online)\nUpload: 0 B\nDownload: 0 B"
    );
}

#[test]
fn commands_are_planned_for_the_admin_only() {
    let admin = Some(42);
    assert!(matches!(plan_command(&Command::Users, admin, 7), CommandPlan::Reply(t) if t.starts_with("Access denied")));
    assert!(matches!(plan_command(&Command::Start, None, 7), CommandPlan::Reply(t) if t.starts_with("Access denied")));
    assert!(matches!(plan_command(&Command::Start, admin, 42), CommandPlan::Reply(t) if t.starts_with("Welcome, admin!")));
    assert!(matches!(plan_command(&Command::Users, admin, 42), CommandPlan::ListUsers));
    assert!(matches!(plan_command(&Command::Status, admin, 42), CommandPlan::ShowStatus));
    assert!(matches!(plan_command(&Command::Add("  bob ".to_string()), admin, 42), CommandPlan::AddUser(n) if n == "bob"));
    assert!(matches!(plan_command(&Command::Add(" ".to_string()), admin, 42), CommandPlan::Reply(t) if t == "Usage: /add <name>"));
    assert!(matches!(plan_command(&Command::Delete(String::new()), admin, 42), CommandPlan::ChooseUser(Choice::Delete)));
    assert!(matches!(plan_command(&Command::Delete(" bob".to_string()), admin, 42), CommandPlan::ConfirmDelete(n) if n == "bob"));
    assert!(matches!(plan_command(&Command::Url(String::new()), admin, 42), CommandPlan::ChooseUser(Choice::Url)));
    assert!(matches!(plan_command(&Command::Qr("x".to_string()), admin, 42), CommandPlan::SendQr(n) if n == "x"));
}

#[test]
fn button_presses_are_read_by_prefix() {
    assert_eq!(plan_callback(None, true, true), CallbackPlan::Ignore);
    assert_eq!(plan_callback(Some("url:a"), false, true), CallbackPlan::Ignore);
    assert_eq!(plan_callback(Some("url:a"), true, false), CallbackPlan::Deny);
    assert_eq!(plan_callback(Some("url:a"), true, true), CallbackPlan::Url("a".to_string()));
    assert_eq!(plan_callback(Some("qr:a"), true, true), CallbackPlan::Qr("a".to_string()));
    assert_eq!(plan_callback(Some("delete:a"), true, true), CallbackPlan::ConfirmDelete("a".to_string()));
    assert_eq!(plan_callback(Some("delete_confirm:u1"), true, true), CallbackPlan::Delete("u1".to_string()));
    assert_eq!(plan_callback(Some("delete_cancel:u1"), true, true), CallbackPlan::Cancel);
    assert_eq!(plan_callback(Some("other"), true, true), CallbackPlan::Unknown);
}

#[test]
fn keyboard_replies_depend_on_buttons() {
    let empty = UserKeyboardResult {
        keyboard: Keyboard { rows: vec![] },
        skipped_names: vec![],
        unnamed_count: 0,
    };
    assert_eq!(keyboard_reply(Choice::Url, &empty), ("No users found.".to_string(), false));
    let users = users_for_keyboard(&vec![entry("u1", "alice@vpn")]);
    let result = build_user_keyboard(&users, DELETE_PREFIX);
    assert_eq!(keyboard_reply(Choice::Delete, &result), ("Select a user to delete:".to_string(), true));
}

#[test]
fn error_replies_carry_the_message() {
    assert_eq!(error_reply(&AppError::Xray("boom".to_string())), "Error: Xray error: boom");
    let io = std::io::Error::new(std::io::ErrorKind::NotFound, "gone");
    assert_eq!(error_reply(&AppError::Io(io)), "Error: IO error: gone");
}

#[test]
fn bot_commands_list_all_eight() {
    let cmds = Command::bot_commands();
    let names: Vec<&str> = cmds.iter().map(|c| c.0.as_str()).collect();
    assert_eq!(names, vec!["start", "help", "users", "status", "add", "delete", "url", "qr"]);
    assert_eq!(cmds[4].1, "Add a new user: /add <name>");
}
