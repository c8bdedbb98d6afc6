use amnezia_xray_admin::ui::telegram_setup::{
    generate_compose_yaml, is_valid_token, mask_token, DeployStatus, TelegramField,
    TelegramSetupState,
};
use amnezia_xray_admin::ui::Key;

#[test]
fn telegram_setup_test_default_state() {
    let state = TelegramSetupState::default();
    assert_eq!(state.token, "");
    assert_eq!(state.focused, 0);
    assert!(!state.deploy_requested);
    assert_eq!(state.deploy_status, DeployStatus::Idle);
}

#[test]
fn test_from_token() {
    let state = TelegramSetupState::from_token(Some("123:abc"));
    assert_eq!(state.token, "123:abc");
}

#[test]
fn test_from_token_none() {
    let state = TelegramSetupState::from_token(None);
    assert_eq!(state.token, "");
}

#[test]
fn test_focus_next() {
    let mut state = TelegramSetupState::default();
    assert_eq!(state.focused_field(), TelegramField::Token);
    state.focus_next();
    assert_eq!(state.focused_field(), TelegramField::DeployToVps);
    state.focus_next();
    assert_eq!(state.focused_field(), TelegramField::Token);
}

#[test]
fn test_focus_prev() {
    let mut state = TelegramSetupState::default();
    state.focus_prev();
    assert_eq!(state.focused_field(), TelegramField::DeployToVps);
}

#[test]
fn test_typing_token() {
    let mut state = TelegramSetupState::default();
    state.handle_key(Key::Char('1'));
    state.handle_key(Key::Char('2'));
    state.handle_key(Key::Char('3'));
    assert_eq!(state.token, "123");
}

#[test]
fn test_backspace_token() {
    let mut state = TelegramSetupState::default();
    state.token = "123".to_string();
    state.handle_key(Key::Backspace);
    assert_eq!(state.token, "12");
}

#[test]
fn test_typing_on_button_not_consumed() {
    let mut state = TelegramSetupState::default();
    state.focused = 1;
    let consumed = state.handle_key(Key::Char('x'));
    assert!(!consumed);
}

#[test]
fn test_enter_on_token_moves_to_deploy() {
    let mut state = TelegramSetupState::default();
    state.handle_key(Key::Enter);
    assert_eq!(state.focused_field(), TelegramField::DeployToVps);
}

#[test]
fn test_enter_on_deploy_with_token() {
    let mut state = TelegramSetupState::default();
    state.token = "123:abc".to_string();
    state.focused = 1;
    state.handle_key(Key::Enter);
    assert!(state.deploy_requested);
}

#[test]
fn test_enter_on_deploy_without_token() {
    let mut state = TelegramSetupState::default();
    state.focused = 1;
    state.handle_key(Key::Enter);
    assert!(!state.deploy_requested);
}

#[test]
fn test_tab_moves_focus() {
    let mut state = TelegramSetupState::default();
    state.handle_key(Key::Tab);
    assert_eq!(state.focused, 1);
}

#[test]
fn test_backtab_moves_focus() {
    let mut state = TelegramSetupState::default();
    state.focused = 1;
    state.handle_key(Key::BackTab);
    assert_eq!(state.focused, 0);
}

#[test]
fn telegram_setup_test_reset() {
    let mut state = TelegramSetupState::default();
    state.deploy_status = DeployStatus::Success("done".to_string());
    state.deploy_requested = true;
    state.reset();
    assert_eq!(state.deploy_status, DeployStatus::Idle);
    assert!(!state.deploy_requested);
}

#[test]
fn test_is_valid_token_valid() {
    assert!(is_valid_token("123456789:ABCdefGHI-jklMNO_pqrSTU"));
    assert!(is_valid_token("1:a"));
}

#[test]
fn test_is_valid_token_invalid() {
    assert!(!is_valid_token(""));
    assert!(!is_valid_token("no-colon"));
    assert!(!is_valid_token(":missing-id"));
    assert!(!is_valid_token("abc:secret"));
    assert!(!is_valid_token("123:"));
    assert!(!is_valid_token("123:sec ret"));
}

#[test]
fn test_is_valid_token_trims_and_rejects_second_colon() {
    assert!(is_valid_token("  42:abc  "));
    assert!(!is_valid_token("42:abc:def"));
}

#[test]
fn test_mask_token_short() {
    assert_eq!(mask_token("123"), "123");
    assert_eq!(mask_token("12345"), "12345");
}

#[test]
fn test_mask_token_long() {
    let masked = mask_token("123456789:ABCdef");
    assert!(masked.starts_with("12345"));
    assert!(masked.contains('*'));
    assert!(!masked.contains("6789"));
}

#[test]
fn test_mask_token_exact_and_capped() {
    assert_eq!(mask_token("123456789:ABCdef"), "12345***********");
    let long = "9".repeat(50);
    assert_eq!(mask_token(&long), format!("99999{}", "*".repeat(30)));
}

#[test]
fn test_generate_compose_yaml() {
    let yaml = generate_compose_yaml("123:abc", "amnezia-xray");
    assert!(yaml.contains("TELEGRAM_TOKEN=123:abc"));
    assert!(yaml.contains("--container amnezia-xray"));
    assert!(yaml.contains("docker.sock"));
}

#[test]
fn test_field_is_button() {
    assert!(!TelegramField::Token.is_button());
    assert!(TelegramField::DeployToVps.is_button());
}
