use amnezia_xray_admin::ui::add_user::{centered_rect, AddUserResult, AddUserState};
use amnezia_xray_admin::ui::{Key, Rect};

#[test]
fn add_user_test_default_state() {
    let state = AddUserState::default();
    assert_eq!(state.name, "");
    assert!(!state.confirmed);
    assert!(matches!(state.result, AddUserResult::Empty));
}

#[test]
fn add_user_test_reset() {
    let mut state = AddUserState::default();
    state.name = "alice".to_string();
    state.confirmed = true;
    state.result = AddUserResult::Success {
        name: "alice".to_string(),
        uuid: "123".to_string(),
    };
    state.reset();
    assert_eq!(state.name, "");
    assert!(!state.confirmed);
    assert!(matches!(state.result, AddUserResult::Empty));
}

#[test]
fn test_typing_name() {
    let mut state = AddUserState::default();
    state.handle_key(Key::Char('a'));
    state.handle_key(Key::Char('l'));
    state.handle_key(Key::Char('i'));
    state.handle_key(Key::Char('c'));
    state.handle_key(Key::Char('e'));
    assert_eq!(state.name, "alice");
}

#[test]
fn test_typing_rejects_unsafe_chars_and_caps_length() {
    let mut state = AddUserState::default();
    assert!(state.handle_key(Key::Char('\'')));
    assert!(state.handle_key(Key::Char(' ')));
    assert_eq!(state.name, "");
    for _ in 0..40 {
        state.handle_key(Key::Char('x'));
    }
    assert_eq!(state.name.len(), 32);
}

#[test]
fn test_backspace() {
    let mut state = AddUserState::default();
    state.name = "alice".to_string();
    state.handle_key(Key::Backspace);
    assert_eq!(state.name, "alic");
}

#[test]
fn test_backspace_empty() {
    let mut state = AddUserState::default();
    state.handle_key(Key::Backspace);
    assert_eq!(state.name, "");
}

#[test]
fn test_enter_confirms_with_name() {
    let mut state = AddUserState::default();
    state.name = "alice".to_string();
    state.handle_key(Key::Enter);
    assert!(state.confirmed);
    assert!(state.is_confirmed());
}

#[test]
fn test_enter_does_not_confirm_empty() {
    let mut state = AddUserState::default();
    state.handle_key(Key::Enter);
    assert!(!state.confirmed);
    assert!(!state.is_confirmed());
}

#[test]
fn test_enter_does_not_confirm_whitespace_only() {
    let mut state = AddUserState::default();
    state.name = "   ".to_string();
    state.handle_key(Key::Enter);
    assert!(!state.is_confirmed());
}

#[test]
fn test_set_success() {
    let mut state = AddUserState::default();
    state.confirmed = true;
    state.set_success("alice".to_string(), "uuid-123".to_string());
    assert!(!state.confirmed);
    match &state.result {
        AddUserResult::Success { name, uuid } => {
            assert_eq!(name, "alice");
            assert_eq!(uuid, "uuid-123");
        }
        _ => panic!("Expected Success"),
    }
}

#[test]
fn test_set_error() {
    let mut state = AddUserState::default();
    state.confirmed = true;
    state.set_error("connection failed".to_string());
    assert!(!state.confirmed);
    match &state.result {
        AddUserResult::Error(msg) => assert_eq!(msg, "connection failed"),
        _ => panic!("Expected Error"),
    }
}

#[test]
fn test_keys_not_consumed_when_showing_result() {
    let mut state = AddUserState::default();
    state.result = AddUserResult::Success {
        name: "alice".to_string(),
        uuid: "123".to_string(),
    };
    assert!(!state.handle_key(Key::Char('x')));
    assert_eq!(state.name, "");
}

#[test]
fn test_keys_not_consumed_when_showing_error() {
    let mut state = AddUserState::default();
    state.result = AddUserResult::Error("fail".to_string());
    assert!(!state.handle_key(Key::Char('x')));
}

#[test]
fn test_centered_rect() {
    let area = Rect { x: 0, y: 0, width: 100, height: 50 };
    let rect = centered_rect(40, 10, area);
    assert_eq!(rect.x, 30);
    assert_eq!(rect.y, 20);
    assert_eq!(rect.width, 40);
    assert_eq!(rect.height, 10);
}

#[test]
fn test_centered_rect_larger_than_area() {
    let area = Rect { x: 0, y: 0, width: 20, height: 10 };
    let rect = centered_rect(40, 20, area);
    assert_eq!(rect.width, 20);
    assert_eq!(rect.height, 10);
}

#[test]
fn test_is_confirmed_requires_both() {
    let mut state = AddUserState::default();
    assert!(!state.is_confirmed());
    state.confirmed = true;
    assert!(!state.is_confirmed());
    state.confirmed = false;
    state.name = "alice".to_string();
    assert!(!state.is_confirmed());
    state.confirmed = true;
    assert!(state.is_confirmed());
}
