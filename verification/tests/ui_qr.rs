use amnezia_xray_admin::ui::qr::{render_qr_to_lines, render_qr_to_png, QrViewState};

#[test]
fn test_qr_view_state_default() {
    let state = QrViewState::default();
    assert!(state.user_name.is_empty());
    assert!(state.vless_url.is_empty());
    assert!(state.qr_lines.is_empty());
    assert!(state.error.is_none());
}

#[test]
fn test_qr_view_state_open() {
    let mut state = QrViewState::default();
    state.open("alice".to_string(), "vless://uuid@1.2.3.4:443?test=1#alice".to_string());
    assert_eq!(state.user_name, "alice");
    assert!(state.vless_url.contains("vless://"));
    assert!(!state.qr_lines.is_empty());
    assert!(state.error.is_none());
}

#[test]
fn test_qr_view_state_close() {
    let mut state = QrViewState::default();
    state.open("alice".to_string(), "test-url".to_string());
    assert!(!state.qr_lines.is_empty());
    state.close();
    assert!(state.user_name.is_empty());
    assert!(state.vless_url.is_empty());
    assert!(state.qr_lines.is_empty());
    assert!(state.error.is_none());
}

#[test]
fn test_qr_view_state_open_caches_lines() {
    let mut state = QrViewState::default();
    let url = "vless://550e8400@1.2.3.4:443?encryption=none#TestUser";
    state.open("TestUser".to_string(), url.to_string());
    assert!(!state.qr_lines.is_empty());
    let width = state.qr_lines[0].chars().count();
    for line in &state.qr_lines {
        assert_eq!(line.chars().count(), width);
    }
}

#[test]
fn qr_lines_have_quiet_zone_and_half_rows() {
    let lines = render_qr_to_lines("hello").unwrap();
    // Version 1 is 21 modules wide: 23 with the quiet zone, drawn two rows a line.
    assert_eq!(lines.len(), 12 + 1);
    for line in &lines {
        assert_eq!(line.chars().count(), 23);
        assert!(line.starts_with(' ') || line.starts_with('\u{2584}'));
    }
    assert!(lines.last().unwrap().chars().all(|c| c == ' '));
    // The top-left finder pattern: the first line draws quiet row and row 0.
    assert_eq!(lines[0].chars().nth(1), Some('\u{2584}'));
}

#[test]
fn render_qr_png_writes_a_png_image() {
    let png = amnezia_xray_admin::native::url::render_qr_png("vless://x@1.2.3.4:443#a").unwrap();
    assert_eq!(&png[..8], &[0x89, b'P', b'N', b'G', 0x0D, 0x0A, 0x1A, 0x0A]);
}

#[test]
fn render_qr_ascii_draws_text() {
    let text = amnezia_xray_admin::native::url::render_qr_ascii("hello");
    assert!(text.lines().count() > 10);
    assert_ne!(text, "(qr encoding failed)");
    let too_long = "x".repeat(8000);
    assert_eq!(amnezia_xray_admin::native::url::render_qr_ascii(&too_long), "(qr encoding failed)");
    let err = amnezia_xray_admin::native::url::render_qr_png(&too_long).unwrap_err();
    assert!(err.message().starts_with("Config error: qr encode: "));
}

#[test]
fn test_render_qr_produces_output() {
    let lines = render_qr_to_lines("test").unwrap();
    assert!(!lines.is_empty());
    // All lines should have the same width
    let width = lines[0].chars().count();
    for line in &lines {
        assert_eq!(line.chars().count(), width);
    }
}

#[test]
fn test_render_qr_contains_block_chars() {
    let lines = render_qr_to_lines("hello").unwrap();
    let all_text: String = lines.join("");
    // Should contain at least some block characters
    assert!(
        all_text.contains('\u{2588}')
            || all_text.contains('\u{2580}')
            || all_text.contains('\u{2584}')
    );
}

#[test]
fn test_render_qr_vless_url() {
    let url = "vless://550e8400-e29b-41d4-a716-446655440000@1.2.3.4:443?encryption=none&flow=xtls-rprx-vision&type=tcp&security=reality&sni=www.googletagmanager.com&fp=chrome&pbk=testkey&sid=abcd1234#TestUser";
    let lines = render_qr_to_lines(url).unwrap();
    assert!(!lines.is_empty());
}

#[test]
fn test_render_qr_empty_string() {
    // Even empty string should produce a valid QR code
    let lines = render_qr_to_lines("").unwrap();
    assert!(!lines.is_empty());
}

#[test]
fn test_render_qr_unicode_content() {
    let lines = render_qr_to_lines("Hello, мир!").unwrap();
    assert!(!lines.is_empty());
}

#[test]
fn test_render_qr_consistent_width() {
    let lines = render_qr_to_lines("consistency test").unwrap();
    if lines.len() > 1 {
        let first_width = lines[0].chars().count();
        for (i, line) in lines.iter().enumerate() {
            assert_eq!(
                line.chars().count(),
                first_width,
                "Line {} has different width",
                i
            );
        }
    }
}

#[test]
fn test_render_qr_to_png_produces_valid_png() {
    let png = render_qr_to_png("test", 8).unwrap();
    // PNG files start with the magic bytes
    assert!(png.len() > 8);
    assert_eq!(&png[..4], &[0x89, 0x50, 0x4E, 0x47]); // \x89PNG
}

#[test]
fn test_render_qr_to_png_vless_url() {
    let url = "vless://550e8400-e29b-41d4-a716-446655440000@1.2.3.4:443?encryption=none&flow=xtls-rprx-vision&type=tcp&security=reality&sni=www.googletagmanager.com&fp=chrome&pbk=testkey&sid=abcd1234#TestUser";
    let png = render_qr_to_png(url, 8).unwrap();
    assert!(png.len() > 100); // should be a reasonable size
    assert_eq!(&png[..4], &[0x89, 0x50, 0x4E, 0x47]);
}

#[test]
fn test_render_qr_to_png_different_scales() {
    let small = render_qr_to_png("test", 4).unwrap();
    let large = render_qr_to_png("test", 16).unwrap();
    // Larger scale should produce larger PNG
    assert!(large.len() > small.len());
}

#[test]
fn test_render_qr_to_png_empty_string() {
    let png = render_qr_to_png("", 8).unwrap();
    assert_eq!(&png[..4], &[0x89, 0x50, 0x4E, 0x47]);
}

#[test]
fn test_render_qr_to_png_unicode() {
    let png = render_qr_to_png("Hello, мир!", 8).unwrap();
    assert_eq!(&png[..4], &[0x89, 0x50, 0x4E, 0x47]);
}
