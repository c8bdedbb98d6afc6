use amnezia_xray_admin::ui::user_detail::osc52_copy;
use amnezia_xray_admin::ssh::{
    check_known_host, host_pattern, known_host_decision, parse_host_port, pin_failure_message,
    KnownHostVerdict, KnownHostsFile,
};

const PATH: &str = "/home/u/.ssh/known_hosts";

/// The base64 that `osc52_copy` wraps, for standard test vectors.
fn b64_of(s: &str) -> String {
    let seq = osc52_copy(s);
    seq["\x1b]52;c;".len()..seq.len() - 1].to_string()
}

#[test]
fn base64_standard_vectors() {
    assert_eq!(b64_of(""), "");
    assert_eq!(b64_of("f"), "Zg==");
    assert_eq!(b64_of("fo"), "Zm8=");
    assert_eq!(b64_of("foo"), "Zm9v");
    assert_eq!(b64_of("foobar"), "Zm9vYmFy");
    assert_eq!(b64_of("???"), "Pz8/");
    assert_eq!(b64_of("~~~"), "fn5+");
}

#[test]
fn host_pattern_brackets_non_default_ports() {
    assert_eq!(host_pattern("1.2.3.4", 22), "1.2.3.4");
    assert_eq!(host_pattern("1.2.3.4", 2222), "[1.2.3.4]:2222");
    assert_eq!(host_pattern("[::1]", 2222), "[::1]:2222");
}

#[test]
fn parse_host_port_forms() {
    assert_eq!(parse_host_port("1.2.3.4:22"), ("1.2.3.4".to_string(), 22));
    assert_eq!(parse_host_port("example.com:2222"), ("example.com".to_string(), 2222));
    assert_eq!(parse_host_port("[::1]:2200"), ("[::1]".to_string(), 2200));
    assert_eq!(parse_host_port("::1"), ("::1".to_string(), 22));
    assert_eq!(parse_host_port("host"), ("host".to_string(), 22));
    assert_eq!(parse_host_port("host:notaport"), ("host".to_string(), 22));
    assert_eq!(parse_host_port("host:70000"), ("host".to_string(), 22));
    assert_eq!(parse_host_port("host:+80"), ("host".to_string(), 80));
}

#[test]
fn known_key_is_accepted() {
    let content = "# comment\n1.2.3.4 ssh-ed25519 AAAA\n";
    assert_eq!(known_host_decision("1.2.3.4", 22, "ssh-ed25519", "AAAA", PATH, content), KnownHostVerdict::Accept);
    let content = "other,1.2.3.4 ssh-rsa BBBB\n1.2.3.4\tssh-ed25519   AAAA\r\n";
    assert_eq!(known_host_decision("1.2.3.4", 22, "ssh-ed25519", "AAAA", PATH, content), KnownHostVerdict::Accept);
}

#[test]
fn changed_key_is_rejected() {
    let content = "1.2.3.4 ssh-ed25519 AAAA\n";
    let v = known_host_decision("1.2.3.4", 22, "ssh-ed25519", "CCCC", PATH, content);
    assert_eq!(
        v,
        KnownHostVerdict::Reject(format!(
            "HOST KEY VERIFICATION FAILED for '1.2.3.4': the server's ssh-ed25519 key has changed. This could indicate a MITM attack. Remove the old key from {} to proceed.",
            PATH
        ))
    );
}

#[test]
fn other_key_type_of_known_host_is_pinned() {
    let content = "1.2.3.4 ssh-rsa BBBB";
    let v = known_host_decision("1.2.3.4", 22, "ssh-ed25519", "AAAA", PATH, content);
    assert_eq!(v, KnownHostVerdict::Pin("\n1.2.3.4 ssh-ed25519 AAAA\n".to_string()));
}

#[test]
fn revoked_key_is_rejected() {
    let content = "@revoked [h]:2222 ssh-ed25519 AAAA\n[h]:2222 ssh-ed25519 AAAA\n";
    match known_host_decision("h", 2222, "ssh-ed25519", "AAAA", PATH, content) {
        KnownHostVerdict::Reject(m) => assert!(m.starts_with("HOST KEY REJECTED for '[h]:2222'")),
        other => panic!("unexpected {:?}", other),
    }
}

#[test]
fn unverifiable_entries_refuse_unknown_hosts() {
    let hashed = "|1|salt|hash ssh-ed25519 AAAA\n";
    match known_host_decision("1.2.3.4", 22, "ssh-ed25519", "AAAA", PATH, hashed) {
        KnownHostVerdict::Reject(m) => assert!(m.contains("contains hashed entries")),
        other => panic!("unexpected {:?}", other),
    }
    let ca = "@cert-authority *.example.com ssh-ed25519 AAAA\n";
    match known_host_decision("1.2.3.4", 22, "ssh-ed25519", "AAAA", PATH, ca) {
        KnownHostVerdict::Reject(m) => assert!(m.contains("@cert-authority entries")),
        other => panic!("unexpected {:?}", other),
    }
    let both = "|1|salt|hash ssh-ed25519 AAAA\n1.2.3.4 ssh-ed25519 AAAA\n";
    assert_eq!(known_host_decision("1.2.3.4", 22, "ssh-ed25519", "AAAA", PATH, both), KnownHostVerdict::Accept);
}

#[test]
fn unknown_host_is_pinned_on_first_use() {
    let v = check_known_host("1.2.3.4", 22, "ssh-ed25519", &b"foo".to_vec(), Some(PATH), &KnownHostsFile::Missing);
    assert_eq!(v, KnownHostVerdict::Pin("1.2.3.4 ssh-ed25519 Zm9v\n".to_string()));
    let v = check_known_host(
        "1.2.3.4",
        22,
        "ssh-ed25519",
        &b"foo".to_vec(),
        Some(PATH),
        &KnownHostsFile::Text("1.2.3.4 ssh-ed25519 Zm9v\n".to_string()),
    );
    assert_eq!(v, KnownHostVerdict::Accept);
}

#[test]
fn no_home_accepts_and_unreadable_file_refuses() {
    let v = check_known_host("1.2.3.4", 22, "ssh-ed25519", &vec![1, 2, 3], None, &KnownHostsFile::Missing);
    assert_eq!(v, KnownHostVerdict::Accept);
    let v = check_known_host(
        "1.2.3.4",
        22,
        "ssh-ed25519",
        &vec![1, 2, 3],
        Some(PATH),
        &KnownHostsFile::Unreadable("permission denied".to_string()),
    );
    assert_eq!(
        v,
        KnownHostVerdict::Reject(format!(
            "cannot read {}: permission denied — host key verification skipped, refusing connection",
            PATH
        ))
    );
}

#[test]
fn pin_failures_are_explained() {
    assert_eq!(
        pin_failure_message(PATH, "disk full", true),
        format!("could not write TOFU entry to {}: disk full — refusing connection (host key would be unpinned)", PATH)
    );
    assert!(pin_failure_message(PATH, "denied", false).starts_with("could not open "));
}

#[test]
fn pinned_entry_appended_to_unterminated_file_is_accepted() {
    let content = "# my hosts\nother.example ssh-rsa BBBB";
    let entry = match known_host_decision("[10.0.0.1]", 2222, "ssh-ed25519", "AAAA", PATH, content) {
        KnownHostVerdict::Pin(e) => e,
        other => panic!("unexpected {:?}", other),
    };
    assert_eq!(entry, "\n[10.0.0.1]:2222 ssh-ed25519 AAAA\n");
    let grown = format!("{}{}", content, entry);
    assert_eq!(
        known_host_decision("[10.0.0.1]", 2222, "ssh-ed25519", "AAAA", PATH, &grown),
        KnownHostVerdict::Accept
    );
}
