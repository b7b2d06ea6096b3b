use msgzah::session::{field_text, is_admin, line_text, prefix, User};

#[test]
fn new_user_defaults() {
    let u = User::new();
    assert_eq!(u.callsign, "");
    assert_eq!(u.qth, "N0HOME");
    assert_eq!(u.total_session_bytes, 0);
}

#[test]
fn callsign_kept_verbatim() {
    let mut u = User::new();
    let mut buf = vec![0u8; 4096];
    buf[..7].copy_from_slice(b"TEST01\n");
    u.set_callsign(&buf);
    assert_eq!(u.callsign, "TEST01\n\0\0\0");
    assert_eq!(u.qth, "N0HOME");
}

#[test]
fn invalid_utf8_becomes_n0call() {
    assert_eq!(field_text(&[0x41, 0xFF, 0x42]), "N0CALL");
    assert_eq!(field_text(&[0xC3, 0xA9]), "\u{e9}");
    assert_eq!(field_text(b""), "");
    let mut u = User::new();
    let mut buf = vec![0u8; 10];
    buf[0] = 0xC3;
    u.set_qth(&buf);
    assert_eq!(u.qth, "N0CALL");
}

#[test]
fn home_mailbox_drops_line_feeds() {
    let mut u = User::new();
    let mut buf = vec![0u8; 4096];
    buf[..7].copy_from_slice(b"GB7ABC\n");
    u.set_qth(&buf);
    assert_eq!(u.qth, "GB7ABC\0\0\0");
    assert_eq!(line_text(b"\na\nb\n"), "ab");
}

#[test]
fn admin_callsign_detected_anywhere() {
    let mut u = User::new();
    u.callsign = String::from("M0ZAH\n\0\0\0\0");
    assert!(is_admin(&u));
    u.callsign = String::from("XM0ZAHY");
    assert!(is_admin(&u));
    u.callsign = String::from("\u{e9}M0ZAH");
    assert!(is_admin(&u));
    u.callsign = String::from("M0ZA");
    assert!(!is_admin(&u));
    u.callsign = String::from("m0zah");
    assert!(!is_admin(&u));
    u.callsign = String::from("TEST01");
    assert!(!is_admin(&u));
    u.callsign = String::new();
    assert!(!is_admin(&u));
}

#[test]
fn prefix_takes_leading_bytes() {
    assert_eq!(prefix(b"abcdef", 3), b"abc".to_vec());
    assert_eq!(prefix(b"abc", 0), Vec::<u8>::new());
}

#[test]
fn snapshot_copies_fields() {
    let mut u = User::new();
    u.callsign = String::from("G4ABC");
    u.total_session_bytes = 42;
    let s = u.snapshot();
    assert_eq!(s.callsign, "G4ABC");
    assert_eq!(s.qth, "N0HOME");
    assert_eq!(s.total_session_bytes, 42);
}

#[test]
fn add_received_counts() {
    let mut u = User::new();
    u.add_received(5);
    u.add_received(7);
    assert_eq!(u.total_session_bytes, 12);
}
