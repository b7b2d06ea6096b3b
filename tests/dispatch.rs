use msgzah::dispatch::{
    command_of, confirms_delete, decimal_text, deleted_text, details_text, home_echo, list_line,
    offers_delete, selection, welcome_text, Command, COMMANDS_MSG,
};
use msgzah::session::User;

#[test]
fn command_bytes() {
    assert_eq!(command_of(0), Command::Ignore);
    assert_eq!(command_of(b'\n'), Command::Prompt);
    assert_eq!(command_of(b'E'), Command::Exit);
    assert_eq!(command_of(b'e'), Command::Exit);
    assert_eq!(command_of(b'H'), Command::Help);
    assert_eq!(command_of(b'h'), Command::Help);
    assert_eq!(command_of(b'L'), Command::List);
    assert_eq!(command_of(b'l'), Command::List);
    assert_eq!(command_of(b'M'), Command::Details);
    assert_eq!(command_of(b'm'), Command::Details);
    assert_eq!(command_of(b'Q'), Command::SetHome);
    assert_eq!(command_of(b'q'), Command::SetHome);
    assert_eq!(command_of(b'S'), Command::Compose);
    assert_eq!(command_of(b's'), Command::Compose);
    assert_eq!(command_of(b'X'), Command::Unknown);
    assert_eq!(command_of(b'\r'), Command::Unknown);
    assert_eq!(command_of(0xFF), Command::Unknown);
}

#[test]
fn selection_uses_bytes_one_and_two() {
    assert_eq!(selection(&[0, 0, 0], 1), Some(0));
    assert_eq!(selection(&[0, 0, 0], 0), None);
    assert_eq!(selection(&[1, 2, 0], 30), Some(20));
    assert_eq!(selection(&[1, 2, 0], 20), None);
    assert_eq!(selection(&[9, 0, 3], 5), Some(3));
    assert_eq!(selection(&[0, 9, 9], 100), Some(99));
    assert_eq!(selection(&[0, 10, 0], 200), None);
    assert_eq!(selection(&[0, 255, 255], 5000), None);
}

#[test]
fn delete_needs_admin_and_yes() {
    let mut u = User::new();
    u.callsign = String::from("M0ZAH\n");
    assert!(offers_delete(&u));
    assert!(confirms_delete(&u, b"Y"));
    assert!(!confirms_delete(&u, b"N"));
    assert!(!confirms_delete(&u, b""));
    u.callsign = String::from("TEST01\n");
    assert!(!offers_delete(&u));
    assert!(!confirms_delete(&u, b"Y"));
}

#[test]
fn decimal_rendering() {
    assert_eq!(decimal_text(0), "0");
    assert_eq!(decimal_text(7), "7");
    assert_eq!(decimal_text(10), "10");
    assert_eq!(decimal_text(12345), "12345");
    assert_eq!(decimal_text(u64::MAX), u64::MAX.to_string());
}

#[test]
fn welcome_banner() {
    let mut u = User::new();
    u.callsign = String::from("TEST01\n");
    let w = welcome_text(&u);
    assert_eq!(
        w,
        format!(
            "Welcome: TEST01\nYou have connected to M0ZAH Mailbox\nMSGZAH Version: 0.1\n\n{}\n",
            COMMANDS_MSG
        )
    );
}

#[test]
fn details_block() {
    let mut u = User::new();
    u.callsign = String::from("TEST01");
    u.qth = String::from("GB7ABC");
    u.total_session_bytes = 64;
    assert_eq!(
        details_text(&u),
        "Callsign: TEST01\nHome Mailbox: GB7ABC\n\nTotal Bytes Received: 64\n"
    );
}

#[test]
fn list_and_delete_lines() {
    assert_eq!(list_line(0, "./store/x.dat"), "Message: [0] -> ./store/x.dat\n");
    assert_eq!(list_line(12, "p"), "Message: [12] -> p\n");
    assert_eq!(deleted_text(0), "Msg [0] deleted\n");
}

#[test]
fn home_mailbox_echo() {
    let mut u = User::new();
    u.qth = String::from("GB7ABC");
    assert_eq!(home_echo(&u), "HomeBBS: GB7ABC\n");
}
