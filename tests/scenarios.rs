use msgzah::dispatch::{
    body_config, command_config, command_of, confirm_config, confirms_delete, deleted_text,
    details_text, field_config, handshake_config, home_echo, list_line, offers_delete, selection,
    selection_config, welcome_text, Command,
};
use msgzah::reader::get_input;
use msgzah::session::User;
use msgzah::store::{show_text, Message};

fn handshake(input: &[u8], user: &mut User) -> usize {
    let (buf, n) = get_input(input, handshake_config(), user);
    user.set_callsign(&buf);
    n
}

#[test]
fn handshake_then_exit() {
    let input = b"TEST01\nE";
    let mut user = User::new();
    let n = handshake(input, &mut user);
    assert!(welcome_text(&user).starts_with("Welcome: TEST01"));
    let (cmd, _) = get_input(&input[n..], command_config(), &mut user);
    assert_eq!(command_of(cmd[0]), Command::Exit);
}

#[test]
fn help_then_prompt_then_exit() {
    let input = b"TEST01\nH\nE";
    let mut user = User::new();
    let mut pos = handshake(input, &mut user);
    let mut seen = Vec::new();
    while pos < input.len() {
        let (cmd, n) = get_input(&input[pos..], command_config(), &mut user);
        pos += n;
        seen.push(command_of(cmd[0]));
    }
    assert_eq!(seen, vec![Command::Help, Command::Prompt, Command::Exit]);
}

#[test]
fn compose_and_save() {
    let input = b"TEST01\nSBOB\nhello world/e";
    let mut user = User::new();
    let mut pos = handshake(input, &mut user);
    let (cmd, n) = get_input(&input[pos..], command_config(), &mut user);
    pos += n;
    assert_eq!(command_of(cmd[0]), Command::Compose);
    let mut msg = Message::new();
    msg.sender = user.snapshot();
    let (to, n) = get_input(&input[pos..], field_config(), &mut user);
    pos += n;
    msg.set_to(&to);
    assert!(msg.to.starts_with("BOB"));
    msg.date = String::from("2024-01-02T03:04:05Z");
    let (body, n) = get_input(&input[pos..], body_config(), &mut user);
    pos += n;
    assert_eq!(pos, input.len());
    msg.set_text(&body);
    let name = msg.file_name();
    assert!(name.contains("-TEST01") && name.ends_with(".dat"));
    assert_eq!(&msg.file_contents()[..13], b"hello world\0\0");
}

#[test]
fn list_and_read_as_plain_user() {
    let input = b"TEST01\nL\n00\nE";
    let mut user = User::new();
    let mut pos = handshake(input, &mut user);
    let (cmd, n) = get_input(&input[pos..], command_config(), &mut user);
    pos += n;
    assert_eq!(command_of(cmd[0]), Command::List);
    assert_eq!(list_line(0, "./store/a.dat"), "Message: [0] -> ./store/a.dat\n");
    let (sel, n) = get_input(&input[pos..], selection_config(), &mut user);
    pos += n;
    assert_eq!(selection(&sel, 1), Some(0));
    assert_eq!(show_text(b"hi"), "hi");
    assert!(!offers_delete(&user));
    let (cmd, n) = get_input(&input[pos..], command_config(), &mut user);
    pos += n;
    assert_eq!(command_of(cmd[0]), Command::Prompt);
    let (cmd, _) = get_input(&input[pos..], command_config(), &mut user);
    assert_eq!(command_of(cmd[0]), Command::Exit);
}

#[test]
fn admin_reply_read_takes_left_over_line_feed() {
    let input = b"M0ZAH\nL\n00\nY\nE";
    let mut user = User::new();
    let mut pos = handshake(input, &mut user);
    let (_, n) = get_input(&input[pos..], command_config(), &mut user);
    pos += n;
    let (sel, n) = get_input(&input[pos..], selection_config(), &mut user);
    pos += n;
    assert_eq!(selection(&sel, 1), Some(0));
    assert!(offers_delete(&user));
    let (reply, n) = get_input(&input[pos..], confirm_config(), &mut user);
    pos += n;
    assert_eq!(reply[0], b'\n');
    assert!(!confirms_delete(&user, &reply));
    let (cmd, _) = get_input(&input[pos..], command_config(), &mut user);
    assert_eq!(command_of(cmd[0]), Command::Unknown);
}

#[test]
fn admin_deletes_after_reading() {
    let input = b"M0ZAH\nL\n00y\nE";
    let mut user = User::new();
    let mut pos = handshake(input, &mut user);
    let (cmd, n) = get_input(&input[pos..], command_config(), &mut user);
    pos += n;
    assert_eq!(command_of(cmd[0]), Command::List);
    let (sel, n) = get_input(&input[pos..], selection_config(), &mut user);
    pos += n;
    assert_eq!(selection(&sel, 1), Some(0));
    assert!(offers_delete(&user));
    let (reply, n) = get_input(&input[pos..], confirm_config(), &mut user);
    pos += n;
    assert!(confirms_delete(&user, &reply));
    assert_eq!(deleted_text(0), "Msg [0] deleted\n");
    let (cmd, _) = get_input(&input[pos..], command_config(), &mut user);
    assert_eq!(command_of(cmd[0]), Command::Prompt);
}

#[test]
fn set_home_mailbox_and_details() {
    let input = b"TEST01\nQGB7ABC\nM\nE";
    let mut user = User::new();
    let mut pos = handshake(input, &mut user);
    let (cmd, n) = get_input(&input[pos..], command_config(), &mut user);
    pos += n;
    assert_eq!(command_of(cmd[0]), Command::SetHome);
    let (home, n) = get_input(&input[pos..], field_config(), &mut user);
    pos += n;
    user.set_qth(&home);
    assert!(home_echo(&user).starts_with("HomeBBS: GB7ABC"));
    let (cmd, n) = get_input(&input[pos..], command_config(), &mut user);
    pos += n;
    assert_eq!(command_of(cmd[0]), Command::Details);
    // handshake 7 bytes (28), Q (1), GB7ABC\n 7 bytes (28), M (1)
    assert_eq!(user.total_session_bytes, 58);
    let d = details_text(&user);
    assert!(d.starts_with("Callsign: TEST01\n"));
    assert!(d.contains("Home Mailbox: GB7ABC"));
    assert!(d.ends_with("Total Bytes Received: 58\n"));
    let (cmd, _) = get_input(&input[pos..], command_config(), &mut user);
    assert_eq!(command_of(cmd[0]), Command::Prompt);
}
