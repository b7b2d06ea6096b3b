use vstd::prelude::*;

use crate::reader::{ReaderConfig, Transform, LF};
use crate::session::{is_admin, is_admin_spec, User};
use crate::store::Message;
use crate::{MAX_BUFF, MAX_CALL};

verus! {

pub const COMMANDS_MSG: &'static str =
    "E: Exit, H: Help, L: List Messages, M: My Details, Q: Set Home Mailbox, S: Compose Message\n";

pub const WELCOME_MSG: &'static str = "You have connected to M0ZAH Mailbox\nMSGZAH Version: 0.1";

pub const USER_PROMPT: &'static str = ">>> ";

pub const UNKNOWN_PROMPT: &'static str = "?";

pub const COMPOSE_MSG: &'static str = "Please enter your message and use /e to finish\n";

pub const TO_MSG: &'static str = "TO: ";

pub const HOME_BBS_PROMPT: &'static str = "Please enter your home BBS/Mailbox\n";

pub const LIST_PROMPT: &'static str = "Please enter the message number you'd like to read!\n";

pub const DELETE_MSG_PROMPT: &'static str = "Would you like to delete this message? N/Y: ";

/// What the first byte of a command line asks for.
#[derive(Clone, Copy, Debug, PartialEq, Eq, Structural)]
pub enum Command {
    Ignore,
    Prompt,
    Exit,
    Help,
    List,
    Details,
    SetHome,
    Compose,
    Unknown,
}

pub open spec fn command_spec(b: u8) -> Command {
    if b == 0x00 {
        Command::Ignore
    } else if b == 0x0A {
        Command::Prompt
    } else if b == 0x45 || b == 0x65 {
        Command::Exit
    } else if b == 0x48 || b == 0x68 {
        Command::Help
    } else if b == 0x4C || b == 0x6C {
        Command::List
    } else if b == 0x4D || b == 0x6D {
        Command::Details
    } else if b == 0x51 || b == 0x71 {
        Command::SetHome
    } else if b == 0x53 || b == 0x73 {
        Command::Compose
    } else {
        Command::Unknown
    }
}

/// The command that a byte selects.
pub fn command_of(b: u8) -> (r: Command)
    ensures
        r == command_spec(b),
{
    match b {
        0x00 => Command::Ignore,
        0x0A => Command::Prompt,
        0x45 | 0x65 => Command::Exit,
        0x48 | 0x68 => Command::Help,
        0x4C | 0x6C => Command::List,
        0x4D | 0x6D => Command::Details,
        0x51 | 0x71 => Command::SetHome,
        0x53 | 0x73 => Command::Compose,
        _ => Command::Unknown,
    }
}

/// The handshake: a callsign line of at most `MAX_CALL` bytes.
pub fn handshake_config() -> (r: ReaderConfig)
    ensures
        r == (ReaderConfig { transform: Transform::Raw, esac: Some(LF), size: MAX_CALL }),
{
    ReaderConfig { transform: Transform::Raw, esac: Some(LF), size: MAX_CALL }
}

/// A command: one byte.
pub fn command_config() -> (r: ReaderConfig)
    ensures
        r == (ReaderConfig { transform: Transform::Raw, esac: None, size: 0 }),
{
    ReaderConfig { transform: Transform::Raw, esac: None, size: 0 }
}

/// A recipient or home mailbox: a line of at most `MAX_CALL` bytes.
pub fn field_config() -> (r: ReaderConfig)
    ensures
        r == (ReaderConfig { transform: Transform::Raw, esac: Some(LF), size: MAX_CALL }),
{
    ReaderConfig { transform: Transform::Raw, esac: Some(LF), size: MAX_CALL }
}

/// A message number: two decimal bytes.
pub fn selection_config() -> (r: ReaderConfig)
    ensures
        r == (ReaderConfig { transform: Transform::Decimal, esac: Some(LF), size: 2 }),
{
    ReaderConfig { transform: Transform::Decimal, esac: Some(LF), size: 2 }
}

/// The answer to the delete prompt, folded to upper case.
pub fn confirm_config() -> (r: ReaderConfig)
    ensures
        r == (ReaderConfig { transform: Transform::Capital, esac: Some(LF), size: 0 }),
{
    ReaderConfig { transform: Transform::Capital, esac: Some(LF), size: 0 }
}

/// A message body, ended by `/e`.
pub fn body_config() -> (r: ReaderConfig)
    ensures
        r == (ReaderConfig { transform: Transform::Raw, esac: Some(0x65), size: MAX_BUFF }),
{
    ReaderConfig { transform: Transform::Raw, esac: Some(0x65), size: MAX_BUFF }
}

/// The message number of a selection buffer: bytes 1 and 2 as tens and units.
pub open spec fn selected_number(buf: Seq<u8>) -> int {
    buf[1] * 10 + buf[2]
}

/// The selection, where it names one of `store_len` messages and is at most 99.
pub open spec fn selection_spec(buf: Seq<u8>, store_len: nat) -> Option<int> {
    if selected_number(buf) < store_len && selected_number(buf) <= 99 {
        Some(selected_number(buf))
    } else {
        None
    }
}

/// The message that a selection buffer picks among `store_len`, if any.
pub fn selection(buf: &[u8], store_len: usize) -> (r: Option<usize>)
    requires
        buf@.len() >= 3,
    ensures
        r matches Some(i) ==> selection_spec(buf@, store_len as nat) == Some(i as int),
        r is None ==> selection_spec(buf@, store_len as nat) is None,
{
    let sel: usize = buf[1] as usize * 10 + buf[2] as usize;
    if sel < store_len && sel <= 99 {
        Some(sel)
    } else {
        None
    }
}

/// The delete is carried out: the session is an admin's and the answer starts with `Y`.
pub open spec fn deletes_spec(user: &User, reply: Seq<u8>) -> bool {
    is_admin_spec(user) && reply.len() > 0 && reply[0] == 0x59
}

/// Whether to offer deleting a message that was just shown.
pub fn offers_delete(user: &User) -> (r: bool)
    ensures
        r == is_admin_spec(user),
{
    is_admin(user)
}

/// Whether the answer to the delete prompt deletes the message.
pub fn confirms_delete(user: &User, reply: &[u8]) -> (r: bool)
    ensures
        r == deletes_spec(user, reply@),
{
    is_admin(user) && reply.len() > 0 && reply[0] == 0x59
}

/// Deleting can be offered, and can happen for some answer, exactly when the
/// callsign holds the admin callsign.
pub proof fn lemma_admin_gate(user: &User)
    ensures
        (exists|reply: Seq<u8>| deletes_spec(user, reply)) <==> is_admin_spec(user),
{
    if is_admin_spec(user) {
        assert(deletes_spec(user, seq![0x59u8]));
    }
}

pub open spec fn digit_char(d: nat) -> char {
    if d == 0 {
        '0'
    } else if d == 1 {
        '1'
    } else if d == 2 {
        '2'
    } else if d == 3 {
        '3'
    } else if d == 4 {
        '4'
    } else if d == 5 {
        '5'
    } else if d == 6 {
        '6'
    } else if d == 7 {
        '7'
    } else if d == 8 {
        '8'
    } else {
        '9'
    }
}

/// The decimal digits of `n`.
pub open spec fn decimal(n: nat) -> Seq<char>
    decreases n,
{
    if n < 10 {
        seq![digit_char(n)]
    } else {
        decimal(n / 10).push(digit_char(n % 10))
    }
}

fn digit_text(d: usize) -> (r: &'static str)
    requires
        d < 10,
    ensures
        r@ == seq![digit_char(d as nat)],
{
    proof {
        reveal_strlit("0");
        reveal_strlit("1");
        reveal_strlit("2");
        reveal_strlit("3");
        reveal_strlit("4");
        reveal_strlit("5");
        reveal_strlit("6");
        reveal_strlit("7");
        reveal_strlit("8");
        reveal_strlit("9");
    }
    let r = match d {
        0 => "0",
        1 => "1",
        2 => "2",
        3 => "3",
        4 => "4",
        5 => "5",
        6 => "6",
        7 => "7",
        8 => "8",
        _ => "9",
    };
    assert(r@ =~= seq![digit_char(d as nat)]);
    r
}

/// `n` written in decimal.
pub fn decimal_text(n: u64) -> (r: String)
    ensures
        r@ == decimal(n as nat),
    decreases n,
{
    if n < 10 {
        String::from_str(digit_text(n as usize))
    } else {
        let r = decimal_text(n / 10).concat(digit_text((n % 10) as usize));
        r
    }
}

/// The banner shown after the handshake.
pub fn welcome_text(user: &User) -> (r: String)
    ensures
        r@ == "Welcome: "@ + user.callsign@ + WELCOME_MSG@ + "\n\n"@ + COMMANDS_MSG@ + "\n"@,
{
    String::from_str("Welcome: ").concat(user.callsign.as_str()).concat(WELCOME_MSG).concat(
        "\n\n",
    ).concat(COMMANDS_MSG).concat("\n")
}

/// The session details.
pub fn details_text(user: &User) -> (r: String)
    ensures
        r@ == "Callsign: "@ + user.callsign@ + "\nHome Mailbox: "@ + user.qth@
            + "\n\nTotal Bytes Received: "@ + decimal(user.total_session_bytes as nat) + "\n"@,
{
    let total = decimal_text(user.total_session_bytes as u64);
    String::from_str("Callsign: ").concat(user.callsign.as_str()).concat(
        "\nHome Mailbox: ",
    ).concat(user.qth.as_str()).concat("\n\nTotal Bytes Received: ").concat(total.as_str()).concat(
        "\n",
    )
}

/// One line of the message list.
pub fn list_line(i: usize, path: &str) -> (r: String)
    ensures
        r@ == "Message: ["@ + decimal(i as nat) + "] -> "@ + path@ + "\n"@,
{
    let num = decimal_text(i as u64);
    String::from_str("Message: [").concat(num.as_str()).concat("] -> ").concat(path).concat("\n")
}

/// The report of a deleted message.
pub fn deleted_text(i: usize) -> (r: String)
    ensures
        r@ == "Msg ["@ + decimal(i as nat) + "] deleted\n"@,
{
    let num = decimal_text(i as u64);
    String::from_str("Msg [").concat(num.as_str()).concat("] deleted\n")
}

/// The echo of a new home mailbox.
pub fn home_echo(user: &User) -> (r: String)
    ensures
        r@ == "HomeBBS: "@ + user.qth@ + "\n"@,
{
    String::from_str("HomeBBS: ").concat(user.qth.as_str()).concat("\n")
}

/// The echo of a composed message.
pub fn compose_echo(msg: &Message) -> (r: String)
    ensures
        r@ == "From: "@ + msg.sender.callsign@ + "\nTo: "@ + msg.to@ + "\n"@ + msg.text@ + "\n"@,
{
    String::from_str("From: ").concat(msg.sender.callsign.as_str()).concat("\nTo: ").concat(
        msg.to.as_str(),
    ).concat("\n").concat(msg.text.as_str()).concat("\n")
}

} // verus!
