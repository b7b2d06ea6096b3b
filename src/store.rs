use vstd::prelude::*;
use vstd::utf8::{encode_utf8, valid_utf8};

use crate::calendar::{timestamp_of, timestamp_text, utc_time, UtcTime};
use crate::session::{field_text, line_text, line_text_of, prefix, remove_char, text_of, User};
use crate::{MAX_BUFF, MAX_CALL};

verus! {

/// A message, as composed and as saved to the store.
pub struct Message {
    pub to: String,
    pub sender: User,
    pub date: String,
    pub text: String,
}

/// A callsign as it stands in a file name: without NUL and line feed.
pub open spec fn sanitized(callsign: Seq<char>) -> Seq<char> {
    callsign.filter(|c: char| c != '\0').filter(|c: char| c != '\n')
}

/// The path of a message saved at `date` by `callsign`.
pub open spec fn file_name_of(date: Seq<char>, callsign: Seq<char>) -> Seq<char> {
    "./store/"@ + date + "-"@ + sanitized(callsign) + ".dat"@
}

/// How much of a file `show` reads.
pub open spec fn shown_len(len: nat) -> nat {
    if len < MAX_BUFF {
        len
    } else {
        MAX_BUFF as nat
    }
}

/// The bytes of a file that `show` reads.
pub open spec fn shown_of(contents: Seq<u8>) -> Seq<u8> {
    contents.take(shown_len(contents.len()) as int)
}

impl Message {
    /// An empty message from a fresh session.
    pub fn new() -> (r: Message)
        ensures
            r.to@ == Seq::<char>::empty(),
            r.date@ == Seq::<char>::empty(),
            r.text@ == Seq::<char>::empty(),
            r.sender.callsign@ == Seq::<char>::empty(),
            r.sender.qth@ == "N0HOME"@,
            r.sender.total_session_bytes == 0,
    {
        Message { to: String::new(), sender: User::new(), date: String::new(), text: String::new() }
    }

    /// Takes the recipient from the first `MAX_CALL` bytes of a buffer, without line feeds.
    pub fn set_to(&mut self, buf: &[u8])
        requires
            buf@.len() >= MAX_CALL,
        ensures
            final(self).to@ == line_text_of(buf@.take(MAX_CALL as int)),
            final(self).sender == old(self).sender,
            final(self).date == old(self).date,
            final(self).text == old(self).text,
    {
        let p = prefix(buf, MAX_CALL);
        self.to = line_text(p.as_slice());
    }

    /// Takes the body from a whole buffer.
    pub fn set_text(&mut self, buf: &[u8])
        ensures
            final(self).text@ == text_of(buf@),
            final(self).sender == old(self).sender,
            final(self).date == old(self).date,
            final(self).to == old(self).to,
    {
        self.text = field_text(buf);
    }

    /// Dates the message at an instant given as seconds and nanoseconds since
    /// 1970-01-01T00:00:00Z.
    pub fn set_date(&mut self, secs: u64, nanos: u32)
        requires
            nanos < 1_000_000_000,
        ensures
            exists|t: UtcTime|
                t.valid() && t.epoch_seconds() == secs && t.nanos == nanos && final(self).date@
                    == timestamp_of(t),
            final(self).sender == old(self).sender,
            final(self).to == old(self).to,
            final(self).text == old(self).text,
    {
        let t = utc_time(secs, nanos);
        self.date = timestamp_text(&t);
    }

    /// Where the message is saved.
    pub fn file_name(&self) -> (r: String)
        ensures
            r@ == file_name_of(self.date@, self.sender.callsign@),
    {
        let no_nul = remove_char(self.sender.callsign.as_str(), '\0');
        let call = remove_char(no_nul.as_str(), '\n');
        let r = String::from_str("./store/").concat(self.date.as_str()).concat("-").concat(
            call.as_str(),
        ).concat(".dat");
        r
    }

    /// The bytes written to the message's file: its text.
    pub fn file_contents(&self) -> (r: Vec<u8>)
        ensures
            r@ == encode_utf8(self.text@),
    {
        vstd::slice::slice_to_vec(self.text.as_str().as_bytes())
    }
}

/// The bytes of a file that `show` reads: at most `MAX_BUFF`.
pub fn shown_bytes(contents: &[u8]) -> (r: Vec<u8>)
    ensures
        r@ == shown_of(contents@),
{
    let n = if contents.len() < MAX_BUFF {
        contents.len()
    } else {
        MAX_BUFF
    };
    prefix(contents, n)
}

/// The text that `show` prints for a file.
pub fn show_text(contents: &[u8]) -> (r: String)
    ensures
        r@ == text_of(shown_of(contents@)),
{
    let b = shown_bytes(contents);
    field_text(b.as_slice())
}

/// A body saved from a UTF-8 buffer of at most `MAX_BUFF` bytes is read back
/// by `show` byte for byte, NUL padding included.
pub proof fn lemma_saved_body_shown(body: Seq<u8>)
    requires
        body.len() <= MAX_BUFF,
        valid_utf8(body),
    ensures
        shown_of(encode_utf8(text_of(body))) == body,
        text_of(shown_of(encode_utf8(text_of(body)))) == text_of(body),
{
    vstd::utf8::decode_utf8_encode_utf8(body);
    assert(body.take(body.len() as int) =~= body);
}

} // verus!
