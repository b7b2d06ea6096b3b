use vstd::prelude::*;
use vstd::utf8::{decode_utf8, encode_utf8, valid_utf8};

use crate::MAX_CALL;

verus! {

/// The connected operator's session.
pub struct User {
    pub callsign: String,
    pub qth: String,
    pub total_session_bytes: usize,
}

/// The counter after adding `k` to `a`, held at `usize::MAX`.
pub open spec fn saturating(a: int, k: int) -> int {
    if a + k > usize::MAX {
        usize::MAX as int
    } else {
        a + k
    }
}

/// What stands in a text field whose bytes are not valid UTF-8.
pub open spec fn invalid_text() -> Seq<char> {
    seq!['N', '0', 'C', 'A', 'L', 'L']
}

/// The text of a field read as bytes.
pub open spec fn text_of(b: Seq<u8>) -> Seq<char> {
    if valid_utf8(b) {
        decode_utf8(b)
    } else {
        invalid_text()
    }
}

/// The text of a one-line field: its line feeds removed.
pub open spec fn line_text_of(b: Seq<u8>) -> Seq<char> {
    text_of(b).filter(|c: char| c != '\n')
}

/// The admin callsign.
pub open spec fn admin_callsign() -> Seq<char> {
    seq!['M', '0', 'Z', 'A', 'H']
}

/// `p` occurs in `s`.
pub open spec fn contains(s: Seq<char>, p: Seq<char>) -> bool {
    exists|i: int| 0 <= i && i + p.len() <= s.len() && #[trigger] s.subrange(i, i + p.len()) == p
}

/// A session whose callsign holds the admin callsign may delete messages.
pub open spec fn is_admin_spec(user: &User) -> bool {
    contains(user.callsign@, admin_callsign())
}

/// Relies on std::str::from_utf8: it accepts exactly the valid UTF-8
/// sequences, and the text it gives has the same bytes.
#[verifier::external_body]
fn decode_bytes(b: &[u8]) -> (r: Option<String>)
    ensures
        r is Some <==> valid_utf8(b@),
        r matches Some(s) ==> encode_utf8(s@) == b@,
{
    std::str::from_utf8(b).ok().map(|s| s.to_owned())
}

/// Relies on str::replace: every occurrence of `c` is replaced by nothing.
#[verifier::external_body]
pub(crate) fn remove_char(s: &str, c: char) -> (r: String)
    ensures
        r@ == s@.filter(|x: char| x != c),
{
    s.replace(c, "")
}

/// The first `n` bytes of `b`.
pub fn prefix(b: &[u8], n: usize) -> (r: Vec<u8>)
    requires
        n <= b@.len(),
    ensures
        r@ == b@.take(n as int),
{
    let mut r: Vec<u8> = Vec::new();
    let mut i: usize = 0;
    while i < n
        invariant
            i <= n <= b@.len(),
            r@ == b@.take(i as int),
        decreases n - i,
    {
        r.push(b[i]);
        i = i + 1;
        assert(r@ =~= b@.take(i as int));
    }
    r
}

/// The text of a field: its bytes decoded, or `N0CALL` where they are not UTF-8.
pub fn field_text(b: &[u8]) -> (r: String)
    ensures
        r@ == text_of(b@),
{
    match decode_bytes(b) {
        Some(s) => {
            proof {
                vstd::utf8::encode_utf8_decode_utf8(s@);
            }
            s
        },
        None => {
            let r = String::from_str("N0CALL");
            proof {
                reveal_strlit("N0CALL");
            }
            assert(r@ =~= invalid_text());
            r
        },
    }
}

/// The text of a one-line field, without its line feeds.
pub fn line_text(b: &[u8]) -> (r: String)
    ensures
        r@ == line_text_of(b@),
{
    let t = field_text(b);
    remove_char(t.as_str(), '\n')
}

/// Whether the admin callsign starts at char `i` of `s`.
fn admin_at(s: &str, i: usize) -> (r: bool)
    requires
        i + 5 <= s@.len() <= usize::MAX,
    ensures
        r == (s@.subrange(i as int, i + 5) == admin_callsign()),
{
    let pat: [char; 5] = ['M', '0', 'Z', 'A', 'H'];
    let mut k: usize = 0;
    while k < 5
        invariant
            k <= 5,
            i + 5 <= s@.len() <= usize::MAX,
            pat@ == admin_callsign(),
            forall|j: int| 0 <= j < k ==> s@[i + j] == pat@[j],
        decreases 5 - k,
    {
        if s.get_char(i + k) != pat[k] {
            assert(s@.subrange(i as int, i + 5)[k as int] != admin_callsign()[k as int]);
            return false;
        }
        k = k + 1;
    }
    assert(s@.subrange(i as int, i + 5) =~= admin_callsign());
    true
}

/// Whether the session may delete messages: its callsign holds `M0ZAH`.
pub fn is_admin(user: &User) -> (r: bool)
    ensures
        r == is_admin_spec(user),
{
    let s = user.callsign.as_str();
    let len = s.unicode_len();
    if len < 5 {
        assert(!contains(s@, admin_callsign()));
        return false;
    }
    let mut i: usize = 0;
    while i <= len - 5
        invariant
            len == s@.len(),
            len >= 5,
            i <= len - 4,
            s@ == user.callsign@,
            forall|j: int| 0 <= j < i ==> #[trigger] s@.subrange(j, j + 5) != admin_callsign(),
        decreases len - i,
    {
        if admin_at(s, i) {
            assert(s@.subrange(i as int, i + admin_callsign().len()) == admin_callsign());
            return true;
        }
        i = i + 1;
    }
    assert forall|j: int|
        0 <= j && j + admin_callsign().len() <= s@.len() implies #[trigger] s@.subrange(
        j,
        j + admin_callsign().len(),
    ) != admin_callsign() by {
        assert(j < i);
    }
    false
}

impl User {
    /// A fresh session: no callsign, home mailbox `N0HOME`, nothing received.
    pub fn new() -> (r: User)
        ensures
            r.callsign@ == Seq::<char>::empty(),
            r.qth@ == "N0HOME"@,
            r.total_session_bytes == 0,
    {
        User { callsign: String::new(), qth: String::from_str("N0HOME"), total_session_bytes: 0 }
    }

    /// Counts `k` more received bytes.
    pub fn add_received(&mut self, k: usize)
        ensures
            final(self).total_session_bytes == saturating(
                old(self).total_session_bytes as int,
                k as int,
            ),
            final(self).callsign == old(self).callsign,
            final(self).qth == old(self).qth,
    {
        self.total_session_bytes = self.total_session_bytes.saturating_add(k);
    }
}

impl User {
    /// Takes the callsign from the first `MAX_CALL` bytes of a handshake buffer, as they stand.
    pub fn set_callsign(&mut self, buf: &[u8])
        requires
            buf@.len() >= MAX_CALL,
        ensures
            final(self).callsign@ == text_of(buf@.take(MAX_CALL as int)),
            final(self).qth == old(self).qth,
            final(self).total_session_bytes == old(self).total_session_bytes,
    {
        let p = prefix(buf, MAX_CALL);
        self.callsign = field_text(p.as_slice());
    }

    /// Takes the home mailbox from the first `MAX_CALL` bytes of a buffer,
    /// without line feeds.
    pub fn set_qth(&mut self, buf: &[u8])
        requires
            buf@.len() >= MAX_CALL,
        ensures
            final(self).qth@ == line_text_of(buf@.take(MAX_CALL as int)),
            final(self).callsign == old(self).callsign,
            final(self).total_session_bytes == old(self).total_session_bytes,
    {
        let p = prefix(buf, MAX_CALL);
        self.qth = line_text(p.as_slice());
    }

    /// A copy of the session, as a message's sender.
    pub fn snapshot(&self) -> (r: User)
        ensures
            r.callsign@ == self.callsign@,
            r.qth@ == self.qth@,
            r.total_session_bytes == self.total_session_bytes,
    {
        User {
            callsign: self.callsign.clone(),
            qth: self.qth.clone(),
            total_session_bytes: self.total_session_bytes,
        }
    }
}

} // verus!
