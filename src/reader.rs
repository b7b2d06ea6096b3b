use vstd::prelude::*;

use crate::session::{saturating, User};
use crate::MAX_BUFF;

verus! {

/// Carriage return: never kept in a buffer.
pub const CR: u8 = 13;

/// Line feed: the single-byte terminator.
pub const LF: u8 = 10;

/// The first byte of a two-byte escape such as `/e`.
pub const SLASH: u8 = 47;

/// What happens to each byte before it is stored.
#[derive(Clone, Copy, Debug, PartialEq, Eq, Structural)]
pub enum Transform {
    /// Kept as it is.
    Raw,
    /// ASCII lower case folded to upper case.
    Capital,
    /// ASCII digits turned into their value, every other byte into 0.
    Decimal,
}

/// The options of one read.
#[derive(Clone, Copy, Debug, PartialEq, Eq, Structural)]
pub struct ReaderConfig {
    pub transform: Transform,
    /// The terminator: LF ends a line by itself, any other byte ends the
    /// read when it follows a slash.
    pub esac: Option<u8>,
    /// The write index at which the read stops: with 0 the read takes one byte.
    pub size: usize,
}

/// The byte that a transform makes of `b`.
pub open spec fn transformed(t: Transform, b: u8) -> u8 {
    match t {
        Transform::Raw => b,
        Transform::Capital => if 0x61 <= b && b <= 0x7A {
            (b - 0x20) as u8
        } else {
            b
        },
        Transform::Decimal => if 0x30 <= b && b <= 0x39 {
            (b - 0x30) as u8
        } else {
            0
        },
    }
}

/// The byte that lands in the buffer for input byte `b`.
pub open spec fn stored(t: Transform, b: u8) -> u8 {
    if transformed(t, b) == CR {
        0
    } else {
        transformed(t, b)
    }
}

/// The read stops at write index `i` because of the buffer's or the caller's cap.
pub open spec fn cap_stop(cfg: ReaderConfig, i: int) -> bool {
    i == MAX_BUFF - 1 || i == cfg.size
}

/// The read stops at write index `i` on a line feed.
pub open spec fn line_stop(cfg: ReaderConfig, input: Seq<u8>, i: int) -> bool {
    cfg.esac == Some(LF) && i >= 2 && stored(cfg.transform, input[i]) == LF
}

/// The read stops at write index `i` on a slash followed by the terminator.
pub open spec fn escape_stop(cfg: ReaderConfig, input: Seq<u8>, i: int) -> bool {
    match cfg.esac {
        Some(e) => e != LF && i >= 2 && stored(cfg.transform, input[i - 1]) == SLASH
            && stored(cfg.transform, input[i]) == e,
        None => false,
    }
}

/// The read stops after storing the byte at write index `i`.
pub open spec fn halts(cfg: ReaderConfig, input: Seq<u8>, i: int) -> bool {
    cap_stop(cfg, i) || line_stop(cfg, input, i) || escape_stop(cfg, input, i)
}

/// How many bytes of `input` a read consumes, scanning from index `i`.
pub open spec fn scan(cfg: ReaderConfig, input: Seq<u8>, i: int) -> int
    decreases input.len() - i,
{
    if i < 0 || i >= input.len() {
        input.len() as int
    } else if halts(cfg, input, i) {
        i + 1
    } else {
        scan(cfg, input, i + 1)
    }
}

/// How many bytes of `input` a read consumes.
pub open spec fn read_len(cfg: ReaderConfig, input: Seq<u8>) -> int {
    scan(cfg, input, 0)
}

/// The last two stored bytes of a read of `n` bytes were an escape, and were cleared.
pub open spec fn cleared(cfg: ReaderConfig, input: Seq<u8>, n: int) -> bool {
    n >= 1 && !cap_stop(cfg, n - 1) && escape_stop(cfg, input, n - 1)
}

/// The buffer after a read of the first `n` bytes of `input`.
pub open spec fn buffer_of(cfg: ReaderConfig, input: Seq<u8>, n: int) -> Seq<u8> {
    Seq::new(
        MAX_BUFF as nat,
        |j: int|
            if j >= n {
                0u8
            } else if cleared(cfg, input, n) && j >= n - 2 {
                0u8
            } else {
                stored(cfg.transform, input[j])
            },
    )
}

/// 1 + 2 + ... + n: what a read of `n` bytes adds to the session counter.
pub open spec fn triangle(n: nat) -> nat
    decreases n,
{
    if n == 0 {
        0
    } else {
        n + triangle((n - 1) as nat)
    }
}

/// Applies a transform to one byte.
pub fn transform_byte(t: Transform, b: u8) -> (r: u8)
    ensures
        r == transformed(t, b),
{
    match t {
        Transform::Raw => b,
        Transform::Capital => if 0x61 <= b && b <= 0x7A {
            b - 0x20
        } else {
            b
        },
        Transform::Decimal => if 0x30 <= b && b <= 0x39 {
            b - 0x30
        } else {
            0
        },
    }
}

/// A read in progress: bytes are handed in one at a time until it halts.
pub struct InputReader {
    config: ReaderConfig,
    buf: Vec<u8>,
    index: usize,
    halted: bool,
    input: Ghost<Seq<u8>>,
}

impl InputReader {
    /// The bytes handed in so far.
    pub closed spec fn input(&self) -> Seq<u8> {
        self.input@
    }

    /// The options the read was started with.
    pub closed spec fn config(&self) -> ReaderConfig {
        self.config
    }

    /// The read has stopped after the last byte handed in.
    pub open spec fn stopped(&self) -> bool {
        self.input().len() > 0 && halts(self.config(), self.input(), self.input().len() - 1)
    }

    /// The buffer and the index follow from the bytes handed in, which never
    /// run past the point where the read halts.
    pub closed spec fn wf(&self) -> bool {
        &&& self.index == self.input@.len()
        &&& self.index <= MAX_BUFF
        &&& self.buf@ == buffer_of(self.config, self.input@, self.index as int)
        &&& self.halted == self.stopped()
        &&& forall|i: int| 0 <= i < self.index - 1 ==> !halts(self.config, self.input@, i)
    }

    /// A read that has consumed nothing: a zeroed buffer.
    pub fn new(config: ReaderConfig) -> (r: InputReader)
        ensures
            r.wf(),
            r.config() == config,
            r.input() == Seq::<u8>::empty(),
    {
        let buf: Vec<u8> = vec![0u8; MAX_BUFF];
        let r = InputReader { config, buf, index: 0, halted: false, input: Ghost(Seq::empty()) };
        assert(r.buf@ =~= buffer_of(config, Seq::empty(), 0));
        r
    }

    /// The read has stopped and takes no more bytes.
    pub fn is_halted(&self) -> (r: bool)
        requires
            self.wf(),
        ensures
            r == self.stopped(),
    {
        self.halted
    }

    /// Stores one more input byte, counting it on the session, and tells
    /// whether the read has now stopped.
    pub fn push(&mut self, b: u8, user: &mut User) -> (stop: bool)
        requires
            old(self).wf(),
            !old(self).stopped(),
        ensures
            final(self).wf(),
            final(self).config() == old(self).config(),
            final(self).input() == old(self).input().push(b),
            stop == final(self).stopped(),
            final(user).total_session_bytes == saturating(
                old(user).total_session_bytes as int,
                (old(self).input().len() + 1) as int,
            ),
            final(user).callsign == old(user).callsign,
            final(user).qth == old(user).qth,
    {
        let ghost old_input = self.input@;
        let ghost cfg = self.config;
        assert(forall|k: int| 0 <= k < old_input.len() ==> !halts(cfg, old_input, k));
        let i = self.index;
        assert(i < MAX_BUFF) by {
            if i == MAX_BUFF {
                assert(cap_stop(cfg, i - 1));
            }
        }
        let t = transform_byte(self.config.transform, b);
        let v: u8 = if t == CR {
            0
        } else {
            t
        };
        self.buf.set(i, v);
        user.add_received(i + 1);
        self.input = Ghost(old_input.push(b));
        self.index = i + 1;
        let ghost input = self.input@;
        assert(input[i as int] == b);
        let cap = i == MAX_BUFF - 1 || i == self.config.size;
        let mut stop = cap;
        if !cap {
            match self.config.esac {
                Some(e) => {
                    if i >= 2 {
                        if e == LF && v == LF {
                            stop = true;
                        } else if self.buf[i - 1] == SLASH && v == e {
                            self.buf.set(i, 0);
                            self.buf.set(i - 1, 0);
                            stop = true;
                        }
                    }
                },
                None => {},
            }
        }
        self.halted = stop;
        assert(self.buf@ =~= buffer_of(cfg, input, i + 1));
        assert forall|k: int| 0 <= k < self.index - 1 implies !halts(cfg, input, k) by {
            assert(input[k] == old_input[k]);
            assert(!halts(cfg, old_input, k));
            if k >= 1 {
                assert(input[k - 1] == old_input[k - 1]);
            }
        }
        stop
    }

    /// The buffer as the read left it.
    pub fn buffer(&self) -> (r: &Vec<u8>)
        requires
            self.wf(),
        ensures
            r@ == buffer_of(self.config(), self.input(), self.input().len() as int),
    {
        &self.buf
    }
}

/// The buffer of a read of `n` bytes depends on those bytes alone.
proof fn lemma_buffer_prefix(cfg: ReaderConfig, input: Seq<u8>, n: int)
    requires
        0 <= n <= input.len(),
    ensures
        buffer_of(cfg, input.take(n), n) == buffer_of(cfg, input, n),
{
    let p = input.take(n);
    if n >= 1 {
        assert(p[n - 1] == input[n - 1]);
    }
    if n >= 2 {
        assert(p[n - 2] == input[n - 2]);
    }
    assert(cleared(cfg, p, n) == cleared(cfg, input, n));
    assert(buffer_of(cfg, p, n) =~= buffer_of(cfg, input, n));
}

/// Reads from `input` under `cfg` into a fresh buffer, counting each byte on
/// the session. Returns the buffer and how many bytes of `input` were
/// consumed; the read ends early where it halts, else at the end of `input`.
pub fn get_input(input: &[u8], cfg: ReaderConfig, user: &mut User) -> (r: (Vec<u8>, usize))
    ensures
        r.1 == read_len(cfg, input@),
        r.1 <= MAX_BUFF,
        r.0@ == buffer_of(cfg, input@, r.1 as int),
        final(user).total_session_bytes == saturating(
            old(user).total_session_bytes as int,
            triangle(r.1 as nat) as int,
        ),
        final(user).callsign == old(user).callsign,
        final(user).qth == old(user).qth,
{
    let mut reader = InputReader::new(cfg);
    let mut k: usize = 0;
    let mut stop = false;
    while k < input.len() && !stop
        invariant
            reader.wf(),
            reader.config() == cfg,
            0 <= k <= input@.len(),
            k <= MAX_BUFF,
            reader.input() == input@.take(k as int),
            stop == reader.stopped(),
            stop ==> read_len(cfg, input@) == k,
            !stop ==> read_len(cfg, input@) == scan(cfg, input@, k as int),
            user.total_session_bytes == saturating(
                old(user).total_session_bytes as int,
                triangle(k as nat) as int,
            ),
            user.callsign == old(user).callsign,
            user.qth == old(user).qth,
        decreases input@.len() - k,
    {
        stop = reader.push(input[k], user);
        let ghost now = reader.input();
        assert(now =~= input@.take(k + 1));
        assert(now[k as int] == input@[k as int]);
        if k >= 1 {
            assert(now[k - 1] == input@[k - 1]);
        }
        assert(halts(cfg, now, k as int) == halts(cfg, input@, k as int));
        assert(triangle((k + 1) as nat) == (k + 1) + triangle(k as nat));
        k = k + 1;
    }
    proof {
        lemma_buffer_prefix(cfg, input@, k as int);
    }
    let buf = reader.buffer().clone();
    (buf, k)
}

/// A read of `n` bytes adds `n(n+1)/2` to the session counter, and each byte
/// it consumes adds at least one, as long as the counter stays below `usize::MAX`.
pub proof fn lemma_counter_growth(before: int, n: nat)
    requires
        0 <= before,
        before + n * (n + 1) / 2 <= usize::MAX,
    ensures
        saturating(before, triangle(n) as int) == before + n * (n + 1) / 2,
        forall|k: nat|
            k < n ==> #[trigger] saturating(before, triangle(k) as int) < saturating(
                before,
                triangle(k + 1) as int,
            ),
{
    lemma_triangle_closed_form(n);
    assert forall|k: nat| k < n implies #[trigger] saturating(before, triangle(k) as int)
        < saturating(before, triangle(k + 1) as int) by {
        lemma_triangle_monotonic(k + 1, n);
        assert(triangle(k + 1) == k + 1 + triangle(k));
    }
}

proof fn lemma_triangle_closed_form(n: nat)
    ensures
        triangle(n) == n * (n + 1) / 2,
    decreases n,
{
    if n > 0 {
        let m = (n - 1) as nat;
        lemma_triangle_closed_form(m);
        assert(triangle(n) == n + triangle(m));
        let t = triangle(m) as int;
        let ni = n as int;
        let mi = m as int;
        assert(t + ni == ni * (ni + 1) / 2) by (nonlinear_arith)
            requires
                mi + 1 == ni,
                t == mi * (mi + 1) / 2,
        ;
        assert(triangle(n) == ni * (ni + 1) / 2);
    } else {
        assert(triangle(n) == 0);
    }
}

proof fn lemma_triangle_monotonic(k: nat, n: nat)
    requires
        k <= n,
    ensures
        triangle(k) <= triangle(n),
    decreases n - k,
{
    if k < n {
        lemma_triangle_monotonic(k, (n - 1) as nat);
    }
}

/// No buffer holds a carriage return: each one read is stored as 0.
pub proof fn lemma_no_carriage_return(cfg: ReaderConfig, input: Seq<u8>, n: int)
    requires
        0 <= n <= input.len(),
        n <= MAX_BUFF,
    ensures
        forall|j: int| 0 <= j < MAX_BUFF ==> #[trigger] buffer_of(cfg, input, n)[j] != CR,
        forall|j: int| 0 <= j < n && input[j] == CR ==> #[trigger] buffer_of(cfg, input, n)[j] == 0,
{
}

/// Under the decimal transform no stored byte exceeds 9.
pub proof fn lemma_decimal_digits(cfg: ReaderConfig, input: Seq<u8>, n: int)
    requires
        cfg.transform == Transform::Decimal,
        0 <= n <= input.len(),
    ensures
        forall|j: int| 0 <= j < MAX_BUFF ==> #[trigger] buffer_of(cfg, input, n)[j] <= 9,
{
}

proof fn lemma_scan_skip(cfg: ReaderConfig, input: Seq<u8>, i: int, m: int)
    requires
        0 <= i <= m <= input.len(),
        forall|k: int| i <= k < m ==> !halts(cfg, input, k),
    ensures
        scan(cfg, input, i) == scan(cfg, input, m),
    decreases m - i,
{
    if i < m {
        lemma_scan_skip(cfg, input, i + 1, m);
    }
}

/// A raw body ended by a slash and the terminator is read up to that pair and
/// no further; the buffer holds the body, with the pair and the rest of the
/// buffer cleared to 0. The body must not itself hold a carriage return or
/// the pair, and the caller's cap must lie beyond the pair.
pub proof fn lemma_escape_round_trip(cfg: ReaderConfig, body: Seq<u8>, rest: Seq<u8>)
    requires
        cfg.transform == Transform::Raw,
        cfg.esac matches Some(e) && e != LF && e != SLASH && e != CR,
        cfg.size > body.len() + 1,
        1 <= body.len(),
        body.len() + 2 < MAX_BUFF,
        forall|j: int| 0 <= j < body.len() ==> body[j] != CR,
        forall|j: int|
            1 <= j < body.len() ==> !(body[j - 1] == SLASH && Some(body[j]) == cfg.esac),
    ensures
        ({
            let input = body + seq![SLASH, cfg.esac.unwrap()] + rest;
            &&& read_len(cfg, input) == body.len() + 2
            &&& buffer_of(cfg, input, body.len() + 2int) == body + Seq::new(
                (MAX_BUFF - body.len()) as nat,
                |j: int| 0u8,
            )
        }),
{
    let e = cfg.esac.unwrap();
    let input = body + seq![SLASH, e] + rest;
    let len = body.len() as int;
    assert(input[len] == SLASH);
    assert(input[len + 1] == e);
    assert forall|k: int| 0 <= k < len + 1 implies !halts(cfg, input, k) by {
        if k < len {
            assert(input[k] == body[k]);
            if k >= 1 {
                assert(input[k - 1] == body[k - 1]);
            }
        } else {
            assert(input[k - 1] == body[k - 1]);
        }
    }
    lemma_scan_skip(cfg, input, 0, len + 1);
    assert(halts(cfg, input, len + 1));
    assert(cleared(cfg, input, len + 2));
    assert forall|j: int| 0 <= j < len implies input[j] == body[j] by {}
    assert(buffer_of(cfg, input, len + 2) =~= body + Seq::new(
        (MAX_BUFF - body.len()) as nat,
        |j: int| 0u8,
    ));
}

} // verus!
