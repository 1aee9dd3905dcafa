//! SLIP framing: the byte stuffing that delimits frames on the UART, and the
//! incremental decoder that recovers them one received byte at a time.

use vstd::prelude::*;
use crate::protocol::splice;

verus! {

pub const SLIP_END: u8 = 0xc0;
pub const SLIP_ESC: u8 = 0xdb;
pub const SLIP_ESC_END: u8 = 0xdc;
pub const SLIP_ESC_ESC: u8 = 0xdd;

#[derive(Clone, Copy, Debug, PartialEq, Eq, Structural)]
pub enum SlipError {
    Overflow,
    BadEscape,
    BufferTooSmall,
    FramePending,
}

/// The stuffed form of one byte: the two reserved bytes become escape pairs.
pub open spec fn slip_escape(b: u8) -> Seq<u8> {
    if b == SLIP_END {
        seq![SLIP_ESC, SLIP_ESC_END]
    } else if b == SLIP_ESC {
        seq![SLIP_ESC, SLIP_ESC_ESC]
    } else {
        seq![b]
    }
}

/// The stuffed form of a byte sequence, byte by byte.
pub open spec fn slip_body(s: Seq<u8>) -> Seq<u8>
    decreases s.len(),
{
    if s.len() == 0 {
        Seq::empty()
    } else {
        slip_body(s.drop_last()) + slip_escape(s.last())
    }
}

/// The bytes sent on the wire for a frame: END, the stuffed frame, END.
pub open spec fn slip_frame(s: Seq<u8>) -> Seq<u8> {
    seq![SLIP_END] + slip_body(s) + seq![SLIP_END]
}

/// Stuffing a concatenation stuffs each part.
pub proof fn lemma_slip_body_append(a: Seq<u8>, b: Seq<u8>)
    ensures
        slip_body(a + b) == slip_body(a) + slip_body(b),
    decreases b.len(),
{
    if b.len() == 0 {
        assert(a + b =~= a);
        assert(slip_body(a) + slip_body(b) =~= slip_body(a));
    } else {
        lemma_slip_body_append(a, b.drop_last());
        assert((a + b).drop_last() =~= a + b.drop_last());
        assert(slip_body(a) + slip_body(b) =~= slip_body(a) + slip_body(b.drop_last())
            + slip_escape(b.last()));
    }
}

/// A stuffed sequence is at least as long as the original and at most twice as long.
pub proof fn lemma_slip_body_len(s: Seq<u8>)
    ensures
        s.len() <= slip_body(s).len() <= 2 * s.len(),
    decreases s.len(),
{
    if s.len() > 0 {
        lemma_slip_body_len(s.drop_last());
    }
}

/// Stuffing a single byte gives its escape.
pub proof fn lemma_slip_body_single(x: u8)
    ensures
        slip_body(seq![x]) == slip_escape(x),
{
    assert(seq![x].drop_last() =~= Seq::<u8>::empty());
    assert(slip_body(Seq::<u8>::empty()) =~= Seq::<u8>::empty());
    assert(slip_body(seq![x]) =~= slip_escape(x));
}

/// The number of bytes `slip_encode` writes for `input`.
pub fn slip_encoded_len(input: &[u8]) -> (r: usize)
    requires
        slip_frame(input@).len() <= usize::MAX,
    ensures
        r == slip_frame(input@).len(),
{
    let mut len: usize = 2;
    let mut i: usize = 0;
    while i < input.len()
        invariant
            i <= input@.len(),
            slip_frame(input@).len() <= usize::MAX,
            len == 2 + slip_body(input@.subrange(0, i as int)).len(),
        decreases input@.len() - i,
    {
        let byte = input[i];
        proof {
            let a = input@.subrange(0, i as int);
            let b = input@.subrange(i as int, i + 1);
            let c = input@.subrange(i + 1, input@.len() as int);
            assert(input@.subrange(0, i + 1) =~= a + b);
            assert(input@ =~= a + b + c);
            lemma_slip_body_append(a, b);
            lemma_slip_body_append(a + b, c);
            lemma_slip_body_single(byte);
            assert(b =~= seq![byte]);
        }
        len = len + if byte == SLIP_END || byte == SLIP_ESC {
            2
        } else {
            1
        };
        i = i + 1;
    }
    assert(input@.subrange(0, i as int) =~= input@);
    len
}

/// Writes the SLIP encoding of `input` at the start of `out` and returns its length;
/// `BufferTooSmall`, with `out` untouched, when it does not fit.
pub fn slip_encode(input: &[u8], out: &mut [u8]) -> (r: Result<usize, SlipError>)
    requires
        slip_frame(input@).len() <= usize::MAX,
    ensures
        r is Ok <==> old(out)@.len() >= slip_frame(input@).len(),
        r matches Ok(n) ==> n == slip_frame(input@).len() && final(out)@ == splice(
            old(out)@,
            0,
            slip_frame(input@),
        ),
        r matches Err(e) ==> e == SlipError::BufferTooSmall && final(out)@ == old(out)@,
{
    let needed = slip_encoded_len(input);
    if out.len() < needed {
        return Err(SlipError::BufferTooSmall);
    }
    let mut pos: usize = 0;
    assert(input@.subrange(0, 0) =~= Seq::<u8>::empty());
    assert(input@.subrange(0, input@.len() as int) =~= input@);
    assert(slip_body(Seq::<u8>::empty()) =~= Seq::<u8>::empty());
    out[pos] = SLIP_END;
    pos = pos + 1;
    let mut i: usize = 0;
    while i < input.len()
        invariant
            i <= input@.len(),
            needed == slip_frame(input@).len(),
            needed <= out@.len(),
            out@.len() == old(out)@.len(),
            pos == 1 + slip_body(input@.subrange(0, i as int)).len(),
            pos + 1 + slip_body(input@.subrange(i as int, input@.len() as int)).len() == needed,
            out@.subrange(0, pos as int) == seq![SLIP_END] + slip_body(
                input@.subrange(0, i as int),
            ),
            forall|k: int| pos <= k < out@.len() ==> out@[k] == old(out)@[k],
        decreases input@.len() - i,
    {
        let byte = input[i];
        let ghost before = out@;
        proof {
            let a = input@.subrange(0, i as int);
            let b = input@.subrange(i as int, i + 1);
            let c = input@.subrange(i + 1, input@.len() as int);
            assert(input@.subrange(0, i + 1) =~= a + b);
            assert(input@ =~= a + b + c);
            lemma_slip_body_append(a, b);
            lemma_slip_body_append(a + b, c);
            lemma_slip_body_single(byte);
            assert(b =~= seq![byte]);
        }
        if byte == SLIP_END {
            out[pos] = SLIP_ESC;
            out[pos + 1] = SLIP_ESC_END;
            pos = pos + 2;
        } else if byte == SLIP_ESC {
            out[pos] = SLIP_ESC;
            out[pos + 1] = SLIP_ESC_ESC;
            pos = pos + 2;
        } else {
            out[pos] = byte;
            pos = pos + 1;
        }
        assert(out@.subrange(0, pos as int) =~= before.subrange(0, pos - slip_escape(byte).len())
            + slip_escape(byte));
        i = i + 1;
    }
    assert(input@.subrange(0, i as int) =~= input@);
    out[pos] = SLIP_END;
    assert(out@ =~= splice(old(out)@, 0, slip_frame(input@)));
    Ok(pos + 1)
}


// ---------------------------------------------------------------------------
// Decoder

/// What a decoder holds: the bytes decoded so far, whether the last byte was an
/// escape, and whether a complete frame waits to be taken.
pub struct SlipState {
    pub data: Seq<u8>,
    pub escaped: bool,
    pub pending: bool,
}

/// The state of a fresh or reset decoder.
pub open spec fn slip_empty() -> SlipState {
    SlipState { data: Seq::empty(), escaped: false, pending: false }
}

/// Appends a decoded byte, or drops the frame with `Overflow` when `cap` bytes are held.
pub open spec fn slip_append(st: SlipState, d: u8, cap: nat) -> (SlipState, Result<
    Option<usize>,
    SlipError,
>) {
    if st.data.len() == cap {
        (slip_empty(), Err(SlipError::Overflow))
    } else {
        (SlipState { data: st.data.push(d), escaped: false, pending: false }, Ok(None))
    }
}

/// One step of the decoder with capacity `cap`: the state after receiving `byte`, and
/// what the step reports (`Some(len)` when a frame of `len` bytes is complete).
pub open spec fn slip_step(st: SlipState, byte: u8, cap: nat) -> (SlipState, Result<
    Option<usize>,
    SlipError,
>) {
    if st.pending {
        (st, Err(SlipError::FramePending))
    } else if byte == SLIP_END {
        if st.data.len() == 0 {
            (SlipState { data: st.data, escaped: false, pending: false }, Ok(None))
        } else {
            (
                SlipState { data: st.data, escaped: false, pending: true },
                Ok(Some(st.data.len() as usize)),
            )
        }
    } else if st.escaped {
        if byte == SLIP_ESC_END {
            slip_append(st, SLIP_END, cap)
        } else if byte == SLIP_ESC_ESC {
            slip_append(st, SLIP_ESC, cap)
        } else {
            (slip_empty(), Err(SlipError::BadEscape))
        }
    } else if byte == SLIP_ESC {
        (SlipState { data: st.data, escaped: true, pending: false }, Ok(None))
    } else {
        slip_append(st, byte, cap)
    }
}

/// The state after receiving all of `bytes`.
pub open spec fn slip_feed(st: SlipState, bytes: Seq<u8>, cap: nat) -> SlipState
    decreases bytes.len(),
{
    if bytes.len() == 0 {
        st
    } else {
        slip_step(slip_feed(st, bytes.drop_last(), cap), bytes.last(), cap).0
    }
}

/// Whether every step while receiving `bytes` reports `Ok(None)`.
pub open spec fn slip_feed_quiet(st: SlipState, bytes: Seq<u8>, cap: nat) -> bool
    decreases bytes.len(),
{
    if bytes.len() == 0 {
        true
    } else {
        &&& slip_feed_quiet(st, bytes.drop_last(), cap)
        &&& slip_step(slip_feed(st, bytes.drop_last(), cap), bytes.last(), cap).1 == Ok::<
            Option<usize>,
            SlipError,
        >(None)
    }
}

/// A decoder with room for `N` bytes of decoded frame.
pub struct SlipDecoder<const N: usize> {
    buf: [u8; N],
    len: usize,
    escaped: bool,
    pending: bool,
}

impl<const N: usize> View for SlipDecoder<N> {
    type V = SlipState;

    closed spec fn view(&self) -> SlipState {
        SlipState {
            data: self.buf@.subrange(0, self.len as int),
            escaped: self.escaped,
            pending: self.pending,
        }
    }
}

impl<const N: usize> SlipDecoder<N> {
    /// The decoder never holds more than `N` bytes.
    #[verifier::type_invariant]
    spec fn inv(&self) -> bool {
        self.len <= N
    }

    pub fn new() -> (r: Self)
        ensures
            r@ == slip_empty(),
    {
        let buf = vstd::array::array_fill_for_copy_types::<u8, N>(0);
        let r = Self { buf, len: 0, escaped: false, pending: false };
        assert(r@.data =~= Seq::<u8>::empty());
        r
    }

    /// Drops whatever was decoded so far.
    pub fn reset(&mut self)
        ensures
            final(self)@ == slip_empty(),
    {
        self.len = 0;
        self.escaped = false;
        self.pending = false;
        assert(self@.data =~= Seq::<u8>::empty());
    }

    /// The bytes decoded so far.
    pub fn frame(&self) -> (r: &[u8])
        ensures
            r@ == self@.data,
    {
        proof {
            use_type_invariant(self);
        }
        vstd::slice::slice_subrange(self.buf.as_slice(), 0, self.len)
    }

    /// Receives one byte; see `slip_step` for what it does and reports.
    pub fn push(&mut self, byte: u8) -> (r: Result<Option<usize>, SlipError>)
        ensures
            (final(self)@, r) == slip_step(old(self)@, byte, N as nat),
    {
        proof {
            use_type_invariant(&*self);
        }
        if self.pending {
            return Err(SlipError::FramePending);
        }
        if byte == SLIP_END {
            self.escaped = false;
            if self.len == 0 {
                return Ok(None);
            }
            self.pending = true;
            return Ok(Some(self.len));
        }
        let decoded = if self.escaped {
            self.escaped = false;
            if byte == SLIP_ESC_END {
                SLIP_END
            } else if byte == SLIP_ESC_ESC {
                SLIP_ESC
            } else {
                self.reset();
                return Err(SlipError::BadEscape);
            }
        } else if byte == SLIP_ESC {
            self.escaped = true;
            return Ok(None);
        } else {
            byte
        };
        if self.len == N {
            self.reset();
            return Err(SlipError::Overflow);
        }
        let ghost before = self@.data;
        self.buf[self.len] = decoded;
        self.len = self.len + 1;
        assert(self@.data =~= before.push(decoded));
        Ok(None)
    }
}

impl<const N: usize> Default for SlipDecoder<N> {
    fn default() -> (r: Self)
        ensures
            r@ == slip_empty(),
    {
        Self::new()
    }
}


// ---------------------------------------------------------------------------
// Round trip

/// Receiving `a` then `b` is receiving `a + b`.
pub proof fn lemma_slip_feed_append(st: SlipState, a: Seq<u8>, b: Seq<u8>, cap: nat)
    ensures
        slip_feed(st, a + b, cap) == slip_feed(slip_feed(st, a, cap), b, cap),
        slip_feed_quiet(st, a + b, cap) == (slip_feed_quiet(st, a, cap) && slip_feed_quiet(
            slip_feed(st, a, cap),
            b,
            cap,
        )),
    decreases b.len(),
{
    if b.len() == 0 {
        assert(a + b =~= a);
    } else {
        lemma_slip_feed_append(st, a, b.drop_last(), cap);
        assert((a + b).drop_last() =~= a + b.drop_last());
        assert((a + b).last() == b.last());
    }
}

/// Receiving the stuffed form of `s`, in a state that holds `d` and expects no
/// escaped byte, appends `s` to `d` and reports nothing, when the room suffices.
pub proof fn lemma_slip_feed_body(d: Seq<u8>, s: Seq<u8>, cap: nat)
    requires
        d.len() + s.len() <= cap,
    ensures
        slip_feed_quiet(SlipState { data: d, escaped: false, pending: false }, slip_body(s), cap),
        slip_feed(SlipState { data: d, escaped: false, pending: false }, slip_body(s), cap)
            == (SlipState { data: d + s, escaped: false, pending: false }),
    decreases s.len(),
{
    let st = SlipState { data: d, escaped: false, pending: false };
    if s.len() == 0 {
        assert(d + s =~= d);
    } else {
        let t = s.drop_last();
        let x = s.last();
        lemma_slip_feed_body(d, t, cap);
        lemma_slip_feed_append(st, slip_body(t), slip_escape(x), cap);
        let mid = SlipState { data: d + t, escaped: false, pending: false };
        assert(d + t + seq![x] =~= d + s);
        reveal_with_fuel(slip_feed, 3);
        reveal_with_fuel(slip_feed_quiet, 3);
        if x == SLIP_END || x == SLIP_ESC {
            let e = slip_escape(x);
            assert(e.drop_last() =~= seq![SLIP_ESC]);
            assert(e.drop_last().drop_last() =~= Seq::<u8>::empty());
        } else {
            assert(slip_escape(x).drop_last() =~= Seq::<u8>::empty());
        }
        assert((d + t).push(x) =~= d + s);
    }
}

/// Feeding the wire bytes of a non-empty frame that fits into a fresh decoder
/// reports nothing until the closing END, which reports the frame's length and
/// leaves exactly the frame, pending, in the decoder.
pub proof fn lemma_slip_round_trip(s: Seq<u8>, cap: nat)
    requires
        0 < s.len() <= cap,
    ensures
        slip_feed_quiet(slip_empty(), slip_frame(s).drop_last(), cap),
        slip_step(slip_feed(slip_empty(), slip_frame(s).drop_last(), cap), SLIP_END, cap).1
            == Ok::<Option<usize>, SlipError>(Some(s.len() as usize)),
        slip_feed(slip_empty(), slip_frame(s), cap) == (SlipState {
            data: s,
            escaped: false,
            pending: true,
        }),
{
    let f = slip_frame(s);
    let open = seq![SLIP_END];
    assert(f.drop_last() =~= open + slip_body(s));
    assert(f.last() == SLIP_END);
    reveal_with_fuel(slip_feed, 2);
    reveal_with_fuel(slip_feed_quiet, 2);
    assert(open.drop_last() =~= Seq::<u8>::empty());
    assert(slip_feed(slip_empty(), open, cap) == slip_empty());
    lemma_slip_feed_body(Seq::empty(), s, cap);
    assert(Seq::<u8>::empty() + s =~= s);
    lemma_slip_feed_append(slip_empty(), open, slip_body(s), cap);
}

/// A decoder never holds more than its capacity, and while a frame is pending it
/// refuses every byte and changes nothing.
pub proof fn lemma_slip_step_bounded(st: SlipState, byte: u8, cap: nat)
    requires
        st.data.len() <= cap,
    ensures
        slip_step(st, byte, cap).0.data.len() <= cap,
        st.pending ==> slip_step(st, byte, cap) == (st, Err::<Option<usize>, SlipError>(
            SlipError::FramePending,
        )),
{
}

} // verus!
