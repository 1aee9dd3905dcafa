//! The reflected CRC-32 (polynomial 0xedb88320) that host and stage use to
//! compare flash contents with the image.

use vstd::prelude::*;

verus! {

/// One bit step of the reflected CRC-32 shift register.
pub open spec fn crc_bit(state: u32) -> u32 {
    if state & 1 != 0 {
        (state >> 1) ^ 0xedb8_8320u32
    } else {
        state >> 1
    }
}

/// `k` bit steps.
pub open spec fn crc_bits(state: u32, k: nat) -> u32
    decreases k,
{
    if k == 0 {
        state
    } else {
        crc_bit(crc_bits(state, (k - 1) as nat))
    }
}

/// Absorbs one byte: xor it in, then eight bit steps.
pub open spec fn crc_byte(state: u32, byte: u8) -> u32 {
    crc_bits(state ^ (byte as u32), 8)
}

/// Absorbs `bytes` in order.
pub open spec fn crc_update(state: u32, bytes: Seq<u8>) -> u32
    decreases bytes.len(),
{
    if bytes.len() == 0 {
        state
    } else {
        crc_byte(crc_update(state, bytes.drop_last()), bytes.last())
    }
}

/// The CRC-32 of `bytes`.
pub open spec fn spec_crc32(bytes: Seq<u8>) -> u32 {
    !crc_update(0xffff_ffffu32, bytes)
}

pub fn crc32_init() -> (r: u32)
    ensures
        r == 0xffff_ffffu32,
{
    0xffff_ffff
}

/// Absorbs `bytes` into a running CRC state.
pub fn crc32_update_state(state: u32, bytes: &[u8]) -> (r: u32)
    ensures
        r == crc_update(state, bytes@),
{
    let mut st = state;
    let mut i: usize = 0;
    while i < bytes.len()
        invariant
            i <= bytes@.len(),
            st == crc_update(state, bytes@.subrange(0, i as int)),
        decreases bytes@.len() - i,
    {
        let ghost before = st;
        st = st ^ (bytes[i] as u32);
        let ghost mixed = st;
        let mut k: u32 = 0;
        while k < 8
            invariant
                k <= 8,
                st == crc_bits(mixed, k as nat),
            decreases 8 - k,
        {
            if st & 1 != 0 {
                st = (st >> 1) ^ 0xedb8_8320;
            } else {
                st = st >> 1;
            }
            k = k + 1;
        }
        assert(bytes@.subrange(0, i + 1).drop_last() =~= bytes@.subrange(0, i as int));
        i = i + 1;
    }
    assert(bytes@.subrange(0, i as int) =~= bytes@);
    st
}

pub fn crc32_finish(state: u32) -> (r: u32)
    ensures
        r == !state,
{
    !state
}

pub fn crc32(bytes: &[u8]) -> (r: u32)
    ensures
        r == spec_crc32(bytes@),
{
    crc32_finish(crc32_update_state(crc32_init(), bytes))
}

/// Absorbing `a` and then `b` is absorbing `a + b`: a CRC can be computed chunk by chunk.
pub proof fn lemma_crc_update_append(state: u32, a: Seq<u8>, b: Seq<u8>)
    ensures
        crc_update(state, a + b) == crc_update(crc_update(state, a), b),
    decreases b.len(),
{
    if b.len() == 0 {
        assert(a + b =~= a);
    } else {
        lemma_crc_update_append(state, a, b.drop_last());
        assert((a + b).drop_last() =~= a + b.drop_last());
    }
}

/// The size of the piece that starts at `current` when `current..end` is taken in
/// pieces of `chunk` bytes (at least one).
pub open spec fn piece_len(chunk: nat, current: int, end: int) -> int {
    let c: int = if chunk < 1 { 1 } else { chunk as int };
    if end - current < c {
        end - current
    } else {
        c
    }
}

/// Absorbs `data[current..end]` in pieces of `chunk` bytes, in order.
pub open spec fn crc_chunks(data: Seq<u8>, chunk: nat, current: int, end: int, state: u32) -> u32
    decreases end - current,
{
    if current < end {
        let n = piece_len(chunk, current, end);
        crc_chunks(data, chunk, current + n, end, crc_update(state, data.subrange(current, current + n)))
    } else {
        state
    }
}

/// Absorbing a range piece by piece is absorbing the whole range, whatever the piece size.
pub proof fn lemma_crc_chunks(data: Seq<u8>, chunk: nat, current: int, end: int, state: u32)
    requires
        0 <= current <= end <= data.len(),
    ensures
        crc_chunks(data, chunk, current, end, state) == crc_update(state, data.subrange(current, end)),
    decreases end - current,
{
    if current < end {
        let n = piece_len(chunk, current, end);
        let a = data.subrange(current, current + n);
        let b = data.subrange(current + n, end);
        lemma_crc_chunks(data, chunk, current + n, end, crc_update(state, a));
        lemma_crc_update_append(state, a, b);
        assert(a + b =~= data.subrange(current, end));
    } else {
        assert(data.subrange(current, end) =~= Seq::<u8>::empty());
    }
}

} // verus!
