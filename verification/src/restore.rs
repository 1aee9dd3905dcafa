//! The order in which `restore` works through its ranges: erase every range first,
//! then write each range in chunks, then verify each range's CRC32.

use vstd::prelude::*;
use crate::crc::{crc_chunks, crc_update, lemma_crc_chunks, piece_len, spec_crc32};
use crate::protocol::MAX_DATA_LEN;
use crate::ranges::RestoreRange;

verus! {

/// One request of a restore, for range number `range`.
#[derive(Clone, Copy, Debug, PartialEq, Eq, Structural)]
pub enum RestoreStep {
    /// Erase `len` bytes at `flash_offset` (after `check_erase_range` accepts the range).
    Erase { range: usize, flash_offset: u32, len: u32 },
    /// Write the `len` image bytes at `image_offset` to `flash_offset`, absorbing them
    /// into the range's CRC32.
    Write { range: usize, flash_offset: u32, image_offset: u32, len: u32 },
    /// Ask the device for the CRC32 of `len` bytes at `flash_offset` and compare it
    /// with the range's CRC32 (`check_range_crc`), stopping at the first mismatch.
    Verify { range: usize, flash_offset: u32, len: u32 },
}

/// The erase requests: every range in order, when erasing.
pub open spec fn erases(ranges: Seq<RestoreRange>, erase: bool) -> Seq<RestoreStep> {
    if erase {
        Seq::new(
            ranges.len(),
            |i: int| RestoreStep::Erase {
                range: i as usize,
                flash_offset: ranges[i].flash_offset,
                len: ranges[i].erase_len,
            },
        )
    } else {
        Seq::empty()
    }
}

/// The write requests of range `i` from `done` bytes on: chunks of `chunk` bytes (the
/// last one shorter) covering `image_offset + done .. image_offset + write_len`.
pub open spec fn range_writes(r: RestoreRange, i: int, chunk: nat, done: int) -> Seq<RestoreStep>
    decreases r.write_len + 1 - done,
{
    if 0 <= done < r.write_len {
        let n = piece_len(chunk, done, r.write_len as int);
        seq![
            RestoreStep::Write {
                range: i as usize,
                flash_offset: (r.flash_offset + done) as u32,
                image_offset: (r.image_offset + done) as u32,
                len: n as u32,
            },
        ] + range_writes(r, i, chunk, done + n)
    } else {
        Seq::empty()
    }
}

/// The write requests of the first `k` ranges, range by range.
pub open spec fn writes_upto(ranges: Seq<RestoreRange>, chunk: nat, k: int) -> Seq<RestoreStep>
    decreases k,
{
    if k <= 0 {
        Seq::empty()
    } else {
        writes_upto(ranges, chunk, k - 1) + range_writes(ranges[k - 1], k - 1, chunk, 0)
    }
}

/// The write requests of all ranges.
pub open spec fn writes(ranges: Seq<RestoreRange>, chunk: nat) -> Seq<RestoreStep> {
    writes_upto(ranges, chunk, ranges.len() as int)
}

/// The verify requests: every range in order, when verifying.
pub open spec fn verifies(ranges: Seq<RestoreRange>, verify: bool) -> Seq<RestoreStep> {
    if verify {
        Seq::new(
            ranges.len(),
            |i: int| RestoreStep::Verify {
                range: i as usize,
                flash_offset: ranges[i].flash_offset,
                len: ranges[i].write_len,
            },
        )
    } else {
        Seq::empty()
    }
}

/// The whole restore, in order.
pub open spec fn restore_steps(ranges: Seq<RestoreRange>, erase: bool, verify: bool, chunk: nat) -> Seq<
    RestoreStep,
> {
    erases(ranges, erase) + writes(ranges, chunk) + verifies(ranges, verify)
}

/// Ranges whose ends fit in 32 bits, in the image and in the flash.
pub open spec fn ranges_fit(ranges: Seq<RestoreRange>) -> bool {
    forall|i: int| 0 <= i < ranges.len() ==> range_fits(#[trigger] ranges[i])
}

/// A range whose ends fit in 32 bits, in the image and in the flash.
pub open spec fn range_fits(r: RestoreRange) -> bool {
    r.flash_offset + r.write_len <= u32::MAX && r.image_offset + r.write_len <= u32::MAX
}

/// The requests of a restore of `ranges`, in the order they are made: all erases (when
/// `erase`), then the writes of each range in chunks of `chunk` bytes, then all
/// verifications (when `verify`).
pub fn restore_schedule(ranges: &Vec<RestoreRange>, erase: bool, verify: bool, chunk: usize) -> (r: Vec<
    RestoreStep,
>)
    requires
        1 <= chunk <= MAX_DATA_LEN,
        ranges_fit(ranges@),
    ensures
        r@ == restore_steps(ranges@, erase, verify, chunk as nat),
{
    let mut out: Vec<RestoreStep> = Vec::new();
    let n = ranges.len();
    if erase {
        let mut i: usize = 0;
        while i < n
            invariant
                n == ranges@.len(),
                i <= n,
                erase,
                out@ == erases(ranges@, erase).take(i as int),
            decreases n - i,
        {
            out.push(RestoreStep::Erase { range: i, flash_offset: ranges[i].flash_offset, len: ranges[i].erase_len });
            assert(out@ =~= erases(ranges@, erase).take(i + 1));
            i = i + 1;
        }
        assert(out@ =~= erases(ranges@, erase));
    } else {
        assert(out@ =~= erases(ranges@, erase));
    }
    let ghost head = out@;
    let mut i: usize = 0;
    while i < n
        invariant
            n == ranges@.len(),
            i <= n,
            1 <= chunk <= MAX_DATA_LEN,
            ranges_fit(ranges@),
            head == erases(ranges@, erase),
            out@ == head + writes_upto(ranges@, chunk as nat, i as int),
        decreases n - i,
    {
        let r = ranges[i];
        let ghost before = out@;
        let mut done: u32 = 0;
        assert(r.flash_offset + r.write_len <= u32::MAX && r.image_offset + r.write_len <= u32::MAX);
        while done < r.write_len
            invariant
                r == ranges@[i as int],
                r.flash_offset + r.write_len <= u32::MAX,
                r.image_offset + r.write_len <= u32::MAX,
                1 <= chunk <= MAX_DATA_LEN,
                done <= r.write_len,
                range_writes(r, i as int, chunk as nat, 0) == out@.skip(before.len() as int) + range_writes(
                    r,
                    i as int,
                    chunk as nat,
                    done as int,
                ),
                out@.len() >= before.len(),
                out@.take(before.len() as int) == before,
            decreases r.write_len - done,
        {
            let rest = r.write_len - done;
            let len: u32 = if (rest as usize) < chunk {
                rest
            } else {
                chunk as u32
            };
            let step = RestoreStep::Write {
                range: i,
                flash_offset: r.flash_offset + done,
                image_offset: r.image_offset + done,
                len,
            };
            let ghost old_out = out@;
            assert(len as int == piece_len(chunk as nat, done as int, r.write_len as int));
            assert(range_writes(r, i as int, chunk as nat, done as int) == seq![step] + range_writes(
                r,
                i as int,
                chunk as nat,
                done + len,
            ));
            out.push(step);
            assert(out@.skip(before.len() as int) =~= old_out.skip(before.len() as int).push(step));
            assert(out@.take(before.len() as int) =~= old_out.take(before.len() as int));
            assert(old_out.skip(before.len() as int).push(step) + range_writes(r, i as int, chunk as nat, done + len)
                =~= old_out.skip(before.len() as int) + (seq![step] + range_writes(r, i as int, chunk as nat, done + len)));
            done = done + len;
        }
        assert(range_writes(r, i as int, chunk as nat, done as int) =~= Seq::<RestoreStep>::empty());
        assert(out@ =~= before + range_writes(r, i as int, chunk as nat, 0));
        assert(writes_upto(ranges@, chunk as nat, i + 1) == writes_upto(ranges@, chunk as nat, i as int)
            + range_writes(ranges@[i as int], i as int, chunk as nat, 0));
        assert(out@ =~= head + writes_upto(ranges@, chunk as nat, i + 1));
        i = i + 1;
    }
    let ghost mid = out@;
    assert(mid == erases(ranges@, erase) + writes(ranges@, chunk as nat));
    if verify {
        let mut k: usize = 0;
        while k < n
            invariant
                n == ranges@.len(),
                k <= n,
                verify,
                out@ == mid + verifies(ranges@, verify).take(k as int),
            decreases n - k,
        {
            out.push(RestoreStep::Verify { range: k, flash_offset: ranges[k].flash_offset, len: ranges[k].write_len });
            assert(out@ =~= mid + verifies(ranges@, verify).take(k + 1));
            k = k + 1;
        }
        assert(verifies(ranges@, verify).take(n as int) =~= verifies(ranges@, verify));
    } else {
        assert(out@ =~= mid + verifies(ranges@, verify));
    }
    out
}

/// The image bytes that the write requests in `steps` carry, absorbed in order.
pub open spec fn crc_of_writes(image: Seq<u8>, steps: Seq<RestoreStep>, state: u32) -> u32
    decreases steps.len(),
{
    if steps.len() == 0 {
        state
    } else {
        let s = match steps[0] {
            RestoreStep::Write { image_offset, len, .. } => crc_update(
                state,
                image.subrange(image_offset as int, image_offset + len),
            ),
            _ => state,
        };
        crc_of_writes(image, steps.drop_first(), s)
    }
}

proof fn lemma_range_writes_crc(image: Seq<u8>, r: RestoreRange, i: int, chunk: nat, done: int, state: u32)
    requires
        0 <= done <= r.write_len,
        r.image_offset + r.write_len <= u32::MAX,
        r.flash_offset + r.write_len <= u32::MAX,
    ensures
        crc_of_writes(image, range_writes(r, i, chunk, done), state) == crc_chunks(
            image,
            chunk,
            r.image_offset + done,
            r.image_offset + r.write_len,
            state,
        ),
    decreases r.write_len - done,
{
    let w = range_writes(r, i, chunk, done);
    if done < r.write_len {
        let n = piece_len(chunk, done, r.write_len as int);
        assert(piece_len(chunk, r.image_offset + done, r.image_offset + r.write_len) == n);
        assert(w.drop_first() =~= range_writes(r, i, chunk, done + n));
        lemma_range_writes_crc(
            image,
            r,
            i,
            chunk,
            done + n,
            crc_update(state, image.subrange(r.image_offset + done, r.image_offset + done + n)),
        );
    } else {
        assert(w =~= Seq::<RestoreStep>::empty());
    }
}

/// The CRC32 that a restore expects of range `i` (its write requests' image bytes,
/// absorbed chunk by chunk) is the CRC32 of the range's bytes of the image.
pub proof fn lemma_restore_write_crc(image: Seq<u8>, ranges: Seq<RestoreRange>, i: int, chunk: nat)
    requires
        0 <= i < ranges.len(),
        ranges_fit(ranges),
        ranges[i].image_offset + ranges[i].write_len <= image.len(),
    ensures
        !crc_of_writes(image, range_writes(ranges[i], i, chunk, 0), 0xffff_ffffu32) == spec_crc32(
            image.subrange(ranges[i].image_offset as int, ranges[i].image_offset + ranges[i].write_len),
        ),
{
    let r = ranges[i];
    assert(r.flash_offset + r.write_len <= u32::MAX && r.image_offset + r.write_len <= u32::MAX);
    lemma_range_writes_crc(image, r, i, chunk, 0, 0xffff_ffffu32);
    lemma_crc_chunks(image, chunk, r.image_offset as int, r.image_offset + r.write_len, 0xffff_ffffu32);
}

/// The write requests of range `i` cover its bytes exactly, in order: each starts where
/// the previous one ended, at the same distance into the image and into the flash,
/// and none is empty or longer than `chunk`.
pub proof fn lemma_range_writes_cover(r: RestoreRange, i: int, chunk: nat, done: int)
    requires
        0 <= done <= r.write_len,
        chunk >= 1,
        0 <= i <= usize::MAX,
        r.image_offset + r.write_len <= u32::MAX,
        r.flash_offset + r.write_len <= u32::MAX,
    ensures
        ({
            let w = range_writes(r, i, chunk, done);
            forall|k: int|
                0 <= k < w.len() ==> ((#[trigger] w[k]) matches RestoreStep::Write {
                    range,
                    flash_offset,
                    image_offset,
                    len,
                } && range == i && 0 < len <= chunk && image_offset >= r.image_offset + done
                    && flash_offset - r.flash_offset == image_offset - r.image_offset
                    && image_offset + len <= r.image_offset + r.write_len)
        }),
    decreases r.write_len - done,
{
    if done < r.write_len {
        let n = piece_len(chunk, done, r.write_len as int);
        lemma_range_writes_cover(r, i, chunk, done + n);
    }
}

// ---------------------------------------------------------------------------
// The CRC32 that each range is expected to have

/// The image bytes that a write request carries; none for the other requests.
pub open spec fn step_data(image: Seq<u8>, step: RestoreStep) -> Seq<u8> {
    match step {
        RestoreStep::Write { image_offset, len, .. } => image.subrange(image_offset as int, image_offset + len),
        _ => Seq::empty(),
    }
}

/// The running CRC32 states of the ranges after request `step` carried `data`: a write
/// absorbs its data into its range's state; the other requests change nothing.
pub open spec fn spec_absorb(states: Seq<u32>, step: RestoreStep, data: Seq<u8>) -> Seq<u32> {
    match step {
        RestoreStep::Write { range, .. } => if range < states.len() {
            states.update(range as int, crc_update(states[range as int], data))
        } else {
            states
        },
        _ => states,
    }
}

/// The running CRC32 states after the requests `steps`, each write carrying its bytes
/// of `image`.
pub open spec fn fold_crcs(image: Seq<u8>, steps: Seq<RestoreStep>, states: Seq<u32>) -> Seq<u32>
    decreases steps.len(),
{
    if steps.len() == 0 {
        states
    } else {
        fold_crcs(image, steps.drop_first(), spec_absorb(states, steps[0], step_data(image, steps[0])))
    }
}

/// Absorbs the data of a write request into its range's running CRC32 state.
pub fn absorb_write(states: &mut Vec<u32>, step: &RestoreStep, data: &[u8])
    ensures
        final(states)@ == spec_absorb(old(states)@, *step, data@),
{
    if let RestoreStep::Write { range, .. } = *step {
        if range < states.len() {
            let s = crate::crc::crc32_update_state(states[range], data);
            states.set(range, s);
        }
    }
}

proof fn lemma_fold_append(image: Seq<u8>, a: Seq<RestoreStep>, b: Seq<RestoreStep>, states: Seq<u32>)
    ensures
        fold_crcs(image, a + b, states) == fold_crcs(image, b, fold_crcs(image, a, states)),
    decreases a.len(),
{
    if a.len() == 0 {
        assert(a + b =~= b);
    } else {
        assert((a + b).drop_first() =~= a.drop_first() + b);
        assert((a + b)[0] == a[0]);
        lemma_fold_append(image, a.drop_first(), b, spec_absorb(states, a[0], step_data(image, a[0])));
    }
}

proof fn lemma_fold_no_writes(image: Seq<u8>, steps: Seq<RestoreStep>, states: Seq<u32>)
    requires
        forall|k: int| 0 <= k < steps.len() ==> !(#[trigger] steps[k] is Write),
    ensures
        fold_crcs(image, steps, states) == states,
    decreases steps.len(),
{
    if steps.len() > 0 {
        assert(!(steps[0] is Write));
        assert forall|k: int| 0 <= k < steps.drop_first().len() implies !(#[trigger] steps.drop_first()[k] is Write) by {
            assert(steps.drop_first()[k] == steps[k + 1]);
        }
        lemma_fold_no_writes(image, steps.drop_first(), states);
    }
}

proof fn lemma_fold_range_writes(image: Seq<u8>, r: RestoreRange, i: int, chunk: nat, done: int, states: Seq<u32>)
    requires
        0 <= i < states.len(),
        i <= usize::MAX,
        0 <= done <= r.write_len,
    ensures
        fold_crcs(image, range_writes(r, i, chunk, done), states) == states.update(
            i,
            crc_of_writes(image, range_writes(r, i, chunk, done), states[i]),
        ),
    decreases r.write_len - done,
{
    let w = range_writes(r, i, chunk, done);
    if done < r.write_len {
        let n = piece_len(chunk, done, r.write_len as int);
        assert(w.drop_first() =~= range_writes(r, i, chunk, done + n));
        let s1 = spec_absorb(states, w[0], step_data(image, w[0]));
        assert(s1 == states.update(i, crc_update(states[i], step_data(image, w[0]))));
        lemma_fold_range_writes(image, r, i, chunk, done + n, s1);
        assert(s1.update(i, crc_of_writes(image, w.drop_first(), s1[i])) =~= states.update(
            i,
            crc_of_writes(image, w, states[i]),
        ));
    } else {
        assert(w =~= Seq::<RestoreStep>::empty());
        assert(states.update(i, states[i]) =~= states);
    }
}

proof fn lemma_fold_writes_upto(image: Seq<u8>, ranges: Seq<RestoreRange>, chunk: nat, k: int, init: u32)
    requires
        0 <= k <= ranges.len(),
        ranges.len() <= usize::MAX,
    ensures
        fold_crcs(image, writes_upto(ranges, chunk, k), Seq::new(ranges.len(), |j: int| init)) == Seq::new(
            ranges.len(),
            |j: int|
                if j < k {
                    crc_of_writes(image, range_writes(ranges[j], j, chunk, 0), init)
                } else {
                    init
                },
        ),
    decreases k,
{
    let n = ranges.len();
    let start = Seq::new(n, |j: int| init);
    if k == 0 {
        assert(start =~= Seq::new(
            n,
            |j: int|
                if j < k {
                    crc_of_writes(image, range_writes(ranges[j], j, chunk, 0), init)
                } else {
                    init
                },
        ));
    } else {
        lemma_fold_writes_upto(image, ranges, chunk, k - 1, init);
        let prev = Seq::new(
            n,
            |j: int|
                if j < k - 1 {
                    crc_of_writes(image, range_writes(ranges[j], j, chunk, 0), init)
                } else {
                    init
                },
        );
        lemma_fold_append(image, writes_upto(ranges, chunk, k - 1), range_writes(ranges[k - 1], k - 1, chunk, 0), start);
        lemma_fold_range_writes(image, ranges[k - 1], k - 1, chunk, 0, prev);
        assert(prev.update(
            k - 1,
            crc_of_writes(image, range_writes(ranges[k - 1], k - 1, chunk, 0), prev[k - 1]),
        ) =~= Seq::new(
            n,
            |j: int|
                if j < k {
                    crc_of_writes(image, range_writes(ranges[j], j, chunk, 0), init)
                } else {
                    init
                },
        ));
    }
}

/// The CRC32 that a restore expects of each range: folding `absorb_write` over its whole
/// schedule, every write carrying its bytes of the image and every range starting from
/// the initial CRC state, leaves for each range the CRC32 state of exactly its bytes of
/// the image.
pub proof fn lemma_restore_expected_crcs(
    image: Seq<u8>,
    ranges: Seq<RestoreRange>,
    erase: bool,
    verify: bool,
    chunk: nat,
)
    requires
        ranges.len() <= usize::MAX,
        ranges_fit(ranges),
        forall|i: int| 0 <= i < ranges.len() ==> #[trigger] ranges[i].image_offset + ranges[i].write_len <= image.len(),
    ensures
        ({
            let f = fold_crcs(
                image,
                restore_steps(ranges, erase, verify, chunk),
                Seq::new(ranges.len(), |j: int| 0xffff_ffffu32),
            );
            &&& f.len() == ranges.len()
            &&& forall|i: int|
                0 <= i < ranges.len() ==> !(#[trigger] f[i]) == spec_crc32(
                    image.subrange(ranges[i].image_offset as int, ranges[i].image_offset + ranges[i].write_len),
                )
        }),
{
    let n = ranges.len();
    let start = Seq::new(n, |j: int| 0xffff_ffffu32);
    let e = erases(ranges, erase);
    let w = writes(ranges, chunk);
    let v = verifies(ranges, verify);
    lemma_fold_append(image, e + w, v, start);
    lemma_fold_append(image, e, w, start);
    lemma_fold_no_writes(image, e, start);
    lemma_fold_writes_upto(image, ranges, chunk, n as int, 0xffff_ffffu32);
    let mid = fold_crcs(image, w, start);
    lemma_fold_no_writes(image, v, mid);
    assert forall|i: int| 0 <= i < n implies !(#[trigger] fold_crcs(image, restore_steps(ranges, erase, verify, chunk), start)[i])
        == spec_crc32(image.subrange(ranges[i].image_offset as int, ranges[i].image_offset + ranges[i].write_len)) by {
        lemma_restore_write_crc(image, ranges, i, chunk);
    }
}

} // verus!
