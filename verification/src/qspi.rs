//! The parts of the QSPI flash driver that compute rather than touch registers:
//! lookup-table sequences, FIFO word packing, page-aligned program chunks, and the
//! status bits that are polled.

use vstd::prelude::*;

verus! {

pub const SEQID: u32 = 15;
pub const LUT_STOP: u32 = 0;
pub const LUT_CMD: u32 = 1;
pub const LUT_DUMMY: u32 = 3;
pub const LUT_MODE: u32 = 4;
pub const LUT_READ: u32 = 7;
pub const LUT_WRITE: u32 = 8;
pub const FLASH_PAGE_SIZE: u32 = 256;
pub const QSPI_AHB_BUFFER_SIZE: usize = 1024;
pub const QSPI_SR_IP_ACC: u32 = 2;
pub const QSPI_SR_AHB_ACC: u32 = 4;
pub const QSPI_MCR_SWRSTHD: u32 = 2;
pub const QSPI_MCR_SWRSTSD: u32 = 1;

/// The 16-bit lookup-table entry for an instruction with `pads` data lines and an
/// operand. (`pads` is 0 for the stop entry, where `pads - 1` wraps around.)
pub open spec fn lut_entry(ins: u32, pads: u32, opr: u32) -> u32 {
    let p: u32 = if pads == 0 {
        u32::MAX
    } else {
        (pads - 1) as u32
    };
    ((ins << 10u32) | (p << 8u32) | opr) & 0xffff
}

/// Ors an entry into slot `idx` of a four-word lookup-table sequence: two entries per
/// word, the even one in the low half.
pub fn lut_def(lut: &mut [u32; 4], idx: usize, ins: u32, pad: u32, opr: u32)
    requires
        idx < 8,
    ensures
        final(lut)@ == old(lut)@.update(
            (idx / 2) as int,
            old(lut)@[(idx / 2) as int] | (lut_entry(ins, pad, opr) << (((idx % 2) * 16) as u32)),
        ),
{
    let p = pad.wrapping_sub(1);
    let val = ((ins << 10u32) | (p << 8u32) | opr) & 0xffff;
    let shift = ((idx % 2) * 16) as u32;
    lut[idx / 2] = lut[idx / 2] | (val << shift);
}

/// The lookup-table entries of an operation: the command, one entry per address
/// byte (most significant first), dummy cycles, the data phase, and stop.
pub open spec fn lut_entries(opcode: u8, addr_nbytes: u8, addr: u32, dummy_nbytes: u8, read: bool, write: bool) -> Seq<u32> {
    seq![lut_entry(LUT_CMD, 1, opcode as u32)] + Seq::new(
        addr_nbytes as nat,
        |n: int| lut_entry(LUT_MODE, 1, (addr >> ((8 * (addr_nbytes - n - 1)) as u32)) & 0xff),
    ) + (if dummy_nbytes != 0 {
        seq![lut_entry(LUT_DUMMY, 1, (dummy_nbytes * 8) as u32)]
    } else {
        Seq::empty()
    }) + (if read {
        seq![lut_entry(LUT_READ, 1, 0)]
    } else if write {
        seq![lut_entry(LUT_WRITE, 1, 0)]
    } else {
        Seq::empty()
    }) + seq![lut_entry(LUT_STOP, 0, 0)]
}

/// The four words that hold lookup-table entries `e`, two per word.
pub open spec fn lut_packed(e: Seq<u32>, k: int) -> u32 {
    (if 2 * k < e.len() { e[2 * k] } else { 0 }) | (if 2 * k + 1 < e.len() {
        e[2 * k + 1] << 16u32
    } else {
        0
    })
}

proof fn lemma_or_zero(a: u32)
    ensures
        (a | 0u32) == a,
        (a << 0u32) == a,
        (0u32 | a) == a,
{
    assert((a | 0u32) == a) by (bit_vector);
    assert((a << 0u32) == a) by (bit_vector);
    assert((0u32 | a) == a) by (bit_vector);
}

/// Adding an entry to a packed sequence whose words match `e` keeps them matching.
fn lut_push(lut: &mut [u32; 4], idx: usize, ins: u32, pad: u32, opr: u32, Ghost(e): Ghost<Seq<u32>>)
    requires
        idx < 8,
        e.len() == idx,
        forall|k: int| 0 <= k < 4 ==> old(lut)@[k] == #[trigger] lut_packed(e, k),
    ensures
        forall|k: int| 0 <= k < 4 ==> final(lut)@[k] == #[trigger] lut_packed(e.push(lut_entry(ins, pad, opr)), k),
{
    let ghost x = lut_entry(ins, pad, opr);
    let ghost before = lut@;
    lut_def(lut, idx, ins, pad, opr);
    proof {
        let f = e.push(x);
        assert forall|k: int| 0 <= k < 4 implies lut@[k] == #[trigger] lut_packed(f, k) by {
            assert(before[k] == lut_packed(e, k));
            if k == idx / 2 {
                lemma_or_zero(x);
                if idx % 2 == 0 {
                    lemma_or_zero(before[k]);
                    assert(before[k] == 0) by {
                        lemma_or_zero(0);
                    }
                } else {
                    lemma_or_zero(e[2 * k]);
                    lemma_or_zero(x << 16u32);
                }
            }
        }
    }
}

/// The lookup-table sequence of an operation, as the four words written to the table.
pub fn lut_words(opcode: u8, addr_nbytes: u8, addr: u32, dummy_nbytes: u8, read: bool, write: bool) -> (r: [u32; 4])
    requires
        addr_nbytes <= 4,
    ensures
        ({
            let e = lut_entries(opcode, addr_nbytes, addr, dummy_nbytes, read, write);
            &&& e.len() <= 8
            &&& forall|k: int| 0 <= k < 4 ==> r@[k] == #[trigger] lut_packed(e, k)
        }),
{
    let mut lut = [0u32; 4];
    let ghost mut e: Seq<u32> = Seq::empty();
    proof {
        assert forall|k: int| 0 <= k < 4 implies lut@[k] == #[trigger] lut_packed(e, k) by {
            lemma_or_zero(0);
        }
    }
    let mut idx: usize = 0;
    lut_push(&mut lut, idx, LUT_CMD, 1, opcode as u32, Ghost(e));
    proof {
        e = e.push(lut_entry(LUT_CMD, 1, opcode as u32));
    }
    idx = idx + 1;
    let ghost addr_entries = Seq::new(
        addr_nbytes as nat,
        |n: int| lut_entry(LUT_MODE, 1, (addr >> ((8 * (addr_nbytes - n - 1)) as u32)) & 0xff),
    );
    let mut n: u8 = 0;
    while n < addr_nbytes
        invariant
            n <= addr_nbytes <= 4,
            idx == 1 + n,
            e.len() == idx,
            e == seq![lut_entry(LUT_CMD, 1, opcode as u32)] + addr_entries.take(n as int),
            addr_entries == Seq::new(
                addr_nbytes as nat,
                |n: int| lut_entry(LUT_MODE, 1, (addr >> ((8 * (addr_nbytes - n - 1)) as u32)) & 0xff),
            ),
            forall|k: int| 0 <= k < 4 ==> lut@[k] == #[trigger] lut_packed(e, k),
        decreases addr_nbytes - n,
    {
        let shift = 8 * (addr_nbytes - n - 1);
        lut_push(&mut lut, idx, LUT_MODE, 1, (addr >> (shift as u32)) & 0xff, Ghost(e));
        proof {
            e = e.push(lut_entry(LUT_MODE, 1, (addr >> (shift as u32)) & 0xff));
            assert(addr_entries.take(n + 1) =~= addr_entries.take(n as int).push(addr_entries[n as int]));
            assert(e =~= seq![lut_entry(LUT_CMD, 1, opcode as u32)] + addr_entries.take(n + 1));
        }
        idx = idx + 1;
        n = n + 1;
    }
    assert(addr_entries.take(n as int) =~= addr_entries);
    let ghost after_addr = e;
    if dummy_nbytes != 0 {
        lut_push(&mut lut, idx, LUT_DUMMY, 1, dummy_nbytes as u32 * 8, Ghost(e));
        proof {
            e = e.push(lut_entry(LUT_DUMMY, 1, (dummy_nbytes * 8) as u32));
        }
        idx = idx + 1;
    }
    let ghost after_dummy = e;
    if read {
        lut_push(&mut lut, idx, LUT_READ, 1, 0, Ghost(e));
        proof {
            e = e.push(lut_entry(LUT_READ, 1, 0));
        }
        idx = idx + 1;
    } else if write {
        lut_push(&mut lut, idx, LUT_WRITE, 1, 0, Ghost(e));
        proof {
            e = e.push(lut_entry(LUT_WRITE, 1, 0));
        }
        idx = idx + 1;
    }
    lut_push(&mut lut, idx, LUT_STOP, 0, 0, Ghost(e));
    proof {
        e = e.push(lut_entry(LUT_STOP, 0, 0));
        assert(e =~= lut_entries(opcode, addr_nbytes, addr, dummy_nbytes, read, write));
    }
    lut
}

/// The IP command register value that starts sequence `SEQID` on `data_len` bytes.
pub fn ipcr_value(data_len: u32) -> (r: u32)
    ensures
        r == data_len | (SEQID << 24u32),
{
    data_len | (SEQID << 24u32)
}

// ---------------------------------------------------------------------------
// FIFO words

/// The first `m` bytes from `i` on, packed into a word, little-endian.
pub open spec fn pack_word(data: Seq<u8>, i: int, m: int) -> u32
    decreases m,
{
    if m <= 0 {
        0
    } else {
        pack_word(data, i, m - 1) | ((data[i + m - 1] as u32) << ((8 * (m - 1)) as u32))
    }
}

/// How many bytes of `len` go into the word that starts at `i`.
pub open spec fn word_fill(len: int, i: int) -> int {
    if len - i < 4 {
        len - i
    } else {
        4
    }
}

/// The transmit FIFO words for `data`: four bytes per word, little-endian; a short
/// last word is padded with zeros.
pub fn tx_words(data: &[u8]) -> (r: Vec<u32>)
    requires
        data@.len() + 4 <= usize::MAX,
    ensures
        r@.len() == (data@.len() + 3) / 4,
        forall|k: int| 0 <= k < r@.len() ==> r@[k] == #[trigger] pack_word(data@, 4 * k, word_fill(data@.len() as int, 4 * k)),
{
    let mut words: Vec<u32> = Vec::new();
    let mut i: usize = 0;
    while i < data.len()
        invariant
            i % 4 == 0,
            i <= data@.len() + 3,
            data@.len() + 4 <= usize::MAX,
            words@.len() == i / 4,
            forall|k: int| 0 <= k < words@.len() ==> words@[k] == #[trigger] pack_word(data@, 4 * k, word_fill(data@.len() as int, 4 * k)),
        decreases data@.len() + 4 - i,
    {
        let mut word: u32 = 0;
        let mut n: usize = 0;
        while n < 4 && i + n < data.len()
            invariant
                n <= 4,
                i < data@.len(),
                data@.len() + 4 <= usize::MAX,
                i + n <= data@.len(),
                word == pack_word(data@, i as int, n as int),
            decreases 4 - n,
        {
            word = word | ((data[i + n] as u32) << ((8 * n) as u32));
            n = n + 1;
        }
        assert(n as int == word_fill(data@.len() as int, i as int));
        words.push(word);
        i = i + 4;
    }
    words
}

/// Byte `i` of the receive FIFO words: byte `i % 4` of word `i / 4`.
pub open spec fn unpack_byte(words: Seq<u32>, i: int) -> u8 {
    ((words[i / 4] >> ((8 * (i % 4)) as u32)) & 0xff) as u8
}

/// The first `len` bytes held by the receive FIFO words.
pub fn rx_bytes(words: &[u32], len: usize) -> (r: Vec<u8>)
    requires
        4 * words@.len() >= len,
    ensures
        r@.len() == len,
        forall|i: int| 0 <= i < len ==> r@[i] == #[trigger] unpack_byte(words@, i),
{
    let mut out: Vec<u8> = Vec::new();
    let mut i: usize = 0;
    while i < len
        invariant
            4 * words@.len() >= len,
            i <= len,
            out@.len() == i,
            forall|k: int| 0 <= k < i ==> out@[k] == #[trigger] unpack_byte(words@, k),
        decreases len - i,
    {
        let word = words[i / 4];
        let b = ((word >> ((8 * (i % 4)) as u32)) & 0xff) as u8;
        out.push(b);
        i = i + 1;
    }
    out
}

// ---------------------------------------------------------------------------
// FIFO layout

proof fn lemma_word_bytes(x0: u32, x1: u32, x2: u32, x3: u32)
    by (bit_vector)
    requires
        x0 < 256,
        x1 < 256,
        x2 < 256,
        x3 < 256,
    ensures
        ((0u32 | (x0 << 0u32)) >> 0u32) & 0xff == x0,
        (((0u32 | (x0 << 0u32)) | (x1 << 8u32)) >> 0u32) & 0xff == x0,
        (((0u32 | (x0 << 0u32)) | (x1 << 8u32)) >> 8u32) & 0xff == x1,
        ((((0u32 | (x0 << 0u32)) | (x1 << 8u32)) | (x2 << 16u32)) >> 0u32) & 0xff == x0,
        ((((0u32 | (x0 << 0u32)) | (x1 << 8u32)) | (x2 << 16u32)) >> 8u32) & 0xff == x1,
        ((((0u32 | (x0 << 0u32)) | (x1 << 8u32)) | (x2 << 16u32)) >> 16u32) & 0xff == x2,
        (((((0u32 | (x0 << 0u32)) | (x1 << 8u32)) | (x2 << 16u32)) | (x3 << 24u32)) >> 0u32) & 0xff == x0,
        (((((0u32 | (x0 << 0u32)) | (x1 << 8u32)) | (x2 << 16u32)) | (x3 << 24u32)) >> 8u32) & 0xff == x1,
        (((((0u32 | (x0 << 0u32)) | (x1 << 8u32)) | (x2 << 16u32)) | (x3 << 24u32)) >> 16u32) & 0xff == x2,
        (((((0u32 | (x0 << 0u32)) | (x1 << 8u32)) | (x2 << 16u32)) | (x3 << 24u32)) >> 24u32) & 0xff == x3,
{
}

/// Byte `j` of a word packed from `m` bytes at `b` is the `j`-th of those bytes.
proof fn lemma_pack_word_byte(data: Seq<u8>, b: int, m: int, j: int)
    requires
        0 <= j < m <= 4,
        0 <= b,
        b + m <= data.len(),
    ensures
        ((pack_word(data, b, m) >> ((8 * j) as u32)) & 0xff) as u8 == data[b + j],
{
    reveal_with_fuel(pack_word, 5);
    let x0 = data[b] as u32;
    let x1 = if m > 1 { data[b + 1] as u32 } else { 0 };
    let x2 = if m > 2 { data[b + 2] as u32 } else { 0 };
    let x3 = if m > 3 { data[b + 3] as u32 } else { 0 };
    lemma_word_bytes(x0, x1, x2, x3);
}

/// The FIFO words that `tx_words` packs, read back byte by byte as `rx_bytes`
/// reads them, give the data: both sides use the same little-endian layout.
pub proof fn lemma_fifo_round_trip(data: Seq<u8>)
    ensures
        ({
            let words = Seq::new(
                ((data.len() + 3) / 4) as nat,
                |k: int| pack_word(data, 4 * k, word_fill(data.len() as int, 4 * k)),
            );
            forall|i: int| 0 <= i < data.len() ==> #[trigger] unpack_byte(words, i) == data[i]
        }),
{
    let words = Seq::new(
        ((data.len() + 3) / 4) as nat,
        |k: int| pack_word(data, 4 * k, word_fill(data.len() as int, 4 * k)),
    );
    assert forall|i: int| 0 <= i < data.len() implies #[trigger] unpack_byte(words, i) == data[i] by {
        let k = i / 4;
        let j = i % 4;
        assert(4 * k + j == i);
        assert(0 <= k < words.len());
        lemma_pack_word_byte(data, 4 * k, word_fill(data.len() as int, 4 * k), j);
    }
}

// ---------------------------------------------------------------------------
// Chunking and polling

/// The bytes of a page-program operation at `offset` with `remaining` bytes to go:
/// at most 64, and never across a 256-byte page.
pub open spec fn spec_page_chunk(offset: u32, remaining: usize) -> int {
    let page_left = 256 - offset % 256;
    let a = if remaining < 64 { remaining as int } else { 64 };
    if a < page_left {
        a
    } else {
        page_left
    }
}

pub fn page_chunk(offset: u32, remaining: usize) -> (r: usize)
    requires
        remaining > 0,
    ensures
        r == spec_page_chunk(offset, remaining),
        0 < r <= remaining,
        r <= 64,
        offset % 256 + r <= 256,
{
    let page_left = FLASH_PAGE_SIZE - (offset % FLASH_PAGE_SIZE);
    let a = if remaining < 64 {
        remaining
    } else {
        64
    };
    if a < page_left as usize {
        a
    } else {
        page_left as usize
    }
}

/// The bytes read through the AHB buffer at once.
pub fn ahb_chunk(remaining: usize) -> (r: usize)
    ensures
        r == (if remaining < QSPI_AHB_BUFFER_SIZE { remaining } else { QSPI_AHB_BUFFER_SIZE }),
{
    if remaining < QSPI_AHB_BUFFER_SIZE {
        remaining
    } else {
        QSPI_AHB_BUFFER_SIZE
    }
}

/// Whether the controller's status register shows no access in progress.
pub fn qspi_idle(sr: u32) -> (r: bool)
    ensures
        r == (sr & (QSPI_SR_IP_ACC | QSPI_SR_AHB_ACC) == 0),
{
    sr & (QSPI_SR_IP_ACC | QSPI_SR_AHB_ACC) == 0
}

/// Whether the flash status register shows no write in progress.
pub fn flash_ready(status: u8) -> (r: bool)
    ensures
        r == (status & 0x01 == 0),
{
    status & 0x01 == 0
}

/// The module configuration values that reset the buffers and then release them.
pub fn invalidate_values(mcr: u32) -> (r: (u32, u32))
    ensures
        r.0 == mcr | (QSPI_MCR_SWRSTHD | QSPI_MCR_SWRSTSD),
        r.1 == mcr & !(QSPI_MCR_SWRSTHD | QSPI_MCR_SWRSTSD),
{
    (mcr | (QSPI_MCR_SWRSTHD | QSPI_MCR_SWRSTSD), mcr & !(QSPI_MCR_SWRSTHD | QSPI_MCR_SWRSTSD))
}

/// The JEDEC id from the three id bytes, the first one most significant.
pub fn jedec_from_bytes(id: [u8; 3]) -> (r: u32)
    ensures
        r == id@[0] * 65536 + id@[1] * 256 + id@[2],
{
    let a = id[0] as u32;
    let b = id[1] as u32;
    let c = id[2] as u32;
    let r = (a << 16u32) | (b << 8u32) | c;
    assert(r == a * 65536 + b * 256 + c) by (bit_vector)
        requires
            a < 256,
            b < 256,
            c < 256,
            r == (a << 16u32) | (b << 8u32) | c,
    ;
    r
}

} // verus!
