//! Frame layout, request/response constants and the little-endian field codec
//! shared by the host tool and the recovery stages.

use vstd::prelude::*;
use vstd::slice::slice_subrange;

verus! {

pub const MAGIC: [u8; 4] = [0x4d, 0x47, 0x52, 0x31];
pub const VERSION: u8 = 1;

pub const OP_HELLO: u8 = 0x01;
pub const OP_INFO: u8 = 0x02;
pub const OP_READ: u8 = 0x03;
pub const OP_WRITE: u8 = 0x04;
pub const OP_ERASE: u8 = 0x05;
pub const OP_CRC32: u8 = 0x06;
pub const OP_RESET: u8 = 0x07;
pub const OP_CONFIG_UART: u8 = 0x08;
pub const OP_LOAD_BEGIN: u8 = 0x09;
pub const OP_LOAD_CHUNK: u8 = 0x0a;
pub const OP_EXEC: u8 = 0x0b;
pub const OP_READY: u8 = 0x80;
pub const OP_DEBUG_PRINT: u8 = 0x81;
pub const OP_PROGRESS: u8 = 0x82;

pub const STATUS_OK: u8 = 0;
pub const STATUS_BAD_FRAME: u8 = 1;
pub const STATUS_BAD_REQUEST: u8 = 2;
pub const STATUS_RANGE: u8 = 3;
pub const STATUS_FLASH: u8 = 4;
pub const STATUS_UNSUPPORTED: u8 = 5;

pub const HEADER_LEN: usize = 8;
pub const MAX_DATA_LEN: usize = 1024;
pub const MAX_FRAME_LEN: usize = HEADER_LEN + 4 + MAX_DATA_LEN;
pub const MAX_SLIP_LEN: usize = MAX_FRAME_LEN * 2 + 2;
pub const PROGRESS_LEN: usize = 9;
pub const PROGRESS_OP: usize = 0;
pub const PROGRESS_DONE: usize = 1;
pub const PROGRESS_TOTAL: usize = 5;

pub const YOCTO_NOR_IMAGE_SIZE: u32 = 32 * 1024 * 1024;
pub const GATEWAY_DK_FLASH_SIZE: u32 = 64 * 1024 * 1024;
pub const GATEWAY_DK_FLASH_ERASE_SIZE: u32 = 64 * 1024;
pub const GATEWAY_DK_FLASH_WRITE_GRANULE: u32 = 1;

pub const DEFAULT_UART_BAUD: u32 = 115_200;
pub const DEFAULT_FAST_UART_BAUD: u32 = 921_600;
pub const MONO_GATEWAY_DK_UART_CLOCK_HZ: u32 = 300_000_000;
pub const UART_CONFIG_LEN: usize = 5;
pub const UART_CONFIG_DLL: usize = 0;
pub const UART_CONFIG_DLM: usize = 1;
pub const UART_CONFIG_LCR: usize = 2;
pub const UART_CONFIG_FCR: usize = 3;
pub const UART_CONFIG_MCR: usize = 4;
pub const UART_LCR_WLEN8: u8 = 0x03;
pub const UART_FCR_ENABLE_CLEAR: u8 = 0x07;
pub const UART_MCR_DTR_RTS: u8 = 0x03;
pub const STAGE1_LOAD_ADDR: u32 = 0x1000_4000;
pub const STAGE1_ENTRY_ADDR: u32 = STAGE1_LOAD_ADDR;
pub const STAGE1_MAX_LEN: u32 = 0x0001_a000;
pub const SUPPORTED_UART_BAUDS: [u32; 18] = [
    9_600, 19_200, 38_400, 57_600, 115_200, 230_400, 460_800, 500_000, 576_000, 921_600, 1_000_000,
    1_152_000, 1_500_000, 2_000_000, 2_500_000, 3_000_000, 3_500_000, 4_000_000,
];

#[derive(Clone, Copy, Debug, PartialEq, Eq, Structural)]
pub enum ProtocolError {
    Short,
    BadMagic,
    BadVersion,
    BufferTooSmall,
}

#[derive(Clone, Copy, Debug, PartialEq, Eq, Structural)]
pub struct Header {
    pub seq: u8,
    pub op: u8,
    pub status: u8,
}

#[derive(Clone, Copy, Debug, PartialEq, Eq, Structural)]
pub struct DeviceInfo {
    pub flash_size: u32,
    pub image_size: u32,
    pub erase_size: u32,
    pub write_granule: u32,
    pub max_data: u16,
    pub jedec_id: u32,
}

// ---------------------------------------------------------------------------
// Little-endian fields

/// Little-endian value of the two bytes of `s` at `off`.
pub open spec fn le_u16(s: Seq<u8>, off: int) -> int {
    s[off] + 256 * s[off + 1]
}

/// Little-endian value of the four bytes of `s` at `off`.
pub open spec fn le_u32(s: Seq<u8>, off: int) -> int {
    s[off] + 256 * s[off + 1] + 65536 * s[off + 2] + 16777216 * s[off + 3]
}

/// The two little-endian bytes of `v`.
pub open spec fn u16_bytes(v: u16) -> Seq<u8> {
    seq![(v % 256) as u8, (v / 256) as u8]
}

/// The four little-endian bytes of `v`.
pub open spec fn u32_bytes(v: u32) -> Seq<u8> {
    seq![
        (v % 256) as u8,
        ((v / 256) % 256) as u8,
        ((v / 65536) % 256) as u8,
        (v / 16777216) as u8,
    ]
}

/// `s` with the bytes at `off..off + b.len()` replaced by `b`.
pub open spec fn splice(s: Seq<u8>, off: int, b: Seq<u8>) -> Seq<u8> {
    s.subrange(0, off) + b + s.subrange(off + b.len(), s.len() as int)
}

/// Reading back the two bytes written for `v` gives `v`.
pub proof fn lemma_u16_round_trip(v: u16)
    ensures
        u16_bytes(v).len() == 2,
        le_u16(u16_bytes(v), 0) == v,
{
}

/// Reading back the four bytes written for `v` gives `v`.
pub proof fn lemma_u32_round_trip(v: u32)
    ensures
        u32_bytes(v).len() == 4,
        le_u32(u32_bytes(v), 0) == v,
{
    let b = u32_bytes(v);
    assert(b[0] + 256 * b[1] + 65536 * b[2] + 16777216 * b[3] == v) by (nonlinear_arith)
        requires
            b[0] == v % 256,
            b[1] == (v / 256) % 256,
            b[2] == (v / 65536) % 256,
            b[3] == v / 16777216,
            v < 0x1_0000_0000,
    ;
}

/// Writes `value` as two little-endian bytes at `offset`.
pub fn put_u16(out: &mut [u8], offset: usize, value: u16)
    requires
        offset + 2 <= old(out)@.len(),
    ensures
        final(out)@ == splice(old(out)@, offset as int, u16_bytes(value)),
{
    out[offset] = (value % 256) as u8;
    out[offset + 1] = (value / 256) as u8;
    assert(out@ =~= splice(old(out)@, offset as int, u16_bytes(value)));
}

/// Writes `value` as four little-endian bytes at `offset`.
pub fn put_u32(out: &mut [u8], offset: usize, value: u32)
    requires
        offset + 4 <= old(out)@.len(),
    ensures
        final(out)@ == splice(old(out)@, offset as int, u32_bytes(value)),
{
    out[offset] = (value % 256) as u8;
    out[offset + 1] = ((value / 256) % 256) as u8;
    out[offset + 2] = ((value / 65536) % 256) as u8;
    out[offset + 3] = (value / 16777216) as u8;
    assert(out@ =~= splice(old(out)@, offset as int, u32_bytes(value)));
}

/// Reads two little-endian bytes at `offset`; `Short` when they are not all there.
pub fn get_u16(input: &[u8], offset: usize) -> (r: Result<u16, ProtocolError>)
    requires
        offset <= usize::MAX - 2,
    ensures
        r matches Ok(v) ==> input@.len() >= offset + 2 && v == le_u16(input@, offset as int),
        r is Err <==> input@.len() < offset + 2,
        r matches Err(e) ==> e == ProtocolError::Short,
{
    if input.len() < offset + 2 {
        return Err(ProtocolError::Short);
    }
    Ok((input[offset] as u16) + (input[offset + 1] as u16) * 256)
}

/// Reads four little-endian bytes at `offset`; `Short` when they are not all there.
pub fn get_u32(input: &[u8], offset: usize) -> (r: Result<u32, ProtocolError>)
    requires
        offset <= usize::MAX - 4,
    ensures
        r matches Ok(v) ==> input@.len() >= offset + 4 && v == le_u32(input@, offset as int),
        r is Err <==> input@.len() < offset + 4,
        r matches Err(e) ==> e == ProtocolError::Short,
{
    if input.len() < offset + 4 {
        return Err(ProtocolError::Short);
    }
    Ok((input[offset] as u32) + (input[offset + 1] as u32) * 256 + (input[offset + 2] as u32)
        * 65536 + (input[offset + 3] as u32) * 16777216)
}


// ---------------------------------------------------------------------------
// Frames

/// The four magic bytes as a sequence.
pub open spec fn magic_seq() -> Seq<u8> {
    seq![0x4du8, 0x47u8, 0x52u8, 0x31u8]
}

/// The bytes of a frame: magic, version, sequence number, opcode, status, payload.
pub open spec fn frame_bytes(seq: u8, op: u8, status: u8, payload: Seq<u8>) -> Seq<u8> {
    magic_seq() + seq![VERSION, seq, op, status] + payload
}

/// What parsing `s` as a frame gives: its header and payload, or why it is not one.
pub open spec fn spec_parse_frame(s: Seq<u8>) -> Result<(Header, Seq<u8>), ProtocolError> {
    if s.len() < HEADER_LEN {
        Err(ProtocolError::Short)
    } else if s.subrange(0, 4) != magic_seq() {
        Err(ProtocolError::BadMagic)
    } else if s[4] != VERSION {
        Err(ProtocolError::BadVersion)
    } else {
        Ok((Header { seq: s[5], op: s[6], status: s[7] }, s.subrange(HEADER_LEN as int, s.len() as int)))
    }
}

/// Writes a frame with the given header fields and payload at the start of `out`
/// and returns its length; `BufferTooSmall`, with `out` untouched, when it does not fit.
pub fn build_frame(out: &mut [u8], seq: u8, op: u8, status: u8, payload: &[u8]) -> (r: Result<
    usize,
    ProtocolError,
>)
    requires
        payload@.len() <= usize::MAX - HEADER_LEN,
    ensures
        r is Ok <==> old(out)@.len() >= HEADER_LEN + payload@.len(),
        r matches Ok(len) ==> {
            &&& len == HEADER_LEN + payload@.len()
            &&& final(out)@ == splice(old(out)@, 0, frame_bytes(seq, op, status, payload@))
        },
        r matches Err(e) ==> e == ProtocolError::BufferTooSmall && final(out)@ == old(out)@,
{
    let len = HEADER_LEN + payload.len();
    if out.len() < len {
        return Err(ProtocolError::BufferTooSmall);
    }
    out[0] = 0x4d;
    out[1] = 0x47;
    out[2] = 0x52;
    out[3] = 0x31;
    out[4] = VERSION;
    out[5] = seq;
    out[6] = op;
    out[7] = status;
    let ghost fb = frame_bytes(seq, op, status, payload@);
    assert(fb.len() == len);
    assert forall|k: int| 0 <= k < HEADER_LEN implies out@[k] == fb[k] by {
        assert(fb[k] == (magic_seq() + seq![VERSION, seq, op, status])[k]);
    }
    let mut i: usize = 0;
    while i < payload.len()
        invariant
            len == HEADER_LEN + payload@.len(),
            fb == frame_bytes(seq, op, status, payload@),
            fb.len() == len,
            len <= out@.len(),
            out@.len() == old(out)@.len(),
            i <= payload@.len(),
            forall|k: int| 0 <= k < HEADER_LEN + i ==> out@[k] == fb[k],
            forall|k: int| len <= k < out@.len() ==> out@[k] == old(out)@[k],
        decreases payload@.len() - i,
    {
        out[HEADER_LEN + i] = payload[i];
        assert(fb[HEADER_LEN + i] == payload@[i as int]);
        i = i + 1;
    }
    assert(out@ =~= splice(old(out)@, 0, fb));
    Ok(len)
}

/// Splits a frame into its header and payload, checking length, magic and version.
pub fn parse_frame(input: &[u8]) -> (r: Result<(Header, &[u8]), ProtocolError>)
    ensures
        r matches Ok((h, p)) ==> spec_parse_frame(input@) == Ok::<_, ProtocolError>((h, p@)),
        r matches Err(e) ==> spec_parse_frame(input@) == Err::<(Header, Seq<u8>), _>(e),
{
    if input.len() < HEADER_LEN {
        return Err(ProtocolError::Short);
    }
    if input[0] != 0x4d || input[1] != 0x47 || input[2] != 0x52 || input[3] != 0x31 {
        assert(input@.subrange(0, 4) != magic_seq()) by {
            if input@.subrange(0, 4) == magic_seq() {
                assert(input@.subrange(0, 4)[0] == input@[0]);
                assert(input@.subrange(0, 4)[1] == input@[1]);
                assert(input@.subrange(0, 4)[2] == input@[2]);
                assert(input@.subrange(0, 4)[3] == input@[3]);
            }
        }
        return Err(ProtocolError::BadMagic);
    }
    assert(input@.subrange(0, 4) =~= magic_seq());
    if input[4] != VERSION {
        return Err(ProtocolError::BadVersion);
    }
    let payload = slice_subrange(input, HEADER_LEN, input.len());
    Ok((Header { seq: input[5], op: input[6], status: input[7] }, payload))
}

/// A frame that `build_frame` writes parses back to the same header and payload.
pub proof fn lemma_frame_round_trip(seq: u8, op: u8, status: u8, payload: Seq<u8>)
    ensures
        spec_parse_frame(frame_bytes(seq, op, status, payload)) == Ok::<_, ProtocolError>(
            (Header { seq, op, status }, payload),
        ),
{
    let f = frame_bytes(seq, op, status, payload);
    assert(f.subrange(0, 4) =~= magic_seq());
    assert(f.subrange(HEADER_LEN as int, f.len() as int) =~= payload);
}

/// A parsed frame is exactly the bytes that `build_frame` writes for its header and payload.
pub proof fn lemma_frame_parse_is_exact(s: Seq<u8>)
    ensures
        spec_parse_frame(s) matches Ok((h, p)) ==> frame_bytes(h.seq, h.op, h.status, p) == s,
{
    if let Ok((h, p)) = spec_parse_frame(s) {
        assert(s.subrange(0, 4) == magic_seq());
        assert(s[0] == s.subrange(0, 4)[0]);
        assert(s[1] == s.subrange(0, 4)[1]);
        assert(s[2] == s.subrange(0, 4)[2]);
        assert(s[3] == s.subrange(0, 4)[3]);
        assert(frame_bytes(h.seq, h.op, h.status, p) =~= s);
    }
}


// ---------------------------------------------------------------------------
// Device information

/// `splice` twice, at adjacent places, is one `splice` of the two byte runs.
pub proof fn lemma_splice_adjacent(s: Seq<u8>, off: int, a: Seq<u8>, b: Seq<u8>)
    requires
        0 <= off,
        off + a.len() + b.len() <= s.len(),
    ensures
        splice(splice(s, off, a), off + a.len(), b) == splice(s, off, a + b),
{
    assert(splice(splice(s, off, a), off + a.len(), b) =~= splice(s, off, a + b));
}

/// The encoding of a device-information record: its fields in order, little-endian.
pub open spec fn info_bytes(info: DeviceInfo) -> Seq<u8> {
    u32_bytes(info.flash_size) + u32_bytes(info.image_size) + u32_bytes(info.erase_size)
        + u32_bytes(info.write_granule) + u16_bytes(info.max_data) + u32_bytes(info.jedec_id)
}

/// The record that the first bytes of `s` encode (meaningful when there are enough of them).
pub open spec fn spec_decode_info(s: Seq<u8>) -> DeviceInfo {
    DeviceInfo {
        flash_size: le_u32(s, 0) as u32,
        image_size: le_u32(s, 4) as u32,
        erase_size: le_u32(s, 8) as u32,
        write_granule: le_u32(s, 12) as u32,
        max_data: le_u16(s, 16) as u16,
        jedec_id: le_u32(s, 18) as u32,
    }
}

/// The record that the stage reports for the Gateway DK with the given JEDEC id.
pub open spec fn spec_gateway_dk(jedec_id: u32) -> DeviceInfo {
    DeviceInfo {
        flash_size: GATEWAY_DK_FLASH_SIZE,
        image_size: YOCTO_NOR_IMAGE_SIZE,
        erase_size: GATEWAY_DK_FLASH_ERASE_SIZE,
        write_granule: GATEWAY_DK_FLASH_WRITE_GRANULE,
        max_data: MAX_DATA_LEN as u16,
        jedec_id,
    }
}

impl DeviceInfo {
    pub const ENCODED_LEN: usize = 22;

    pub fn gateway_dk(jedec_id: u32) -> (r: Self)
        ensures
            r == spec_gateway_dk(jedec_id),
    {
        Self {
            flash_size: GATEWAY_DK_FLASH_SIZE,
            image_size: YOCTO_NOR_IMAGE_SIZE,
            erase_size: GATEWAY_DK_FLASH_ERASE_SIZE,
            write_granule: GATEWAY_DK_FLASH_WRITE_GRANULE,
            max_data: 1024,
            jedec_id,
        }
    }

    /// Writes the record's encoding at the start of `out` and returns its length;
    /// `BufferTooSmall`, with `out` untouched, when `out` is shorter than the encoding.
    pub fn encode(&self, out: &mut [u8]) -> (r: Result<usize, ProtocolError>)
        ensures
            r is Ok <==> old(out)@.len() >= 22,
            r matches Ok(n) ==> n == 22 && final(out)@ == splice(old(out)@, 0, info_bytes(*self)),
            r matches Err(e) ==> e == ProtocolError::BufferTooSmall && final(out)@ == old(out)@,
    {
        if out.len() < Self::ENCODED_LEN {
            return Err(ProtocolError::BufferTooSmall);
        }
        let ghost s0 = out@;
        put_u32(out, 0, self.flash_size);
        put_u32(out, 4, self.image_size);
        put_u32(out, 8, self.erase_size);
        put_u32(out, 12, self.write_granule);
        put_u16(out, 16, self.max_data);
        put_u32(out, 18, self.jedec_id);
        proof {
            let a = u32_bytes(self.flash_size);
            let b = u32_bytes(self.image_size);
            let c = u32_bytes(self.erase_size);
            let d = u32_bytes(self.write_granule);
            let e = u16_bytes(self.max_data);
            let f = u32_bytes(self.jedec_id);
            lemma_splice_adjacent(s0, 0, a, b);
            lemma_splice_adjacent(s0, 0, a + b, c);
            lemma_splice_adjacent(s0, 0, a + b + c, d);
            lemma_splice_adjacent(s0, 0, a + b + c + d, e);
            lemma_splice_adjacent(s0, 0, a + b + c + d + e, f);
        }
        Ok(Self::ENCODED_LEN)
    }

    /// Reads a record from the start of `input`; `Short` when fewer than 22 bytes are given.
    pub fn decode(input: &[u8]) -> (r: Result<Self, ProtocolError>)
        ensures
            r is Ok <==> input@.len() >= 22,
            r matches Ok(info) ==> info == spec_decode_info(input@),
            r matches Err(e) ==> e == ProtocolError::Short,
    {
        if input.len() < Self::ENCODED_LEN {
            return Err(ProtocolError::Short);
        }
        Ok(Self {
            flash_size: get_u32(input, 0)?,
            image_size: get_u32(input, 4)?,
            erase_size: get_u32(input, 8)?,
            write_granule: get_u32(input, 12)?,
            max_data: get_u16(input, 16)?,
            jedec_id: get_u32(input, 18)?,
        })
    }
}

/// Decoding what `encode` wrote, whatever follows it, gives back the record.
pub proof fn lemma_info_round_trip(info: DeviceInfo, rest: Seq<u8>)
    ensures
        (info_bytes(info) + rest).len() >= 22,
        spec_decode_info(info_bytes(info) + rest) == info,
{
    let s = info_bytes(info) + rest;
    lemma_u32_round_trip(info.flash_size);
    lemma_u32_round_trip(info.image_size);
    lemma_u32_round_trip(info.erase_size);
    lemma_u32_round_trip(info.write_granule);
    lemma_u16_round_trip(info.max_data);
    lemma_u32_round_trip(info.jedec_id);
    assert(s.subrange(0, 4) =~= u32_bytes(info.flash_size));
    assert(s.subrange(4, 8) =~= u32_bytes(info.image_size));
    assert(s.subrange(8, 12) =~= u32_bytes(info.erase_size));
    assert(s.subrange(12, 16) =~= u32_bytes(info.write_granule));
    assert(s.subrange(16, 18) =~= u16_bytes(info.max_data));
    assert(s.subrange(18, 22) =~= u32_bytes(info.jedec_id));
    assert(le_u32(s, 0) == le_u32(s.subrange(0, 4), 0));
    assert(le_u32(s, 4) == le_u32(s.subrange(4, 8), 0));
    assert(le_u32(s, 8) == le_u32(s.subrange(8, 12), 0));
    assert(le_u32(s, 12) == le_u32(s.subrange(12, 16), 0));
    assert(le_u16(s, 16) == le_u16(s.subrange(16, 18), 0));
    assert(le_u32(s, 18) == le_u32(s.subrange(18, 22), 0));
}

// ---------------------------------------------------------------------------
// Status names and baud rates

/// The name under which a status byte is reported.
pub open spec fn spec_status_name(status: u8) -> Seq<char> {
    if status == STATUS_OK {
        "ok"@
    } else if status == STATUS_BAD_FRAME {
        "bad-frame"@
    } else if status == STATUS_BAD_REQUEST {
        "bad-request"@
    } else if status == STATUS_RANGE {
        "range"@
    } else if status == STATUS_FLASH {
        "flash"@
    } else if status == STATUS_UNSUPPORTED {
        "unsupported"@
    } else {
        "unknown"@
    }
}

pub fn status_name(status: u8) -> (r: &'static str)
    ensures
        r@ == spec_status_name(status),
{
    match status {
        STATUS_OK => "ok",
        STATUS_BAD_FRAME => "bad-frame",
        STATUS_BAD_REQUEST => "bad-request",
        STATUS_RANGE => "range",
        STATUS_FLASH => "flash",
        STATUS_UNSUPPORTED => "unsupported",
        _ => "unknown",
    }
}

/// The baud rates that the recovery stages can be switched to.
pub open spec fn is_supported_baud(baud: u32) -> bool {
    ||| baud == 9_600
    ||| baud == 19_200
    ||| baud == 38_400
    ||| baud == 57_600
    ||| baud == 115_200
    ||| baud == 230_400
    ||| baud == 460_800
    ||| baud == 500_000
    ||| baud == 576_000
    ||| baud == 921_600
    ||| baud == 1_000_000
    ||| baud == 1_152_000
    ||| baud == 1_500_000
    ||| baud == 2_000_000
    ||| baud == 2_500_000
    ||| baud == 3_000_000
    ||| baud == 3_500_000
    ||| baud == 4_000_000
}

pub fn uart_baud_supported(baud: u32) -> (r: bool)
    ensures
        r == is_supported_baud(baud),
{
    match baud {
        9_600 | 19_200 | 38_400 | 57_600 | 115_200 | 230_400 | 460_800 | 500_000 | 576_000
        | 921_600 | 1_000_000 | 1_152_000 | 1_500_000 | 2_000_000 | 2_500_000 | 3_000_000
        | 3_500_000 | 4_000_000 => true,
        _ => false,
    }
}

/// The wire layout of the device-information record, field by field: flash size at
/// byte 0, image size at 4, erase size at 8, write granule at 12 (four bytes each,
/// little-endian), the data limit at 16 (two bytes) and the JEDEC id at 18; 22 bytes.
pub proof fn lemma_info_layout(info: DeviceInfo)
    ensures
        info_bytes(info).len() == 22,
        le_u32(info_bytes(info), 0) == info.flash_size,
        le_u32(info_bytes(info), 4) == info.image_size,
        le_u32(info_bytes(info), 8) == info.erase_size,
        le_u32(info_bytes(info), 12) == info.write_granule,
        le_u16(info_bytes(info), 16) == info.max_data,
        le_u32(info_bytes(info), 18) == info.jedec_id,
{
    lemma_info_round_trip(info, Seq::empty());
    assert(info_bytes(info) + Seq::<u8>::empty() =~= info_bytes(info));
}

/// Decoding reads each field from its place in the layout: flash size at byte 0,
/// image size at 4, erase size at 8, write granule at 12, the data limit at 16 and
/// the JEDEC id at 18.
pub proof fn lemma_decode_layout(s: Seq<u8>)
    requires
        s.len() >= 22,
    ensures
        spec_decode_info(s).flash_size == le_u32(s, 0),
        spec_decode_info(s).image_size == le_u32(s, 4),
        spec_decode_info(s).erase_size == le_u32(s, 8),
        spec_decode_info(s).write_granule == le_u32(s, 12),
        spec_decode_info(s).max_data == le_u16(s, 16),
        spec_decode_info(s).jedec_id == le_u32(s, 18),
{
    assert(le_u32(s, 0) < 0x1_0000_0000);
    assert(le_u32(s, 4) < 0x1_0000_0000);
    assert(le_u32(s, 8) < 0x1_0000_0000);
    assert(le_u32(s, 12) < 0x1_0000_0000);
    assert(le_u16(s, 16) < 0x1_0000);
    assert(le_u32(s, 18) < 0x1_0000_0000);
}

} // verus!
