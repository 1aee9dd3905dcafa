//! The flash recovery stage's handling of requests: which requests it accepts,
//! with which status it refuses the others, and the payloads it sends back.

use vstd::prelude::*;
use crate::crc::{crc_chunks, crc_update, lemma_crc_chunks, piece_len, spec_crc32};
use crate::protocol::{
    get_u16, get_u32, info_bytes, le_u16, le_u32, parse_frame, put_u32, spec_gateway_dk,
    spec_parse_frame, u32_bytes, DeviceInfo, GATEWAY_DK_FLASH_ERASE_SIZE, GATEWAY_DK_FLASH_SIZE,
    HEADER_LEN, MAX_DATA_LEN, OP_CONFIG_UART, OP_CRC32, OP_DEBUG_PRINT, OP_ERASE, OP_HELLO,
    OP_INFO, OP_PROGRESS, OP_READ, OP_READY, OP_RESET, OP_WRITE, PROGRESS_LEN, STATUS_BAD_FRAME,
    STATUS_BAD_REQUEST, STATUS_OK, STATUS_RANGE, STATUS_UNSUPPORTED, UART_CONFIG_LEN,
};

verus! {

/// Whether `len` bytes at `offset` lie within the Gateway DK's flash.
pub open spec fn spec_range_ok(offset: u32, len: u32) -> bool {
    offset + len <= GATEWAY_DK_FLASH_SIZE
}

pub fn range_ok(offset: u32, len: u32) -> (r: bool)
    ensures
        r == spec_range_ok(offset, len),
{
    match offset.checked_add(len) {
        Some(end) => end <= GATEWAY_DK_FLASH_SIZE,
        None => false,
    }
}

pub fn min_usize(a: usize, b: usize) -> (r: usize)
    ensures
        r == (if a < b { a } else { b }),
{
    if a < b {
        a
    } else {
        b
    }
}

/// What the stage does in answer to a frame.
#[derive(Clone, Copy, Debug, PartialEq, Eq, Structural)]
pub enum StageAction {
    /// Not a frame: send a debug message, then a bad-frame READY.
    BadFrame,
    /// Send the device information, status OK.
    Info { seq: u8, op: u8 },
    /// Send a frame with no payload.
    Reply { seq: u8, op: u8, status: u8 },
    /// Read `len` bytes of flash at `offset` and send them after the offset.
    Read { seq: u8, offset: u32, len: usize },
    /// Program bytes `from..to` of the received frame into flash at `offset`.
    Write { seq: u8, offset: u32, from: usize, to: usize },
    /// Erase the `len / 64 KiB` sectors from `offset` on, reporting progress.
    Erase { seq: u8, offset: u32, len: u32 },
    /// Compute the CRC32 of `len` bytes of flash at `offset`, reporting progress.
    Crc32 { seq: u8, offset: u32, len: u32 },
    /// Echo the configuration, reprogram the UART with it, then announce READY.
    ConfigUart { seq: u8, dll: u8, dlm: u8, lcr: u8, fcr: u8, mcr: u8 },
    /// Reply OK, then stop.
    Reset { seq: u8 },
}

/// READ: offset and a length of at most one frame's data, within the flash.
pub open spec fn spec_read(seq: u8, p: Seq<u8>) -> StageAction {
    if p.len() < 6 {
        StageAction::Reply { seq, op: OP_READ, status: STATUS_BAD_REQUEST }
    } else {
        let offset = le_u32(p, 0) as u32;
        let len = le_u16(p, 4);
        if len > MAX_DATA_LEN || !spec_range_ok(offset, len as u32) {
            StageAction::Reply { seq, op: OP_READ, status: STATUS_RANGE }
        } else {
            StageAction::Read { seq, offset, len: len as usize }
        }
    }
}

/// WRITE: offset and between 1 and 1024 bytes, within the flash. `base` is where the
/// payload starts in the received frame.
pub open spec fn spec_write(seq: u8, p: Seq<u8>, base: int) -> StageAction {
    if p.len() < 4 {
        StageAction::Reply { seq, op: OP_WRITE, status: STATUS_BAD_REQUEST }
    } else {
        let offset = le_u32(p, 0) as u32;
        let n = p.len() - 4;
        if n == 0 || n > MAX_DATA_LEN || !spec_range_ok(offset, n as u32) {
            StageAction::Reply { seq, op: OP_WRITE, status: STATUS_RANGE }
        } else {
            StageAction::Write { seq, offset, from: (base + 4) as usize, to: (base + p.len()) as usize }
        }
    }
}

/// ERASE: whole 64 KiB sectors within the flash.
pub open spec fn spec_erase(seq: u8, p: Seq<u8>) -> StageAction {
    if p.len() < 8 {
        StageAction::Reply { seq, op: OP_ERASE, status: STATUS_BAD_REQUEST }
    } else {
        let offset = le_u32(p, 0) as u32;
        let len = le_u32(p, 4) as u32;
        if offset % GATEWAY_DK_FLASH_ERASE_SIZE != 0 || len == 0 || len % GATEWAY_DK_FLASH_ERASE_SIZE != 0
            || !spec_range_ok(offset, len) {
            StageAction::Reply { seq, op: OP_ERASE, status: STATUS_RANGE }
        } else {
            StageAction::Erase { seq, offset, len }
        }
    }
}

/// CRC32: any range within the flash.
pub open spec fn spec_crc32_request(seq: u8, p: Seq<u8>) -> StageAction {
    if p.len() < 8 {
        StageAction::Reply { seq, op: OP_CRC32, status: STATUS_BAD_REQUEST }
    } else {
        let offset = le_u32(p, 0) as u32;
        let len = le_u32(p, 4) as u32;
        if !spec_range_ok(offset, len) {
            StageAction::Reply { seq, op: OP_CRC32, status: STATUS_RANGE }
        } else {
            StageAction::Crc32 { seq, offset, len }
        }
    }
}

/// How the stage answers a received frame.
pub open spec fn spec_stage_frame(input: Seq<u8>) -> StageAction {
    match spec_parse_frame(input) {
        Err(_) => StageAction::BadFrame,
        Ok((h, p)) => if h.op == OP_HELLO || h.op == OP_INFO {
            StageAction::Info { seq: h.seq, op: h.op }
        } else if h.op == OP_READ {
            spec_read(h.seq, p)
        } else if h.op == OP_WRITE {
            spec_write(h.seq, p, HEADER_LEN as int)
        } else if h.op == OP_ERASE {
            spec_erase(h.seq, p)
        } else if h.op == OP_CRC32 {
            spec_crc32_request(h.seq, p)
        } else if h.op == OP_CONFIG_UART {
            if p.len() != UART_CONFIG_LEN {
                StageAction::Reply { seq: h.seq, op: OP_CONFIG_UART, status: STATUS_BAD_REQUEST }
            } else {
                StageAction::ConfigUart { seq: h.seq, dll: p[0], dlm: p[1], lcr: p[2], fcr: p[3], mcr: p[4] }
            }
        } else if h.op == OP_RESET {
            StageAction::Reset { seq: h.seq }
        } else {
            StageAction::Reply { seq: h.seq, op: h.op, status: STATUS_UNSUPPORTED }
        },
    }
}

fn handle_read(seq: u8, payload: &[u8]) -> (r: StageAction)
    ensures
        r == spec_read(seq, payload@),
{
    let offset = match get_u32(payload, 0) {
        Ok(v) => v,
        Err(_) => return StageAction::Reply { seq, op: OP_READ, status: STATUS_BAD_REQUEST },
    };
    let len = match get_u16(payload, 4) {
        Ok(v) => v,
        Err(_) => return StageAction::Reply { seq, op: OP_READ, status: STATUS_BAD_REQUEST },
    };
    let len = len as usize;
    if len > MAX_DATA_LEN || !range_ok(offset, len as u32) {
        return StageAction::Reply { seq, op: OP_READ, status: STATUS_RANGE };
    }
    StageAction::Read { seq, offset, len }
}

fn handle_write(seq: u8, payload: &[u8], base: usize) -> (r: StageAction)
    requires
        base + payload@.len() <= usize::MAX,
    ensures
        r == spec_write(seq, payload@, base as int),
{
    let offset = match get_u32(payload, 0) {
        Ok(v) => v,
        Err(_) => return StageAction::Reply { seq, op: OP_WRITE, status: STATUS_BAD_REQUEST },
    };
    let n = payload.len() - 4;
    if n == 0 || n > MAX_DATA_LEN || !range_ok(offset, n as u32) {
        return StageAction::Reply { seq, op: OP_WRITE, status: STATUS_RANGE };
    }
    StageAction::Write { seq, offset, from: base + 4, to: base + payload.len() }
}

fn handle_erase(seq: u8, payload: &[u8]) -> (r: StageAction)
    ensures
        r == spec_erase(seq, payload@),
{
    let offset = match get_u32(payload, 0) {
        Ok(v) => v,
        Err(_) => return StageAction::Reply { seq, op: OP_ERASE, status: STATUS_BAD_REQUEST },
    };
    let len = match get_u32(payload, 4) {
        Ok(v) => v,
        Err(_) => return StageAction::Reply { seq, op: OP_ERASE, status: STATUS_BAD_REQUEST },
    };
    if offset % GATEWAY_DK_FLASH_ERASE_SIZE != 0 || len == 0 || len % GATEWAY_DK_FLASH_ERASE_SIZE != 0
        || !range_ok(offset, len) {
        return StageAction::Reply { seq, op: OP_ERASE, status: STATUS_RANGE };
    }
    StageAction::Erase { seq, offset, len }
}

fn handle_crc32(seq: u8, payload: &[u8]) -> (r: StageAction)
    ensures
        r == spec_crc32_request(seq, payload@),
{
    let offset = match get_u32(payload, 0) {
        Ok(v) => v,
        Err(_) => return StageAction::Reply { seq, op: OP_CRC32, status: STATUS_BAD_REQUEST },
    };
    let len = match get_u32(payload, 4) {
        Ok(v) => v,
        Err(_) => return StageAction::Reply { seq, op: OP_CRC32, status: STATUS_BAD_REQUEST },
    };
    if !range_ok(offset, len) {
        return StageAction::Reply { seq, op: OP_CRC32, status: STATUS_RANGE };
    }
    StageAction::Crc32 { seq, offset, len }
}

/// The stage's answer to a received frame.
pub fn stage_handle_frame(input: &[u8]) -> (r: StageAction)
    requires
        input@.len() <= 0x1_0000,
    ensures
        r == spec_stage_frame(input@),
{
    let (header, payload) = match parse_frame(input) {
        Ok(x) => x,
        Err(_) => return StageAction::BadFrame,
    };
    if header.op == OP_HELLO || header.op == OP_INFO {
        StageAction::Info { seq: header.seq, op: header.op }
    } else if header.op == OP_READ {
        handle_read(header.seq, payload)
    } else if header.op == OP_WRITE {
        handle_write(header.seq, payload, HEADER_LEN)
    } else if header.op == OP_ERASE {
        handle_erase(header.seq, payload)
    } else if header.op == OP_CRC32 {
        handle_crc32(header.seq, payload)
    } else if header.op == OP_CONFIG_UART {
        if payload.len() != UART_CONFIG_LEN {
            return StageAction::Reply { seq: header.seq, op: OP_CONFIG_UART, status: STATUS_BAD_REQUEST };
        }
        StageAction::ConfigUart {
            seq: header.seq,
            dll: payload[0],
            dlm: payload[1],
            lcr: payload[2],
            fcr: payload[3],
            mcr: payload[4],
        }
    } else if header.op == OP_RESET {
        StageAction::Reset { seq: header.seq }
    } else {
        StageAction::Reply { seq: header.seq, op: header.op, status: STATUS_UNSUPPORTED }
    }
}

// ---------------------------------------------------------------------------
// Long operations and the payloads of the answers

/// The payload of a PROGRESS frame: the operation, then bytes done and in total.
pub fn progress_payload(op: u8, done: u32, total: u32) -> (r: [u8; 9])
    ensures
        r@ == seq![op] + u32_bytes(done) + u32_bytes(total),
{
    let mut payload = [0u8; PROGRESS_LEN];
    payload[0] = op;
    put_u32(&mut payload, 1, done);
    put_u32(&mut payload, 5, total);
    assert(payload@ =~= seq![op] + u32_bytes(done) + u32_bytes(total));
    payload
}

/// A frame that the stage sends: its header fields and payload.
#[derive(Clone, Debug, PartialEq, Eq)]
pub struct Reply {
    pub seq: u8,
    pub op: u8,
    pub status: u8,
    pub payload: Vec<u8>,
}

/// A frame that the stage sends, as a value of specifications.
pub struct ReplyView {
    pub seq: u8,
    pub op: u8,
    pub status: u8,
    pub payload: Seq<u8>,
}

impl View for Reply {
    type V = ReplyView;

    open spec fn view(&self) -> ReplyView {
        ReplyView { seq: self.seq, op: self.op, status: self.status, payload: self.payload@ }
    }
}

/// The PROGRESS frame of request `seq`: `done` of `total` bytes of operation `op`.
pub open spec fn progress_view(seq: u8, op: u8, done: u32, total: u32) -> ReplyView {
    ReplyView {
        seq,
        op: OP_PROGRESS,
        status: STATUS_OK,
        payload: seq![op] + u32_bytes(done) + u32_bytes(total),
    }
}

/// The frame that ends request `seq` of operation `op` with `status` and no payload.
pub open spec fn status_view(seq: u8, op: u8, status: u8) -> ReplyView {
    ReplyView { seq, op, status, payload: Seq::empty() }
}

/// The progress report that a long operation sends: `done` of `total` bytes.
pub fn progress_reply(seq: u8, op: u8, done: u32, total: u32) -> (r: Reply)
    ensures
        r@ == progress_view(seq, op, done, total),
{
    let p = progress_payload(op, done, total);
    let mut payload: Vec<u8> = Vec::new();
    payload.extend_from_slice(&p);
    assert(payload@ =~= p@);
    Reply { seq, op: OP_PROGRESS, status: STATUS_OK, payload }
}

/// A frame that ends a request with `status` and no payload.
pub fn status_reply(seq: u8, op: u8, status: u8) -> (r: Reply)
    ensures
        r@ == status_view(seq, op, status),
{
    let payload: Vec<u8> = Vec::new();
    assert(payload@ =~= Seq::<u8>::empty());
    Reply { seq, op, status, payload }
}

/// The text of the debug message sent for a received frame that is not one.
pub open spec fn bad_frame_text() -> Seq<u8> {
    seq![0x62u8, 0x61, 0x64, 0x20, 0x66, 0x72, 0x61, 0x6d, 0x65, 0x20, 0x68, 0x65, 0x61, 0x64, 0x65, 0x72]
}

/// What the stage sends for `StageAction::BadFrame`, in order: the debug message
/// "bad frame header", then a READY with the bad-frame status; both with sequence 0.
pub fn bad_frame_replies() -> (r: Vec<Reply>)
    ensures
        r@.len() == 2,
        r@[0].seq == 0 && r@[0].op == OP_DEBUG_PRINT && r@[0].status == STATUS_OK
            && r@[0].payload@ == bad_frame_text(),
        r@[1].seq == 0 && r@[1].op == OP_READY && r@[1].status == STATUS_BAD_FRAME
            && r@[1].payload@ == Seq::<u8>::empty(),
{
    let text: Vec<u8> = vec![
        0x62u8, 0x61, 0x64, 0x20, 0x66, 0x72, 0x61, 0x6d, 0x65, 0x20, 0x68, 0x65, 0x61, 0x64, 0x65, 0x72,
    ];
    assert(text@ =~= bad_frame_text());
    let mut r: Vec<Reply> = Vec::new();
    r.push(Reply { seq: 0, op: OP_DEBUG_PRINT, status: STATUS_OK, payload: text });
    r.push(Reply { seq: 0, op: OP_READY, status: STATUS_BAD_FRAME, payload: Vec::new() });
    r
}

/// The text of the debug message sent when received bytes break the framing.
pub open spec fn decode_error_text() -> Seq<u8> {
    seq![0x73u8, 0x6c, 0x69, 0x70, 0x20, 0x64, 0x65, 0x63, 0x6f, 0x64, 0x65, 0x20, 0x65, 0x72, 0x72, 0x6f, 0x72]
}

/// What the stage sends when received bytes break the framing (`ByteEvent::DecodeError`),
/// in order: the debug message "slip decode error", then a READY with the bad-frame
/// status; both with sequence 0.
pub fn decode_error_replies() -> (r: Vec<Reply>)
    ensures
        r@.len() == 2,
        r@[0].seq == 0 && r@[0].op == OP_DEBUG_PRINT && r@[0].status == STATUS_OK
            && r@[0].payload@ == decode_error_text(),
        r@[1].seq == 0 && r@[1].op == OP_READY && r@[1].status == STATUS_BAD_FRAME
            && r@[1].payload@ == Seq::<u8>::empty(),
{
    let text: Vec<u8> = vec![
        0x73u8, 0x6c, 0x69, 0x70, 0x20, 0x64, 0x65, 0x63, 0x6f, 0x64, 0x65, 0x20, 0x65, 0x72, 0x72, 0x6f, 0x72,
    ];
    assert(text@ =~= decode_error_text());
    let mut r: Vec<Reply> = Vec::new();
    r.push(Reply { seq: 0, op: OP_DEBUG_PRINT, status: STATUS_OK, payload: text });
    r.push(Reply { seq: 0, op: OP_READY, status: STATUS_BAD_FRAME, payload: Vec::new() });
    r
}

/// What the stage sends for `StageAction::Info`: the device information of the
/// Gateway DK with the flash's JEDEC id, status OK.
pub fn info_reply(seq: u8, op: u8, jedec_id: u32) -> (r: Reply)
    ensures
        r.seq == seq,
        r.op == op,
        r.status == STATUS_OK,
        r.payload@ == info_bytes(spec_gateway_dk(jedec_id)),
{
    let info = DeviceInfo::gateway_dk(jedec_id);
    let mut buf = [0u8; 22];
    let res = info.encode(&mut buf);
    proof {
        assert(buf@ =~= info_bytes(spec_gateway_dk(jedec_id)));
    }
    let mut payload: Vec<u8> = Vec::new();
    payload.extend_from_slice(&buf);
    assert(payload@ =~= buf@);
    Reply { seq, op, status: STATUS_OK, payload }
}

/// What the stage sends for `StageAction::Read` once it has read `data` from flash:
/// the offset, little-endian, then the data; status OK.
pub fn read_reply(seq: u8, offset: u32, data: &[u8]) -> (r: Reply)
    ensures
        r.seq == seq,
        r.op == OP_READ,
        r.status == STATUS_OK,
        r.payload@ == u32_bytes(offset) + data@,
{
    let mut head = [0u8; 4];
    put_u32(&mut head, 0, offset);
    assert(head@ =~= u32_bytes(offset));
    let mut payload: Vec<u8> = Vec::new();
    payload.extend_from_slice(&head);
    payload.extend_from_slice(data);
    assert(payload@ =~= u32_bytes(offset) + data@);
    Reply { seq, op: OP_READ, status: STATUS_OK, payload }
}

/// The sectors that an erase erases from `current` on, each paired with the bytes
/// reported done after it.
pub open spec fn erase_trace(offset: u32, len: u32, current: int) -> Seq<(u32, u32)>
    decreases offset + len + 65536 - current,
{
    if current < offset + len {
        seq![(current as u32, (current + 65536 - offset) as u32)] + erase_trace(offset, len, current + 65536)
    } else {
        Seq::empty()
    }
}

proof fn lemma_erase_trace_from(offset: u32, len: u32, k: int)
    requires
        offset + len <= GATEWAY_DK_FLASH_SIZE,
        len % 65536 == 0,
        0 <= k <= len / 65536,
    ensures
        erase_trace(offset, len, offset + 65536 * k) == Seq::new(
            (len / 65536 - k) as nat,
            |j: int| ((offset + 65536 * (k + j)) as u32, (65536 * (k + j + 1)) as u32),
        ),
    decreases len / 65536 - k,
{
    let want = Seq::new(
        (len / 65536 - k) as nat,
        |j: int| ((offset + 65536 * (k + j)) as u32, (65536 * (k + j + 1)) as u32),
    );
    if k < len / 65536 {
        lemma_erase_trace_from(offset, len, k + 1);
        assert(offset + 65536 * k + 65536 == offset + 65536 * (k + 1));
        let rest = Seq::new(
            (len / 65536 - (k + 1)) as nat,
            |j: int| ((offset + 65536 * (k + 1 + j)) as u32, (65536 * (k + 1 + j + 1)) as u32),
        );
        assert(offset + 65536 * k < offset + len) by (nonlinear_arith)
            requires
                k < len / 65536,
                len % 65536 == 0,
        ;
        assert forall|j: int| 0 <= j < want.len() implies #[trigger] want[j] == (seq![(
            (offset + 65536 * k) as u32,
            (offset + 65536 * k + 65536 - offset) as u32,
        )] + rest)[j] by {
            if j > 0 {
                assert(k + 1 + (j - 1) == k + j);
            }
        }
        assert(want =~= seq![((offset + 65536 * k) as u32, (offset + 65536 * k + 65536 - offset) as u32)] + rest);
    } else {
        assert(offset + 65536 * k >= offset + len) by (nonlinear_arith)
            requires
                k == len / 65536,
                len % 65536 == 0,
        ;
        assert(want =~= Seq::<(u32, u32)>::empty());
    }
}

/// An accepted erase erases the sectors `offset`, `offset + 64 KiB`, ... up to the
/// last one before `offset + len`, in ascending order, and after the `k`-th of them
/// reports `64 KiB * (k + 1)` bytes done; the last report is `len`. (Before the first
/// sector it reports 0.)
pub proof fn lemma_erase_schedule(offset: u32, len: u32)
    requires
        offset % 65536 == 0,
        0 < len,
        len % 65536 == 0,
        offset + len <= GATEWAY_DK_FLASH_SIZE,
    ensures
        erase_trace(offset, len, offset as int) == Seq::new(
            (len / 65536) as nat,
            |j: int| ((offset + 65536 * j) as u32, (65536 * (j + 1)) as u32),
        ),
        erase_trace(offset, len, offset as int).len() > 0,
        erase_trace(offset, len, offset as int).last().1 == len,
{
    lemma_erase_trace_from(offset, len, 0);
    assert(erase_trace(offset, len, offset as int) =~= Seq::new(
        (len / 65536) as nat,
        |j: int| ((offset + 65536 * j) as u32, (65536 * (j + 1)) as u32),
    ));
    assert(65536 * (len / 65536 - 1 + 1) == len) by (nonlinear_arith)
        requires
            len % 65536 == 0,
            0 < len,
    ;
}

/// The frames that an accepted erase sends when every sector erases: the report of 0
/// bytes done, the report after each sector (in the order of `erase_trace`), then OK.
pub open spec fn erase_frames(seq: u8, offset: u32, len: u32) -> Seq<ReplyView> {
    seq![progress_view(seq, OP_ERASE, 0, len)] + erase_trace(offset, len, offset as int).map_values(
        |e: (u32, u32)| progress_view(seq, OP_ERASE, e.1, len),
    ) + seq![status_view(seq, OP_ERASE, STATUS_OK)]
}

/// The frames of an accepted erase of `len` bytes: `len / 64 KiB + 1` progress reports
/// with 0, 64 KiB, ... `len` bytes done, then OK.
pub proof fn lemma_erase_frames(seq: u8, offset: u32, len: u32)
    requires
        offset % 65536 == 0,
        0 < len,
        len % 65536 == 0,
        offset + len <= GATEWAY_DK_FLASH_SIZE,
    ensures
        erase_frames(seq, offset, len) == Seq::new(
            (len / 65536 + 1) as nat,
            |j: int| progress_view(seq, OP_ERASE, (65536 * j) as u32, len),
        ).push(status_view(seq, OP_ERASE, STATUS_OK)),
        erase_frames(seq, offset, len)[(len / 65536) as int] == progress_view(seq, OP_ERASE, len, len),
{
    lemma_erase_schedule(offset, len);
    let want = Seq::new(
        (len / 65536 + 1) as nat,
        |j: int| progress_view(seq, OP_ERASE, (65536 * j) as u32, len),
    );
    let t = erase_trace(offset, len, offset as int);
    let m = t.map_values(|e: (u32, u32)| progress_view(seq, OP_ERASE, e.1, len));
    assert forall|j: int| 0 <= j < want.len() implies #[trigger] want[j] == (seq![progress_view(seq, OP_ERASE, 0, len)] + m)[j] by {
        if j > 0 {
            assert(m[j - 1] == progress_view(seq, OP_ERASE, t[j - 1].1, len));
            assert(65536 * (j - 1 + 1) == 65536 * j);
        }
    }
    assert(want =~= seq![progress_view(seq, OP_ERASE, 0, len)] + m);
    assert(erase_frames(seq, offset, len) =~= want.push(status_view(seq, OP_ERASE, STATUS_OK)));
    assert(65536 * (len / 65536) == len) by (nonlinear_arith)
        requires
            len % 65536 == 0,
    ;
}

/// One sector of an erase: the offset of the next sector and the bytes erased so far.
pub fn erase_step(offset: u32, len: u32, current: u32) -> (r: (u32, u32))
    requires
        offset <= current < offset + len,
        offset + len <= GATEWAY_DK_FLASH_SIZE,
        (current - offset) % 65536 == 0,
        len % 65536 == 0,
    ensures
        r.0 == current + GATEWAY_DK_FLASH_ERASE_SIZE,
        r.1 == r.0 - offset,
        r.0 <= offset + len,
        (r.0 - offset) % 65536 == 0,
        erase_trace(offset, len, current as int) == seq![(current, r.1)] + erase_trace(
            offset,
            len,
            r.0 as int,
        ),
{
    assert((current - offset) + GATEWAY_DK_FLASH_ERASE_SIZE <= len) by (nonlinear_arith)
        requires
            (current - offset) % 65536 == 0,
            len % 65536 == 0,
            current - offset < len,
    ;
    let next = current + GATEWAY_DK_FLASH_ERASE_SIZE;
    (next, next - offset)
}

/// The size of the next piece of a CRC32 computation that is at `current` of `end`.
pub fn crc_chunk(current: u32, end: u32) -> (r: usize)
    requires
        current < end,
    ensures
        r == (if end - current < MAX_DATA_LEN { end - current } else { MAX_DATA_LEN as int }),
        0 < r <= MAX_DATA_LEN,
{
    min_usize(MAX_DATA_LEN, (end - current) as usize)
}

/// Whether a CRC32 computation reports progress after `done` of `len` bytes, the
/// last report having been at `last`: at the end, and every 64 KiB.
pub fn crc_progress_due(done: u32, len: u32, last: u32) -> (r: bool)
    requires
        last <= done,
    ensures
        r == (done == len || done - last >= GATEWAY_DK_FLASH_ERASE_SIZE),
{
    done == len || done - last >= GATEWAY_DK_FLASH_ERASE_SIZE
}

/// One piece of a CRC32 computation at `current` of `end`: absorbs the piece read
/// from flash there, and gives the new state and where the next piece starts.
pub fn crc_step(state: u32, current: u32, end: u32, piece: &[u8]) -> (r: (u32, u32))
    requires
        current < end,
        piece@.len() == piece_len(MAX_DATA_LEN as nat, current as int, end as int),
    ensures
        r.0 == crc_update(state, piece@),
        r.1 == current + piece@.len(),
        r.1 <= end,
{
    let st = crate::crc::crc32_update_state(state, piece);
    (st, current + piece.len() as u32)
}

/// The payload of the CRC32 reply for a finished computation: the CRC, little-endian.
pub fn crc_reply(seq: u8, state: u32) -> (r: Reply)
    ensures
        r.seq == seq,
        r.op == OP_CRC32,
        r.status == STATUS_OK,
        r.payload@ == u32_bytes(!state),
{
    let mut buf = [0u8; 4];
    put_u32(&mut buf, 0, crate::crc::crc32_finish(state));
    let mut payload: Vec<u8> = Vec::new();
    payload.extend_from_slice(&buf);
    assert(payload@ =~= u32_bytes(!state));
    Reply { seq, op: OP_CRC32, status: STATUS_OK, payload }
}

/// The `done` values of the progress reports of a CRC32 computation of `len` bytes,
/// from `done` on, the last report having been at `last`.
pub open spec fn crc_reports(len: u32, done: int, last: int) -> Seq<u32>
    decreases len + 1 - done,
{
    if done < len {
        let d = done + piece_len(MAX_DATA_LEN as nat, done, len as int);
        if d == len || d - last >= 65536 {
            seq![d as u32] + crc_reports(len, d, d)
        } else {
            crc_reports(len, d, last)
        }
    } else {
        Seq::empty()
    }
}

proof fn lemma_crc_reports_end(len: u32, done: int, last: int)
    requires
        0 <= done < len,
    ensures
        crc_reports(len, done, last).len() > 0,
        crc_reports(len, done, last).last() == len,
    decreases len - done,
{
    let d = done + piece_len(MAX_DATA_LEN as nat, done, len as int);
    if d == len {
        assert(crc_reports(len, d, d) =~= Seq::<u32>::empty());
    } else if d - last >= 65536 {
        lemma_crc_reports_end(len, d, d);
    } else {
        lemma_crc_reports_end(len, d, last);
    }
}

/// An accepted CRC32 of `len` bytes at `offset` of the flash `flash`: absorbing the
/// pieces that `crc_step` takes, from `offset` to the end, gives the CRC state of the
/// whole window. So the frames it sends start with the report of 0 bytes done, their
/// last progress report is `len` (for `len == 0` that is the first one), and the last
/// frame is OK with the CRC32 of the window.
pub proof fn lemma_stage_crc32(seq: u8, flash: Seq<u8>, offset: u32, len: u32)
    requires
        offset + len <= flash.len(),
    ensures
        !crc_chunks(flash, MAX_DATA_LEN as nat, offset as int, offset + len, 0xffff_ffffu32) == spec_crc32(
            flash.subrange(offset as int, offset + len),
        ),
        len > 0 ==> crc_reports(len, 0, 0).len() > 0 && crc_reports(len, 0, 0).last() == len,
        crc_frames(seq, flash, offset, len).last() == crc_done_view(seq, flash, offset, len),
        crc_frames(seq, flash, offset, len)[0] == progress_view(seq, OP_CRC32, 0, len),
        crc_frames(seq, flash, offset, len).drop_last().last() == progress_view(seq, OP_CRC32, len, len),
        crc_done_view(seq, flash, offset, len).payload == u32_bytes(
            spec_crc32(flash.subrange(offset as int, offset + len)),
        ),
{
    lemma_crc_chunks(flash, MAX_DATA_LEN as nat, offset as int, offset + len, 0xffff_ffffu32);
    let f = crc_frames(seq, flash, offset, len);
    let reps = crc_reports(len, 0, 0);
    let m = reps.map_values(|d: u32| progress_view(seq, OP_CRC32, d, len));
    assert(f.drop_last() =~= seq![progress_view(seq, OP_CRC32, 0, len)] + m);
    if len > 0 {
        lemma_crc_reports_end(len, 0, 0);
        assert(m.last() == progress_view(seq, OP_CRC32, reps.last(), len));
    } else {
        assert(reps =~= Seq::<u32>::empty());
    }
}

/// The frame that ends an accepted CRC32 of `len` bytes at `offset` of `flash`.
pub open spec fn crc_done_view(seq: u8, flash: Seq<u8>, offset: u32, len: u32) -> ReplyView {
    ReplyView {
        seq,
        op: OP_CRC32,
        status: STATUS_OK,
        payload: u32_bytes(!crc_chunks(flash, MAX_DATA_LEN as nat, offset as int, offset + len, 0xffff_ffffu32)),
    }
}

/// The frames that an accepted CRC32 sends when every read succeeds: the report of 0
/// bytes done, the reports of `crc_reports`, then the CRC.
pub open spec fn crc_frames(seq: u8, flash: Seq<u8>, offset: u32, len: u32) -> Seq<ReplyView> {
    seq![progress_view(seq, OP_CRC32, 0, len)] + crc_reports(len, 0, 0).map_values(
        |d: u32| progress_view(seq, OP_CRC32, d, len),
    ) + seq![crc_done_view(seq, flash, offset, len)]
}

/// The lower-case hexadecimal digit character of a nibble, as a byte.
pub open spec fn hex_digit_byte(n: u32) -> u8 {
    if n < 10 {
        (n + 0x30) as u8
    } else {
        (n - 10 + 0x61) as u8
    }
}

/// The `i`-th nibble of `value`, most significant first.
pub open spec fn nibble(value: u32, i: int) -> u32 {
    (value >> ((28 - 4 * i) as u32)) & 0x0f
}

/// Writes `value` as eight lower-case hexadecimal digits at the start of `out`.
pub fn write_hex_u32(out: &mut [u8], value: u32)
    requires
        old(out)@.len() >= 8,
    ensures
        final(out)@.len() == old(out)@.len(),
        forall|i: int| 0 <= i < 8 ==> final(out)@[i] == hex_digit_byte(#[trigger] nibble(value, i)),
        forall|i: int| 8 <= i < old(out)@.len() ==> final(out)@[i] == old(out)@[i],
{
    let hex: [u8; 16] = [
        0x30, 0x31, 0x32, 0x33, 0x34, 0x35, 0x36, 0x37, 0x38, 0x39, 0x61, 0x62, 0x63, 0x64, 0x65, 0x66,
    ];
    let mut i: usize = 0;
    while i < 8
        invariant
            i <= 8,
            out@.len() == old(out)@.len(),
            out@.len() >= 8,
            hex@ == seq![0x30u8, 0x31, 0x32, 0x33, 0x34, 0x35, 0x36, 0x37, 0x38, 0x39, 0x61, 0x62, 0x63, 0x64, 0x65, 0x66],
            forall|k: int| 0 <= k < i ==> out@[k] == hex_digit_byte(#[trigger] nibble(value, k)),
            forall|k: int| 8 <= k < old(out)@.len() ==> out@[k] == old(out)@[k],
        decreases 8 - i,
    {
        let shift = 28 - (i as u32 * 4);
        let n = (value >> shift) & 0x0f;
        assert(n < 16) by (bit_vector)
            requires
                n == (value >> shift) & 0x0f,
        ;
        assert(nibble(value, i as int) == n);
        out[i] = hex[n as usize];
        i = i + 1;
    }
}

/// The debug message that reports the flash's JEDEC id: `jedec=0x` and eight digits.
pub fn jedec_message(jedec_id: u32) -> (r: [u8; 16])
    ensures
        r@.take(8) == seq![0x6au8, 0x65, 0x64, 0x65, 0x63, 0x3d, 0x30, 0x78],
        forall|i: int| 0 <= i < 8 ==> r@[8 + i] == hex_digit_byte(#[trigger] nibble(jedec_id, i)),
{
    let mut message = [0x6a, 0x65, 0x64, 0x65, 0x63, 0x3d, 0x30, 0x78, 0, 0, 0, 0, 0, 0, 0, 0];
    let mut digits = [0u8; 8];
    write_hex_u32(&mut digits, jedec_id);
    let mut i: usize = 0;
    while i < 8
        invariant
            i <= 8,
            message@.take(8) == seq![0x6au8, 0x65, 0x64, 0x65, 0x63, 0x3d, 0x30, 0x78],
            forall|k: int| 0 <= k < 8 ==> digits@[k] == hex_digit_byte(#[trigger] nibble(jedec_id, k)),
            forall|k: int| 0 <= k < i ==> message@[8 + k] == digits@[k],
        decreases 8 - i,
    {
        message[8 + i] = digits[i];
        assert(message@.take(8) =~= seq![0x6au8, 0x65, 0x64, 0x65, 0x63, 0x3d, 0x30, 0x78]);
        i = i + 1;
    }
    message
}

/// The stage only touches flash within the Gateway DK's flash: every read, write,
/// erase and CRC32 it accepts lies within it, and erases cover whole sectors.
pub proof fn lemma_stage_stays_in_flash(input: Seq<u8>)
    ensures
        spec_stage_frame(input) matches StageAction::Read { offset, len, .. } ==> offset + len
            <= GATEWAY_DK_FLASH_SIZE && len <= MAX_DATA_LEN,
        spec_stage_frame(input) matches StageAction::Write { offset, from, to, .. } ==> 0 < to - from
            <= MAX_DATA_LEN && offset + (to - from) <= GATEWAY_DK_FLASH_SIZE && to == input.len(),
        spec_stage_frame(input) matches StageAction::Erase { offset, len, .. } ==> offset + len
            <= GATEWAY_DK_FLASH_SIZE && offset % 65536 == 0 && len % 65536 == 0 && len > 0,
        spec_stage_frame(input) matches StageAction::Crc32 { offset, len, .. } ==> offset + len
            <= GATEWAY_DK_FLASH_SIZE,
{
}

} // verus!
