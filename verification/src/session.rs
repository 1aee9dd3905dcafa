//! The host's side of the conversation with a recovery stage: request framing,
//! sequence numbers, how each received frame is handled, the checks on each
//! response, and the planning of the transfers that the commands make.

use vstd::prelude::*;
use crate::error::{AppError, AppErrorG, AppErrorView, result_view};
use crate::protocol::{
    build_frame, frame_bytes, get_u32, le_u32, parse_frame, put_u32, spec_parse_frame, splice,
    u32_bytes, DeviceInfo, Header, ProtocolError, HEADER_LEN, MAX_DATA_LEN, OP_DEBUG_PRINT,
    OP_PROGRESS, OP_READY, PROGRESS_LEN, STATUS_OK,
};
use crate::slip::{slip_encode, slip_encoded_len, slip_frame, lemma_slip_body_len};
use crate::args::Config;
use crate::text::{hex_padded, push_hex};
use vstd::string::StringExecFns;
use crate::baud::{spec_validate_baud, validate_baud};
use crate::ranges::{
    check_range, resolve_length, spec_check_range, spec_resolve_length, LengthArg, RestoreRange,
};

verus! {

// ---------------------------------------------------------------------------
// Requests

/// The sequence number after `seq`: it counts up and skips 0, which the stage
/// uses for unsolicited frames.
pub open spec fn spec_next_seq(seq: u8) -> u8 {
    if seq == 255 {
        1
    } else {
        (seq + 1) as u8
    }
}

pub fn next_seq(seq: u8) -> (r: u8)
    ensures
        r == spec_next_seq(seq),
        r != 0,
{
    let n = seq.wrapping_add(1);
    if n < 1 {
        1
    } else {
        n
    }
}

/// A zero-filled buffer.
fn zeroed(n: usize) -> (r: Vec<u8>)
    ensures
        r@ == Seq::new(n as nat, |i: int| 0u8),
{
    let mut v: Vec<u8> = Vec::new();
    let mut i: usize = 0;
    while i < n
        invariant
            i <= n,
            v@ == Seq::new(i as nat, |k: int| 0u8),
        decreases n - i,
    {
        v.push(0);
        i = i + 1;
        assert(v@ =~= Seq::new(i as nat, |k: int| 0u8));
    }
    v
}

/// The bytes sent on the wire for a request: a frame with the given header fields
/// and payload, SLIP encoded.
pub fn encode_request(seq: u8, op: u8, status: u8, payload: &[u8]) -> (r: Result<Vec<u8>, AppError>)
    requires
        2 * (HEADER_LEN + payload@.len()) + 2 <= usize::MAX,
    ensures
        r matches Ok(v) && v@ == slip_frame(frame_bytes(seq, op, status, payload@)),
{
    let mut frame = zeroed(HEADER_LEN + payload.len());
    let frame_len = match build_frame(frame.as_mut_slice(), seq, op, status, payload) {
        Ok(n) => n,
        Err(e) => return Err(AppErrorG::FrameBuild(e)),
    };
    assert(frame@ =~= frame_bytes(seq, op, status, payload@));
    proof {
        lemma_slip_body_len(frame@);
    }
    let mut slip = zeroed(slip_encoded_len(frame.as_slice()));
    let slip_len = match slip_encode(frame.as_slice(), slip.as_mut_slice()) {
        Ok(n) => n,
        Err(e) => return Err(AppErrorG::SlipEncode(e)),
    };
    assert(slip@ =~= slip_frame(frame_bytes(seq, op, status, payload@)));
    Ok(slip)
}

/// A frame received from the stage.
#[derive(Clone, Debug, PartialEq, Eq)]
pub struct Frame {
    pub seq: u8,
    pub op: u8,
    pub status: u8,
    pub payload: Vec<u8>,
}

/// Parses a decoded frame; `None` when it is not a frame of this protocol.
pub fn parse_host_frame(decoded: &[u8]) -> (r: Option<Frame>)
    ensures
        match (r, spec_parse_frame(decoded@)) {
            (Some(f), Ok((h, p))) => f.seq == h.seq && f.op == h.op && f.status == h.status
                && f.payload@ == p,
            (None, Err(_)) => true,
            _ => false,
        },
{
    match parse_frame(decoded) {
        Ok((header, payload)) => {
            let mut v: Vec<u8> = Vec::new();
            v.extend_from_slice(payload);
            assert(v@ =~= payload@);
            Some(Frame { seq: header.seq, op: header.op, status: header.status, payload: v })
        },
        Err(_) => None,
    }
}

// ---------------------------------------------------------------------------
// Progress reports

/// Tracks the progress reports of one long-running request.
pub struct ProgressDisplay<'a> {
    pub label: &'a str,
    pub expected_op: u8,
    pub total: u32,
    pub shown: bool,
}

impl<'a> ProgressDisplay<'a> {
    pub fn new(label: &'a str, expected_op: u8, total: u32) -> (r: Self)
        ensures
            r.label == label,
            r.expected_op == expected_op,
            r.total == total,
            !r.shown,
    {
        Self { label, expected_op, total, shown: false }
    }
}

/// What a received frame means to a request that tracks progress.
#[derive(Clone, Copy, Debug, PartialEq, Eq, Structural)]
pub enum ProgressEvent {
    /// Not a progress report.
    NotProgress,
    /// A progress report of another operation; it is consumed.
    OtherOp,
    /// A progress report to show: `done` of `total` bytes.
    Show { done: u32, total: u32 },
}

/// How a progress display treats a frame with the given opcode and payload.
pub open spec fn spec_progress(expected_op: u8, total: u32, op: u8, payload: Seq<u8>) -> Result<
    ProgressEvent,
    AppErrorView,
> {
    if op != OP_PROGRESS {
        Ok(ProgressEvent::NotProgress)
    } else if payload.len() < PROGRESS_LEN {
        Err(AppErrorG::ShortProgress)
    } else if payload[0] != expected_op {
        Ok(ProgressEvent::OtherOp)
    } else {
        let done = le_u32(payload, 1) as u32;
        let reported = le_u32(payload, 5) as u32;
        let t = if reported == 0 {
            total
        } else {
            reported
        };
        Ok(ProgressEvent::Show { done: if done < t { done } else { t }, total: t })
    }
}

impl<'a> ProgressDisplay<'a> {
    /// Looks at a received frame; a report to show marks the display as shown.
    pub fn handle(&mut self, frame: &Frame) -> (r: Result<ProgressEvent, AppError>)
        ensures
            result_view(r) == spec_progress(old(self).expected_op, old(self).total, frame.op, frame.payload@),
            final(self).label == old(self).label,
            final(self).expected_op == old(self).expected_op,
            final(self).total == old(self).total,
            final(self).shown == (old(self).shown || r matches Ok(ProgressEvent::Show { .. })),
    {
        if frame.op != OP_PROGRESS {
            return Ok(ProgressEvent::NotProgress);
        }
        if frame.payload.len() < PROGRESS_LEN {
            return Err(AppErrorG::ShortProgress);
        }
        if frame.payload[0] != self.expected_op {
            return Ok(ProgressEvent::OtherOp);
        }
        let done = match get_u32(frame.payload.as_slice(), 1) {
            Ok(v) => v,
            Err(e) => return Err(AppErrorG::BadProgress(e)),
        };
        let total = match get_u32(frame.payload.as_slice(), 5) {
            Ok(v) => v,
            Err(e) => return Err(AppErrorG::BadProgress(e)),
        };
        let total = if total == 0 {
            self.total
        } else {
            total
        };
        let done = if done < total {
            done
        } else {
            total
        };
        self.shown = true;
        Ok(ProgressEvent::Show { done, total })
    }
}

/// The percentage shown for `done` of `total` bytes (100 when there is nothing to do).
pub open spec fn spec_progress_percent(done: u32, total: u32) -> u32 {
    if total == 0 {
        100
    } else {
        ((done * 100) / (total as int)) as u32
    }
}

pub fn progress_percent(done: u32, total: u32) -> (r: u32)
    ensures
        r == spec_progress_percent(done, total),
{
    if total == 0 {
        100
    } else {
        ((done as u64 * 100) / (total as u64)) as u32
    }
}

// ---------------------------------------------------------------------------
// Waiting for a response

/// What to do with a frame received while waiting for the response to request
/// `seq`/`op`.
#[derive(Clone, Copy, Debug, PartialEq, Eq, Structural)]
pub enum RequestAction {
    /// A debug message from the stage: print it and keep waiting.
    DebugPrint,
    /// A progress report of another operation, consumed: keep waiting.
    Consumed,
    /// A progress report to show, `done` of `total` bytes: keep waiting.
    ShowProgress { done: u32, total: u32 },
    /// Not the response: keep waiting.
    Ignore,
    /// The response, with status OK.
    Accept,
}

/// How the request `seq`/`op` treats a received frame, given what its progress
/// display (if it has one) makes of it.
pub open spec fn spec_request_step(
    seq: u8,
    op: u8,
    frame_seq: u8,
    frame_op: u8,
    frame_status: u8,
    progress: Option<Result<ProgressEvent, AppErrorView>>,
) -> Result<RequestAction, AppErrorView> {
    if frame_op == OP_DEBUG_PRINT {
        Ok(RequestAction::DebugPrint)
    } else {
        let consumed: Option<Result<RequestAction, AppErrorView>> = if frame_seq == seq {
            match progress {
                Some(Err(e)) => Some(Err(e)),
                Some(Ok(ProgressEvent::OtherOp)) => Some(Ok(RequestAction::Consumed)),
                Some(Ok(ProgressEvent::Show { done, total })) => Some(
                    Ok(RequestAction::ShowProgress { done, total }),
                ),
                _ => None,
            }
        } else {
            None
        };
        match consumed {
            Some(r) => r,
            None => if frame_seq != seq || frame_op != op {
                Ok(RequestAction::Ignore)
            } else if frame_status != STATUS_OK {
                Err(AppErrorG::Rejected { op, status: frame_status })
            } else {
                Ok(RequestAction::Accept)
            },
        }
    }
}

/// Handles a frame received while waiting for the response to request `seq`/`op`,
/// for a request without progress reports.
pub fn request_step(seq: u8, op: u8, frame: &Frame) -> (r: Result<RequestAction, AppError>)
    ensures
        result_view(r) == spec_request_step(seq, op, frame.seq, frame.op, frame.status, None),
{
    if frame.op == OP_DEBUG_PRINT {
        return Ok(RequestAction::DebugPrint);
    }
    if frame.seq != seq || frame.op != op {
        return Ok(RequestAction::Ignore);
    }
    if frame.status != STATUS_OK {
        return Err(AppErrorG::Rejected { op, status: frame.status });
    }
    Ok(RequestAction::Accept)
}

/// Handles a frame received while waiting for the response to request `seq`/`op`,
/// for a request whose progress reports `progress` tracks.
pub fn request_step_with_progress(seq: u8, op: u8, frame: &Frame, progress: &mut ProgressDisplay) -> (r:
    Result<RequestAction, AppError>)
    ensures
        result_view(r) == spec_request_step(
            seq,
            op,
            frame.seq,
            frame.op,
            frame.status,
            if frame.op != OP_DEBUG_PRINT && frame.seq == seq {
                Some(spec_progress(old(progress).expected_op, old(progress).total, frame.op, frame.payload@))
            } else {
                None
            },
        ),
        final(progress).expected_op == old(progress).expected_op,
        final(progress).total == old(progress).total,
        final(progress).label == old(progress).label,
        final(progress).shown == (old(progress).shown || r matches Ok(RequestAction::ShowProgress { .. })),
{
    if frame.op == OP_DEBUG_PRINT {
        return Ok(RequestAction::DebugPrint);
    }
    if frame.seq == seq {
        match progress.handle(frame)? {
            ProgressEvent::NotProgress => {},
            ProgressEvent::OtherOp => return Ok(RequestAction::Consumed),
            ProgressEvent::Show { done, total } => return Ok(RequestAction::ShowProgress { done, total }),
        }
    }
    if frame.seq != seq || frame.op != op {
        return Ok(RequestAction::Ignore);
    }
    if frame.status != STATUS_OK {
        return Err(AppErrorG::Rejected { op, status: frame.status });
    }
    Ok(RequestAction::Accept)
}

// ---------------------------------------------------------------------------
// Waiting for the stage to be ready

/// What to do with a frame received while waiting for a READY frame.
#[derive(Clone, Copy, Debug, PartialEq, Eq, Structural)]
pub enum ReadyAction {
    /// A debug message from the stage: print it and keep waiting.
    DebugPrint,
    /// The stage is ready.
    Ready,
    /// A READY frame with a status other than OK: report it and keep waiting.
    IgnoredReady(u8),
    /// Anything else: keep waiting.
    Ignore,
}

pub open spec fn spec_ready_action(op: u8, status: u8) -> ReadyAction {
    if op == OP_DEBUG_PRINT {
        ReadyAction::DebugPrint
    } else if op == OP_READY && status == STATUS_OK {
        ReadyAction::Ready
    } else if op == OP_READY {
        ReadyAction::IgnoredReady(status)
    } else {
        ReadyAction::Ignore
    }
}

pub fn ready_action(frame: &Frame) -> (r: ReadyAction)
    ensures
        r == spec_ready_action(frame.op, frame.status),
{
    if frame.op == OP_DEBUG_PRINT {
        ReadyAction::DebugPrint
    } else if frame.op == OP_READY && frame.status == STATUS_OK {
        ReadyAction::Ready
    } else if frame.op == OP_READY {
        ReadyAction::IgnoredReady(frame.status)
    } else {
        ReadyAction::Ignore
    }
}

// ---------------------------------------------------------------------------
// Request payloads and response checks

/// The payload of a READ request: offset and length.
pub fn read_request(offset: u32, len: usize) -> (r: Result<[u8; 6], AppError>)
    ensures
        len > MAX_DATA_LEN ==> (r matches Err(e) && e@ == AppErrorG::<Seq<char>>::ReadTooLarge(len)),
        len <= MAX_DATA_LEN ==> (r matches Ok(p) && p@ == u32_bytes(offset) + crate::protocol::u16_bytes(
            len as u16,
        )),
{
    if len > MAX_DATA_LEN {
        return Err(AppErrorG::ReadTooLarge(len));
    }
    let mut payload = [0u8; 6];
    put_u32(&mut payload, 0, offset);
    crate::protocol::put_u16(&mut payload, 4, len as u16);
    assert(payload@ =~= u32_bytes(offset) + crate::protocol::u16_bytes(len as u16));
    Ok(payload)
}

/// The data of a READ response, which must echo the offset and carry `len` bytes.
pub open spec fn spec_read_response(offset: u32, len: usize, payload: Seq<u8>) -> Result<Seq<u8>, AppErrorView> {
    if payload.len() < 4 {
        Err(AppErrorG::ShortReadResponse)
    } else if le_u32(payload, 0) != offset {
        Err(AppErrorG::ReadOffsetMismatch { requested: offset, got: le_u32(payload, 0) as u32 })
    } else if payload.len() - 4 != len {
        Err(AppErrorG::ReadLengthMismatch { requested: len, got: (payload.len() - 4) as usize })
    } else {
        Ok(payload.skip(4))
    }
}

pub fn check_read_response(offset: u32, len: usize, payload: &[u8]) -> (r: Result<Vec<u8>, AppError>)
    ensures
        crate::error::vec_result_view(r) == spec_read_response(offset, len, payload@),
{
    if payload.len() < 4 {
        return Err(AppErrorG::ShortReadResponse);
    }
    let response_offset = match get_u32(payload, 0) {
        Ok(v) => v,
        Err(e) => return Err(AppErrorG::BadReadResponse(e)),
    };
    if response_offset != offset {
        return Err(AppErrorG::ReadOffsetMismatch { requested: offset, got: response_offset });
    }
    let mut data: Vec<u8> = Vec::new();
    data.extend_from_slice(vstd::slice::slice_subrange(payload, 4, payload.len()));
    assert(data@ =~= payload@.skip(4));
    if data.len() != len {
        return Err(AppErrorG::ReadLengthMismatch { requested: len, got: data.len() });
    }
    Ok(data)
}

/// The payload of a WRITE request: offset, then the data.
pub fn write_request(offset: u32, data: &[u8]) -> (r: Result<Vec<u8>, AppError>)
    ensures
        data@.len() > MAX_DATA_LEN ==> (r matches Err(e) && e@ == AppErrorG::<Seq<char>>::WriteTooLarge(
            data@.len() as usize,
        )),
        data@.len() <= MAX_DATA_LEN ==> (r matches Ok(p) && p@ == u32_bytes(offset) + data@),
{
    if data.len() > MAX_DATA_LEN {
        return Err(AppErrorG::WriteTooLarge(data.len()));
    }
    let mut payload = zeroed(4);
    put_u32(payload.as_mut_slice(), 0, offset);
    let ghost head = payload@;
    payload.extend_from_slice(data);
    assert(payload@ =~= u32_bytes(offset) + data@);
    Ok(payload)
}

/// The payload of an ERASE or CRC32 request: offset and length.
pub fn range_request(offset: u32, len: u32) -> (r: [u8; 8])
    ensures
        r@ == u32_bytes(offset) + u32_bytes(len),
{
    let mut payload = [0u8; 8];
    put_u32(&mut payload, 0, offset);
    put_u32(&mut payload, 4, len);
    assert(payload@ =~= u32_bytes(offset) + u32_bytes(len));
    payload
}

/// The value of a CRC32 response.
pub fn crc_response(payload: &[u8]) -> (r: Result<u32, AppError>)
    ensures
        payload@.len() >= 4 ==> r == Ok::<u32, AppError>(le_u32(payload@, 0) as u32),
        payload@.len() < 4 ==> (r matches Err(e) && e@ == AppErrorG::<Seq<char>>::BadCrcResponse(
            ProtocolError::Short,
        )),
{
    match get_u32(payload, 0) {
        Ok(v) => Ok(v),
        Err(e) => Err(AppErrorG::BadCrcResponse(e)),
    }
}

/// The device information of an INFO response.
pub fn info_response(payload: &[u8]) -> (r: Result<DeviceInfo, AppError>)
    ensures
        payload@.len() >= 22 ==> r == Ok::<DeviceInfo, AppError>(crate::protocol::spec_decode_info(payload@)),
        payload@.len() < 22 ==> (r matches Err(e) && e@ == AppErrorG::<Seq<char>>::BadInfoResponse(
            ProtocolError::Short,
        )),
{
    match DeviceInfo::decode(payload) {
        Ok(info) => Ok(info),
        Err(e) => Err(AppErrorG::BadInfoResponse(e)),
    }
}

/// The stage must echo the UART configuration that it was sent.
pub fn check_uart_echo(baud: u32, config: &[u8], payload: &[u8]) -> (r: Result<(), AppError>)
    ensures
        payload@ == config@ ==> r is Ok,
        payload@ != config@ ==> (r matches Err(e) && e@ == AppErrorG::<Seq<char>>::UartEchoMismatch(baud)),
{
    if payload.len() != config.len() {
        return Err(AppErrorG::UartEchoMismatch(baud));
    }
    let mut i: usize = 0;
    while i < config.len()
        invariant
            payload@.len() == config@.len(),
            i <= config@.len(),
            forall|k: int| 0 <= k < i ==> payload@[k] == config@[k],
        decreases config@.len() - i,
    {
        if payload[i] != config[i] {
            return Err(AppErrorG::UartEchoMismatch(baud));
        }
        i = i + 1;
    }
    assert(payload@ =~= config@);
    Ok(())
}

// ---------------------------------------------------------------------------
// Loading the recovery stage

/// The payload of the LOAD_BEGIN request for an image of `len` bytes; the image must
/// be non-empty and fit the stage's load area.
pub fn stage1_begin_payload(len: usize) -> (r: Result<[u8; 12], AppError>)
    ensures
        len == 0 ==> (r matches Err(e) && e@ == AppErrorG::<Seq<char>>::Stage1Empty),
        len > crate::protocol::STAGE1_MAX_LEN ==> (r matches Err(e) && e@
            == AppErrorG::<Seq<char>>::Stage1TooLarge(len)),
        0 < len <= crate::protocol::STAGE1_MAX_LEN ==> (r matches Ok(p) && p@ == u32_bytes(
            crate::protocol::STAGE1_LOAD_ADDR,
        ) + u32_bytes(len as u32) + u32_bytes(crate::protocol::STAGE1_ENTRY_ADDR)),
{
    if len == 0 {
        return Err(AppErrorG::Stage1Empty);
    }
    if len > crate::protocol::STAGE1_MAX_LEN as usize {
        return Err(AppErrorG::Stage1TooLarge(len));
    }
    let mut begin = [0u8; 12];
    put_u32(&mut begin, 0, crate::protocol::STAGE1_LOAD_ADDR);
    put_u32(&mut begin, 4, len as u32);
    put_u32(&mut begin, 8, crate::protocol::STAGE1_ENTRY_ADDR);
    assert(begin@ =~= u32_bytes(crate::protocol::STAGE1_LOAD_ADDR) + u32_bytes(len as u32) + u32_bytes(
        crate::protocol::STAGE1_ENTRY_ADDR,
    ));
    Ok(begin)
}

/// Stage images of two known older builds lack progress reports; loading one is
/// warned about.
pub fn stage1_age_warning(len: usize) -> (r: Option<&'static str>)
    ensures
        len == 6418 ==> (r matches Some(w) && w@ == "warning: this stage1 image predates erase/CRC32 progress reporting; rebuild it with ./build-stub.sh or pass --stage1 to the current image"@),
        len == 6578 ==> (r matches Some(w) && w@ == "warning: this stage1 image predates CRC32 progress reporting; rebuild it with ./build-stub.sh or pass --stage1 to the current image"@),
        len != 6418 && len != 6578 ==> r is None,
{
    if len == 6418 {
        Some("warning: this stage1 image predates erase/CRC32 progress reporting; rebuild it with ./build-stub.sh or pass --stage1 to the current image")
    } else if len == 6578 {
        Some("warning: this stage1 image predates CRC32 progress reporting; rebuild it with ./build-stub.sh or pass --stage1 to the current image")
    } else {
        None
    }
}

/// The size of the chunk that starts at `offset` of a transfer of `total` bytes.
pub open spec fn spec_chunk_len(total: int, offset: int, chunk: int) -> int {
    if total - offset < chunk {
        total - offset
    } else {
        chunk
    }
}

/// The LOAD_CHUNK payload for the part of the stage image at `offset`, and the offset
/// of the next chunk.
pub fn stage1_chunk(image: &[u8], offset: usize) -> (r: (Vec<u8>, usize))
    requires
        offset < image@.len() <= crate::protocol::STAGE1_MAX_LEN,
    ensures
        r.1 == offset + spec_chunk_len(image@.len() as int, offset as int, MAX_DATA_LEN as int),
        offset < r.1 <= image@.len(),
        r.0@ == u32_bytes(offset as u32) + image@.subrange(offset as int, r.1 as int),
{
    let remaining = image.len() - offset;
    let chunk_len = if remaining < MAX_DATA_LEN {
        remaining
    } else {
        MAX_DATA_LEN
    };
    let mut payload = zeroed(4);
    put_u32(payload.as_mut_slice(), 0, offset as u32);
    payload.extend_from_slice(vstd::slice::slice_subrange(image, offset, offset + chunk_len));
    assert(payload@ =~= u32_bytes(offset as u32) + image@.subrange(offset as int, (offset + chunk_len) as int));
    (payload, offset + chunk_len)
}

// ---------------------------------------------------------------------------
// Transfers

/// The chunk size for transfers: the device's limit, kept within 1..=1024.
pub open spec fn spec_chunk_size(max_data: u16) -> usize {
    if max_data < 1 {
        1
    } else if max_data > MAX_DATA_LEN {
        MAX_DATA_LEN
    } else {
        max_data as usize
    }
}

pub fn chunk_size(max_data: u16) -> (r: usize)
    ensures
        r == spec_chunk_size(max_data),
        1 <= r <= MAX_DATA_LEN,
{
    let m = max_data as usize;
    if m < 1 {
        1
    } else if m > MAX_DATA_LEN {
        MAX_DATA_LEN
    } else {
        m
    }
}

/// The length of the next chunk of a transfer of `total` bytes of which `done` are done.
pub fn next_chunk_len(total: u32, done: u32, chunk: usize) -> (r: u32)
    requires
        done < total,
        1 <= chunk <= MAX_DATA_LEN,
    ensures
        r == spec_chunk_len(total as int, done as int, chunk as int),
        0 < r <= total - done,
        r <= chunk,
{
    let remaining = total - done;
    if (remaining as usize) < chunk {
        remaining
    } else {
        chunk as u32
    }
}

/// The image length as the protocol carries it: at most 32 bits.
pub fn input_len_u32(file_len: u64) -> (r: Result<u32, AppError>)
    ensures
        file_len > u32::MAX ==> (r matches Err(e) && e@ == AppErrorG::<Seq<char>>::InputTooLarge),
        file_len <= u32::MAX ==> r == Ok::<u32, AppError>(file_len as u32),
{
    if file_len > u32::MAX as u64 {
        return Err(AppErrorG::InputTooLarge);
    }
    Ok(file_len as u32)
}

// ---------------------------------------------------------------------------
// Command plans

/// `backup`: the number of bytes to read, which must lie within the flash.
pub open spec fn spec_backup_plan(info: DeviceInfo, offset: u32, length: LengthArg) -> Result<u32, AppErrorView> {
    let len = spec_resolve_length(info, length);
    match spec_check_range(info.flash_size, offset, len) {
        Err(e) => Err(e),
        Ok(_) => Ok(len),
    }
}

pub fn backup_plan(info: &DeviceInfo, offset: u32, length: LengthArg) -> (r: Result<u32, AppError>)
    ensures
        result_view(r) == spec_backup_plan(*info, offset, length),
        r matches Ok(len) ==> offset + len <= info.flash_size,
{
    let len = resolve_length(info, length)?;
    check_range(info.flash_size, offset, len)?;
    Ok(len)
}

/// `erase`: the number of bytes to erase, which must lie within the flash and cover
/// whole erase sectors.
pub open spec fn spec_erase_plan(info: DeviceInfo, offset: u32, length: LengthArg) -> Result<u32, AppErrorView> {
    let len = spec_resolve_length(info, length);
    match spec_check_range(info.flash_size, offset, len) {
        Err(e) => Err(e),
        Ok(_) => if offset % info.erase_size != 0 {
            Err(AppErrorG::EraseUnaligned { offset, erase_size: info.erase_size })
        } else if len == 0 || len % info.erase_size != 0 {
            Err(AppErrorG::EraseLength { len, erase_size: info.erase_size })
        } else {
            Ok(len)
        },
    }
}

pub fn erase_plan(info: &DeviceInfo, offset: u32, length: LengthArg) -> (r: Result<u32, AppError>)
    requires
        info.erase_size > 0 || spec_check_range(info.flash_size, offset, spec_resolve_length(*info, length)) is Err,
    ensures
        result_view(r) == spec_erase_plan(*info, offset, length),
{
    let len = resolve_length(info, length)?;
    check_range(info.flash_size, offset, len)?;
    if offset % info.erase_size != 0 {
        return Err(AppErrorG::EraseUnaligned { offset, erase_size: info.erase_size });
    }
    if len == 0 || len % info.erase_size != 0 {
        return Err(AppErrorG::EraseLength { len, erase_size: info.erase_size });
    }
    Ok(len)
}

/// `restore`: the bytes written over all ranges, which must fit in 32 bits.
pub open spec fn spec_total_write(ranges: Seq<RestoreRange>) -> int
    decreases ranges.len(),
{
    if ranges.len() == 0 {
        0
    } else {
        spec_total_write(ranges.drop_last()) + ranges.last().write_len
    }
}

proof fn lemma_total_write_monotone(ranges: Seq<RestoreRange>, k: int)
    requires
        0 <= k <= ranges.len(),
    ensures
        spec_total_write(ranges.take(k)) <= spec_total_write(ranges),
    decreases ranges.len() - k,
{
    if k < ranges.len() {
        assert(ranges.take(k + 1).drop_last() =~= ranges.take(k));
        lemma_total_write_monotone(ranges, k + 1);
    } else {
        assert(ranges.take(k) =~= ranges);
    }
}

pub fn total_write(ranges: &Vec<RestoreRange>) -> (r: Result<u32, AppError>)
    ensures
        spec_total_write(ranges@) > u32::MAX ==> (r matches Err(e) && e@ == AppErrorG::<Seq<char>>::RestoreTooLarge),
        spec_total_write(ranges@) <= u32::MAX ==> r == Ok::<u32, AppError>(spec_total_write(ranges@) as u32),
{
    let mut total: u32 = 0;
    let mut i: usize = 0;
    while i < ranges.len()
        invariant
            i <= ranges@.len(),
            total == spec_total_write(ranges@.take(i as int)),
        decreases ranges@.len() - i,
    {
        proof {
            assert(ranges@.take(i + 1).drop_last() =~= ranges@.take(i as int));
            lemma_total_write_monotone(ranges@, i + 1);
        }
        total = match total.checked_add(ranges[i].write_len) {
            Some(t) => t,
            None => return Err(AppErrorG::RestoreTooLarge),
        };
        i = i + 1;
    }
    assert(ranges@.take(i as int) =~= ranges@);
    Ok(total)
}

/// `restore` with erasing: a range must start on an erase sector, erase whole sectors
/// and lie within the flash.
pub open spec fn spec_check_erase_range(info: DeviceInfo, range: RestoreRange) -> Result<(), AppErrorView> {
    if range.flash_offset % info.erase_size != 0 {
        Err(AppErrorG::RestoreUnaligned { offset: range.flash_offset, erase_size: info.erase_size })
    } else if range.erase_len == 0 || range.erase_len % info.erase_size != 0 {
        Err(
            AppErrorG::RestoreEraseLength {
                len: range.erase_len,
                offset: range.flash_offset,
                erase_size: info.erase_size,
            },
        )
    } else {
        spec_check_range(info.flash_size, range.flash_offset, range.erase_len)
    }
}

pub fn check_erase_range(info: &DeviceInfo, range: &RestoreRange) -> (r: Result<(), AppError>)
    requires
        info.erase_size > 0,
    ensures
        result_view(r) == spec_check_erase_range(*info, *range),
{
    if range.flash_offset % info.erase_size != 0 {
        return Err(AppErrorG::RestoreUnaligned { offset: range.flash_offset, erase_size: info.erase_size });
    }
    if range.erase_len == 0 || range.erase_len % info.erase_size != 0 {
        return Err(
            AppErrorG::RestoreEraseLength {
                len: range.erase_len,
                offset: range.flash_offset,
                erase_size: info.erase_size,
            },
        );
    }
    check_range(info.flash_size, range.flash_offset, range.erase_len)
}

/// A range written by `restore`, with the CRC32 of what was written to it.
#[derive(Clone, Copy, Debug, PartialEq, Eq, Structural)]
pub struct VerifiedRange {
    pub flash_offset: u32,
    pub len: u32,
    pub expected_crc32: u32,
}

/// The device's CRC32 of a written range must be the host's.
pub fn check_range_crc(range: &VerifiedRange, actual: u32) -> (r: Result<(), AppError>)
    ensures
        actual == range.expected_crc32 ==> r is Ok,
        actual != range.expected_crc32 ==> (r matches Err(e) && e@ == AppErrorG::<Seq<char>>::VerifyFailedAt {
            offset: range.flash_offset,
            expected: range.expected_crc32,
            actual,
        }),
{
    if actual != range.expected_crc32 {
        return Err(
            AppErrorG::VerifyFailedAt { offset: range.flash_offset, expected: range.expected_crc32, actual },
        );
    }
    Ok(())
}

/// `verify`: the device's CRC32 of the flash must be the file's.
pub fn check_file_crc(expected: u32, actual: u32) -> (r: Result<(), AppError>)
    ensures
        actual == expected ==> r is Ok,
        actual != expected ==> (r matches Err(e) && e@ == AppErrorG::<Seq<char>>::VerifyFailed { expected, actual }),
{
    if actual != expected {
        return Err(AppErrorG::VerifyFailed { expected, actual });
    }
    Ok(())
}

// ---------------------------------------------------------------------------
// A run

/// The baud rates of a run must be usable, and the fast one no slower than the first.
pub open spec fn spec_validate_config(baud: u32, fast_uart: bool, fast_baud: u32) -> Result<(), AppErrorView> {
    match spec_validate_baud("--baud"@, baud) {
        Err(e) => Err(e),
        Ok(_) => match spec_validate_baud("--fast-baud"@, fast_baud) {
            Err(e) => Err(e),
            Ok(_) => if fast_uart && fast_baud < baud {
                Err(AppErrorG::FastBaudTooLow { fast_baud, baud })
            } else {
                Ok(())
            },
        },
    }
}

pub fn validate_config(config: &Config) -> (r: Result<(), AppError>)
    ensures
        result_view(r) == spec_validate_config(config.baud, config.fast_uart, config.fast_baud),
{
    validate_baud("--baud", config.baud)?;
    validate_baud("--fast-baud", config.fast_baud)?;
    if config.fast_uart && config.fast_baud < config.baud {
        return Err(AppErrorG::FastBaudTooLow { fast_baud: config.fast_baud, baud: config.baud });
    }
    Ok(())
}

/// Whether the run switches the stage to the fast baud rate.
pub fn switches_uart(config: &Config) -> (r: bool)
    ensures
        r == (config.fast_uart && config.fast_baud != config.baud),
{
    config.fast_uart && config.fast_baud != config.baud
}

// ---------------------------------------------------------------------------
// Hex dump of raw received bytes

/// How a byte is shown in the text column of a hex dump: printable ASCII as itself,
/// anything else as a dot.
pub open spec fn dump_char(b: u8) -> char {
    if 0x20 <= b <= 0x7e {
        b as char
    } else {
        '.'
    }
}

fn dump_char_str(b: u8) -> (r: &'static str)
    ensures
        r@ == seq![dump_char(b)],
{
    proof {
        reveal_strlit(" ");
        reveal_strlit("!");
        reveal_strlit("\"");
        reveal_strlit("#");
        reveal_strlit("$");
        reveal_strlit("%");
        reveal_strlit("&");
        reveal_strlit("'");
        reveal_strlit("(");
        reveal_strlit(")");
        reveal_strlit("*");
        reveal_strlit("+");
        reveal_strlit(",");
        reveal_strlit("-");
        reveal_strlit(".");
        reveal_strlit("/");
        reveal_strlit("0");
        reveal_strlit("1");
        reveal_strlit("2");
        reveal_strlit("3");
        reveal_strlit("4");
        reveal_strlit("5");
        reveal_strlit("6");
        reveal_strlit("7");
        reveal_strlit("8");
        reveal_strlit("9");
        reveal_strlit(":");
        reveal_strlit(";");
        reveal_strlit("<");
        reveal_strlit("=");
        reveal_strlit(">");
        reveal_strlit("?");
        reveal_strlit("@");
        reveal_strlit("A");
        reveal_strlit("B");
        reveal_strlit("C");
        reveal_strlit("D");
        reveal_strlit("E");
        reveal_strlit("F");
        reveal_strlit("G");
        reveal_strlit("H");
        reveal_strlit("I");
        reveal_strlit("J");
        reveal_strlit("K");
        reveal_strlit("L");
        reveal_strlit("M");
        reveal_strlit("N");
        reveal_strlit("O");
        reveal_strlit("P");
        reveal_strlit("Q");
        reveal_strlit("R");
        reveal_strlit("S");
        reveal_strlit("T");
        reveal_strlit("U");
        reveal_strlit("V");
        reveal_strlit("W");
        reveal_strlit("X");
        reveal_strlit("Y");
        reveal_strlit("Z");
        reveal_strlit("[");
        reveal_strlit("\\");
        reveal_strlit("]");
        reveal_strlit("^");
        reveal_strlit("_");
        reveal_strlit("`");
        reveal_strlit("a");
        reveal_strlit("b");
        reveal_strlit("c");
        reveal_strlit("d");
        reveal_strlit("e");
        reveal_strlit("f");
        reveal_strlit("g");
        reveal_strlit("h");
        reveal_strlit("i");
        reveal_strlit("j");
        reveal_strlit("k");
        reveal_strlit("l");
        reveal_strlit("m");
        reveal_strlit("n");
        reveal_strlit("o");
        reveal_strlit("p");
        reveal_strlit("q");
        reveal_strlit("r");
        reveal_strlit("s");
        reveal_strlit("t");
        reveal_strlit("u");
        reveal_strlit("v");
        reveal_strlit("w");
        reveal_strlit("x");
        reveal_strlit("y");
        reveal_strlit("z");
        reveal_strlit("{");
        reveal_strlit("|");
        reveal_strlit("}");
        reveal_strlit("~");
        reveal_strlit(".");
    }
    match b {
        32 => " ",
        33 => "!",
        34 => "\"",
        35 => "#",
        36 => "$",
        37 => "%",
        38 => "&",
        39 => "'",
        40 => "(",
        41 => ")",
        42 => "*",
        43 => "+",
        44 => ",",
        45 => "-",
        46 => ".",
        47 => "/",
        48 => "0",
        49 => "1",
        50 => "2",
        51 => "3",
        52 => "4",
        53 => "5",
        54 => "6",
        55 => "7",
        56 => "8",
        57 => "9",
        58 => ":",
        59 => ";",
        60 => "<",
        61 => "=",
        62 => ">",
        63 => "?",
        64 => "@",
        65 => "A",
        66 => "B",
        67 => "C",
        68 => "D",
        69 => "E",
        70 => "F",
        71 => "G",
        72 => "H",
        73 => "I",
        74 => "J",
        75 => "K",
        76 => "L",
        77 => "M",
        78 => "N",
        79 => "O",
        80 => "P",
        81 => "Q",
        82 => "R",
        83 => "S",
        84 => "T",
        85 => "U",
        86 => "V",
        87 => "W",
        88 => "X",
        89 => "Y",
        90 => "Z",
        91 => "[",
        92 => "\\",
        93 => "]",
        94 => "^",
        95 => "_",
        96 => "`",
        97 => "a",
        98 => "b",
        99 => "c",
        100 => "d",
        101 => "e",
        102 => "f",
        103 => "g",
        104 => "h",
        105 => "i",
        106 => "j",
        107 => "k",
        108 => "l",
        109 => "m",
        110 => "n",
        111 => "o",
        112 => "p",
        113 => "q",
        114 => "r",
        115 => "s",
        116 => "t",
        117 => "u",
        118 => "v",
        119 => "w",
        120 => "x",
        121 => "y",
        122 => "z",
        123 => "{",
        124 => "|",
        125 => "}",
        126 => "~",
        _ => ".",
    }
}

/// The hex column entry for position `i` of a line.
pub open spec fn dump_cell(line: Seq<u8>, i: int) -> Seq<char> {
    (if i < line.len() {
        hex_padded(line[i] as nat, 2) + " "@
    } else {
        "   "@
    }) + (if i == 7 {
        " "@
    } else {
        Seq::empty()
    })
}

/// The hex column entries for the first `k` positions.
pub open spec fn dump_cells(line: Seq<u8>, k: int) -> Seq<char>
    decreases k,
{
    if k <= 0 {
        Seq::empty()
    } else {
        dump_cells(line, k - 1) + dump_cell(line, k - 1)
    }
}

/// The text column of a line.
pub open spec fn dump_text(line: Seq<u8>) -> Seq<char>
    decreases line.len(),
{
    if line.len() == 0 {
        Seq::empty()
    } else {
        dump_text(line.drop_last()).push(dump_char(line.last()))
    }
}

/// One line of a hex dump: offset, sixteen hex columns, and the text column.
pub open spec fn dump_line(offset: nat, line: Seq<u8>) -> Seq<char> {
    hex_padded(offset, 8) + "  "@ + dump_cells(line, 16) + " |"@ + dump_text(line) + "|"@
}

pub fn format_dump_line(offset: usize, line: &[u8]) -> (r: String)
    requires
        line@.len() <= 16,
    ensures
        r@ == dump_line(offset as nat, line@),
{
    let mut out = String::new();
    push_hex(&mut out, offset as u64, 8);
    out.append("  ");
    let mut i: usize = 0;
    let ghost head = out@;
    while i < 16
        invariant
            i <= 16,
            out@ == head + dump_cells(line@, i as int),
        decreases 16 - i,
    {
        let ghost before = out@;
        if i < line.len() {
            push_hex(&mut out, line[i] as u64, 2);
            out.append(" ");
        } else {
            out.append("   ");
        }
        if i == 7 {
            out.append(" ");
        }
        assert(out@ =~= before + dump_cell(line@, i as int));
        i = i + 1;
    }
    out.append(" |");
    let ghost mid = out@;
    let mut j: usize = 0;
    while j < line.len()
        invariant
            j <= line@.len(),
            out@ == mid + dump_text(line@.take(j as int)),
        decreases line@.len() - j,
    {
        out.append(dump_char_str(line[j]));
        proof {
            assert(line@.take(j + 1).drop_last() =~= line@.take(j as int));
        }
        j = j + 1;
    }
    out.append("|");
    assert(line@.take(j as int) =~= line@);
    assert(out@ =~= dump_line(offset as nat, line@));
    out
}

/// What a hex dump holds: the offset of its current line and the bytes in it.
pub struct HexdumpView {
    pub offset: nat,
    pub pending: Seq<u8>,
}

/// Accumulates received bytes into hex-dump lines of sixteen.
pub struct Hexdump {
    offset: usize,
    line: [u8; 16],
    len: usize,
}

impl View for Hexdump {
    type V = HexdumpView;

    closed spec fn view(&self) -> HexdumpView {
        HexdumpView { offset: self.offset as nat, pending: self.line@.take(self.len as int) }
    }
}

impl Hexdump {
    #[verifier::type_invariant]
    spec fn inv(&self) -> bool {
        self.len < 16
    }

    pub fn new() -> (r: Self)
        ensures
            r@.offset == 0,
            r@.pending == Seq::<u8>::empty(),
    {
        let r = Hexdump { offset: 0, line: [0u8; 16], len: 0 };
        assert(r@.pending =~= Seq::<u8>::empty());
        r
    }

    /// The line to print for what is pending, if anything; it starts a new line.
    pub fn flush(&mut self) -> (r: Option<String>)
        requires
            old(self)@.offset + old(self)@.pending.len() <= usize::MAX,
        ensures
            old(self)@.pending.len() == 0 ==> r is None && final(self)@ == old(self)@,
            old(self)@.pending.len() > 0 ==> (r matches Some(s) && s@ == dump_line(
                old(self)@.offset,
                old(self)@.pending,
            )),
            old(self)@.pending.len() > 0 ==> final(self)@.offset == old(self)@.offset
                + old(self)@.pending.len() && final(self)@.pending == Seq::<u8>::empty(),
    {
        proof {
            use_type_invariant(&*self);
        }
        if self.len == 0 {
            return None;
        }
        let s = format_dump_line(self.offset, vstd::slice::slice_subrange(self.line.as_slice(), 0, self.len));
        self.offset = self.offset + self.len;
        self.len = 0;
        assert(self@.pending =~= Seq::<u8>::empty());
        Some(s)
    }

    /// Adds a byte; a line that becomes full is returned, to be printed.
    pub fn push(&mut self, byte: u8) -> (r: Option<String>)
        requires
            old(self)@.offset + old(self)@.pending.len() + 1 <= usize::MAX,
        ensures
            old(self)@.pending.len() + 1 < 16 ==> r is None && final(self)@.offset == old(self)@.offset
                && final(self)@.pending == old(self)@.pending.push(byte),
            old(self)@.pending.len() + 1 == 16 ==> (r matches Some(s) && s@ == dump_line(
                old(self)@.offset,
                old(self)@.pending.push(byte),
            )) && final(self)@.offset == old(self)@.offset + 16 && final(self)@.pending == Seq::<u8>::empty(),
    {
        proof {
            use_type_invariant(&*self);
        }
        let ghost before = self@.pending;
        if self.len + 1 == 16 {
            self.line[self.len] = byte;
            assert(self.line@.take(16) =~= before.push(byte));
            assert(self.line@.take(16) =~= self.line@);
            let sl = self.line.as_slice();
            assert(sl@ == self.line@);
            let s = format_dump_line(self.offset, sl);
            self.offset = self.offset + 16;
            self.len = 0;
            assert(self@.pending =~= Seq::<u8>::empty());
            return Some(s);
        }
        self.line[self.len] = byte;
        self.len = self.len + 1;
        assert(self@.pending =~= before.push(byte));
        None
    }
}

/// The range check accepts exactly the ranges that end within the flash, the end
/// itself included.
pub proof fn lemma_check_range_accepts(flash_size: u32, offset: u32, len: u32)
    ensures
        spec_check_range(flash_size, offset, len) is Ok <==> offset + len <= flash_size,
{
}

/// The erase plan accepts exactly the sector-aligned, non-empty ranges that lie within
/// the flash (up to and including its end), and then erases the requested length.
pub proof fn lemma_erase_plan_accepts(info: DeviceInfo, offset: u32, length: LengthArg)
    requires
        info.erase_size > 0,
    ensures
        ({
            let len = match length {
                LengthArg::Image => info.image_size,
                LengthArg::Full => info.flash_size,
                LengthArg::Bytes(v) => v,
            };
            &&& (offset % info.erase_size == 0 && 0 < len && len % info.erase_size == 0 && offset + len
                <= info.flash_size) ==> spec_erase_plan(info, offset, length) == Ok::<u32, AppErrorView>(len)
            &&& spec_erase_plan(info, offset, length) is Ok ==> (offset % info.erase_size == 0 && 0 < len
                && len % info.erase_size == 0 && offset + len <= info.flash_size)
        }),
{
}

} // verus!
