//! What the recovery stages decide, apart from driving the hardware: turning
//! received bytes into frames, the stage-0 loader's handling of each request,
//! the responses they send, and the UART register values they program.

use vstd::prelude::*;
use crate::protocol::{
    build_frame, frame_bytes, get_u32, le_u32, parse_frame, spec_parse_frame, splice, Header,
    HEADER_LEN, OP_EXEC, OP_HELLO, OP_LOAD_BEGIN, OP_LOAD_CHUNK, OP_READY, OP_RESET, STAGE1_ENTRY_ADDR,
    STAGE1_LOAD_ADDR, STAGE1_MAX_LEN, STATUS_BAD_FRAME, STATUS_BAD_REQUEST, STATUS_OK, STATUS_RANGE,
    STATUS_UNSUPPORTED,
};
use crate::slip::{slip_encode, slip_encoded_len, slip_frame, slip_step, SlipDecoder, SlipState, lemma_slip_body_len};

verus! {

// ---------------------------------------------------------------------------
// Receiving and sending

/// What a received byte amounts to.
#[derive(Clone, Copy, Debug, PartialEq, Eq, Structural)]
pub enum ByteEvent {
    /// Nothing yet.
    Nothing,
    /// A frame is complete: handle `decoder.frame()`, then reset the decoder.
    FrameReady,
    /// The byte broke the framing; the decoder was reset and the stage answers
    /// with a bad-frame READY.
    DecodeError,
}

/// Feeds a received byte to the decoder.
pub fn receive_byte<const N: usize>(decoder: &mut SlipDecoder<N>, byte: u8) -> (r: ByteEvent)
    ensures
        ({
            let (st, res) = slip_step(old(decoder)@, byte, N as nat);
            match res {
                Ok(Some(_)) => r == ByteEvent::FrameReady && final(decoder)@ == st,
                Ok(None) => r == ByteEvent::Nothing && final(decoder)@ == st,
                Err(_) => r == ByteEvent::DecodeError && final(decoder)@ == crate::slip::slip_empty(),
            }
        }),
{
    match decoder.push(byte) {
        Ok(Some(_)) => ByteEvent::FrameReady,
        Ok(None) => ByteEvent::Nothing,
        Err(_) => {
            decoder.reset();
            ByteEvent::DecodeError
        },
    }
}

/// Builds a frame in `frame_buf` and its SLIP encoding in `slip_buf`, returning the
/// number of encoded bytes to send; `None` (nothing to send) when a buffer is too small.
pub fn encode_frame(
    seq: u8,
    op: u8,
    status: u8,
    payload: &[u8],
    frame_buf: &mut [u8],
    slip_buf: &mut [u8],
) -> (r: Option<usize>)
    requires
        payload@.len() <= 0x1000,
    ensures
        ({
            let f = frame_bytes(seq, op, status, payload@);
            &&& r is Some <==> (old(frame_buf)@.len() >= f.len() && old(slip_buf)@.len()
                >= slip_frame(f).len())
            &&& r matches Some(n) ==> n == slip_frame(f).len() && final(slip_buf)@.take(n as int)
                == slip_frame(f)
        }),
{
    let frame_len = match build_frame(frame_buf, seq, op, status, payload) {
        Ok(n) => n,
        Err(_) => return None,
    };
    let frame = vstd::slice::slice_subrange(frame_buf, 0, frame_len);
    assert(frame@ =~= frame_bytes(seq, op, status, payload@));
    proof {
        lemma_slip_body_len(frame@);
    }
    match slip_encode(frame, slip_buf) {
        Ok(n) => {
            assert(slip_buf@.take(n as int) =~= slip_frame(frame@));
            Some(n)
        },
        Err(_) => None,
    }
}

// ---------------------------------------------------------------------------
// The stage-0 loader

/// What the loader knows of the stage-1 image being loaded.
#[derive(Clone, Copy, Debug, PartialEq, Eq, Structural)]
pub struct LoadState {
    pub len: u32,
    pub received: u32,
    pub active: bool,
}

/// The loader's state never claims more than the load area, nor more received than announced.
pub open spec fn load_state_wf(st: LoadState) -> bool {
    st.received <= st.len <= STAGE1_MAX_LEN
}

impl LoadState {
    pub fn new() -> (r: Self)
        ensures
            r == (LoadState { len: 0, received: 0, active: false }),
            load_state_wf(r),
    {
        LoadState { len: 0, received: 0, active: false }
    }
}

/// What the loader does in answer to a frame.
#[derive(Clone, Copy, Debug, PartialEq, Eq, Structural)]
pub enum LoaderAction {
    /// Send a frame with no payload.
    Reply { seq: u8, op: u8, status: u8 },
    /// Copy bytes `from..to` of the received frame to memory at `addr`, then reply OK.
    Store { seq: u8, addr: u32, from: usize, to: usize },
    /// Reply OK, then start the loaded image.
    Exec { seq: u8 },
    /// Reply OK, then stop.
    Reset { seq: u8 },
}

/// LOAD_BEGIN: the image must go to the load address, start at the entry address and
/// fit the load area.
pub open spec fn spec_load_begin(seq: u8, p: Seq<u8>, st: LoadState) -> (LoadState, LoaderAction) {
    if p.len() < 12 {
        (st, LoaderAction::Reply { seq, op: OP_LOAD_BEGIN, status: STATUS_BAD_REQUEST })
    } else {
        let load = le_u32(p, 0);
        let len = le_u32(p, 4);
        let entry = le_u32(p, 8);
        if load != STAGE1_LOAD_ADDR || entry != STAGE1_ENTRY_ADDR || len == 0 || len > STAGE1_MAX_LEN {
            (st, LoaderAction::Reply { seq, op: OP_LOAD_BEGIN, status: STATUS_RANGE })
        } else {
            (
                LoadState { len: len as u32, received: 0, active: true },
                LoaderAction::Reply { seq, op: OP_LOAD_BEGIN, status: STATUS_OK },
            )
        }
    }
}

/// LOAD_CHUNK: the next piece of the image, in order, within the announced length.
/// `base` is where the payload starts in the received frame.
pub open spec fn spec_load_chunk(seq: u8, p: Seq<u8>, base: int, st: LoadState) -> (LoadState, LoaderAction) {
    if p.len() < 4 {
        (st, LoaderAction::Reply { seq, op: OP_LOAD_CHUNK, status: STATUS_BAD_REQUEST })
    } else {
        let offset = le_u32(p, 0);
        let n = p.len() - 4;
        let end = offset + n;
        if end > u32::MAX || !st.active || n == 0 || offset != st.received || end > st.len {
            (st, LoaderAction::Reply { seq, op: OP_LOAD_CHUNK, status: STATUS_RANGE })
        } else {
            (
                LoadState { len: st.len, received: end as u32, active: true },
                LoaderAction::Store {
                    seq,
                    addr: (STAGE1_LOAD_ADDR + offset) as u32,
                    from: (base + 4) as usize,
                    to: (base + p.len()) as usize,
                },
            )
        }
    }
}

/// EXEC: only a completely loaded image is started.
pub open spec fn spec_exec(seq: u8, st: LoadState) -> LoaderAction {
    if !st.active || st.received != st.len {
        LoaderAction::Reply { seq, op: OP_EXEC, status: STATUS_BAD_REQUEST }
    } else {
        LoaderAction::Exec { seq }
    }
}

/// How the loader answers a received frame.
pub open spec fn spec_loader_frame(input: Seq<u8>, st: LoadState) -> (LoadState, LoaderAction) {
    match spec_parse_frame(input) {
        Err(_) => (st, LoaderAction::Reply { seq: 0, op: OP_READY, status: STATUS_BAD_FRAME }),
        Ok((h, p)) => if h.op == OP_HELLO {
            (st, LoaderAction::Reply { seq: 0, op: OP_READY, status: STATUS_OK })
        } else if h.op == OP_LOAD_BEGIN {
            spec_load_begin(h.seq, p, st)
        } else if h.op == OP_LOAD_CHUNK {
            spec_load_chunk(h.seq, p, HEADER_LEN as int, st)
        } else if h.op == OP_EXEC {
            (st, spec_exec(h.seq, st))
        } else if h.op == OP_RESET {
            (st, LoaderAction::Reset { seq: h.seq })
        } else {
            (st, LoaderAction::Reply { seq: h.seq, op: h.op, status: STATUS_UNSUPPORTED })
        },
    }
}

fn handle_load_begin(seq: u8, payload: &[u8], state: &mut LoadState) -> (r: LoaderAction)
    requires
        load_state_wf(*old(state)),
    ensures
        load_state_wf(*final(state)),
        (*final(state), r) == spec_load_begin(seq, payload@, *old(state)),
{
    let (load_addr, len, entry_addr) = match (get_u32(payload, 0), get_u32(payload, 4), get_u32(payload, 8)) {
        (Ok(a), Ok(b), Ok(c)) => (a, b, c),
        _ => return LoaderAction::Reply { seq, op: OP_LOAD_BEGIN, status: STATUS_BAD_REQUEST },
    };
    if load_addr != STAGE1_LOAD_ADDR || entry_addr != STAGE1_ENTRY_ADDR || len == 0 || len > STAGE1_MAX_LEN {
        return LoaderAction::Reply { seq, op: OP_LOAD_BEGIN, status: STATUS_RANGE };
    }
    state.len = len;
    state.received = 0;
    state.active = true;
    LoaderAction::Reply { seq, op: OP_LOAD_BEGIN, status: STATUS_OK }
}

fn handle_load_chunk(seq: u8, payload: &[u8], base: usize, state: &mut LoadState) -> (r: LoaderAction)
    requires
        load_state_wf(*old(state)),
        base + payload@.len() <= usize::MAX,
        payload@.len() <= 0x1_0000,
    ensures
        load_state_wf(*final(state)),
        (*final(state), r) == spec_load_chunk(seq, payload@, base as int, *old(state)),
{
    let offset = match get_u32(payload, 0) {
        Ok(o) => o,
        Err(_) => return LoaderAction::Reply { seq, op: OP_LOAD_CHUNK, status: STATUS_BAD_REQUEST },
    };
    let n = payload.len() - 4;
    let end = match offset.checked_add(n as u32) {
        Some(e) => e,
        None => return LoaderAction::Reply { seq, op: OP_LOAD_CHUNK, status: STATUS_RANGE },
    };
    if !state.active || n == 0 || offset != state.received || end > state.len {
        return LoaderAction::Reply { seq, op: OP_LOAD_CHUNK, status: STATUS_RANGE };
    }
    state.received = end;
    LoaderAction::Store { seq, addr: STAGE1_LOAD_ADDR + offset, from: base + 4, to: base + payload.len() }
}

fn handle_exec(seq: u8, state: &LoadState) -> (r: LoaderAction)
    ensures
        r == spec_exec(seq, *state),
{
    if !state.active || state.received != state.len {
        return LoaderAction::Reply { seq, op: OP_EXEC, status: STATUS_BAD_REQUEST };
    }
    LoaderAction::Exec { seq }
}

/// The loader's answer to a received frame.
pub fn loader_handle_frame(input: &[u8], state: &mut LoadState) -> (r: LoaderAction)
    requires
        load_state_wf(*old(state)),
        input@.len() <= 0x1_0000,
    ensures
        load_state_wf(*final(state)),
        (*final(state), r) == spec_loader_frame(input@, *old(state)),
{
    let (header, payload) = match parse_frame(input) {
        Ok(x) => x,
        Err(_) => return LoaderAction::Reply { seq: 0, op: OP_READY, status: STATUS_BAD_FRAME },
    };
    if header.op == OP_HELLO {
        LoaderAction::Reply { seq: 0, op: OP_READY, status: STATUS_OK }
    } else if header.op == OP_LOAD_BEGIN {
        handle_load_begin(header.seq, payload, state)
    } else if header.op == OP_LOAD_CHUNK {
        handle_load_chunk(header.seq, payload, HEADER_LEN, state)
    } else if header.op == OP_EXEC {
        handle_exec(header.seq, state)
    } else if header.op == OP_RESET {
        LoaderAction::Reset { seq: header.seq }
    } else {
        LoaderAction::Reply { seq: header.seq, op: header.op, status: STATUS_UNSUPPORTED }
    }
}

// ---------------------------------------------------------------------------
// UART and timing

pub const UART_RBR: usize = 0;
pub const UART_THR: usize = 0;
pub const UART_DLL: usize = 0;
pub const UART_DLM: usize = 1;
pub const UART_IER: usize = 1;
pub const UART_FCR: usize = 2;
pub const UART_LCR: usize = 3;
pub const UART_MCR: usize = 4;
pub const UART_LSR: usize = 5;
pub const UART_LCR_DLAB: u8 = 0x80;
pub const UART_LSR_DR: u8 = 0x01;
pub const UART_LSR_THRE: u8 = 0x20;
pub const UART_LSR_TEMT: u8 = 0x40;
pub const DEFAULT_UART_DLL: u8 = 0xa3;
pub const DEFAULT_UART_DLM: u8 = 0x00;
pub const STUB_READY_INTERVAL: u32 = 250_000;
pub const CACHE_LINE_SIZE: u32 = 64;

/// The register writes that configure the UART, in order: interrupts off, open the
/// divisor latch, divisor low and high byte, then line, FIFO and modem control.
pub fn uart_config_writes(dll: u8, dlm: u8, lcr: u8, fcr: u8, mcr: u8) -> (r: [(usize, u8); 7])
    ensures
        r@ == seq![
            (UART_IER, 0u8),
            (UART_LCR, UART_LCR_DLAB),
            (UART_DLL, dll),
            (UART_DLM, dlm),
            (UART_LCR, lcr),
            (UART_FCR, fcr),
            (UART_MCR, mcr),
        ],
{
    let r = [
        (UART_IER, 0u8),
        (UART_LCR, UART_LCR_DLAB),
        (UART_DLL, dll),
        (UART_DLM, dlm),
        (UART_LCR, lcr),
        (UART_FCR, fcr),
        (UART_MCR, mcr),
    ];
    assert(r@ =~= seq![
        (UART_IER, 0u8),
        (UART_LCR, UART_LCR_DLAB),
        (UART_DLL, dll),
        (UART_DLM, dlm),
        (UART_LCR, lcr),
        (UART_FCR, fcr),
        (UART_MCR, mcr),
    ]);
    r
}

/// Whether the line status says a received byte is waiting.
pub fn lsr_data_ready(lsr: u8) -> (r: bool)
    ensures
        r == (lsr & UART_LSR_DR != 0),
{
    lsr & UART_LSR_DR != 0
}

/// Whether the line status says the transmit holding register can take a byte.
pub fn lsr_can_send(lsr: u8) -> (r: bool)
    ensures
        r == (lsr & UART_LSR_THRE != 0),
{
    lsr & UART_LSR_THRE != 0
}

/// Whether the line status says everything was sent.
pub fn lsr_sent(lsr: u8) -> (r: bool)
    ensures
        r == (lsr & UART_LSR_TEMT != 0),
{
    lsr & UART_LSR_TEMT != 0
}

/// One idle poll: the new count, and whether to announce READY again (every
/// `STUB_READY_INTERVAL` idle polls).
pub fn next_idle(ticks: u32) -> (r: (u32, bool))
    ensures
        ({
            let n = if ticks == u32::MAX { 0 } else { (ticks + 1) as u32 };
            if n == STUB_READY_INTERVAL {
                r == (0u32, true)
            } else {
                r == (n, false)
            }
        }),
{
    let n = ticks.wrapping_add(1);
    if n == STUB_READY_INTERVAL {
        (0, true)
    } else {
        (n, false)
    }
}

/// The cache lines that hold `len` bytes at `addr`: from the line of `addr` up to the
/// end of the line of the last byte.
pub fn cache_line_range(addr: u32, len: u32) -> (r: (u32, u32))
    requires
        addr + len + CACHE_LINE_SIZE - 1 <= u32::MAX,
    ensures
        r.0 == addr - addr % 64,
        r.1 == (addr + len + 63) - (addr + len + 63) % 64,
        r.0 % 64 == 0,
        r.1 % 64 == 0,
        r.0 <= addr,
        addr + len <= r.1,
{
    let start = addr - addr % CACHE_LINE_SIZE;
    let top = addr + len + (CACHE_LINE_SIZE - 1);
    let end = top - top % CACHE_LINE_SIZE;
    (start, end)
}

} // verus!
