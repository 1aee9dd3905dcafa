//! How the two ends of the conversation fit together: the requests that the host
//! builds are the ones the stages accept, and the answers the stages describe are
//! the ones the host accepts.

use vstd::prelude::*;
use crate::baud::{spec_uart_config, spec_uart_divisor};
use crate::protocol::{
    frame_bytes, le_u16, le_u32, lemma_frame_round_trip, lemma_u16_round_trip, lemma_u32_round_trip,
    spec_gateway_dk, u16_bytes, u32_bytes, GATEWAY_DK_FLASH_SIZE, MAX_DATA_LEN, OP_CONFIG_UART,
    OP_CRC32, OP_ERASE, OP_EXEC, OP_LOAD_BEGIN, OP_LOAD_CHUNK, OP_READ, OP_WRITE, STAGE1_ENTRY_ADDR,
    STAGE1_LOAD_ADDR, STAGE1_MAX_LEN, STATUS_OK,
};
use crate::ranges::{
    lemma_resolved_restore_ranges, restore_range_ok, spec_resolve_restore, LengthArg,
    RestoreSelectorView,
};
use crate::session::{
    spec_backup_plan, spec_check_erase_range, spec_chunk_len, spec_chunk_size, spec_erase_plan,
    spec_read_response,
};
use crate::stage::{spec_loader_frame, LoadState, LoaderAction};
use crate::stage1::{spec_stage_frame, StageAction};

verus! {

// ---------------------------------------------------------------------------
// Loading the flash stage through the loader

/// The LOAD_BEGIN payload that the host sends for a stage image of `len` bytes.
pub open spec fn begin_payload(len: u32) -> Seq<u8> {
    u32_bytes(STAGE1_LOAD_ADDR) + u32_bytes(len) + u32_bytes(STAGE1_ENTRY_ADDR)
}

/// Where the chunk of `image` that starts at `offset` ends.
pub open spec fn chunk_end(image: Seq<u8>, offset: int) -> int {
    offset + spec_chunk_len(image.len() as int, offset, MAX_DATA_LEN as int)
}

/// The LOAD_CHUNK payload that the host sends for the chunk of `image` at `offset`.
pub open spec fn chunk_payload(image: Seq<u8>, offset: int) -> Seq<u8> {
    u32_bytes(offset as u32) + image.subrange(offset, chunk_end(image, offset))
}

/// The loader's state after the host has sent the chunks of `image` from `offset` on.
pub open spec fn load_chunks(image: Seq<u8>, offset: int, seq: u8, st: LoadState) -> LoadState
    decreases image.len() - offset,
{
    if 0 <= offset < image.len() {
        let f = frame_bytes(seq, OP_LOAD_CHUNK, STATUS_OK, chunk_payload(image, offset));
        load_chunks(image, chunk_end(image, offset), seq, spec_loader_frame(f, st).0)
    } else {
        st
    }
}

/// The loader accepts the host's LOAD_BEGIN for any image that fits the load area,
/// whatever it held before, and then expects that many bytes from offset 0.
pub proof fn lemma_loader_accepts_begin(seq: u8, status: u8, len: u32, st: LoadState)
    requires
        0 < len <= STAGE1_MAX_LEN,
    ensures
        spec_loader_frame(frame_bytes(seq, OP_LOAD_BEGIN, status, begin_payload(len)), st) == (
            LoadState { len, received: 0, active: true },
            LoaderAction::Reply { seq, op: OP_LOAD_BEGIN, status: STATUS_OK },
        ),
{
    let p = begin_payload(len);
    lemma_frame_round_trip(seq, OP_LOAD_BEGIN, status, p);
    lemma_u32_round_trip(STAGE1_LOAD_ADDR);
    lemma_u32_round_trip(len);
    lemma_u32_round_trip(STAGE1_ENTRY_ADDR);
    assert(le_u32(p, 0) == le_u32(u32_bytes(STAGE1_LOAD_ADDR), 0));
    assert(le_u32(p, 4) == le_u32(u32_bytes(len), 0));
    assert(le_u32(p, 8) == le_u32(u32_bytes(STAGE1_ENTRY_ADDR), 0));
}

/// The loader stores the host's next chunk of the image at its place in the load area,
/// and then expects the chunk after it.
pub proof fn lemma_loader_accepts_chunk(seq: u8, status: u8, image: Seq<u8>, offset: int)
    requires
        0 <= offset < image.len() <= STAGE1_MAX_LEN,
    ensures
        ({
            let p = chunk_payload(image, offset);
            let f = frame_bytes(seq, OP_LOAD_CHUNK, status, p);
            let st = LoadState { len: image.len() as u32, received: offset as u32, active: true };
            &&& spec_loader_frame(f, st) == (
                LoadState {
                    len: image.len() as u32,
                    received: chunk_end(image, offset) as u32,
                    active: true,
                },
                LoaderAction::Store {
                    seq,
                    addr: (STAGE1_LOAD_ADDR + offset) as u32,
                    from: 12,
                    to: f.len() as usize,
                },
            )
            &&& f.subrange(12, f.len() as int) == image.subrange(offset, chunk_end(image, offset))
        }),
{
    let p = chunk_payload(image, offset);
    let f = frame_bytes(seq, OP_LOAD_CHUNK, status, p);
    lemma_frame_round_trip(seq, OP_LOAD_CHUNK, status, p);
    lemma_u32_round_trip(offset as u32);
    assert(le_u32(p, 0) == le_u32(u32_bytes(offset as u32), 0));
    assert(f.subrange(12, f.len() as int) =~= image.subrange(offset, chunk_end(image, offset)));
}

proof fn lemma_loader_takes_rest(image: Seq<u8>, offset: int, seq: u8)
    requires
        0 <= offset <= image.len() <= STAGE1_MAX_LEN,
    ensures
        load_chunks(image, offset, seq, LoadState { len: image.len() as u32, received: offset as u32, active: true })
            == (LoadState { len: image.len() as u32, received: image.len() as u32, active: true }),
    decreases image.len() - offset,
{
    if offset < image.len() {
        lemma_loader_accepts_chunk(seq, STATUS_OK, image, offset);
        lemma_loader_takes_rest(image, chunk_end(image, offset), seq);
    }
}

/// Loading a stage image: after the host's LOAD_BEGIN and then its chunks in order,
/// the loader has received the whole image, and it starts it on EXEC.
pub proof fn lemma_host_load_runs_image(image: Seq<u8>, seq: u8, st: LoadState)
    requires
        0 < image.len() <= STAGE1_MAX_LEN,
    ensures
        ({
            let begun = spec_loader_frame(
                frame_bytes(seq, OP_LOAD_BEGIN, STATUS_OK, begin_payload(image.len() as u32)),
                st,
            ).0;
            let loaded = load_chunks(image, 0, seq, begun);
            &&& loaded == (LoadState {
                len: image.len() as u32,
                received: image.len() as u32,
                active: true,
            })
            &&& spec_loader_frame(frame_bytes(seq, OP_EXEC, STATUS_OK, Seq::empty()), loaded).1
                == (LoaderAction::Exec { seq })
        }),
{
    lemma_loader_accepts_begin(seq, STATUS_OK, image.len() as u32, st);
    lemma_loader_takes_rest(image, 0, seq);
    lemma_frame_round_trip(seq, OP_EXEC, STATUS_OK, Seq::empty());
}

// ---------------------------------------------------------------------------
// Requests to the flash stage

/// A READ of at most one frame's data within the flash is accepted as asked.
pub proof fn lemma_stage_accepts_read(seq: u8, status: u8, offset: u32, len: usize)
    requires
        len <= MAX_DATA_LEN,
        offset + len <= GATEWAY_DK_FLASH_SIZE,
    ensures
        spec_stage_frame(frame_bytes(seq, OP_READ, status, u32_bytes(offset) + u16_bytes(len as u16)))
            == (StageAction::Read { seq, offset, len }),
{
    let p = u32_bytes(offset) + u16_bytes(len as u16);
    lemma_frame_round_trip(seq, OP_READ, status, p);
    lemma_u32_round_trip(offset);
    lemma_u16_round_trip(len as u16);
    assert(le_u32(p, 0) == le_u32(u32_bytes(offset), 0));
    assert(le_u16(p, 4) == le_u16(u16_bytes(len as u16), 0));
}

/// A WRITE of one to 1024 bytes within the flash is accepted, and the bytes it
/// programs are the data sent.
pub proof fn lemma_stage_accepts_write(seq: u8, status: u8, offset: u32, data: Seq<u8>)
    requires
        0 < data.len() <= MAX_DATA_LEN,
        offset + data.len() <= GATEWAY_DK_FLASH_SIZE,
    ensures
        ({
            let f = frame_bytes(seq, OP_WRITE, status, u32_bytes(offset) + data);
            &&& spec_stage_frame(f) == (StageAction::Write { seq, offset, from: 12, to: f.len() as usize })
            &&& f.subrange(12, f.len() as int) == data
        }),
{
    let p = u32_bytes(offset) + data;
    let f = frame_bytes(seq, OP_WRITE, status, p);
    lemma_frame_round_trip(seq, OP_WRITE, status, p);
    lemma_u32_round_trip(offset);
    assert(le_u32(p, 0) == le_u32(u32_bytes(offset), 0));
    assert(f.subrange(12, f.len() as int) =~= data);
}

/// An ERASE of whole 64 KiB sectors within the flash is accepted as asked.
pub proof fn lemma_stage_accepts_erase(seq: u8, status: u8, offset: u32, len: u32)
    requires
        offset % 65536 == 0,
        0 < len,
        len % 65536 == 0,
        offset + len <= GATEWAY_DK_FLASH_SIZE,
    ensures
        spec_stage_frame(frame_bytes(seq, OP_ERASE, status, u32_bytes(offset) + u32_bytes(len)))
            == (StageAction::Erase { seq, offset, len }),
{
    let p = u32_bytes(offset) + u32_bytes(len);
    lemma_frame_round_trip(seq, OP_ERASE, status, p);
    lemma_u32_round_trip(offset);
    lemma_u32_round_trip(len);
    assert(le_u32(p, 0) == le_u32(u32_bytes(offset), 0));
    assert(le_u32(p, 4) == le_u32(u32_bytes(len), 0));
}

/// A CRC32 of any range within the flash is accepted as asked.
pub proof fn lemma_stage_accepts_crc32(seq: u8, status: u8, offset: u32, len: u32)
    requires
        offset + len <= GATEWAY_DK_FLASH_SIZE,
    ensures
        spec_stage_frame(frame_bytes(seq, OP_CRC32, status, u32_bytes(offset) + u32_bytes(len)))
            == (StageAction::Crc32 { seq, offset, len }),
{
    let p = u32_bytes(offset) + u32_bytes(len);
    lemma_frame_round_trip(seq, OP_CRC32, status, p);
    lemma_u32_round_trip(offset);
    lemma_u32_round_trip(len);
    assert(le_u32(p, 0) == le_u32(u32_bytes(offset), 0));
    assert(le_u32(p, 4) == le_u32(u32_bytes(len), 0));
}

/// The UART configuration that the host sends for a reachable baud rate is accepted,
/// and the divisor latch bytes that the stage programs make up the divisor.
pub proof fn lemma_stage_accepts_uart_config(seq: u8, status: u8, baud: u32)
    requires
        spec_uart_divisor(baud) is Some,
    ensures
        ({
            let d = spec_uart_divisor(baud)->0;
            let c = spec_uart_config(d);
            &&& spec_stage_frame(frame_bytes(seq, OP_CONFIG_UART, status, c)) == (StageAction::ConfigUart {
                seq,
                dll: c[0],
                dlm: c[1],
                lcr: c[2],
                fcr: c[3],
                mcr: c[4],
            })
            &&& c[0] + 256 * c[1] == d
        }),
{
    let d = spec_uart_divisor(baud)->0;
    lemma_frame_round_trip(seq, OP_CONFIG_UART, status, spec_uart_config(d));
}

/// The READ response that the stage describes (the offset, then the data) is accepted
/// by the host's check, which hands back the data.
pub proof fn lemma_host_accepts_read_data(offset: u32, data: Seq<u8>)
    requires
        data.len() <= MAX_DATA_LEN,
    ensures
        spec_read_response(offset, data.len() as usize, u32_bytes(offset) + data) == Ok::<
            Seq<u8>,
            crate::error::AppErrorView,
        >(data),
{
    let p = u32_bytes(offset) + data;
    lemma_u32_round_trip(offset);
    assert(le_u32(p, 0) == le_u32(u32_bytes(offset), 0));
    assert(p.skip(4) =~= data);
}

// ---------------------------------------------------------------------------
// The host's plans on the Gateway DK

/// Every read of a backup that the host plans for the Gateway DK is accepted by the stage.
pub proof fn lemma_backup_reads_accepted(jedec_id: u32, offset: u32, length: LengthArg, done: u32, seq: u8, status: u8)
    requires
        spec_backup_plan(spec_gateway_dk(jedec_id), offset, length) matches Ok(len) && done < len,
    ensures
        ({
            let len = spec_backup_plan(spec_gateway_dk(jedec_id), offset, length)->Ok_0;
            let n = spec_chunk_len(len as int, done as int, spec_chunk_size(1024) as int);
            spec_stage_frame(frame_bytes(seq, OP_READ, status, u32_bytes((offset + done) as u32) + u16_bytes(n as u16)))
                == (StageAction::Read { seq, offset: (offset + done) as u32, len: n as usize })
        }),
{
    let len = spec_backup_plan(spec_gateway_dk(jedec_id), offset, length)->Ok_0;
    let n = spec_chunk_len(len as int, done as int, spec_chunk_size(1024) as int);
    lemma_stage_accepts_read(seq, status, (offset + done) as u32, n as usize);
}

/// An erase that the host plans for the Gateway DK is accepted by the stage.
pub proof fn lemma_erase_plan_accepted(jedec_id: u32, offset: u32, length: LengthArg, seq: u8, status: u8)
    requires
        spec_erase_plan(spec_gateway_dk(jedec_id), offset, length) is Ok,
    ensures
        ({
            let len = spec_erase_plan(spec_gateway_dk(jedec_id), offset, length)->Ok_0;
            spec_stage_frame(frame_bytes(seq, OP_ERASE, status, u32_bytes(offset) + u32_bytes(len)))
                == (StageAction::Erase { seq, offset, len })
        }),
{
    let len = spec_erase_plan(spec_gateway_dk(jedec_id), offset, length)->Ok_0;
    lemma_stage_accepts_erase(seq, status, offset, len);
}

/// The requests of a restore that the host plans for the Gateway DK are accepted by the
/// stage: the erase of each range that passes the host's erase check, each write of
/// the range's data in chunks, and the CRC32 that verifies it.
pub proof fn lemma_restore_requests_accepted(
    jedec_id: u32,
    base: u32,
    file_len: u32,
    sel: RestoreSelectorView,
    i: int,
    done: u32,
    data: Seq<u8>,
    seq: u8,
    status: u8,
)
    requires
        spec_resolve_restore(spec_gateway_dk(jedec_id), base, file_len, sel) matches Ok(v) && 0 <= i
            < v.len(),
    ensures
        ({
            let r = spec_resolve_restore(spec_gateway_dk(jedec_id), base, file_len, sel)->Ok_0[i];
            &&& spec_check_erase_range(spec_gateway_dk(jedec_id), r) is Ok ==> spec_stage_frame(
                frame_bytes(seq, OP_ERASE, status, u32_bytes(r.flash_offset) + u32_bytes(r.erase_len)),
            ) == (StageAction::Erase { seq, offset: r.flash_offset, len: r.erase_len })
            &&& (done < r.write_len && data.len() == spec_chunk_len(
                r.write_len as int,
                done as int,
                spec_chunk_size(1024) as int,
            )) ==> spec_stage_frame(
                frame_bytes(seq, OP_WRITE, status, u32_bytes((r.flash_offset + done) as u32) + data),
            ) == (StageAction::Write {
                seq,
                offset: (r.flash_offset + done) as u32,
                from: 12,
                to: (12 + data.len()) as usize,
            })
            &&& spec_stage_frame(
                frame_bytes(seq, OP_CRC32, status, u32_bytes(r.flash_offset) + u32_bytes(r.write_len)),
            ) == (StageAction::Crc32 { seq, offset: r.flash_offset, len: r.write_len })
        }),
{
    let info = spec_gateway_dk(jedec_id);
    lemma_resolved_restore_ranges(info, base, file_len, sel);
    let v = spec_resolve_restore(info, base, file_len, sel)->Ok_0;
    let r = v[i];
    assert(restore_range_ok(info, base, file_len, r));
    if spec_check_erase_range(info, r) is Ok {
        lemma_stage_accepts_erase(seq, status, r.flash_offset, r.erase_len);
    }
    if done < r.write_len && data.len() == spec_chunk_len(
        r.write_len as int,
        done as int,
        spec_chunk_size(1024) as int,
    ) {
        lemma_stage_accepts_write(seq, status, (r.flash_offset + done) as u32, data);
    }
    lemma_stage_accepts_crc32(seq, status, r.flash_offset, r.write_len);
}

} // verus!
