use mono_uart_recovery::crc::{crc32, crc32_init};
use mono_uart_recovery::protocol::{
    DeviceInfo, OP_CRC32, OP_DEBUG_PRINT, OP_ERASE, OP_PROGRESS, OP_INFO, OP_READ, OP_READY, STATUS_BAD_FRAME, STATUS_OK,
};
use mono_uart_recovery::ranges::{resolve_restore_ranges, RestoreRange, RestoreSelector, MIB};
use mono_uart_recovery::restore::{absorb_write, restore_schedule, RestoreStep};
use mono_uart_recovery::stage1::{
    bad_frame_replies, crc_chunk, decode_error_replies, crc_progress_due, crc_reply, crc_step, erase_step, info_reply,
    progress_reply, read_reply, status_reply, Reply,
};

#[test]
fn bad_frame_reply_frames() {
    assert_eq!(
        bad_frame_replies(),
        vec![
            Reply { seq: 0, op: OP_DEBUG_PRINT, status: STATUS_OK, payload: b"bad frame header".to_vec() },
            Reply { seq: 0, op: OP_READY, status: STATUS_BAD_FRAME, payload: vec![] },
        ]
    );
}

#[test]
fn decode_error_reply_frames() {
    let replies = decode_error_replies();
    assert_eq!(replies.len(), 2);
    assert_eq!(replies[0].payload, b"slip decode error".to_vec());
    assert_eq!((replies[0].seq, replies[0].op, replies[0].status), (0, OP_DEBUG_PRINT, STATUS_OK));
    assert_eq!(replies[1], Reply { seq: 0, op: OP_READY, status: STATUS_BAD_FRAME, payload: vec![] });
}

#[test]
fn info_reply_carries_gateway_dk_record() {
    let reply = info_reply(4, OP_INFO, 0x0020_bb19);
    let mut expected = [0u8; DeviceInfo::ENCODED_LEN];
    DeviceInfo::gateway_dk(0x0020_bb19).encode(&mut expected).unwrap();
    assert_eq!((reply.seq, reply.op, reply.status), (4, OP_INFO, STATUS_OK));
    assert_eq!(reply.payload, expected.to_vec());
    assert_eq!(DeviceInfo::decode(&reply.payload).unwrap(), DeviceInfo::gateway_dk(0x0020_bb19));
}

#[test]
fn read_reply_is_offset_then_data() {
    let reply = read_reply(2, 0x0102_0304, &[9, 8, 7]);
    assert_eq!((reply.seq, reply.op, reply.status), (2, OP_READ, STATUS_OK));
    assert_eq!(reply.payload, vec![4, 3, 2, 1, 9, 8, 7]);
}

#[test]
fn erase_visits_every_sector_in_order() {
    let (offset, len) = (0x30_0000u32, 0x3_0000u32);
    let mut current = offset;
    let mut seen = Vec::new();
    while current < offset + len {
        let (next, done) = erase_step(offset, len, current);
        seen.push((current, done));
        current = next;
    }
    assert_eq!(seen, vec![(0x30_0000, 0x1_0000), (0x31_0000, 0x2_0000), (0x32_0000, 0x3_0000)]);
}

#[test]
fn stage_crc_over_pieces_is_crc_of_window() {
    let flash: Vec<u8> = (0..5000u32).map(|i| (i * 31 + 7) as u8).collect();
    let (offset, len) = (100u32, 3000u32);
    let end = offset + len;
    let mut state = crc32_init();
    let mut current = offset;
    let mut last = 0;
    let mut reports = Vec::new();
    while current < end {
        let n = crc_chunk(current, end);
        let (s, next) = crc_step(state, current, end, &flash[current as usize..current as usize + n]);
        state = s;
        current = next;
        let done = current - offset;
        if crc_progress_due(done, len, last) {
            reports.push(done);
            last = done;
        }
    }
    let reply = crc_reply(5, state);
    assert_eq!((reply.seq, reply.op, reply.status), (5, OP_CRC32, STATUS_OK));
    let expected = crc32(&flash[offset as usize..end as usize]);
    assert_eq!(reply.payload, expected.to_le_bytes().to_vec());
    assert_eq!(reports, vec![3000]);
}

#[test]
fn restore_schedule_erases_then_writes_then_verifies() {
    let a = RestoreRange { image_offset: 0, flash_offset: 0x1_0000, write_len: 2500, erase_len: 0x1_0000 };
    let b = RestoreRange { image_offset: 0x2_0000, flash_offset: 0x3_0000, write_len: 10, erase_len: 0x1_0000 };
    let steps = restore_schedule(&vec![a, b], true, true, 1024);
    assert_eq!(
        steps,
        vec![
            RestoreStep::Erase { range: 0, flash_offset: 0x1_0000, len: 0x1_0000 },
            RestoreStep::Erase { range: 1, flash_offset: 0x3_0000, len: 0x1_0000 },
            RestoreStep::Write { range: 0, flash_offset: 0x1_0000, image_offset: 0, len: 1024 },
            RestoreStep::Write { range: 0, flash_offset: 0x1_0400, image_offset: 1024, len: 1024 },
            RestoreStep::Write { range: 0, flash_offset: 0x1_0800, image_offset: 2048, len: 452 },
            RestoreStep::Write { range: 1, flash_offset: 0x3_0000, image_offset: 0x2_0000, len: 10 },
            RestoreStep::Verify { range: 0, flash_offset: 0x1_0000, len: 2500 },
            RestoreStep::Verify { range: 1, flash_offset: 0x3_0000, len: 10 },
        ]
    );
    let only_writes = restore_schedule(&vec![b], false, false, 4);
    assert_eq!(
        only_writes,
        vec![
            RestoreStep::Write { range: 0, flash_offset: 0x3_0000, image_offset: 0x2_0000, len: 4 },
            RestoreStep::Write { range: 0, flash_offset: 0x3_0004, image_offset: 0x2_0004, len: 4 },
            RestoreStep::Write { range: 0, flash_offset: 0x3_0008, image_offset: 0x2_0008, len: 2 },
        ]
    );
}

#[test]
fn restore_write_crc_is_crc_of_range_bytes() {
    let image: Vec<u8> = (0..4 * MIB).map(|i| (i % 251) as u8).collect();
    let info = DeviceInfo::gateway_dk(0);
    let selector = RestoreSelector::Partitions(vec!["uboot-env".to_string(), "rcw-bl2".to_string()]);
    let ranges = resolve_restore_ranges(&info, 0, 4 * MIB, &selector).unwrap();
    let steps = restore_schedule(&ranges, true, true, 1024);
    let mut states = vec![crc32_init(); ranges.len()];
    for step in &steps {
        if let RestoreStep::Write { image_offset, len, .. } = *step {
            let s = image_offset as usize;
            absorb_write(&mut states, step, &image[s..s + len as usize]);
        }
    }
    for (i, r) in ranges.iter().enumerate() {
        let s = r.image_offset as usize;
        assert_eq!(!states[i], crc32(&image[s..s + r.write_len as usize]));
    }
}

#[test]
fn progress_and_status_frames() {
    assert_eq!(
        progress_reply(3, OP_ERASE, 0x1_0000, 0x2_0000),
        Reply {
            seq: 3,
            op: OP_PROGRESS,
            status: STATUS_OK,
            payload: vec![OP_ERASE, 0, 0, 1, 0, 0, 0, 2, 0],
        }
    );
    assert_eq!(
        status_reply(3, OP_ERASE, STATUS_OK),
        Reply { seq: 3, op: OP_ERASE, status: STATUS_OK, payload: vec![] }
    );
}

#[test]
fn zero_length_crc_reports_zero_and_crc_of_nothing() {
    let opening = progress_reply(1, OP_CRC32, 0, 0);
    assert_eq!(opening.payload, vec![OP_CRC32, 0, 0, 0, 0, 0, 0, 0, 0]);
    let reply = crc_reply(1, crc32_init());
    assert_eq!(reply.payload, crc32(&[]).to_le_bytes().to_vec());
    assert_eq!(reply.payload, vec![0, 0, 0, 0]);
}
