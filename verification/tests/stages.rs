use mono_uart_recovery::baud::uart_config_for_baud;
use mono_uart_recovery::protocol::{
    build_frame, DeviceInfo, HEADER_LEN, OP_CONFIG_UART, OP_CRC32, OP_ERASE, OP_EXEC, OP_HELLO, OP_INFO,
    OP_LOAD_BEGIN, OP_LOAD_CHUNK, OP_READ, OP_READY, OP_RESET, OP_WRITE,
    STAGE1_LOAD_ADDR, STATUS_BAD_FRAME, STATUS_BAD_REQUEST, STATUS_OK, STATUS_RANGE,
    STATUS_UNSUPPORTED,
};
use mono_uart_recovery::qspi::{
    ahb_chunk, flash_ready, invalidate_values, ipcr_value, jedec_from_bytes, lut_def, lut_words,
    page_chunk, qspi_idle, rx_bytes, tx_words,
};
use mono_uart_recovery::ranges::LengthArg;
use mono_uart_recovery::session::{
    backup_plan, chunk_size, next_chunk_len, parse_host_frame, range_request, read_request,
    stage1_begin_payload, stage1_chunk, write_request,
};
use mono_uart_recovery::slip::{SlipDecoder, SLIP_END, SLIP_ESC};
use mono_uart_recovery::stage::{
    cache_line_range, encode_frame, loader_handle_frame, lsr_can_send, lsr_data_ready, lsr_sent,
    next_idle, receive_byte, uart_config_writes, ByteEvent, LoadState, LoaderAction,
    STUB_READY_INTERVAL, UART_DLL, UART_DLM, UART_FCR, UART_IER, UART_LCR, UART_LCR_DLAB,
    UART_MCR,
};
use mono_uart_recovery::stage1::{
    crc_chunk, crc_progress_due, erase_step, jedec_message, min_usize, progress_payload,
    range_ok, stage_handle_frame, write_hex_u32, StageAction,
};

fn frame(seq: u8, op: u8, payload: &[u8]) -> Vec<u8> {
    let mut out = vec![0u8; HEADER_LEN + payload.len()];
    let n = build_frame(&mut out, seq, op, STATUS_OK, payload).unwrap();
    out.truncate(n);
    out
}

fn le32(v: u32) -> [u8; 4] {
    v.to_le_bytes()
}

#[test]
fn receive_byte_events() {
    let mut decoder = SlipDecoder::<8>::new();
    assert_eq!(receive_byte(&mut decoder, 1), ByteEvent::Nothing);
    assert_eq!(receive_byte(&mut decoder, SLIP_END), ByteEvent::FrameReady);
    assert_eq!(decoder.frame(), &[1]);
    decoder.reset();
    assert_eq!(receive_byte(&mut decoder, SLIP_ESC), ByteEvent::Nothing);
    assert_eq!(receive_byte(&mut decoder, 0x42), ByteEvent::DecodeError);
    assert!(decoder.frame().is_empty());
    assert_eq!(receive_byte(&mut decoder, 7), ByteEvent::Nothing);
    assert_eq!(decoder.frame(), &[7]);
}

#[test]
fn encode_frame_produces_slip_bytes() {
    let mut frame_buf = [0u8; 16];
    let mut slip_buf = [0u8; 32];
    let n = encode_frame(0, OP_READY, STATUS_OK, &[SLIP_END], &mut frame_buf, &mut slip_buf)
        .unwrap();
    assert_eq!(
        slip_buf[..n],
        [SLIP_END, 0x4d, 0x47, 0x52, 0x31, 1, 0, OP_READY, STATUS_OK, 0xdb, 0xdc, SLIP_END]
    );
    let mut small = [0u8; 8];
    assert_eq!(
        encode_frame(0, OP_READY, STATUS_OK, &[], &mut frame_buf, &mut small),
        None
    );
    let mut tiny = [0u8; 4];
    assert_eq!(
        encode_frame(0, OP_READY, STATUS_OK, &[], &mut tiny, &mut slip_buf),
        None
    );
}

#[test]
fn loader_loads_an_image_in_order_and_executes() {
    let image: Vec<u8> = (0..1500u32).map(|i| (i * 7) as u8).collect();
    let mut state = LoadState::new();

    assert_eq!(
        loader_handle_frame(&frame(0, OP_HELLO, &[]), &mut state),
        LoaderAction::Reply { seq: 0, op: OP_READY, status: STATUS_OK }
    );
    assert_eq!(
        loader_handle_frame(&frame(1, OP_EXEC, &[]), &mut state),
        LoaderAction::Reply { seq: 1, op: OP_EXEC, status: STATUS_BAD_REQUEST }
    );

    let begin = stage1_begin_payload(image.len()).unwrap();
    assert_eq!(
        loader_handle_frame(&frame(2, OP_LOAD_BEGIN, &begin), &mut state),
        LoaderAction::Reply { seq: 2, op: OP_LOAD_BEGIN, status: STATUS_OK }
    );
    assert_eq!(state, LoadState { len: 1500, received: 0, active: true });

    let (first, next) = stage1_chunk(&image, 0);
    let input = frame(3, OP_LOAD_CHUNK, &first);
    match loader_handle_frame(&input, &mut state) {
        LoaderAction::Store { seq, addr, from, to } => {
            assert_eq!((seq, addr), (3, STAGE1_LOAD_ADDR));
            assert_eq!(&input[from..to], &image[..next]);
        }
        other => panic!("unexpected action: {other:?}"),
    }

    // The same chunk again is out of order.
    assert_eq!(
        loader_handle_frame(&input, &mut state),
        LoaderAction::Reply { seq: 3, op: OP_LOAD_CHUNK, status: STATUS_RANGE }
    );
    assert_eq!(
        loader_handle_frame(&frame(4, OP_EXEC, &[]), &mut state),
        LoaderAction::Reply { seq: 4, op: OP_EXEC, status: STATUS_BAD_REQUEST }
    );

    let (second, end) = stage1_chunk(&image, next);
    let input = frame(5, OP_LOAD_CHUNK, &second);
    match loader_handle_frame(&input, &mut state) {
        LoaderAction::Store { seq, addr, from, to } => {
            assert_eq!((seq, addr), (5, STAGE1_LOAD_ADDR + 1024));
            assert_eq!(&input[from..to], &image[next..end]);
        }
        other => panic!("unexpected action: {other:?}"),
    }
    assert_eq!(state.received, 1500);
    assert_eq!(
        loader_handle_frame(&frame(6, OP_EXEC, &[]), &mut state),
        LoaderAction::Exec { seq: 6 }
    );
}

#[test]
fn loader_refusals() {
    let mut state = LoadState::new();
    assert_eq!(
        loader_handle_frame(&[1, 2, 3], &mut state),
        LoaderAction::Reply { seq: 0, op: OP_READY, status: STATUS_BAD_FRAME }
    );
    assert_eq!(
        loader_handle_frame(&frame(1, OP_LOAD_BEGIN, &[0; 11]), &mut state),
        LoaderAction::Reply { seq: 1, op: OP_LOAD_BEGIN, status: STATUS_BAD_REQUEST }
    );
    let mut wrong_addr = stage1_begin_payload(16).unwrap();
    wrong_addr[0] = 1;
    assert_eq!(
        loader_handle_frame(&frame(2, OP_LOAD_BEGIN, &wrong_addr), &mut state),
        LoaderAction::Reply { seq: 2, op: OP_LOAD_BEGIN, status: STATUS_RANGE }
    );
    let mut too_long = stage1_begin_payload(16).unwrap();
    too_long[4..8].copy_from_slice(&le32(0x1a001));
    assert_eq!(
        loader_handle_frame(&frame(3, OP_LOAD_BEGIN, &too_long), &mut state),
        LoaderAction::Reply { seq: 3, op: OP_LOAD_BEGIN, status: STATUS_RANGE }
    );
    assert_eq!(state, LoadState::new());
    assert_eq!(
        loader_handle_frame(&frame(4, OP_LOAD_CHUNK, &[0, 0, 0, 0, 9]), &mut state),
        LoaderAction::Reply { seq: 4, op: OP_LOAD_CHUNK, status: STATUS_RANGE }
    );
    assert_eq!(
        loader_handle_frame(&frame(5, OP_LOAD_CHUNK, &[0, 0]), &mut state),
        LoaderAction::Reply { seq: 5, op: OP_LOAD_CHUNK, status: STATUS_BAD_REQUEST }
    );
    let begin = stage1_begin_payload(4).unwrap();
    loader_handle_frame(&frame(6, OP_LOAD_BEGIN, &begin), &mut state);
    assert_eq!(
        loader_handle_frame(&frame(7, OP_LOAD_CHUNK, &[0, 0, 0, 0, 1, 2, 3, 4, 5]), &mut state),
        LoaderAction::Reply { seq: 7, op: OP_LOAD_CHUNK, status: STATUS_RANGE }
    );
    assert_eq!(
        loader_handle_frame(&frame(8, OP_LOAD_CHUNK, &[0, 0, 0, 0]), &mut state),
        LoaderAction::Reply { seq: 8, op: OP_LOAD_CHUNK, status: STATUS_RANGE }
    );
    assert_eq!(
        loader_handle_frame(&frame(9, OP_RESET, &[]), &mut state),
        LoaderAction::Reset { seq: 9 }
    );
    assert_eq!(
        loader_handle_frame(&frame(10, OP_READ, &[]), &mut state),
        LoaderAction::Reply { seq: 10, op: OP_READ, status: STATUS_UNSUPPORTED }
    );
}

#[test]
fn uart_register_programming() {
    assert_eq!(
        uart_config_writes(0xa3, 0, 3, 7, 3),
        [
            (UART_IER, 0),
            (UART_LCR, UART_LCR_DLAB),
            (UART_DLL, 0xa3),
            (UART_DLM, 0),
            (UART_LCR, 3),
            (UART_FCR, 7),
            (UART_MCR, 3)
        ]
    );
    assert!(lsr_data_ready(0x01));
    assert!(!lsr_data_ready(0x60));
    assert!(lsr_can_send(0x20));
    assert!(!lsr_can_send(0x41));
    assert!(lsr_sent(0x40));
    assert!(!lsr_sent(0x21));
}

#[test]
fn idle_ticks_announce_ready_periodically() {
    assert_eq!(next_idle(0), (1, false));
    assert_eq!(next_idle(STUB_READY_INTERVAL - 1), (0, true));
    assert_eq!(next_idle(u32::MAX), (0, false));
}

#[test]
fn cache_lines_cover_the_range() {
    assert_eq!(cache_line_range(0x1000_4000, 100), (0x1000_4000, 0x1000_4080));
    assert_eq!(cache_line_range(0x1000_4001, 64), (0x1000_4000, 0x1000_4080));
    assert_eq!(cache_line_range(0x40, 0), (0x40, 0x40));
}

#[test]
fn stage_info_reset_and_unknown() {
    assert_eq!(stage_handle_frame(&frame(1, OP_HELLO, &[])), StageAction::Info { seq: 1, op: OP_HELLO });
    assert_eq!(stage_handle_frame(&frame(2, OP_INFO, &[])), StageAction::Info { seq: 2, op: OP_INFO });
    assert_eq!(stage_handle_frame(&frame(3, OP_RESET, &[])), StageAction::Reset { seq: 3 });
    assert_eq!(
        stage_handle_frame(&frame(4, OP_LOAD_BEGIN, &[])),
        StageAction::Reply { seq: 4, op: OP_LOAD_BEGIN, status: STATUS_UNSUPPORTED }
    );
    assert_eq!(stage_handle_frame(&[0x4d, 0x47]), StageAction::BadFrame);
}

#[test]
fn stage_read_requests() {
    let mut p = le32(0x100).to_vec();
    p.extend_from_slice(&1024u16.to_le_bytes());
    assert_eq!(
        stage_handle_frame(&frame(1, OP_READ, &p)),
        StageAction::Read { seq: 1, offset: 0x100, len: 1024 }
    );
    let mut p = le32(0).to_vec();
    p.extend_from_slice(&1025u16.to_le_bytes());
    assert_eq!(
        stage_handle_frame(&frame(2, OP_READ, &p)),
        StageAction::Reply { seq: 2, op: OP_READ, status: STATUS_RANGE }
    );
    let mut p = le32(64 * 1024 * 1024 - 1).to_vec();
    p.extend_from_slice(&2u16.to_le_bytes());
    assert_eq!(
        stage_handle_frame(&frame(3, OP_READ, &p)),
        StageAction::Reply { seq: 3, op: OP_READ, status: STATUS_RANGE }
    );
    assert_eq!(
        stage_handle_frame(&frame(4, OP_READ, &[0, 0, 0, 0, 1])),
        StageAction::Reply { seq: 4, op: OP_READ, status: STATUS_BAD_REQUEST }
    );
}

#[test]
fn stage_write_requests() {
    let mut p = le32(0x2000).to_vec();
    p.extend_from_slice(&[1, 2, 3]);
    let input = frame(1, OP_WRITE, &p);
    match stage_handle_frame(&input) {
        StageAction::Write { seq, offset, from, to } => {
            assert_eq!((seq, offset), (1, 0x2000));
            assert_eq!(&input[from..to], &[1, 2, 3]);
        }
        other => panic!("unexpected action: {other:?}"),
    }
    assert_eq!(
        stage_handle_frame(&frame(2, OP_WRITE, &le32(0))),
        StageAction::Reply { seq: 2, op: OP_WRITE, status: STATUS_RANGE }
    );
    let mut big = le32(0).to_vec();
    big.extend_from_slice(&[0u8; 1025]);
    assert_eq!(
        stage_handle_frame(&frame(3, OP_WRITE, &big)),
        StageAction::Reply { seq: 3, op: OP_WRITE, status: STATUS_RANGE }
    );
    assert_eq!(
        stage_handle_frame(&frame(4, OP_WRITE, &[0, 0, 0])),
        StageAction::Reply { seq: 4, op: OP_WRITE, status: STATUS_BAD_REQUEST }
    );
}

#[test]
fn stage_erase_and_crc_requests() {
    let req = |offset: u32, len: u32| {
        let mut p = le32(offset).to_vec();
        p.extend_from_slice(&le32(len));
        p
    };
    assert_eq!(
        stage_handle_frame(&frame(1, OP_ERASE, &req(0x10000, 0x20000))),
        StageAction::Erase { seq: 1, offset: 0x10000, len: 0x20000 }
    );
    assert_eq!(
        stage_handle_frame(&frame(2, OP_ERASE, &req(0x100, 0x10000))),
        StageAction::Reply { seq: 2, op: OP_ERASE, status: STATUS_RANGE }
    );
    assert_eq!(
        stage_handle_frame(&frame(3, OP_ERASE, &req(0, 0))),
        StageAction::Reply { seq: 3, op: OP_ERASE, status: STATUS_RANGE }
    );
    assert_eq!(
        stage_handle_frame(&frame(4, OP_ERASE, &req(0x3ff0000, 0x20000))),
        StageAction::Reply { seq: 4, op: OP_ERASE, status: STATUS_RANGE }
    );
    assert_eq!(
        stage_handle_frame(&frame(5, OP_CRC32, &req(3, 5))),
        StageAction::Crc32 { seq: 5, offset: 3, len: 5 }
    );
    assert_eq!(
        stage_handle_frame(&frame(6, OP_CRC32, &req(u32::MAX, 2))),
        StageAction::Reply { seq: 6, op: OP_CRC32, status: STATUS_RANGE }
    );
    assert_eq!(
        stage_handle_frame(&frame(7, OP_CRC32, &[0; 7])),
        StageAction::Reply { seq: 7, op: OP_CRC32, status: STATUS_BAD_REQUEST }
    );
}

#[test]
fn stage_config_uart_requests() {
    assert_eq!(
        stage_handle_frame(&frame(1, OP_CONFIG_UART, &[20, 0, 3, 7, 3])),
        StageAction::ConfigUart { seq: 1, dll: 20, dlm: 0, lcr: 3, fcr: 7, mcr: 3 }
    );
    assert_eq!(
        stage_handle_frame(&frame(2, OP_CONFIG_UART, &[20, 0, 3, 7])),
        StageAction::Reply { seq: 2, op: OP_CONFIG_UART, status: STATUS_BAD_REQUEST }
    );
}

#[test]
fn stage_helpers() {
    assert!(range_ok(0, 64 * 1024 * 1024));
    assert!(!range_ok(1, 64 * 1024 * 1024));
    assert!(!range_ok(u32::MAX, 1));
    assert_eq!(min_usize(3, 9), 3);
    assert_eq!(min_usize(9, 3), 3);
    assert_eq!(
        progress_payload(OP_ERASE, 0x10000, 0x20000),
        [OP_ERASE, 0, 0, 1, 0, 0, 0, 2, 0]
    );
    assert_eq!(erase_step(0x10000, 0x20000, 0x10000), (0x20000, 0x10000));
    assert_eq!(erase_step(0x10000, 0x20000, 0x20000), (0x30000, 0x20000));
    assert_eq!(crc_chunk(0, 100), 100);
    assert_eq!(crc_chunk(0, 5000), 1024);
    assert!(crc_progress_due(100, 100, 0));
    assert!(crc_progress_due(65536, 100_000, 0));
    assert!(!crc_progress_due(65535, 100_000, 0));
    let mut out = [0xffu8; 10];
    write_hex_u32(&mut out, 0x00ab_12cd);
    assert_eq!(&out, b"00ab12cd\xff\xff");
    assert_eq!(&jedec_message(0x0020_bb19), b"jedec=0x0020bb19");
}

#[test]
fn qspi_lookup_tables() {
    assert_eq!(lut_words(0x9f, 0, 0, 0, true, false), [0x1c00_049f, 0x0000_ff00, 0, 0]);
    assert_eq!(
        lut_words(0x03, 3, 0x0012_3456, 0, true, false),
        [0x1012_0403, 0x1056_1034, 0xff00_1c00, 0]
    );
    assert_eq!(
        lut_words(0x0b, 3, 0x0012_3456, 1, true, false),
        [0x1012_040b, 0x1056_1034, 0x1c00_0c08, 0x0000_ff00]
    );
    assert_eq!(
        lut_words(0x02, 3, 0, 0, false, true),
        [0x1000_0402, 0x1000_1000, 0xff00_2000, 0]
    );
    assert_eq!(lut_words(0x06, 0, 0, 0, false, false), [0xff00_0406, 0, 0, 0]);
    let mut lut = [0u32; 4];
    lut_def(&mut lut, 3, 1, 1, 0x9f);
    assert_eq!(lut, [0, 0x049f_0000, 0, 0]);
    assert_eq!(ipcr_value(4), 0x0f00_0004);
}

#[test]
fn qspi_fifo_packing() {
    assert_eq!(tx_words(&[1, 2, 3, 4, 5]), vec![0x0403_0201, 0x05]);
    assert!(tx_words(&[]).is_empty());
    assert_eq!(rx_bytes(&[0x0403_0201, 0x05], 5), vec![1, 2, 3, 4, 5]);
    let data: Vec<u8> = (0..11).collect();
    assert_eq!(rx_bytes(&tx_words(&data), data.len()), data);
}

#[test]
fn qspi_chunks_and_status() {
    assert_eq!(page_chunk(250, 100), 6);
    assert_eq!(page_chunk(0, 100), 64);
    assert_eq!(page_chunk(0, 10), 10);
    assert_eq!(page_chunk(256 + 200, 64), 56);
    assert_eq!(ahb_chunk(2000), 1024);
    assert_eq!(ahb_chunk(10), 10);
    assert!(qspi_idle(0));
    assert!(qspi_idle(1));
    assert!(!qspi_idle(2));
    assert!(!qspi_idle(4));
    assert!(flash_ready(0x02));
    assert!(!flash_ready(0x03));
    assert_eq!(invalidate_values(0x100), (0x103, 0x100));
    assert_eq!(invalidate_values(0xff), (0xff, 0xfc));
    assert_eq!(jedec_from_bytes([0x20, 0xbb, 0x19]), 0x0020_bb19);
}

#[test]
fn host_parses_what_the_stage_frames() {
    let mut frame_buf = [0u8; 64];
    let mut slip_buf = [0u8; 130];
    let n = encode_frame(9, OP_CRC32, STATUS_OK, &[0xc0, 0xdb, 1], &mut frame_buf, &mut slip_buf)
        .unwrap();
    let mut decoder = SlipDecoder::<64>::new();
    let mut ready = false;
    for &b in &slip_buf[..n] {
        if receive_byte(&mut decoder, b) == ByteEvent::FrameReady {
            ready = true;
        }
    }
    assert!(ready);
    let parsed = parse_host_frame(decoder.frame()).unwrap();
    assert_eq!((parsed.seq, parsed.op, parsed.status), (9, OP_CRC32, STATUS_OK));
    assert_eq!(parsed.payload, vec![0xc0, 0xdb, 1]);
}

#[test]
fn host_requests_are_accepted_by_the_stage() {
    let read = read_request(0x10_0000, 1024).unwrap();
    assert_eq!(
        stage_handle_frame(&frame(1, OP_READ, &read)),
        StageAction::Read { seq: 1, offset: 0x10_0000, len: 1024 }
    );
    let write = write_request(0x20_0000, &[5, 6, 7]).unwrap();
    let input = frame(2, OP_WRITE, &write);
    match stage_handle_frame(&input) {
        StageAction::Write { seq, offset, from, to } => {
            assert_eq!((seq, offset), (2, 0x20_0000));
            assert_eq!(&input[from..to], &[5, 6, 7]);
        }
        other => panic!("unexpected action: {other:?}"),
    }
    assert_eq!(
        stage_handle_frame(&frame(3, OP_ERASE, &range_request(0x30_0000, 0x2_0000))),
        StageAction::Erase { seq: 3, offset: 0x30_0000, len: 0x2_0000 }
    );
    assert_eq!(
        stage_handle_frame(&frame(4, OP_CRC32, &range_request(7, 9))),
        StageAction::Crc32 { seq: 4, offset: 7, len: 9 }
    );
    let config = uart_config_for_baud(2_000_000).unwrap();
    match stage_handle_frame(&frame(5, OP_CONFIG_UART, &config)) {
        StageAction::ConfigUart { seq, dll, dlm, lcr, fcr, mcr } => {
            assert_eq!(seq, 5);
            assert_eq!(u32::from(dll) + 256 * u32::from(dlm), 9);
            assert_eq!((lcr, fcr, mcr), (3, 7, 3));
        }
        other => panic!("unexpected action: {other:?}"),
    }
}

#[test]
fn planned_backup_reads_are_accepted_by_the_stage() {
    let info = DeviceInfo::gateway_dk(0);
    let offset = 64 * 1024 * 1024 - 3000;
    let len = backup_plan(&info, offset, LengthArg::Bytes(3000)).unwrap();
    let chunk = chunk_size(info.max_data);
    let mut done = 0;
    while done < len {
        let n = next_chunk_len(len, done, chunk);
        let payload = read_request(offset + done, n as usize).unwrap();
        assert_eq!(
            stage_handle_frame(&frame(1, OP_READ, &payload)),
            StageAction::Read { seq: 1, offset: offset + done, len: n as usize }
        );
        done += n;
    }
    assert_eq!(done, 3000);
}

#[test]
fn fifo_words_read_back_as_the_data() {
    for len in 0..12usize {
        let data: Vec<u8> = (0..len).map(|i| (0xf0 + i) as u8).collect();
        let words = tx_words(&data);
        assert_eq!(words.len(), (len + 3) / 4);
        assert_eq!(rx_bytes(&words, len), data);
    }
}
