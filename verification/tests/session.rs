use mono_uart_recovery::args::{Command, Config};
use mono_uart_recovery::baud::{
    baud_to_speed, supported_bauds, uart_config_for_baud, uart_divisor, validate_baud,
};
use mono_uart_recovery::error::AppErrorG;
use mono_uart_recovery::protocol::{
    DeviceInfo, ProtocolError, MAX_DATA_LEN, OP_CRC32, OP_DEBUG_PRINT, OP_ERASE, OP_INFO,
    OP_PROGRESS, OP_READ, OP_READY, STAGE1_MAX_LEN, STATUS_BAD_FRAME, STATUS_OK, STATUS_RANGE,
    SUPPORTED_UART_BAUDS,
};
use mono_uart_recovery::ranges::{LengthArg, RestoreRange, MIB};
use mono_uart_recovery::session::{
    backup_plan, check_erase_range, check_file_crc, check_range_crc, check_read_response,
    check_uart_echo, chunk_size, crc_response, encode_request, erase_plan, format_dump_line,
    info_response, input_len_u32, next_chunk_len, next_seq, parse_host_frame, progress_percent,
    range_request, read_request, ready_action, request_step, request_step_with_progress,
    stage1_age_warning, stage1_begin_payload, stage1_chunk, switches_uart, total_write,
    validate_config, write_request, Frame, Hexdump, ProgressDisplay, ProgressEvent, ReadyAction,
    RequestAction, VerifiedRange,
};
use mono_uart_recovery::slip::{SlipDecoder, SLIP_END};

fn info() -> DeviceInfo {
    DeviceInfo::gateway_dk(0)
}

fn frame(seq: u8, op: u8, status: u8, payload: &[u8]) -> Frame {
    Frame { seq, op, status, payload: payload.to_vec() }
}

fn progress_payload(op: u8, done: u32, total: u32) -> Vec<u8> {
    let mut p = vec![op];
    p.extend_from_slice(&done.to_le_bytes());
    p.extend_from_slice(&total.to_le_bytes());
    p
}

fn config(baud: u32, fast_uart: bool, fast_baud: u32) -> Config {
    Config {
        device: "tty".to_string(),
        stage1: "s1.bin".to_string(),
        baud,
        fast_uart,
        fast_baud,
        command: Command::Info,
    }
}

#[test]
fn next_seq_skips_zero() {
    assert_eq!(next_seq(0), 1);
    assert_eq!(next_seq(1), 2);
    assert_eq!(next_seq(254), 255);
    assert_eq!(next_seq(255), 1);
}

#[test]
fn encode_request_is_slip_of_frame() {
    let bytes = encode_request(3, OP_INFO, STATUS_OK, &[SLIP_END]).unwrap();
    assert_eq!(
        bytes,
        vec![SLIP_END, 0x4d, 0x47, 0x52, 0x31, 1, 3, OP_INFO, STATUS_OK, 0xdb, 0xdc, SLIP_END]
    );
    let mut decoder = SlipDecoder::<64>::new();
    let mut got = None;
    for &b in &bytes {
        if let Some(n) = decoder.push(b).unwrap() {
            got = Some(n);
        }
    }
    assert_eq!(got, Some(9));
    let parsed = parse_host_frame(decoder.frame()).unwrap();
    assert_eq!(parsed, frame(3, OP_INFO, STATUS_OK, &[SLIP_END]));
}

#[test]
fn parse_host_frame_rejects_garbage() {
    assert!(parse_host_frame(&[1, 2, 3]).is_none());
    assert!(parse_host_frame(&[0x4d, 0x47, 0x52, 0x31, 9, 0, 0, 0]).is_none());
}

#[test]
fn progress_display_reports_and_clamps() {
    let mut display = ProgressDisplay::new("erase", OP_ERASE, 1000);
    assert!(!display.shown);
    assert_eq!(
        display.handle(&frame(1, OP_ERASE, 0, &[])).unwrap(),
        ProgressEvent::NotProgress
    );
    assert_eq!(
        display.handle(&frame(1, OP_PROGRESS, 0, &progress_payload(OP_CRC32, 1, 2))).unwrap(),
        ProgressEvent::OtherOp
    );
    assert!(!display.shown);
    assert_eq!(
        display.handle(&frame(1, OP_PROGRESS, 0, &progress_payload(OP_ERASE, 500, 0))).unwrap(),
        ProgressEvent::Show { done: 500, total: 1000 }
    );
    assert!(display.shown);
    assert_eq!(
        display.handle(&frame(1, OP_PROGRESS, 0, &progress_payload(OP_ERASE, 70, 60))).unwrap(),
        ProgressEvent::Show { done: 60, total: 60 }
    );
    assert_eq!(
        display.handle(&frame(1, OP_PROGRESS, 0, &[OP_ERASE, 0, 0])).unwrap_err().to_string(),
        "short progress response"
    );
}

#[test]
fn progress_percent_values() {
    assert_eq!(progress_percent(0, 0), 100);
    assert_eq!(progress_percent(1, 3), 33);
    assert_eq!(progress_percent(u32::MAX, u32::MAX), 100);
}

#[test]
fn request_step_without_progress() {
    assert_eq!(
        request_step(5, OP_READ, &frame(0, OP_DEBUG_PRINT, 0, b"hi")).unwrap(),
        RequestAction::DebugPrint
    );
    assert_eq!(
        request_step(5, OP_READ, &frame(4, OP_READ, 0, &[])).unwrap(),
        RequestAction::Ignore
    );
    assert_eq!(
        request_step(5, OP_READ, &frame(5, OP_INFO, 0, &[])).unwrap(),
        RequestAction::Ignore
    );
    assert_eq!(
        request_step(5, OP_READ, &frame(5, OP_READ, STATUS_OK, &[])).unwrap(),
        RequestAction::Accept
    );
    assert_eq!(
        request_step(5, OP_READ, &frame(5, OP_READ, STATUS_RANGE, &[]))
            .unwrap_err()
            .to_string(),
        "device rejected op 0x03: range (3)"
    );
}

#[test]
fn request_step_with_progress_consumes_reports_of_this_request() {
    let mut display = ProgressDisplay::new("crc32", OP_CRC32, 4096);
    let report = progress_payload(OP_CRC32, 1024, 4096);
    assert_eq!(
        request_step_with_progress(7, OP_CRC32, &frame(7, OP_PROGRESS, 0, &report), &mut display)
            .unwrap(),
        RequestAction::ShowProgress { done: 1024, total: 4096 }
    );
    assert!(display.shown);
    let other = progress_payload(OP_ERASE, 1, 2);
    assert_eq!(
        request_step_with_progress(7, OP_CRC32, &frame(7, OP_PROGRESS, 0, &other), &mut display)
            .unwrap(),
        RequestAction::Consumed
    );
    assert_eq!(
        request_step_with_progress(7, OP_CRC32, &frame(6, OP_PROGRESS, 0, &report), &mut display)
            .unwrap(),
        RequestAction::Ignore
    );
    assert_eq!(
        request_step_with_progress(7, OP_CRC32, &frame(7, OP_CRC32, 0, &[1, 2, 3, 4]), &mut display)
            .unwrap(),
        RequestAction::Accept
    );
    assert_eq!(
        request_step_with_progress(7, OP_CRC32, &frame(7, OP_PROGRESS, 0, &[1]), &mut display),
        Err(AppErrorG::ShortProgress)
    );
}

#[test]
fn ready_actions() {
    assert_eq!(ready_action(&frame(0, OP_DEBUG_PRINT, 0, b"x")), ReadyAction::DebugPrint);
    assert_eq!(ready_action(&frame(0, OP_READY, STATUS_OK, &[])), ReadyAction::Ready);
    assert_eq!(
        ready_action(&frame(0, OP_READY, STATUS_BAD_FRAME, &[])),
        ReadyAction::IgnoredReady(STATUS_BAD_FRAME)
    );
    assert_eq!(ready_action(&frame(0, OP_INFO, STATUS_OK, &[])), ReadyAction::Ignore);
}

#[test]
fn read_request_and_response() {
    assert_eq!(read_request(0x0102_0304, 1024).unwrap(), [4, 3, 2, 1, 0, 4]);
    assert_eq!(
        read_request(0, 1025).unwrap_err().to_string(),
        "read chunk too large: 1025 > 1024"
    );
    assert_eq!(
        check_read_response(0x10, 2, &[0x10, 0, 0, 0, 7, 8]).unwrap(),
        vec![7, 8]
    );
    assert_eq!(
        check_read_response(0x10, 2, &[0x10, 0, 0]).unwrap_err().to_string(),
        "short read response"
    );
    assert_eq!(
        check_read_response(0x10, 2, &[0x11, 0, 0, 0, 7, 8]).unwrap_err().to_string(),
        "read offset mismatch: requested 0x00000010, got 0x00000011"
    );
    assert_eq!(
        check_read_response(0x10, 3, &[0x10, 0, 0, 0, 7, 8]).unwrap_err().to_string(),
        "read length mismatch: requested 3, got 2"
    );
}

#[test]
fn write_and_range_requests() {
    assert_eq!(write_request(0x0a0b_0c0d, &[9, 8]).unwrap(), vec![0x0d, 0x0c, 0x0b, 0x0a, 9, 8]);
    assert_eq!(
        write_request(0, &vec![0u8; MAX_DATA_LEN + 1]).unwrap_err().to_string(),
        "write chunk too large: 1025 > 1024"
    );
    assert_eq!(range_request(0x10000, 0x20000), [0, 0, 1, 0, 0, 0, 2, 0]);
}

#[test]
fn crc_and_info_responses() {
    assert_eq!(crc_response(&[0x26, 0x39, 0xf4, 0xcb]).unwrap(), 0xcbf4_3926);
    assert_eq!(
        crc_response(&[1, 2]).unwrap_err().to_string(),
        "bad crc32 response: Short"
    );
    let mut encoded = [0u8; DeviceInfo::ENCODED_LEN];
    info().encode(&mut encoded).unwrap();
    assert_eq!(info_response(&encoded).unwrap(), info());
    assert_eq!(
        info_response(&encoded[..21]),
        Err(AppErrorG::BadInfoResponse(ProtocolError::Short))
    );
}

#[test]
fn uart_echo_must_match() {
    let config = uart_config_for_baud(921_600).unwrap();
    assert!(check_uart_echo(921_600, &config, &config).is_ok());
    assert_eq!(
        check_uart_echo(921_600, &config, &config[..4]).unwrap_err().to_string(),
        "device echoed unexpected UART config for requested baud 921600"
    );
    let mut other = config;
    other[0] ^= 1;
    assert_eq!(
        check_uart_echo(921_600, &config, &other),
        Err(AppErrorG::UartEchoMismatch(921_600))
    );
}

#[test]
fn stage1_loading_payloads() {
    assert_eq!(
        stage1_begin_payload(0x100).unwrap(),
        [0x00, 0x40, 0x00, 0x10, 0x00, 0x01, 0, 0, 0x00, 0x40, 0x00, 0x10]
    );
    assert_eq!(stage1_begin_payload(0).unwrap_err().to_string(), "stage1 image is empty");
    assert_eq!(
        stage1_begin_payload(STAGE1_MAX_LEN as usize + 1).unwrap_err().to_string(),
        "stage1 image is too large: 106497 bytes, max 106496 bytes"
    );
    assert!(stage1_begin_payload(STAGE1_MAX_LEN as usize).is_ok());

    let image: Vec<u8> = (0..1500u32).map(|i| i as u8).collect();
    let (first, next) = stage1_chunk(&image, 0);
    assert_eq!(next, 1024);
    assert_eq!(first.len(), 4 + 1024);
    assert_eq!(first[..4], [0, 0, 0, 0]);
    assert_eq!(first[4..], image[..1024]);
    let (second, end) = stage1_chunk(&image, next);
    assert_eq!(end, 1500);
    assert_eq!(second[..4], [0, 4, 0, 0]);
    assert_eq!(second[4..], image[1024..]);
}

#[test]
fn stage1_age_warnings() {
    assert!(stage1_age_warning(6418).unwrap().contains("predates erase/CRC32 progress"));
    assert!(stage1_age_warning(6578).unwrap().contains("predates CRC32 progress"));
    assert!(stage1_age_warning(6579).is_none());
}

#[test]
fn chunking_of_transfers() {
    assert_eq!(chunk_size(0), 1);
    assert_eq!(chunk_size(512), 512);
    assert_eq!(chunk_size(4096), 1024);
    assert_eq!(next_chunk_len(5000, 4096, 1024), 904);
    assert_eq!(next_chunk_len(5000, 0, 1024), 1024);
    let mut done = 0u32;
    let mut pieces = 0;
    while done < 2500 {
        done += next_chunk_len(2500, done, chunk_size(1000));
        pieces += 1;
    }
    assert_eq!((done, pieces), (2500, 3));
}

#[test]
fn input_length_limit() {
    assert_eq!(input_len_u32(u64::from(u32::MAX)).unwrap(), u32::MAX);
    assert_eq!(
        input_len_u32(u64::from(u32::MAX) + 1).unwrap_err().to_string(),
        "input image is too large for this protocol"
    );
}

#[test]
fn backup_and_erase_plans() {
    assert_eq!(backup_plan(&info(), 0, LengthArg::Image).unwrap(), 32 * MIB);
    assert_eq!(
        backup_plan(&info(), 1, LengthArg::Full).unwrap_err().to_string(),
        "range 0x00000001..0x04000001 exceeds flash size 0x04000000"
    );
    assert_eq!(erase_plan(&info(), 64 * 1024, LengthArg::Bytes(128 * 1024)).unwrap(), 128 * 1024);
    assert_eq!(
        erase_plan(&info(), 4096, LengthArg::Bytes(64 * 1024)).unwrap_err().to_string(),
        "erase offset 0x00001000 is not erase-sector aligned (65536)"
    );
    assert_eq!(
        erase_plan(&info(), 0, LengthArg::Bytes(0)).unwrap_err().to_string(),
        "erase length 0 is not a non-zero multiple of erase-sector size 65536"
    );
    assert_eq!(
        erase_plan(&info(), 0, LengthArg::Bytes(100)).unwrap_err().to_string(),
        "erase length 100 is not a non-zero multiple of erase-sector size 65536"
    );
}

#[test]
fn restore_totals_and_erase_checks() {
    let a = RestoreRange { image_offset: 0, flash_offset: 0, write_len: 10, erase_len: 65536 };
    let b = RestoreRange { image_offset: 0, flash_offset: 65536, write_len: 20, erase_len: 65536 };
    assert_eq!(total_write(&vec![a, b]).unwrap(), 30);
    assert_eq!(total_write(&vec![]).unwrap(), 0);
    let big = RestoreRange { write_len: u32::MAX, ..a };
    assert_eq!(
        total_write(&vec![big, b]).unwrap_err().to_string(),
        "selected restore ranges are too large"
    );
    assert!(check_erase_range(&info(), &b).is_ok());
    let unaligned = RestoreRange { flash_offset: 100, ..a };
    assert_eq!(
        check_erase_range(&info(), &unaligned).unwrap_err().to_string(),
        "restore offset 0x00000064 is not erase-sector aligned (65536)"
    );
    let short = RestoreRange { erase_len: 10, ..a };
    assert_eq!(
        check_erase_range(&info(), &short).unwrap_err().to_string(),
        "erase length 10 at NOR offset 0x00000000 is not a non-zero multiple of erase-sector size 65536"
    );
    let outside = RestoreRange { flash_offset: 64 * MIB, ..a };
    assert_eq!(
        check_erase_range(&info(), &outside).unwrap_err().to_string(),
        "range 0x04000000..0x04010000 exceeds flash size 0x04000000"
    );
}

#[test]
fn crc_checks() {
    let range = VerifiedRange { flash_offset: 0x10000, len: 4, expected_crc32: 0xdead_beef };
    assert!(check_range_crc(&range, 0xdead_beef).is_ok());
    assert_eq!(
        check_range_crc(&range, 1).unwrap_err().to_string(),
        "verify failed at NOR offset 0x00010000: host crc32=0xdeadbeef, device crc32=0x00000001"
    );
    assert!(check_file_crc(7, 7).is_ok());
    assert_eq!(
        check_file_crc(7, 8).unwrap_err().to_string(),
        "verify failed: host crc32=0x00000007, device crc32=0x00000008"
    );
}

#[test]
fn run_configuration_checks() {
    assert!(validate_config(&config(115_200, true, 921_600)).is_ok());
    assert!(validate_config(&config(921_600, false, 115_200)).is_ok());
    assert_eq!(
        validate_config(&config(921_600, true, 115_200)).unwrap_err().to_string(),
        "--fast-baud 115200 is lower than initial --baud 921600; use --no-fast-uart to keep the initial speed"
    );
    assert_eq!(
        validate_config(&config(12345, true, 921_600)).unwrap_err().to_string(),
        format!(
            "--baud 12345 is not supported; supported baud rates: {}",
            supported_bauds()
        )
    );
    assert!(switches_uart(&config(115_200, true, 921_600)));
    assert!(!switches_uart(&config(115_200, true, 115_200)));
    assert!(!switches_uart(&config(115_200, false, 921_600)));
}

#[test]
fn baud_divisors_and_configs() {
    assert_eq!(uart_divisor(115_200), Some(163));
    assert_eq!(uart_divisor(921_600), Some(20));
    assert_eq!(uart_divisor(9_600), Some(1953));
    assert_eq!(uart_divisor(4_000_000), Some(5));
    assert_eq!(uart_divisor(0), None);
    assert_eq!(uart_divisor(1), None);
    assert_eq!(uart_divisor(u32::MAX), None);
    assert_eq!(uart_config_for_baud(9_600).unwrap(), [0xa1, 0x07, 0x03, 0x07, 0x03]);
    assert_eq!(
        uart_config_for_baud(0).unwrap_err().to_string(),
        "baud 0 cannot be represented by the UART divisor"
    );
    for baud in SUPPORTED_UART_BAUDS {
        assert!(validate_baud("--baud", baud).is_ok());
        assert!(baud_to_speed(baud).is_some());
    }
    assert_eq!(baud_to_speed(115_200), Some(0x1002));
    assert_eq!(baud_to_speed(1), None);
}

#[test]
fn supported_baud_list_text() {
    assert_eq!(
        supported_bauds(),
        "9600, 19200, 38400, 57600, 115200, 230400, 460800, 500000, 576000, 921600, 1000000, 1152000, 1500000, 2000000, 2500000, 3000000, 3500000, 4000000"
    );
}

#[test]
fn hexdump_lines() {
    assert_eq!(
        format_dump_line(0, &[0x41, 0x42, 0x00]),
        "00000000  41 42 00                                          |AB.|"
    );
    let mut dump = Hexdump::new();
    assert!(dump.flush().is_none());
    let mut lines = Vec::new();
    for byte in 0x20u8..0x40 {
        if let Some(line) = dump.push(byte) {
            lines.push(line);
        }
    }
    dump.push(0x7f);
    lines.push(dump.flush().unwrap());
    assert_eq!(
        lines,
        vec![
            "00000000  20 21 22 23 24 25 26 27  28 29 2a 2b 2c 2d 2e 2f  | !\"#$%&'()*+,-./|"
                .to_string(),
            "00000010  30 31 32 33 34 35 36 37  38 39 3a 3b 3c 3d 3e 3f  |0123456789:;<=>?|"
                .to_string(),
            "00000020  7f                                                |.|".to_string(),
        ]
    );
}
