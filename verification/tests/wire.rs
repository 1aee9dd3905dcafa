use mono_uart_recovery::crc::{crc32, crc32_finish, crc32_init, crc32_update_state};
use mono_uart_recovery::protocol::{
    build_frame, get_u16, get_u32, parse_frame, put_u16, put_u32, status_name,
    uart_baud_supported, DeviceInfo, Header, ProtocolError, GATEWAY_DK_FLASH_ERASE_SIZE,
    GATEWAY_DK_FLASH_SIZE, HEADER_LEN, MAGIC, MAX_DATA_LEN, OP_READ, STATUS_BAD_FRAME,
    STATUS_BAD_REQUEST, STATUS_FLASH, STATUS_OK, STATUS_RANGE, STATUS_UNSUPPORTED,
    SUPPORTED_UART_BAUDS, VERSION, YOCTO_NOR_IMAGE_SIZE,
};
use mono_uart_recovery::slip::{
    slip_encode, slip_encoded_len, SlipDecoder, SlipError, SLIP_END, SLIP_ESC, SLIP_ESC_END,
    SLIP_ESC_ESC,
};

#[test]
fn crc32_of_empty_input_is_zero() {
    assert_eq!(crc32(b""), 0);
}

#[test]
fn crc32_of_single_byte() {
    assert_eq!(crc32(b"a"), 0xe8b7_be43);
}

#[test]
fn crc32_in_pieces_equals_crc32_of_whole() {
    let data = b"The quick brown fox jumps over the lazy dog";
    let mut state = crc32_init();
    state = crc32_update_state(state, &data[..10]);
    state = crc32_update_state(state, &data[10..]);
    assert_eq!(crc32_finish(state), crc32(data));
    assert_eq!(crc32(data), 0x414f_a339);
}

#[test]
fn crc32_init_and_finish_values() {
    assert_eq!(crc32_init(), 0xffff_ffff);
    assert_eq!(crc32_finish(0x1234_5678), !0x1234_5678u32);
}

#[test]
fn little_endian_put_and_get() {
    let mut buf = [0u8; 8];
    put_u32(&mut buf, 1, 0x1122_3344);
    assert_eq!(buf, [0, 0x44, 0x33, 0x22, 0x11, 0, 0, 0]);
    put_u16(&mut buf, 6, 0xbeef);
    assert_eq!(buf[6..], [0xef, 0xbe]);
    assert_eq!(get_u32(&buf, 1), Ok(0x1122_3344));
    assert_eq!(get_u16(&buf, 6), Ok(0xbeef));
}

#[test]
fn little_endian_get_past_end_is_short() {
    let buf = [1u8, 2, 3, 4];
    assert_eq!(get_u32(&buf, 1), Err(ProtocolError::Short));
    assert_eq!(get_u16(&buf, 3), Err(ProtocolError::Short));
    assert_eq!(get_u16(&buf, 2), Ok(0x0403));
}

#[test]
fn build_frame_lays_out_header_then_payload() {
    let mut out = [0u8; 16];
    let len = build_frame(&mut out, 9, OP_READ, STATUS_RANGE, &[0xaa, 0xbb]).unwrap();
    assert_eq!(len, HEADER_LEN + 2);
    assert_eq!(out[..4], MAGIC);
    assert_eq!(out[4], VERSION);
    assert_eq!(out[5..10], [9, OP_READ, STATUS_RANGE, 0xaa, 0xbb]);
}

#[test]
fn build_frame_rejects_small_buffer() {
    let mut out = [0u8; 9];
    assert_eq!(
        build_frame(&mut out, 0, OP_READ, STATUS_OK, &[1, 2]),
        Err(ProtocolError::BufferTooSmall)
    );
}

#[test]
fn parse_frame_errors() {
    assert_eq!(parse_frame(&[0x4d, 0x47, 0x52]), Err(ProtocolError::Short));
    assert_eq!(
        parse_frame(&[0x4d, 0x47, 0x52, 0x32, 1, 0, 0, 0]),
        Err(ProtocolError::BadMagic)
    );
    assert_eq!(
        parse_frame(&[0x4d, 0x47, 0x52, 0x31, 2, 0, 0, 0]),
        Err(ProtocolError::BadVersion)
    );
    let (header, payload) = parse_frame(&[0x4d, 0x47, 0x52, 0x31, 1, 3, 4, 5]).unwrap();
    assert_eq!(header, Header { seq: 3, op: 4, status: 5 });
    assert!(payload.is_empty());
}

#[test]
fn device_info_encode_decode_round_trip() {
    let info = DeviceInfo::gateway_dk(0x0020_bb19);
    assert_eq!(info.flash_size, GATEWAY_DK_FLASH_SIZE);
    assert_eq!(info.image_size, YOCTO_NOR_IMAGE_SIZE);
    assert_eq!(info.erase_size, GATEWAY_DK_FLASH_ERASE_SIZE);
    assert_eq!(info.write_granule, 1);
    assert_eq!(info.max_data as usize, MAX_DATA_LEN);
    let mut out = [0u8; 24];
    assert_eq!(info.encode(&mut out), Ok(DeviceInfo::ENCODED_LEN));
    assert_eq!(out[..4], [0, 0, 0, 4]);
    assert_eq!(out[16..22], [0, 4, 0x19, 0xbb, 0x20, 0]);
    assert_eq!(DeviceInfo::decode(&out[..DeviceInfo::ENCODED_LEN]), Ok(info));
}

#[test]
fn device_info_encode_and_decode_errors() {
    let info = DeviceInfo::gateway_dk(0);
    let mut out = [0u8; 21];
    assert_eq!(info.encode(&mut out), Err(ProtocolError::BufferTooSmall));
    assert_eq!(DeviceInfo::decode(&out), Err(ProtocolError::Short));
}

#[test]
fn status_names() {
    assert_eq!(status_name(STATUS_OK), "ok");
    assert_eq!(status_name(STATUS_BAD_FRAME), "bad-frame");
    assert_eq!(status_name(STATUS_BAD_REQUEST), "bad-request");
    assert_eq!(status_name(STATUS_RANGE), "range");
    assert_eq!(status_name(STATUS_FLASH), "flash");
    assert_eq!(status_name(STATUS_UNSUPPORTED), "unsupported");
    assert_eq!(status_name(200), "unknown");
}

#[test]
fn every_listed_baud_is_supported() {
    for baud in SUPPORTED_UART_BAUDS {
        assert!(uart_baud_supported(baud));
    }
    assert!(!uart_baud_supported(0));
    assert!(!uart_baud_supported(4_000_001));
}

#[test]
fn slip_encoded_len_counts_escapes_and_ends() {
    assert_eq!(slip_encoded_len(&[]), 2);
    assert_eq!(slip_encoded_len(&[1, 2, 3]), 5);
    assert_eq!(slip_encoded_len(&[SLIP_END, SLIP_ESC, 7]), 7);
}

#[test]
fn slip_encode_exact_bytes() {
    let mut out = [0u8; 8];
    let n = slip_encode(&[1, SLIP_END, SLIP_ESC], &mut out).unwrap();
    assert_eq!(
        out[..n],
        [SLIP_END, 1, SLIP_ESC, SLIP_ESC_END, SLIP_ESC, SLIP_ESC_ESC, SLIP_END]
    );
}

#[test]
fn slip_encode_rejects_small_buffer() {
    let mut out = [0u8; 4];
    assert_eq!(
        slip_encode(&[1, 2, 3], &mut out),
        Err(SlipError::BufferTooSmall)
    );
}

#[test]
fn slip_decoder_ignores_leading_ends_and_holds_frame() {
    let mut decoder = SlipDecoder::<4>::new();
    assert_eq!(decoder.push(SLIP_END), Ok(None));
    assert_eq!(decoder.push(5), Ok(None));
    assert_eq!(decoder.push(SLIP_END), Ok(Some(1)));
    assert_eq!(decoder.frame(), &[5]);
    assert_eq!(decoder.push(6), Err(SlipError::FramePending));
    decoder.reset();
    assert!(decoder.frame().is_empty());
    assert_eq!(decoder.push(6), Ok(None));
    assert_eq!(decoder.frame(), &[6]);
}

#[test]
fn slip_decoder_rejects_bad_escape() {
    let mut decoder = SlipDecoder::<4>::default();
    assert_eq!(decoder.push(1), Ok(None));
    assert_eq!(decoder.push(SLIP_ESC), Ok(None));
    assert_eq!(decoder.push(0x00), Err(SlipError::BadEscape));
    assert!(decoder.frame().is_empty());
}

#[test]
fn slip_decoder_reports_overflow() {
    let mut decoder = SlipDecoder::<2>::new();
    assert_eq!(decoder.push(1), Ok(None));
    assert_eq!(decoder.push(2), Ok(None));
    assert_eq!(decoder.push(3), Err(SlipError::Overflow));
    assert!(decoder.frame().is_empty());
}

#[test]
fn slip_round_trip_of_every_byte_value() {
    let input: Vec<u8> = (0..=255u8).collect();
    let mut encoded = vec![0u8; slip_encoded_len(&input)];
    let n = slip_encode(&input, &mut encoded).unwrap();
    assert_eq!(n, 256 + 2 + 2);
    let mut decoder = SlipDecoder::<256>::new();
    let mut got = None;
    for &byte in &encoded[..n] {
        if let Some(len) = decoder.push(byte).unwrap() {
            got = Some(len);
        }
    }
    assert_eq!(got, Some(256));
    assert_eq!(decoder.frame(), &input[..]);
}
