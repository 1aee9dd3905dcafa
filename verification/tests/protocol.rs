use mono_uart_recovery::crc::crc32;
use mono_uart_recovery::protocol::{
    build_frame, parse_frame, uart_baud_supported, DEFAULT_FAST_UART_BAUD, DEFAULT_UART_BAUD,
    OP_INFO, STATUS_OK,
};
use mono_uart_recovery::slip::{slip_encode, SlipDecoder, SLIP_END, SLIP_ESC};

#[test]
fn crc32_matches_known_vector() {
    assert_eq!(crc32(b"123456789"), 0xcbf4_3926);
}

#[test]
fn slip_round_trip_escapes_reserved_bytes() {
    let input = [0x01, SLIP_END, 0x02, SLIP_ESC, 0x03];
    let mut encoded = [0; 16];
    let encoded_len = slip_encode(&input, &mut encoded).unwrap();

    let mut decoder = SlipDecoder::<16>::new();
    let mut got = None;
    for &byte in &encoded[..encoded_len] {
        if let Some(len) = decoder.push(byte).unwrap() {
            got = Some(len);
        }
    }

    assert_eq!(got, Some(input.len()));
    assert_eq!(decoder.frame(), input);
}

#[test]
fn frame_round_trip() {
    let mut frame = [0; 64];
    let len = build_frame(&mut frame, 7, OP_INFO, STATUS_OK, b"abc").unwrap();
    let (header, payload) = parse_frame(&frame[..len]).unwrap();

    assert_eq!(header.seq, 7);
    assert_eq!(header.op, OP_INFO);
    assert_eq!(header.status, STATUS_OK);
    assert_eq!(payload, b"abc");
}

#[test]
fn supported_baud_table_matches_default_fast_baud() {
    assert!(uart_baud_supported(DEFAULT_UART_BAUD));
    assert!(uart_baud_supported(DEFAULT_FAST_UART_BAUD));
    assert!(uart_baud_supported(4_000_000));
    assert!(!uart_baud_supported(123_456));
}
