use mono_uart_recovery::args::{parse_byte_range_arg, parse_command, Command};
use mono_uart_recovery::protocol::{DeviceInfo, MAX_DATA_LEN};
use mono_uart_recovery::ranges::{
    resolve_restore_ranges, InclusiveByteRange, RestoreRange, RestoreSelector, MIB,
};

fn test_info() -> DeviceInfo {
    DeviceInfo {
        flash_size: 64 * MIB,
        image_size: 32 * MIB,
        erase_size: 64 * 1024,
        write_granule: 1,
        max_data: MAX_DATA_LEN as u16,
        jedec_id: 0,
    }
}

fn args(values: &[&str]) -> Vec<String> {
    values.iter().map(|value| value.to_string()).collect()
}

#[test]
fn byte_range_parser_accepts_decimal_and_hex() {
    assert_eq!(
        parse_byte_range_arg("1048576..0x1fffff").unwrap(),
        InclusiveByteRange {
            start: MIB,
            end: 2 * MIB - 1
        }
    );
}

#[test]
fn byte_range_resolves_to_touched_eraseblocks() {
    let selector = RestoreSelector::ByteRange(InclusiveByteRange {
        start: MIB + 1,
        end: MIB + 64 * 1024,
    });
    let ranges = resolve_restore_ranges(&test_info(), 0, 32 * MIB, &selector).unwrap();

    assert_eq!(
        ranges,
        vec![RestoreRange {
            image_offset: MIB,
            flash_offset: MIB,
            write_len: 2 * 64 * 1024,
            erase_len: 2 * 64 * 1024,
        }]
    );
}

#[test]
fn partitions_use_corrected_mono_gateway_layout() {
    let selector = RestoreSelector::Partitions(vec![
        "uboot".to_string(),
        "uboot-env".to_string(),
        "kernel-initramfs".to_string(),
    ]);
    let ranges = resolve_restore_ranges(&test_info(), 0, 32 * MIB, &selector).unwrap();

    assert_eq!(
        ranges,
        vec![
            RestoreRange {
                image_offset: MIB,
                flash_offset: MIB,
                write_len: 3 * MIB,
                erase_len: 3 * MIB,
            },
            RestoreRange {
                image_offset: 10 * MIB,
                flash_offset: 10 * MIB,
                write_len: 22 * MIB,
                erase_len: 22 * MIB,
            },
        ]
    );
}

#[test]
fn restore_parser_rejects_multiple_selectors() {
    let err = parse_command(&args(&[
        "restore",
        "firmware.bin",
        "--partitions=uboot",
        "--byte-range=0..0xffff",
    ]))
    .unwrap_err();

    assert!(err
        .to_string()
        .contains("restore accepts only one of --byte-range or --partitions"));
}

#[test]
fn restore_parser_accepts_partition_selector() {
    let command = parse_command(&args(&[
        "restore",
        "firmware.bin",
        "--partitions=rcw-bl2,uboot",
    ]))
    .unwrap();

    match command {
        Command::Restore { selector, .. } => {
            assert_eq!(
                selector,
                RestoreSelector::Partitions(vec!["rcw-bl2".to_string(), "uboot".to_string()])
            );
        }
        other => panic!("unexpected command: {other:?}"),
    }
}

#[test]
fn restore_parser_rejects_unallocated_partition() {
    let err = parse_command(&args(&[
        "restore",
        "firmware.bin",
        "--partitions=unallocated",
    ]))
    .unwrap_err();

    assert!(err
        .to_string()
        .contains("unknown NOR partition 'unallocated'"));
}
