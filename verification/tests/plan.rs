use mono_uart_recovery::error::AppErrorG;
use mono_uart_recovery::protocol::{DeviceInfo, MAX_DATA_LEN};
use mono_uart_recovery::ranges::{
    align_up, check_input_range, check_range, checked_add_u32, coalesce_source_ranges,
    find_nor_partition, known_partition_names, nor_partitions, resolve_length,
    resolve_restore_ranges, source_range_for_byte_range, source_range_for_partition,
    InclusiveByteRange, LengthArg, NorPartitionSize, RestoreRange, RestoreSelector, SourceRange,
    MIB,
};

fn info() -> DeviceInfo {
    DeviceInfo {
        flash_size: 64 * MIB,
        image_size: 32 * MIB,
        erase_size: 64 * 1024,
        write_granule: 1,
        max_data: MAX_DATA_LEN as u16,
        jedec_id: 0,
    }
}

fn src(offset: u32, len: u32) -> SourceRange {
    SourceRange { offset, len }
}

#[test]
fn partition_table_in_flash_order() {
    let table = nor_partitions();
    let names: Vec<&str> = table.iter().map(|p| p.name).collect();
    assert_eq!(
        names,
        vec!["rcw-bl2", "uboot", "uboot-env", "fman-ucode", "recovery-dtb", "kernel-initramfs"]
    );
    assert_eq!(table[1].offset, MIB);
    assert_eq!(table[1].size, NorPartitionSize::Bytes(2 * MIB));
    assert_eq!(table[5].offset, 10 * MIB);
    assert_eq!(table[5].size, NorPartitionSize::Rest);
}

#[test]
fn find_partition_by_exact_name() {
    let p = find_nor_partition("recovery-dtb").unwrap();
    assert_eq!(p.offset, 5 * MIB);
    assert_eq!(p.size, NorPartitionSize::Bytes(MIB));
    assert!(find_nor_partition("Uboot").is_none());
    assert!(find_nor_partition("").is_none());
}

#[test]
fn known_partition_names_joined() {
    assert_eq!(
        known_partition_names(),
        "rcw-bl2, uboot, uboot-env, fman-ucode, recovery-dtb, kernel-initramfs"
    );
}

#[test]
fn check_range_against_flash_size() {
    assert!(check_range(64 * MIB, 0, 64 * MIB).is_ok());
    assert_eq!(
        check_range(64 * MIB, 64 * MIB, 1).unwrap_err().to_string(),
        "range 0x04000000..0x04000001 exceeds flash size 0x04000000"
    );
    assert_eq!(
        check_range(16, u32::MAX, u32::MAX).unwrap_err().to_string(),
        "range 0xffffffff..0x1fffffffe exceeds flash size 0x00000010"
    );
}

#[test]
fn check_input_range_against_file_length() {
    assert!(check_input_range(100, 90, 10).is_ok());
    assert_eq!(
        check_input_range(100, 90, 11).unwrap_err().to_string(),
        "range 0x0000005a..0x00000065 exceeds input image length 0x00000064"
    );
}

#[test]
fn checked_add_u32_overflow() {
    assert_eq!(checked_add_u32(1, 2), Some(3));
    assert_eq!(checked_add_u32(u32::MAX, 1), None);
}

#[test]
fn align_up_values_and_errors() {
    assert_eq!(align_up(0, 4096).unwrap(), 0);
    assert_eq!(align_up(1, 4096).unwrap(), 4096);
    assert_eq!(align_up(4096, 4096).unwrap(), 4096);
    assert_eq!(align_up(4097, 4096).unwrap(), 8192);
    assert_eq!(
        align_up(5, 0).unwrap_err().to_string(),
        "device reported zero erase size"
    );
    assert_eq!(
        align_up(u32::MAX, 64 * 1024).unwrap_err().to_string(),
        "aligned erase range is too large"
    );
}

#[test]
fn resolve_length_variants() {
    assert_eq!(resolve_length(&info(), LengthArg::Image).unwrap(), 32 * MIB);
    assert_eq!(resolve_length(&info(), LengthArg::Full).unwrap(), 64 * MIB);
    assert_eq!(resolve_length(&info(), LengthArg::Bytes(7)).unwrap(), 7);
}

#[test]
fn byte_range_covers_whole_sectors() {
    assert_eq!(
        source_range_for_byte_range(&info(), 32 * MIB, InclusiveByteRange { start: 0, end: 0 })
            .unwrap(),
        src(0, 64 * 1024)
    );
    assert_eq!(
        source_range_for_byte_range(
            &info(),
            32 * MIB,
            InclusiveByteRange { start: 0x1ffff, end: 0x20000 }
        )
        .unwrap(),
        src(0x10000, 0x20000)
    );
}

#[test]
fn byte_range_errors() {
    let mut zero = info();
    zero.erase_size = 0;
    assert_eq!(
        source_range_for_byte_range(&zero, 100, InclusiveByteRange { start: 0, end: 1 }),
        Err(AppErrorG::ZeroEraseSize)
    );
    assert_eq!(
        source_range_for_byte_range(&info(), 100, InclusiveByteRange { start: 9, end: 1 })
            .unwrap_err()
            .to_string(),
        "byte range start 0x00000009 is after end 0x00000001"
    );
    assert_eq!(
        source_range_for_byte_range(
            &info(),
            u32::MAX,
            InclusiveByteRange { start: 0, end: u32::MAX }
        )
        .unwrap_err()
        .to_string(),
        "byte range end is too large"
    );
    assert_eq!(
        source_range_for_byte_range(
            &info(),
            u32::MAX,
            InclusiveByteRange { start: 0, end: u32::MAX - 1 }
        )
        .unwrap_err()
        .to_string(),
        "aligned erase range is too large"
    );
    assert_eq!(
        source_range_for_byte_range(&info(), MIB, InclusiveByteRange { start: 0, end: MIB })
            .unwrap_err()
            .to_string(),
        "range 0x00000000..0x00110000 exceeds input image length 0x00100000"
    );
}

#[test]
fn partition_source_ranges() {
    assert_eq!(
        source_range_for_partition(32 * MIB, "uboot-env").unwrap(),
        src(3 * MIB, MIB)
    );
    assert_eq!(
        source_range_for_partition(32 * MIB, "kernel-initramfs").unwrap(),
        src(10 * MIB, 22 * MIB)
    );
    assert_eq!(
        source_range_for_partition(32 * MIB, "nope").unwrap_err().to_string(),
        "unknown NOR partition 'nope'; known partitions: rcw-bl2, uboot, uboot-env, fman-ucode, recovery-dtb, kernel-initramfs"
    );
    assert_eq!(
        source_range_for_partition(10 * MIB, "kernel-initramfs")
            .unwrap_err()
            .to_string(),
        "partition kernel-initramfs starts at 0x00a00000, beyond input image length 0x00a00000"
    );
    assert_eq!(
        source_range_for_partition(2 * MIB, "uboot").unwrap_err().to_string(),
        "partition uboot ends at 0x00300000, beyond input image length 0x00200000"
    );
}

#[test]
fn coalesce_sorts_merges_and_drops_empty() {
    let out = coalesce_source_ranges(vec![
        src(100, 10),
        src(0, 10),
        src(50, 0),
        src(10, 5),
        src(105, 20),
        src(200, 1),
    ])
    .unwrap();
    assert_eq!(out, vec![src(0, 15), src(100, 25), src(200, 1)]);
}

#[test]
fn coalesce_keeps_contained_range_inside() {
    let out = coalesce_source_ranges(vec![src(0, 100), src(10, 5)]).unwrap();
    assert_eq!(out, vec![src(0, 100)]);
}

#[test]
fn coalesce_of_only_empty_ranges_is_an_error() {
    assert_eq!(
        coalesce_source_ranges(vec![src(5, 0)]).unwrap_err().to_string(),
        "selected restore range is empty"
    );
    assert_eq!(
        coalesce_source_ranges(vec![]),
        Err(AppErrorG::EmptyRestoreRange)
    );
}

#[test]
fn resolve_whole_image_with_base_offset() {
    let ranges =
        resolve_restore_ranges(&info(), MIB, 100_000, &RestoreSelector::WholeImage).unwrap();
    assert_eq!(
        ranges,
        vec![RestoreRange {
            image_offset: 0,
            flash_offset: MIB,
            write_len: 100_000,
            erase_len: 2 * 64 * 1024,
        }]
    );
}

#[test]
fn resolve_adjacent_partitions_merge() {
    let selector = RestoreSelector::Partitions(vec![
        "uboot-env".to_string(),
        "rcw-bl2".to_string(),
        "uboot".to_string(),
    ]);
    let ranges = resolve_restore_ranges(&info(), 0, 32 * MIB, &selector).unwrap();
    assert_eq!(
        ranges,
        vec![RestoreRange {
            image_offset: 0,
            flash_offset: 0,
            write_len: 4 * MIB,
            erase_len: 4 * MIB,
        }]
    );
}

#[test]
fn resolve_errors() {
    assert_eq!(
        resolve_restore_ranges(&info(), 0, 0, &RestoreSelector::WholeImage)
            .unwrap_err()
            .to_string(),
        "selected restore range is empty"
    );
    assert_eq!(
        resolve_restore_ranges(
            &info(),
            u32::MAX,
            32 * MIB,
            &RestoreSelector::Partitions(vec!["uboot".to_string()])
        )
        .unwrap_err()
        .to_string(),
        "restore target offset overflows: 0xffffffff + 0x00100000"
    );
    assert_eq!(
        resolve_restore_ranges(&info(), 63 * MIB, 2 * MIB, &RestoreSelector::WholeImage)
            .unwrap_err()
            .to_string(),
        "range 0x03f00000..0x04100000 exceeds flash size 0x04000000"
    );
    assert_eq!(
        resolve_restore_ranges(
            &info(),
            0,
            MIB,
            &RestoreSelector::Partitions(vec!["uboot".to_string()])
        )
        .unwrap_err()
        .to_string(),
        "partition uboot ends at 0x00300000, beyond input image length 0x00100000"
    );
}
