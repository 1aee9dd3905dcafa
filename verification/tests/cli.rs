use mono_uart_recovery::args::{
    parse_args, parse_byte_range_arg, parse_command, parse_length_arg, parse_partition_list,
    parse_size, parse_size_u32, require_arg, set_restore_selector, Command, Config, ParsedArgs,
};
use mono_uart_recovery::error::{AppError, AppErrorG, CommandName};
use mono_uart_recovery::ranges::{InclusiveByteRange, LengthArg, RestoreSelector};

fn args(values: &[&str]) -> Vec<String> {
    values.iter().map(|value| value.to_string()).collect()
}

fn message(err: AppError) -> String {
    err.to_string()
}

#[test]
fn parse_size_decimal_hex_and_suffixes() {
    assert_eq!(parse_size("0").unwrap(), 0);
    assert_eq!(parse_size("4096").unwrap(), 4096);
    assert_eq!(parse_size("0x1000").unwrap(), 4096);
    assert_eq!(parse_size("0X1f").unwrap(), 31);
    assert_eq!(parse_size("64k").unwrap(), 64 * 1024);
    assert_eq!(parse_size("64K").unwrap(), 64 * 1024);
    assert_eq!(parse_size("32m").unwrap(), 32 * 1024 * 1024);
    assert_eq!(parse_size("2G").unwrap(), 2 * 1024 * 1024 * 1024);
    assert_eq!(parse_size("0x10k").unwrap(), 16 * 1024);
    assert_eq!(parse_size("  12 \t").unwrap(), 12);
    assert_eq!(parse_size("+7").unwrap(), 7);
    assert_eq!(parse_size("18446744073709551615").unwrap(), u64::MAX);
}

#[test]
fn parse_size_errors() {
    assert_eq!(parse_size("   "), Err(AppErrorG::EmptySize));
    assert_eq!(message(parse_size("").unwrap_err()), "empty size value");
    assert_eq!(
        message(parse_size(" 12x ").unwrap_err()),
        "invalid size value: 12x"
    );
    assert_eq!(message(parse_size("k").unwrap_err()), "invalid size value: k");
    assert_eq!(message(parse_size("0x").unwrap_err()), "invalid size value: 0x");
    assert_eq!(message(parse_size("-1").unwrap_err()), "invalid size value: -1");
    assert_eq!(
        message(parse_size("18446744073709551616").unwrap_err()),
        "invalid size value: 18446744073709551616"
    );
    assert_eq!(
        message(parse_size("17179869184g").unwrap_err()),
        "size value overflows: 17179869184g"
    );
}

#[test]
fn parse_size_u32_limits() {
    assert_eq!(parse_size_u32("0xffffffff").unwrap(), u32::MAX);
    assert_eq!(parse_size_u32("4g").unwrap_err().to_string(), "value is too large: 4g");
    assert_eq!(parse_size_u32(" 4g").unwrap_err().to_string(), "value is too large:  4g");
}

#[test]
fn parse_length_arg_keywords_and_sizes() {
    assert_eq!(parse_length_arg("image").unwrap(), LengthArg::Image);
    assert_eq!(parse_length_arg("full").unwrap(), LengthArg::Full);
    assert_eq!(parse_length_arg("1m").unwrap(), LengthArg::Bytes(1024 * 1024));
    assert_eq!(
        parse_length_arg("Image").unwrap_err().to_string(),
        "invalid size value: Image"
    );
}

#[test]
fn byte_range_parser_errors() {
    assert_eq!(
        parse_byte_range_arg("10").unwrap_err().to_string(),
        "byte range must use START..END"
    );
    assert_eq!(
        parse_byte_range_arg("1..2..3").unwrap_err().to_string(),
        "byte range must contain exactly one '..'"
    );
    assert_eq!(
        parse_byte_range_arg("0x20..0x10").unwrap_err().to_string(),
        "byte range start 0x00000020 is after end 0x00000010"
    );
    assert_eq!(
        parse_byte_range_arg("5..5").unwrap(),
        InclusiveByteRange { start: 5, end: 5 }
    );
}

#[test]
fn partition_list_trims_and_checks_names() {
    assert_eq!(
        parse_partition_list(" uboot , uboot-env").unwrap(),
        vec!["uboot".to_string(), "uboot-env".to_string()]
    );
    assert_eq!(
        parse_partition_list("uboot,,kernel-initramfs").unwrap_err().to_string(),
        "--partitions contains an empty partition name"
    );
    assert_eq!(
        parse_partition_list("").unwrap_err().to_string(),
        "--partitions contains an empty partition name"
    );
    assert_eq!(
        parse_partition_list("boot").unwrap_err().to_string(),
        "unknown NOR partition 'boot'; known partitions: rcw-bl2, uboot, uboot-env, fman-ucode, recovery-dtb, kernel-initramfs"
    );
}

#[test]
fn require_arg_reports_missing_value() {
    let list = args(&["--offset"]);
    assert_eq!(require_arg(&list, 0, "--offset").unwrap(), "--offset");
    assert_eq!(
        require_arg(&list, 1, "--offset").unwrap_err().to_string(),
        "--offset requires a value"
    );
}

#[test]
fn set_restore_selector_fills_once() {
    let mut slot = None;
    assert!(set_restore_selector(&mut slot, RestoreSelector::WholeImage).is_ok());
    assert_eq!(slot, Some(RestoreSelector::WholeImage));
    assert_eq!(
        set_restore_selector(&mut slot, RestoreSelector::Partitions(vec![])),
        Err(AppErrorG::MultipleSelectors)
    );
    assert_eq!(slot, Some(RestoreSelector::WholeImage));
}

#[test]
fn parse_command_info_and_unknown() {
    assert_eq!(parse_command(&args(&["info"])).unwrap(), Command::Info);
    assert_eq!(parse_command(&args(&[])).unwrap_err().to_string(), "missing command");
    assert_eq!(
        parse_command(&args(&["flash"])).unwrap_err().to_string(),
        "unknown command: flash"
    );
}

#[test]
fn parse_command_backup_defaults_and_options() {
    assert_eq!(
        parse_command(&args(&["backup", "out.bin"])).unwrap(),
        Command::Backup {
            output: "out.bin".to_string(),
            offset: 0,
            length: LengthArg::Image
        }
    );
    assert_eq!(
        parse_command(&args(&["backup", "--offset", "1m", "out.bin", "--length=full"])).unwrap(),
        Command::Backup {
            output: "out.bin".to_string(),
            offset: 1024 * 1024,
            length: LengthArg::Full
        }
    );
    assert_eq!(
        parse_command(&args(&["backup"])).unwrap_err().to_string(),
        "backup requires output path"
    );
    assert_eq!(
        parse_command(&args(&["backup", "a", "b"])).unwrap_err().to_string(),
        "backup accepts one output path"
    );
    assert_eq!(
        parse_command(&args(&["backup", "-x"])).unwrap_err().to_string(),
        "unknown backup option: -x"
    );
    assert_eq!(
        parse_command(&args(&["backup", "out.bin", "--length"])).unwrap_err(),
        AppErrorG::RequiresValue("--length".to_string())
    );
}

#[test]
fn parse_command_restore_defaults_and_flags() {
    assert_eq!(
        parse_command(&args(&["restore", "fw.bin"])).unwrap(),
        Command::Restore {
            input: "fw.bin".to_string(),
            offset: 0,
            erase: true,
            verify: true,
            selector: RestoreSelector::WholeImage
        }
    );
    assert_eq!(
        parse_command(&args(&[
            "restore",
            "--no-erase",
            "fw.bin",
            "--no-verify",
            "--offset=0x10000",
            "--byte-range",
            "0..0xffff"
        ]))
        .unwrap(),
        Command::Restore {
            input: "fw.bin".to_string(),
            offset: 0x10000,
            erase: false,
            verify: false,
            selector: RestoreSelector::ByteRange(InclusiveByteRange { start: 0, end: 0xffff })
        }
    );
    assert_eq!(
        parse_command(&args(&["restore"])).unwrap_err().to_string(),
        "restore requires input path"
    );
    assert_eq!(
        parse_command(&args(&["restore", "a", "b"])).unwrap_err().to_string(),
        "restore accepts one input path"
    );
    assert_eq!(
        parse_command(&args(&["restore", "a", "--force"])).unwrap_err().to_string(),
        "unknown restore option: --force"
    );
    assert_eq!(
        parse_command(&args(&["restore", "a", "--partitions=uboot", "--partitions=uboot"]))
            .unwrap_err(),
        AppErrorG::MultipleSelectors
    );
}

#[test]
fn parse_command_verify() {
    assert_eq!(
        parse_command(&args(&["verify", "fw.bin", "--offset", "64k"])).unwrap(),
        Command::Verify {
            input: "fw.bin".to_string(),
            offset: 64 * 1024
        }
    );
    assert_eq!(
        parse_command(&args(&["verify"])).unwrap_err().to_string(),
        "verify requires input path"
    );
    assert_eq!(
        parse_command(&args(&["verify", "a", "b"])).unwrap_err().to_string(),
        "verify accepts one input path"
    );
    assert_eq!(
        parse_command(&args(&["verify", "--length=1"])).unwrap_err().to_string(),
        "unknown verify option: --length=1"
    );
}

#[test]
fn parse_command_erase() {
    assert_eq!(
        parse_command(&args(&["erase", "--length", "image"])).unwrap(),
        Command::Erase {
            offset: 0,
            length: LengthArg::Image
        }
    );
    assert_eq!(
        parse_command(&args(&["erase", "--offset=64k", "--length=128k"])).unwrap(),
        Command::Erase {
            offset: 64 * 1024,
            length: LengthArg::Bytes(128 * 1024)
        }
    );
    assert_eq!(
        parse_command(&args(&["erase"])).unwrap_err().to_string(),
        "erase requires --length"
    );
    assert_eq!(
        parse_command(&args(&["erase", "file.bin"])).unwrap_err().to_string(),
        "unknown erase option: file.bin"
    );
}

#[test]
fn parse_command_crc32() {
    assert_eq!(
        parse_command(&args(&["crc32", "--offset", "0", "--length=0x100"])).unwrap(),
        Command::Crc32 {
            offset: 0,
            length: 0x100
        }
    );
    assert_eq!(
        parse_command(&args(&["crc32", "--length=1"])).unwrap_err().to_string(),
        "crc32 requires --offset"
    );
    assert_eq!(
        parse_command(&args(&["crc32", "--offset=1"])).unwrap_err().to_string(),
        "crc32 requires --length"
    );
    assert_eq!(
        parse_command(&args(&["crc32", "--length=image"])).unwrap_err().to_string(),
        "invalid size value: image"
    );
    assert_eq!(
        parse_command(&args(&["crc32", "x"])).unwrap_err().to_string(),
        "unknown crc32 option: x"
    );
    assert_eq!(
        parse_command(&args(&["crc32", "--offset=1"])).unwrap_err(),
        AppErrorG::MissingOption {
            command: CommandName::Crc32,
            option: "--length".to_string()
        }
    );
}

#[test]
fn parse_args_defaults() {
    let parsed = parse_args(args(&["--device", "/dev/ttyUSB0", "info"]), "stage1.bin".to_string())
        .unwrap();
    assert_eq!(
        parsed,
        ParsedArgs::Run(Config {
            device: "/dev/ttyUSB0".to_string(),
            stage1: "stage1.bin".to_string(),
            baud: 115_200,
            fast_uart: true,
            fast_baud: 921_600,
            command: Command::Info,
        })
    );
}

#[test]
fn parse_args_all_global_options() {
    let parsed = parse_args(
        args(&[
            "--device=/dev/ttyUSB1",
            "--stage1",
            "s1.bin",
            "-b",
            "57600",
            "--fast-baud=3000000",
            "--no-fast-uart",
            "crc32",
            "--offset=0",
            "--length=4",
        ]),
        "default.bin".to_string(),
    )
    .unwrap();
    assert_eq!(
        parsed,
        ParsedArgs::Run(Config {
            device: "/dev/ttyUSB1".to_string(),
            stage1: "s1.bin".to_string(),
            baud: 57_600,
            fast_uart: false,
            fast_baud: 3_000_000,
            command: Command::Crc32 { offset: 0, length: 4 },
        })
    );
    let parsed = parse_args(
        args(&["-d", "tty", "--stage1=x.bin", "--baud=9600", "--fast-baud", "19200", "info"]),
        "default.bin".to_string(),
    )
    .unwrap();
    assert_eq!(
        parsed,
        ParsedArgs::Run(Config {
            device: "tty".to_string(),
            stage1: "x.bin".to_string(),
            baud: 9_600,
            fast_uart: true,
            fast_baud: 19_200,
            command: Command::Info,
        })
    );
}

#[test]
fn parse_args_help_wins_over_later_errors() {
    assert_eq!(
        parse_args(args(&["-h", "bogus"]), "s".to_string()).unwrap(),
        ParsedArgs::Help
    );
    assert_eq!(
        parse_args(args(&["--device", "tty", "--help"]), "s".to_string()).unwrap(),
        ParsedArgs::Help
    );
}

#[test]
fn parse_args_errors() {
    assert_eq!(
        parse_args(args(&["info"]), "s".to_string()).unwrap_err().to_string(),
        "missing --device /dev/ttyUSBX"
    );
    assert_eq!(
        parse_args(args(&["--device"]), "s".to_string()).unwrap_err().to_string(),
        "--device requires a value"
    );
    assert_eq!(
        parse_args(args(&["--device", "tty", "--baud", "fast", "info"]), "s".to_string())
            .unwrap_err()
            .to_string(),
        "invalid --baud value"
    );
    assert_eq!(
        parse_args(args(&["--device", "tty", "--fast-baud=0x10", "info"]), "s".to_string())
            .unwrap_err()
            .to_string(),
        "invalid --fast-baud value"
    );
    assert_eq!(
        parse_args(args(&["--device", "tty"]), "s".to_string()).unwrap_err().to_string(),
        "missing command"
    );
    assert_eq!(
        parse_args(args(&["--device", "tty", "--verbose", "info"]), "s".to_string())
            .unwrap_err()
            .to_string(),
        "unknown command: --verbose"
    );
}
