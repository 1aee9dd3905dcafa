//! The host tool's errors. Each variant carries what its message reports;
//! `message` renders the text that the tool prints.

use vstd::prelude::*;
use crate::protocol::ProtocolError;
use crate::slip::SlipError;
use crate::baud::{join_dec, supported_baud_table, supported_bauds};
use crate::protocol::{spec_status_name, status_name};
use crate::ranges::{known_names, known_partition_names};
use crate::text::{dec_chars, hex_padded, push_dec, push_hex};
use vstd::string::StringExecFns;

verus! {

/// The sub-commands, as named in messages about their arguments.
#[derive(Clone, Copy, Debug, PartialEq, Eq, Structural)]
pub enum CommandName {
    Backup,
    Restore,
    Verify,
    Erase,
    Crc32,
}

/// An error of the host tool; `S` is the type of the texts it carries
/// (`String` in code, `Seq<char>` in specifications).
#[derive(Clone, Debug, PartialEq, Eq)]
pub enum AppErrorG<S> {
    /// A message with no further structure (I/O failures reported by the program).
    Message(S),
    // --- command line
    MissingCommand,
    UnknownCommand(S),
    UnknownOption { command: CommandName, arg: S },
    ExtraPath(CommandName),
    MissingPath(CommandName),
    MissingOption { command: CommandName, option: S },
    RequiresValue(S),
    InvalidBaudValue(S),
    MissingDevice,
    MultipleSelectors,
    ByteRangeSyntax,
    ByteRangeDots,
    ByteRangeReversed { start: u32, end: u32 },
    EmptyPartitionName,
    NoPartitions,
    UnknownPartition(S),
    ValueTooLarge(S),
    EmptySize,
    InvalidSize(S),
    SizeOverflows(S),
    // --- ranges
    RangeExceedsFlash { offset: u32, end: u64, flash_size: u32 },
    RangeExceedsInput { offset: u32, end: u64, file_len: u32 },
    RestoreOffsetOverflow { base: u32, offset: u32 },
    ZeroEraseSize,
    ByteRangeEndTooLarge,
    ByteRangeUnaligned { start: u32, end: u32 },
    PartitionOverflow(S),
    PartitionStartsBeyond { name: S, offset: u32, file_len: u32 },
    PartitionEndsBeyond { name: S, end: u32, file_len: u32 },
    EmptyRestoreRange,
    AlignedTooLarge,
    // --- baud rates
    BaudNotSupported { flag: S, baud: u32 },
    BaudNoDivisor { flag: S, baud: u32 },
    BaudNoDivisorFor(u32),
    FastBaudTooLow { fast_baud: u32, baud: u32 },
    // --- flashing
    InputTooLarge,
    RestoreTooLarge,
    RestoreUnaligned { offset: u32, erase_size: u32 },
    RestoreEraseLength { len: u32, offset: u32, erase_size: u32 },
    VerifyFailedAt { offset: u32, expected: u32, actual: u32 },
    VerifyFailed { expected: u32, actual: u32 },
    EraseUnaligned { offset: u32, erase_size: u32 },
    EraseLength { len: u32, erase_size: u32 },
    // --- device conversation
    ReadTooLarge(usize),
    ShortReadResponse,
    BadReadResponse(ProtocolError),
    ReadOffsetMismatch { requested: u32, got: u32 },
    ReadLengthMismatch { requested: usize, got: usize },
    WriteTooLarge(usize),
    BadCrcResponse(ProtocolError),
    BadInfoResponse(ProtocolError),
    UartEchoMismatch(u32),
    Stage1Empty,
    Stage1TooLarge(usize),
    Timeout(u8),
    Rejected { op: u8, status: u8 },
    FrameBuild(ProtocolError),
    SlipEncode(SlipError),
    ShortProgress,
    BadProgress(ProtocolError),
}

pub type AppError = AppErrorG<String>;

pub type AppErrorView = AppErrorG<Seq<char>>;

impl View for AppErrorG<String> {
    type V = AppErrorG<Seq<char>>;

    open spec fn view(&self) -> AppErrorG<Seq<char>> {
        match self {
            AppErrorG::Message(s) => AppErrorG::Message(s@),
            AppErrorG::MissingCommand => AppErrorG::MissingCommand,
            AppErrorG::UnknownCommand(s) => AppErrorG::UnknownCommand(s@),
            AppErrorG::UnknownOption { command, arg } => AppErrorG::UnknownOption {
                command: *command,
                arg: arg@,
            },
            AppErrorG::ExtraPath(c) => AppErrorG::ExtraPath(*c),
            AppErrorG::MissingPath(c) => AppErrorG::MissingPath(*c),
            AppErrorG::MissingOption { command, option } => AppErrorG::MissingOption {
                command: *command,
                option: option@,
            },
            AppErrorG::RequiresValue(s) => AppErrorG::RequiresValue(s@),
            AppErrorG::InvalidBaudValue(s) => AppErrorG::InvalidBaudValue(s@),
            AppErrorG::MissingDevice => AppErrorG::MissingDevice,
            AppErrorG::MultipleSelectors => AppErrorG::MultipleSelectors,
            AppErrorG::ByteRangeSyntax => AppErrorG::ByteRangeSyntax,
            AppErrorG::ByteRangeDots => AppErrorG::ByteRangeDots,
            AppErrorG::ByteRangeReversed { start, end } => AppErrorG::ByteRangeReversed {
                start: *start,
                end: *end,
            },
            AppErrorG::EmptyPartitionName => AppErrorG::EmptyPartitionName,
            AppErrorG::NoPartitions => AppErrorG::NoPartitions,
            AppErrorG::UnknownPartition(s) => AppErrorG::UnknownPartition(s@),
            AppErrorG::ValueTooLarge(s) => AppErrorG::ValueTooLarge(s@),
            AppErrorG::EmptySize => AppErrorG::EmptySize,
            AppErrorG::InvalidSize(s) => AppErrorG::InvalidSize(s@),
            AppErrorG::SizeOverflows(s) => AppErrorG::SizeOverflows(s@),
            AppErrorG::RangeExceedsFlash { offset, end, flash_size } =>
                AppErrorG::RangeExceedsFlash { offset: *offset, end: *end, flash_size: *flash_size },
            AppErrorG::RangeExceedsInput { offset, end, file_len } =>
                AppErrorG::RangeExceedsInput { offset: *offset, end: *end, file_len: *file_len },
            AppErrorG::RestoreOffsetOverflow { base, offset } =>
                AppErrorG::RestoreOffsetOverflow { base: *base, offset: *offset },
            AppErrorG::ZeroEraseSize => AppErrorG::ZeroEraseSize,
            AppErrorG::ByteRangeEndTooLarge => AppErrorG::ByteRangeEndTooLarge,
            AppErrorG::ByteRangeUnaligned { start, end } => AppErrorG::ByteRangeUnaligned {
                start: *start,
                end: *end,
            },
            AppErrorG::PartitionOverflow(s) => AppErrorG::PartitionOverflow(s@),
            AppErrorG::PartitionStartsBeyond { name, offset, file_len } =>
                AppErrorG::PartitionStartsBeyond {
                    name: name@,
                    offset: *offset,
                    file_len: *file_len,
                },
            AppErrorG::PartitionEndsBeyond { name, end, file_len } =>
                AppErrorG::PartitionEndsBeyond { name: name@, end: *end, file_len: *file_len },
            AppErrorG::EmptyRestoreRange => AppErrorG::EmptyRestoreRange,
            AppErrorG::AlignedTooLarge => AppErrorG::AlignedTooLarge,
            AppErrorG::BaudNotSupported { flag, baud } => AppErrorG::BaudNotSupported {
                flag: flag@,
                baud: *baud,
            },
            AppErrorG::BaudNoDivisor { flag, baud } => AppErrorG::BaudNoDivisor {
                flag: flag@,
                baud: *baud,
            },
            AppErrorG::BaudNoDivisorFor(b) => AppErrorG::BaudNoDivisorFor(*b),
            AppErrorG::FastBaudTooLow { fast_baud, baud } => AppErrorG::FastBaudTooLow {
                fast_baud: *fast_baud,
                baud: *baud,
            },
            AppErrorG::InputTooLarge => AppErrorG::InputTooLarge,
            AppErrorG::RestoreTooLarge => AppErrorG::RestoreTooLarge,
            AppErrorG::RestoreUnaligned { offset, erase_size } => AppErrorG::RestoreUnaligned {
                offset: *offset,
                erase_size: *erase_size,
            },
            AppErrorG::RestoreEraseLength { len, offset, erase_size } =>
                AppErrorG::RestoreEraseLength { len: *len, offset: *offset, erase_size: *erase_size },
            AppErrorG::VerifyFailedAt { offset, expected, actual } => AppErrorG::VerifyFailedAt {
                offset: *offset,
                expected: *expected,
                actual: *actual,
            },
            AppErrorG::VerifyFailed { expected, actual } => AppErrorG::VerifyFailed {
                expected: *expected,
                actual: *actual,
            },
            AppErrorG::EraseUnaligned { offset, erase_size } => AppErrorG::EraseUnaligned {
                offset: *offset,
                erase_size: *erase_size,
            },
            AppErrorG::EraseLength { len, erase_size } => AppErrorG::EraseLength {
                len: *len,
                erase_size: *erase_size,
            },
            AppErrorG::ReadTooLarge(n) => AppErrorG::ReadTooLarge(*n),
            AppErrorG::ShortReadResponse => AppErrorG::ShortReadResponse,
            AppErrorG::BadReadResponse(e) => AppErrorG::BadReadResponse(*e),
            AppErrorG::ReadOffsetMismatch { requested, got } => AppErrorG::ReadOffsetMismatch {
                requested: *requested,
                got: *got,
            },
            AppErrorG::ReadLengthMismatch { requested, got } => AppErrorG::ReadLengthMismatch {
                requested: *requested,
                got: *got,
            },
            AppErrorG::WriteTooLarge(n) => AppErrorG::WriteTooLarge(*n),
            AppErrorG::BadCrcResponse(e) => AppErrorG::BadCrcResponse(*e),
            AppErrorG::BadInfoResponse(e) => AppErrorG::BadInfoResponse(*e),
            AppErrorG::UartEchoMismatch(b) => AppErrorG::UartEchoMismatch(*b),
            AppErrorG::Stage1Empty => AppErrorG::Stage1Empty,
            AppErrorG::Stage1TooLarge(n) => AppErrorG::Stage1TooLarge(*n),
            AppErrorG::Timeout(op) => AppErrorG::Timeout(*op),
            AppErrorG::Rejected { op, status } => AppErrorG::Rejected { op: *op, status: *status },
            AppErrorG::FrameBuild(e) => AppErrorG::FrameBuild(*e),
            AppErrorG::SlipEncode(e) => AppErrorG::SlipEncode(*e),
            AppErrorG::ShortProgress => AppErrorG::ShortProgress,
            AppErrorG::BadProgress(e) => AppErrorG::BadProgress(*e),
        }
    }
}

} // verus!

verus! {

/// A result whose error is taken by its view.
pub open spec fn result_view<T>(r: Result<T, AppError>) -> Result<T, AppErrorView> {
    match r {
        Ok(v) => Ok(v),
        Err(e) => Err(e@),
    }
}

/// A result holding a vector, with the vector and the error taken by their views.
pub open spec fn vec_result_view<T>(r: Result<Vec<T>, AppError>) -> Result<Seq<T>, AppErrorView> {
    match r {
        Ok(v) => Ok(v@),
        Err(e) => Err(e@),
    }
}


// ---------------------------------------------------------------------------
// Messages

/// How a sub-command is named in messages.
pub open spec fn command_word(c: CommandName) -> Seq<char> {
    match c {
        CommandName::Backup => "backup"@,
        CommandName::Restore => "restore"@,
        CommandName::Verify => "verify"@,
        CommandName::Erase => "erase"@,
        CommandName::Crc32 => "crc32"@,
    }
}

fn command_word_str(c: CommandName) -> (r: &'static str)
    ensures
        r@ == command_word(c),
{
    match c {
        CommandName::Backup => "backup",
        CommandName::Restore => "restore",
        CommandName::Verify => "verify",
        CommandName::Erase => "erase",
        CommandName::Crc32 => "crc32",
    }
}

/// The kind of path a sub-command takes: `backup` writes its output, the others read input.
pub open spec fn path_word(c: CommandName) -> Seq<char> {
    match c {
        CommandName::Backup => "output"@,
        _ => "input"@,
    }
}

fn path_word_str(c: CommandName) -> (r: &'static str)
    ensures
        r@ == path_word(c),
{
    match c {
        CommandName::Backup => "output",
        _ => "input",
    }
}

/// The debug name of a protocol error.
pub open spec fn protocol_error_name(e: ProtocolError) -> Seq<char> {
    match e {
        ProtocolError::Short => "Short"@,
        ProtocolError::BadMagic => "BadMagic"@,
        ProtocolError::BadVersion => "BadVersion"@,
        ProtocolError::BufferTooSmall => "BufferTooSmall"@,
    }
}

fn protocol_error_name_str(e: ProtocolError) -> (r: &'static str)
    ensures
        r@ == protocol_error_name(e),
{
    match e {
        ProtocolError::Short => "Short",
        ProtocolError::BadMagic => "BadMagic",
        ProtocolError::BadVersion => "BadVersion",
        ProtocolError::BufferTooSmall => "BufferTooSmall",
    }
}

/// The debug name of a SLIP error.
pub open spec fn slip_error_name(e: SlipError) -> Seq<char> {
    match e {
        SlipError::Overflow => "Overflow"@,
        SlipError::BadEscape => "BadEscape"@,
        SlipError::BufferTooSmall => "BufferTooSmall"@,
        SlipError::FramePending => "FramePending"@,
    }
}

fn slip_error_name_str(e: SlipError) -> (r: &'static str)
    ensures
        r@ == slip_error_name(e),
{
    match e {
        SlipError::Overflow => "Overflow",
        SlipError::BadEscape => "BadEscape",
        SlipError::BufferTooSmall => "BufferTooSmall",
        SlipError::FramePending => "FramePending",
    }
}

/// The text that the tool prints for an error.
pub open spec fn spec_message(e: AppErrorView) -> Seq<char> {
    match e {
        AppErrorG::Message(s) => s,
        AppErrorG::MissingCommand => "missing command"@,
        AppErrorG::UnknownCommand(c) => "unknown command: "@ + c,
        AppErrorG::UnknownOption { command, arg } => "unknown "@ + command_word(command) + " option: "@ + arg,
        AppErrorG::ExtraPath(c) => command_word(c) + " accepts one "@ + path_word(c) + " path"@,
        AppErrorG::MissingPath(c) => command_word(c) + " requires "@ + path_word(c) + " path"@,
        AppErrorG::MissingOption { command, option } => command_word(command) + " requires "@ + option,
        AppErrorG::RequiresValue(f) => f + " requires a value"@,
        AppErrorG::InvalidBaudValue(f) => "invalid "@ + f + " value"@,
        AppErrorG::MissingDevice => "missing --device /dev/ttyUSBX"@,
        AppErrorG::MultipleSelectors => "restore accepts only one of --byte-range or --partitions"@,
        AppErrorG::ByteRangeSyntax => "byte range must use START..END"@,
        AppErrorG::ByteRangeDots => "byte range must contain exactly one '..'"@,
        AppErrorG::ByteRangeReversed { start, end } => "byte range start 0x"@ + hex_padded(start as nat, 8) + " is after end 0x"@ + hex_padded(end as nat, 8),
        AppErrorG::EmptyPartitionName => "--partitions contains an empty partition name"@,
        AppErrorG::NoPartitions => "--partitions requires at least one partition"@,
        AppErrorG::UnknownPartition(n) => "unknown NOR partition '"@ + n + "'; known partitions: "@ + known_names(),
        AppErrorG::ValueTooLarge(s) => "value is too large: "@ + s,
        AppErrorG::EmptySize => "empty size value"@,
        AppErrorG::InvalidSize(s) => "invalid size value: "@ + s,
        AppErrorG::SizeOverflows(s) => "size value overflows: "@ + s,
        AppErrorG::RangeExceedsFlash { offset, end, flash_size } => "range 0x"@ + hex_padded(offset as nat, 8) + "..0x"@ + hex_padded(end as nat, 8) + " exceeds flash size 0x"@ + hex_padded(flash_size as nat, 8),
        AppErrorG::RangeExceedsInput { offset, end, file_len } => "range 0x"@ + hex_padded(offset as nat, 8) + "..0x"@ + hex_padded(end as nat, 8) + " exceeds input image length 0x"@ + hex_padded(file_len as nat, 8),
        AppErrorG::RestoreOffsetOverflow { base, offset } => "restore target offset overflows: 0x"@ + hex_padded(base as nat, 8) + " + 0x"@ + hex_padded(offset as nat, 8),
        AppErrorG::ZeroEraseSize => "device reported zero erase size"@,
        AppErrorG::ByteRangeEndTooLarge => "byte range end is too large"@,
        AppErrorG::ByteRangeUnaligned { start, end } => "byte range 0x"@ + hex_padded(start as nat, 8) + "..0x"@ + hex_padded(end as nat, 8) + " cannot be aligned to erase sectors"@,
        AppErrorG::PartitionOverflow(n) => "partition "@ + n + " has an overflowing range"@,
        AppErrorG::PartitionStartsBeyond { name, offset, file_len } => "partition "@ + name + " starts at 0x"@ + hex_padded(offset as nat, 8) + ", beyond input image length 0x"@ + hex_padded(file_len as nat, 8),
        AppErrorG::PartitionEndsBeyond { name, end, file_len } => "partition "@ + name + " ends at 0x"@ + hex_padded(end as nat, 8) + ", beyond input image length 0x"@ + hex_padded(file_len as nat, 8),
        AppErrorG::EmptyRestoreRange => "selected restore range is empty"@,
        AppErrorG::AlignedTooLarge => "aligned erase range is too large"@,
        AppErrorG::BaudNotSupported { flag, baud } => flag + " "@ + dec_chars(baud as nat) + " is not supported; supported baud rates: "@ + join_dec(supported_baud_table()),
        AppErrorG::BaudNoDivisor { flag, baud } => flag + " "@ + dec_chars(baud as nat) + " cannot be represented by the UART divisor"@,
        AppErrorG::BaudNoDivisorFor(b) => "baud "@ + dec_chars(b as nat) + " cannot be represented by the UART divisor"@,
        AppErrorG::FastBaudTooLow { fast_baud, baud } => "--fast-baud "@ + dec_chars(fast_baud as nat) + " is lower than initial --baud "@ + dec_chars(baud as nat) + "; use --no-fast-uart to keep the initial speed"@,
        AppErrorG::InputTooLarge => "input image is too large for this protocol"@,
        AppErrorG::RestoreTooLarge => "selected restore ranges are too large"@,
        AppErrorG::RestoreUnaligned { offset, erase_size } => "restore offset 0x"@ + hex_padded(offset as nat, 8) + " is not erase-sector aligned ("@ + dec_chars(erase_size as nat) + ")"@,
        AppErrorG::RestoreEraseLength { len, offset, erase_size } => "erase length "@ + dec_chars(len as nat) + " at NOR offset 0x"@ + hex_padded(offset as nat, 8) + " is not a non-zero multiple of erase-sector size "@ + dec_chars(erase_size as nat),
        AppErrorG::VerifyFailedAt { offset, expected, actual } => "verify failed at NOR offset 0x"@ + hex_padded(offset as nat, 8) + ": host crc32=0x"@ + hex_padded(expected as nat, 8) + ", device crc32=0x"@ + hex_padded(actual as nat, 8),
        AppErrorG::VerifyFailed { expected, actual } => "verify failed: host crc32=0x"@ + hex_padded(expected as nat, 8) + ", device crc32=0x"@ + hex_padded(actual as nat, 8),
        AppErrorG::EraseUnaligned { offset, erase_size } => "erase offset 0x"@ + hex_padded(offset as nat, 8) + " is not erase-sector aligned ("@ + dec_chars(erase_size as nat) + ")"@,
        AppErrorG::EraseLength { len, erase_size } => "erase length "@ + dec_chars(len as nat) + " is not a non-zero multiple of erase-sector size "@ + dec_chars(erase_size as nat),
        AppErrorG::ReadTooLarge(n) => "read chunk too large: "@ + dec_chars(n as nat) + " > 1024"@,
        AppErrorG::ShortReadResponse => "short read response"@,
        AppErrorG::BadReadResponse(e) => "bad read response: "@ + protocol_error_name(e),
        AppErrorG::ReadOffsetMismatch { requested, got } => "read offset mismatch: requested 0x"@ + hex_padded(requested as nat, 8) + ", got 0x"@ + hex_padded(got as nat, 8),
        AppErrorG::ReadLengthMismatch { requested, got } => "read length mismatch: requested "@ + dec_chars(requested as nat) + ", got "@ + dec_chars(got as nat),
        AppErrorG::WriteTooLarge(n) => "write chunk too large: "@ + dec_chars(n as nat) + " > 1024"@,
        AppErrorG::BadCrcResponse(e) => "bad crc32 response: "@ + protocol_error_name(e),
        AppErrorG::BadInfoResponse(e) => "bad info response: "@ + protocol_error_name(e),
        AppErrorG::UartEchoMismatch(b) => "device echoed unexpected UART config for requested baud "@ + dec_chars(b as nat),
        AppErrorG::Stage1Empty => "stage1 image is empty"@,
        AppErrorG::Stage1TooLarge(n) => "stage1 image is too large: "@ + dec_chars(n as nat) + " bytes, max 106496 bytes"@,
        AppErrorG::Timeout(op) => "timed out waiting for op 0x"@ + hex_padded(op as nat, 2),
        AppErrorG::Rejected { op, status } => "device rejected op 0x"@ + hex_padded(op as nat, 2) + ": "@ + spec_status_name(status) + " ("@ + dec_chars(status as nat) + ")"@,
        AppErrorG::FrameBuild(e) => "failed to build frame: "@ + protocol_error_name(e),
        AppErrorG::SlipEncode(e) => "failed to encode slip frame: "@ + slip_error_name(e),
        AppErrorG::ShortProgress => "short progress response"@,
        AppErrorG::BadProgress(e) => "bad progress response: "@ + protocol_error_name(e),
    }
}

impl AppErrorG<String> {
    pub fn new(message: &str) -> (r: AppError)
        ensures
            r@ == AppErrorG::<Seq<char>>::Message(message@),
    {
        AppErrorG::Message(String::from_str(message))
    }

    /// The text that the tool prints for this error.
    pub fn message(&self) -> (r: String)
        ensures
            r@ == spec_message(self@),
    {
        let mut out = String::new();
        match self {
            AppErrorG::Message(s) => {
                out.append(s.as_str());
                assert(out@ =~= s@);
            },
            AppErrorG::MissingCommand => {
                out.append("missing command");
                assert(out@ =~= "missing command"@);
            },
            AppErrorG::UnknownCommand(c) => {
                out.append("unknown command: ");
                out.append(c.as_str());
                assert(out@ =~= "unknown command: "@ + c@);
            },
            AppErrorG::UnknownOption { command, arg } => {
                out.append("unknown ");
                out.append(command_word_str(*command));
                out.append(" option: ");
                out.append(arg.as_str());
                assert(out@ =~= "unknown "@ + command_word((*command)) + " option: "@ + arg@);
            },
            AppErrorG::ExtraPath(c) => {
                out.append(command_word_str(*c));
                out.append(" accepts one ");
                out.append(path_word_str(*c));
                out.append(" path");
                assert(out@ =~= command_word((*c)) + " accepts one "@ + path_word((*c)) + " path"@);
            },
            AppErrorG::MissingPath(c) => {
                out.append(command_word_str(*c));
                out.append(" requires ");
                out.append(path_word_str(*c));
                out.append(" path");
                assert(out@ =~= command_word((*c)) + " requires "@ + path_word((*c)) + " path"@);
            },
            AppErrorG::MissingOption { command, option } => {
                out.append(command_word_str(*command));
                out.append(" requires ");
                out.append(option.as_str());
                assert(out@ =~= command_word((*command)) + " requires "@ + option@);
            },
            AppErrorG::RequiresValue(f) => {
                out.append(f.as_str());
                out.append(" requires a value");
                assert(out@ =~= f@ + " requires a value"@);
            },
            AppErrorG::InvalidBaudValue(f) => {
                out.append("invalid ");
                out.append(f.as_str());
                out.append(" value");
                assert(out@ =~= "invalid "@ + f@ + " value"@);
            },
            AppErrorG::MissingDevice => {
                out.append("missing --device /dev/ttyUSBX");
                assert(out@ =~= "missing --device /dev/ttyUSBX"@);
            },
            AppErrorG::MultipleSelectors => {
                out.append("restore accepts only one of --byte-range or --partitions");
                assert(out@ =~= "restore accepts only one of --byte-range or --partitions"@);
            },
            AppErrorG::ByteRangeSyntax => {
                out.append("byte range must use START..END");
                assert(out@ =~= "byte range must use START..END"@);
            },
            AppErrorG::ByteRangeDots => {
                out.append("byte range must contain exactly one '..'");
                assert(out@ =~= "byte range must contain exactly one '..'"@);
            },
            AppErrorG::ByteRangeReversed { start, end } => {
                out.append("byte range start 0x");
                push_hex(&mut out, *start as u64, 8);
                out.append(" is after end 0x");
                push_hex(&mut out, *end as u64, 8);
                assert(out@ =~= "byte range start 0x"@ + hex_padded((*start) as nat, 8) + " is after end 0x"@ + hex_padded((*end) as nat, 8));
            },
            AppErrorG::EmptyPartitionName => {
                out.append("--partitions contains an empty partition name");
                assert(out@ =~= "--partitions contains an empty partition name"@);
            },
            AppErrorG::NoPartitions => {
                out.append("--partitions requires at least one partition");
                assert(out@ =~= "--partitions requires at least one partition"@);
            },
            AppErrorG::UnknownPartition(n) => {
                out.append("unknown NOR partition '");
                out.append(n.as_str());
                out.append("'; known partitions: ");
                let k = known_partition_names(); out.append(k.as_str());
                assert(out@ =~= "unknown NOR partition '"@ + n@ + "'; known partitions: "@ + known_names());
            },
            AppErrorG::ValueTooLarge(s) => {
                out.append("value is too large: ");
                out.append(s.as_str());
                assert(out@ =~= "value is too large: "@ + s@);
            },
            AppErrorG::EmptySize => {
                out.append("empty size value");
                assert(out@ =~= "empty size value"@);
            },
            AppErrorG::InvalidSize(s) => {
                out.append("invalid size value: ");
                out.append(s.as_str());
                assert(out@ =~= "invalid size value: "@ + s@);
            },
            AppErrorG::SizeOverflows(s) => {
                out.append("size value overflows: ");
                out.append(s.as_str());
                assert(out@ =~= "size value overflows: "@ + s@);
            },
            AppErrorG::RangeExceedsFlash { offset, end, flash_size } => {
                out.append("range 0x");
                push_hex(&mut out, *offset as u64, 8);
                out.append("..0x");
                push_hex(&mut out, *end as u64, 8);
                out.append(" exceeds flash size 0x");
                push_hex(&mut out, *flash_size as u64, 8);
                assert(out@ =~= "range 0x"@ + hex_padded((*offset) as nat, 8) + "..0x"@ + hex_padded((*end) as nat, 8) + " exceeds flash size 0x"@ + hex_padded((*flash_size) as nat, 8));
            },
            AppErrorG::RangeExceedsInput { offset, end, file_len } => {
                out.append("range 0x");
                push_hex(&mut out, *offset as u64, 8);
                out.append("..0x");
                push_hex(&mut out, *end as u64, 8);
                out.append(" exceeds input image length 0x");
                push_hex(&mut out, *file_len as u64, 8);
                assert(out@ =~= "range 0x"@ + hex_padded((*offset) as nat, 8) + "..0x"@ + hex_padded((*end) as nat, 8) + " exceeds input image length 0x"@ + hex_padded((*file_len) as nat, 8));
            },
            AppErrorG::RestoreOffsetOverflow { base, offset } => {
                out.append("restore target offset overflows: 0x");
                push_hex(&mut out, *base as u64, 8);
                out.append(" + 0x");
                push_hex(&mut out, *offset as u64, 8);
                assert(out@ =~= "restore target offset overflows: 0x"@ + hex_padded((*base) as nat, 8) + " + 0x"@ + hex_padded((*offset) as nat, 8));
            },
            AppErrorG::ZeroEraseSize => {
                out.append("device reported zero erase size");
                assert(out@ =~= "device reported zero erase size"@);
            },
            AppErrorG::ByteRangeEndTooLarge => {
                out.append("byte range end is too large");
                assert(out@ =~= "byte range end is too large"@);
            },
            AppErrorG::ByteRangeUnaligned { start, end } => {
                out.append("byte range 0x");
                push_hex(&mut out, *start as u64, 8);
                out.append("..0x");
                push_hex(&mut out, *end as u64, 8);
                out.append(" cannot be aligned to erase sectors");
                assert(out@ =~= "byte range 0x"@ + hex_padded((*start) as nat, 8) + "..0x"@ + hex_padded((*end) as nat, 8) + " cannot be aligned to erase sectors"@);
            },
            AppErrorG::PartitionOverflow(n) => {
                out.append("partition ");
                out.append(n.as_str());
                out.append(" has an overflowing range");
                assert(out@ =~= "partition "@ + n@ + " has an overflowing range"@);
            },
            AppErrorG::PartitionStartsBeyond { name, offset, file_len } => {
                out.append("partition ");
                out.append(name.as_str());
                out.append(" starts at 0x");
                push_hex(&mut out, *offset as u64, 8);
                out.append(", beyond input image length 0x");
                push_hex(&mut out, *file_len as u64, 8);
                assert(out@ =~= "partition "@ + name@ + " starts at 0x"@ + hex_padded((*offset) as nat, 8) + ", beyond input image length 0x"@ + hex_padded((*file_len) as nat, 8));
            },
            AppErrorG::PartitionEndsBeyond { name, end, file_len } => {
                out.append("partition ");
                out.append(name.as_str());
                out.append(" ends at 0x");
                push_hex(&mut out, *end as u64, 8);
                out.append(", beyond input image length 0x");
                push_hex(&mut out, *file_len as u64, 8);
                assert(out@ =~= "partition "@ + name@ + " ends at 0x"@ + hex_padded((*end) as nat, 8) + ", beyond input image length 0x"@ + hex_padded((*file_len) as nat, 8));
            },
            AppErrorG::EmptyRestoreRange => {
                out.append("selected restore range is empty");
                assert(out@ =~= "selected restore range is empty"@);
            },
            AppErrorG::AlignedTooLarge => {
                out.append("aligned erase range is too large");
                assert(out@ =~= "aligned erase range is too large"@);
            },
            AppErrorG::BaudNotSupported { flag, baud } => {
                out.append(flag.as_str());
                out.append(" ");
                push_dec(&mut out, *baud as u64);
                out.append(" is not supported; supported baud rates: ");
                let b = supported_bauds(); out.append(b.as_str());
                assert(out@ =~= flag@ + " "@ + dec_chars((*baud) as nat) + " is not supported; supported baud rates: "@ + join_dec(supported_baud_table()));
            },
            AppErrorG::BaudNoDivisor { flag, baud } => {
                out.append(flag.as_str());
                out.append(" ");
                push_dec(&mut out, *baud as u64);
                out.append(" cannot be represented by the UART divisor");
                assert(out@ =~= flag@ + " "@ + dec_chars((*baud) as nat) + " cannot be represented by the UART divisor"@);
            },
            AppErrorG::BaudNoDivisorFor(b) => {
                out.append("baud ");
                push_dec(&mut out, *b as u64);
                out.append(" cannot be represented by the UART divisor");
                assert(out@ =~= "baud "@ + dec_chars((*b) as nat) + " cannot be represented by the UART divisor"@);
            },
            AppErrorG::FastBaudTooLow { fast_baud, baud } => {
                out.append("--fast-baud ");
                push_dec(&mut out, *fast_baud as u64);
                out.append(" is lower than initial --baud ");
                push_dec(&mut out, *baud as u64);
                out.append("; use --no-fast-uart to keep the initial speed");
                assert(out@ =~= "--fast-baud "@ + dec_chars((*fast_baud) as nat) + " is lower than initial --baud "@ + dec_chars((*baud) as nat) + "; use --no-fast-uart to keep the initial speed"@);
            },
            AppErrorG::InputTooLarge => {
                out.append("input image is too large for this protocol");
                assert(out@ =~= "input image is too large for this protocol"@);
            },
            AppErrorG::RestoreTooLarge => {
                out.append("selected restore ranges are too large");
                assert(out@ =~= "selected restore ranges are too large"@);
            },
            AppErrorG::RestoreUnaligned { offset, erase_size } => {
                out.append("restore offset 0x");
                push_hex(&mut out, *offset as u64, 8);
                out.append(" is not erase-sector aligned (");
                push_dec(&mut out, *erase_size as u64);
                out.append(")");
                assert(out@ =~= "restore offset 0x"@ + hex_padded((*offset) as nat, 8) + " is not erase-sector aligned ("@ + dec_chars((*erase_size) as nat) + ")"@);
            },
            AppErrorG::RestoreEraseLength { len, offset, erase_size } => {
                out.append("erase length ");
                push_dec(&mut out, *len as u64);
                out.append(" at NOR offset 0x");
                push_hex(&mut out, *offset as u64, 8);
                out.append(" is not a non-zero multiple of erase-sector size ");
                push_dec(&mut out, *erase_size as u64);
                assert(out@ =~= "erase length "@ + dec_chars((*len) as nat) + " at NOR offset 0x"@ + hex_padded((*offset) as nat, 8) + " is not a non-zero multiple of erase-sector size "@ + dec_chars((*erase_size) as nat));
            },
            AppErrorG::VerifyFailedAt { offset, expected, actual } => {
                out.append("verify failed at NOR offset 0x");
                push_hex(&mut out, *offset as u64, 8);
                out.append(": host crc32=0x");
                push_hex(&mut out, *expected as u64, 8);
                out.append(", device crc32=0x");
                push_hex(&mut out, *actual as u64, 8);
                assert(out@ =~= "verify failed at NOR offset 0x"@ + hex_padded((*offset) as nat, 8) + ": host crc32=0x"@ + hex_padded((*expected) as nat, 8) + ", device crc32=0x"@ + hex_padded((*actual) as nat, 8));
            },
            AppErrorG::VerifyFailed { expected, actual } => {
                out.append("verify failed: host crc32=0x");
                push_hex(&mut out, *expected as u64, 8);
                out.append(", device crc32=0x");
                push_hex(&mut out, *actual as u64, 8);
                assert(out@ =~= "verify failed: host crc32=0x"@ + hex_padded((*expected) as nat, 8) + ", device crc32=0x"@ + hex_padded((*actual) as nat, 8));
            },
            AppErrorG::EraseUnaligned { offset, erase_size } => {
                out.append("erase offset 0x");
                push_hex(&mut out, *offset as u64, 8);
                out.append(" is not erase-sector aligned (");
                push_dec(&mut out, *erase_size as u64);
                out.append(")");
                assert(out@ =~= "erase offset 0x"@ + hex_padded((*offset) as nat, 8) + " is not erase-sector aligned ("@ + dec_chars((*erase_size) as nat) + ")"@);
            },
            AppErrorG::EraseLength { len, erase_size } => {
                out.append("erase length ");
                push_dec(&mut out, *len as u64);
                out.append(" is not a non-zero multiple of erase-sector size ");
                push_dec(&mut out, *erase_size as u64);
                assert(out@ =~= "erase length "@ + dec_chars((*len) as nat) + " is not a non-zero multiple of erase-sector size "@ + dec_chars((*erase_size) as nat));
            },
            AppErrorG::ReadTooLarge(n) => {
                out.append("read chunk too large: ");
                push_dec(&mut out, *n as u64);
                out.append(" > 1024");
                assert(out@ =~= "read chunk too large: "@ + dec_chars((*n) as nat) + " > 1024"@);
            },
            AppErrorG::ShortReadResponse => {
                out.append("short read response");
                assert(out@ =~= "short read response"@);
            },
            AppErrorG::BadReadResponse(e) => {
                out.append("bad read response: ");
                out.append(protocol_error_name_str(*e));
                assert(out@ =~= "bad read response: "@ + protocol_error_name((*e)));
            },
            AppErrorG::ReadOffsetMismatch { requested, got } => {
                out.append("read offset mismatch: requested 0x");
                push_hex(&mut out, *requested as u64, 8);
                out.append(", got 0x");
                push_hex(&mut out, *got as u64, 8);
                assert(out@ =~= "read offset mismatch: requested 0x"@ + hex_padded((*requested) as nat, 8) + ", got 0x"@ + hex_padded((*got) as nat, 8));
            },
            AppErrorG::ReadLengthMismatch { requested, got } => {
                out.append("read length mismatch: requested ");
                push_dec(&mut out, *requested as u64);
                out.append(", got ");
                push_dec(&mut out, *got as u64);
                assert(out@ =~= "read length mismatch: requested "@ + dec_chars((*requested) as nat) + ", got "@ + dec_chars((*got) as nat));
            },
            AppErrorG::WriteTooLarge(n) => {
                out.append("write chunk too large: ");
                push_dec(&mut out, *n as u64);
                out.append(" > 1024");
                assert(out@ =~= "write chunk too large: "@ + dec_chars((*n) as nat) + " > 1024"@);
            },
            AppErrorG::BadCrcResponse(e) => {
                out.append("bad crc32 response: ");
                out.append(protocol_error_name_str(*e));
                assert(out@ =~= "bad crc32 response: "@ + protocol_error_name((*e)));
            },
            AppErrorG::BadInfoResponse(e) => {
                out.append("bad info response: ");
                out.append(protocol_error_name_str(*e));
                assert(out@ =~= "bad info response: "@ + protocol_error_name((*e)));
            },
            AppErrorG::UartEchoMismatch(b) => {
                out.append("device echoed unexpected UART config for requested baud ");
                push_dec(&mut out, *b as u64);
                assert(out@ =~= "device echoed unexpected UART config for requested baud "@ + dec_chars((*b) as nat));
            },
            AppErrorG::Stage1Empty => {
                out.append("stage1 image is empty");
                assert(out@ =~= "stage1 image is empty"@);
            },
            AppErrorG::Stage1TooLarge(n) => {
                out.append("stage1 image is too large: ");
                push_dec(&mut out, *n as u64);
                out.append(" bytes, max 106496 bytes");
                assert(out@ =~= "stage1 image is too large: "@ + dec_chars((*n) as nat) + " bytes, max 106496 bytes"@);
            },
            AppErrorG::Timeout(op) => {
                out.append("timed out waiting for op 0x");
                push_hex(&mut out, *op as u64, 2);
                assert(out@ =~= "timed out waiting for op 0x"@ + hex_padded((*op) as nat, 2));
            },
            AppErrorG::Rejected { op, status } => {
                out.append("device rejected op 0x");
                push_hex(&mut out, *op as u64, 2);
                out.append(": ");
                out.append(status_name(*status));
                out.append(" (");
                push_dec(&mut out, *status as u64);
                out.append(")");
                assert(out@ =~= "device rejected op 0x"@ + hex_padded((*op) as nat, 2) + ": "@ + spec_status_name((*status)) + " ("@ + dec_chars((*status) as nat) + ")"@);
            },
            AppErrorG::FrameBuild(e) => {
                out.append("failed to build frame: ");
                out.append(protocol_error_name_str(*e));
                assert(out@ =~= "failed to build frame: "@ + protocol_error_name((*e)));
            },
            AppErrorG::SlipEncode(e) => {
                out.append("failed to encode slip frame: ");
                out.append(slip_error_name_str(*e));
                assert(out@ =~= "failed to encode slip frame: "@ + slip_error_name((*e)));
            },
            AppErrorG::ShortProgress => {
                out.append("short progress response");
                assert(out@ =~= "short progress response"@);
            },
            AppErrorG::BadProgress(e) => {
                out.append("bad progress response: ");
                out.append(protocol_error_name_str(*e));
                assert(out@ =~= "bad progress response: "@ + protocol_error_name((*e)));
            },
        }
        out
    }

    /// Same as `message`; the text a user sees.
    pub fn to_string(&self) -> (r: String)
        ensures
            r@ == spec_message(self@),
    {
        self.message()
    }
}


} // verus!
