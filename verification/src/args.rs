//! The host tool's command line: sizes, byte ranges, partition lists, the
//! sub-commands and the global options.

use vstd::prelude::*;
use vstd::string::{StrSliceExecFns, StringExecFns};
use crate::error::{AppError, AppErrorG, AppErrorView, CommandName, result_view, vec_result_view};
use crate::ranges::{
    find_nor_partition, spec_find_partition, strings_view, InclusiveByteRange, LengthArg,
    RestoreSelector, RestoreSelectorView,
};
use crate::text::{
    find_dots, find_dots_exec, has_prefix, parse_uint, slice_chars, spec_parse_uint, spec_trim,
    split_commas, split_commas_exec, starts_with, str_eq, strs_view, suffix_from, trim,
};

verus! {

// ---------------------------------------------------------------------------
// Sizes

/// A size: decimal or `0x`/`0X` hexadecimal, with an optional `k`/`m`/`g` (binary)
/// multiplier suffix, surrounded by optional white space.
pub open spec fn spec_parse_size(input: Seq<char>) -> Result<u64, AppErrorView> {
    let t = spec_trim(input);
    if t.len() == 0 {
        Err(AppErrorG::EmptySize)
    } else {
        let c = t.last();
        let number = if c == 'k' || c == 'K' || c == 'm' || c == 'M' || c == 'g' || c == 'G' {
            t.drop_last()
        } else {
            t
        };
        let mult: nat = if c == 'k' || c == 'K' {
            1024
        } else if c == 'm' || c == 'M' {
            1024 * 1024
        } else if c == 'g' || c == 'G' {
            1024 * 1024 * 1024
        } else {
            1
        };
        let parsed = if has_prefix(number, "0x"@) || has_prefix(number, "0X"@) {
            spec_parse_uint(number.skip(2), 16, u64::MAX as nat)
        } else {
            spec_parse_uint(number, 10, u64::MAX as nat)
        };
        match parsed {
            None => Err(AppErrorG::InvalidSize(t)),
            Some(b) => if b * mult > u64::MAX {
                Err(AppErrorG::SizeOverflows(t))
            } else {
                Ok((b * mult) as u64)
            },
        }
    }
}

pub fn parse_size(input: &str) -> (r: Result<u64, AppError>)
    ensures
        result_view(r) == spec_parse_size(input@),
{
    let t = trim(input);
    let n = t.unicode_len();
    if n == 0 {
        return Err(AppErrorG::EmptySize);
    }
    let c = t.get_char(n - 1);
    let (number, multiplier): (&str, u64) = if c == 'k' || c == 'K' {
        (slice_chars(t, 0, n - 1), 1024)
    } else if c == 'm' || c == 'M' {
        (slice_chars(t, 0, n - 1), 1024 * 1024)
    } else if c == 'g' || c == 'G' {
        (slice_chars(t, 0, n - 1), 1024 * 1024 * 1024)
    } else {
        (t, 1)
    };
    proof {
        reveal_strlit("0x");
        reveal_strlit("0X");
        assert(t@.drop_last() =~= t@.subrange(0, n - 1));
    }
    let parsed = if starts_with(number, "0x") || starts_with(number, "0X") {
        parse_uint(suffix_from(number, 2), 16, u64::MAX)
    } else {
        parse_uint(number, 10, u64::MAX)
    };
    match parsed {
        None => Err(AppErrorG::InvalidSize(String::from_str(t))),
        Some(base) => match base.checked_mul(multiplier) {
            Some(v) => Ok(v),
            None => Err(AppErrorG::SizeOverflows(String::from_str(t))),
        },
    }
}

/// A size that must fit in 32 bits.
pub open spec fn spec_parse_size_u32(input: Seq<char>) -> Result<u32, AppErrorView> {
    match spec_parse_size(input) {
        Err(e) => Err(e),
        Ok(v) => if v > u32::MAX {
            Err(AppErrorG::ValueTooLarge(input))
        } else {
            Ok(v as u32)
        },
    }
}

pub fn parse_size_u32(input: &str) -> (r: Result<u32, AppError>)
    ensures
        result_view(r) == spec_parse_size_u32(input@),
{
    let value = parse_size(input)?;
    if value > u32::MAX as u64 {
        return Err(AppErrorG::ValueTooLarge(String::from_str(input)));
    }
    Ok(value as u32)
}

/// A `--length` value: `image`, `full`, or a size.
pub open spec fn spec_parse_length_arg(input: Seq<char>) -> Result<LengthArg, AppErrorView> {
    if input == "image"@ {
        Ok(LengthArg::Image)
    } else if input == "full"@ {
        Ok(LengthArg::Full)
    } else {
        match spec_parse_size_u32(input) {
            Err(e) => Err(e),
            Ok(v) => Ok(LengthArg::Bytes(v)),
        }
    }
}

pub fn parse_length_arg(input: &str) -> (r: Result<LengthArg, AppError>)
    ensures
        result_view(r) == spec_parse_length_arg(input@),
{
    if str_eq(input, "image") {
        return Ok(LengthArg::Image);
    }
    if str_eq(input, "full") {
        return Ok(LengthArg::Full);
    }
    let v = parse_size_u32(input)?;
    Ok(LengthArg::Bytes(v))
}

// ---------------------------------------------------------------------------
// Restore selectors

/// `START..END`, an inclusive byte range.
pub open spec fn spec_parse_byte_range(input: Seq<char>) -> Result<InclusiveByteRange, AppErrorView> {
    match find_dots(input, 0) {
        None => Err(AppErrorG::ByteRangeSyntax),
        Some(i) => {
            let start = input.take(i);
            let end = input.skip(i + 2);
            if find_dots(end, 0) is Some {
                Err(AppErrorG::ByteRangeDots)
            } else {
                match spec_parse_size_u32(start) {
                    Err(e) => Err(e),
                    Ok(s) => match spec_parse_size_u32(end) {
                        Err(e) => Err(e),
                        Ok(e) => if e < s {
                            Err(AppErrorG::ByteRangeReversed { start: s, end: e })
                        } else {
                            Ok(InclusiveByteRange { start: s, end: e })
                        },
                    },
                }
            }
        },
    }
}

pub fn parse_byte_range_arg(input: &str) -> (r: Result<InclusiveByteRange, AppError>)
    ensures
        result_view(r) == spec_parse_byte_range(input@),
{
    let i = match find_dots_exec(input) {
        Some(i) => i,
        None => return Err(AppErrorG::ByteRangeSyntax),
    };
    proof {
        lemma_find_dots_bound(input@, 0);
    }
    let n = input.unicode_len();
    let start = slice_chars(input, 0, i);
    let end = suffix_from(input, i + 2);
    assert(start@ =~= input@.take(i as int));
    if find_dots_exec(end).is_some() {
        return Err(AppErrorG::ByteRangeDots);
    }
    let start = parse_size_u32(start)?;
    let end = parse_size_u32(end)?;
    if end < start {
        return Err(AppErrorG::ByteRangeReversed { start, end });
    }
    Ok(InclusiveByteRange { start, end })
}

proof fn lemma_find_dots_bound(s: Seq<char>, from: int)
    ensures
        find_dots(s, from) matches Some(i) ==> from <= i && i + 2 <= s.len(),
    decreases s.len() - from,
{
    if !(from < 0 || from + 1 >= s.len()) && !(s[from] == '.' && s[from + 1] == '.') {
        lemma_find_dots_bound(s, from + 1);
    }
}

/// The partition names of comma-separated pieces, trimmed, in order; the first
/// empty or unknown name is an error.
pub open spec fn spec_partition_names(pieces: Seq<Seq<char>>) -> Result<Seq<Seq<char>>, AppErrorView>
    decreases pieces.len(),
{
    if pieces.len() == 0 {
        Ok(Seq::empty())
    } else {
        match spec_partition_names(pieces.drop_last()) {
            Err(e) => Err(e),
            Ok(v) => {
                let name = spec_trim(pieces.last());
                if name.len() == 0 {
                    Err(AppErrorG::EmptyPartitionName)
                } else if spec_find_partition(name) is None {
                    Err(AppErrorG::UnknownPartition(name))
                } else {
                    Ok(v.push(name))
                }
            },
        }
    }
}

/// A `--partitions` value: comma-separated names of partitions.
pub open spec fn spec_parse_partition_list(input: Seq<char>) -> Result<Seq<Seq<char>>, AppErrorView> {
    match spec_partition_names(split_commas(input)) {
        Err(e) => Err(e),
        Ok(v) => if v.len() == 0 {
            Err(AppErrorG::NoPartitions)
        } else {
            Ok(v)
        },
    }
}

proof fn lemma_partition_names_err(pieces: Seq<Seq<char>>, k: int)
    requires
        0 <= k <= pieces.len(),
        spec_partition_names(pieces.take(k)) is Err,
    ensures
        spec_partition_names(pieces) == spec_partition_names(pieces.take(k)),
    decreases pieces.len() - k,
{
    if k < pieces.len() {
        assert(pieces.take(k + 1).drop_last() =~= pieces.take(k));
        lemma_partition_names_err(pieces, k + 1);
    } else {
        assert(pieces.take(k) =~= pieces);
    }
}

pub fn parse_partition_list(input: &str) -> (r: Result<Vec<String>, AppError>)
    ensures
        match r {
            Ok(v) => spec_parse_partition_list(input@) == Ok::<_, AppErrorView>(strings_view(v@)),
            Err(e) => spec_parse_partition_list(input@) == Err::<Seq<Seq<char>>, _>(e@),
        },
{
    let pieces = split_commas_exec(input);
    let mut names: Vec<String> = Vec::new();
    let mut i: usize = 0;
    assert(strs_view(pieces@).take(0) =~= Seq::<Seq<char>>::empty());
    assert(strings_view(names@) =~= Seq::<Seq<char>>::empty());
    while i < pieces.len()
        invariant
            i <= pieces@.len(),
            strs_view(pieces@) == split_commas(input@),
            spec_partition_names(strs_view(pieces@).take(i as int)) == Ok::<_, AppErrorView>(
                strings_view(names@),
            ),
        decreases pieces@.len() - i,
    {
        let name = trim(pieces[i]);
        proof {
            assert(strs_view(pieces@).take(i + 1).drop_last() =~= strs_view(pieces@).take(i as int));
            assert(strs_view(pieces@).take(i + 1).last() == pieces@[i as int]@);
        }
        if name.unicode_len() == 0 {
            proof {
                lemma_partition_names_err(strs_view(pieces@), i + 1);
            }
            return Err(AppErrorG::EmptyPartitionName);
        }
        if find_nor_partition(name).is_none() {
            proof {
                lemma_partition_names_err(strs_view(pieces@), i + 1);
            }
            return Err(AppErrorG::UnknownPartition(String::from_str(name)));
        }
        let ghost before = names@;
        names.push(String::from_str(name));
        assert(strings_view(names@) =~= strings_view(before).push(name@));
        i = i + 1;
    }
    assert(strs_view(pieces@).take(i as int) =~= strs_view(pieces@));
    if names.len() == 0 {
        return Err(AppErrorG::NoPartitions);
    }
    Ok(names)
}

// ---------------------------------------------------------------------------
// Sub-commands

#[derive(Clone, Debug, PartialEq, Eq)]
pub enum Command {
    Info,
    Backup { output: String, offset: u32, length: LengthArg },
    Restore { input: String, offset: u32, erase: bool, verify: bool, selector: RestoreSelector },
    Verify { input: String, offset: u32 },
    Erase { offset: u32, length: LengthArg },
    Crc32 { offset: u32, length: u32 },
}

pub enum CommandView {
    Info,
    Backup { output: Seq<char>, offset: u32, length: LengthArg },
    Restore {
        input: Seq<char>,
        offset: u32,
        erase: bool,
        verify: bool,
        selector: RestoreSelectorView,
    },
    Verify { input: Seq<char>, offset: u32 },
    Erase { offset: u32, length: LengthArg },
    Crc32 { offset: u32, length: u32 },
}

impl View for Command {
    type V = CommandView;

    open spec fn view(&self) -> CommandView {
        match self {
            Command::Info => CommandView::Info,
            Command::Backup { output, offset, length } => CommandView::Backup {
                output: output@,
                offset: *offset,
                length: *length,
            },
            Command::Restore { input, offset, erase, verify, selector } => CommandView::Restore {
                input: input@,
                offset: *offset,
                erase: *erase,
                verify: *verify,
                selector: selector@,
            },
            Command::Verify { input, offset } => CommandView::Verify {
                input: input@,
                offset: *offset,
            },
            Command::Erase { offset, length } => CommandView::Erase {
                offset: *offset,
                length: *length,
            },
            Command::Crc32 { offset, length } => CommandView::Crc32 {
                offset: *offset,
                length: *length,
            },
        }
    }
}

/// A result holding a command, with the command and the error taken by their views.
pub open spec fn command_result_view(r: Result<Command, AppError>) -> Result<CommandView, AppErrorView> {
    match r {
        Ok(c) => Ok(c@),
        Err(e) => Err(e@),
    }
}

pub open spec fn opt_view(o: Option<String>) -> Option<Seq<char>> {
    match o {
        Some(s) => Some(s@),
        None => None,
    }
}

pub open spec fn opt_selector_view(o: Option<RestoreSelector>) -> Option<RestoreSelectorView> {
    match o {
        Some(s) => Some(s@),
        None => None,
    }
}

/// The value that follows a flag.
pub fn require_arg<'a>(args: &'a [String], index: usize, flag: &str) -> (r: Result<&'a str, AppError>)
    ensures
        index < args@.len() ==> (r matches Ok(s) && s@ == args@[index as int]@),
        index >= args@.len() ==> (r matches Err(e) && e@ == AppErrorG::<Seq<char>>::RequiresValue(
            flag@,
        )),
{
    if index < args.len() {
        Ok(args[index].as_str())
    } else {
        Err(AppErrorG::RequiresValue(String::from_str(flag)))
    }
}

/// Records a restore selector; only one may be given.
pub fn set_restore_selector(slot: &mut Option<RestoreSelector>, selector: RestoreSelector) -> (r:
    Result<(), AppError>)
    ensures
        (*old(slot)) is Some ==> (r matches Err(e) && e@ == AppErrorG::<Seq<char>>::MultipleSelectors
            && *final(slot) == *old(slot)),
        (*old(slot)) is None ==> (r is Ok && *final(slot) == Some(selector)),
{
    if slot.is_some() {
        return Err(AppErrorG::MultipleSelectors);
    }
    *slot = Some(selector);
    Ok(())
}

/// The options of `backup` from position `i` on, given what was read before.
pub open spec fn spec_backup(
    args: Seq<Seq<char>>,
    i: int,
    offset: u32,
    length: LengthArg,
    output: Option<Seq<char>>,
) -> Result<CommandView, AppErrorView>
    decreases args.len() - i,
{
    if i < 1 || i >= args.len() {
        match output {
            None => Err(AppErrorG::MissingPath(CommandName::Backup)),
            Some(o) => Ok(CommandView::Backup { output: o, offset, length }),
        }
    } else {
        let a = args[i];
        if a == "--offset"@ {
            if i + 1 >= args.len() {
                Err(AppErrorG::RequiresValue("--offset"@))
            } else {
                match spec_parse_size_u32(args[i + 1]) {
                    Err(e) => Err(e),
                    Ok(v) => spec_backup(args, i + 2, v, length, output),
                }
            }
        } else if a == "--length"@ {
            if i + 1 >= args.len() {
                Err(AppErrorG::RequiresValue("--length"@))
            } else {
                match spec_parse_length_arg(args[i + 1]) {
                    Err(e) => Err(e),
                    Ok(v) => spec_backup(args, i + 2, offset, v, output),
                }
            }
        } else if has_prefix(a, "--offset="@) {
            match spec_parse_size_u32(a.skip("--offset="@.len() as int)) {
                Err(e) => Err(e),
                Ok(v) => spec_backup(args, i + 1, v, length, output),
            }
        } else if has_prefix(a, "--length="@) {
            match spec_parse_length_arg(a.skip("--length="@.len() as int)) {
                Err(e) => Err(e),
                Ok(v) => spec_backup(args, i + 1, offset, v, output),
            }
        } else if has_prefix(a, "-"@) {
            Err(AppErrorG::UnknownOption { command: CommandName::Backup, arg: a })
        } else if output is Some {
            Err(AppErrorG::ExtraPath(CommandName::Backup))
        } else {
            spec_backup(args, i + 1, offset, length, Some(a))
        }
    }
}

fn parse_backup(args: &[String]) -> (r: Result<Command, AppError>)
    requires
        args@.len() >= 1,
    ensures
        command_result_view(r) == spec_backup(strings_view(args@), 1, 0, LengthArg::Image, None),
{
    let ghost sa = strings_view(args@);
    let mut offset: u32 = 0;
    let mut length = LengthArg::Image;
    let mut output: Option<String> = None;
    let mut i: usize = 1;
    proof {
        reveal_strlit("--offset=");
        reveal_strlit("--length=");
    }
    while i < args.len()
        invariant
            sa == strings_view(args@),
            1 <= i,
            spec_backup(sa, 1, 0, LengthArg::Image, None) == spec_backup(sa, i as int, offset, length, opt_view(output)),
            "--offset="@.len() == 9,
            "--length="@.len() == 9,
        decreases args@.len() - i,
    {
        let a = args[i].as_str();
        assert(a@ == sa[i as int]);
        if str_eq(a, "--offset") {
            let v = parse_size_u32(require_arg(args, i + 1, "--offset")?)?;
            offset = v;
            i = i + 2;
        } else if str_eq(a, "--length") {
            let v = parse_length_arg(require_arg(args, i + 1, "--length")?)?;
            length = v;
            i = i + 2;
        } else if starts_with(a, "--offset=") {
            offset = parse_size_u32(suffix_from(a, 9))?;
            i = i + 1;
        } else if starts_with(a, "--length=") {
            length = parse_length_arg(suffix_from(a, 9))?;
            i = i + 1;
        } else if starts_with(a, "-") {
            return Err(AppErrorG::UnknownOption { command: CommandName::Backup, arg: String::from_str(a) });
        } else {
            if output.is_some() {
                return Err(AppErrorG::ExtraPath(CommandName::Backup));
            }
            output = Some(String::from_str(a));
            i = i + 1;
        }
    }
    match output {
        Some(output) => Ok(Command::Backup { output, offset, length }),
        None => Err(AppErrorG::MissingPath(CommandName::Backup)),
    }
}

/// The options of `restore` from position `i` on, given what was read before.
pub open spec fn spec_restore(
    args: Seq<Seq<char>>,
    i: int,
    offset: u32,
    erase: bool,
    verify: bool,
    selector: Option<RestoreSelectorView>,
    input: Option<Seq<char>>,
) -> Result<CommandView, AppErrorView>
    decreases args.len() - i,
{
    if i < 1 || i >= args.len() {
        match input {
            None => Err(AppErrorG::MissingPath(CommandName::Restore)),
            Some(p) => Ok(
                CommandView::Restore {
                    input: p,
                    offset,
                    erase,
                    verify,
                    selector: match selector {
                        Some(s) => s,
                        None => RestoreSelectorView::WholeImage,
                    },
                },
            ),
        }
    } else {
        let a = args[i];
        if a == "--offset"@ {
            if i + 1 >= args.len() {
                Err(AppErrorG::RequiresValue("--offset"@))
            } else {
                match spec_parse_size_u32(args[i + 1]) {
                    Err(e) => Err(e),
                    Ok(v) => spec_restore(args, i + 2, v, erase, verify, selector, input),
                }
            }
        } else if a == "--no-erase"@ {
            spec_restore(args, i + 1, offset, false, verify, selector, input)
        } else if a == "--no-verify"@ {
            spec_restore(args, i + 1, offset, erase, false, selector, input)
        } else if a == "--byte-range"@ {
            if i + 1 >= args.len() {
                Err(AppErrorG::RequiresValue("--byte-range"@))
            } else {
                match spec_parse_byte_range(args[i + 1]) {
                    Err(e) => Err(e),
                    Ok(r) => if selector is Some {
                        Err(AppErrorG::MultipleSelectors)
                    } else {
                        spec_restore(
                            args,
                            i + 2,
                            offset,
                            erase,
                            verify,
                            Some(RestoreSelectorView::ByteRange(r)),
                            input,
                        )
                    },
                }
            }
        } else if a == "--partitions"@ {
            if i + 1 >= args.len() {
                Err(AppErrorG::RequiresValue("--partitions"@))
            } else {
                match spec_parse_partition_list(args[i + 1]) {
                    Err(e) => Err(e),
                    Ok(names) => if selector is Some {
                        Err(AppErrorG::MultipleSelectors)
                    } else {
                        spec_restore(
                            args,
                            i + 2,
                            offset,
                            erase,
                            verify,
                            Some(RestoreSelectorView::Partitions(names)),
                            input,
                        )
                    },
                }
            }
        } else if has_prefix(a, "--offset="@) {
            match spec_parse_size_u32(a.skip("--offset="@.len() as int)) {
                Err(e) => Err(e),
                Ok(v) => spec_restore(args, i + 1, v, erase, verify, selector, input),
            }
        } else if has_prefix(a, "--byte-range="@) {
            match spec_parse_byte_range(a.skip("--byte-range="@.len() as int)) {
                Err(e) => Err(e),
                Ok(r) => if selector is Some {
                    Err(AppErrorG::MultipleSelectors)
                } else {
                    spec_restore(
                        args,
                        i + 1,
                        offset,
                        erase,
                        verify,
                        Some(RestoreSelectorView::ByteRange(r)),
                        input,
                    )
                },
            }
        } else if has_prefix(a, "--partitions="@) {
            match spec_parse_partition_list(a.skip("--partitions="@.len() as int)) {
                Err(e) => Err(e),
                Ok(names) => if selector is Some {
                    Err(AppErrorG::MultipleSelectors)
                } else {
                    spec_restore(
                        args,
                        i + 1,
                        offset,
                        erase,
                        verify,
                        Some(RestoreSelectorView::Partitions(names)),
                        input,
                    )
                },
            }
        } else if has_prefix(a, "-"@) {
            Err(AppErrorG::UnknownOption { command: CommandName::Restore, arg: a })
        } else if input is Some {
            Err(AppErrorG::ExtraPath(CommandName::Restore))
        } else {
            spec_restore(args, i + 1, offset, erase, verify, selector, Some(a))
        }
    }
}

fn parse_restore(args: &[String]) -> (r: Result<Command, AppError>)
    requires
        args@.len() >= 1,
    ensures
        command_result_view(r) == spec_restore(strings_view(args@), 1, 0, true, true, None, None),
{
    let ghost sa = strings_view(args@);
    let mut offset: u32 = 0;
    let mut erase = true;
    let mut verify = true;
    let mut selector: Option<RestoreSelector> = None;
    let mut input: Option<String> = None;
    let mut i: usize = 1;
    proof {
        reveal_strlit("--offset=");
        reveal_strlit("--byte-range=");
        reveal_strlit("--partitions=");
    }
    while i < args.len()
        invariant
            sa == strings_view(args@),
            1 <= i,
            spec_restore(sa, 1, 0, true, true, None, None) == spec_restore(
                sa,
                i as int,
                offset,
                erase,
                verify,
                opt_selector_view(selector),
                opt_view(input),
            ),
            "--offset="@.len() == 9,
            "--byte-range="@.len() == 13,
            "--partitions="@.len() == 13,
        decreases args@.len() - i,
    {
        let a = args[i].as_str();
        assert(a@ == sa[i as int]);
        if str_eq(a, "--offset") {
            offset = parse_size_u32(require_arg(args, i + 1, "--offset")?)?;
            i = i + 2;
        } else if str_eq(a, "--no-erase") {
            erase = false;
            i = i + 1;
        } else if str_eq(a, "--no-verify") {
            verify = false;
            i = i + 1;
        } else if str_eq(a, "--byte-range") {
            let r = parse_byte_range_arg(require_arg(args, i + 1, "--byte-range")?)?;
            set_restore_selector(&mut selector, RestoreSelector::ByteRange(r))?;
            i = i + 2;
        } else if str_eq(a, "--partitions") {
            let names = parse_partition_list(require_arg(args, i + 1, "--partitions")?)?;
            set_restore_selector(&mut selector, RestoreSelector::Partitions(names))?;
            i = i + 2;
        } else if starts_with(a, "--offset=") {
            offset = parse_size_u32(suffix_from(a, 9))?;
            i = i + 1;
        } else if starts_with(a, "--byte-range=") {
            let r = parse_byte_range_arg(suffix_from(a, 13))?;
            set_restore_selector(&mut selector, RestoreSelector::ByteRange(r))?;
            i = i + 1;
        } else if starts_with(a, "--partitions=") {
            let names = parse_partition_list(suffix_from(a, 13))?;
            set_restore_selector(&mut selector, RestoreSelector::Partitions(names))?;
            i = i + 1;
        } else if starts_with(a, "-") {
            return Err(AppErrorG::UnknownOption { command: CommandName::Restore, arg: String::from_str(a) });
        } else {
            if input.is_some() {
                return Err(AppErrorG::ExtraPath(CommandName::Restore));
            }
            input = Some(String::from_str(a));
            i = i + 1;
        }
    }
    match input {
        Some(input) => Ok(
            Command::Restore {
                input,
                offset,
                erase,
                verify,
                selector: match selector {
                    Some(s) => s,
                    None => RestoreSelector::WholeImage,
                },
            },
        ),
        None => Err(AppErrorG::MissingPath(CommandName::Restore)),
    }
}

/// The options of `verify` from position `i` on, given what was read before.
pub open spec fn spec_verify(args: Seq<Seq<char>>, i: int, offset: u32, input: Option<Seq<char>>) -> Result<
    CommandView,
    AppErrorView,
>
    decreases args.len() - i,
{
    if i < 1 || i >= args.len() {
        match input {
            None => Err(AppErrorG::MissingPath(CommandName::Verify)),
            Some(p) => Ok(CommandView::Verify { input: p, offset }),
        }
    } else {
        let a = args[i];
        if a == "--offset"@ {
            if i + 1 >= args.len() {
                Err(AppErrorG::RequiresValue("--offset"@))
            } else {
                match spec_parse_size_u32(args[i + 1]) {
                    Err(e) => Err(e),
                    Ok(v) => spec_verify(args, i + 2, v, input),
                }
            }
        } else if has_prefix(a, "--offset="@) {
            match spec_parse_size_u32(a.skip("--offset="@.len() as int)) {
                Err(e) => Err(e),
                Ok(v) => spec_verify(args, i + 1, v, input),
            }
        } else if has_prefix(a, "-"@) {
            Err(AppErrorG::UnknownOption { command: CommandName::Verify, arg: a })
        } else if input is Some {
            Err(AppErrorG::ExtraPath(CommandName::Verify))
        } else {
            spec_verify(args, i + 1, offset, Some(a))
        }
    }
}

fn parse_verify(args: &[String]) -> (r: Result<Command, AppError>)
    requires
        args@.len() >= 1,
    ensures
        command_result_view(r) == spec_verify(strings_view(args@), 1, 0, None),
{
    let ghost sa = strings_view(args@);
    let mut offset: u32 = 0;
    let mut input: Option<String> = None;
    let mut i: usize = 1;
    proof {
        reveal_strlit("--offset=");
    }
    while i < args.len()
        invariant
            sa == strings_view(args@),
            1 <= i,
            spec_verify(sa, 1, 0, None) == spec_verify(sa, i as int, offset, opt_view(input)),
            "--offset="@.len() == 9,
        decreases args@.len() - i,
    {
        let a = args[i].as_str();
        assert(a@ == sa[i as int]);
        if str_eq(a, "--offset") {
            offset = parse_size_u32(require_arg(args, i + 1, "--offset")?)?;
            i = i + 2;
        } else if starts_with(a, "--offset=") {
            offset = parse_size_u32(suffix_from(a, 9))?;
            i = i + 1;
        } else if starts_with(a, "-") {
            return Err(AppErrorG::UnknownOption { command: CommandName::Verify, arg: String::from_str(a) });
        } else {
            if input.is_some() {
                return Err(AppErrorG::ExtraPath(CommandName::Verify));
            }
            input = Some(String::from_str(a));
            i = i + 1;
        }
    }
    match input {
        Some(input) => Ok(Command::Verify { input, offset }),
        None => Err(AppErrorG::MissingPath(CommandName::Verify)),
    }
}

/// The options of `erase` from position `i` on, given what was read before.
pub open spec fn spec_erase(args: Seq<Seq<char>>, i: int, offset: u32, length: Option<LengthArg>) -> Result<
    CommandView,
    AppErrorView,
>
    decreases args.len() - i,
{
    if i < 1 || i >= args.len() {
        match length {
            None => Err(AppErrorG::MissingOption { command: CommandName::Erase, option: "--length"@ }),
            Some(l) => Ok(CommandView::Erase { offset, length: l }),
        }
    } else {
        let a = args[i];
        if a == "--offset"@ {
            if i + 1 >= args.len() {
                Err(AppErrorG::RequiresValue("--offset"@))
            } else {
                match spec_parse_size_u32(args[i + 1]) {
                    Err(e) => Err(e),
                    Ok(v) => spec_erase(args, i + 2, v, length),
                }
            }
        } else if a == "--length"@ {
            if i + 1 >= args.len() {
                Err(AppErrorG::RequiresValue("--length"@))
            } else {
                match spec_parse_length_arg(args[i + 1]) {
                    Err(e) => Err(e),
                    Ok(v) => spec_erase(args, i + 2, offset, Some(v)),
                }
            }
        } else if has_prefix(a, "--offset="@) {
            match spec_parse_size_u32(a.skip("--offset="@.len() as int)) {
                Err(e) => Err(e),
                Ok(v) => spec_erase(args, i + 1, v, length),
            }
        } else if has_prefix(a, "--length="@) {
            match spec_parse_length_arg(a.skip("--length="@.len() as int)) {
                Err(e) => Err(e),
                Ok(v) => spec_erase(args, i + 1, offset, Some(v)),
            }
        } else {
            Err(AppErrorG::UnknownOption { command: CommandName::Erase, arg: a })
        }
    }
}

fn parse_erase(args: &[String]) -> (r: Result<Command, AppError>)
    requires
        args@.len() >= 1,
    ensures
        command_result_view(r) == spec_erase(strings_view(args@), 1, 0, None),
{
    let ghost sa = strings_view(args@);
    let mut offset: u32 = 0;
    let mut length: Option<LengthArg> = None;
    let mut i: usize = 1;
    proof {
        reveal_strlit("--offset=");
        reveal_strlit("--length=");
    }
    while i < args.len()
        invariant
            sa == strings_view(args@),
            1 <= i,
            spec_erase(sa, 1, 0, None) == spec_erase(sa, i as int, offset, length),
            "--offset="@.len() == 9,
            "--length="@.len() == 9,
        decreases args@.len() - i,
    {
        let a = args[i].as_str();
        assert(a@ == sa[i as int]);
        if str_eq(a, "--offset") {
            offset = parse_size_u32(require_arg(args, i + 1, "--offset")?)?;
            i = i + 2;
        } else if str_eq(a, "--length") {
            length = Some(parse_length_arg(require_arg(args, i + 1, "--length")?)?);
            i = i + 2;
        } else if starts_with(a, "--offset=") {
            offset = parse_size_u32(suffix_from(a, 9))?;
            i = i + 1;
        } else if starts_with(a, "--length=") {
            length = Some(parse_length_arg(suffix_from(a, 9))?);
            i = i + 1;
        } else {
            return Err(AppErrorG::UnknownOption { command: CommandName::Erase, arg: String::from_str(a) });
        }
    }
    match length {
        Some(length) => Ok(Command::Erase { offset, length }),
        None => Err(AppErrorG::MissingOption { command: CommandName::Erase, option: String::from_str("--length") }),
    }
}

/// The options of `crc32` from position `i` on, given what was read before.
pub open spec fn spec_crc32_cmd(args: Seq<Seq<char>>, i: int, offset: Option<u32>, length: Option<u32>) -> Result<
    CommandView,
    AppErrorView,
>
    decreases args.len() - i,
{
    if i < 1 || i >= args.len() {
        match (offset, length) {
            (None, _) => Err(AppErrorG::MissingOption { command: CommandName::Crc32, option: "--offset"@ }),
            (Some(_), None) => Err(AppErrorG::MissingOption { command: CommandName::Crc32, option: "--length"@ }),
            (Some(o), Some(l)) => Ok(CommandView::Crc32 { offset: o, length: l }),
        }
    } else {
        let a = args[i];
        if a == "--offset"@ {
            if i + 1 >= args.len() {
                Err(AppErrorG::RequiresValue("--offset"@))
            } else {
                match spec_parse_size_u32(args[i + 1]) {
                    Err(e) => Err(e),
                    Ok(v) => spec_crc32_cmd(args, i + 2, Some(v), length),
                }
            }
        } else if a == "--length"@ {
            if i + 1 >= args.len() {
                Err(AppErrorG::RequiresValue("--length"@))
            } else {
                match spec_parse_size_u32(args[i + 1]) {
                    Err(e) => Err(e),
                    Ok(v) => spec_crc32_cmd(args, i + 2, offset, Some(v)),
                }
            }
        } else if has_prefix(a, "--offset="@) {
            match spec_parse_size_u32(a.skip("--offset="@.len() as int)) {
                Err(e) => Err(e),
                Ok(v) => spec_crc32_cmd(args, i + 1, Some(v), length),
            }
        } else if has_prefix(a, "--length="@) {
            match spec_parse_size_u32(a.skip("--length="@.len() as int)) {
                Err(e) => Err(e),
                Ok(v) => spec_crc32_cmd(args, i + 1, offset, Some(v)),
            }
        } else {
            Err(AppErrorG::UnknownOption { command: CommandName::Crc32, arg: a })
        }
    }
}

fn parse_crc32(args: &[String]) -> (r: Result<Command, AppError>)
    requires
        args@.len() >= 1,
    ensures
        command_result_view(r) == spec_crc32_cmd(strings_view(args@), 1, None, None),
{
    let ghost sa = strings_view(args@);
    let mut offset: Option<u32> = None;
    let mut length: Option<u32> = None;
    let mut i: usize = 1;
    proof {
        reveal_strlit("--offset=");
        reveal_strlit("--length=");
    }
    while i < args.len()
        invariant
            sa == strings_view(args@),
            1 <= i,
            spec_crc32_cmd(sa, 1, None, None) == spec_crc32_cmd(sa, i as int, offset, length),
            "--offset="@.len() == 9,
            "--length="@.len() == 9,
        decreases args@.len() - i,
    {
        let a = args[i].as_str();
        assert(a@ == sa[i as int]);
        if str_eq(a, "--offset") {
            offset = Some(parse_size_u32(require_arg(args, i + 1, "--offset")?)?);
            i = i + 2;
        } else if str_eq(a, "--length") {
            length = Some(parse_size_u32(require_arg(args, i + 1, "--length")?)?);
            i = i + 2;
        } else if starts_with(a, "--offset=") {
            offset = Some(parse_size_u32(suffix_from(a, 9))?);
            i = i + 1;
        } else if starts_with(a, "--length=") {
            length = Some(parse_size_u32(suffix_from(a, 9))?);
            i = i + 1;
        } else {
            return Err(AppErrorG::UnknownOption { command: CommandName::Crc32, arg: String::from_str(a) });
        }
    }
    match (offset, length) {
        (None, _) => Err(AppErrorG::MissingOption { command: CommandName::Crc32, option: String::from_str("--offset") }),
        (Some(_), None) => Err(AppErrorG::MissingOption { command: CommandName::Crc32, option: String::from_str("--length") }),
        (Some(offset), Some(length)) => Ok(Command::Crc32 { offset, length }),
    }
}

/// A sub-command and its options.
pub open spec fn spec_parse_command(args: Seq<Seq<char>>) -> Result<CommandView, AppErrorView> {
    if args.len() == 0 {
        Err(AppErrorG::MissingCommand)
    } else {
        let c = args[0];
        if c == "info"@ {
            Ok(CommandView::Info)
        } else if c == "backup"@ {
            spec_backup(args, 1, 0, LengthArg::Image, None)
        } else if c == "restore"@ {
            spec_restore(args, 1, 0, true, true, None, None)
        } else if c == "verify"@ {
            spec_verify(args, 1, 0, None)
        } else if c == "erase"@ {
            spec_erase(args, 1, 0, None)
        } else if c == "crc32"@ {
            spec_crc32_cmd(args, 1, None, None)
        } else {
            Err(AppErrorG::UnknownCommand(c))
        }
    }
}

pub fn parse_command(args: &[String]) -> (r: Result<Command, AppError>)
    ensures
        command_result_view(r) == spec_parse_command(strings_view(args@)),
{
    if args.len() == 0 {
        return Err(AppErrorG::MissingCommand);
    }
    let command = args[0].as_str();
    if str_eq(command, "info") {
        Ok(Command::Info)
    } else if str_eq(command, "backup") {
        parse_backup(args)
    } else if str_eq(command, "restore") {
        parse_restore(args)
    } else if str_eq(command, "verify") {
        parse_verify(args)
    } else if str_eq(command, "erase") {
        parse_erase(args)
    } else if str_eq(command, "crc32") {
        parse_crc32(args)
    } else {
        Err(AppErrorG::UnknownCommand(String::from_str(command)))
    }
}

// ---------------------------------------------------------------------------
// What restore's options mean

/// The selector state that stands for the selector of a parsed restore command.
pub open spec fn selector_state(sel: RestoreSelectorView) -> Option<RestoreSelectorView> {
    if sel is WholeImage {
        None
    } else {
        Some(sel)
    }
}

/// When restore's options in `a` from position `i` on parse, reading them with more
/// arguments after them comes to the end of `a` in the state the parsed command shows.
proof fn lemma_restore_prefix(
    a: Seq<Seq<char>>,
    tail: Seq<Seq<char>>,
    i: int,
    offset: u32,
    erase: bool,
    verify: bool,
    selector: Option<RestoreSelectorView>,
    input: Option<Seq<char>>,
)
    requires
        1 <= i <= a.len(),
        spec_restore(a, i, offset, erase, verify, selector, input) is Ok,
        selector != Some(RestoreSelectorView::WholeImage),
    ensures
        spec_restore(a, i, offset, erase, verify, selector, input) matches Ok(
            CommandView::Restore { input: p, offset: o, erase: e, verify: v, selector: sel },
        ) && spec_restore(a + tail, i, offset, erase, verify, selector, input) == spec_restore(
            a + tail,
            a.len() as int,
            o,
            e,
            v,
            selector_state(sel),
            Some(p),
        ),
    decreases a.len() - i,
{
    let b = a + tail;
    if i == a.len() {
        assert(input is Some);
    } else {
        let s = a[i];
        assert(b[i] == s);
        if i + 1 < a.len() {
            assert(b[i + 1] == a[i + 1]);
        }
        if s == "--offset"@ {
            if let Ok(v) = spec_parse_size_u32(a[i + 1]) {
                lemma_restore_prefix(a, tail, i + 2, v, erase, verify, selector, input);
            }
        } else if s == "--no-erase"@ {
            lemma_restore_prefix(a, tail, i + 1, offset, false, verify, selector, input);
        } else if s == "--no-verify"@ {
            lemma_restore_prefix(a, tail, i + 1, offset, erase, false, selector, input);
        } else if s == "--byte-range"@ {
            if let Ok(r) = spec_parse_byte_range(a[i + 1]) {
                lemma_restore_prefix(
                    a,
                    tail,
                    i + 2,
                    offset,
                    erase,
                    verify,
                    Some(RestoreSelectorView::ByteRange(r)),
                    input,
                );
            }
        } else if s == "--partitions"@ {
            if let Ok(n) = spec_parse_partition_list(a[i + 1]) {
                lemma_restore_prefix(
                    a,
                    tail,
                    i + 2,
                    offset,
                    erase,
                    verify,
                    Some(RestoreSelectorView::Partitions(n)),
                    input,
                );
            }
        } else if has_prefix(s, "--offset="@) {
            if let Ok(v) = spec_parse_size_u32(s.skip("--offset="@.len() as int)) {
                lemma_restore_prefix(a, tail, i + 1, v, erase, verify, selector, input);
            }
        } else if has_prefix(s, "--byte-range="@) {
            if let Ok(r) = spec_parse_byte_range(s.skip("--byte-range="@.len() as int)) {
                lemma_restore_prefix(
                    a,
                    tail,
                    i + 1,
                    offset,
                    erase,
                    verify,
                    Some(RestoreSelectorView::ByteRange(r)),
                    input,
                );
            }
        } else if has_prefix(s, "--partitions="@) {
            if let Ok(n) = spec_parse_partition_list(s.skip("--partitions="@.len() as int)) {
                lemma_restore_prefix(
                    a,
                    tail,
                    i + 1,
                    offset,
                    erase,
                    verify,
                    Some(RestoreSelectorView::Partitions(n)),
                    input,
                );
            }
        } else if has_prefix(s, "-"@) {
        } else if input is Some {
        } else {
            lemma_restore_prefix(a, tail, i + 1, offset, erase, verify, selector, Some(s));
        }
    }
}

/// The restore command that the state at the end of the options stands for.
pub open spec fn restore_at_end(
    offset: u32,
    erase: bool,
    verify: bool,
    selector: Option<RestoreSelectorView>,
    input: Seq<char>,
) -> CommandView {
    CommandView::Restore {
        input,
        offset,
        erase,
        verify,
        selector: match selector {
            Some(s) => s,
            None => RestoreSelectorView::WholeImage,
        },
    }
}

proof fn lemma_restore_offset_pair(
    a: Seq<Seq<char>>,
    v: Seq<char>,
    o: u32,
    e: bool,
    vf: bool,
    st: Option<RestoreSelectorView>,
    p: Seq<char>,
)
    requires
        a.len() >= 1,
        spec_parse_size_u32(v) is Ok,
    ensures
        spec_restore(a + seq!["--offset"@, v], a.len() as int, o, e, vf, st, Some(p)) == Ok::<
            CommandView,
            AppErrorView,
        >(restore_at_end(spec_parse_size_u32(v)->Ok_0, e, vf, st, p)),
{
    let b = a + seq!["--offset"@, v];
    let n = a.len() as int;
    let x = spec_parse_size_u32(v)->Ok_0;
    assert(b[n] == "--offset"@);
    assert(b[n + 1] == v);
    assert(spec_restore(b, n + 2, x, e, vf, st, Some(p)) == Ok::<CommandView, AppErrorView>(
        restore_at_end(x, e, vf, st, p),
    ));
}

proof fn lemma_restore_offset_eq(
    a: Seq<Seq<char>>,
    v: Seq<char>,
    o: u32,
    e: bool,
    vf: bool,
    st: Option<RestoreSelectorView>,
    p: Seq<char>,
)
    requires
        a.len() >= 1,
        spec_parse_size_u32(v) is Ok,
    ensures
        spec_restore(a + seq!["--offset="@ + v], a.len() as int, o, e, vf, st, Some(p)) == Ok::<
            CommandView,
            AppErrorView,
        >(restore_at_end(spec_parse_size_u32(v)->Ok_0, e, vf, st, p)),
{
    reveal_strlit("--offset");
    reveal_strlit("--offset=");
    reveal_strlit("--no-erase");
    reveal_strlit("--no-verify");
    reveal_strlit("--byte-range");
    reveal_strlit("--partitions");
    let w = "--offset="@ + v;
    let b = a + seq![w];
    let n = a.len() as int;
    let x = spec_parse_size_u32(v)->Ok_0;
    assert(b[n] == w);
    assert(w.take(9) =~= "--offset="@);
    assert(w.skip(9) =~= v);
    assert(w != "--offset"@) by {
        assert(w.len() != "--offset"@.len());
    }
    assert(w[2] == 'o');
    assert(w != "--no-erase"@) by {
        assert("--no-erase"@[2] == 'n');
    }
    assert(w != "--no-verify"@) by {
        assert("--no-verify"@[2] == 'n');
    }
    assert(w != "--byte-range"@) by {
        assert("--byte-range"@[2] == 'b');
    }
    assert(w != "--partitions"@) by {
        assert("--partitions"@[2] == 'p');
    }
    assert(has_prefix(w, "--offset="@));
    assert(spec_restore(b, n + 1, x, e, vf, st, Some(p)) == Ok::<CommandView, AppErrorView>(
        restore_at_end(x, e, vf, st, p),
    ));
}

/// The command that a restore command becomes when its offset is set to `x`.
pub open spec fn with_offset(c: CommandView, x: u32) -> CommandView {
    match c {
        CommandView::Restore { input, erase, verify, selector, .. } => CommandView::Restore {
            input,
            offset: x,
            erase,
            verify,
            selector,
        },
        _ => c,
    }
}

/// `--offset V`, as two arguments or as `--offset=V`, sets restore's offset to the size
/// that `V` stands for and changes nothing else: appended to any restore command line
/// that parses, either form gives the same command with that offset (so the last such
/// option wins).
pub proof fn lemma_restore_offset_option(a: Seq<Seq<char>>, v: Seq<char>)
    requires
        a.len() >= 1,
        a[0] == "restore"@,
        spec_parse_command(a) is Ok,
        spec_parse_size_u32(v) is Ok,
    ensures
        spec_parse_command(a)->Ok_0 is Restore,
        spec_parse_command(a + seq!["--offset"@, v]) == Ok::<CommandView, AppErrorView>(
            with_offset(spec_parse_command(a)->Ok_0, spec_parse_size_u32(v)->Ok_0),
        ),
        spec_parse_command(a + seq!["--offset="@ + v]) == Ok::<CommandView, AppErrorView>(
            with_offset(spec_parse_command(a)->Ok_0, spec_parse_size_u32(v)->Ok_0),
        ),
        with_offset(spec_parse_command(a)->Ok_0, spec_parse_size_u32(v)->Ok_0)->Restore_offset
            == spec_parse_size_u32(v)->Ok_0,
{
    let t1 = seq!["--offset"@, v];
    let t2 = seq!["--offset="@ + v];
    assert((a + t1)[0] == a[0]);
    assert((a + t2)[0] == a[0]);
    lemma_parse_command_restore(a);
    lemma_parse_command_restore(a + t1);
    lemma_parse_command_restore(a + t2);
    lemma_restore_prefix(a, t1, 1, 0, true, true, None, None);
    lemma_restore_prefix(a, t2, 1, 0, true, true, None, None);
    let r = spec_restore(a, 1, 0, true, true, None, None)->Ok_0;
    lemma_restore_offset_pair(
        a,
        v,
        r->Restore_offset,
        r->Restore_erase,
        r->Restore_verify,
        selector_state(r->Restore_selector),
        r->Restore_input,
    );
    lemma_restore_offset_eq(
        a,
        v,
        r->Restore_offset,
        r->Restore_erase,
        r->Restore_verify,
        selector_state(r->Restore_selector),
        r->Restore_input,
    );
}

/// The command that a restore command becomes with erasing and verifying as given.
pub open spec fn with_flags(c: CommandView, erase: bool, verify: bool) -> CommandView {
    match c {
        CommandView::Restore { input, offset, selector, .. } => CommandView::Restore {
            input,
            offset,
            erase,
            verify,
            selector,
        },
        _ => c,
    }
}

proof fn lemma_restore_flag_tail(
    a: Seq<Seq<char>>,
    flag: Seq<char>,
    o: u32,
    e: bool,
    vf: bool,
    st: Option<RestoreSelectorView>,
    p: Seq<char>,
)
    requires
        a.len() >= 1,
        flag == "--no-erase"@ || flag == "--no-verify"@,
    ensures
        spec_restore(a + seq![flag], a.len() as int, o, e, vf, st, Some(p)) == Ok::<CommandView, AppErrorView>(
            restore_at_end(o, e && flag != "--no-erase"@, vf && flag != "--no-verify"@, st, p),
        ),
{
    reveal_strlit("--offset");
    reveal_strlit("--no-erase");
    reveal_strlit("--no-verify");
    let b = a + seq![flag];
    let n = a.len() as int;
    assert(b[n] == flag);
    assert("--no-erase"@ != "--offset"@) by {
        assert("--no-erase"@[2] != "--offset"@[2]);
    }
    assert("--no-verify"@ != "--offset"@) by {
        assert("--no-verify"@[2] != "--offset"@[2]);
    }
    assert("--no-verify"@ != "--no-erase"@) by {
        assert("--no-verify"@[5] != "--no-erase"@[5]);
    }
    if flag == "--no-erase"@ {
        assert(spec_restore(b, n + 1, o, false, vf, st, Some(p)) == Ok::<CommandView, AppErrorView>(
            restore_at_end(o, false, vf, st, p),
        ));
    } else {
        assert(spec_restore(b, n + 1, o, e, false, st, Some(p)) == Ok::<CommandView, AppErrorView>(
            restore_at_end(o, e, false, st, p),
        ));
    }
}

/// `--no-erase` turns restore's erasing off and `--no-verify` its verifying, and each
/// changes nothing else: appended to any restore command line that parses, the command
/// is the same but for that one setting.
pub proof fn lemma_restore_flag_options(a: Seq<Seq<char>>)
    requires
        a.len() >= 1,
        a[0] == "restore"@,
        spec_parse_command(a) is Ok,
    ensures
        spec_parse_command(a + seq!["--no-erase"@]) == Ok::<CommandView, AppErrorView>(
            with_flags(spec_parse_command(a)->Ok_0, false, spec_parse_command(a)->Ok_0->Restore_verify),
        ),
        spec_parse_command(a + seq!["--no-verify"@]) == Ok::<CommandView, AppErrorView>(
            with_flags(spec_parse_command(a)->Ok_0, spec_parse_command(a)->Ok_0->Restore_erase, false),
        ),
{
    reveal_strlit("--no-erase");
    reveal_strlit("--no-verify");
    assert("--no-verify"@ != "--no-erase"@) by {
        assert("--no-verify"@[5] != "--no-erase"@[5]);
    }
    let t1 = seq!["--no-erase"@];
    let t2 = seq!["--no-verify"@];
    assert((a + t1)[0] == a[0]);
    assert((a + t2)[0] == a[0]);
    lemma_parse_command_restore(a);
    lemma_parse_command_restore(a + t1);
    lemma_parse_command_restore(a + t2);
    lemma_restore_prefix(a, t1, 1, 0, true, true, None, None);
    lemma_restore_prefix(a, t2, 1, 0, true, true, None, None);
    let r = spec_restore(a, 1, 0, true, true, None, None)->Ok_0;
    lemma_restore_flag_tail(
        a,
        "--no-erase"@,
        r->Restore_offset,
        r->Restore_erase,
        r->Restore_verify,
        selector_state(r->Restore_selector),
        r->Restore_input,
    );
    lemma_restore_flag_tail(
        a,
        "--no-verify"@,
        r->Restore_offset,
        r->Restore_erase,
        r->Restore_verify,
        selector_state(r->Restore_selector),
        r->Restore_input,
    );
}

/// A command line that starts with `restore` is read as restore's options.
proof fn lemma_parse_command_restore(a: Seq<Seq<char>>)
    requires
        a.len() >= 1,
        a[0] == "restore"@,
    ensures
        spec_parse_command(a) == spec_restore(a, 1, 0, true, true, None, None),
{
    reveal_strlit("restore");
    reveal_strlit("info");
    reveal_strlit("backup");
    assert(a[0] != "info"@) by {
        assert(a[0][0] != "info"@[0]);
    }
    assert(a[0] != "backup"@) by {
        assert(a[0][0] != "backup"@[0]);
    }
}

// ---------------------------------------------------------------------------
// Global options

/// The settings of one run of the host tool.
#[derive(Clone, Debug, PartialEq, Eq)]
pub struct Config {
    pub device: String,
    pub stage1: String,
    pub baud: u32,
    pub fast_uart: bool,
    pub fast_baud: u32,
    pub command: Command,
}

pub struct ConfigView {
    pub device: Seq<char>,
    pub stage1: Seq<char>,
    pub baud: u32,
    pub fast_uart: bool,
    pub fast_baud: u32,
    pub command: CommandView,
}

impl View for Config {
    type V = ConfigView;

    open spec fn view(&self) -> ConfigView {
        ConfigView {
            device: self.device@,
            stage1: self.stage1@,
            baud: self.baud,
            fast_uart: self.fast_uart,
            fast_baud: self.fast_baud,
            command: self.command@,
        }
    }
}

/// What the command line asks for: the usage text, or a run.
#[derive(Clone, Debug, PartialEq, Eq)]
pub enum ParsedArgs {
    Help,
    Run(Config),
}

pub enum ParsedArgsView {
    Help,
    Run(ConfigView),
}

impl View for ParsedArgs {
    type V = ParsedArgsView;

    open spec fn view(&self) -> ParsedArgsView {
        match self {
            ParsedArgs::Help => ParsedArgsView::Help,
            ParsedArgs::Run(c) => ParsedArgsView::Run(c@),
        }
    }
}

pub open spec fn parsed_result_view(r: Result<ParsedArgs, AppError>) -> Result<ParsedArgsView, AppErrorView> {
    match r {
        Ok(p) => Ok(p@),
        Err(e) => Err(e@),
    }
}

/// A baud rate as `str::parse::<u32>` reads it.
pub open spec fn spec_parse_baud(s: Seq<char>, flag: Seq<char>) -> Result<u32, AppErrorView> {
    match spec_parse_uint(s, 10, u32::MAX as nat) {
        Some(v) => Ok(v as u32),
        None => Err(AppErrorG::InvalidBaudValue(flag)),
    }
}

/// The end of the global options at position `i`: a device is needed, and the rest
/// is the sub-command.
#[verifier::opaque]
pub open spec fn spec_finish_args(
    args: Seq<Seq<char>>,
    i: int,
    device: Option<Seq<char>>,
    stage1: Seq<char>,
    baud: u32,
    fast_uart: bool,
    fast_baud: u32,
) -> Result<ParsedArgsView, AppErrorView> {
    match device {
        None => Err(AppErrorG::MissingDevice),
        Some(d) => match spec_parse_command(args.skip(i)) {
            Err(e) => Err(e),
            Ok(c) => Ok(
                ParsedArgsView::Run(
                    ConfigView { device: d, stage1, baud, fast_uart, fast_baud, command: c },
                ),
            ),
        },
    }
}

/// The global options from position `i` on, given what was read before; the first
/// argument that is not one of them starts the sub-command.
#[verifier::opaque]
pub open spec fn spec_global_args(
    args: Seq<Seq<char>>,
    i: int,
    device: Option<Seq<char>>,
    stage1: Seq<char>,
    baud: u32,
    fast_uart: bool,
    fast_baud: u32,
) -> Result<ParsedArgsView, AppErrorView>
    decreases args.len() - i,
{
    if i < 0 || i >= args.len() {
        spec_finish_args(args, args.len() as int, device, stage1, baud, fast_uart, fast_baud)
    } else {
        let a = args[i];
        if a == "-h"@ || a == "--help"@ {
            Ok(ParsedArgsView::Help)
        } else if a == "-d"@ || a == "--device"@ {
            if i + 1 >= args.len() {
                Err(AppErrorG::RequiresValue("--device"@))
            } else {
                spec_global_args(args, i + 2, Some(args[i + 1]), stage1, baud, fast_uart, fast_baud)
            }
        } else if has_prefix(a, "--device="@) {
            spec_global_args(
                args,
                i + 1,
                Some(a.skip("--device="@.len() as int)),
                stage1,
                baud,
                fast_uart,
                fast_baud,
            )
        } else if a == "--stage1"@ {
            if i + 1 >= args.len() {
                Err(AppErrorG::RequiresValue("--stage1"@))
            } else {
                spec_global_args(args, i + 2, device, args[i + 1], baud, fast_uart, fast_baud)
            }
        } else if has_prefix(a, "--stage1="@) {
            spec_global_args(
                args,
                i + 1,
                device,
                a.skip("--stage1="@.len() as int),
                baud,
                fast_uart,
                fast_baud,
            )
        } else if a == "-b"@ || a == "--baud"@ {
            if i + 1 >= args.len() {
                Err(AppErrorG::RequiresValue("--baud"@))
            } else {
                match spec_parse_baud(args[i + 1], "--baud"@) {
                    Err(e) => Err(e),
                    Ok(v) => spec_global_args(args, i + 2, device, stage1, v, fast_uart, fast_baud),
                }
            }
        } else if has_prefix(a, "--baud="@) {
            match spec_parse_baud(a.skip("--baud="@.len() as int), "--baud"@) {
                Err(e) => Err(e),
                Ok(v) => spec_global_args(args, i + 1, device, stage1, v, fast_uart, fast_baud),
            }
        } else if a == "--no-fast-uart"@ {
            spec_global_args(args, i + 1, device, stage1, baud, false, fast_baud)
        } else if a == "--fast-baud"@ {
            if i + 1 >= args.len() {
                Err(AppErrorG::RequiresValue("--fast-baud"@))
            } else {
                match spec_parse_baud(args[i + 1], "--fast-baud"@) {
                    Err(e) => Err(e),
                    Ok(v) => spec_global_args(args, i + 2, device, stage1, baud, fast_uart, v),
                }
            }
        } else if has_prefix(a, "--fast-baud="@) {
            match spec_parse_baud(a.skip("--fast-baud="@.len() as int), "--fast-baud"@) {
                Err(e) => Err(e),
                Ok(v) => spec_global_args(args, i + 1, device, stage1, baud, fast_uart, v),
            }
        } else {
            spec_finish_args(args, i, device, stage1, baud, fast_uart, fast_baud)
        }
    }
}

fn parse_baud(s: &str, flag: &str) -> (r: Result<u32, AppError>)
    ensures
        result_view(r) == spec_parse_baud(s@, flag@),
{
    match parse_uint(s, 10, 0xffff_ffff) {
        Some(v) => Ok(v as u32),
        None => Err(AppErrorG::InvalidBaudValue(String::from_str(flag))),
    }
}

/// Where reading the global options stands: what was read so far.
struct GlobalState {
    device: Option<String>,
    stage1: String,
    baud: u32,
    fast_uart: bool,
    fast_baud: u32,
}

/// One step of reading the global options.
enum GlobalStep {
    Help,
    Next(usize),
    Done,
}

/// Reads the global option at position `i`.
#[verifier::rlimit(30)]
fn global_option(args: &[String], i: usize, st: &mut GlobalState) -> (r: Result<GlobalStep, AppError>)
    requires
        i < args@.len(),
    ensures
        ({
            let sa = strings_view(args@);
            let before = spec_global_args(
                sa,
                i as int,
                opt_view(old(st).device),
                old(st).stage1@,
                old(st).baud,
                old(st).fast_uart,
                old(st).fast_baud,
            );
            match r {
                Err(e) => before == Err::<ParsedArgsView, _>(e@),
                Ok(GlobalStep::Help) => before == Ok::<_, AppErrorView>(ParsedArgsView::Help),
                Ok(GlobalStep::Next(j)) => i < j <= args@.len() && before == spec_global_args(
                    sa,
                    j as int,
                    opt_view(final(st).device),
                    final(st).stage1@,
                    final(st).baud,
                    final(st).fast_uart,
                    final(st).fast_baud,
                ),
                Ok(GlobalStep::Done) => before == spec_finish_args(
                    sa,
                    i as int,
                    opt_view(final(st).device),
                    final(st).stage1@,
                    final(st).baud,
                    final(st).fast_uart,
                    final(st).fast_baud,
                ),
            }
        }),
{
    proof {
        reveal(spec_global_args);
        reveal_strlit("--device=");
        reveal_strlit("--stage1=");
        reveal_strlit("--baud=");
        reveal_strlit("--fast-baud=");
    }
    let a = args[i].as_str();
    assert(a@ == strings_view(args@)[i as int]);
    if str_eq(a, "-h") || str_eq(a, "--help") {
        Ok(GlobalStep::Help)
    } else if str_eq(a, "-d") || str_eq(a, "--device") {
        st.device = Some(String::from_str(require_arg(args, i + 1, "--device")?));
        Ok(GlobalStep::Next(i + 2))
    } else if starts_with(a, "--device=") {
        st.device = Some(String::from_str(suffix_from(a, 9)));
        Ok(GlobalStep::Next(i + 1))
    } else if str_eq(a, "--stage1") {
        st.stage1 = String::from_str(require_arg(args, i + 1, "--stage1")?);
        Ok(GlobalStep::Next(i + 2))
    } else if starts_with(a, "--stage1=") {
        st.stage1 = String::from_str(suffix_from(a, 9));
        Ok(GlobalStep::Next(i + 1))
    } else if str_eq(a, "-b") || str_eq(a, "--baud") {
        st.baud = parse_baud(require_arg(args, i + 1, "--baud")?, "--baud")?;
        Ok(GlobalStep::Next(i + 2))
    } else if starts_with(a, "--baud=") {
        st.baud = parse_baud(suffix_from(a, 7), "--baud")?;
        Ok(GlobalStep::Next(i + 1))
    } else if str_eq(a, "--no-fast-uart") {
        st.fast_uart = false;
        Ok(GlobalStep::Next(i + 1))
    } else if str_eq(a, "--fast-baud") {
        st.fast_baud = parse_baud(require_arg(args, i + 1, "--fast-baud")?, "--fast-baud")?;
        Ok(GlobalStep::Next(i + 2))
    } else if starts_with(a, "--fast-baud=") {
        st.fast_baud = parse_baud(suffix_from(a, 12), "--fast-baud")?;
        Ok(GlobalStep::Next(i + 1))
    } else {
        Ok(GlobalStep::Done)
    }
}

/// Reads the command line (without the program name). `default_stage1` is the
/// stage image used when `--stage1` is not given.
pub fn parse_args(args: Vec<String>, default_stage1: String) -> (r: Result<ParsedArgs, AppError>)
    ensures
        parsed_result_view(r) == spec_global_args(
            strings_view(args@),
            0,
            None,
            default_stage1@,
            115_200,
            true,
            921_600,
        ),
{
    let ghost sa = strings_view(args@);
    let ghost init = default_stage1@;
    let mut st = GlobalState {
        device: None,
        stage1: default_stage1,
        baud: crate::protocol::DEFAULT_UART_BAUD,
        fast_uart: true,
        fast_baud: crate::protocol::DEFAULT_FAST_UART_BAUD,
    };
    let mut i: usize = 0;
    let mut done = false;
    while !done && i < args.len()
        invariant
            sa == strings_view(args@),
            init == default_stage1@,
            i <= args@.len(),
            !done ==> spec_global_args(sa, 0, None, init, 115_200, true, 921_600) == spec_global_args(
                sa,
                i as int,
                opt_view(st.device),
                st.stage1@,
                st.baud,
                st.fast_uart,
                st.fast_baud,
            ),
            done ==> spec_global_args(sa, 0, None, init, 115_200, true, 921_600) == spec_finish_args(
                sa,
                i as int,
                opt_view(st.device),
                st.stage1@,
                st.baud,
                st.fast_uart,
                st.fast_baud,
            ),
        decreases 2 * (args@.len() - i) + (if done { 0int } else { 1int }),
    {
        match global_option(args.as_slice(), i, &mut st)? {
            GlobalStep::Help => return Ok(ParsedArgs::Help),
            GlobalStep::Next(j) => {
                i = j;
            },
            GlobalStep::Done => {
                done = true;
            },
        }
    }
    proof {
        if !done {
            reveal(spec_global_args);
        }
        reveal(spec_finish_args);
    }
    let device = match st.device {
        Some(d) => d,
        None => return Err(AppErrorG::MissingDevice),
    };
    let rest = vstd::slice::slice_subrange(args.as_slice(), i, args.len());
    assert(strings_view(rest@) =~= sa.skip(i as int));
    let command = parse_command(rest)?;
    Ok(
        ParsedArgs::Run(
            Config {
                device,
                stage1: st.stage1,
                baud: st.baud,
                fast_uart: st.fast_uart,
                fast_baud: st.fast_baud,
                command,
            },
        ),
    )
}

} // verus!
