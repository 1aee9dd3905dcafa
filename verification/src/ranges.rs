//! Which parts of the NOR flash and of the input image a host command touches:
//! the partition table, range checks, erase-sector alignment, and the
//! resolution of a restore selector into the ranges to erase and write.

use vstd::prelude::*;
use crate::error::{AppError, AppErrorG, AppErrorView, result_view, vec_result_view};
use crate::protocol::DeviceInfo;
use crate::text::str_eq;
use vstd::string::StringExecFns;

verus! {

pub const MIB: u32 = 1024 * 1024;

#[derive(Clone, Copy, Debug, PartialEq, Eq, Structural)]
pub enum LengthArg {
    Image,
    Full,
    Bytes(u32),
}

#[derive(Clone, Copy, Debug, PartialEq, Eq, Structural)]
pub struct InclusiveByteRange {
    pub start: u32,
    pub end: u32,
}

#[derive(Clone, Copy, Debug, PartialEq, Eq, Structural)]
pub struct SourceRange {
    pub offset: u32,
    pub len: u32,
}

#[derive(Clone, Copy, Debug, PartialEq, Eq, Structural)]
pub struct RestoreRange {
    pub image_offset: u32,
    pub flash_offset: u32,
    pub write_len: u32,
    pub erase_len: u32,
}

#[derive(Clone, Copy, Debug, PartialEq, Eq, Structural)]
pub enum NorPartitionSize {
    Bytes(u32),
    Rest,
}

#[derive(Clone, Copy, Debug)]
pub struct NorPartition {
    pub name: &'static str,
    pub offset: u32,
    pub size: NorPartitionSize,
}

// ---------------------------------------------------------------------------
// Partition table

pub open spec fn partition_name(i: int) -> Seq<char> {
    if i == 0 {
        "rcw-bl2"@
    } else if i == 1 {
        "uboot"@
    } else if i == 2 {
        "uboot-env"@
    } else if i == 3 {
        "fman-ucode"@
    } else if i == 4 {
        "recovery-dtb"@
    } else {
        "kernel-initramfs"@
    }
}

pub open spec fn partition_offset(i: int) -> u32 {
    if i == 0 {
        0
    } else if i == 1 {
        0x10_0000
    } else if i == 2 {
        0x30_0000
    } else if i == 3 {
        0x40_0000
    } else if i == 4 {
        0x50_0000
    } else {
        0xa0_0000
    }
}

pub open spec fn partition_size(i: int) -> NorPartitionSize {
    if i == 0 {
        NorPartitionSize::Bytes(0x10_0000)
    } else if i == 1 {
        NorPartitionSize::Bytes(0x20_0000)
    } else if i == 5 {
        NorPartitionSize::Rest
    } else {
        NorPartitionSize::Bytes(0x10_0000)
    }
}

/// The index in the table of the partition called `name`, if there is one.
pub open spec fn spec_find_partition(name: Seq<char>) -> Option<int> {
    if name == partition_name(0) {
        Some(0)
    } else if name == partition_name(1) {
        Some(1)
    } else if name == partition_name(2) {
        Some(2)
    } else if name == partition_name(3) {
        Some(3)
    } else if name == partition_name(4) {
        Some(4)
    } else if name == partition_name(5) {
        Some(5)
    } else {
        None
    }
}

/// Whether `p` is entry `i` of the partition table.
pub open spec fn is_partition(p: NorPartition, i: int) -> bool {
    &&& p.name@ == partition_name(i)
    &&& p.offset == partition_offset(i)
    &&& p.size == partition_size(i)
}

/// The Mono Gateway DK's NOR partition table, in flash order.
pub fn nor_partitions() -> (r: Vec<NorPartition>)
    ensures
        r@.len() == 6,
        forall|i: int| 0 <= i < 6 ==> is_partition(#[trigger] r@[i], i),
{
    let mut v: Vec<NorPartition> = Vec::new();
    v.push(NorPartition { name: "rcw-bl2", offset: 0, size: NorPartitionSize::Bytes(MIB) });
    v.push(NorPartition { name: "uboot", offset: MIB, size: NorPartitionSize::Bytes(2 * MIB) });
    v.push(NorPartition { name: "uboot-env", offset: 3 * MIB, size: NorPartitionSize::Bytes(MIB) });
    v.push(NorPartition { name: "fman-ucode", offset: 4 * MIB, size: NorPartitionSize::Bytes(MIB) });
    v.push(
        NorPartition { name: "recovery-dtb", offset: 5 * MIB, size: NorPartitionSize::Bytes(MIB) },
    );
    v.push(NorPartition { name: "kernel-initramfs", offset: 10 * MIB, size: NorPartitionSize::Rest });
    v
}

/// Looks a partition up by name.
pub fn find_nor_partition(name: &str) -> (r: Option<NorPartition>)
    ensures
        match (r, spec_find_partition(name@)) {
            (Some(p), Some(i)) => is_partition(p, i),
            (None, None) => true,
            _ => false,
        },
{
    let table = nor_partitions();
    let mut i: usize = 0;
    while i < table.len()
        invariant
            i <= 6,
            table@.len() == 6,
            forall|k: int| 0 <= k < 6 ==> is_partition(#[trigger] table@[k], k),
            forall|k: int| 0 <= k < i ==> name@ != partition_name(k),
        decreases 6 - i,
    {
        let p = table[i];
        if str_eq(p.name, name) {
            assert(is_partition(table@[i as int], i as int));
            return Some(p);
        }
        assert(is_partition(table@[i as int], i as int));
        i = i + 1;
    }
    None
}

/// The partition names, comma separated, as listed in messages.
pub open spec fn known_names() -> Seq<char> {
    "rcw-bl2, uboot, uboot-env, fman-ucode, recovery-dtb, kernel-initramfs"@
}

/// The names of the first `i` partitions, comma separated.
pub open spec fn names_upto(i: int) -> Seq<char>
    decreases i,
{
    if i <= 0 {
        Seq::empty()
    } else if i == 1 {
        partition_name(0)
    } else {
        names_upto(i - 1) + ", "@ + partition_name(i - 1)
    }
}

pub fn known_partition_names() -> (r: String)
    ensures
        r@ == known_names(),
{
    let table = nor_partitions();
    let mut out = String::new();
    let mut i: usize = 0;
    while i < table.len()
        invariant
            i <= 6,
            table@.len() == 6,
            forall|k: int| 0 <= k < 6 ==> is_partition(#[trigger] table@[k], k),
            out@ == names_upto(i as int),
        decreases 6 - i,
    {
        if i != 0 {
            out.append(", ");
        }
        out.append(table[i].name);
        proof {
            assert(is_partition(table@[i as int], i as int));
            if i == 0 {
                assert(out@ =~= names_upto(1));
            }
        }
        i = i + 1;
    }
    proof {
        reveal_strlit(", ");
        reveal_strlit("rcw-bl2");
        reveal_strlit("uboot");
        reveal_strlit("uboot-env");
        reveal_strlit("fman-ucode");
        reveal_strlit("recovery-dtb");
        reveal_strlit("kernel-initramfs");
        reveal_strlit("rcw-bl2, uboot, uboot-env, fman-ucode, recovery-dtb, kernel-initramfs");
        reveal_with_fuel(names_upto, 7);
        assert(out@ =~= known_names());
    }
    out
}

// ---------------------------------------------------------------------------
// Range checks and alignment

/// `offset..offset + length` must lie within a flash of `flash_size` bytes.
pub open spec fn spec_check_range(flash_size: u32, offset: u32, length: u32) -> Result<(), AppErrorView> {
    if offset + length > flash_size {
        Err(AppErrorG::RangeExceedsFlash { offset, end: (offset + length) as u64, flash_size })
    } else {
        Ok(())
    }
}

/// `offset..offset + length` must lie within an input image of `file_len` bytes.
pub open spec fn spec_check_input_range(file_len: u32, offset: u32, length: u32) -> Result<(), AppErrorView> {
    if offset + length > file_len {
        Err(AppErrorG::RangeExceedsInput { offset, end: (offset + length) as u64, file_len })
    } else {
        Ok(())
    }
}

/// `value` rounded up to a multiple of `align`, when that is defined and fits in 32 bits.
pub open spec fn spec_align_up(value: u32, align: u32) -> Result<u32, AppErrorView> {
    if align == 0 {
        Err(AppErrorG::ZeroEraseSize)
    } else if ((value + align - 1) / (align as int)) * align > u32::MAX {
        Err(AppErrorG::AlignedTooLarge)
    } else {
        Ok((((value + align - 1) / (align as int)) * align) as u32)
    }
}

pub fn check_range(flash_size: u32, offset: u32, length: u32) -> (r: Result<(), AppError>)
    ensures
        result_view(r) == spec_check_range(flash_size, offset, length),
{
    let end = offset as u64 + length as u64;
    if end > flash_size as u64 {
        return Err(AppErrorG::RangeExceedsFlash { offset, end, flash_size });
    }
    Ok(())
}

pub fn check_input_range(file_len: u32, offset: u32, length: u32) -> (r: Result<(), AppError>)
    ensures
        result_view(r) == spec_check_input_range(file_len, offset, length),
{
    let end = offset as u64 + length as u64;
    if end > file_len as u64 {
        return Err(AppErrorG::RangeExceedsInput { offset, end, file_len });
    }
    Ok(())
}

pub fn checked_add_u32(lhs: u32, rhs: u32) -> (r: Option<u32>)
    ensures
        r == (if lhs + rhs <= u32::MAX { Some((lhs + rhs) as u32) } else { None::<u32> }),
{
    lhs.checked_add(rhs)
}

proof fn lemma_align_bounds(v: int, a: int)
    requires
        0 <= v,
        0 < a,
    ensures
        v <= ((v + a - 1) / a) * a < v + a,
        ((v + a - 1) / a) * a % a == 0,
{
    assert(v <= ((v + a - 1) / a) * a < v + a) by (nonlinear_arith)
        requires
            0 <= v,
            0 < a,
    ;
    assert(((v + a - 1) / a) * a % a == 0) by (nonlinear_arith)
        requires
            0 <= v,
            0 < a,
    ;
}

pub fn align_up(value: u32, align: u32) -> (r: Result<u32, AppError>)
    ensures
        result_view(r) == spec_align_up(value, align),
        r matches Ok(x) ==> value <= x < value + align && x % align == 0,
{
    if align == 0 {
        return Err(AppErrorG::ZeroEraseSize);
    }
    let v = value as u64;
    let a = align as u64;
    proof {
        lemma_align_bounds(v as int, a as int);
    }
    let aligned = (v + a - 1) / a * a;
    if aligned > u32::MAX as u64 {
        return Err(AppErrorG::AlignedTooLarge);
    }
    Ok(aligned as u32)
}

pub open spec fn spec_resolve_length(info: DeviceInfo, length: LengthArg) -> u32 {
    match length {
        LengthArg::Image => info.image_size,
        LengthArg::Full => info.flash_size,
        LengthArg::Bytes(v) => v,
    }
}

/// The number of bytes that a `--length` argument stands for on this device.
pub fn resolve_length(info: &DeviceInfo, length: LengthArg) -> (r: Result<u32, AppError>)
    ensures
        r == Ok::<u32, AppError>(spec_resolve_length(*info, length)),
{
    match length {
        LengthArg::Image => Ok(info.image_size),
        LengthArg::Full => Ok(info.flash_size),
        LengthArg::Bytes(value) => Ok(value),
    }
}

// ---------------------------------------------------------------------------
// Source ranges: the parts of the input image that a selector picks

/// The erase sectors touched by an inclusive byte range, as a range of the image.
pub open spec fn spec_source_for_byte_range(info: DeviceInfo, file_len: u32, range: InclusiveByteRange) -> Result<
    SourceRange,
    AppErrorView,
> {
    let es = info.erase_size;
    if es == 0 {
        Err(AppErrorG::ZeroEraseSize)
    } else if range.end < range.start {
        Err(AppErrorG::ByteRangeReversed { start: range.start, end: range.end })
    } else if range.end == u32::MAX {
        Err(AppErrorG::ByteRangeEndTooLarge)
    } else {
        let start = (range.start - range.start % es) as u32;
        match spec_align_up((range.end + 1) as u32, es) {
            Err(e) => Err(e),
            Ok(end) => if end < start {
                Err(AppErrorG::ByteRangeUnaligned { start: range.start, end: range.end })
            } else {
                let len = (end - start) as u32;
                match spec_check_input_range(file_len, start, len) {
                    Err(e) => Err(e),
                    Ok(_) => Ok(SourceRange { offset: start, len }),
                }
            },
        }
    }
}

pub fn source_range_for_byte_range(info: &DeviceInfo, file_len: u32, range: InclusiveByteRange) -> (r:
    Result<SourceRange, AppError>)
    ensures
        result_view(r) == spec_source_for_byte_range(*info, file_len, range),
{
    if info.erase_size == 0 {
        return Err(AppErrorG::ZeroEraseSize);
    }
    if range.end < range.start {
        return Err(AppErrorG::ByteRangeReversed { start: range.start, end: range.end });
    }
    assert(range.start % info.erase_size <= range.start) by (nonlinear_arith)
        requires
            info.erase_size > 0,
    ;
    let start = range.start - (range.start % info.erase_size);
    let end_exclusive = match range.end.checked_add(1) {
        Some(e) => e,
        None => return Err(AppErrorG::ByteRangeEndTooLarge),
    };
    let end = align_up(end_exclusive, info.erase_size)?;
    let len = match end.checked_sub(start) {
        Some(l) => l,
        None => return Err(AppErrorG::ByteRangeUnaligned { start: range.start, end: range.end }),
    };
    check_input_range(file_len, start, len)?;
    Ok(SourceRange { offset: start, len })
}

/// The range of the image that a named partition covers.
pub open spec fn spec_source_for_partition(file_len: u32, name: Seq<char>) -> Result<
    SourceRange,
    AppErrorView,
> {
    match spec_find_partition(name) {
        None => Err(AppErrorG::UnknownPartition(name)),
        Some(i) => {
            let off = partition_offset(i);
            let end: Option<u32> = match partition_size(i) {
                NorPartitionSize::Bytes(len) => if off + len <= u32::MAX {
                    Some((off + len) as u32)
                } else {
                    None
                },
                NorPartitionSize::Rest => Some(file_len),
            };
            match end {
                None => Err(AppErrorG::PartitionOverflow(name)),
                Some(end) => if end <= off {
                    Err(AppErrorG::PartitionStartsBeyond { name, offset: off, file_len })
                } else if end > file_len {
                    Err(AppErrorG::PartitionEndsBeyond { name, end, file_len })
                } else {
                    Ok(SourceRange { offset: off, len: (end - off) as u32 })
                },
            }
        },
    }
}

pub fn source_range_for_partition(file_len: u32, name: &str) -> (r: Result<SourceRange, AppError>)
    ensures
        result_view(r) == spec_source_for_partition(file_len, name@),
{
    let partition = match find_nor_partition(name) {
        Some(p) => p,
        None => return Err(AppErrorG::UnknownPartition(String::from_str(name))),
    };
    let end = match partition.size {
        NorPartitionSize::Bytes(len) => match checked_add_u32(partition.offset, len) {
            Some(e) => e,
            None => return Err(AppErrorG::PartitionOverflow(String::from_str(name))),
        },
        NorPartitionSize::Rest => file_len,
    };
    if end <= partition.offset {
        return Err(
            AppErrorG::PartitionStartsBeyond {
                name: String::from_str(name),
                offset: partition.offset,
                file_len,
            },
        );
    }
    if end > file_len {
        return Err(AppErrorG::PartitionEndsBeyond { name: String::from_str(name), end, file_len });
    }
    Ok(SourceRange { offset: partition.offset, len: end - partition.offset })
}

// ---------------------------------------------------------------------------
// Coalescing

/// The ranges of `s` that are not empty, in order.
pub open spec fn nonempty_ranges(s: Seq<SourceRange>) -> Seq<SourceRange>
    decreases s.len(),
{
    if s.len() == 0 {
        s
    } else if s.last().len == 0 {
        nonempty_ranges(s.drop_last())
    } else {
        nonempty_ranges(s.drop_last()).push(s.last())
    }
}

/// `x` inserted into `s` after every range that does not start after it.
pub open spec fn insert_by_offset(s: Seq<SourceRange>, x: SourceRange) -> Seq<SourceRange>
    decreases s.len(),
{
    if s.len() == 0 {
        seq![x]
    } else if s.last().offset <= x.offset {
        s.push(x)
    } else {
        insert_by_offset(s.drop_last(), x).push(s.last())
    }
}

/// `s` sorted by offset; ranges with equal offsets keep their order (a stable sort).
pub open spec fn sort_by_offset(s: Seq<SourceRange>) -> Seq<SourceRange>
    decreases s.len(),
{
    if s.len() == 0 {
        s
    } else {
        insert_by_offset(sort_by_offset(s.drop_last()), s.last())
    }
}

/// The end of a range, as a number that may exceed 32 bits.
pub open spec fn range_end(r: SourceRange) -> int {
    r.offset + r.len
}

/// Adds `r` to ranges merged so far: it joins the last one when it starts no later
/// than that one ends, and is appended otherwise. (A merged length is kept modulo 2^32.)
pub open spec fn merge_step(out: Seq<SourceRange>, r: SourceRange) -> Seq<SourceRange> {
    if out.len() > 0 && r.offset <= range_end(out.last()) {
        let last = out.last();
        let merged_end = if range_end(last) >= range_end(r) {
            range_end(last)
        } else {
            range_end(r)
        };
        out.update(out.len() - 1, SourceRange { offset: last.offset, len: (merged_end - last.offset) as u32 })
    } else {
        out.push(r)
    }
}

/// Merges `s`, in order, into runs of overlapping or adjacent ranges.
pub open spec fn merge_ranges(s: Seq<SourceRange>) -> Seq<SourceRange>
    decreases s.len(),
{
    if s.len() == 0 {
        s
    } else {
        merge_step(merge_ranges(s.drop_last()), s.last())
    }
}

/// The non-empty ranges of `s`, sorted and merged; an error when none is left.
pub open spec fn spec_coalesce(s: Seq<SourceRange>) -> Result<Seq<SourceRange>, AppErrorView> {
    let m = merge_ranges(sort_by_offset(nonempty_ranges(s)));
    if m.len() == 0 {
        Err(AppErrorG::EmptyRestoreRange)
    } else {
        Ok(m)
    }
}

proof fn lemma_insert_split(s: Seq<SourceRange>, x: SourceRange, p: int)
    requires
        0 < p <= s.len(),
        s[p - 1].offset > x.offset,
    ensures
        insert_by_offset(s.take(p), x) + s.skip(p) == insert_by_offset(s.take(p - 1), x) + s.skip(
            p - 1,
        ),
{
    assert(s.take(p).drop_last() =~= s.take(p - 1));
    assert(s.take(p).last() == s[p - 1]);
    assert(insert_by_offset(s.take(p), x) == insert_by_offset(s.take(p - 1), x).push(s[p - 1]));
    assert(insert_by_offset(s.take(p - 1), x).push(s[p - 1]) + s.skip(p) =~= insert_by_offset(
        s.take(p - 1),
        x,
    ) + s.skip(p - 1));
}

/// Inserts `x` into the sorted vector `v` after every range that does not start after it.
fn insert_sorted(v: &mut Vec<SourceRange>, x: SourceRange)
    ensures
        final(v)@ == insert_by_offset(old(v)@, x),
{
    let mut p = v.len();
    assert(v@.take(p as int) =~= v@);
    assert(v@.skip(p as int) =~= Seq::<SourceRange>::empty());
    assert(insert_by_offset(v@, x) =~= insert_by_offset(v@.take(p as int), x) + v@.skip(p as int));
    while p > 0 && v[p - 1].offset > x.offset
        invariant
            p <= v@.len(),
            v@ == old(v)@,
            insert_by_offset(v@, x) == insert_by_offset(v@.take(p as int), x) + v@.skip(p as int),
        decreases p,
    {
        proof {
            lemma_insert_split(v@, x, p as int);
        }
        p = p - 1;
    }
    proof {
        if p > 0 {
            assert(v@.take(p as int).drop_last() =~= v@.take(p - 1));
            assert(v@.take(p as int).last() == v@[p - 1]);
        } else {
            assert(v@.take(0) =~= Seq::<SourceRange>::empty());
        }
        assert(insert_by_offset(v@.take(p as int), x) == v@.take(p as int).push(x));
    }
    let ghost before = v@;
    v.insert(p, x);
    assert(v@ =~= before.take(p as int).push(x) + before.skip(p as int));
}

/// Drops the empty ranges, sorts the rest by offset and merges overlapping or adjacent
/// ones; an error when no range is left.
pub fn coalesce_source_ranges(ranges: Vec<SourceRange>) -> (r: Result<Vec<SourceRange>, AppError>)
    ensures
        vec_result_view(r) == spec_coalesce(ranges@),
{
    // keep the non-empty ranges, sorting them as they come
    let mut sorted: Vec<SourceRange> = Vec::new();
    let mut i: usize = 0;
    while i < ranges.len()
        invariant
            i <= ranges@.len(),
            sorted@ == sort_by_offset(nonempty_ranges(ranges@.take(i as int))),
        decreases ranges@.len() - i,
    {
        let x = ranges[i];
        proof {
            assert(ranges@.take(i + 1).drop_last() =~= ranges@.take(i as int));
            assert(ranges@.take(i + 1).last() == x);
        }
        if x.len != 0 {
            insert_sorted(&mut sorted, x);
            proof {
                let n = nonempty_ranges(ranges@.take(i + 1));
                assert(n.drop_last() =~= nonempty_ranges(ranges@.take(i as int)));
            }
        }
        i = i + 1;
    }
    assert(ranges@.take(i as int) =~= ranges@);
    // merge neighbours
    let mut out: Vec<SourceRange> = Vec::new();
    let mut j: usize = 0;
    while j < sorted.len()
        invariant
            j <= sorted@.len(),
            out@ == merge_ranges(sorted@.take(j as int)),
        decreases sorted@.len() - j,
    {
        let range = sorted[j];
        proof {
            assert(sorted@.take(j + 1).drop_last() =~= sorted@.take(j as int));
            assert(sorted@.take(j + 1).last() == range);
        }
        let mut merged = false;
        if out.len() > 0 {
            let n = out.len();
            let last = out[n - 1];
            let last_end = last.offset as u64 + last.len as u64;
            let this_end = range.offset as u64 + range.len as u64;
            if range.offset as u64 <= last_end {
                let merged_end = if last_end >= this_end {
                    last_end
                } else {
                    this_end
                };
                out.set(n - 1, SourceRange { offset: last.offset, len: (merged_end - last.offset as u64) as u32 });
                merged = true;
            }
        }
        if !merged {
            out.push(range);
        }
        j = j + 1;
    }
    assert(sorted@.take(j as int) =~= sorted@);
    if out.len() == 0 {
        return Err(AppErrorG::EmptyRestoreRange);
    }
    Ok(out)
}

// ---------------------------------------------------------------------------
// Restore ranges

/// What `restore` writes: the whole image, the erase sectors touched by a byte range,
/// or named partitions.
#[derive(Clone, Debug, PartialEq, Eq)]
pub enum RestoreSelector {
    WholeImage,
    ByteRange(InclusiveByteRange),
    Partitions(Vec<String>),
}

pub enum RestoreSelectorView {
    WholeImage,
    ByteRange(InclusiveByteRange),
    Partitions(Seq<Seq<char>>),
}

/// The characters of each string.
pub open spec fn strings_view(v: Seq<String>) -> Seq<Seq<char>> {
    v.map_values(|s: String| s@)
}

impl View for RestoreSelector {
    type V = RestoreSelectorView;

    open spec fn view(&self) -> RestoreSelectorView {
        match self {
            RestoreSelector::WholeImage => RestoreSelectorView::WholeImage,
            RestoreSelector::ByteRange(r) => RestoreSelectorView::ByteRange(*r),
            RestoreSelector::Partitions(names) => RestoreSelectorView::Partitions(
                strings_view(names@),
            ),
        }
    }
}

/// The image ranges of the named partitions, in the order named; the first error otherwise.
pub open spec fn spec_partition_sources(file_len: u32, names: Seq<Seq<char>>) -> Result<
    Seq<SourceRange>,
    AppErrorView,
>
    decreases names.len(),
{
    if names.len() == 0 {
        Ok(Seq::empty())
    } else {
        match spec_partition_sources(file_len, names.drop_last()) {
            Err(e) => Err(e),
            Ok(v) => match spec_source_for_partition(file_len, names.last()) {
                Err(e) => Err(e),
                Ok(r) => Ok(v.push(r)),
            },
        }
    }
}

/// The image ranges that a selector picks.
pub open spec fn spec_selector_sources(info: DeviceInfo, file_len: u32, sel: RestoreSelectorView) -> Result<
    Seq<SourceRange>,
    AppErrorView,
> {
    match sel {
        RestoreSelectorView::WholeImage => Ok(seq![SourceRange { offset: 0, len: file_len }]),
        RestoreSelectorView::ByteRange(r) => match spec_source_for_byte_range(info, file_len, r) {
            Err(e) => Err(e),
            Ok(s) => Ok(seq![s]),
        },
        RestoreSelectorView::Partitions(names) => spec_partition_sources(file_len, names),
    }
}

/// Where an image range goes in flash, and how much is erased for it.
pub open spec fn spec_restore_range(info: DeviceInfo, base: u32, file_len: u32, s: SourceRange) -> Result<
    RestoreRange,
    AppErrorView,
> {
    match spec_check_input_range(file_len, s.offset, s.len) {
        Err(e) => Err(e),
        Ok(_) => if base + s.offset > u32::MAX {
            Err(AppErrorG::RestoreOffsetOverflow { base, offset: s.offset })
        } else {
            let flash_offset = (base + s.offset) as u32;
            match spec_check_range(info.flash_size, flash_offset, s.len) {
                Err(e) => Err(e),
                Ok(_) => match spec_align_up(s.len, info.erase_size) {
                    Err(e) => Err(e),
                    Ok(erase_len) => Ok(
                        RestoreRange {
                            image_offset: s.offset,
                            flash_offset,
                            write_len: s.len,
                            erase_len,
                        },
                    ),
                },
            }
        },
    }
}

/// `spec_restore_range` of each range in order; the first error otherwise.
pub open spec fn spec_restore_ranges(info: DeviceInfo, base: u32, file_len: u32, s: Seq<SourceRange>) -> Result<
    Seq<RestoreRange>,
    AppErrorView,
>
    decreases s.len(),
{
    if s.len() == 0 {
        Ok(Seq::empty())
    } else {
        match spec_restore_ranges(info, base, file_len, s.drop_last()) {
            Err(e) => Err(e),
            Ok(v) => match spec_restore_range(info, base, file_len, s.last()) {
                Err(e) => Err(e),
                Ok(r) => Ok(v.push(r)),
            },
        }
    }
}

/// The flash ranges that restoring the selected part of an image of `file_len` bytes
/// at `base` writes and erases.
pub open spec fn spec_resolve_restore(info: DeviceInfo, base: u32, file_len: u32, sel: RestoreSelectorView) -> Result<
    Seq<RestoreRange>,
    AppErrorView,
> {
    match spec_selector_sources(info, file_len, sel) {
        Err(e) => Err(e),
        Ok(s) => match spec_coalesce(s) {
            Err(e) => Err(e),
            Ok(c) => spec_restore_ranges(info, base, file_len, c),
        },
    }
}

proof fn lemma_partition_sources_err(file_len: u32, names: Seq<Seq<char>>, k: int)
    requires
        0 <= k <= names.len(),
        spec_partition_sources(file_len, names.take(k)) is Err,
    ensures
        spec_partition_sources(file_len, names) == spec_partition_sources(file_len, names.take(k)),
    decreases names.len() - k,
{
    if k < names.len() {
        assert(names.take(k + 1).drop_last() =~= names.take(k));
        lemma_partition_sources_err(file_len, names, k + 1);
    } else {
        assert(names.take(k) =~= names);
    }
}

proof fn lemma_restore_ranges_err(info: DeviceInfo, base: u32, file_len: u32, s: Seq<SourceRange>, k: int)
    requires
        0 <= k <= s.len(),
        spec_restore_ranges(info, base, file_len, s.take(k)) is Err,
    ensures
        spec_restore_ranges(info, base, file_len, s) == spec_restore_ranges(info, base, file_len, s.take(k)),
    decreases s.len() - k,
{
    if k < s.len() {
        assert(s.take(k + 1).drop_last() =~= s.take(k));
        lemma_restore_ranges_err(info, base, file_len, s, k + 1);
    } else {
        assert(s.take(k) =~= s);
    }
}

fn partition_sources(file_len: u32, names: &Vec<String>) -> (r: Result<Vec<SourceRange>, AppError>)
    ensures
        vec_result_view(r) == spec_partition_sources(file_len, strings_view(names@)),
{
    let mut ranges: Vec<SourceRange> = Vec::new();
    let mut i: usize = 0;
    while i < names.len()
        invariant
            i <= names@.len(),
            spec_partition_sources(file_len, strings_view(names@.take(i as int))) == Ok::<
                Seq<SourceRange>,
                AppErrorView,
            >(ranges@),
        decreases names@.len() - i,
    {
        proof {
            assert(strings_view(names@.take(i + 1)).drop_last() =~= strings_view(names@.take(i as int)));
            assert(strings_view(names@.take(i + 1)).last() == names@[i as int]@);
        }
        let r = match source_range_for_partition(file_len, names[i].as_str()) {
            Ok(r) => r,
            Err(e) => {
                proof {
                    lemma_partition_sources_err(file_len, strings_view(names@), i + 1);
                    assert(strings_view(names@).take(i + 1) =~= strings_view(names@.take(i + 1)));
                }
                return Err(e);
            },
        };
        ranges.push(r);
        i = i + 1;
    }
    assert(names@.take(i as int) =~= names@);
    Ok(ranges)
}

fn restore_range(info: &DeviceInfo, base: u32, file_len: u32, source: SourceRange) -> (r: Result<RestoreRange, AppError>)
    ensures
        result_view(r) == spec_restore_range(*info, base, file_len, source),
{
    check_input_range(file_len, source.offset, source.len)?;
    let flash_offset = match checked_add_u32(base, source.offset) {
        Some(o) => o,
        None => return Err(AppErrorG::RestoreOffsetOverflow { base, offset: source.offset }),
    };
    check_range(info.flash_size, flash_offset, source.len)?;
    let erase_len = align_up(source.len, info.erase_size)?;
    Ok(RestoreRange { image_offset: source.offset, flash_offset, write_len: source.len, erase_len })
}

/// Resolves a restore selector into the flash ranges to erase and write.
pub fn resolve_restore_ranges(
    info: &DeviceInfo,
    flash_base_offset: u32,
    file_len: u32,
    selector: &RestoreSelector,
) -> (r: Result<Vec<RestoreRange>, AppError>)
    ensures
        vec_result_view(r) == spec_resolve_restore(*info, flash_base_offset, file_len, selector@),
        r matches Ok(v) ==> v@.len() > 0 && forall|i: int|
            0 <= i < v@.len() ==> restore_range_ok(*info, flash_base_offset, file_len, #[trigger] v@[i]),
{
    proof {
        lemma_resolved_restore_ranges(*info, flash_base_offset, file_len, selector@);
    }
    let source_ranges = match selector {
        RestoreSelector::WholeImage => {
            let mut v: Vec<SourceRange> = Vec::new();
            v.push(SourceRange { offset: 0, len: file_len });
            v
        },
        RestoreSelector::ByteRange(range) => {
            let s = source_range_for_byte_range(info, file_len, *range)?;
            let mut v: Vec<SourceRange> = Vec::new();
            v.push(s);
            v
        },
        RestoreSelector::Partitions(names) => partition_sources(file_len, names)?,
    };
    proof {
        assert(spec_selector_sources(*info, file_len, selector@) == Ok::<Seq<SourceRange>, AppErrorView>(source_ranges@));
    }
    let sources = coalesce_source_ranges(source_ranges)?;
    let mut restore: Vec<RestoreRange> = Vec::new();
    let mut i: usize = 0;
    while i < sources.len()
        invariant
            i <= sources@.len(),
            spec_restore_ranges(*info, flash_base_offset, file_len, sources@.take(i as int))
                == Ok::<Seq<RestoreRange>, AppErrorView>(restore@),
            spec_resolve_restore(*info, flash_base_offset, file_len, selector@)
                == spec_restore_ranges(*info, flash_base_offset, file_len, sources@),
        decreases sources@.len() - i,
    {
        proof {
            assert(sources@.take(i + 1).drop_last() =~= sources@.take(i as int));
            assert(sources@.take(i + 1).last() == sources@[i as int]);
        }
        let r = match restore_range(info, flash_base_offset, file_len, sources[i]) {
            Ok(r) => r,
            Err(e) => {
                proof {
                    lemma_restore_ranges_err(*info, flash_base_offset, file_len, sources@, i + 1);
                }
                return Err(e);
            },
        };
        restore.push(r);
        i = i + 1;
    }
    assert(sources@.take(i as int) =~= sources@);
    Ok(restore)
}

// ---------------------------------------------------------------------------
// What resolution guarantees

/// A byte-range selector picks exactly the erase sectors that the inclusive range
/// touches: the first one starts at or before the range, the last one ends after
/// it, all are whole sectors, and no sector beyond those is included.
pub proof fn lemma_byte_range_sectors(info: DeviceInfo, file_len: u32, range: InclusiveByteRange)
    ensures
        spec_source_for_byte_range(info, file_len, range) matches Ok(s) ==> {
            let es = info.erase_size as int;
            &&& s.offset <= range.start
            &&& range.end < s.offset + s.len
            &&& (s.offset as int) % es == 0
            &&& (s.offset + s.len) % es == 0
            &&& range.start < s.offset + es
            &&& s.offset + s.len <= range.end + es
            &&& s.offset + s.len <= file_len
        },
{
    if let Ok(s) = spec_source_for_byte_range(info, file_len, range) {
        let es = info.erase_size as int;
        let st = range.start as int;
        let e1 = range.end as int + 1;
        lemma_align_bounds(e1, es);
        assert(0 <= st % es <= st && st < st - st % es + es && (st - st % es) % es == 0) by (nonlinear_arith)
            requires
                es > 0,
                st >= 0,
        ;
        let start = st - st % es;
        let end = ((e1 + es - 1) / es) * es;
        assert((range.start % info.erase_size) as int == st % es);
        assert(0 <= start <= u32::MAX);
        assert(s.offset == start);
        assert(s.offset + s.len == end);
        assert(end % es == 0);
        assert(e1 <= end < e1 + es);
    }
}

/// Every resolved restore range lies within the image and the flash, goes to the
/// base offset plus its place in the image, and erases whole sectors covering what
/// it writes (less than one sector more).
pub open spec fn restore_range_ok(info: DeviceInfo, base: u32, file_len: u32, r: RestoreRange) -> bool {
    &&& r.flash_offset == base + r.image_offset
    &&& r.image_offset + r.write_len <= file_len
    &&& r.flash_offset + r.write_len <= info.flash_size
    &&& info.erase_size > 0
    &&& r.write_len <= r.erase_len < r.write_len + info.erase_size
    &&& r.erase_len % info.erase_size == 0
}

proof fn lemma_restore_range_ok(info: DeviceInfo, base: u32, file_len: u32, s: SourceRange)
    ensures
        spec_restore_range(info, base, file_len, s) matches Ok(r) ==> restore_range_ok(info, base, file_len, r)
            && r.image_offset == s.offset && r.write_len == s.len,
{
    if let Ok(r) = spec_restore_range(info, base, file_len, s) {
        lemma_align_bounds(s.len as int, info.erase_size as int);
    }
}

/// Turning source ranges into restore ranges keeps them one for one: each restore
/// range writes exactly its source range, and is within the image and the flash.
pub proof fn lemma_restore_ranges_ok(info: DeviceInfo, base: u32, file_len: u32, s: Seq<SourceRange>)
    ensures
        spec_restore_ranges(info, base, file_len, s) matches Ok(v) ==> v.len() == s.len() && forall|i: int|
            0 <= i < v.len() ==> restore_range_ok(info, base, file_len, #[trigger] v[i])
                && v[i].image_offset == s[i].offset && v[i].write_len == s[i].len,
    decreases s.len(),
{
    if s.len() > 0 {
        lemma_restore_ranges_ok(info, base, file_len, s.drop_last());
        lemma_restore_range_ok(info, base, file_len, s.last());
    }
}

/// What a successful restore resolution gives: at least one range, each of them
/// within the image and the flash and erasing whole sectors that cover it.
pub proof fn lemma_resolved_restore_ranges(info: DeviceInfo, base: u32, file_len: u32, sel: RestoreSelectorView)
    ensures
        spec_resolve_restore(info, base, file_len, sel) matches Ok(v) ==> v.len() > 0 && forall|i: int|
            0 <= i < v.len() ==> restore_range_ok(info, base, file_len, #[trigger] v[i]),
{
    if let Ok(s) = spec_selector_sources(info, file_len, sel) {
        if let Ok(c) = spec_coalesce(s) {
            lemma_restore_ranges_ok(info, base, file_len, c);
        }
    }
}

/// The ranges of a successful restore resolution are the coalesced source ranges,
/// one for one and in the same order: so they are non-empty, sorted and separated
/// (see `lemma_coalesce`), and they write exactly the selected bytes.
pub proof fn lemma_resolved_ranges_are_coalesced(
    info: DeviceInfo,
    base: u32,
    file_len: u32,
    sel: RestoreSelectorView,
)
    ensures
        spec_resolve_restore(info, base, file_len, sel) matches Ok(v) ==> {
            &&& spec_selector_sources(info, file_len, sel) is Ok
            &&& spec_coalesce(spec_selector_sources(info, file_len, sel)->Ok_0) is Ok
            &&& ({
                let c = spec_coalesce(spec_selector_sources(info, file_len, sel)->Ok_0)->Ok_0;
                &&& v.len() == c.len()
                &&& forall|i: int|
                    0 <= i < v.len() ==> #[trigger] v[i].image_offset == c[i].offset && v[i].write_len
                        == c[i].len
            })
        },
{
    if let Ok(s) = spec_selector_sources(info, file_len, sel) {
        if let Ok(c) = spec_coalesce(s) {
            lemma_restore_ranges_ok(info, base, file_len, c);
        }
    }
}

// ---------------------------------------------------------------------------
// What coalescing guarantees

/// Whether byte `p` lies in range `r`.
pub open spec fn in_range(r: SourceRange, p: int) -> bool {
    r.offset <= p < range_end(r)
}

/// Whether byte `p` lies in one of the ranges of `s`.
pub open spec fn covers(s: Seq<SourceRange>, p: int) -> bool
    decreases s.len(),
{
    s.len() > 0 && (covers(s.drop_last(), p) || in_range(s.last(), p))
}

/// Ranges that are non-empty and end within 32 bits.
pub open spec fn all_good(s: Seq<SourceRange>) -> bool {
    forall|i: int| 0 <= i < s.len() ==> (#[trigger] s[i]).len > 0 && range_end(s[i]) <= u32::MAX
}

/// Ranges sorted by offset.
pub open spec fn sorted_by_offset(s: Seq<SourceRange>) -> bool {
    forall|i: int, j: int| 0 <= i <= j < s.len() ==> (#[trigger] s[i]).offset <= (#[trigger] s[j]).offset
}

/// Ranges in increasing order with a gap between each and the next.
pub open spec fn separated(s: Seq<SourceRange>) -> bool {
    forall|i: int, j: int| 0 <= i < j < s.len() ==> range_end(#[trigger] s[i]) < (#[trigger] s[j]).offset
}

proof fn lemma_covers_append(a: Seq<SourceRange>, b: Seq<SourceRange>, p: int)
    ensures
        covers(a + b, p) == (covers(a, p) || covers(b, p)),
    decreases b.len(),
{
    if b.len() == 0 {
        assert(a + b =~= a);
    } else {
        lemma_covers_append(a, b.drop_last(), p);
        assert((a + b).drop_last() =~= a + b.drop_last());
    }
}

proof fn lemma_nonempty_ranges(s: Seq<SourceRange>, p: int)
    requires
        forall|i: int| 0 <= i < s.len() ==> range_end(#[trigger] s[i]) <= u32::MAX,
    ensures
        all_good(nonempty_ranges(s)),
        covers(nonempty_ranges(s), p) == covers(s, p),
        nonempty_ranges(s).len() == 0 <==> forall|i: int| 0 <= i < s.len() ==> (#[trigger] s[i]).len == 0,
    decreases s.len(),
{
    if s.len() > 0 {
        let t = s.drop_last();
        assert forall|i: int| 0 <= i < t.len() implies range_end(#[trigger] t[i]) <= u32::MAX by {
            assert(t[i] == s[i]);
        }
        lemma_nonempty_ranges(t, p);
        let n = nonempty_ranges(t);
        if s.last().len != 0 {
            assert(nonempty_ranges(s).drop_last() =~= n);
            assert(s[s.len() - 1] == s.last());
        } else {
            if forall|i: int| 0 <= i < t.len() ==> (#[trigger] t[i]).len == 0 {
                assert forall|i: int| 0 <= i < s.len() implies (#[trigger] s[i]).len == 0 by {
                    if i < t.len() {
                        assert(t[i] == s[i]);
                    }
                }
            }
        }
        if forall|i: int| 0 <= i < s.len() ==> (#[trigger] s[i]).len == 0 {
            assert forall|i: int| 0 <= i < t.len() implies (#[trigger] t[i]).len == 0 by {
                assert(t[i] == s[i]);
            }
            assert(s[s.len() - 1].len == 0);
        }
    }
}

/// Where `insert_by_offset` puts a range into sorted ranges.
pub open spec fn insert_pos(s: Seq<SourceRange>, x: SourceRange) -> int
    decreases s.len(),
{
    if s.len() == 0 || s.last().offset <= x.offset {
        s.len() as int
    } else {
        insert_pos(s.drop_last(), x)
    }
}

proof fn lemma_insert_form(s: Seq<SourceRange>, x: SourceRange)
    requires
        sorted_by_offset(s),
    ensures
        0 <= insert_pos(s, x) <= s.len(),
        insert_by_offset(s, x) == s.take(insert_pos(s, x)).push(x) + s.skip(insert_pos(s, x)),
        forall|i: int| 0 <= i < insert_pos(s, x) ==> (#[trigger] s[i]).offset <= x.offset,
        forall|i: int| insert_pos(s, x) <= i < s.len() ==> (#[trigger] s[i]).offset > x.offset,
    decreases s.len(),
{
    let k = insert_pos(s, x);
    if s.len() == 0 {
        assert(insert_by_offset(s, x) =~= s.take(0).push(x) + s.skip(0));
    } else if s.last().offset <= x.offset {
        assert(insert_by_offset(s, x) =~= s.take(k).push(x) + s.skip(k));
        assert forall|i: int| 0 <= i < k implies (#[trigger] s[i]).offset <= x.offset by {
            assert(s[i].offset <= s[s.len() - 1].offset);
        }
    } else {
        let t = s.drop_last();
        assert(sorted_by_offset(t)) by {
            assert forall|i: int, j: int| 0 <= i <= j < t.len() implies (#[trigger] t[i]).offset
                <= (#[trigger] t[j]).offset by {
                assert(t[i] == s[i] && t[j] == s[j]);
            }
        }
        lemma_insert_form(t, x);
        assert(insert_by_offset(s, x) =~= s.take(k).push(x) + s.skip(k));
        assert forall|i: int| 0 <= i < k implies (#[trigger] s[i]).offset <= x.offset by {
            assert(t[i] == s[i]);
        }
        assert forall|i: int| k <= i < s.len() implies (#[trigger] s[i]).offset > x.offset by {
            if i < t.len() {
                assert(t[i] == s[i]);
            }
        }
    }
}

proof fn lemma_insert_props(s: Seq<SourceRange>, x: SourceRange, p: int)
    requires
        sorted_by_offset(s),
        all_good(s),
        x.len > 0,
        range_end(x) <= u32::MAX,
    ensures
        sorted_by_offset(insert_by_offset(s, x)),
        all_good(insert_by_offset(s, x)),
        insert_by_offset(s, x).len() == s.len() + 1,
        covers(insert_by_offset(s, x), p) == (covers(s, p) || in_range(x, p)),
{
    lemma_insert_form(s, x);
    let k = insert_pos(s, x);
    let a = s.take(k);
    let b = s.skip(k);
    let r = a.push(x) + b;
    assert(s =~= a + b);
    lemma_covers_append(a, b, p);
    lemma_covers_append(a.push(x), b, p);
    assert(a.push(x).drop_last() =~= a);
    assert forall|i: int| 0 <= i < r.len() implies (#[trigger] r[i]).len > 0 && range_end(r[i]) <= u32::MAX by {
        if i < k {
            assert(r[i] == s[i]);
        } else if i > k {
            assert(r[i] == s[i - 1]);
        }
    }
    assert forall|i: int, j: int| 0 <= i <= j < r.len() implies (#[trigger] r[i]).offset <= (#[trigger] r[j]).offset by {
        if j < k {
            assert(r[i] == s[i] && r[j] == s[j]);
        } else if j == k {
            if i < k {
                assert(r[i] == s[i]);
            }
        } else {
            assert(r[j] == s[j - 1]);
            if i < k {
                assert(r[i] == s[i]);
            } else if i > k {
                assert(r[i] == s[i - 1]);
            }
        }
    }
}

proof fn lemma_sort_props(s: Seq<SourceRange>, p: int)
    requires
        all_good(s),
    ensures
        sorted_by_offset(sort_by_offset(s)),
        all_good(sort_by_offset(s)),
        sort_by_offset(s).len() == s.len(),
        covers(sort_by_offset(s), p) == covers(s, p),
    decreases s.len(),
{
    if s.len() > 0 {
        let t = s.drop_last();
        assert(all_good(t)) by {
            assert forall|i: int| 0 <= i < t.len() implies (#[trigger] t[i]).len > 0 && range_end(t[i]) <= u32::MAX by {
                assert(t[i] == s[i]);
            }
        }
        lemma_sort_props(t, p);
        assert(s[s.len() - 1] == s.last());
        lemma_insert_props(sort_by_offset(t), s.last(), p);
    }
}

proof fn lemma_merge_props(t: Seq<SourceRange>, p: int)
    requires
        sorted_by_offset(t),
        all_good(t),
    ensures
        separated(merge_ranges(t)),
        all_good(merge_ranges(t)),
        covers(merge_ranges(t), p) == covers(t, p),
        merge_ranges(t).len() == 0 <==> t.len() == 0,
        t.len() > 0 ==> merge_ranges(t).last().offset <= t.last().offset,
    decreases t.len(),
{
    if t.len() > 0 {
        let u = t.drop_last();
        let x = t.last();
        assert(x == t[t.len() - 1]);
        assert(sorted_by_offset(u)) by {
            assert forall|i: int, j: int| 0 <= i <= j < u.len() implies (#[trigger] u[i]).offset
                <= (#[trigger] u[j]).offset by {
                assert(u[i] == t[i] && u[j] == t[j]);
            }
        }
        assert(all_good(u)) by {
            assert forall|i: int| 0 <= i < u.len() implies (#[trigger] u[i]).len > 0 && range_end(u[i]) <= u32::MAX by {
                assert(u[i] == t[i]);
            }
        }
        lemma_merge_props(u, p);
        let m = merge_ranges(u);
        if u.len() > 0 {
            assert(u.last() == t[u.len() - 1]);
            assert(u.last().offset <= x.offset);
        }
        let r = merge_step(m, x);
        if m.len() > 0 && x.offset <= range_end(m.last()) {
            let last = m.last();
            let n = m.len() - 1;
            assert(m[n] == last);
            assert(r.drop_last() =~= m.drop_last());
            assert(separated(r)) by {
                assert forall|i: int, j: int| 0 <= i < j < r.len() implies range_end(#[trigger] r[i]) < (#[trigger] r[j]).offset by {
                    assert(r[i] == m[i]);
                    if j < n {
                        assert(r[j] == m[j]);
                    }
                }
            }
            assert(all_good(r)) by {
                assert forall|i: int| 0 <= i < r.len() implies (#[trigger] r[i]).len > 0 && range_end(r[i]) <= u32::MAX by {
                    if i < n {
                        assert(r[i] == m[i]);
                    }
                }
            }
        } else {
            assert(r.drop_last() =~= m);
            assert(separated(r)) by {
                assert forall|i: int, j: int| 0 <= i < j < r.len() implies range_end(#[trigger] r[i]) < (#[trigger] r[j]).offset by {
                    assert(r[i] == m[i]);
                    if j < m.len() {
                        assert(r[j] == m[j]);
                    } else if i < m.len() - 1 {
                        assert(range_end(m[i]) < m[m.len() - 1].offset);
                    }
                }
            }
            assert(all_good(r)) by {
                assert forall|i: int| 0 <= i < r.len() implies (#[trigger] r[i]).len > 0 && range_end(r[i]) <= u32::MAX by {
                    if i < m.len() {
                        assert(r[i] == m[i]);
                    }
                }
            }
        }
    }
}

/// Coalescing keeps exactly the bytes that the selected ranges cover, as non-empty
/// ranges in increasing order with gaps between them, when every range ends within
/// 32 bits; it fails exactly when every range is empty.
pub proof fn lemma_coalesce(s: Seq<SourceRange>)
    requires
        forall|i: int| 0 <= i < s.len() ==> range_end(#[trigger] s[i]) <= u32::MAX,
    ensures
        spec_coalesce(s) is Err <==> forall|i: int| 0 <= i < s.len() ==> (#[trigger] s[i]).len == 0,
        spec_coalesce(s) matches Ok(m) ==> {
            &&& separated(m)
            &&& all_good(m)
            &&& forall|p: int| covers(m, p) == covers(s, p)
        },
{
    let n = nonempty_ranges(s);
    lemma_nonempty_ranges(s, 0);
    lemma_sort_props(n, 0);
    lemma_merge_props(sort_by_offset(n), 0);
    assert forall|p: int| covers(merge_ranges(sort_by_offset(n)), p) == covers(s, p) by {
        lemma_nonempty_ranges(s, p);
        lemma_sort_props(n, p);
        lemma_merge_props(sort_by_offset(n), p);
    }
}

/// The NOR partition table is laid out in flash order without overlap: it starts at 0,
/// the first five partitions have fixed sizes and each of the first four ends exactly
/// where the next begins, every partition with a fixed size ends no later than the next
/// one starts, only the last one runs to the end of the image, and every boundary lies
/// on a 64 KiB erase sector.
pub proof fn lemma_partition_table_layout()
    ensures
        partition_offset(0) == 0,
        forall|i: int| 0 <= i < 5 ==> (#[trigger] partition_size(i)) is Bytes,
        partition_size(5) is Rest,
        forall|i: int|
            0 <= i < 4 ==> partition_offset(i) + (#[trigger] partition_size(i))->Bytes_0 == partition_offset(i + 1),
        forall|i: int|
            0 <= i < 5 ==> partition_offset(i) + (#[trigger] partition_size(i))->Bytes_0 <= partition_offset(i + 1),
        forall|i: int| 0 <= i < 5 ==> #[trigger] partition_offset(i) < partition_offset(i + 1),
        forall|i: int| 0 <= i < 6 ==> #[trigger] partition_offset(i) % 65536 == 0,
        forall|i: int| 0 <= i < 5 ==> (#[trigger] partition_size(i))->Bytes_0 % 65536 == 0,
{
}

} // verus!
