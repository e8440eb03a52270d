//! The section header table and the program header table.

use vstd::prelude::*;
use crate::error::{AppError, ParseError};
use crate::fmt::{decimal, push_decimal, push_str};
use crate::model::{ElfClass, Endianness, Segment};
use super::header::{read_word, word_at, Layout};
use super::read::{file_slice, overflow_error, range_error, range_in_file, read_u32, u32_at};

verus! {

/// A header table of `count` entries of `entry_size` bytes at `offset` that is
/// wide enough per entry and lies inside the file.
pub open spec fn table_valid(len: nat, offset: u64, entry_size: u16, count: u16, expected: u16) -> bool {
    entry_size >= expected && offset + entry_size * count <= len
}

/// The error of an invalid header table.
pub open spec fn table_error(len: nat, offset: u64, entry_size: u16, count: u16, expected: u16, name: &'static str, err: AppError) -> bool {
    if entry_size < expected {
        err matches AppError::Parse(ParseError::InvalidHeader { what, detail }) && what == name
            && detail@ == "entry size ("@ + decimal(entry_size as nat) + ") is smaller than required ("@
            + decimal(expected as nat) + ")"@
    } else {
        err == range_error(name, offset, (entry_size * count) as u64)
    }
}

/// Checks that a header table has wide enough entries and lies inside the file.
pub fn validate_table(bytes: &[u8], offset: u64, entry_size: u16, count: u16, expected: u16, name: &'static str) -> (r: Result<(), AppError>)
    ensures
        r is Ok <==> table_valid(bytes@.len(), offset, entry_size, count, expected),
        r matches Err(err) ==> table_error(bytes@.len(), offset, entry_size, count, expected, name, err),
{
    if entry_size < expected {
        let mut detail = String::from_str("entry size (");
        push_decimal(&mut detail, entry_size as u64);
        push_str(&mut detail, ") is smaller than required (");
        push_decimal(&mut detail, expected as u64);
        push_str(&mut detail, ")");
        return Err(AppError::Parse(ParseError::InvalidHeader { what: name, detail }));
    }
    assert(entry_size * count <= 0xffff * 0xffff) by (nonlinear_arith)
        requires entry_size <= 0xffff, count <= 0xffff;
    let total = entry_size as u64 * count as u64;
    match file_slice(bytes, offset, total, name) {
        Ok(_) => Ok(()),
        Err(e) => Err(e),
    }
}

proof fn lemma_entry_in_table(base: u64, entry_size: u16, count: u16, index: int)
    requires
        0 <= index < count,
    ensures
        entry_size * index + entry_size <= entry_size * count,
        0 <= entry_size * index,
{
    assert(entry_size * index + entry_size <= entry_size * count) by (nonlinear_arith)
        requires 0 <= index < count, entry_size >= 0;
    assert(0 <= entry_size * index) by (nonlinear_arith)
        requires 0 <= index, entry_size >= 0;
}

/// The file offset of entry `index` of a table at `base` whose entries are
/// `entry_size` bytes long, checked against 64-bit and host arithmetic.
pub fn table_offset(base: u64, entry_size: u16, index: u16) -> (r: Result<usize, AppError>)
    ensures
        base + entry_size * index <= usize::MAX ==> r == Ok::<usize, AppError>((base + entry_size * index) as usize),
        base + entry_size * index > u64::MAX ==> r == Err::<usize, AppError>(overflow_error("table entry offset")),
        usize::MAX < base + entry_size * index <= u64::MAX ==> r == Err::<usize, AppError>(
            overflow_error("table offset host conversion"),
        ),
{
    assert(entry_size * index <= 0xffff * 0xffff) by (nonlinear_arith)
        requires entry_size <= 0xffff, index <= 0xffff;
    let step = entry_size as u64 * index as u64;
    if base > u64::MAX - step {
        return Err(AppError::Parse(ParseError::IntegerOverflow("table entry offset")));
    }
    let offset = base + step;
    if offset > usize::MAX as u64 {
        return Err(AppError::Parse(ParseError::IntegerOverflow("table offset host conversion")));
    }
    Ok(offset as usize)
}

/// The file offset of entry `index` of a table validated to lie inside the file.
fn entry_at(bytes: &[u8], base: u64, entry_size: u16, count: u16, index: u16) -> (at: usize)
    requires
        index < count,
        base + entry_size * count <= bytes@.len(),
    ensures
        at == base + entry_size * index,
        at + entry_size <= bytes@.len(),
{
    proof {
        lemma_entry_in_table(base, entry_size, count, index as int);
    }
    let len = bytes.len();
    match table_offset(base, entry_size, index) {
        Ok(at) => at,
        Err(_) => 0,
    }
}

/// The expected size of a program header entry.
pub open spec fn program_entry_size(c: ElfClass) -> u16 {
    if c is Elf32 {
        32
    } else {
        56
    }
}

/// The program header at file offset `at`.
pub open spec fn segment_at(s: Seq<u8>, at: int, index: u16, c: ElfClass, e: Endianness) -> Segment {
    let elf32 = c is Elf32;
    Segment {
        index,
        segment_type: u32_at(s, at, e) as u32,
        flags: u32_at(s, at + if elf32 { 24int } else { 4 }, e) as u32,
        offset: word_at(s, at + if elf32 { 4int } else { 8 }, c, e) as u64,
        virtual_address: word_at(s, at + if elf32 { 8int } else { 16 }, c, e) as u64,
        file_size: word_at(s, at + if elf32 { 16int } else { 32 }, c, e) as u64,
        memory_size: word_at(s, at + if elf32 { 20int } else { 40 }, c, e) as u64,
        alignment: word_at(s, at + if elf32 { 28int } else { 48 }, c, e) as u64,
    }
}

/// Program header `i` of the table the file header describes.
pub open spec fn segment_entry(s: Seq<u8>, l: Layout, c: ElfClass, i: int) -> Segment {
    segment_at(s, l.program_offset + l.program_entry_size * i, i as u16, c, l.endianness)
}

/// A segment whose file contents, if any, lie inside the file.
pub open spec fn segment_contents_ok(len: nat, seg: Segment) -> bool {
    seg.file_size == 0 || range_in_file(len, seg.offset, seg.file_size)
}

/// A program header table that decodes without error.
pub open spec fn segments_valid(s: Seq<u8>, l: Layout, c: ElfClass) -> bool {
    l.program_count == 0 || (table_valid(s.len(), l.program_offset, l.program_entry_size, l.program_count, program_entry_size(c))
        && forall|i: int| 0 <= i < l.program_count ==> segment_contents_ok(s.len(), #[trigger] segment_entry(s, l, c, i)))
}

/// The decoded program headers.
pub open spec fn segments_decoded(s: Seq<u8>, l: Layout, c: ElfClass, v: Seq<Segment>) -> bool {
    &&& v.len() == l.program_count
    &&& forall|i: int| 0 <= i < v.len() ==> #[trigger] v[i] == segment_entry(s, l, c, i)
}

fn read_segment(bytes: &[u8], at: usize, index: u16, class: &ElfClass, endianness: &Endianness) -> (r: Result<Segment, AppError>)
    requires
        at + program_entry_size(*class) <= bytes@.len(),
    ensures
        r == Ok::<Segment, AppError>(segment_at(bytes@, at as int, index, *class, *endianness)),
{
    let len = bytes.len();
    let elf32 = matches!(class, ElfClass::Elf32);
    let segment_type = read_u32(bytes, at, endianness)?;
    let flags = read_u32(bytes, at + if elf32 { 24 } else { 4 }, endianness)?;
    let offset = read_word(bytes, at + if elf32 { 4 } else { 8 }, class, endianness)?;
    let virtual_address = read_word(bytes, at + if elf32 { 8 } else { 16 }, class, endianness)?;
    let file_size = read_word(bytes, at + if elf32 { 16 } else { 32 }, class, endianness)?;
    let memory_size = read_word(bytes, at + if elf32 { 20 } else { 40 }, class, endianness)?;
    let alignment = read_word(bytes, at + if elf32 { 28 } else { 48 }, class, endianness)?;
    Ok(Segment { index, segment_type, flags, offset, virtual_address, file_size, memory_size, alignment })
}

/// Decodes the program header table.
pub(crate) fn parse_segments(bytes: &[u8], class: &ElfClass, endianness: &Endianness, layout: &Layout) -> (r: Result<Vec<Segment>, AppError>)
    requires
        layout.endianness == *endianness,
    ensures
        r is Ok <==> segments_valid(bytes@, *layout, *class),
        r matches Ok(v) ==> segments_decoded(bytes@, *layout, *class, v@),
        r matches Err(err) ==> segments_error(bytes@, *layout, *class, err),
{
    let mut segments: Vec<Segment> = Vec::new();
    if layout.program_count == 0 {
        return Ok(segments);
    }
    let expected: u16 = match class {
        ElfClass::Elf32 => 32,
        ElfClass::Elf64 => 56,
    };
    validate_table(bytes, layout.program_offset, layout.program_entry_size, layout.program_count, expected, "program")?;
    let mut index: u16 = 0;
    while index < layout.program_count
        invariant
            index <= layout.program_count,
            layout.endianness == *endianness,
            table_valid(bytes@.len(), layout.program_offset, layout.program_entry_size, layout.program_count, program_entry_size(*class)),
            segments@.len() == index,
            forall|i: int| 0 <= i < index ==> #[trigger] segments@[i] == segment_entry(bytes@, *layout, *class, i),
            forall|i: int| 0 <= i < index ==> segment_contents_ok(bytes@.len(), #[trigger] segment_entry(bytes@, *layout, *class, i)),
        decreases layout.program_count - index,
    {
        let at = entry_at(bytes, layout.program_offset, layout.program_entry_size, layout.program_count, index);
        let segment = read_segment(bytes, at, index, class, endianness)?;
        assert(segment == segment_entry(bytes@, *layout, *class, index as int));
        if segment.file_size != 0 {
            if let Err(e) = file_slice(bytes, segment.offset, segment.file_size, "segment contents") {
                return Err(e);
            }
        }
        segments.push(segment);
        index = index + 1;
    }
    Ok(segments)
}

} // verus!

verus! {

/// Ceiling on the section bytes scanned for entropy during one inspection.
///
/// Section sizes are attacker-controlled and independent of the file size, so
/// without a shared budget a small file can declare thousands of sections that
/// all claim the whole file and turn bounded input into unbounded work.
pub const MAX_TOTAL_SECTION_SCAN_BYTES: u64 = 64 * 1024 * 1024;

/// A section header as stored in the file.
#[derive(Debug, Clone, Copy, PartialEq, Eq, Structural)]
pub struct RawSection {
    /// `sh_name`.
    pub name_offset: u32,
    /// `sh_type`.
    pub section_type: u32,
    /// `sh_flags`.
    pub flags: u64,
    /// `sh_addr`.
    pub address: u64,
    /// `sh_offset`.
    pub offset: u64,
    /// `sh_size`.
    pub size: u64,
    /// `sh_link`.
    pub link: u32,
    /// `sh_info`.
    pub info: u32,
    /// `sh_addralign`.
    pub alignment: u64,
    /// `sh_entsize`.
    pub entry_size: u64,
}

/// The expected size of a section header entry.
pub open spec fn section_entry_size(c: ElfClass) -> u16 {
    if c is Elf32 {
        40
    } else {
        64
    }
}

/// The section header at file offset `at`.
pub open spec fn raw_section_at(s: Seq<u8>, at: int, c: ElfClass, e: Endianness) -> RawSection {
    let elf32 = c is Elf32;
    RawSection {
        name_offset: u32_at(s, at, e) as u32,
        section_type: u32_at(s, at + 4, e) as u32,
        flags: word_at(s, at + 8, c, e) as u64,
        address: word_at(s, at + if elf32 { 12int } else { 16 }, c, e) as u64,
        offset: word_at(s, at + if elf32 { 16int } else { 24 }, c, e) as u64,
        size: word_at(s, at + if elf32 { 20int } else { 32 }, c, e) as u64,
        link: u32_at(s, at + if elf32 { 24int } else { 40 }, e) as u32,
        info: u32_at(s, at + if elf32 { 28int } else { 44 }, e) as u32,
        alignment: word_at(s, at + if elf32 { 32int } else { 48 }, c, e) as u64,
        entry_size: word_at(s, at + if elf32 { 36int } else { 56 }, c, e) as u64,
    }
}

impl RawSection {
    /// Reads the section header at file offset `offset`.
    pub(crate) fn read(bytes: &[u8], offset: usize, class: &ElfClass, endianness: &Endianness) -> (r: Result<Self, AppError>)
        requires
            offset + section_entry_size(*class) <= bytes@.len(),
        ensures
            r == Ok::<Self, AppError>(raw_section_at(bytes@, offset as int, *class, *endianness)),
    {
        let len = bytes.len();
        let elf32 = matches!(class, ElfClass::Elf32);
        let name_offset = read_u32(bytes, offset, endianness)?;
        let section_type = read_u32(bytes, offset + 4, endianness)?;
        let flags = read_word(bytes, offset + 8, class, endianness)?;
        let address = read_word(bytes, offset + if elf32 { 12 } else { 16 }, class, endianness)?;
        let file_offset = read_word(bytes, offset + if elf32 { 16 } else { 24 }, class, endianness)?;
        let size = read_word(bytes, offset + if elf32 { 20 } else { 32 }, class, endianness)?;
        let link = read_u32(bytes, offset + if elf32 { 24 } else { 40 }, endianness)?;
        let info = read_u32(bytes, offset + if elf32 { 28 } else { 44 }, endianness)?;
        let alignment = read_word(bytes, offset + if elf32 { 32 } else { 48 }, class, endianness)?;
        let entry_size = read_word(bytes, offset + if elf32 { 36 } else { 56 }, class, endianness)?;
        Ok(RawSection { name_offset, section_type, flags, address, offset: file_offset, size, link, info, alignment, entry_size })
    }
}

/// Section header `i` of the table the file header describes.
pub open spec fn raw_entry(s: Seq<u8>, l: Layout, c: ElfClass, i: int) -> RawSection {
    raw_section_at(s, l.section_offset + l.section_entry_size * i, c, l.endianness)
}

/// The section holding section names.
pub open spec fn names_entry(s: Seq<u8>, l: Layout, c: ElfClass) -> RawSection {
    raw_entry(s, l, c, l.section_names_index as int)
}

/// The bytes of the section-name string table.
pub open spec fn names_table(s: Seq<u8>, l: Layout, c: ElfClass) -> Seq<u8> {
    let n = names_entry(s, l, c);
    s.subrange(n.offset as int, n.offset + n.size)
}

/// A section whose contents are read (and may be scanned for entropy).
pub open spec fn has_contents(r: RawSection) -> bool {
    r.section_type != 8 && r.size != 0
}

/// Bytes charged to the entropy scan budget by the sections before `i`.
pub open spec fn scan_used(s: Seq<u8>, l: Layout, c: ElfClass, i: int) -> nat
    decreases i,
{
    if i <= 0 {
        0
    } else {
        let prev = scan_used(s, l, c, i - 1);
        let r = raw_entry(s, l, c, i - 1);
        if has_contents(r) && prev + r.size <= MAX_TOTAL_SECTION_SCAN_BYTES {
            (prev + r.size) as nat
        } else {
            prev
        }
    }
}

/// The total size of the sections marked as scanned for entropy.
pub open spec fn scanned_size(v: Seq<crate::model::Section>) -> nat
    decreases v.len(),
{
    if v.len() == 0 {
        0
    } else {
        scanned_size(v.drop_last()) + if v.last().entropy_scanned { v.last().size as nat } else { 0 }
    }
}

proof fn lemma_scan_used_bounded(s: Seq<u8>, l: Layout, c: ElfClass, i: int)
    ensures
        scan_used(s, l, c, i) <= MAX_TOTAL_SECTION_SCAN_BYTES,
    decreases i,
{
    if i > 0 {
        lemma_scan_used_bounded(s, l, c, i - 1);
    }
}

/// Whether section `i` is within the entropy scan budget.
pub open spec fn entropy_scanned(s: Seq<u8>, l: Layout, c: ElfClass, i: int) -> bool {
    let r = raw_entry(s, l, c, i);
    has_contents(r) && scan_used(s, l, c, i) + r.size <= MAX_TOTAL_SECTION_SCAN_BYTES
}

/// The raw name bytes of section `i`, when its name is a terminated string of the name table.
pub open spec fn section_name_bytes(s: Seq<u8>, l: Layout, c: ElfClass, i: int) -> Option<Seq<u8>> {
    let table = names_table(s, l, c);
    let at = raw_entry(s, l, c, i).name_offset;
    if at <= table.len() {
        super::strings::c_string_at(table, at as int)
    } else {
        None
    }
}

/// Decoded text charged by the names of the sections before `i`.
pub open spec fn names_text_used(s: Seq<u8>, l: Layout, c: ElfClass, i: int) -> nat
    decreases i,
{
    if i <= 0 {
        0
    } else {
        names_text_used(s, l, c, i - 1) + crate::text::escaped(section_name_bytes(s, l, c, i - 1)->0).len()
    }
}

/// Whether section `i` decodes: its contents lie in the file and its name resolves.
pub open spec fn section_ok(s: Seq<u8>, l: Layout, c: ElfClass, i: int) -> bool {
    let r = raw_entry(s, l, c, i);
    &&& has_contents(r) ==> range_in_file(s.len(), r.offset, r.size)
    &&& section_name_bytes(s, l, c, i) is Some
}

/// A section header table that decodes without error.
pub open spec fn sections_valid(s: Seq<u8>, l: Layout, c: ElfClass) -> bool {
    l.section_count == 0 || {
        &&& table_valid(s.len(), l.section_offset, l.section_entry_size, l.section_count, section_entry_size(c))
        &&& l.section_names_index < l.section_count
        &&& names_entry(s, l, c).section_type == 3
        &&& range_in_file(s.len(), names_entry(s, l, c).offset, names_entry(s, l, c).size)
        &&& forall|i: int| 0 <= i < l.section_count ==> #[trigger] section_ok(s, l, c, i)
        &&& names_text_used(s, l, c, l.section_count as int) <= super::strings::MAX_TOTAL_TEXT_BYTES
    }
}

/// Whether section `i` fails to decode once the sections before it have:
/// its contents or name do not resolve, or its name exceeds the text budget.
pub open spec fn section_fails(s: Seq<u8>, l: Layout, c: ElfClass, i: int) -> bool {
    !section_ok(s, l, c, i) || names_text_used(s, l, c, i + 1) > super::strings::MAX_TOTAL_TEXT_BYTES
}

/// The error raised by section `i` when it is the first that fails.
pub open spec fn section_failure(s: Seq<u8>, l: Layout, c: ElfClass, i: int) -> AppError {
    let r = raw_entry(s, l, c, i);
    let table = names_table(s, l, c);
    if has_contents(r) && !range_in_file(s.len(), r.offset, r.size) {
        range_error("section contents", r.offset, r.size)
    } else if r.name_offset > table.len() {
        AppError::Parse(ParseError::OutOfBounds { what: "section name in string table", offset: r.name_offset as u64, size: 1 })
    } else if super::strings::c_string_at(table, r.name_offset as int) is None {
        AppError::Parse(ParseError::InvalidStringTable("section name"))
    } else {
        super::strings::text_limit_error()
    }
}

/// `err` is the error of a section header table that does not decode: the
/// table check, the section-name table checks, or the first failing section.
pub open spec fn sections_error(s: Seq<u8>, l: Layout, c: ElfClass, err: AppError) -> bool {
    if !table_valid(s.len(), l.section_offset, l.section_entry_size, l.section_count, section_entry_size(c)) {
        table_error(s.len(), l.section_offset, l.section_entry_size, l.section_count, section_entry_size(c), "section", err)
    } else if l.section_names_index >= l.section_count {
        super::read::is_malformed(err, "section-name table index is outside the section table"@)
    } else if names_entry(s, l, c).section_type != 3 {
        super::read::is_malformed(err, "section-name table is not a string table"@)
    } else if !range_in_file(s.len(), names_entry(s, l, c).offset, names_entry(s, l, c).size) {
        err == range_error("section-name string table", names_entry(s, l, c).offset, names_entry(s, l, c).size)
    } else {
        exists|i: int|
            0 <= i < l.section_count && (forall|k: int| 0 <= k < i ==> !#[trigger] section_fails(s, l, c, k))
                && #[trigger] section_fails(s, l, c, i) && err == section_failure(s, l, c, i)
    }
}

/// `err` is the error of a program header table that does not decode: the
/// table check, or the first segment whose contents lie outside the file.
pub open spec fn segments_error(s: Seq<u8>, l: Layout, c: ElfClass, err: AppError) -> bool {
    if !table_valid(s.len(), l.program_offset, l.program_entry_size, l.program_count, program_entry_size(c)) {
        table_error(s.len(), l.program_offset, l.program_entry_size, l.program_count, program_entry_size(c), "program", err)
    } else {
        exists|i: int|
            0 <= i < l.program_count && (forall|k: int| 0 <= k < i ==> segment_contents_ok(s.len(), #[trigger] segment_entry(s, l, c, k)))
                && !segment_contents_ok(s.len(), #[trigger] segment_entry(s, l, c, i)) && err == range_error(
                "segment contents",
                segment_entry(s, l, c, i).offset,
                segment_entry(s, l, c, i).file_size,
            )
    }
}

/// Section `v` is the decoding of section header `i`.
pub open spec fn section_decoded(s: Seq<u8>, l: Layout, c: ElfClass, i: int, v: crate::model::Section) -> bool {
    let r = raw_entry(s, l, c, i);
    &&& v.index == i
    &&& v.name@ == crate::text::escaped(section_name_bytes(s, l, c, i)->0)
    &&& v.section_type == r.section_type
    &&& v.flags == r.flags
    &&& v.address == r.address
    &&& v.offset == r.offset
    &&& v.size == r.size
    &&& v.link == r.link
    &&& v.info == r.info
    &&& v.alignment == r.alignment
    &&& v.entry_size == r.entry_size
    &&& v.entropy_scanned == entropy_scanned(s, l, c, i)
    &&& v.entropy is None
}

/// The decoded section headers.
pub open spec fn sections_decoded(s: Seq<u8>, l: Layout, c: ElfClass, v: Seq<crate::model::Section>) -> bool {
    &&& v.len() == l.section_count
    &&& forall|i: int| 0 <= i < v.len() ==> #[trigger] section_decoded(s, l, c, i, v[i])
}

proof fn lemma_scanned_size(s: Seq<u8>, l: Layout, c: ElfClass, v: Seq<crate::model::Section>, i: int)
    requires
        sections_decoded(s, l, c, v),
        0 <= i <= v.len(),
    ensures
        scanned_size(v.take(i)) == scan_used(s, l, c, i),
    decreases i,
{
    if i > 0 {
        lemma_scanned_size(s, l, c, v, i - 1);
        assert(v.take(i).drop_last() =~= v.take(i - 1));
        assert(v.take(i).last() == v[i - 1]);
        assert(section_decoded(s, l, c, i - 1, v[i - 1]));
    }
}

/// The entropy scan is bounded: the sections of a decoded header table that
/// are marked for scanning hold at most 64 MiB of contents together.
pub proof fn scanned_sections_fit_budget(s: Seq<u8>, l: Layout, c: ElfClass, v: Seq<crate::model::Section>)
    requires
        sections_decoded(s, l, c, v),
    ensures
        scanned_size(v) <= MAX_TOTAL_SECTION_SCAN_BYTES,
{
    lemma_scanned_size(s, l, c, v, v.len() as int);
    lemma_scan_used_bounded(s, l, c, v.len() as int);
    assert(v.take(v.len() as int) =~= v);
}

proof fn lemma_names_text_monotone(s: Seq<u8>, l: Layout, c: ElfClass, i: int, j: int)
    requires
        0 <= i <= j,
    ensures
        names_text_used(s, l, c, i) <= names_text_used(s, l, c, j),
    decreases j - i,
{
    if i < j {
        lemma_names_text_monotone(s, l, c, i, j - 1);
    }
}

/// The facts established before the per-section loop.
pub open spec fn table_ready(s: Seq<u8>, l: Layout, c: ElfClass, e: Endianness, table: Seq<u8>) -> bool {
    &&& l.endianness == e
    &&& table_valid(s.len(), l.section_offset, l.section_entry_size, l.section_count, section_entry_size(c))
    &&& l.section_names_index < l.section_count
    &&& names_entry(s, l, c).section_type == 3
    &&& range_in_file(s.len(), names_entry(s, l, c).offset, names_entry(s, l, c).size)
    &&& table == names_table(s, l, c)
}

#[verifier::rlimit(40)]
fn decode_section(
    bytes: &[u8],
    class: &ElfClass,
    endianness: &Endianness,
    layout: &Layout,
    string_table: &[u8],
    index: u16,
    scanned_bytes: &mut u64,
    text_bytes: &mut usize,
) -> (r: Result<crate::model::Section, AppError>)
    requires
        index < layout.section_count,
        table_ready(bytes@, *layout, *class, *endianness, string_table@),
        *old(scanned_bytes) == scan_used(bytes@, *layout, *class, index as int),
        *old(scanned_bytes) <= MAX_TOTAL_SECTION_SCAN_BYTES,
        *old(text_bytes) == names_text_used(bytes@, *layout, *class, index as int),
        *old(text_bytes) <= super::strings::MAX_TOTAL_TEXT_BYTES,
    ensures
        r is Ok <==> section_ok(bytes@, *layout, *class, index as int) && names_text_used(bytes@, *layout, *class, index + 1) <= super::strings::MAX_TOTAL_TEXT_BYTES,
        r matches Ok(v) ==> section_decoded(bytes@, *layout, *class, index as int, v),
        r is Ok ==> *final(scanned_bytes) == scan_used(bytes@, *layout, *class, index + 1),
        r is Ok ==> *final(text_bytes) == names_text_used(bytes@, *layout, *class, index + 1),
        *final(scanned_bytes) <= MAX_TOTAL_SECTION_SCAN_BYTES,
        r is Ok ==> *final(text_bytes) <= super::strings::MAX_TOTAL_TEXT_BYTES,
        r matches Err(err) ==> err == section_failure(bytes@, *layout, *class, index as int),
{
    let at = entry_at(bytes, layout.section_offset, layout.section_entry_size, layout.section_count, index);
    let section = RawSection::read(bytes, at, class, endianness)?;
    assert(section == raw_entry(bytes@, *layout, *class, index as int));
    let mut scanned = false;
    if section.section_type != 8 && section.size != 0 {
        if let Err(e) = file_slice(bytes, section.offset, section.size, "section contents") {
            return Err(e);
        }
        if section.size <= MAX_TOTAL_SECTION_SCAN_BYTES - *scanned_bytes {
            *scanned_bytes = *scanned_bytes + section.size;
            scanned = true;
        }
    }
    let name_text = super::strings::string_at(string_table, section.name_offset)?;
    proof {
        super::strings::lemma_c_string_bound(string_table@, section.name_offset as int);
        crate::text::lemma_escaped_len(super::strings::c_string_at(string_table@, section.name_offset as int)->0);
    }
    let name = super::strings::take_text(name_text, text_bytes)?;
    Ok(crate::model::Section {
        index,
        name,
        section_type: section.section_type,
        flags: section.flags,
        address: section.address,
        offset: section.offset,
        size: section.size,
        link: section.link,
        info: section.info,
        alignment: section.alignment,
        entry_size: section.entry_size,
        entropy_scanned: scanned,
        entropy: None,
    })
}

/// Decodes the section header table and the section names.
#[verifier::spinoff_prover]
pub(crate) fn parse_sections(bytes: &[u8], class: &ElfClass, endianness: &Endianness, layout: &Layout) -> (r: Result<Vec<crate::model::Section>, AppError>)
    requires
        layout.endianness == *endianness,
    ensures
        r is Ok <==> sections_valid(bytes@, *layout, *class),
        r matches Ok(v) ==> sections_decoded(bytes@, *layout, *class, v@),
        r matches Err(err) ==> sections_error(bytes@, *layout, *class, err),
{
    let mut sections: Vec<crate::model::Section> = Vec::new();
    if layout.section_count == 0 {
        return Ok(sections);
    }
    let expected: u16 = match class {
        ElfClass::Elf32 => 40,
        ElfClass::Elf64 => 64,
    };
    validate_table(bytes, layout.section_offset, layout.section_entry_size, layout.section_count, expected, "section")?;
    if layout.section_names_index >= layout.section_count {
        return Err(super::read::malformed("section-name table index is outside the section table"));
    }
    let names_at = entry_at(bytes, layout.section_offset, layout.section_entry_size, layout.section_count, layout.section_names_index);
    let names = RawSection::read(bytes, names_at, class, endianness)?;
    if names.section_type != 3 {
        return Err(super::read::malformed("section-name table is not a string table"));
    }
    let string_table = file_slice(bytes, names.offset, names.size, "section-name string table")?;
    assert(string_table@ == names_table(bytes@, *layout, *class));
    let mut text_bytes: usize = 0;
    let mut scanned_bytes: u64 = 0;
    let mut index: u16 = 0;
    while index < layout.section_count
        invariant
            index <= layout.section_count,
            table_ready(bytes@, *layout, *class, *endianness, string_table@),
            sections@.len() == index,
            scanned_bytes == scan_used(bytes@, *layout, *class, index as int),
            scanned_bytes <= MAX_TOTAL_SECTION_SCAN_BYTES,
            text_bytes == names_text_used(bytes@, *layout, *class, index as int),
            text_bytes <= super::strings::MAX_TOTAL_TEXT_BYTES,
            forall|i: int| 0 <= i < index ==> #[trigger] section_decoded(bytes@, *layout, *class, i, sections@[i]),
            forall|i: int| 0 <= i < index ==> #[trigger] section_ok(bytes@, *layout, *class, i),
            forall|i: int| 0 <= i < index ==> !#[trigger] section_fails(bytes@, *layout, *class, i),
        decreases layout.section_count - index,
    {
        let section = match decode_section(bytes, class, endianness, layout, string_table, index, &mut scanned_bytes, &mut text_bytes) {
            Ok(sec) => sec,
            Err(e) => {
                proof {
                    if section_ok(bytes@, *layout, *class, index as int) {
                        lemma_names_text_monotone(bytes@, *layout, *class, index + 1, layout.section_count as int);
                    }
                    assert(section_fails(bytes@, *layout, *class, index as int));
                }
                return Err(e);
            },
        };
        proof {
            assert forall|i: int| 0 <= i < index + 1 implies !#[trigger] section_fails(bytes@, *layout, *class, i) by {
                lemma_names_text_monotone(bytes@, *layout, *class, i + 1, index + 1);
            }
        }
        sections.push(section);
        index = index + 1;
    }
    Ok(sections)
}

} // verus!
