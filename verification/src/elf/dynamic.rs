//! The dynamic table, the program interpreter, and the loader metadata they carry.

use vstd::prelude::*;
use crate::error::{AppError, ParseError};
use crate::model::{DynamicEntry, DynamicInfo, ElfClass, Endianness, Section, Segment};
use crate::text::escaped;
use super::read::{file_slice, is_malformed, malformed, range_error, range_in_file, read_u32, read_u64, u32_at, u64_at};
use super::strings::{c_string, c_string_at, string_at, take_text, MAX_TOTAL_TEXT_BYTES};

verus! {

/// Largest number of dynamic-table entries decoded.
pub const MAX_DYNAMIC_ENTRIES: usize = 16_384;

/// `DT_FLAGS` immediate-binding bit (`DF_BIND_NOW`).
pub const DF_BIND_NOW: u64 = 0x8;
/// `DT_FLAGS_1` immediate-binding bit (`DF_1_NOW`).
pub const DF_1_NOW: u64 = 0x1;
/// `DT_FLAGS_1` bit marking an `ET_DYN` file as a position-independent executable.
pub const DF_1_PIE: u64 = 0x0800_0000;

/// Width of one dynamic entry.
pub open spec fn dyn_width(c: ElfClass) -> int {
    if c is Elf32 {
        8
    } else {
        16
    }
}

/// `d_tag` of entry `k` of a dynamic table.
pub open spec fn dyn_tag(data: Seq<u8>, k: int, c: ElfClass, e: Endianness) -> nat {
    if c is Elf32 {
        u32_at(data, k * 8, e)
    } else {
        u64_at(data, k * 16, e)
    }
}

/// `d_val` of entry `k` of a dynamic table.
pub open spec fn dyn_value(data: Seq<u8>, k: int, c: ElfClass, e: Endianness) -> nat {
    if c is Elf32 {
        u32_at(data, k * 8 + 4, e)
    } else {
        u64_at(data, k * 16 + 8, e)
    }
}

/// The number of entries before the first `DT_NULL`, scanning from `k`.
pub open spec fn dyn_end(data: Seq<u8>, c: ElfClass, e: Endianness, k: int, count: int) -> int
    decreases count - k,
{
    if k >= count {
        count
    } else if dyn_tag(data, k, c, e) == 0 {
        k
    } else {
        dyn_end(data, c, e, k + 1, count)
    }
}

/// The `(tag, value)` pairs of a dynamic table, up to its `DT_NULL` terminator.
pub open spec fn dyn_entries(data: Seq<u8>, c: ElfClass, e: Endianness) -> Seq<(u64, u64)> {
    let count = (data.len() as int) / dyn_width(c);
    Seq::new(
        dyn_end(data, c, e, 0, count as int) as nat,
        |k: int| (dyn_tag(data, k, c, e) as u64, dyn_value(data, k, c, e) as u64),
    )
}

/// A dynamic table at a file range that decodes without error.
pub open spec fn dyn_table_ok(s: Seq<u8>, offset: u64, size: u64, c: ElfClass) -> bool {
    &&& range_in_file(s.len(), offset, size)
    &&& (size as int) % dyn_width(c) == 0
    &&& (size as int) / dyn_width(c) <= MAX_DYNAMIC_ENTRIES
}

/// `err` is the error of a dynamic table at a file range that does not
/// decode: the range check, then the entry width, then the entry limit.
pub open spec fn dyn_table_error(s: Seq<u8>, offset: u64, size: u64, c: ElfClass, what: &'static str, err: AppError) -> bool {
    if !range_in_file(s.len(), offset, size) {
        err == range_error(what, offset, size)
    } else if (size as int) % dyn_width(c) != 0 {
        is_malformed(err, "dynamic table has an invalid entry size"@)
    } else {
        err == AppError::Parse(ParseError::LimitExceeded { what: "dynamic table entries", limit: MAX_DYNAMIC_ENTRIES })
    }
}

/// The dynamic table bytes of a file range.
pub open spec fn range_bytes(s: Seq<u8>, offset: u64, size: u64) -> Seq<u8> {
    s.subrange(offset as int, offset + size)
}

proof fn lemma_dyn_end_bounds(data: Seq<u8>, c: ElfClass, e: Endianness, k: int, count: int)
    requires
        0 <= k <= count,
    ensures
        k <= dyn_end(data, c, e, k, count) <= count,
        forall|j: int| k <= j < dyn_end(data, c, e, k, count) ==> dyn_tag(data, j, c, e) != 0,
    decreases count - k,
{
    if k < count && dyn_tag(data, k, c, e) != 0 {
        lemma_dyn_end_bounds(data, c, e, k + 1, count);
    }
}

/// Reads raw `(tag, value)` pairs up to the `DT_NULL` terminator.
pub fn read_dynamic_entries(
    bytes: &[u8],
    class: &ElfClass,
    endianness: &Endianness,
    offset: u64,
    size: u64,
    what: &'static str,
) -> (r: Result<Vec<(u64, u64)>, AppError>)
    ensures
        r is Ok <==> dyn_table_ok(bytes@, offset, size, *class),
        r matches Ok(v) ==> v@ == dyn_entries(range_bytes(bytes@, offset, size), *class, *endianness),
        !range_in_file(bytes@.len(), offset, size) ==> r == Err::<Vec<(u64, u64)>, AppError>(range_error(what, offset, size)),
        range_in_file(bytes@.len(), offset, size) && (size as int) % dyn_width(*class) != 0 ==> (r matches Err(e)
            && is_malformed(e, "dynamic table has an invalid entry size"@)),
        range_in_file(bytes@.len(), offset, size) && (size as int) % dyn_width(*class) == 0 && (size as int) / dyn_width(*class) > MAX_DYNAMIC_ENTRIES
            ==> r == Err::<Vec<(u64, u64)>, AppError>(AppError::Parse(ParseError::LimitExceeded { what: "dynamic table entries", limit: MAX_DYNAMIC_ENTRIES })),
        r matches Err(err) ==> dyn_table_error(bytes@, offset, size, *class, what, err),
{
    let width: usize = match class {
        ElfClass::Elf32 => 8,
        ElfClass::Elf64 => 16,
    };
    let data = file_slice(bytes, offset, size, what)?;
    if data.len() % width != 0 {
        return Err(malformed("dynamic table has an invalid entry size"));
    }
    let count = data.len() / width;
    if count > MAX_DYNAMIC_ENTRIES {
        return Err(AppError::Parse(ParseError::LimitExceeded { what: "dynamic table entries", limit: MAX_DYNAMIC_ENTRIES }));
    }
    let ghost end = dyn_end(data@, *class, *endianness, 0, count as int);
    proof {
        lemma_dyn_end_bounds(data@, *class, *endianness, 0, count as int);
    }
    let mut entries: Vec<(u64, u64)> = Vec::new();
    let mut index: usize = 0;
    while index < count
        invariant
            index <= count,
            data@ == range_bytes(bytes@, offset, size),
            dyn_table_ok(bytes@, offset, size, *class),
            count == (data@.len() as int) / (width as int),
            width == dyn_width(*class),
            count <= MAX_DYNAMIC_ENTRIES,
            end == dyn_end(data@, *class, *endianness, 0, count as int),
            dyn_end(data@, *class, *endianness, index as int, count as int) == end,
            index <= end,
            entries@ =~= Seq::new(index as nat, |k: int| (dyn_tag(data@, k, *class, *endianness) as u64, dyn_value(data@, k, *class, *endianness) as u64)),
        decreases count - index,
    {
        let at = index * width;
        assert(at + width <= data@.len()) by (nonlinear_arith)
            requires at == index * width, index < count, count == (data@.len() as int) / (width as int), width > 0;
        let (tag, value) = match class {
            ElfClass::Elf32 => {
                let t = read_u32(data, at, endianness)?;
                let v = read_u32(data, at + 4, endianness)?;
                (t as u64, v as u64)
            },
            ElfClass::Elf64 => {
                let t = read_u64(data, at, endianness)?;
                let v = read_u64(data, at + 8, endianness)?;
                (t, v)
            },
        };
        assert(tag == dyn_tag(data@, index as int, *class, *endianness));
        assert(value == dyn_value(data@, index as int, *class, *endianness));
        if tag == 0 {
            assert(index == end);
            assert(entries@ =~= dyn_entries(data@, *class, *endianness));
            return Ok(entries);
        }
        proof {
            lemma_dyn_end_bounds(data@, *class, *endianness, index + 1, count as int);
        }
        entries.push((tag, value));
        index = index + 1;
    }
    assert(index == end);
    assert(entries@ =~= dyn_entries(data@, *class, *endianness));
    Ok(entries)
}

} // verus!

verus! {

/// The position of the first section of type `t` at or after `i`.
pub open spec fn find_section(secs: Seq<Section>, t: u32, i: int) -> Option<int>
    decreases secs.len() - i,
{
    if i >= secs.len() || i < 0 {
        None
    } else if secs[i].section_type == t {
        Some(i)
    } else {
        find_section(secs, t, i + 1)
    }
}

/// The position of the first segment of type `t` at or after `i`.
pub open spec fn find_segment(segs: Seq<Segment>, t: u32, i: int) -> Option<int>
    decreases segs.len() - i,
{
    if i >= segs.len() || i < 0 {
        None
    } else if segs[i].segment_type == t {
        Some(i)
    } else {
        find_segment(segs, t, i + 1)
    }
}

pub(crate) proof fn lemma_find_section(secs: Seq<Section>, t: u32, i: int)
    requires
        0 <= i,
    ensures
        find_section(secs, t, i) matches Some(k) ==> i <= k < secs.len() && secs[k].section_type == t,
        find_section(secs, t, i) is None ==> forall|j: int| i <= j < secs.len() ==> secs[j].section_type != t,
    decreases secs.len() - i,
{
    if i < secs.len() && secs[i].section_type != t {
        lemma_find_section(secs, t, i + 1);
    }
}

pub(crate) proof fn lemma_find_segment(segs: Seq<Segment>, t: u32, i: int)
    requires
        0 <= i,
    ensures
        find_segment(segs, t, i) matches Some(k) ==> i <= k < segs.len() && segs[k].segment_type == t,
        find_segment(segs, t, i) is None ==> forall|j: int| i <= j < segs.len() ==> segs[j].segment_type != t,
    decreases segs.len() - i,
{
    if i < segs.len() && segs[i].segment_type != t {
        lemma_find_segment(segs, t, i + 1);
    }
}

/// Finds the first section of type `t`.
pub fn first_section_of_type(sections: &[Section], t: u32) -> (r: Option<usize>)
    ensures
        r matches Some(k) ==> find_section(sections@, t, 0) == Some(k as int),
        r is None ==> find_section(sections@, t, 0) is None,
{
    proof {
        lemma_find_section(sections@, t, 0);
    }
    let mut i: usize = 0;
    while i < sections.len()
        invariant
            i <= sections@.len(),
            find_section(sections@, t, i as int) == find_section(sections@, t, 0),
        decreases sections@.len() - i,
    {
        if sections[i].section_type == t {
            return Some(i);
        }
        i = i + 1;
    }
    None
}

/// Finds the first segment of type `t`.
pub fn first_segment_of_type(segments: &[Segment], t: u32) -> (r: Option<usize>)
    ensures
        r matches Some(k) ==> find_segment(segments@, t, 0) == Some(k as int),
        r is None ==> find_segment(segments@, t, 0) is None,
{
    proof {
        lemma_find_segment(segments@, t, 0);
    }
    let mut i: usize = 0;
    while i < segments.len()
        invariant
            i <= segments@.len(),
            find_segment(segments@, t, i as int) == find_segment(segments@, t, 0),
        decreases segments@.len() - i,
    {
        if segments[i].segment_type == t {
            return Some(i);
        }
        i = i + 1;
    }
    None
}

/// The value of the first entry with tag `tag`, scanning from `i`.
pub open spec fn address_of(entries: Seq<(u64, u64)>, tag: u64, i: int) -> Option<u64>
    decreases entries.len() - i,
{
    if i >= entries.len() || i < 0 {
        None
    } else if entries[i].0 == tag {
        Some(entries[i].1)
    } else {
        address_of(entries, tag, i + 1)
    }
}

/// Finds the value of the first entry with tag `tag`.
pub fn find_tag(entries: &Vec<(u64, u64)>, tag: u64) -> (r: Option<u64>)
    ensures
        r == address_of(entries@, tag, 0),
{
    let mut i: usize = 0;
    while i < entries.len()
        invariant
            i <= entries@.len(),
            address_of(entries@, tag, i as int) == address_of(entries@, tag, 0),
        decreases entries@.len() - i,
    {
        if entries[i].0 == tag {
            return Some(entries[i].1);
        }
        i = i + 1;
    }
    None
}

/// A loadable segment whose file image covers virtual address `a`.
pub open spec fn maps_address(seg: Segment, a: u64) -> bool {
    seg.segment_type == 1 && a >= seg.virtual_address && a - seg.virtual_address < seg.file_size
}

/// The file offset of virtual address `a` through the first loadable segment covering it.
pub open spec fn vaddr_offset(segs: Seq<Segment>, a: u64, i: int) -> Option<u64>
    decreases segs.len() - i,
{
    if i >= segs.len() || i < 0 {
        None
    } else if maps_address(segs[i], a) {
        Some((segs[i].offset + (a - segs[i].virtual_address)) as u64)
    } else {
        vaddr_offset(segs, a, i + 1)
    }
}

/// Loadable segments with a file image whose file ranges do not overflow the
/// 64-bit offset space: the ranges that addresses are mapped through.
pub open spec fn loadable_ranges_fit(segs: Seq<Segment>) -> bool {
    forall|i: int|
        0 <= i < segs.len() && #[trigger] segs[i].segment_type == 1 && segs[i].file_size != 0 ==> segs[i].offset
            + segs[i].file_size <= u64::MAX
}

/// Maps a virtual address into the file through the loadable segments.
pub(crate) fn vaddr_to_offset(segments: &[Segment], address: u64) -> (r: Option<u64>)
    requires
        loadable_ranges_fit(segments@),
    ensures
        r == vaddr_offset(segments@, address, 0),
{
    let mut i: usize = 0;
    while i < segments.len()
        invariant
            i <= segments@.len(),
            loadable_ranges_fit(segments@),
            vaddr_offset(segments@, address, i as int) == vaddr_offset(segments@, address, 0),
        decreases segments@.len() - i,
    {
        let segment = &segments[i];
        if segment.segment_type == 1 && address >= segment.virtual_address && address - segment.virtual_address < segment.file_size {
            assert(segments@[i as int].offset + segments@[i as int].file_size <= u64::MAX);
            return Some(segment.offset + (address - segment.virtual_address));
        }
        i = i + 1;
    }
    None
}

/// The string table of a segment-located dynamic table: `DT_STRTAB` mapped
/// through the loadable segments, `DT_STRSZ` bytes long.
pub open spec fn segment_string_table(segs: Seq<Segment>, entries: Seq<(u64, u64)>) -> Option<(u64, u64)> {
    match (address_of(entries, 5, 0), address_of(entries, 10, 0)) {
        (Some(address), Some(size)) => if size > 0 {
            match vaddr_offset(segs, address, 0) {
                Some(offset) => Some((offset, size)),
                None => None,
            }
        } else {
            None
        },
        _ => None,
    }
}

/// Whether locating and reading the dynamic table and its string table succeeds.
///
/// Section headers are authoritative when the file has a `SHT_DYNAMIC`
/// section; otherwise `PT_DYNAMIC` is used, with the string table located
/// through `DT_STRTAB` and `DT_STRSZ`.
pub open spec fn dyn_source_ok(s: Seq<u8>, secs: Seq<Section>, segs: Seq<Segment>, c: ElfClass, e: Endianness) -> bool {
    match find_section(secs, 6, 0) {
        Some(d) => {
            let link = secs[d].link;
            &&& link < secs.len()
            &&& secs[link as int].section_type == 3
            &&& range_in_file(s.len(), secs[link as int].offset, secs[link as int].size)
            &&& dyn_table_ok(s, secs[d].offset, secs[d].size, c)
        },
        None => match find_segment(segs, 2, 0) {
            Some(p) => {
                &&& dyn_table_ok(s, segs[p].offset, segs[p].file_size, c)
                &&& (segment_string_table(segs, dyn_entries(range_bytes(s, segs[p].offset, segs[p].file_size), c, e))
                    matches Some((o, z)) ==> range_in_file(s.len(), o, z))
            },
            None => true,
        },
    }
}

/// The dynamic table entries and the bytes of its string table, when the file has a dynamic table.
pub open spec fn dyn_source(s: Seq<u8>, secs: Seq<Section>, segs: Seq<Segment>, c: ElfClass, e: Endianness) -> Option<(Seq<(u64, u64)>, Option<Seq<u8>>)> {
    match find_section(secs, 6, 0) {
        Some(d) => {
            let strings = secs[secs[d].link as int];
            Some((dyn_entries(range_bytes(s, secs[d].offset, secs[d].size), c, e), Some(range_bytes(s, strings.offset, strings.size))))
        },
        None => match find_segment(segs, 2, 0) {
            Some(p) => {
                let entries = dyn_entries(range_bytes(s, segs[p].offset, segs[p].file_size), c, e);
                Some((entries, match segment_string_table(segs, entries) {
                    Some((o, z)) => Some(range_bytes(s, o, z)),
                    None => None,
                }))
            },
            None => None,
        },
    }
}

/// `err` is the error of a dynamic table that cannot be located or read: with
/// an `SHT_DYNAMIC` section, its string-table link, then the string table's
/// range, then the table itself; otherwise the `PT_DYNAMIC` table, then the
/// range of the string table it names.
pub open spec fn dyn_source_error(s: Seq<u8>, secs: Seq<Section>, segs: Seq<Segment>, c: ElfClass, e: Endianness, err: AppError) -> bool {
    match find_section(secs, 6, 0) {
        Some(d) => {
            let link = secs[d].link;
            if link >= secs.len() {
                is_malformed(err, "dynamic string-table index is outside the section table"@)
            } else if secs[link as int].section_type != 3 {
                is_malformed(err, "dynamic string-table link does not reference a string table"@)
            } else if !range_in_file(s.len(), secs[link as int].offset, secs[link as int].size) {
                err == range_error("dynamic string table", secs[link as int].offset, secs[link as int].size)
            } else {
                dyn_table_error(s, secs[d].offset, secs[d].size, c, "dynamic section", err)
            }
        },
        None => match find_segment(segs, 2, 0) {
            Some(p) => if !dyn_table_ok(s, segs[p].offset, segs[p].file_size, c) {
                dyn_table_error(s, segs[p].offset, segs[p].file_size, c, "dynamic segment", err)
            } else {
                segment_string_table(segs, dyn_entries(range_bytes(s, segs[p].offset, segs[p].file_size), c, e))
                    matches Some((o, z)) && err == range_error("dynamic string table", o, z)
            },
            None => false,
        },
    }
}

/// The view of an optional byte slice.
pub open spec fn opt_view(t: Option<&[u8]>) -> Option<Seq<u8>> {
    match t {
        Some(b) => Some(b@),
        None => None,
    }
}

/// Reads the dynamic table together with its string table.
///
/// Section headers are authoritative when the file has them, but stripping and
/// packing tools routinely remove them while `PT_DYNAMIC` stays, so the segment
/// is used as the fallback to keep dependencies and binding mode available.
pub(crate) fn dynamic_entries<'a>(
    bytes: &'a [u8],
    class: &ElfClass,
    endianness: &Endianness,
    sections: &[Section],
    segments: &[Segment],
) -> (r: Result<Option<(Vec<(u64, u64)>, Option<&'a [u8]>)>, AppError>)
    requires
        loadable_ranges_fit(segments@),
    ensures
        r is Ok <==> dyn_source_ok(bytes@, sections@, segments@, *class, *endianness),
        r matches Ok(found) ==> match (found, dyn_source(bytes@, sections@, segments@, *class, *endianness)) {
            (Some((v, t)), Some((ev, et))) => v@ == ev && opt_view(t) == et,
            (None, None) => true,
            _ => false,
        },
        find_section(sections@, 6, 0) matches Some(d) && sections@[d].link >= sections@.len() ==> (r matches Err(err)
            && is_malformed(err, "dynamic string-table index is outside the section table"@)),
        find_section(sections@, 6, 0) matches Some(d) && sections@[d].link < sections@.len()
            && sections@[sections@[d].link as int].section_type != 3 ==> (r matches Err(err) && is_malformed(
            err,
            "dynamic string-table link does not reference a string table"@,
        )),
        r matches Err(err) ==> dyn_source_error(bytes@, sections@, segments@, *class, *endianness, err),
        r matches Err(err) ==> err is Parse,
{
    proof {
        lemma_find_section(sections@, 6, 0);
        lemma_find_segment(segments@, 2, 0);
    }
    if let Some(d) = first_section_of_type(sections, 6) {
        let dynamic = &sections[d];
        let link = dynamic.link as usize;
        if link >= sections.len() {
            return Err(malformed("dynamic string-table index is outside the section table"));
        }
        let strings = &sections[link];
        if strings.section_type != 3 {
            return Err(malformed("dynamic string-table link does not reference a string table"));
        }
        let table = file_slice(bytes, strings.offset, strings.size, "dynamic string table")?;
        let entries = read_dynamic_entries(bytes, class, endianness, dynamic.offset, dynamic.size, "dynamic section")?;
        return Ok(Some((entries, Some(table))));
    }
    let p = match first_segment_of_type(segments, 2) {
        Some(p) => p,
        None => return Ok(None),
    };
    let segment = &segments[p];
    let entries = read_dynamic_entries(bytes, class, endianness, segment.offset, segment.file_size, "dynamic segment")?;
    let strtab = find_tag(&entries, 5);
    let strsz = find_tag(&entries, 10);
    let mut table: Option<&'a [u8]> = None;
    if let (Some(address), Some(size)) = (strtab, strsz) {
        if size > 0 {
            if let Some(offset) = vaddr_to_offset(segments, address) {
                table = Some(file_slice(bytes, offset, size, "dynamic string table")?);
            }
        }
    }
    Ok(Some((entries, table)))
}

} // verus!

verus! {

/// The symbolic name of a dynamic tag.
pub open spec fn dynamic_tag_label(tag: u64) -> &'static str {
    match tag {
        0 => "DT_NULL",
        1 => "DT_NEEDED",
        2 => "DT_PLTRELSZ",
        3 => "DT_PLTGOT",
        4 => "DT_HASH",
        5 => "DT_STRTAB",
        6 => "DT_SYMTAB",
        7 => "DT_RELA",
        8 => "DT_RELASZ",
        9 => "DT_RELAENT",
        10 => "DT_STRSZ",
        11 => "DT_SYMENT",
        12 => "DT_INIT",
        13 => "DT_FINI",
        14 => "DT_SONAME",
        15 => "DT_RPATH",
        16 => "DT_SYMBOLIC",
        17 => "DT_REL",
        18 => "DT_RELSZ",
        19 => "DT_RELENT",
        20 => "DT_PLTREL",
        21 => "DT_DEBUG",
        22 => "DT_TEXTREL",
        23 => "DT_JMPREL",
        24 => "DT_BIND_NOW",
        25 => "DT_INIT_ARRAY",
        26 => "DT_FINI_ARRAY",
        27 => "DT_INIT_ARRAYSZ",
        28 => "DT_FINI_ARRAYSZ",
        29 => "DT_RUNPATH",
        30 => "DT_FLAGS",
        0x6fff_fffb => "DT_FLAGS_1",
        0x6fff_fef5 => "DT_GNU_HASH",
        0x6fff_fffe => "DT_VERNEED",
        0x6fff_ffff => "DT_VERNEEDNUM",
        0x6fff_fffd => "DT_VERSYM",
        0x6fff_ff00 => "DT_VERSYM",
        _ => "DT_OTHER",
    }
}

/// The symbolic name of a dynamic tag.
pub fn dynamic_tag_name(tag: u64) -> (name: &'static str)
    ensures
        name == dynamic_tag_label(tag),
{
    match tag {
        0 => "DT_NULL",
        1 => "DT_NEEDED",
        2 => "DT_PLTRELSZ",
        3 => "DT_PLTGOT",
        4 => "DT_HASH",
        5 => "DT_STRTAB",
        6 => "DT_SYMTAB",
        7 => "DT_RELA",
        8 => "DT_RELASZ",
        9 => "DT_RELAENT",
        10 => "DT_STRSZ",
        11 => "DT_SYMENT",
        12 => "DT_INIT",
        13 => "DT_FINI",
        14 => "DT_SONAME",
        15 => "DT_RPATH",
        16 => "DT_SYMBOLIC",
        17 => "DT_REL",
        18 => "DT_RELSZ",
        19 => "DT_RELENT",
        20 => "DT_PLTREL",
        21 => "DT_DEBUG",
        22 => "DT_TEXTREL",
        23 => "DT_JMPREL",
        24 => "DT_BIND_NOW",
        25 => "DT_INIT_ARRAY",
        26 => "DT_FINI_ARRAY",
        27 => "DT_INIT_ARRAYSZ",
        28 => "DT_FINI_ARRAYSZ",
        29 => "DT_RUNPATH",
        30 => "DT_FLAGS",
        0x6fff_fffb => "DT_FLAGS_1",
        0x6fff_fef5 => "DT_GNU_HASH",
        0x6fff_fffe => "DT_VERNEED",
        0x6fff_ffff => "DT_VERNEEDNUM",
        0x6fff_fffd => "DT_VERSYM",
        0x6fff_ff00 => "DT_VERSYM",
        _ => "DT_OTHER",
    }
}

/// Tags whose value is an offset into the dynamic string table
/// (`DT_NEEDED`, `DT_SONAME`, `DT_RPATH`, `DT_RUNPATH`).
pub open spec fn is_string_tag(tag: u64) -> bool {
    tag == 1 || tag == 14 || tag == 15 || tag == 29
}

/// The raw bytes of the string an entry refers to, when there is a string table.
pub open spec fn entry_text(table: Option<Seq<u8>>, tag: u64, value: u64) -> Option<Seq<u8>> {
    match table {
        Some(t) => if is_string_tag(tag) && value <= u32::MAX && value <= t.len() {
            c_string_at(t, value as int)
        } else {
            None
        },
        None => None,
    }
}

/// An entry whose string, if it has one, resolves.
pub open spec fn entry_ok(table: Option<Seq<u8>>, tag: u64, value: u64) -> bool {
    match table {
        Some(t) => is_string_tag(tag) ==> (value <= u32::MAX && value <= t.len() && c_string_at(t, value as int) is Some),
        None => true,
    }
}

/// Decoded text charged by the strings of the entries before `k`.
pub open spec fn dyn_text_used(entries: Seq<(u64, u64)>, table: Option<Seq<u8>>, k: int) -> nat
    decreases k,
{
    if k <= 0 {
        0
    } else {
        dyn_text_used(entries, table, k - 1) + match entry_text(table, entries[k - 1].0, entries[k - 1].1) {
            Some(b) => escaped(b).len(),
            None => 0,
        }
    }
}

/// `err` is the error of an entry whose string does not resolve or does not
/// fit the text budget: an offset beyond `u32`, an offset past the table, a
/// string without terminator, or the exhausted budget.
pub open spec fn entry_failure(table: Option<Seq<u8>>, value: u64, err: AppError) -> bool {
    match table {
        Some(t) => if value > u32::MAX {
            is_malformed(err, "dynamic string offset is too large"@)
        } else if value > t.len() {
            err == AppError::Parse(ParseError::OutOfBounds { what: "section name in string table", offset: value, size: 1 })
        } else if c_string_at(t, value as int) is None {
            err == AppError::Parse(ParseError::InvalidStringTable("section name"))
        } else {
            err == super::strings::text_limit_error()
        },
        None => false,
    }
}

/// Entry `k` cannot be decoded: its string does not resolve, or it brings the
/// text charged by entries `0..=k` over the budget.
pub open spec fn dyn_entry_fails(entries: Seq<(u64, u64)>, table: Option<Seq<u8>>, k: int) -> bool {
    !entry_ok(table, entries[k].0, entries[k].1) || dyn_text_used(entries, table, k + 1) > MAX_TOTAL_TEXT_BYTES
}

/// `err` is the error of a dynamic table whose entries do not decode: that of
/// the first entry that fails.
pub open spec fn dyn_decode_error(entries: Seq<(u64, u64)>, table: Option<Seq<u8>>, err: AppError) -> bool {
    exists|k: int|
        0 <= k < entries.len() && (forall|j: int| 0 <= j < k ==> !#[trigger] dyn_entry_fails(entries, table, j))
            && #[trigger] dyn_entry_fails(entries, table, k) && entry_failure(table, entries[k].1, err)
}

/// Entries that request immediate binding: `DT_BIND_NOW`, `DF_BIND_NOW` in
/// `DT_FLAGS`, or `DF_1_NOW` in `DT_FLAGS_1`.
pub open spec fn binds_now(tag: u64, value: u64) -> bool {
    tag == 24 || (tag == 30 && value & DF_BIND_NOW != 0) || (tag == 0x6fff_fffb && value & DF_1_NOW != 0)
}

/// A dynamic table whose strings all resolve within the text budget.
pub open spec fn dyn_decode_ok(entries: Seq<(u64, u64)>, table: Option<Seq<u8>>) -> bool {
    &&& forall|k: int| 0 <= k < entries.len() ==> #[trigger] entry_ok(table, entries[k].0, entries[k].1)
    &&& dyn_text_used(entries, table, entries.len() as int) <= MAX_TOTAL_TEXT_BYTES
}

/// The view of an optional string.
pub open spec fn opt_string_view(o: Option<String>) -> Option<Seq<char>> {
    match o {
        Some(s) => Some(s@),
        None => None,
    }
}

/// The views of a sequence of strings.
pub open spec fn strings_view(v: Seq<String>) -> Seq<Seq<char>> {
    v.map_values(|s: String| s@)
}

/// Entry `d` is the decoding of `(tag, value)`.
pub open spec fn entry_decoded(table: Option<Seq<u8>>, tag: u64, value: u64, d: DynamicEntry) -> bool {
    &&& d.tag == tag
    &&& d.value == value
    &&& d.tag_name@ == dynamic_tag_label(tag)@
    &&& match entry_text(table, tag, value) {
        Some(b) => opt_string_view(d.string_value) == Some(escaped(b)),
        None => d.string_value is None,
    }
}

/// The strings of the `DT_NEEDED` entries, in table order.
pub open spec fn needed_views(ds: Seq<DynamicEntry>) -> Seq<Seq<char>>
    decreases ds.len(),
{
    if ds.len() == 0 {
        Seq::empty()
    } else {
        let prev = needed_views(ds.drop_last());
        let d = ds.last();
        if d.tag == 1 && d.string_value is Some {
            prev.push(d.string_value->0@)
        } else {
            prev
        }
    }
}

/// The string of the last entry with tag `tag` that has one.
pub open spec fn last_string(ds: Seq<DynamicEntry>, tag: u64) -> Option<Seq<char>>
    decreases ds.len(),
{
    if ds.len() == 0 {
        None
    } else {
        let d = ds.last();
        if d.tag == tag && d.string_value is Some {
            Some(d.string_value->0@)
        } else {
            last_string(ds.drop_last(), tag)
        }
    }
}

/// The loader metadata decoded from a dynamic table.
pub open spec fn dyn_decoded(entries: Seq<(u64, u64)>, table: Option<Seq<u8>>, info: DynamicInfo) -> bool {
    &&& info.entries@.len() == entries.len()
    &&& forall|k: int| 0 <= k < entries.len() ==> #[trigger] entry_decoded(table, entries[k].0, entries[k].1, info.entries@[k])
    &&& strings_view(info.needed@) == needed_views(info.entries@)
    &&& opt_string_view(info.rpath) == last_string(info.entries@, 15)
    &&& opt_string_view(info.runpath) == last_string(info.entries@, 29)
    &&& info.bind_now == exists|k: int| 0 <= k < entries.len() && #[trigger] binds_now(entries[k].0, entries[k].1)
}

proof fn lemma_dyn_text_monotone(entries: Seq<(u64, u64)>, table: Option<Seq<u8>>, i: int, j: int)
    requires
        0 <= i <= j,
    ensures
        dyn_text_used(entries, table, i) <= dyn_text_used(entries, table, j),
    decreases j - i,
{
    if i < j {
        lemma_dyn_text_monotone(entries, table, i, j - 1);
    }
}

/// Resolves the string of one entry, when its tag names a string and a string table exists.
fn entry_string(table: Option<&[u8]>, tag: u64, value: u64, text_bytes: &mut usize) -> (r: Result<Option<String>, AppError>)
    requires
        *old(text_bytes) <= MAX_TOTAL_TEXT_BYTES,
    ensures
        r is Ok <==> entry_ok(opt_view(table), tag, value) && *old(text_bytes) + (match entry_text(opt_view(table), tag, value) {
            Some(b) => escaped(b).len(),
            None => 0,
        }) <= MAX_TOTAL_TEXT_BYTES,
        r is Ok ==> *final(text_bytes) == *old(text_bytes) + match entry_text(opt_view(table), tag, value) {
            Some(b) => escaped(b).len(),
            None => 0,
        },
        r matches Ok(o) ==> opt_string_view(o) == match entry_text(opt_view(table), tag, value) {
            Some(b) => Some(escaped(b)),
            None => None,
        },
        r is Ok ==> *final(text_bytes) <= MAX_TOTAL_TEXT_BYTES,
        r matches Err(err) ==> entry_failure(opt_view(table), value, err),
        r matches Err(err) ==> err is Parse,
{
    if !(tag == 1 || tag == 14 || tag == 15 || tag == 29) {
        return Ok(None);
    }
    match table {
        Some(t) => {
            if value > u32::MAX as u64 {
                return Err(malformed("dynamic string offset is too large"));
            }
            let text = string_at(t, value as u32)?;
            proof {
                super::strings::lemma_c_string_bound(t@, value as int);
                crate::text::lemma_escaped_len(c_string_at(t@, value as int)->0);
            }
            let taken = take_text(text, text_bytes)?;
            Ok(Some(taken))
        },
        None => Ok(None),
    }
}

/// Decodes the entries of a dynamic table into loader metadata.
pub fn decode_dynamic(entries: &Vec<(u64, u64)>, table: Option<&[u8]>, interpreter: Option<String>) -> (r: Result<DynamicInfo, AppError>)
    ensures
        r is Ok <==> dyn_decode_ok(entries@, opt_view(table)),
        r matches Ok(info) ==> dyn_decoded(entries@, opt_view(table), info) && info.interpreter == interpreter,
        r matches Err(err) ==> dyn_decode_error(entries@, opt_view(table), err),
        r matches Err(err) ==> err is Parse,
{
    let ghost t = opt_view(table);
    let mut text_bytes: usize = 0;
    let mut decoded: Vec<DynamicEntry> = Vec::new();
    let mut needed: Vec<String> = Vec::new();
    let mut rpath: Option<String> = None;
    let mut runpath: Option<String> = None;
    let mut bind_now = false;
    let mut k: usize = 0;
    while k < entries.len()
        invariant
            k <= entries@.len(),
            t == opt_view(table),
            text_bytes == dyn_text_used(entries@, t, k as int),
            text_bytes <= MAX_TOTAL_TEXT_BYTES,
            decoded@.len() == k,
            forall|j: int| 0 <= j < k ==> #[trigger] entry_decoded(t, entries@[j].0, entries@[j].1, decoded@[j]),
            forall|j: int| 0 <= j < k ==> #[trigger] entry_ok(t, entries@[j].0, entries@[j].1),
            forall|j: int| 0 <= j < k ==> !#[trigger] dyn_entry_fails(entries@, t, j),
            strings_view(needed@) == needed_views(decoded@),
            opt_string_view(rpath) == last_string(decoded@, 15),
            opt_string_view(runpath) == last_string(decoded@, 29),
            bind_now == exists|j: int| 0 <= j < k && #[trigger] binds_now(entries@[j].0, entries@[j].1),
        decreases entries@.len() - k,
    {
        let (tag, value) = entries[k];
        let string_value = match entry_string(table, tag, value, &mut text_bytes) {
            Ok(o) => o,
            Err(e) => {
                proof {
                    if entry_ok(t, tag, value) {
                        lemma_dyn_text_monotone(entries@, t, k + 1, entries@.len() as int);
                    }
                    assert(dyn_entry_fails(entries@, t, k as int));
                }
                return Err(e);
            },
        };
        if tag == 1 {
            if let Some(s) = &string_value {
                needed.push(s.clone());
            }
        } else if tag == 15 {
            if let Some(s) = &string_value {
                rpath = Some(s.clone());
            }
        } else if tag == 29 {
            if let Some(s) = &string_value {
                runpath = Some(s.clone());
            }
        } else if tag == 24 {
            bind_now = true;
        } else if tag == 30 && value & DF_BIND_NOW != 0 {
            bind_now = true;
        } else if tag == 0x6fff_fffb && value & DF_1_NOW != 0 {
            bind_now = true;
        }
        let ghost old_decoded = decoded@;
        let ghost old_needed = needed@;
        decoded.push(DynamicEntry { tag, tag_name: String::from_str(dynamic_tag_name(tag)), value, string_value });
        proof {
            assert(decoded@.drop_last() =~= old_decoded);
            assert(strings_view(needed@) =~= needed_views(decoded@));
            assert(binds_now(entries@[k as int].0, entries@[k as int].1) == binds_now(tag, value));
        }
        k = k + 1;
    }
    Ok(DynamicInfo { interpreter, needed, rpath, runpath, bind_now, entries: decoded })
}

} // verus!

verus! {

/// The interpreter path a `PT_INTERP` segment holds, rendered terminal-safe.
pub open spec fn interpreter_view(s: Seq<u8>, segs: Seq<Segment>) -> Option<Seq<char>> {
    match find_segment(segs, 3, 0) {
        Some(p) => Some(escaped(c_string_at(range_bytes(s, segs[p].offset, segs[p].file_size), 0)->0)),
        None => None,
    }
}

/// A `PT_INTERP` segment, if present, that lies in the file and holds a terminated string.
pub open spec fn interpreter_ok(s: Seq<u8>, segs: Seq<Segment>) -> bool {
    match find_segment(segs, 3, 0) {
        Some(p) => range_in_file(s.len(), segs[p].offset, segs[p].file_size) && c_string_at(
            range_bytes(s, segs[p].offset, segs[p].file_size),
            0,
        ) is Some,
        None => true,
    }
}

/// Whether the loader metadata decodes without error.
pub open spec fn dynamic_info_ok(s: Seq<u8>, secs: Seq<Section>, segs: Seq<Segment>, c: ElfClass, e: Endianness) -> bool {
    &&& interpreter_ok(s, segs)
    &&& dyn_source_ok(s, secs, segs, c, e)
    &&& (dyn_source(s, secs, segs, c, e) matches Some((entries, table)) ==> dyn_decode_ok(entries, table))
}

/// `err` is the error of loader metadata that does not decode: the
/// interpreter's range, then its terminator, then locating and reading the
/// dynamic table, then its entries.
pub open spec fn dynamic_info_error(s: Seq<u8>, secs: Seq<Section>, segs: Seq<Segment>, c: ElfClass, e: Endianness, err: AppError) -> bool {
    if !interpreter_ok(s, segs) {
        let p = find_segment(segs, 3, 0)->0;
        if !range_in_file(s.len(), segs[p].offset, segs[p].file_size) {
            err == range_error("interpreter", segs[p].offset, segs[p].file_size)
        } else {
            err == AppError::Parse(ParseError::InvalidStringTable("interpreter"))
        }
    } else if !dyn_source_ok(s, secs, segs, c, e) {
        dyn_source_error(s, secs, segs, c, e, err)
    } else {
        dyn_source(s, secs, segs, c, e) matches Some((entries, table)) && dyn_decode_error(entries, table, err)
    }
}

/// The loader metadata of a file.
pub open spec fn dynamic_info_decoded(s: Seq<u8>, secs: Seq<Section>, segs: Seq<Segment>, c: ElfClass, e: Endianness, info: DynamicInfo) -> bool {
    &&& opt_string_view(info.interpreter) == interpreter_view(s, segs)
    &&& match dyn_source(s, secs, segs, c, e) {
        Some((entries, table)) => dyn_decoded(entries, table, info),
        None => info.entries@.len() == 0 && info.needed@.len() == 0 && info.rpath is None
            && info.runpath is None && !info.bind_now,
    }
}

/// Decodes the interpreter and the dynamic table.
pub(crate) fn dynamic_info(
    bytes: &[u8],
    class: &ElfClass,
    endianness: &Endianness,
    sections: &[Section],
    segments: &[Segment],
) -> (r: Result<DynamicInfo, AppError>)
    requires
        loadable_ranges_fit(segments@),
    ensures
        r is Ok <==> dynamic_info_ok(bytes@, sections@, segments@, *class, *endianness),
        r matches Ok(info) ==> dynamic_info_decoded(bytes@, sections@, segments@, *class, *endianness, info),
        r matches Err(err) ==> dynamic_info_error(bytes@, sections@, segments@, *class, *endianness, err),
        r matches Err(err) ==> err is Parse,
{
    proof {
        lemma_find_segment(segments@, 3, 0);
    }
    let mut interpreter: Option<String> = None;
    if let Some(p) = first_segment_of_type(segments, 3) {
        let segment = &segments[p];
        let value = file_slice(bytes, segment.offset, segment.file_size, "interpreter")?;
        interpreter = Some(c_string(value, "interpreter")?);
    }
    match dynamic_entries(bytes, class, endianness, sections, segments)? {
        Some((entries, table)) => decode_dynamic(&entries, table, interpreter),
        None => {
            let mut info = DynamicInfo::default();
            info.interpreter = interpreter;
            Ok(info)
        },
    }
}

} // verus!

verus! {

/// The loader strings of a dynamic table (its needed libraries and its last
/// RPATH or RUNPATH) are printable when the entries' string values are: each
/// of them is one of those values.
pub proof fn loader_strings_printable(ds: Seq<DynamicEntry>)
    requires
        forall|k: int, i: int|
            0 <= k < ds.len() && ds[k].string_value is Some && 0 <= i < ds[k].string_value->0@.len()
                ==> crate::text::is_printable_ascii(#[trigger] ds[k].string_value->0@[i]),
    ensures
        forall|n: int, i: int|
            0 <= n < needed_views(ds).len() && 0 <= i < needed_views(ds)[n].len() ==> crate::text::is_printable_ascii(
                #[trigger] needed_views(ds)[n][i],
            ),
        forall|t: u64, i: int|
            last_string(ds, t) is Some && 0 <= i < last_string(ds, t)->0.len() ==> crate::text::is_printable_ascii(
                #[trigger] last_string(ds, t)->0[i],
            ),
    decreases ds.len(),
{
    if ds.len() > 0 {
        let prev = ds.drop_last();
        assert forall|k: int, i: int|
            0 <= k < prev.len() && prev[k].string_value is Some && 0 <= i < prev[k].string_value->0@.len()
                implies crate::text::is_printable_ascii(#[trigger] prev[k].string_value->0@[i]) by {
            assert(prev[k] == ds[k]);
        }
        loader_strings_printable(prev);
        let d = ds.last();
        assert(d == ds[ds.len() - 1]);
        assert forall|n: int, i: int|
            0 <= n < needed_views(ds).len() && 0 <= i < needed_views(ds)[n].len() implies crate::text::is_printable_ascii(
            #[trigger] needed_views(ds)[n][i],
        ) by {
            if n < needed_views(prev).len() {
                assert(needed_views(ds)[n] == needed_views(prev)[n]);
            }
        }
        assert forall|t: u64, i: int|
            last_string(ds, t) is Some && 0 <= i < last_string(ds, t)->0.len() implies crate::text::is_printable_ascii(
            #[trigger] last_string(ds, t)->0[i],
        ) by {
            if !(d.tag == t && d.string_value is Some) {
                assert(last_string(ds, t) == last_string(prev, t));
            }
        }
    }
}

} // verus!

verus! {

/// Section headers are authoritative for the dynamic table: when the file
/// names an `SHT_DYNAMIC` section, the program headers play no part in
/// locating the table, reading it, or deciding whether it decodes.
pub proof fn dynamic_table_prefers_sections(s: Seq<u8>, secs: Seq<Section>, segs: Seq<Segment>, c: ElfClass, e: Endianness)
    requires
        exists|i: int| 0 <= i < secs.len() && #[trigger] secs[i].section_type == 6,
    ensures
        find_section(secs, 6, 0) is Some,
        dyn_source(s, secs, segs, c, e) == dyn_source(s, secs, Seq::empty(), c, e),
        dyn_source_ok(s, secs, segs, c, e) == dyn_source_ok(s, secs, Seq::empty(), c, e),
{
    let i = choose|i: int| 0 <= i < secs.len() && #[trigger] secs[i].section_type == 6;
    lemma_find_section(secs, 6, 0);
    assert(find_section(secs, 6, 0) is Some);
}

/// A file with neither an `SHT_DYNAMIC` section nor a `PT_DYNAMIC` segment has
/// no dynamic table, and that is no error.
pub proof fn no_dynamic_table(s: Seq<u8>, secs: Seq<Section>, segs: Seq<Segment>, c: ElfClass, e: Endianness)
    requires
        forall|i: int| 0 <= i < secs.len() ==> #[trigger] secs[i].section_type != 6,
        forall|i: int| 0 <= i < segs.len() ==> #[trigger] segs[i].segment_type != 2,
    ensures
        dyn_source(s, secs, segs, c, e) is None,
        dyn_source_ok(s, secs, segs, c, e),
{
    lemma_find_section(secs, 6, 0);
    lemma_find_segment(segs, 2, 0);
}

/// The loader metadata agrees with the dynamic table it was decoded from:
/// one entry per table entry with its tag, value and tag name; immediate
/// binding exactly when an entry requests it; the needed libraries, RPATH and
/// RUNPATH taken from the entries' strings; and the interpreter from the
/// first `PT_INTERP` segment.
pub proof fn dynamic_info_follows_entries(
    s: Seq<u8>,
    secs: Seq<Section>,
    segs: Seq<Segment>,
    c: ElfClass,
    e: Endianness,
    info: DynamicInfo,
)
    requires
        dynamic_info_decoded(s, secs, segs, c, e, info),
        dyn_source(s, secs, segs, c, e) is Some,
    ensures
        ({
            let (entries, table) = dyn_source(s, secs, segs, c, e)->0;
            &&& info.entries@.len() == entries.len()
            &&& forall|k: int|
                0 <= k < entries.len() ==> (#[trigger] info.entries@[k]).tag == entries[k].0 && info.entries@[k].value
                    == entries[k].1 && info.entries@[k].tag_name@ == dynamic_tag_label(entries[k].0)@
            &&& info.bind_now == exists|k: int| 0 <= k < entries.len() && #[trigger] binds_now(entries[k].0, entries[k].1)
            &&& strings_view(info.needed@) == needed_views(info.entries@)
            &&& opt_string_view(info.rpath) == last_string(info.entries@, 15)
            &&& opt_string_view(info.runpath) == last_string(info.entries@, 29)
            &&& opt_string_view(info.interpreter) == interpreter_view(s, segs)
        }),
{
    let (entries, table) = dyn_source(s, secs, segs, c, e)->0;
    assert forall|k: int| 0 <= k < entries.len() implies (#[trigger] info.entries@[k]).tag == entries[k].0
        && info.entries@[k].value == entries[k].1 && info.entries@[k].tag_name@ == dynamic_tag_label(entries[k].0)@ by {
        assert(entry_decoded(table, entries[k].0, entries[k].1, info.entries@[k]));
    }
}

} // verus!

verus! {

/// Immediate binding follows the dynamic-table encoding: it is requested by a
/// `DT_BIND_NOW` (24) entry, by a `DT_FLAGS` (30) entry with `DF_BIND_NOW`
/// (`0x8`) set, or by a `DT_FLAGS_1` (`0x6ffffffb`) entry with `DF_1_NOW`
/// (`0x1`) set, and by nothing else.
pub proof fn bind_now_follows_flags(entries: Seq<(u64, u64)>, table: Option<Seq<u8>>, info: DynamicInfo)
    requires
        dyn_decoded(entries, table, info),
    ensures
        info.bind_now <==> exists|k: int|
            0 <= k < entries.len() && (#[trigger] entries[k].0 == 24 || (entries[k].0 == 30 && entries[k].1 & 0x8 != 0) || (
            entries[k].0 == 0x6fff_fffb && entries[k].1 & 0x1 != 0)),
{
    if info.bind_now {
        let k = choose|k: int| 0 <= k < entries.len() && #[trigger] binds_now(entries[k].0, entries[k].1);
        assert(entries[k].0 == 24 || (entries[k].0 == 30 && entries[k].1 & 0x8 != 0) || (entries[k].0 == 0x6fff_fffb
            && entries[k].1 & 0x1 != 0));
    }
    if exists|k: int|
        0 <= k < entries.len() && (#[trigger] entries[k].0 == 24 || (entries[k].0 == 30 && entries[k].1 & 0x8 != 0) || (
        entries[k].0 == 0x6fff_fffb && entries[k].1 & 0x1 != 0)) {
        let k = choose|k: int|
            0 <= k < entries.len() && (#[trigger] entries[k].0 == 24 || (entries[k].0 == 30 && entries[k].1 & 0x8 != 0) || (
            entries[k].0 == 0x6fff_fffb && entries[k].1 & 0x1 != 0));
        assert(binds_now(entries[k].0, entries[k].1));
    }
}

} // verus!

verus! {

/// A decoded dynamic entry keeps its tag and value and is labelled by the
/// ELF ABI name of its tag (`DT_NEEDED` for 1, `DT_RPATH` for 15,
/// `DT_BIND_NOW` for 24, `DT_FLAGS_1` for `0x6ffffffb`, and so on), or
/// `DT_OTHER` for a tag outside that list; its string is resolved only for
/// `DT_NEEDED` (1), `DT_SONAME` (14), `DT_RPATH` (15) and `DT_RUNPATH` (29).
pub proof fn dynamic_entry_names_follow_abi(table: Option<Seq<u8>>, tag: u64, value: u64, d: DynamicEntry)
    requires
        entry_decoded(table, tag, value, d),
    ensures
        d.tag == tag,
        d.value == value,
        d.tag == 0 ==> d.tag_name@ == "DT_NULL"@,
        d.tag == 1 ==> d.tag_name@ == "DT_NEEDED"@,
        d.tag == 2 ==> d.tag_name@ == "DT_PLTRELSZ"@,
        d.tag == 3 ==> d.tag_name@ == "DT_PLTGOT"@,
        d.tag == 4 ==> d.tag_name@ == "DT_HASH"@,
        d.tag == 5 ==> d.tag_name@ == "DT_STRTAB"@,
        d.tag == 6 ==> d.tag_name@ == "DT_SYMTAB"@,
        d.tag == 7 ==> d.tag_name@ == "DT_RELA"@,
        d.tag == 8 ==> d.tag_name@ == "DT_RELASZ"@,
        d.tag == 9 ==> d.tag_name@ == "DT_RELAENT"@,
        d.tag == 10 ==> d.tag_name@ == "DT_STRSZ"@,
        d.tag == 11 ==> d.tag_name@ == "DT_SYMENT"@,
        d.tag == 12 ==> d.tag_name@ == "DT_INIT"@,
        d.tag == 13 ==> d.tag_name@ == "DT_FINI"@,
        d.tag == 14 ==> d.tag_name@ == "DT_SONAME"@,
        d.tag == 15 ==> d.tag_name@ == "DT_RPATH"@,
        d.tag == 16 ==> d.tag_name@ == "DT_SYMBOLIC"@,
        d.tag == 17 ==> d.tag_name@ == "DT_REL"@,
        d.tag == 18 ==> d.tag_name@ == "DT_RELSZ"@,
        d.tag == 19 ==> d.tag_name@ == "DT_RELENT"@,
        d.tag == 20 ==> d.tag_name@ == "DT_PLTREL"@,
        d.tag == 21 ==> d.tag_name@ == "DT_DEBUG"@,
        d.tag == 22 ==> d.tag_name@ == "DT_TEXTREL"@,
        d.tag == 23 ==> d.tag_name@ == "DT_JMPREL"@,
        d.tag == 24 ==> d.tag_name@ == "DT_BIND_NOW"@,
        d.tag == 25 ==> d.tag_name@ == "DT_INIT_ARRAY"@,
        d.tag == 26 ==> d.tag_name@ == "DT_FINI_ARRAY"@,
        d.tag == 27 ==> d.tag_name@ == "DT_INIT_ARRAYSZ"@,
        d.tag == 28 ==> d.tag_name@ == "DT_FINI_ARRAYSZ"@,
        d.tag == 29 ==> d.tag_name@ == "DT_RUNPATH"@,
        d.tag == 30 ==> d.tag_name@ == "DT_FLAGS"@,
        d.tag == 0x6fff_fffb ==> d.tag_name@ == "DT_FLAGS_1"@,
        d.tag == 0x6fff_fef5 ==> d.tag_name@ == "DT_GNU_HASH"@,
        d.tag == 0x6fff_fffe ==> d.tag_name@ == "DT_VERNEED"@,
        d.tag == 0x6fff_ffff ==> d.tag_name@ == "DT_VERNEEDNUM"@,
        d.tag == 0x6fff_fffd ==> d.tag_name@ == "DT_VERSYM"@,
        d.tag == 0x6fff_ff00 ==> d.tag_name@ == "DT_VERSYM"@,
        d.tag != 0 && d.tag != 1 && d.tag != 2 && d.tag != 3 && d.tag != 4 && d.tag != 5 && d.tag != 6 && d.tag != 7 && d.tag != 8 && d.tag != 9 && d.tag != 10 && d.tag != 11 && d.tag != 12 && d.tag != 13 && d.tag != 14 && d.tag != 15 && d.tag != 16 && d.tag != 17 && d.tag != 18 && d.tag != 19 && d.tag != 20 && d.tag != 21 && d.tag != 22 && d.tag != 23 && d.tag != 24 && d.tag != 25 && d.tag != 26 && d.tag != 27 && d.tag != 28 && d.tag != 29 && d.tag != 30 && d.tag != 0x6fff_fffb && d.tag != 0x6fff_fef5 && d.tag != 0x6fff_fffe && d.tag != 0x6fff_ffff && d.tag != 0x6fff_fffd && d.tag != 0x6fff_ff00 ==> d.tag_name@ == "DT_OTHER"@,
        tag != 1 && tag != 14 && tag != 15 && tag != 29 ==> d.string_value is None,
        table is None ==> d.string_value is None,
{
}

} // verus!

verus! {

proof fn lemma_needed_views(ds: Seq<DynamicEntry>)
    ensures
        needed_views(ds) == ds.filter(|d: DynamicEntry| d.tag == 1 && d.string_value is Some).map_values(
            |d: DynamicEntry| d.string_value->0@,
        ),
    decreases ds.len(),
{
    reveal(Seq::filter);
    if ds.len() > 0 {
        lemma_needed_views(ds.drop_last());
        let f = ds.drop_last().filter(|d: DynamicEntry| d.tag == 1 && d.string_value is Some);
        assert(f.push(ds.last()).map_values(|d: DynamicEntry| d.string_value->0@) =~= f.map_values(
            |d: DynamicEntry| d.string_value->0@,
        ).push(ds.last().string_value->0@));
    }
}

/// The needed libraries are the strings of the `DT_NEEDED` (1) entries that
/// resolve, in table order, and nothing else.
pub proof fn needed_follows_dt_needed(entries: Seq<(u64, u64)>, table: Option<Seq<u8>>, info: DynamicInfo)
    requires
        dyn_decoded(entries, table, info),
    ensures
        strings_view(info.needed@) == info.entries@.filter(|d: DynamicEntry| d.tag == 1 && d.string_value is Some).map_values(
            |d: DynamicEntry| d.string_value->0@,
        ),
{
    lemma_needed_views(info.entries@);
}

} // verus!

verus! {

/// A dynamic table is read as the ELF ABI lays it out: entries of 16 bytes in
/// ELF64 (`d_tag` at 0, `d_val` at 8) and 8 bytes in ELF32 (`d_tag` 0,
/// `d_val` 4), in the file's byte order, up to but excluding the first
/// `DT_NULL` (0) entry, or to the end of the table when it has none.
pub proof fn dynamic_entries_follow_abi(data: Seq<u8>, c: ElfClass, e: Endianness)
    ensures
        ({
            let entries = dyn_entries(data, c, e);
            let w: int = if c is Elf32 { 8 } else { 16 };
            let n: int = entries.len() as int;
            &&& n <= (data.len() as int) / w
            &&& forall|k: int|
                0 <= k < entries.len() ==> (#[trigger] entries[k]).0 != 0 && (c is Elf64 ==> entries[k] == (
                    u64_at(data, 16 * k, e) as u64,
                    u64_at(data, 16 * k + 8, e) as u64,
                )) && (c is Elf32 ==> entries[k] == (u32_at(data, 8 * k, e) as u64, u32_at(data, 8 * k + 4, e) as u64))
            &&& n < (data.len() as int) / w ==> (if c is Elf32 {
                u32_at(data, 8 * n, e)
            } else {
                u64_at(data, 16 * n, e)
            }) == 0
        }),
{
    let count = (data.len() as int) / dyn_width(c);
    lemma_dyn_end_bounds(data, c, e, 0, count);
    lemma_dyn_end_stop(data, c, e, 0, count);
}

proof fn lemma_dyn_end_stop(data: Seq<u8>, c: ElfClass, e: Endianness, k: int, count: int)
    requires
        0 <= k <= count,
    ensures
        dyn_end(data, c, e, k, count) < count ==> dyn_tag(data, dyn_end(data, c, e, k, count), c, e) == 0,
    decreases count - k,
{
    if k < count && dyn_tag(data, k, c, e) != 0 {
        lemma_dyn_end_stop(data, c, e, k + 1, count);
    }
}

} // verus!
