//! Bounded decoding of ELF headers, sections, program segments, symbols, notes,
//! relocations, and security mitigations.

pub mod dynamic;
pub mod header;
pub mod mitigations;
pub mod names;
pub mod notes;
pub mod read;
pub mod relocations;
pub mod strings;
pub mod symbols;
pub mod tables;

use vstd::prelude::*;
use crate::error::{AppError, ParseError};
use crate::fmt::hex_bytes;
use crate::hash::{sha256_digest, sha256_hex};
use crate::model::{Binary, ElfClass, ElfHeader, Endianness, FileFormat, FileHashes, FileMetadata, Section, Segment};
use self::dynamic::{
    dyn_source, dynamic_info, dynamic_info_decoded, dynamic_info_error, dynamic_info_ok, entry_decoded, entry_text, find_segment, interpreter_view,
    last_string, loader_strings_printable, needed_views, opt_string_view, range_bytes, loadable_ranges_fit, strings_view,
};
use self::header::{
    elf_type, elf_type_of, has_elf_magic, header_error, header_valid, layout_of, machine, machine_of, os_abi, os_abi_of,
    Layout, ELF_IDENT_SIZE,
};
use self::mitigations::{analyze_mitigations, mitigations_of};
use self::notes::{
    all_notes, decoded_note_texts_printable, note_decoded, note_ranges, notes_decoded, parse_notes, strip_nul, MAX_NOTE_ENTRIES,
};
use crate::fmt::hex_bytes_printable;
use crate::report::{
    file_texts_printable, note_texts_printable, relocation_texts_printable, report_is_terminal_safe, report_text, ReportOptions,
};
use self::read::{read_u16, u16_at};
use self::relocations::{decoded_relocation_names_printable, parse_relocations, relocs_decoded_upto, MAX_RELOC_ENTRIES};
use self::symbols::{decoded_symbol_names_printable, parse_symbols, symbols_decoded, symbols_error, symbols_ok};
use self::strings::c_string_at;
use self::tables::{
    parse_sections, parse_segments, scanned_sections_fit_budget, scanned_size, section_decoded, section_name_bytes,
    sections_decoded, sections_error, sections_valid, segment_contents_ok, segment_entry, segments_decoded, segments_error,
    segments_valid,
    MAX_TOTAL_SECTION_SCAN_BYTES,
};
use crate::text::{escaped_is_printable, is_printable_ascii, printable_text, terminal_text};

verus! {

/// The class named by `EI_CLASS`.
pub open spec fn class_of(b: u8) -> Option<ElfClass> {
    if b == 1 {
        Some(ElfClass::Elf32)
    } else if b == 2 {
        Some(ElfClass::Elf64)
    } else {
        None
    }
}

/// The byte order named by `EI_DATA`.
pub open spec fn endianness_of(b: u8) -> Option<Endianness> {
    if b == 1 {
        Some(Endianness::Little)
    } else if b == 2 {
        Some(Endianness::Big)
    } else {
        None
    }
}

/// An ELF identifier this inspector supports: long enough, with the magic,
/// version 1, and a known class and byte order.
pub open spec fn ident_ok(s: Seq<u8>) -> bool {
    s.len() >= 16 && has_elf_magic(s) && s[6] == 1 && class_of(s[4]) is Some && endianness_of(s[5]) is Some
}

/// The error for an unsupported identifier: the first check that fails.
pub open spec fn ident_error(s: Seq<u8>) -> AppError {
    if s.len() < 16 {
        AppError::Parse(ParseError::FileTooShort { actual: s.len() as usize, expected: 16 })
    } else if !has_elf_magic(s) {
        AppError::Parse(ParseError::InvalidMagic)
    } else if s[6] != 1 {
        AppError::Parse(ParseError::UnsupportedVersion(s[6]))
    } else if class_of(s[4]) is None {
        AppError::Parse(ParseError::UnsupportedClass(s[4]))
    } else {
        AppError::Parse(ParseError::UnsupportedEndianness(s[5]))
    }
}

/// The header a well-formed file decodes to.
pub open spec fn header_of(s: Seq<u8>, c: ElfClass, e: Endianness) -> ElfHeader {
    let l = layout_of(s, c, e);
    ElfHeader {
        class: c,
        endianness: e,
        elf_type: elf_type_of(u16_at(s, 16, e) as u16),
        machine: machine_of(u16_at(s, 18, e) as u16),
        os_abi: os_abi_of(s[7]),
        abi_version: s[8],
        entry_point: l.entry_point,
        flags: l.flags,
        section_offset: l.section_offset,
        section_entry_size: l.section_entry_size,
        section_count: l.section_count,
        program_offset: l.program_offset,
        program_entry_size: l.program_entry_size,
        program_count: l.program_count,
    }
}

/// Whether the tables that depend on the decoded sections and segments decode without error.
pub open spec fn tables_ok(s: Seq<u8>, c: ElfClass, e: Endianness, secs: Seq<Section>, segs: Seq<Segment>) -> bool {
    dynamic_info_ok(s, secs, segs, c, e) && symbols_ok(s, secs, segs, c, e)
}

/// The file structure that `parse` requires before it decodes dynamic data and symbols.
pub open spec fn structure_ok(s: Seq<u8>) -> bool {
    &&& ident_ok(s)
    &&& header_valid(s, class_of(s[4])->0, endianness_of(s[5])->0)
    &&& sections_valid(s, layout_of(s, class_of(s[4])->0, endianness_of(s[5])->0), class_of(s[4])->0)
    &&& segments_valid(s, layout_of(s, class_of(s[4])->0, endianness_of(s[5])->0), class_of(s[4])->0)
}

/// Decoded sections and segments of `s` for which the dependent tables fail to decode.
pub open spec fn tables_fail(s: Seq<u8>, secs: Seq<Section>, segs: Seq<Segment>) -> bool {
    let c = class_of(s[4])->0;
    let e = endianness_of(s[5])->0;
    let l = layout_of(s, c, e);
    &&& sections_decoded(s, l, c, secs)
    &&& segments_decoded(s, l, c, segs)
    &&& !tables_ok(s, c, e, secs, segs)
}

/// `err` is the error of dependent tables that do not decode: that of the
/// loader metadata, or, when it decodes, that of the symbol tables.
pub open spec fn tables_error(s: Seq<u8>, c: ElfClass, e: Endianness, secs: Seq<Section>, segs: Seq<Segment>, err: AppError) -> bool {
    if !dynamic_info_ok(s, secs, segs, c, e) {
        dynamic_info_error(s, secs, segs, c, e, err)
    } else {
        symbols_error(s, secs, segs, c, e, err)
    }
}

/// `b` is the complete inspection result of the file bytes `s`.
pub open spec fn binary_decoded(s: Seq<u8>, size_bytes: u64, b: Binary) -> bool {
    let c = class_of(s[4])->0;
    let e = endianness_of(s[5])->0;
    let l = layout_of(s, c, e);
    &&& b.format == FileFormat::Elf
    &&& b.file == FileMetadata { size_bytes }
    &&& b.elf == header_of(s, c, e)
    &&& sections_decoded(s, l, c, b.sections@)
    &&& segments_decoded(s, l, c, b.segments@)
    &&& tables_ok(s, c, e, b.sections@, b.segments@)
    &&& dynamic_info_decoded(s, b.sections@, b.segments@, c, e, b.dynamic)
    &&& symbols_decoded(s, b.sections@, b.segments@, c, e, b.symbols@)
    &&& notes_decoded(s, e, b.sections@, b.segments@, b.notes@)
    &&& relocs_decoded_upto(s, b.sections@, b.symbols@, c, e, b.relocations@, b.sections@.len() as int)
    &&& mitigations_of(b.elf, b.dynamic, b.segments@, b.symbols@, b.mitigations)
    &&& b.hashes.sha256@ == hex_bytes(sha256_digest(s))
    &&& b.hashes.sha256@.len() == 64
}

proof fn lemma_segments_fit(s: Seq<u8>, l: Layout, c: ElfClass, v: Seq<Segment>)
    requires
        segments_valid(s, l, c),
        segments_decoded(s, l, c, v),
        s.len() <= u64::MAX,
    ensures
        loadable_ranges_fit(v),
{
    assert forall|i: int| 0 <= i < v.len() && #[trigger] v[i].segment_type == 1 && v[i].file_size != 0 implies v[i].offset + v[i].file_size
        <= u64::MAX by {
        assert(v[i] == segment_entry(s, l, c, i));
        assert(segment_contents_ok(s.len(), segment_entry(s, l, c, i)));
    }
}

fn check_ident(bytes: &[u8]) -> (r: Result<(ElfClass, Endianness), AppError>)
    ensures
        r is Ok <==> ident_ok(bytes@),
        r matches Ok((c, e)) ==> class_of(bytes@[4]) == Some(c) && endianness_of(bytes@[5]) == Some(e),
        r is Err ==> r == Err::<(ElfClass, Endianness), AppError>(ident_error(bytes@)),
{
    if bytes.len() < ELF_IDENT_SIZE {
        return Err(AppError::Parse(ParseError::FileTooShort { actual: bytes.len(), expected: ELF_IDENT_SIZE }));
    }
    if !(bytes[0] == 0x7f && bytes[1] == 0x45 && bytes[2] == 0x4c && bytes[3] == 0x46) {
        return Err(AppError::Parse(ParseError::InvalidMagic));
    }
    if bytes[6] != 1 {
        return Err(AppError::Parse(ParseError::UnsupportedVersion(bytes[6])));
    }
    let class = match bytes[4] {
        1 => ElfClass::Elf32,
        2 => ElfClass::Elf64,
        value => return Err(AppError::Parse(ParseError::UnsupportedClass(value))),
    };
    let endianness = match bytes[5] {
        1 => Endianness::Little,
        2 => Endianness::Big,
        value => return Err(AppError::Parse(ParseError::UnsupportedEndianness(value))),
    };
    Ok((class, endianness))
}

/// The outcome of parsing the bytes `s` of a file reported as `size_bytes`
/// long: the first identifier, header, section-table or program-table check
/// that fails gives its error; otherwise the result is the decoded binary,
/// unless the dynamic data or symbols fail to decode, which gives the error
/// of the first of them that fails.
pub open spec fn parse_outcome(s: Seq<u8>, size_bytes: u64, r: Result<Binary, AppError>) -> bool {
    let c = class_of(s[4])->0;
    let e = endianness_of(s[5])->0;
    let l = layout_of(s, c, e);
    &&& !ident_ok(s) ==> r == Err::<Binary, AppError>(ident_error(s))
    &&& ident_ok(s) && !header_valid(s, c, e) ==> (r matches Err(err) && header_error(s, c, e, err))
    &&& ident_ok(s) && header_valid(s, c, e) && !sections_valid(s, l, c) ==> (r matches Err(err) && sections_error(s, l, c, err))
    &&& ident_ok(s) && header_valid(s, c, e) && sections_valid(s, l, c) && !segments_valid(s, l, c) ==> (r matches Err(err)
        && segments_error(s, l, c, err))
    &&& r is Ok ==> structure_ok(s)
    &&& r matches Ok(b) ==> binary_decoded(s, size_bytes, b)
    &&& structure_ok(s) && r is Err ==> exists|secs: Seq<Section>, segs: Seq<Segment>| #[trigger] tables_fail(s, secs, segs)
        && tables_error(s, c, e, secs, segs, r->Err_0)
    &&& r matches Err(err) ==> err is Parse
}

/// Parses comprehensive ELF metadata from an owned byte buffer.
///
/// `size_bytes` is the file size reported alongside the result.
pub fn parse(bytes: &[u8], size_bytes: u64) -> (r: Result<Binary, AppError>)
    ensures
        parse_outcome(bytes@, size_bytes, r),
{
    let (class, endianness) = check_ident(bytes)?;
    let layout = Layout::read(bytes, &class, &endianness)?;
    let sections = parse_sections(bytes, &class, &endianness, &layout)?;
    let segments = parse_segments(bytes, &class, &endianness, &layout)?;
    let len = bytes.len();
    proof {
        lemma_segments_fit(bytes@, layout, class, segments@);
    }
    let dynamic = match dynamic_info(bytes, &class, &endianness, sections.as_slice(), segments.as_slice()) {
        Ok(d) => d,
        Err(e) => {
            assert(tables_fail(bytes@, sections@, segments@));
            assert(tables_error(bytes@, class, endianness, sections@, segments@, e));
            return Err(e);
        },
    };
    let symbols = match parse_symbols(bytes, &class, &endianness, sections.as_slice(), segments.as_slice()) {
        Ok(v) => v,
        Err(e) => {
            assert(tables_fail(bytes@, sections@, segments@));
            assert(tables_error(bytes@, class, endianness, sections@, segments@, e));
            return Err(e);
        },
    };
    let notes = match parse_notes(bytes, &class, &endianness, sections.as_slice(), segments.as_slice()) {
        Ok(n) => n,
        Err(e) => return Err(e),
    };
    let relocations = match parse_relocations(bytes, &class, &endianness, sections.as_slice(), symbols.as_slice()) {
        Ok(r) => r,
        Err(e) => return Err(e),
    };
    let type_value = read_u16(bytes, 16, &layout.endianness)?;
    let machine_value = read_u16(bytes, 18, &layout.endianness)?;
    let elf_header = ElfHeader {
        class,
        endianness,
        elf_type: elf_type(type_value),
        machine: machine(machine_value),
        os_abi: os_abi(bytes[7]),
        abi_version: bytes[8],
        entry_point: layout.entry_point,
        flags: layout.flags,
        section_offset: layout.section_offset,
        section_entry_size: layout.section_entry_size,
        section_count: layout.section_count,
        program_offset: layout.program_offset,
        program_entry_size: layout.program_entry_size,
        program_count: layout.program_count,
    };
    let mitigations = analyze_mitigations(&elf_header, &dynamic, segments.as_slice(), symbols.as_slice());
    let hashes = FileHashes { sha256: sha256_hex(bytes) };
    Ok(Binary {
        format: FileFormat::Elf,
        file: FileMetadata { size_bytes },
        elf: elf_header,
        dynamic,
        sections,
        segments,
        symbols,
        mitigations,
        notes,
        relocations,
        hashes,
    })
}

} // verus!

verus! {

/// A parsed binary stays within the inspector's safety limits: at most 8192
/// notes, at most 32768 relocations, and at most 64 MiB of section contents
/// marked for entropy scanning.
pub proof fn parsed_binary_is_bounded(s: Seq<u8>, size_bytes: u64, b: Binary)
    requires
        binary_decoded(s, size_bytes, b),
    ensures
        b.notes@.len() <= MAX_NOTE_ENTRIES,
        b.relocations@.len() <= MAX_RELOC_ENTRIES,
        scanned_size(b.sections@) <= MAX_TOTAL_SECTION_SCAN_BYTES,
{
    let c = class_of(s[4])->0;
    let e = endianness_of(s[5])->0;
    scanned_sections_fit_budget(s, layout_of(s, c, e), c, b.sections@);
}

/// Strings taken from a parsed binary are terminal-safe: every character of
/// the section names, of the interpreter path, of the dynamic entries' string
/// values and the needed libraries, RPATH and RUNPATH taken from them, of the
/// symbol names, of the note owner names, and of the section and symbol names
/// that relocations carry is printable ASCII.
pub proof fn parsed_strings_are_printable(s: Seq<u8>, size_bytes: u64, b: Binary)
    requires
        binary_decoded(s, size_bytes, b),
    ensures
        forall|i: int, k: int|
            0 <= i < b.sections@.len() && 0 <= k < b.sections@[i].name@.len() ==> is_printable_ascii(
                #[trigger] b.sections@[i].name@[k],
            ),
        b.dynamic.interpreter matches Some(p) ==> forall|k: int| 0 <= k < p@.len() ==> is_printable_ascii(#[trigger] p@[k]),
        forall|i: int, k: int|
            0 <= i < b.dynamic.entries@.len() && b.dynamic.entries@[i].string_value is Some && 0 <= k
                < b.dynamic.entries@[i].string_value->0@.len() ==> is_printable_ascii(
                #[trigger] b.dynamic.entries@[i].string_value->0@[k],
            ),
        forall|i: int, k: int|
            0 <= i < b.symbols@.len() && 0 <= k < b.symbols@[i].name@.len() ==> is_printable_ascii(
                #[trigger] b.symbols@[i].name@[k],
            ),
        forall|i: int, k: int|
            0 <= i < b.notes@.len() && 0 <= k < b.notes@[i].name@.len() ==> is_printable_ascii(
                #[trigger] b.notes@[i].name@[k],
            ),
        forall|i: int, k: int|
            0 <= i < b.dynamic.needed@.len() && 0 <= k < b.dynamic.needed@[i]@.len() ==> is_printable_ascii(
                #[trigger] b.dynamic.needed@[i]@[k],
            ),
        b.dynamic.rpath matches Some(p) ==> forall|k: int| 0 <= k < p@.len() ==> is_printable_ascii(#[trigger] p@[k]),
        b.dynamic.runpath matches Some(p) ==> forall|k: int| 0 <= k < p@.len() ==> is_printable_ascii(#[trigger] p@[k]),
        forall|i: int, k: int|
            0 <= i < b.relocations@.len() && 0 <= k < b.relocations@[i].section_name@.len() ==> is_printable_ascii(
                #[trigger] b.relocations@[i].section_name@[k],
            ),
        forall|i: int, k: int|
            0 <= i < b.relocations@.len() && b.relocations@[i].symbol_name is Some && 0 <= k
                < b.relocations@[i].symbol_name->0@.len() ==> is_printable_ascii(
                #[trigger] b.relocations@[i].symbol_name->0@[k],
            ),
{
    let c = class_of(s[4])->0;
    let e = endianness_of(s[5])->0;
    let l = layout_of(s, c, e);
    assert forall|i: int, k: int|
        0 <= i < b.sections@.len() && 0 <= k < b.sections@[i].name@.len() implies is_printable_ascii(
        #[trigger] b.sections@[i].name@[k],
    ) by {
        assert(section_decoded(s, l, c, i, b.sections@[i]));
        escaped_is_printable(section_name_bytes(s, l, c, i)->0);
    }
    if let Some(p) = b.dynamic.interpreter {
        assert(opt_string_view(b.dynamic.interpreter) == interpreter_view(s, b.segments@));
        let segs = b.segments@;
        let q = find_segment(segs, 3, 0)->0;
        escaped_is_printable(c_string_at(range_bytes(s, segs[q].offset, segs[q].file_size), 0)->0);
    }
    assert forall|i: int, k: int|
        0 <= i < b.dynamic.entries@.len() && b.dynamic.entries@[i].string_value is Some && 0 <= k
            < b.dynamic.entries@[i].string_value->0@.len() implies is_printable_ascii(
        #[trigger] b.dynamic.entries@[i].string_value->0@[k],
    ) by {
        let (entries, table) = dyn_source(s, b.sections@, b.segments@, c, e)->0;
        assert(entry_decoded(table, entries[i].0, entries[i].1, b.dynamic.entries@[i]));
        escaped_is_printable(entry_text(table, entries[i].0, entries[i].1)->0);
    }
    decoded_symbol_names_printable(s, b.sections@, b.segments@, c, e, b.symbols@);
    let all = all_notes(s, e, note_ranges(b.sections@, b.segments@));
    assert forall|i: int, k: int| 0 <= i < b.notes@.len() && 0 <= k < b.notes@[i].name@.len() implies is_printable_ascii(
        #[trigger] b.notes@[i].name@[k],
    ) by {
        assert(note_decoded(all[i], e, b.notes@[i]));
        escaped_is_printable(strip_nul(all[i].name));
    }
    let ds = b.dynamic.entries@;
    loader_strings_printable(ds);
    if dyn_source(s, b.sections@, b.segments@, c, e) is Some {
        assert forall|i: int, k: int| 0 <= i < b.dynamic.needed@.len() && 0 <= k < b.dynamic.needed@[i]@.len() implies is_printable_ascii(
            #[trigger] b.dynamic.needed@[i]@[k],
        ) by {
            assert(strings_view(b.dynamic.needed@)[i] == b.dynamic.needed@[i]@);
            assert(needed_views(ds)[i] == b.dynamic.needed@[i]@);
        }
        if let Some(p) = b.dynamic.rpath {
            assert(last_string(ds, 15) == Some(p@));
        }
        if let Some(p) = b.dynamic.runpath {
            assert(last_string(ds, 29) == Some(p@));
        }
    }
    decoded_relocation_names_printable(s, b.sections@, b.symbols@, c, e, b.relocations@);
}

} // verus!

verus! {

/// The report of a parsed file is terminal-safe: whatever bytes the file
/// holds and whichever categories are shown, every character of its
/// human-readable report is printable ASCII or a line break.
pub proof fn parsed_report_is_terminal_safe(s: Seq<u8>, size_bytes: u64, b: Binary, o: ReportOptions)
    requires
        binary_decoded(s, size_bytes, b),
    ensures
        terminal_text(report_text(b, o)),
{
    parsed_strings_are_printable(s, size_bytes, b);
    hex_bytes_printable(sha256_digest(s));
    let e = endianness_of(s[5])->0;
    let all = all_notes(s, e, note_ranges(b.sections@, b.segments@));
    assert forall|i: int| 0 <= i < b.notes@.len() implies note_texts_printable(#[trigger] b.notes@[i]) by {
        assert(note_decoded(all[i], e, b.notes@[i]));
        decoded_note_texts_printable(all[i], e, b.notes@[i]);
    }
    assert forall|i: int| 0 <= i < b.sections@.len() implies printable_text(#[trigger] b.sections@[i].name@) by {
        assert forall|k: int| 0 <= k < b.sections@[i].name@.len() implies is_printable_ascii(#[trigger] b.sections@[i].name@[k]) by {}
    }
    assert forall|i: int| 0 <= i < b.dynamic.needed@.len() implies printable_text(#[trigger] b.dynamic.needed@[i]@) by {
        assert forall|k: int| 0 <= k < b.dynamic.needed@[i]@.len() implies is_printable_ascii(#[trigger] b.dynamic.needed@[i]@[k]) by {}
    }
    assert forall|i: int| 0 <= i < b.symbols@.len() implies printable_text(#[trigger] b.symbols@[i].name@) by {
        assert forall|k: int| 0 <= k < b.symbols@[i].name@.len() implies is_printable_ascii(#[trigger] b.symbols@[i].name@[k]) by {}
    }
    assert forall|i: int| 0 <= i < b.relocations@.len() implies relocation_texts_printable(#[trigger] b.relocations@[i]) by {
        assert forall|k: int| 0 <= k < b.relocations@[i].section_name@.len() implies is_printable_ascii(
            #[trigger] b.relocations@[i].section_name@[k],
        ) by {}
        if let Some(x) = b.relocations@[i].symbol_name {
            assert forall|k: int| 0 <= k < x@.len() implies is_printable_ascii(#[trigger] x@[k]) by {
                assert(b.relocations@[i].symbol_name->0@[k] == x@[k]);
            }
        }
    }
    assert(file_texts_printable(b));
    report_is_terminal_safe(b, o);
}

} // verus!

verus! {

/// The fields of the header decoded from the file bytes `s`, by the ELF ABI.
proof fn lemma_header_abi(s: Seq<u8>, h: ElfHeader)
    requires
        ident_ok(s),
        h == header_of(s, class_of(s[4])->0, endianness_of(s[5])->0),
    ensures
        s[4] == 1 ==> h.class == ElfClass::Elf32,
        s[4] == 2 ==> h.class == ElfClass::Elf64,
        s[5] == 1 ==> h.endianness == Endianness::Little,
        s[5] == 2 ==> h.endianness == Endianness::Big,
        ({
            let t: int = if s[5] == 1 { s[16] + 0x100 * s[17] } else { 0x100 * s[16] + s[17] };
            &&& t == 1 ==> h.elf_type == crate::model::ElfType::Relocatable
            &&& t == 2 ==> h.elf_type == crate::model::ElfType::Executable
            &&& t == 3 ==> h.elf_type == crate::model::ElfType::Shared
            &&& t == 4 ==> h.elf_type == crate::model::ElfType::Core
            &&& (t == 0 || t > 4) ==> h.elf_type == crate::model::ElfType::Other(t as u16)
        }),
        ({
            let m: int = if s[5] == 1 { s[18] + 0x100 * s[19] } else { 0x100 * s[18] + s[19] };
            &&& m == 3 ==> h.machine == crate::model::Machine::X86
            &&& m == 40 ==> h.machine == crate::model::Machine::Arm
            &&& m == 62 ==> h.machine == crate::model::Machine::X86_64
            &&& m == 183 ==> h.machine == crate::model::Machine::Aarch64
            &&& m == 243 ==> h.machine == crate::model::Machine::RiscV
            &&& (m != 3 && m != 40 && m != 62 && m != 183 && m != 243) ==> h.machine == crate::model::Machine::Other(m as u16)
        }),
        s[7] == 0 ==> h.os_abi == crate::model::OsAbi::SystemV,
        s[7] == 3 ==> h.os_abi == crate::model::OsAbi::Linux,
        s[7] == 9 ==> h.os_abi == crate::model::OsAbi::FreeBsd,
        s[7] != 0 && s[7] != 3 && s[7] != 9 ==> h.os_abi == crate::model::OsAbi::Other(s[7]),
        h.abi_version == s[8],
{
    let e = endianness_of(s[5])->0;
    let t = u16_at(s, 16, e);
    let m = u16_at(s, 18, e);
    assert(t == if s[5] == 1 { s[16] + 0x100 * s[17] } else { 0x100 * s[16] + s[17] });
    assert(m == if s[5] == 1 { s[18] + 0x100 * s[19] } else { 0x100 * s[18] + s[19] });
}

/// The identification and header fields of a parsed file follow the ELF ABI:
/// `EI_CLASS` 1 and 2 are ELF32 and ELF64, `EI_DATA` 1 and 2 little- and
/// big-endian; `e_type` (bytes 16 and 17, in the file's byte order) `ET_REL`
/// 1, `ET_EXEC` 2, `ET_DYN` 3, `ET_CORE` 4; `e_machine` (bytes 18 and 19)
/// `EM_386` 3, `EM_ARM` 40, `EM_X86_64` 62, `EM_AARCH64` 183, `EM_RISCV` 243;
/// `EI_OSABI` (byte 7) System V 0, Linux 3, FreeBSD 9; other values are kept
/// as they are, so distinct recognized values never decode alike.
pub proof fn header_follows_abi(s: Seq<u8>, size_bytes: u64, b: Binary)
    requires
        parse_outcome(s, size_bytes, Ok::<Binary, AppError>(b)),
    ensures
        s[4] == 1 ==> b.elf.class == ElfClass::Elf32,
        s[4] == 2 ==> b.elf.class == ElfClass::Elf64,
        s[5] == 1 ==> b.elf.endianness == Endianness::Little,
        s[5] == 2 ==> b.elf.endianness == Endianness::Big,
        ({
            let t: int = if s[5] == 1 { s[16] + 0x100 * s[17] } else { 0x100 * s[16] + s[17] };
            &&& t == 1 ==> b.elf.elf_type == crate::model::ElfType::Relocatable
            &&& t == 2 ==> b.elf.elf_type == crate::model::ElfType::Executable
            &&& t == 3 ==> b.elf.elf_type == crate::model::ElfType::Shared
            &&& t == 4 ==> b.elf.elf_type == crate::model::ElfType::Core
            &&& (t == 0 || t > 4) ==> b.elf.elf_type == crate::model::ElfType::Other(t as u16)
        }),
        ({
            let m: int = if s[5] == 1 { s[18] + 0x100 * s[19] } else { 0x100 * s[18] + s[19] };
            &&& m == 3 ==> b.elf.machine == crate::model::Machine::X86
            &&& m == 40 ==> b.elf.machine == crate::model::Machine::Arm
            &&& m == 62 ==> b.elf.machine == crate::model::Machine::X86_64
            &&& m == 183 ==> b.elf.machine == crate::model::Machine::Aarch64
            &&& m == 243 ==> b.elf.machine == crate::model::Machine::RiscV
            &&& (m != 3 && m != 40 && m != 62 && m != 183 && m != 243) ==> b.elf.machine == crate::model::Machine::Other(m as u16)
        }),
        s[7] == 0 ==> b.elf.os_abi == crate::model::OsAbi::SystemV,
        s[7] == 3 ==> b.elf.os_abi == crate::model::OsAbi::Linux,
        s[7] == 9 ==> b.elf.os_abi == crate::model::OsAbi::FreeBsd,
        s[7] != 0 && s[7] != 3 && s[7] != 9 ==> b.elf.os_abi == crate::model::OsAbi::Other(s[7]),
        b.elf.abi_version == s[8],
{
    lemma_header_abi(s, b.elf);
}

} // verus!

verus! {

/// A parsed file's header, program headers and section headers are read at
/// the offsets the ELF ABI fixes, in the file's byte order: in ELF64
/// `e_entry` at 24, `e_phoff` at 32, `e_shoff` at 40, `e_flags` at 48,
/// `e_phentsize`, `e_phnum`, `e_shentsize`, `e_shnum` at 54, 56, 58, 60; in
/// ELF32 at 24, 28, 32, 36, 42, 44, 46, 48. Program header `i` starts at
/// `e_phoff + i * e_phentsize` (ELF64: `p_type` 0, `p_flags` 4, `p_offset`
/// 8, `p_vaddr` 16, `p_filesz` 32, `p_memsz` 40, `p_align` 48; ELF32:
/// `p_type` 0, `p_offset` 4, `p_vaddr` 8, `p_filesz` 16, `p_memsz` 20,
/// `p_flags` 24, `p_align` 28), and section header `i` at
/// `e_shoff + i * e_shentsize` (ELF64: `sh_type` 4, `sh_flags` 8, `sh_addr`
/// 16, `sh_offset` 24, `sh_size` 32, `sh_link` 40, `sh_info` 44,
/// `sh_addralign` 48, `sh_entsize` 56; ELF32: 4, 8, 12, 16, 20, 24, 28, 32, 36).
pub proof fn file_layout_follows_abi(s: Seq<u8>, size_bytes: u64, b: Binary)
    requires
        parse_outcome(s, size_bytes, Ok::<Binary, AppError>(b)),
    ensures
        ({
            let e = b.elf.endianness;
            &&& s[4] == 2 ==> {
                &&& b.elf.entry_point == self::read::u64_at(s, 24, e) as u64
                &&& b.elf.program_offset == self::read::u64_at(s, 32, e) as u64
                &&& b.elf.section_offset == self::read::u64_at(s, 40, e) as u64
                &&& b.elf.flags == self::read::u32_at(s, 48, e) as u32
                &&& b.elf.program_entry_size == self::read::u16_at(s, 54, e) as u16
                &&& b.elf.program_count == self::read::u16_at(s, 56, e) as u16
                &&& b.elf.section_entry_size == self::read::u16_at(s, 58, e) as u16
                &&& b.elf.section_count == self::read::u16_at(s, 60, e) as u16
            }
            &&& s[4] == 1 ==> {
                &&& b.elf.entry_point == self::read::u32_at(s, 24, e) as u64
                &&& b.elf.program_offset == self::read::u32_at(s, 28, e) as u64
                &&& b.elf.section_offset == self::read::u32_at(s, 32, e) as u64
                &&& b.elf.flags == self::read::u32_at(s, 36, e) as u32
                &&& b.elf.program_entry_size == self::read::u16_at(s, 42, e) as u16
                &&& b.elf.program_count == self::read::u16_at(s, 44, e) as u16
                &&& b.elf.section_entry_size == self::read::u16_at(s, 46, e) as u16
                &&& b.elf.section_count == self::read::u16_at(s, 48, e) as u16
            }
        }),
        forall|i: int| 0 <= i < b.segments@.len() ==> {
            let g = #[trigger] b.segments@[i];
            let e = b.elf.endianness;
            let base = b.elf.program_offset + b.elf.program_entry_size * i;
            &&& g.index == i
            &&& s[4] == 2 ==> {
                    &&& g.segment_type == self::read::u32_at(s, base, e) as u32
                    &&& g.flags == self::read::u32_at(s, base + 4, e) as u32
                    &&& g.offset == self::read::u64_at(s, base + 8, e) as u64
                    &&& g.virtual_address == self::read::u64_at(s, base + 16, e) as u64
                    &&& g.file_size == self::read::u64_at(s, base + 32, e) as u64
                    &&& g.memory_size == self::read::u64_at(s, base + 40, e) as u64
                    &&& g.alignment == self::read::u64_at(s, base + 48, e) as u64
            }
            &&& s[4] == 1 ==> {
                    &&& g.segment_type == self::read::u32_at(s, base, e) as u32
                    &&& g.offset == self::read::u32_at(s, base + 4, e) as u64
                    &&& g.virtual_address == self::read::u32_at(s, base + 8, e) as u64
                    &&& g.file_size == self::read::u32_at(s, base + 16, e) as u64
                    &&& g.memory_size == self::read::u32_at(s, base + 20, e) as u64
                    &&& g.flags == self::read::u32_at(s, base + 24, e) as u32
                    &&& g.alignment == self::read::u32_at(s, base + 28, e) as u64
            }
        },
        forall|i: int| 0 <= i < b.sections@.len() ==> {
            let x = #[trigger] b.sections@[i];
            let e = b.elf.endianness;
            let base = b.elf.section_offset + b.elf.section_entry_size * i;
            &&& x.index == i
            &&& s[4] == 2 ==> {
                    &&& x.section_type == self::read::u32_at(s, base + 4, e) as u32
                    &&& x.flags == self::read::u64_at(s, base + 8, e) as u64
                    &&& x.address == self::read::u64_at(s, base + 16, e) as u64
                    &&& x.offset == self::read::u64_at(s, base + 24, e) as u64
                    &&& x.size == self::read::u64_at(s, base + 32, e) as u64
                    &&& x.link == self::read::u32_at(s, base + 40, e) as u32
                    &&& x.info == self::read::u32_at(s, base + 44, e) as u32
                    &&& x.alignment == self::read::u64_at(s, base + 48, e) as u64
                    &&& x.entry_size == self::read::u64_at(s, base + 56, e) as u64
            }
            &&& s[4] == 1 ==> {
                    &&& x.section_type == self::read::u32_at(s, base + 4, e) as u32
                    &&& x.flags == self::read::u32_at(s, base + 8, e) as u64
                    &&& x.address == self::read::u32_at(s, base + 12, e) as u64
                    &&& x.offset == self::read::u32_at(s, base + 16, e) as u64
                    &&& x.size == self::read::u32_at(s, base + 20, e) as u64
                    &&& x.link == self::read::u32_at(s, base + 24, e) as u32
                    &&& x.info == self::read::u32_at(s, base + 28, e) as u32
                    &&& x.alignment == self::read::u32_at(s, base + 32, e) as u64
                    &&& x.entry_size == self::read::u32_at(s, base + 36, e) as u64
            }
        },
{
    let c = class_of(s[4])->0;
    let e = endianness_of(s[5])->0;
    let l = layout_of(s, c, e);
    assert(b.elf == header_of(s, c, e));
    assert forall|i: int| 0 <= i < b.segments@.len() implies #[trigger] b.segments@[i] == self::tables::segment_entry(s, l, c, i) by {}
    assert forall|i: int| 0 <= i < b.sections@.len() implies self::tables::section_decoded(s, l, c, i, #[trigger] b.sections@[i]) by {}
}

} // verus!

verus! {

/// A parsed file's machine is shown under its architecture's name: `EM_386`
/// (3) as `Intel 80386`, `EM_ARM` (40) as `ARM`, `EM_X86_64` (62) as
/// `x86-64`, `EM_AARCH64` (183) as `AArch64`, `EM_RISCV` (243) as `RISC-V`.
pub proof fn machine_display_follows_abi(s: Seq<u8>, size_bytes: u64, b: Binary)
    requires
        parse_outcome(s, size_bytes, Ok::<Binary, AppError>(b)),
    ensures
        ({
            let m: int = if s[5] == 1 { s[18] + 0x100 * s[19] } else { 0x100 * s[18] + s[19] };
            let shown = crate::model::machine_label(b.elf.machine);
            &&& m == 3 ==> shown == "Intel 80386"@
            &&& m == 40 ==> shown == "ARM"@
            &&& m == 62 ==> shown == "x86-64"@
            &&& m == 183 ==> shown == "AArch64"@
            &&& m == 243 ==> shown == "RISC-V"@
        }),
{
    header_follows_abi(s, size_bytes, b);
}

} // verus!
