//! The ELF identifier and file header.

use vstd::prelude::*;
use crate::error::{AppError, ParseError};
use crate::fmt::{decimal, push_decimal, push_str};
use crate::model::{ElfClass, ElfType, Endianness, Machine, OsAbi};
use super::read::{is_malformed, malformed, read_u16, read_u32, read_u64, u16_at, u32_at, u64_at};

verus! {

/// Length of the ELF identifier (`e_ident`).
pub const ELF_IDENT_SIZE: usize = 16;

/// Largest accepted section or program header count.
pub const MAX_TABLE_ENTRIES: u16 = 65_534;

/// A word-sized header field: 32 bits in ELF32, 64 bits in ELF64.
pub open spec fn word_at(s: Seq<u8>, at: int, class: ElfClass, e: Endianness) -> nat {
    match class {
        ElfClass::Elf32 => u32_at(s, at, e),
        ElfClass::Elf64 => u64_at(s, at, e),
    }
}

/// Reads a word-sized field.
pub fn read_word(bytes: &[u8], offset: usize, class: &ElfClass, endianness: &Endianness) -> (r: Result<u64, AppError>)
    ensures
        offset + (if *class is Elf32 { 4int } else { 8 }) <= bytes@.len() ==> r == Ok::<u64, AppError>(
            word_at(bytes@, offset as int, *class, *endianness) as u64,
        ),
        r matches Ok(v) ==> v == word_at(bytes@, offset as int, *class, *endianness),
        r is Err ==> offset + (if *class is Elf32 { 4int } else { 8 }) > bytes@.len(),
{
    match class {
        ElfClass::Elf32 => {
            let v = read_u32(bytes, offset, endianness)?;
            Ok(v as u64)
        },
        ElfClass::Elf64 => read_u64(bytes, offset, endianness),
    }
}

/// The four ELF magic bytes.
pub open spec fn has_elf_magic(s: Seq<u8>) -> bool {
    s[0] == 0x7f && s[1] == 0x45 && s[2] == 0x4c && s[3] == 0x46
}

/// Size of the file header for a class.
pub open spec fn header_size(class: ElfClass) -> nat {
    if class is Elf32 {
        52
    } else {
        64
    }
}

/// Positions of the class-dependent header fields.
pub open spec fn program_offset_at(c: ElfClass) -> int { if c is Elf32 { 28 } else { 32 } }
/// Position of `e_shoff`.
pub open spec fn section_offset_at(c: ElfClass) -> int { if c is Elf32 { 32 } else { 40 } }
/// Position of `e_flags`.
pub open spec fn flags_at(c: ElfClass) -> int { if c is Elf32 { 36 } else { 48 } }
/// Position of `e_phentsize`.
pub open spec fn program_size_at(c: ElfClass) -> int { if c is Elf32 { 42 } else { 54 } }
/// Position of `e_phnum`.
pub open spec fn program_count_at(c: ElfClass) -> int { if c is Elf32 { 44 } else { 56 } }
/// Position of `e_shentsize`.
pub open spec fn section_size_at(c: ElfClass) -> int { if c is Elf32 { 46 } else { 58 } }
/// Position of `e_shnum`.
pub open spec fn section_count_at(c: ElfClass) -> int { if c is Elf32 { 48 } else { 60 } }
/// Position of `e_shstrndx`.
pub open spec fn names_at(c: ElfClass) -> int { if c is Elf32 { 50 } else { 62 } }

/// Table locations and counts from the file header.
#[derive(Debug, Clone, Copy, PartialEq, Eq, Structural)]
pub struct Layout {
    /// Byte order of the file.
    pub endianness: Endianness,
    /// `e_entry`.
    pub entry_point: u64,
    /// `e_flags`.
    pub flags: u32,
    /// `e_phoff`.
    pub program_offset: u64,
    /// `e_phentsize`.
    pub program_entry_size: u16,
    /// `e_phnum`.
    pub program_count: u16,
    /// `e_shoff`.
    pub section_offset: u64,
    /// `e_shentsize`.
    pub section_entry_size: u16,
    /// `e_shnum`.
    pub section_count: u16,
    /// `e_shstrndx`.
    pub section_names_index: u16,
}

/// The header fields as the file states them (meaningful once the header is long enough).
pub open spec fn layout_of(s: Seq<u8>, c: ElfClass, e: Endianness) -> Layout {
    Layout {
        endianness: e,
        entry_point: word_at(s, 24, c, e) as u64,
        flags: u32_at(s, flags_at(c), e) as u32,
        program_offset: word_at(s, program_offset_at(c), c, e) as u64,
        program_entry_size: u16_at(s, program_size_at(c), e) as u16,
        program_count: u16_at(s, program_count_at(c), e) as u16,
        section_offset: word_at(s, section_offset_at(c), c, e) as u64,
        section_entry_size: u16_at(s, section_size_at(c), e) as u16,
        section_count: u16_at(s, section_count_at(c), e) as u16,
        section_names_index: u16_at(s, names_at(c), e) as u16,
    }
}

/// Extended numbering (`PN_XNUM`, `SHN_XINDEX`, or a section count held in
/// section zero), which this inspector does not support.
pub open spec fn uses_extended_numbering(s: Seq<u8>, c: ElfClass, e: Endianness) -> bool {
    let l = layout_of(s, c, e);
    l.program_count == 0xffff || l.section_names_index == 0xffff || (l.section_count == 0
        && l.section_offset != 0)
}

/// The header checks, in the order they are made.
pub open spec fn header_too_short(s: Seq<u8>, c: ElfClass) -> bool {
    s.len() < header_size(c)
}

/// `e_version` differs from `EV_CURRENT`.
pub open spec fn header_version_bad(s: Seq<u8>, c: ElfClass, e: Endianness) -> bool {
    u32_at(s, 20, e) != 1
}

/// `e_ehsize` differs from the class's header size.
pub open spec fn header_size_bad(s: Seq<u8>, c: ElfClass, e: Endianness) -> bool {
    u16_at(s, header_size(c) - 12, e) != header_size(c)
}

/// A file header that passes every check.
pub open spec fn header_valid(s: Seq<u8>, c: ElfClass, e: Endianness) -> bool {
    &&& !header_too_short(s, c)
    &&& !header_version_bad(s, c, e)
    &&& !header_size_bad(s, c, e)
    &&& !uses_extended_numbering(s, c, e)
    &&& layout_of(s, c, e).program_count <= MAX_TABLE_ENTRIES
    &&& layout_of(s, c, e).section_count <= MAX_TABLE_ENTRIES
}

/// The error reported for an invalid file header: the first check that fails.
pub open spec fn header_error(s: Seq<u8>, c: ElfClass, e: Endianness, err: AppError) -> bool {
    if header_too_short(s, c) {
        err == AppError::Parse(ParseError::FileTooShort { actual: s.len() as usize, expected: header_size(c) as usize })
    } else if header_version_bad(s, c, e) {
        err == AppError::Parse(ParseError::UnsupportedVersion(u32_at(s, 20, e) as u8))
    } else if header_size_bad(s, c, e) {
        err matches AppError::Parse(ParseError::InvalidHeader { what, detail }) && what@ == "ELF header size"@
            && detail@ == "e_ehsize is "@ + decimal(u16_at(s, header_size(c) - 12, e)) + ", expected "@
            + decimal(header_size(c))
    } else if uses_extended_numbering(s, c, e) {
        is_malformed(err, "extended ELF table numbering is unsupported"@)
    } else {
        err == AppError::Parse(ParseError::LimitExceeded { what: "section header entries", limit: MAX_TABLE_ENTRIES as usize })
    }
}

impl Layout {
    /// Reads and validates the file header.
    pub fn read(bytes: &[u8], class: &ElfClass, endianness: &Endianness) -> (r: Result<Self, AppError>)
        ensures
            r is Ok <==> header_valid(bytes@, *class, *endianness),
            r matches Ok(l) ==> l == layout_of(bytes@, *class, *endianness),
            r matches Err(err) ==> header_error(bytes@, *class, *endianness, err),
    {
        let (header_size, program_offset_at, section_offset_at, flags_at, program_size_at,
            program_count_at, section_size_at, section_count_at, names_at): (usize, usize, usize, usize, usize, usize, usize, usize, usize) = match class {
            ElfClass::Elf32 => (52, 28, 32, 36, 42, 44, 46, 48, 50),
            ElfClass::Elf64 => (64, 32, 40, 48, 54, 56, 58, 60, 62),
        };
        if bytes.len() < header_size {
            return Err(AppError::Parse(ParseError::FileTooShort { actual: bytes.len(), expected: header_size }));
        }
        let hdr_version = read_u32(bytes, 20, endianness)?;
        if hdr_version != 1 {
            return Err(AppError::Parse(ParseError::UnsupportedVersion(hdr_version as u8)));
        }
        let actual_hdr_size = read_u16(bytes, header_size - 12, endianness)?;
        if actual_hdr_size as usize != header_size {
            let mut detail = String::from_str("e_ehsize is ");
            push_decimal(&mut detail, actual_hdr_size as u64);
            push_str(&mut detail, ", expected ");
            push_decimal(&mut detail, header_size as u64);
            return Err(AppError::Parse(ParseError::InvalidHeader { what: "ELF header size", detail }));
        }
        let flags = read_u32(bytes, flags_at, endianness)?;
        let program_count = read_u16(bytes, program_count_at, endianness)?;
        let section_count = read_u16(bytes, section_count_at, endianness)?;
        let section_names_index = read_u16(bytes, names_at, endianness)?;
        let section_offset = read_word(bytes, section_offset_at, class, endianness)?;
        if program_count == 0xffff || section_names_index == 0xffff || (section_count == 0
            && section_offset != 0) {
            return Err(malformed("extended ELF table numbering is unsupported"));
        }
        if program_count > MAX_TABLE_ENTRIES {
            return Err(AppError::Parse(ParseError::LimitExceeded { what: "program header entries", limit: MAX_TABLE_ENTRIES as usize }));
        }
        if section_count > MAX_TABLE_ENTRIES {
            return Err(AppError::Parse(ParseError::LimitExceeded { what: "section header entries", limit: MAX_TABLE_ENTRIES as usize }));
        }
        let entry_point = read_word(bytes, 24, class, endianness)?;
        let program_offset = read_word(bytes, program_offset_at, class, endianness)?;
        let program_entry_size = read_u16(bytes, program_size_at, endianness)?;
        let section_entry_size = read_u16(bytes, section_size_at, endianness)?;
        Ok(Layout {
            endianness: *endianness,
            entry_point,
            flags,
            program_offset,
            program_entry_size,
            program_count,
            section_offset,
            section_entry_size,
            section_count,
            section_names_index,
        })
    }
}

/// The object type for an `e_type` value.
pub open spec fn elf_type_of(value: u16) -> ElfType {
    match value {
        1 => ElfType::Relocatable,
        2 => ElfType::Executable,
        3 => ElfType::Shared,
        4 => ElfType::Core,
        _ => ElfType::Other(value),
    }
}

/// The machine for an `e_machine` value.
pub open spec fn machine_of(value: u16) -> Machine {
    match value {
        3 => Machine::X86,
        40 => Machine::Arm,
        62 => Machine::X86_64,
        183 => Machine::Aarch64,
        243 => Machine::RiscV,
        _ => Machine::Other(value),
    }
}

/// The OS ABI for an `EI_OSABI` value.
pub open spec fn os_abi_of(value: u8) -> OsAbi {
    match value {
        0 => OsAbi::SystemV,
        3 => OsAbi::Linux,
        9 => OsAbi::FreeBsd,
        _ => OsAbi::Other(value),
    }
}

/// Decodes `e_type`.
pub fn elf_type(value: u16) -> (t: ElfType)
    ensures
        t == elf_type_of(value),
{
    match value {
        1 => ElfType::Relocatable,
        2 => ElfType::Executable,
        3 => ElfType::Shared,
        4 => ElfType::Core,
        _ => ElfType::Other(value),
    }
}

/// Decodes `e_machine`.
pub fn machine(value: u16) -> (m: Machine)
    ensures
        m == machine_of(value),
{
    match value {
        3 => Machine::X86,
        40 => Machine::Arm,
        62 => Machine::X86_64,
        183 => Machine::Aarch64,
        243 => Machine::RiscV,
        _ => Machine::Other(value),
    }
}

/// Decodes `EI_OSABI`.
pub fn os_abi(value: u8) -> (a: OsAbi)
    ensures
        a == os_abi_of(value),
{
    match value {
        0 => OsAbi::SystemV,
        3 => OsAbi::Linux,
        9 => OsAbi::FreeBsd,
        _ => OsAbi::Other(value),
    }
}

} // verus!
