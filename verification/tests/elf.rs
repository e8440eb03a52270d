use binary_inspector::elf::mitigations::analyze_mitigations;
use binary_inspector::elf::parse;
use binary_inspector::error::{AppError, ParseError};
use binary_inspector::elf::strings::{string_at, MAX_STRING_BYTES};
use binary_inspector::model::{
    DynamicInfo, ElfClass, ElfHeader, ElfType, Endianness, Hardening, Machine, OsAbi, PieStatus, Relro, Segment, Symbol,
    SymbolBinding, SymbolTableKind, SymbolType, SymbolVisibility,
};

fn u16_into(bytes: &mut [u8], at: usize, value: u16) {
    bytes[at..at + 2].copy_from_slice(&value.to_le_bytes());
}

fn u32_into(bytes: &mut [u8], at: usize, value: u32) {
    bytes[at..at + 4].copy_from_slice(&value.to_le_bytes());
}

fn u64_into(bytes: &mut [u8], at: usize, value: u64) {
    bytes[at..at + 8].copy_from_slice(&value.to_le_bytes());
}

#[test]
fn parses_a_minimal_little_endian_elf64_header() {
    let mut bytes = [0_u8; 64];
    bytes[..4].copy_from_slice(b"\x7fELF");
    bytes[4..9].copy_from_slice(&[2, 1, 1, 0, 0]);
    bytes[16..18].copy_from_slice(&2_u16.to_le_bytes());
    bytes[18..20].copy_from_slice(&62_u16.to_le_bytes());
    bytes[20..24].copy_from_slice(&1_u32.to_le_bytes());
    bytes[24..32].copy_from_slice(&0x401000_u64.to_le_bytes());
    bytes[52..54].copy_from_slice(&64_u16.to_le_bytes());
    let binary = parse(&bytes, 64).unwrap_or_else(|error| panic!("{}", error.message()));
    assert!(matches!(binary.elf.class, ElfClass::Elf64));
    assert!(matches!(binary.elf.endianness, Endianness::Little));
    assert!(matches!(binary.elf.machine, Machine::X86_64));
    assert_eq!(binary.elf.entry_point, 0x401000);
    assert!(binary.sections.is_empty());
    assert!(!binary.hashes.sha256.is_empty());
}

#[test]
fn rejects_truncated_or_non_elf_data() {
    assert!(parse(&[], 0).is_err());
    assert!(parse(&[0; 16], 16).is_err());
}

#[test]
fn parses_sections_and_escapes_their_names() {
    let mut bytes = vec![0_u8; 200];
    bytes[..4].copy_from_slice(b"\x7fELF");
    bytes[4..9].copy_from_slice(&[2, 1, 1, 0, 0]);
    bytes[20..24].copy_from_slice(&1_u32.to_le_bytes());
    bytes[40..48].copy_from_slice(&64_u64.to_le_bytes());
    bytes[52..54].copy_from_slice(&64_u16.to_le_bytes());
    bytes[58..60].copy_from_slice(&64_u16.to_le_bytes());
    bytes[60..62].copy_from_slice(&2_u16.to_le_bytes());
    bytes[62..64].copy_from_slice(&1_u16.to_le_bytes());
    bytes[128..132].copy_from_slice(&1_u32.to_le_bytes());
    bytes[132..136].copy_from_slice(&3_u32.to_le_bytes());
    bytes[128 + 24..128 + 32].copy_from_slice(&192_u64.to_le_bytes());
    bytes[128 + 32..128 + 40].copy_from_slice(&8_u64.to_le_bytes());
    bytes[192..200].copy_from_slice(b"\0.bad\x1b\0\0");

    let binary = parse(&bytes, 200).unwrap_or_else(|error| panic!("{}", error.message()));
    assert_eq!(binary.sections.len(), 2);
    assert_eq!(binary.sections[1].name, ".bad\\x1B");
}

#[test]
fn rejects_a_section_outside_the_file() {
    let mut bytes = vec![0_u8; 200];
    bytes[..4].copy_from_slice(b"\x7fELF");
    bytes[4..9].copy_from_slice(&[2, 1, 1, 0, 0]);
    bytes[20..24].copy_from_slice(&1_u32.to_le_bytes());
    bytes[40..48].copy_from_slice(&64_u64.to_le_bytes());
    bytes[52..54].copy_from_slice(&64_u16.to_le_bytes());
    bytes[58..60].copy_from_slice(&64_u16.to_le_bytes());
    bytes[60..62].copy_from_slice(&2_u16.to_le_bytes());
    bytes[62..64].copy_from_slice(&1_u16.to_le_bytes());
    bytes[68..72].copy_from_slice(&1_u32.to_le_bytes());
    bytes[88..96].copy_from_slice(&200_u64.to_le_bytes());
    bytes[96..104].copy_from_slice(&1_u64.to_le_bytes());
    bytes[132..136].copy_from_slice(&3_u32.to_le_bytes());
    bytes[128 + 24..128 + 32].copy_from_slice(&192_u64.to_le_bytes());
    bytes[128 + 32..128 + 40].copy_from_slice(&1_u64.to_le_bytes());
    bytes[192] = 0;

    assert!(parse(&bytes, 200).is_err());
}

#[test]
fn rejects_an_oversized_string() {
    assert!(string_at(&vec![b'a'; MAX_STRING_BYTES + 1], 0).is_err());
}

#[test]
fn test_dt_bind_now_and_stack_chk_fail_local() {
    let elf = ElfHeader {
        class: ElfClass::Elf64,
        endianness: Endianness::Little,
        elf_type: ElfType::Shared,
        machine: Machine::X86_64,
        os_abi: OsAbi::SystemV,
        abi_version: 0,
        entry_point: 0x1000,
        flags: 0,
        section_offset: 0,
        section_entry_size: 64,
        section_count: 0,
        program_offset: 64,
        program_entry_size: 56,
        program_count: 1,
    };

    let dynamic = DynamicInfo {
        bind_now: true,
        ..Default::default()
    };

    let segments = vec![Segment {
        index: 0,
        segment_type: 0x6474_e552,
        flags: 4,
        offset: 0,
        virtual_address: 0,
        file_size: 0,
        memory_size: 0,
        alignment: 8,
    }];

    let symbols = vec![
        Symbol {
            index: 0,
            name: "__stack_chk_fail_local".to_string(),
            value: 0,
            size: 0,
            sym_type: SymbolType::Func,
            binding: SymbolBinding::Global,
            visibility: SymbolVisibility::Default,
            section_index: None,
            is_import: true,
            is_export: false,
            table: SymbolTableKind::Dynamic,
        },
        Symbol {
            index: 1,
            name: "__printf_chk@GLIBC_2.3.4".to_string(),
            value: 0,
            size: 0,
            sym_type: SymbolType::Func,
            binding: SymbolBinding::Global,
            visibility: SymbolVisibility::Default,
            section_index: None,
            is_import: true,
            is_export: false,
            table: SymbolTableKind::Dynamic,
        },
    ];

    let mit = analyze_mitigations(&elf, &dynamic, &segments, &symbols);
    assert_eq!(mit.relro, Relro::Full);
    assert_eq!(mit.stack_canary, Hardening::Enabled);
    assert_eq!(mit.fortified_functions, vec!["__printf_chk".to_string()]);
}

#[test]
fn parses_dynamic_from_program_headers_without_sections() {
    let mut bytes = vec![0_u8; 0x280];
    bytes[..4].copy_from_slice(b"\x7fELF");
    bytes[4..9].copy_from_slice(&[2, 1, 1, 0, 0]);
    u16_into(&mut bytes, 16, 3);
    u16_into(&mut bytes, 18, 62);
    u32_into(&mut bytes, 20, 1);
    bytes[24..32].copy_from_slice(&0x1000_u64.to_le_bytes());
    bytes[32..40].copy_from_slice(&64_u64.to_le_bytes());
    bytes[52..54].copy_from_slice(&64_u16.to_le_bytes());
    bytes[54..56].copy_from_slice(&56_u16.to_le_bytes());
    u16_into(&mut bytes, 56, 3);

    u32_into(&mut bytes, 64, 1);
    u32_into(&mut bytes, 68, 5);
    bytes[72..80].copy_from_slice(&0_u64.to_le_bytes());
    bytes[80..88].copy_from_slice(&0_u64.to_le_bytes());
    bytes[96..104].copy_from_slice(&0x280_u64.to_le_bytes());
    bytes[104..112].copy_from_slice(&0x280_u64.to_le_bytes());
    u32_into(&mut bytes, 120, 2);
    u32_into(&mut bytes, 124, 6);
    bytes[128..136].copy_from_slice(&0x200_u64.to_le_bytes());
    bytes[136..144].copy_from_slice(&0x200_u64.to_le_bytes());
    bytes[152..160].copy_from_slice(&0x50_u64.to_le_bytes());
    u32_into(&mut bytes, 176, 0x6474_e551);
    u32_into(&mut bytes, 180, 6);
    bytes[184..192].copy_from_slice(&0x200_u64.to_le_bytes());

    u64_into(&mut bytes, 0x200, 5);
    u64_into(&mut bytes, 0x208, 0x250);
    u64_into(&mut bytes, 0x210, 10);
    u64_into(&mut bytes, 0x218, 0x10);
    u64_into(&mut bytes, 0x220, 1);
    u64_into(&mut bytes, 0x228, 0);
    u64_into(&mut bytes, 0x230, 0x6fff_fffb);
    u64_into(&mut bytes, 0x238, 0x0800_0000);
    u64_into(&mut bytes, 0x240, 0);
    bytes[0x250..0x25c].copy_from_slice(b"libfoo.so.1\0");

    let binary = parse(&bytes, bytes.len() as u64).unwrap_or_else(|error| panic!("{}", error.message()));
    assert_eq!(binary.dynamic.needed, vec!["libfoo.so.1".to_string()]);
    assert_eq!(binary.mitigations.pie, PieStatus::Pie);
    assert_eq!(binary.mitigations.nx, Hardening::Enabled);
}

#[test]
fn rejects_a_section_table_beyond_the_file() {
    let mut bytes = vec![0_u8; 64];
    bytes[..4].copy_from_slice(b"\x7fELF");
    bytes[4..9].copy_from_slice(&[2, 1, 1, 0, 0]);
    u16_into(&mut bytes, 16, 2);
    u16_into(&mut bytes, 18, 62);
    u32_into(&mut bytes, 20, 1);
    bytes[52..54].copy_from_slice(&64_u16.to_le_bytes());
    bytes[58..60].copy_from_slice(&64_u16.to_le_bytes());
    u16_into(&mut bytes, 60, 65_535);
    u16_into(&mut bytes, 62, 1);
    bytes[40..48].copy_from_slice(&0x100_0000_u64.to_le_bytes());

    assert!(parse(&bytes, 64).is_err());
}

/// A little-endian ELF64 file of 200 bytes with two section headers at 64:
/// section 0 as given, section 1 the one-byte name table at 192.
fn two_section_file(section_type: u32, offset: u64, size: u64, link: u32) -> Vec<u8> {
    let mut bytes = vec![0_u8; 200];
    bytes[..4].copy_from_slice(b"\x7fELF");
    bytes[4..9].copy_from_slice(&[2, 1, 1, 0, 0]);
    u32_into(&mut bytes, 20, 1);
    u64_into(&mut bytes, 40, 64);
    u16_into(&mut bytes, 52, 64);
    u16_into(&mut bytes, 58, 64);
    u16_into(&mut bytes, 60, 2);
    u16_into(&mut bytes, 62, 1);
    u32_into(&mut bytes, 68, section_type);
    u64_into(&mut bytes, 88, offset);
    u64_into(&mut bytes, 96, size);
    u32_into(&mut bytes, 104, link);
    u32_into(&mut bytes, 132, 3);
    u64_into(&mut bytes, 152, 192);
    u64_into(&mut bytes, 160, 1);
    bytes
}

#[test]
fn a_section_outside_the_file_reports_its_range() {
    let bytes = two_section_file(1, 200, 1, 0);
    match parse(&bytes, 200) {
        Err(AppError::Parse(ParseError::OutOfBounds { what, offset, size })) => {
            assert_eq!(what, "section contents");
            assert_eq!(offset, 200);
            assert_eq!(size, 1);
        },
        other => panic!("unexpected outcome: {:?}", other.map(|b| b.sections.len())),
    }
}

#[test]
fn a_dynamic_section_linked_outside_the_table_is_malformed() {
    let bytes = two_section_file(6, 192, 0, 5);
    match parse(&bytes, 200) {
        Err(AppError::Parse(ParseError::Malformed(message))) => {
            assert_eq!(message, "malformed ELF: dynamic string-table index is outside the section table");
        },
        other => panic!("unexpected outcome: {:?}", other.map(|b| b.sections.len())),
    }
}

#[test]
fn a_dynamic_section_of_partial_entries_is_malformed() {
    let bytes = two_section_file(6, 184, 8, 1);
    match parse(&bytes, 200) {
        Err(AppError::Parse(ParseError::Malformed(message))) => {
            assert_eq!(message, "malformed ELF: dynamic table has an invalid entry size");
        },
        other => panic!("unexpected outcome: {:?}", other.map(|b| b.sections.len())),
    }
}

#[test]
fn a_stripped_file_inspects_without_symbols() {
    let bytes = two_section_file(1, 192, 1, 0);
    let binary = parse(&bytes, 200).expect("a file without symbol tables still inspects");
    assert!(binary.symbols.is_empty());
    assert_eq!(binary.sections.len(), 2);
    assert_eq!(binary.hashes.sha256.len(), 64);
}
