use binary_inspector::elf::mitigations::analyze_mitigations;
use binary_inspector::elf::parse;
use binary_inspector::error::{AppError, ParseError};
use binary_inspector::inspect;
use binary_inspector::model::{
    DynamicInfo, ElfClass, ElfHeader, ElfType, Endianness, Hardening, Machine, OsAbi, Symbol, SymbolBinding,
    SymbolTableKind, SymbolType, SymbolVisibility,
};
use binary_inspector::report::{report_human, ReportOptions};
use binary_inspector::text::escape_bytes;

fn header() -> ElfHeader {
    ElfHeader {
        class: ElfClass::Elf64,
        endianness: Endianness::Little,
        elf_type: ElfType::Executable,
        machine: Machine::X86_64,
        os_abi: OsAbi::SystemV,
        abi_version: 0,
        entry_point: 0,
        flags: 0,
        section_offset: 0,
        section_entry_size: 64,
        section_count: 0,
        program_offset: 0,
        program_entry_size: 56,
        program_count: 0,
    }
}

fn import(index: usize, name: &str) -> Symbol {
    Symbol {
        index,
        name: name.to_string(),
        value: 0,
        size: 0,
        sym_type: SymbolType::Func,
        binding: SymbolBinding::Global,
        visibility: SymbolVisibility::Default,
        section_index: None,
        is_import: true,
        is_export: false,
        table: SymbolTableKind::Dynamic,
    }
}

#[test]
fn escaped_text_is_printable_ascii() {
    let all: Vec<u8> = (0..=255).collect();
    let text = escape_bytes(&all);
    assert!(text.chars().all(|c| (' '..='~').contains(&c)));
    assert_eq!(text.len(), 95 - 1 + 4 * (256 - 94));
}

#[test]
fn escaping_is_lossless_and_compositional() {
    assert_ne!(escape_bytes(b"\\x41"), escape_bytes(b"A"));
    assert_ne!(escape_bytes(b"\x41"), escape_bytes(b"\\x41"));
    assert_eq!(escape_bytes(b"a\x00b"), escape_bytes(b"a\x00").to_owned() + &escape_bytes(b"b"));
    assert_eq!(escape_bytes(b"\\"), "\\x5C");
}

#[test]
fn fortify_finding_agrees_with_its_list() {
    let none = analyze_mitigations(&header(), &DynamicInfo::default(), &[], &[import(0, "puts")]);
    assert_eq!(none.fortify, Hardening::Disabled);
    assert!(none.fortified_functions.is_empty());
    let some = analyze_mitigations(
        &header(),
        &DynamicInfo::default(),
        &[],
        &[import(0, "__sprintf_chk"), import(1, "__memcpy_chk@GLIBC_2.3.4"), import(2, "__sprintf_chk")],
    );
    assert_eq!(some.fortify, Hardening::Enabled);
    assert_eq!(some.fortified_functions, vec!["__memcpy_chk".to_string(), "__sprintf_chk".to_string()]);
    let unknown = analyze_mitigations(&header(), &DynamicInfo::default(), &[], &[]);
    assert_eq!(unknown.fortify, Hardening::Unknown);
    assert!(unknown.fortified_functions.is_empty());
}

#[test]
fn inspecting_bytes_reports_their_length() {
    let mut bytes = vec![0_u8; 80];
    bytes[..4].copy_from_slice(b"\x7fELF");
    bytes[4..9].copy_from_slice(&[2, 1, 1, 0, 0]);
    bytes[16..18].copy_from_slice(&3_u16.to_le_bytes());
    bytes[18..20].copy_from_slice(&183_u16.to_le_bytes());
    bytes[20..24].copy_from_slice(&1_u32.to_le_bytes());
    bytes[52..54].copy_from_slice(&64_u16.to_le_bytes());
    let binary = inspect(&bytes).unwrap_or_else(|error| panic!("{}", error.message()));
    assert_eq!(binary.file.size_bytes, 80);
    assert!(matches!(binary.elf.machine, Machine::Aarch64));
    assert!(matches!(binary.elf.elf_type, ElfType::Shared));
    let parsed = parse(&bytes, 80).unwrap_or_else(|error| panic!("{}", error.message()));
    assert_eq!(parsed.hashes.sha256, binary.hashes.sha256);
}

#[test]
fn identifier_failures_are_exact() {
    let too_short = inspect(b"\x7fELF").err();
    assert!(matches!(too_short, Some(AppError::Parse(ParseError::FileTooShort { actual: 4, expected: 16 }))));
    let mut bytes = vec![0_u8; 64];
    bytes[..4].copy_from_slice(b"\x7fELF");
    bytes[4..9].copy_from_slice(&[3, 1, 1, 0, 0]);
    assert!(matches!(inspect(&bytes).err(), Some(AppError::Parse(ParseError::UnsupportedClass(3)))));
    bytes[4] = 1;
    bytes[6] = 2;
    assert!(matches!(inspect(&bytes).err(), Some(AppError::Parse(ParseError::UnsupportedVersion(2)))));
    bytes[6] = 1;
    bytes[5] = 0;
    assert!(matches!(inspect(&bytes).err(), Some(AppError::Parse(ParseError::UnsupportedEndianness(0)))));
    bytes[0] = 0;
    assert!(matches!(inspect(&bytes).err(), Some(AppError::Parse(ParseError::InvalidMagic))));
    for result in [inspect(&[]), inspect(&bytes)] {
        assert_eq!(result.err().map(|e| e.exit_code()), Some(3));
    }
}

#[test]
fn parsed_section_names_are_printable() {
    let mut bytes = vec![0_u8; 200];
    bytes[..4].copy_from_slice(b"\x7fELF");
    bytes[4..9].copy_from_slice(&[2, 1, 1, 0, 0]);
    bytes[20..24].copy_from_slice(&1_u32.to_le_bytes());
    bytes[40..48].copy_from_slice(&64_u64.to_le_bytes());
    bytes[52..54].copy_from_slice(&64_u16.to_le_bytes());
    bytes[58..60].copy_from_slice(&64_u16.to_le_bytes());
    bytes[60..62].copy_from_slice(&2_u16.to_le_bytes());
    bytes[62..64].copy_from_slice(&1_u16.to_le_bytes());
    bytes[128..132].copy_from_slice(&1_u32.to_le_bytes());
    bytes[132..136].copy_from_slice(&3_u32.to_le_bytes());
    bytes[128 + 24..128 + 32].copy_from_slice(&192_u64.to_le_bytes());
    bytes[128 + 32..128 + 40].copy_from_slice(&8_u64.to_le_bytes());
    bytes[192..200].copy_from_slice(b"\0\x07\xe2\x80\xae\x1b\0\0");
    let binary = parse(&bytes, 200).unwrap_or_else(|error| panic!("{}", error.message()));
    assert_eq!(binary.sections[1].name, "\\x07\\xE2\\x80\\xAE\\x1B");
    for section in &binary.sections {
        assert!(section.name.chars().all(|c| (' '..='~').contains(&c)));
    }
    assert!(binary.notes.len() <= 8192);
    assert!(binary.relocations.len() <= 32768);
    assert!(binary.sections[1].entropy_scanned);
}

#[test]
fn reports_of_hostile_files_are_terminal_safe() {
    let mut bytes = vec![0_u8; 200];
    bytes[..4].copy_from_slice(b"\x7fELF");
    bytes[4..9].copy_from_slice(&[2, 1, 1, 0, 0]);
    bytes[20..24].copy_from_slice(&1_u32.to_le_bytes());
    bytes[40..48].copy_from_slice(&64_u64.to_le_bytes());
    bytes[52..54].copy_from_slice(&64_u16.to_le_bytes());
    bytes[58..60].copy_from_slice(&64_u16.to_le_bytes());
    bytes[60..62].copy_from_slice(&2_u16.to_le_bytes());
    bytes[62..64].copy_from_slice(&1_u16.to_le_bytes());
    bytes[128..132].copy_from_slice(&1_u32.to_le_bytes());
    bytes[132..136].copy_from_slice(&3_u32.to_le_bytes());
    bytes[128 + 24..128 + 32].copy_from_slice(&192_u64.to_le_bytes());
    bytes[128 + 32..128 + 40].copy_from_slice(&8_u64.to_le_bytes());
    bytes[192..200].copy_from_slice(b"\0\x1b]0;\x07\n\0");
    let binary = parse(&bytes, 200).unwrap_or_else(|error| panic!("{}", error.message()));
    let options = ReportOptions {
        sections: true,
        segments: true,
        dependencies: true,
        symbols: true,
        mitigations: true,
        notes: true,
        relocations: true,
    };
    let report = report_human(&binary, options);
    assert!(report.chars().all(|c| c == '\n' || (' '..='~').contains(&c)));
    assert!(report.contains("\\x1B]0;\\x07\\x0A"));
}
