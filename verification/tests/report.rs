use binary_inspector::elf::parse;
use binary_inspector::model::{
    Binary, ElfNote, Hardening, PieStatus, Relocation, Relro, SecurityMitigations, Segment, Symbol, SymbolBinding,
    SymbolTableKind, SymbolType, SymbolVisibility,
};
use binary_inspector::report::{format_mitigations, human, report_human, section_flags, segment_flags, ReportOptions};

fn minimal_elf() -> Vec<u8> {
    let mut bytes = vec![0_u8; 64];
    bytes[..4].copy_from_slice(b"\x7fELF");
    bytes[4..9].copy_from_slice(&[2, 1, 1, 0, 0]);
    bytes[16..18].copy_from_slice(&2_u16.to_le_bytes());
    bytes[18..20].copy_from_slice(&62_u16.to_le_bytes());
    bytes[20..24].copy_from_slice(&1_u32.to_le_bytes());
    bytes[24..32].copy_from_slice(&0x401000_u64.to_le_bytes());
    bytes[52..54].copy_from_slice(&64_u16.to_le_bytes());
    bytes
}

fn minimal_binary() -> Binary {
    parse(&minimal_elf(), 64).unwrap_or_else(|error| panic!("{}", error.message()))
}

fn sectioned_binary() -> Binary {
    let mut bytes = vec![0_u8; 200];
    bytes[..4].copy_from_slice(b"\x7fELF");
    bytes[4..9].copy_from_slice(&[2, 1, 1, 0, 0]);
    bytes[20..24].copy_from_slice(&1_u32.to_le_bytes());
    bytes[40..48].copy_from_slice(&64_u64.to_le_bytes());
    bytes[52..54].copy_from_slice(&64_u16.to_le_bytes());
    bytes[58..60].copy_from_slice(&64_u16.to_le_bytes());
    bytes[60..62].copy_from_slice(&2_u16.to_le_bytes());
    bytes[62..64].copy_from_slice(&1_u16.to_le_bytes());
    bytes[128..132].copy_from_slice(&1_u32.to_le_bytes());
    bytes[132..136].copy_from_slice(&3_u32.to_le_bytes());
    bytes[128 + 24..128 + 32].copy_from_slice(&192_u64.to_le_bytes());
    bytes[128 + 32..128 + 40].copy_from_slice(&8_u64.to_le_bytes());
    bytes[192..200].copy_from_slice(b"\0.bad\x1b\0\0");
    parse(&bytes, 200).unwrap_or_else(|error| panic!("{}", error.message()))
}

fn no_categories() -> ReportOptions {
    ReportOptions::default()
}

fn header_of(binary: &Binary) -> String {
    format!(
        "Format: ELF\nFile size: 64 bytes\nSHA-256: {}\nClass: ELF64\nEndianness: little-endian\nType: executable\nMachine: x86-64\nOS ABI: System V\nABI version: 0\nEntry point: 0x401000\nFlags: 0x0\n",
        binary.hashes.sha256
    )
}

fn import(index: usize, name: &str) -> Symbol {
    Symbol {
        index,
        name: name.to_string(),
        value: 0,
        size: 0,
        sym_type: SymbolType::Func,
        binding: SymbolBinding::Global,
        visibility: SymbolVisibility::Default,
        section_index: None,
        is_import: true,
        is_export: false,
        table: SymbolTableKind::Dynamic,
    }
}

#[test]
fn report_without_categories_is_the_identification_block() {
    let binary = minimal_binary();
    assert_eq!(report_human(&binary, no_categories()), header_of(&binary));
}

#[test]
fn report_with_every_category_of_a_minimal_file() {
    let binary = minimal_binary();
    let options = ReportOptions {
        sections: true,
        segments: true,
        dependencies: true,
        symbols: true,
        mitigations: true,
        notes: true,
        relocations: true,
    };
    let expected = header_of(&binary)
        + "\nSecurity Hardening (checksec):\n"
        + "  RELRO:          Unknown (no program headers)\n"
        + "  Stack Canary:   Unknown (no symbol table)\n"
        + "  NX Stack:       Unknown (no PT_GNU_STACK)\n"
        + "  PIE:            No PIE\n"
        + "  Fortify Source: Unknown (no symbol table)\n"
        + "  RWX Segments:   0 (None)\n"
        + "  Insecure RPATH: No\n"
        + "\nSections (0):\n"
        + "\nSegments (0):\n"
        + "\nDependencies:\n  None\n"
        + "\nNotes (0):\n  None\n"
        + "\nSymbols (0 total, 0 imports, 0 exports):\n"
        + "\nRelocations (0):\n";
    assert_eq!(report_human(&binary, options), expected);
}

#[test]
fn legacy_report_shows_only_the_three_named_categories() {
    let binary = minimal_binary();
    let legacy = human(&binary, true, true, true);
    let full = report_human(
        &binary,
        ReportOptions { sections: true, segments: true, dependencies: true, ..ReportOptions::default() },
    );
    assert_eq!(legacy, full);
    assert!(!legacy.contains("Security Hardening"));
    assert_eq!(human(&binary, false, false, false), header_of(&binary));
}

#[test]
fn section_lines_use_fixed_columns() {
    let mut binary = sectioned_binary();
    binary.sections[1].entropy = Some(734);
    let options = ReportOptions { sections: true, ..ReportOptions::default() };
    let report = report_human(&binary, options);
    let first = format!(
        "  [{:>2}] {:<22} type={:<10} flags={:<4} addr={:#010x} offset={:#08x} size={:<8} entropy={}\n",
        0, "", "0x0", "-", 0, 0, 0, "-"
    );
    let second = format!(
        "  [{:>2}] {:<22} type={:<10} flags={:<4} addr={:#010x} offset={:#08x} size={:<8} entropy={}\n",
        1, ".bad\\x1B", "0x3", "-", 0, 192, 8, "7.34"
    );
    assert!(report.ends_with(&format!("\nSections (2):\n{first}{second}")));
}

#[test]
fn entropy_hundredths_render_with_two_decimals() {
    let mut binary = sectioned_binary();
    binary.sections[1].entropy = Some(5);
    let report = report_human(&binary, ReportOptions { sections: true, ..ReportOptions::default() });
    assert!(report.ends_with("entropy=0.05\n"));
}

#[test]
fn segment_lines_use_fixed_columns() {
    let mut binary = minimal_binary();
    binary.segments = vec![Segment {
        index: 3,
        segment_type: 1,
        flags: 5,
        offset: 0x1000,
        virtual_address: 0x401000,
        file_size: 640,
        memory_size: 700,
        alignment: 0x1000,
    }];
    let report = report_human(&binary, ReportOptions { segments: true, ..ReportOptions::default() });
    let line = format!(
        "  [{:>2}] type={:#010x} flags={} offset={:#08x} vaddr={:#010x} filesz={:<8} memsz={:<8} align={:#x}\n",
        3, 1, "RE", 0x1000, 0x401000, 640, 700, 0x1000
    );
    assert!(report.ends_with(&format!("\nSegments (1):\n{line}")));
}

#[test]
fn dependency_block_lists_loader_metadata() {
    let mut binary = minimal_binary();
    binary.dynamic.interpreter = Some("/lib64/ld-linux-x86-64.so.2".to_string());
    binary.dynamic.runpath = Some("$ORIGIN/lib".to_string());
    binary.dynamic.needed = vec!["libc.so.6".to_string(), "libm.so.6".to_string()];
    let report = report_human(&binary, ReportOptions { dependencies: true, ..ReportOptions::default() });
    assert!(report.ends_with(
        "\nDependencies:\n  Interpreter: /lib64/ld-linux-x86-64.so.2\n  RUNPATH: $ORIGIN/lib\n  Needed: libc.so.6\n  Needed: libm.so.6\n"
    ));
}

#[test]
fn notes_block_lists_properties() {
    let mut binary = minimal_binary();
    binary.notes = vec![ElfNote {
        name: "GNU".to_string(),
        note_type: 5,
        description: "GNU properties".to_string(),
        build_id: None,
        abi_tag: None,
        properties: vec!["x86 ISA needed: x86-64-baseline".to_string()],
    }];
    let report = report_human(&binary, ReportOptions { notes: true, ..ReportOptions::default() });
    assert!(report.ends_with("\nNotes (1):\n  [GNU] GNU properties\n    - Property: x86 ISA needed: x86-64-baseline\n"));
}

#[test]
fn symbol_summary_counts_and_truncates() {
    let mut binary = minimal_binary();
    binary.symbols = (0..201).map(|i| import(i, "puts")).collect();
    binary.symbols[1].is_import = false;
    binary.symbols[1].is_export = true;
    let report = report_human(&binary, ReportOptions { symbols: true, ..ReportOptions::default() });
    assert!(report.contains("\nSymbols (201 total, 200 imports, 1 exports):\n"));
    let first = format!(
        "  [{:>4}] {:<32} type={:<10} bind={:<8} vis={:<8} value={:#010x} size={:<6} {}\n",
        0, "puts", "FUNC", "GLOBAL", "DEFAULT", 0, 0, "[import]"
    );
    let second = format!(
        "  [{:>4}] {:<32} type={:<10} bind={:<8} vis={:<8} value={:#010x} size={:<6} {}\n",
        1, "puts", "FUNC", "GLOBAL", "DEFAULT", 0, 0, "[export]"
    );
    assert!(report.contains(&format!("exports):\n{first}{second}")));
    assert!(report.contains("  [ 199] puts"));
    assert!(!report.contains("  [ 200] puts"));
    assert!(report.ends_with("  ... (1 additional symbols omitted from summary)\n"));
}

#[test]
fn relocation_summary_shows_targets() {
    let mut binary = minimal_binary();
    binary.relocations = vec![
        Relocation {
            section_name: ".rela.plt".to_string(),
            offset: 0x4018,
            rel_type: 7,
            symbol_index: 1,
            symbol_name: Some("puts".to_string()),
            addend: Some(0),
        },
        Relocation {
            section_name: ".rela.dyn".to_string(),
            offset: 0x3df0,
            rel_type: 8,
            symbol_index: 0,
            symbol_name: None,
            addend: Some(0x1130),
        },
    ];
    let report = report_human(&binary, ReportOptions { relocations: true, ..ReportOptions::default() });
    let first = format!("  offset={:#010x} type={:<4} sym={:<24} section={}\n", 0x4018, 7, "puts", ".rela.plt");
    let second = format!("  offset={:#010x} type={:<4} sym={:<24} section={}\n", 0x3df0, 8, "<none>", ".rela.dyn");
    assert!(report.ends_with(&format!("\nRelocations (2):\n{first}{second}")));
}

#[test]
fn mitigation_block_reports_each_finding() {
    let mit = SecurityMitigations {
        relro: Relro::Partial,
        stack_canary: Hardening::Disabled,
        nx: Hardening::Disabled,
        pie: PieStatus::Pie,
        fortify: Hardening::Enabled,
        fortified_functions: vec!["__memcpy_chk".to_string(), "__printf_chk".to_string()],
        rwx_segments: 2,
        has_insecure_rpath: true,
    };
    let mut output = String::from("x");
    format_mitigations(&mut output, &mit);
    assert_eq!(
        output,
        "x\nSecurity Hardening (checksec):\n  RELRO:          Partial RELRO\n  Stack Canary:   No (vulnerable)\n  NX Stack:       No (executable stack)\n  PIE:            PIE enabled\n  Fortify Source: Yes (2 functions)\n  RWX Segments:   2 (WARNING: W^X violation)\n  Insecure RPATH: Yes (Warning)\n"
    );
}

#[test]
fn flag_letters_of_sections_and_segments() {
    assert_eq!(section_flags(0), "-");
    assert_eq!(section_flags(0x7), "WAX");
    assert_eq!(section_flags(0x6), "AX");
    assert_eq!(section_flags(0x10), "-");
    assert_eq!(segment_flags(0), "-");
    assert_eq!(segment_flags(5), "RE");
    assert_eq!(segment_flags(6), "RW");
    assert_eq!(segment_flags(7), "RWE");
}
