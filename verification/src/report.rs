//! Deterministic human-readable reporting.

use vstd::prelude::*;
use crate::fmt::{
    decimal, decimal_string, pad_left, pad_right, prefixed_hex, prefixed_hex_string, prefixed_hex_width, push_decimal,
    push_padded_left, push_padded_right, push_prefixed_hex, push_prefixed_hex_width, push_str,
};
use crate::model::{
    binding_label, elf_type_label, machine_label, os_abi_label, pie_label, relro_label, symbol_type_label,
    visibility_label, Binary, DynamicInfo, ElfNote, Hardening, Relocation, Section, SecurityMitigations, Segment, Symbol,
};
use crate::fmt::{decimal_printable, pad_left_printable, pad_right_printable, prefixed_hex_printable};
use crate::model::{finding_labels_printable, header_labels_printable, symbol_labels_printable};
use crate::text::{printable_concat, printable_is_terminal, printable_text, push_char, terminal_concat, terminal_text};

verus! {

/// Options selecting which categories to display in human-readable output.
#[derive(Debug, Clone, Copy, PartialEq, Eq, Structural)]
pub struct ReportOptions {
    /// Show sections.
    pub sections: bool,
    /// Show program segments.
    pub segments: bool,
    /// Show dynamic dependencies and loader metadata.
    pub dependencies: bool,
    /// Show symbols.
    pub symbols: bool,
    /// Show security hardening mitigations.
    pub mitigations: bool,
    /// Show ELF notes and build info.
    pub notes: bool,
    /// Show relocations.
    pub relocations: bool,
}

impl Default for ReportOptions {
    fn default() -> (o: Self)
        ensures
            !o.sections && !o.segments && !o.dependencies && !o.symbols && !o.mitigations && !o.notes && !o.relocations,
    {
        ReportOptions {
            sections: false,
            segments: false,
            dependencies: false,
            symbols: false,
            mitigations: false,
            notes: false,
            relocations: false,
        }
    }
}

/// Rendering of the section flags `W`, `A`, `X`, or `-` when none is set.
pub open spec fn section_flags_text(flags: u64) -> Seq<char> {
    let s = (if flags & 0x1 != 0 { seq!['W'] } else { Seq::empty() }) + (if flags & 0x2 != 0 { seq!['A'] } else { Seq::empty() })
        + (if flags & 0x4 != 0 { seq!['X'] } else { Seq::empty() });
    if s.len() == 0 {
        seq!['-']
    } else {
        s
    }
}

/// Rendering of the segment flags `R`, `W`, `E`, or `-` when none is set.
pub open spec fn segment_flags_text(flags: u32) -> Seq<char> {
    let s = (if flags & 0x4 != 0 { seq!['R'] } else { Seq::empty() }) + (if flags & 0x2 != 0 { seq!['W'] } else { Seq::empty() })
        + (if flags & 0x1 != 0 { seq!['E'] } else { Seq::empty() });
    if s.len() == 0 {
        seq!['-']
    } else {
        s
    }
}

/// Renders section flags.
pub fn section_flags(flags: u64) -> (s: String)
    ensures
        s@ == section_flags_text(flags),
{
    let mut output = String::new();
    if flags & 0x1 != 0 {
        push_char(&mut output, 'W');
    }
    if flags & 0x2 != 0 {
        push_char(&mut output, 'A');
    }
    if flags & 0x4 != 0 {
        push_char(&mut output, 'X');
    }
    if output.as_str().unicode_len() == 0 {
        push_char(&mut output, '-');
    }
    assert(output@ =~= section_flags_text(flags));
    output
}

/// Renders segment flags.
pub fn segment_flags(flags: u32) -> (s: String)
    ensures
        s@ == segment_flags_text(flags),
{
    let mut output = String::new();
    if flags & 0x4 != 0 {
        push_char(&mut output, 'R');
    }
    if flags & 0x2 != 0 {
        push_char(&mut output, 'W');
    }
    if flags & 0x1 != 0 {
        push_char(&mut output, 'E');
    }
    if output.as_str().unicode_len() == 0 {
        push_char(&mut output, '-');
    }
    assert(output@ =~= segment_flags_text(flags));
    output
}

/// Entropy with two decimals, or `-` when it was not computed.
pub open spec fn entropy_text(e: Option<u16>) -> Seq<char> {
    match e {
        Some(h) => decimal((h / 100) as nat) + "."@ + pad_left(decimal((h % 100) as nat), 2, '0'),
        None => "-"@,
    }
}

/// `p` followed by one line of the section table.
pub open spec fn with_section_line(p: Seq<char>, s: Section) -> Seq<char> {
    p + "  ["@ + pad_left(decimal(s.index as nat), 2, ' ') + "] "@ + pad_right(s.name@, 22) + " type="@ + pad_right(
        prefixed_hex(s.section_type as nat),
        10,
    ) + " flags="@ + pad_right(section_flags_text(s.flags), 4) + " addr="@ + prefixed_hex_width(s.address as nat, 10)
        + " offset="@ + prefixed_hex_width(s.offset as nat, 8) + " size="@ + pad_right(decimal(s.size as nat), 8)
        + " entropy="@ + entropy_text(s.entropy) + "\n"@
}

/// `p` followed by one line of the segment table.
pub open spec fn with_segment_line(p: Seq<char>, s: Segment) -> Seq<char> {
    p + "  ["@ + pad_left(decimal(s.index as nat), 2, ' ') + "] type="@ + prefixed_hex_width(s.segment_type as nat, 10)
        + " flags="@ + segment_flags_text(s.flags) + " offset="@ + prefixed_hex_width(s.offset as nat, 8) + " vaddr="@
        + prefixed_hex_width(s.virtual_address as nat, 10) + " filesz="@ + pad_right(decimal(s.file_size as nat), 8)
        + " memsz="@ + pad_right(decimal(s.memory_size as nat), 8) + " align="@ + prefixed_hex(s.alignment as nat)
        + "\n"@
}

/// `p` followed by one line per section.
pub open spec fn with_section_lines(p: Seq<char>, v: Seq<Section>) -> Seq<char>
    decreases v.len(),
{
    if v.len() == 0 {
        p
    } else {
        with_section_line(with_section_lines(p, v.drop_last()), v.last())
    }
}

/// `p` followed by one line per segment.
pub open spec fn with_segment_lines(p: Seq<char>, v: Seq<Segment>) -> Seq<char>
    decreases v.len(),
{
    if v.len() == 0 {
        p
    } else {
        with_segment_line(with_segment_lines(p, v.drop_last()), v.last())
    }
}

/// `p` followed by `label`, the string, and a newline, when the string is present.
pub open spec fn with_optional_line(p: Seq<char>, label: Seq<char>, v: Option<String>) -> Seq<char> {
    match v {
        Some(s) => p + label + s@ + "\n"@,
        None => p,
    }
}

/// `p` followed by one `label` line per string.
pub open spec fn with_labelled_lines(p: Seq<char>, label: Seq<char>, v: Seq<String>) -> Seq<char>
    decreases v.len(),
{
    if v.len() == 0 {
        p
    } else {
        with_labelled_lines(p, label, v.drop_last()) + label + v.last()@ + "\n"@
    }
}

/// `p` followed by the dependency block.
pub open spec fn with_dependencies(p: Seq<char>, d: DynamicInfo) -> Seq<char> {
    let q = with_labelled_lines(
        with_optional_line(
            with_optional_line(with_optional_line(p + "\nDependencies:\n"@, "  Interpreter: "@, d.interpreter), "  RPATH: "@, d.rpath),
            "  RUNPATH: "@,
            d.runpath,
        ),
        "  Needed: "@,
        d.needed@,
    );
    if d.needed@.len() == 0 && d.interpreter is None {
        q + "  None\n"@
    } else {
        q
    }
}

/// `p` followed by one note and its properties.
pub open spec fn with_note(p: Seq<char>, n: ElfNote) -> Seq<char> {
    with_labelled_lines(p + "  ["@ + n.name@ + "] "@ + n.description@ + "\n"@, "    - Property: "@, n.properties@)
}

/// `p` followed by every note.
pub open spec fn with_note_blocks(p: Seq<char>, v: Seq<ElfNote>) -> Seq<char>
    decreases v.len(),
{
    if v.len() == 0 {
        p
    } else {
        with_note(with_note_blocks(p, v.drop_last()), v.last())
    }
}

/// `p` followed by the notes block.
pub open spec fn with_notes(p: Seq<char>, v: Seq<ElfNote>) -> Seq<char> {
    let q = p + "\nNotes ("@ + decimal(v.len()) + "):\n"@;
    if v.len() == 0 {
        q + "  None\n"@
    } else {
        with_note_blocks(q, v)
    }
}

/// The number of imported symbols.
pub open spec fn import_count(v: Seq<Symbol>) -> nat
    decreases v.len(),
{
    if v.len() == 0 {
        0
    } else {
        import_count(v.drop_last()) + if v.last().is_import { 1nat } else { 0 }
    }
}

/// The number of exported symbols.
pub open spec fn export_count(v: Seq<Symbol>) -> nat
    decreases v.len(),
{
    if v.len() == 0 {
        0
    } else {
        export_count(v.drop_last()) + if v.last().is_export { 1nat } else { 0 }
    }
}

/// The import or export marker of a symbol.
pub open spec fn symbol_marker(s: Symbol) -> Seq<char> {
    if s.is_import {
        "[import]"@
    } else if s.is_export {
        "[export]"@
    } else {
        Seq::empty()
    }
}

/// `p` followed by one line of the symbol summary.
pub open spec fn with_symbol_line(p: Seq<char>, s: Symbol) -> Seq<char> {
    p + "  ["@ + pad_left(decimal(s.index as nat), 4, ' ') + "] "@ + pad_right(s.name@, 32) + " type="@ + pad_right(
        symbol_type_label(s.sym_type),
        10,
    ) + " bind="@ + pad_right(binding_label(s.binding), 8) + " vis="@ + pad_right(visibility_label(s.visibility)@, 8)
        + " value="@ + prefixed_hex_width(s.value as nat, 10) + " size="@ + pad_right(decimal(s.size as nat), 6) + " "@
        + symbol_marker(s) + "\n"@
}

/// `p` followed by one line per symbol.
pub open spec fn with_symbol_lines(p: Seq<char>, v: Seq<Symbol>) -> Seq<char>
    decreases v.len(),
{
    if v.len() == 0 {
        p
    } else {
        with_symbol_line(with_symbol_lines(p, v.drop_last()), v.last())
    }
}

/// Entries shown in the symbol and relocation summaries.
pub const SUMMARY_ROWS: usize = 200;

/// The first `SUMMARY_ROWS` elements of `v`.
pub open spec fn summary<T>(v: Seq<T>) -> Seq<T> {
    if v.len() > SUMMARY_ROWS {
        v.take(SUMMARY_ROWS as int)
    } else {
        v
    }
}

/// `p` followed by the symbols block: totals, the first rows, and the number omitted.
pub open spec fn with_symbols(p: Seq<char>, v: Seq<Symbol>) -> Seq<char> {
    let q = with_symbol_lines(
        p + "\nSymbols ("@ + decimal(v.len()) + " total, "@ + decimal(import_count(v))
            + " imports, "@ + decimal(export_count(v)) + " exports):\n"@,
        summary(v),
    );
    if v.len() > SUMMARY_ROWS {
        q + "  ... ("@ + decimal((v.len() - SUMMARY_ROWS) as nat) + " additional symbols omitted from summary)\n"@
    } else {
        q
    }
}

/// The symbol a relocation names, or `<none>`.
pub open spec fn relocation_target(r: Relocation) -> Seq<char> {
    match r.symbol_name {
        Some(n) => n@,
        None => "<none>"@,
    }
}

/// `p` followed by one line of the relocation summary.
pub open spec fn with_relocation_line(p: Seq<char>, r: Relocation) -> Seq<char> {
    p + "  offset="@ + prefixed_hex_width(r.offset as nat, 10) + " type="@ + pad_right(decimal(r.rel_type as nat), 4) + " sym="@
        + pad_right(relocation_target(r), 24) + " section="@ + r.section_name@ + "\n"@
}

/// `p` followed by one line per relocation.
pub open spec fn with_relocation_lines(p: Seq<char>, v: Seq<Relocation>) -> Seq<char>
    decreases v.len(),
{
    if v.len() == 0 {
        p
    } else {
        with_relocation_line(with_relocation_lines(p, v.drop_last()), v.last())
    }
}

/// `p` followed by the relocations block: the count, the first rows, and the number omitted.
pub open spec fn with_relocations(p: Seq<char>, v: Seq<Relocation>) -> Seq<char> {
    let q = with_relocation_lines(p + "\nRelocations ("@ + decimal(v.len()) + "):\n"@, summary(v));
    if v.len() > SUMMARY_ROWS {
        q + "  ... ("@ + decimal((v.len() - SUMMARY_ROWS) as nat) + " additional relocations omitted)\n"@
    } else {
        q
    }
}

/// The stack-canary finding as shown.
pub open spec fn canary_text(h: Hardening) -> &'static str {
    match h {
        Hardening::Enabled => "Yes",
        Hardening::Disabled => "No (vulnerable)",
        Hardening::Unknown => "Unknown (no symbol table)",
    }
}

/// The NX finding as shown.
pub open spec fn nx_text(h: Hardening) -> &'static str {
    match h {
        Hardening::Enabled => "Yes (non-executable)",
        Hardening::Disabled => "No (executable stack)",
        Hardening::Unknown => "Unknown (no PT_GNU_STACK)",
    }
}

/// The fortify finding as shown.
pub open spec fn fortify_text(m: SecurityMitigations) -> Seq<char> {
    match m.fortify {
        Hardening::Enabled => "Yes ("@ + decimal(m.fortified_functions@.len()) + " functions)"@,
        Hardening::Disabled => "No"@,
        Hardening::Unknown => "Unknown (no symbol table)"@,
    }
}

/// The RWX finding as shown.
pub open spec fn rwx_text(n: usize) -> Seq<char> {
    if n == 0 {
        "0 (None)"@
    } else {
        decimal(n as nat) + " (WARNING: W^X violation)"@
    }
}

/// `p` followed by the hardening block.
pub open spec fn with_mitigations(p: Seq<char>, m: SecurityMitigations) -> Seq<char> {
    p + "\nSecurity Hardening (checksec):\n"@ + "  RELRO:          "@ + relro_label(m.relro)@ + "\n"@ + "  Stack Canary:   "@
        + canary_text(m.stack_canary)@ + "\n"@ + "  NX Stack:       "@ + nx_text(m.nx)@ + "\n"@ + "  PIE:            "@
        + pie_label(m.pie)@ + "\n"@ + "  Fortify Source: "@ + fortify_text(m) + "\n"@ + "  RWX Segments:   "@ + rwx_text(
        m.rwx_segments,
    ) + "\n"@ + "  Insecure RPATH: "@ + (if m.has_insecure_rpath { "Yes (Warning)"@ } else { "No"@ }) + "\n"@
}

/// `p` followed by the identification lines every report starts with.
pub open spec fn with_header(p: Seq<char>, b: Binary) -> Seq<char> {
    p + "Format: ELF\n"@ + "File size: "@ + decimal(b.file.size_bytes as nat) + " bytes\n"@ + "SHA-256: "@ + b.hashes.sha256@
        + "\n"@ + "Class: "@ + (if b.elf.class is Elf32 { "ELF32"@ } else { "ELF64"@ }) + "\n"@ + "Endianness: "@ + (
    if b.elf.endianness is Little {
        "little-endian"@
    } else {
        "big-endian"@
    }) + "\n"@ + "Type: "@ + elf_type_label(b.elf.elf_type) + "\n"@ + "Machine: "@ + machine_label(b.elf.machine) + "\n"@
        + "OS ABI: "@ + os_abi_label(b.elf.os_abi) + "\n"@ + "ABI version: "@ + decimal(b.elf.abi_version as nat) + "\n"@
        + "Entry point: "@ + prefixed_hex(b.elf.entry_point as nat) + "\n"@ + "Flags: "@ + prefixed_hex(b.elf.flags as nat)
        + "\n"@
}

/// The complete human-readable report: identification, then each selected
/// category in a fixed order.
pub open spec fn report_text(b: Binary, o: ReportOptions) -> Seq<char> {
    let t0 = with_header(Seq::empty(), b);
    let t1 = if o.mitigations { with_mitigations(t0, b.mitigations) } else { t0 };
    let t2 = if o.sections {
        with_section_lines(t1 + "\nSections ("@ + decimal(b.sections@.len()) + "):\n"@, b.sections@)
    } else {
        t1
    };
    let t3 = if o.segments {
        with_segment_lines(t2 + "\nSegments ("@ + decimal(b.segments@.len()) + "):\n"@, b.segments@)
    } else {
        t2
    };
    let t4 = if o.dependencies { with_dependencies(t3, b.dynamic) } else { t3 };
    let t5 = if o.notes { with_notes(t4, b.notes@) } else { t4 };
    let t6 = if o.symbols { with_symbols(t5, b.symbols@) } else { t5 };
    if o.relocations { with_relocations(t6, b.relocations@) } else { t6 }
}

} // verus!


verus! {

fn push_header(out: &mut String, b: &Binary)
    ensures
        final(out)@ == with_header(old(out)@, *b),
{
    push_str(out, "Format: ELF\n");
    push_str(out, "File size: ");
    push_decimal(out, b.file.size_bytes);
    push_str(out, " bytes\n");
    push_str(out, "SHA-256: ");
    push_str(out, b.hashes.sha256.as_str());
    push_str(out, "\n");
    push_str(out, "Class: ");
    push_str(out, b.elf.class.label());
    push_str(out, "\n");
    push_str(out, "Endianness: ");
    push_str(out, b.elf.endianness.label());
    push_str(out, "\n");
    push_str(out, "Type: ");
    let t = b.elf.elf_type.label();
    push_str(out, t.as_str());
    push_str(out, "\n");
    push_str(out, "Machine: ");
    let m = b.elf.machine.label();
    push_str(out, m.as_str());
    push_str(out, "\n");
    push_str(out, "OS ABI: ");
    let a = b.elf.os_abi.label();
    push_str(out, a.as_str());
    push_str(out, "\n");
    push_str(out, "ABI version: ");
    push_decimal(out, b.elf.abi_version as u64);
    push_str(out, "\n");
    push_str(out, "Entry point: ");
    push_prefixed_hex(out, b.elf.entry_point);
    push_str(out, "\n");
    push_str(out, "Flags: ");
    push_prefixed_hex(out, b.elf.flags as u64);
    push_str(out, "\n");
}

fn canary_str(h: Hardening) -> (s: &'static str)
    ensures
        s == canary_text(h),
{
    match h {
        Hardening::Enabled => "Yes",
        Hardening::Disabled => "No (vulnerable)",
        Hardening::Unknown => "Unknown (no symbol table)",
    }
}

fn nx_str(h: Hardening) -> (s: &'static str)
    ensures
        s == nx_text(h),
{
    match h {
        Hardening::Enabled => "Yes (non-executable)",
        Hardening::Disabled => "No (executable stack)",
        Hardening::Unknown => "Unknown (no PT_GNU_STACK)",
    }
}

fn push_fortify(out: &mut String, m: &SecurityMitigations)
    ensures
        final(out)@ == old(out)@ + fortify_text(*m),
{
    match m.fortify {
        Hardening::Enabled => {
            push_str(out, "Yes (");
            push_decimal(out, m.fortified_functions.len() as u64);
            push_str(out, " functions)");
        },
        Hardening::Disabled => push_str(out, "No"),
        Hardening::Unknown => push_str(out, "Unknown (no symbol table)"),
    }
    assert(final(out)@ =~= old(out)@ + fortify_text(*m));
}

fn push_rwx(out: &mut String, n: usize)
    ensures
        final(out)@ == old(out)@ + rwx_text(n),
{
    if n == 0 {
        push_str(out, "0 (None)");
    } else {
        push_decimal(out, n as u64);
        push_str(out, " (WARNING: W^X violation)");
    }
    assert(final(out)@ =~= old(out)@ + rwx_text(n));
}

/// Appends the security hardening block.
pub fn format_mitigations(output: &mut String, mit: &SecurityMitigations)
    ensures
        final(output)@ == with_mitigations(old(output)@, *mit),
{
    push_str(output, "\nSecurity Hardening (checksec):\n");
    push_str(output, "  RELRO:          ");
    push_str(output, mit.relro.label());
    push_str(output, "\n");
    push_str(output, "  Stack Canary:   ");
    push_str(output, canary_str(mit.stack_canary));
    push_str(output, "\n");
    push_str(output, "  NX Stack:       ");
    push_str(output, nx_str(mit.nx));
    push_str(output, "\n");
    push_str(output, "  PIE:            ");
    push_str(output, mit.pie.label());
    push_str(output, "\n");
    push_str(output, "  Fortify Source: ");
    push_fortify(output, mit);
    push_str(output, "\n");
    push_str(output, "  RWX Segments:   ");
    push_rwx(output, mit.rwx_segments);
    push_str(output, "\n");
    push_str(output, "  Insecure RPATH: ");
    if mit.has_insecure_rpath {
        push_str(output, "Yes (Warning)");
    } else {
        push_str(output, "No");
    }
    push_str(output, "\n");
}

fn push_entropy(out: &mut String, e: Option<u16>)
    ensures
        final(out)@ == old(out)@ + entropy_text(e),
{
    match e {
        Some(h) => {
            push_decimal(out, (h / 100) as u64);
            push_str(out, ".");
            let frac = decimal_string((h % 100) as u64);
            push_padded_left(out, frac.as_str(), 2, '0');
        },
        None => push_str(out, "-"),
    }
    assert(final(out)@ =~= old(out)@ + entropy_text(e));
}

fn push_section_line(out: &mut String, s: &Section)
    ensures
        final(out)@ == with_section_line(old(out)@, *s),
{
    push_str(out, "  [");
    let index = decimal_string(s.index as u64);
    push_padded_left(out, index.as_str(), 2, ' ');
    push_str(out, "] ");
    push_padded_right(out, s.name.as_str(), 22);
    push_str(out, " type=");
    let section_type = prefixed_hex_string(s.section_type as u64);
    push_padded_right(out, section_type.as_str(), 10);
    push_str(out, " flags=");
    let flags = section_flags(s.flags);
    push_padded_right(out, flags.as_str(), 4);
    push_str(out, " addr=");
    push_prefixed_hex_width(out, s.address, 10);
    push_str(out, " offset=");
    push_prefixed_hex_width(out, s.offset, 8);
    push_str(out, " size=");
    let size = decimal_string(s.size);
    push_padded_right(out, size.as_str(), 8);
    push_str(out, " entropy=");
    push_entropy(out, s.entropy);
    push_str(out, "\n");
}

fn push_section_lines(out: &mut String, v: &Vec<Section>)
    ensures
        final(out)@ == with_section_lines(old(out)@, v@),
{
    let mut i: usize = 0;
    while i < v.len()
        invariant
            i <= v@.len(),
            out@ == with_section_lines(old(out)@, v@.take(i as int)),
        decreases v@.len() - i,
    {
        assert(v@.take(i + 1).drop_last() =~= v@.take(i as int));
        push_section_line(out, &v[i]);
        i = i + 1;
    }
    assert(v@.take(v@.len() as int) =~= v@);
}

fn push_segment_line(out: &mut String, s: &Segment)
    ensures
        final(out)@ == with_segment_line(old(out)@, *s),
{
    push_str(out, "  [");
    let index = decimal_string(s.index as u64);
    push_padded_left(out, index.as_str(), 2, ' ');
    push_str(out, "] type=");
    push_prefixed_hex_width(out, s.segment_type as u64, 10);
    push_str(out, " flags=");
    let flags = segment_flags(s.flags);
    push_str(out, flags.as_str());
    push_str(out, " offset=");
    push_prefixed_hex_width(out, s.offset, 8);
    push_str(out, " vaddr=");
    push_prefixed_hex_width(out, s.virtual_address, 10);
    push_str(out, " filesz=");
    let file_size = decimal_string(s.file_size);
    push_padded_right(out, file_size.as_str(), 8);
    push_str(out, " memsz=");
    let memory_size = decimal_string(s.memory_size);
    push_padded_right(out, memory_size.as_str(), 8);
    push_str(out, " align=");
    push_prefixed_hex(out, s.alignment);
    push_str(out, "\n");
}

fn push_segment_lines(out: &mut String, v: &Vec<Segment>)
    ensures
        final(out)@ == with_segment_lines(old(out)@, v@),
{
    let mut i: usize = 0;
    while i < v.len()
        invariant
            i <= v@.len(),
            out@ == with_segment_lines(old(out)@, v@.take(i as int)),
        decreases v@.len() - i,
    {
        assert(v@.take(i + 1).drop_last() =~= v@.take(i as int));
        push_segment_line(out, &v[i]);
        i = i + 1;
    }
    assert(v@.take(v@.len() as int) =~= v@);
}

fn push_optional_line(out: &mut String, label: &str, v: &Option<String>)
    ensures
        final(out)@ == with_optional_line(old(out)@, label@, *v),
{
    if let Some(s) = v {
        push_str(out, label);
        push_str(out, s.as_str());
        push_str(out, "\n");
    }
}

fn push_labelled_lines(out: &mut String, label: &str, v: &Vec<String>)
    ensures
        final(out)@ == with_labelled_lines(old(out)@, label@, v@),
{
    let mut i: usize = 0;
    while i < v.len()
        invariant
            i <= v@.len(),
            out@ == with_labelled_lines(old(out)@, label@, v@.take(i as int)),
        decreases v@.len() - i,
    {
        assert(v@.take(i + 1).drop_last() =~= v@.take(i as int));
        push_str(out, label);
        push_str(out, v[i].as_str());
        push_str(out, "\n");
        i = i + 1;
    }
    assert(v@.take(v@.len() as int) =~= v@);
}

fn push_dependencies(out: &mut String, d: &DynamicInfo)
    ensures
        final(out)@ == with_dependencies(old(out)@, *d),
{
    push_str(out, "\nDependencies:\n");
    push_optional_line(out, "  Interpreter: ", &d.interpreter);
    push_optional_line(out, "  RPATH: ", &d.rpath);
    push_optional_line(out, "  RUNPATH: ", &d.runpath);
    push_labelled_lines(out, "  Needed: ", &d.needed);
    if d.needed.len() == 0 && d.interpreter.is_none() {
        push_str(out, "  None\n");
    }
}

fn push_note(out: &mut String, n: &ElfNote)
    ensures
        final(out)@ == with_note(old(out)@, *n),
{
    push_str(out, "  [");
    push_str(out, n.name.as_str());
    push_str(out, "] ");
    push_str(out, n.description.as_str());
    push_str(out, "\n");
    push_labelled_lines(out, "    - Property: ", &n.properties);
}

fn push_notes(out: &mut String, v: &Vec<ElfNote>)
    ensures
        final(out)@ == with_notes(old(out)@, v@),
{
    push_str(out, "\nNotes (");
    push_decimal(out, v.len() as u64);
    push_str(out, "):\n");
    if v.len() == 0 {
        push_str(out, "  None\n");
    } else {
        let ghost q = out@;
        let mut i: usize = 0;
        while i < v.len()
            invariant
                i <= v@.len(),
                out@ == with_note_blocks(q, v@.take(i as int)),
            decreases v@.len() - i,
        {
            assert(v@.take(i + 1).drop_last() =~= v@.take(i as int));
            push_note(out, &v[i]);
            i = i + 1;
        }
        assert(v@.take(v@.len() as int) =~= v@);
    }
}

fn push_symbol_line(out: &mut String, s: &Symbol)
    ensures
        final(out)@ == with_symbol_line(old(out)@, *s),
{
    push_str(out, "  [");
    let index = decimal_string(s.index as u64);
    push_padded_left(out, index.as_str(), 4, ' ');
    push_str(out, "] ");
    push_padded_right(out, s.name.as_str(), 32);
    push_str(out, " type=");
    let sym_type = s.sym_type.label();
    push_padded_right(out, sym_type.as_str(), 10);
    push_str(out, " bind=");
    let binding = s.binding.label();
    push_padded_right(out, binding.as_str(), 8);
    push_str(out, " vis=");
    push_padded_right(out, s.visibility.label(), 8);
    push_str(out, " value=");
    push_prefixed_hex_width(out, s.value, 10);
    push_str(out, " size=");
    let size = decimal_string(s.size);
    push_padded_right(out, size.as_str(), 6);
    push_str(out, " ");
    if s.is_import {
        push_str(out, "[import]");
    } else if s.is_export {
        push_str(out, "[export]");
    } else {
        assert(out@ =~= out@ + symbol_marker(*s));
    }
    push_str(out, "\n");
}

fn count_imports_exports(v: &Vec<Symbol>) -> (r: (usize, usize))
    ensures
        r.0 == import_count(v@),
        r.1 == export_count(v@),
{
    let mut imports: usize = 0;
    let mut exports: usize = 0;
    let mut i: usize = 0;
    while i < v.len()
        invariant
            i <= v@.len(),
            imports == import_count(v@.take(i as int)),
            exports == export_count(v@.take(i as int)),
            imports <= i,
            exports <= i,
        decreases v@.len() - i,
    {
        assert(v@.take(i + 1).drop_last() =~= v@.take(i as int));
        if v[i].is_import {
            imports = imports + 1;
        }
        if v[i].is_export {
            exports = exports + 1;
        }
        i = i + 1;
    }
    assert(v@.take(v@.len() as int) =~= v@);
    (imports, exports)
}

fn push_symbols(out: &mut String, v: &Vec<Symbol>)
    ensures
        final(out)@ == with_symbols(old(out)@, v@),
{
    let (imports, exports) = count_imports_exports(v);
    push_str(out, "\nSymbols (");
    push_decimal(out, v.len() as u64);
    push_str(out, " total, ");
    push_decimal(out, imports as u64);
    push_str(out, " imports, ");
    push_decimal(out, exports as u64);
    push_str(out, " exports):\n");
    let ghost q = out@;
    let rows = if v.len() > SUMMARY_ROWS { SUMMARY_ROWS } else { v.len() };
    let ghost shown = summary(v@);
    assert(shown =~= v@.take(rows as int));
    let mut i: usize = 0;
    while i < rows
        invariant
            i <= rows,
            rows <= v@.len(),
            shown == v@.take(rows as int),
            out@ == with_symbol_lines(q, shown.take(i as int)),
        decreases rows - i,
    {
        assert(shown.take(i + 1).drop_last() =~= shown.take(i as int));
        push_symbol_line(out, &v[i]);
        i = i + 1;
    }
    assert(shown.take(rows as int) =~= shown);
    if v.len() > SUMMARY_ROWS {
        push_str(out, "  ... (");
        push_decimal(out, (v.len() - SUMMARY_ROWS) as u64);
        push_str(out, " additional symbols omitted from summary)\n");
    }
}

fn push_relocation_line(out: &mut String, r: &Relocation)
    ensures
        final(out)@ == with_relocation_line(old(out)@, *r),
{
    push_str(out, "  offset=");
    push_prefixed_hex_width(out, r.offset, 10);
    push_str(out, " type=");
    let rel_type = decimal_string(r.rel_type as u64);
    push_padded_right(out, rel_type.as_str(), 4);
    push_str(out, " sym=");
    match &r.symbol_name {
        Some(n) => push_padded_right(out, n.as_str(), 24),
        None => push_padded_right(out, "<none>", 24),
    }
    push_str(out, " section=");
    push_str(out, r.section_name.as_str());
    push_str(out, "\n");
}

fn push_relocations(out: &mut String, v: &Vec<Relocation>)
    ensures
        final(out)@ == with_relocations(old(out)@, v@),
{
    push_str(out, "\nRelocations (");
    push_decimal(out, v.len() as u64);
    push_str(out, "):\n");
    let ghost q = out@;
    let rows = if v.len() > SUMMARY_ROWS { SUMMARY_ROWS } else { v.len() };
    let ghost shown = summary(v@);
    assert(shown =~= v@.take(rows as int));
    let mut i: usize = 0;
    while i < rows
        invariant
            i <= rows,
            rows <= v@.len(),
            shown == v@.take(rows as int),
            out@ == with_relocation_lines(q, shown.take(i as int)),
        decreases rows - i,
    {
        assert(shown.take(i + 1).drop_last() =~= shown.take(i as int));
        push_relocation_line(out, &v[i]);
        i = i + 1;
    }
    assert(shown.take(rows as int) =~= shown);
    if v.len() > SUMMARY_ROWS {
        push_str(out, "  ... (");
        push_decimal(out, (v.len() - SUMMARY_ROWS) as u64);
        push_str(out, " additional relocations omitted)\n");
    }
}

/// Formats a comprehensive human-readable report: the identification lines,
/// then each category that `options` selects, in a fixed order.
pub fn report_human(binary: &Binary, options: ReportOptions) -> (output: String)
    ensures
        output@ == report_text(*binary, options),
{
    let mut output = String::new();
    push_header(&mut output, binary);
    if options.mitigations {
        format_mitigations(&mut output, &binary.mitigations);
    }
    if options.sections {
        push_str(&mut output, "\nSections (");
        push_decimal(&mut output, binary.sections.len() as u64);
        push_str(&mut output, "):\n");
        push_section_lines(&mut output, &binary.sections);
    }
    if options.segments {
        push_str(&mut output, "\nSegments (");
        push_decimal(&mut output, binary.segments.len() as u64);
        push_str(&mut output, "):\n");
        push_segment_lines(&mut output, &binary.segments);
    }
    if options.dependencies {
        push_dependencies(&mut output, &binary.dynamic);
    }
    if options.notes {
        push_notes(&mut output, &binary.notes);
    }
    if options.symbols {
        push_symbols(&mut output, &binary.symbols);
    }
    if options.relocations {
        push_relocations(&mut output, &binary.relocations);
    }
    output
}

/// The options of the legacy report: the three given categories and no other.
pub open spec fn legacy_options(sections: bool, segments: bool, dependencies: bool) -> ReportOptions {
    ReportOptions {
        sections,
        segments,
        dependencies,
        symbols: false,
        mitigations: false,
        notes: false,
        relocations: false,
    }
}

/// Formats the legacy human-readable report for backwards compatibility.
pub fn human(binary: &Binary, sections: bool, segments: bool, dependencies: bool) -> (output: String)
    ensures
        output@ == report_text(*binary, legacy_options(sections, segments, dependencies)),
{
    report_human(
        binary,
        ReportOptions {
            sections,
            segments,
            dependencies,
            symbols: false,
            mitigations: false,
            notes: false,
            relocations: false,
        },
    )
}

} // verus!

verus! {

/// The texts of a result that came from the inspected file (names, paths,
/// note texts) and its digest are printable.
pub open spec fn file_texts_printable(b: Binary) -> bool {
    &&& printable_text(b.hashes.sha256@)
    &&& forall|i: int| 0 <= i < b.sections@.len() ==> printable_text(#[trigger] b.sections@[i].name@)
    &&& (b.dynamic.interpreter matches Some(x) ==> printable_text(x@))
    &&& (b.dynamic.rpath matches Some(x) ==> printable_text(x@))
    &&& (b.dynamic.runpath matches Some(x) ==> printable_text(x@))
    &&& forall|i: int| 0 <= i < b.dynamic.needed@.len() ==> printable_text(#[trigger] b.dynamic.needed@[i]@)
    &&& forall|i: int| 0 <= i < b.notes@.len() ==> note_texts_printable(#[trigger] b.notes@[i])
    &&& forall|i: int| 0 <= i < b.symbols@.len() ==> printable_text(#[trigger] b.symbols@[i].name@)
    &&& forall|i: int| 0 <= i < b.relocations@.len() ==> relocation_texts_printable(#[trigger] b.relocations@[i])
}

/// The owner, summary and properties of a note are printable.
pub open spec fn note_texts_printable(n: ElfNote) -> bool {
    &&& printable_text(n.name@)
    &&& printable_text(n.description@)
    &&& forall|j: int| 0 <= j < n.properties@.len() ==> printable_text(#[trigger] n.properties@[j]@)
}

/// The section and symbol names a relocation carries are printable.
pub open spec fn relocation_texts_printable(r: Relocation) -> bool {
    &&& printable_text(r.section_name@)
    &&& (r.symbol_name matches Some(x) ==> printable_text(x@))
}

proof fn lemma_header_terminal(p: Seq<char>, b: Binary)
    requires
        terminal_text(p),
        printable_text(b.hashes.sha256@),
    ensures
        terminal_text(with_header(p, b)),
{
    header_labels_printable(b.elf);
    assert(terminal_text("Format: ELF\n"@)) by { reveal_strlit("Format: ELF\n"); }
    assert(terminal_text("File size: "@)) by { reveal_strlit("File size: "); }
    decimal_printable(b.file.size_bytes as nat); printable_is_terminal(decimal(b.file.size_bytes as nat));
    assert(terminal_text(" bytes\n"@)) by { reveal_strlit(" bytes\n"); }
    assert(terminal_text("SHA-256: "@)) by { reveal_strlit("SHA-256: "); }
    printable_is_terminal(b.hashes.sha256@);
    assert(terminal_text("\n"@)) by { reveal_strlit("\n"); }
    assert(terminal_text("Class: "@)) by { reveal_strlit("Class: "); }
    printable_is_terminal((if b.elf.class is Elf32 { "ELF32"@ } else { "ELF64"@ }));
    assert(terminal_text("\n"@)) by { reveal_strlit("\n"); }
    assert(terminal_text("Endianness: "@)) by { reveal_strlit("Endianness: "); }
    printable_is_terminal((if b.elf.endianness is Little { "little-endian"@ } else { "big-endian"@ }));
    assert(terminal_text("\n"@)) by { reveal_strlit("\n"); }
    assert(terminal_text("Type: "@)) by { reveal_strlit("Type: "); }
    printable_is_terminal(elf_type_label(b.elf.elf_type));
    assert(terminal_text("\n"@)) by { reveal_strlit("\n"); }
    assert(terminal_text("Machine: "@)) by { reveal_strlit("Machine: "); }
    printable_is_terminal(machine_label(b.elf.machine));
    assert(terminal_text("\n"@)) by { reveal_strlit("\n"); }
    assert(terminal_text("OS ABI: "@)) by { reveal_strlit("OS ABI: "); }
    printable_is_terminal(os_abi_label(b.elf.os_abi));
    assert(terminal_text("\n"@)) by { reveal_strlit("\n"); }
    assert(terminal_text("ABI version: "@)) by { reveal_strlit("ABI version: "); }
    decimal_printable(b.elf.abi_version as nat); printable_is_terminal(decimal(b.elf.abi_version as nat));
    assert(terminal_text("\n"@)) by { reveal_strlit("\n"); }
    assert(terminal_text("Entry point: "@)) by { reveal_strlit("Entry point: "); }
    prefixed_hex_printable(b.elf.entry_point as nat, 0); printable_is_terminal(prefixed_hex(b.elf.entry_point as nat));
    assert(terminal_text("\n"@)) by { reveal_strlit("\n"); }
    assert(terminal_text("Flags: "@)) by { reveal_strlit("Flags: "); }
    prefixed_hex_printable(b.elf.flags as nat, 0); printable_is_terminal(prefixed_hex(b.elf.flags as nat));
    assert(terminal_text("\n"@)) by { reveal_strlit("\n"); }
    terminal_concat(p, "Format: ELF\n"@);
    terminal_concat(p + "Format: ELF\n"@, "File size: "@);
    terminal_concat(p + "Format: ELF\n"@ + "File size: "@, decimal(b.file.size_bytes as nat));
    terminal_concat(p + "Format: ELF\n"@ + "File size: "@ + decimal(b.file.size_bytes as nat), " bytes\n"@);
    terminal_concat(p + "Format: ELF\n"@ + "File size: "@ + decimal(b.file.size_bytes as nat) + " bytes\n"@, "SHA-256: "@);
    terminal_concat(p + "Format: ELF\n"@ + "File size: "@ + decimal(b.file.size_bytes as nat) + " bytes\n"@ + "SHA-256: "@, b.hashes.sha256@);
    terminal_concat(p + "Format: ELF\n"@ + "File size: "@ + decimal(b.file.size_bytes as nat) + " bytes\n"@ + "SHA-256: "@ + b.hashes.sha256@, "\n"@);
    terminal_concat(p + "Format: ELF\n"@ + "File size: "@ + decimal(b.file.size_bytes as nat) + " bytes\n"@ + "SHA-256: "@ + b.hashes.sha256@ + "\n"@, "Class: "@);
    terminal_concat(p + "Format: ELF\n"@ + "File size: "@ + decimal(b.file.size_bytes as nat) + " bytes\n"@ + "SHA-256: "@ + b.hashes.sha256@ + "\n"@ + "Class: "@, (if b.elf.class is Elf32 { "ELF32"@ } else { "ELF64"@ }));
    terminal_concat(p + "Format: ELF\n"@ + "File size: "@ + decimal(b.file.size_bytes as nat) + " bytes\n"@ + "SHA-256: "@ + b.hashes.sha256@ + "\n"@ + "Class: "@ + (if b.elf.class is Elf32 { "ELF32"@ } else { "ELF64"@ }), "\n"@);
    terminal_concat(p + "Format: ELF\n"@ + "File size: "@ + decimal(b.file.size_bytes as nat) + " bytes\n"@ + "SHA-256: "@ + b.hashes.sha256@ + "\n"@ + "Class: "@ + (if b.elf.class is Elf32 { "ELF32"@ } else { "ELF64"@ }) + "\n"@, "Endianness: "@);
    terminal_concat(p + "Format: ELF\n"@ + "File size: "@ + decimal(b.file.size_bytes as nat) + " bytes\n"@ + "SHA-256: "@ + b.hashes.sha256@ + "\n"@ + "Class: "@ + (if b.elf.class is Elf32 { "ELF32"@ } else { "ELF64"@ }) + "\n"@ + "Endianness: "@, (if b.elf.endianness is Little { "little-endian"@ } else { "big-endian"@ }));
    terminal_concat(p + "Format: ELF\n"@ + "File size: "@ + decimal(b.file.size_bytes as nat) + " bytes\n"@ + "SHA-256: "@ + b.hashes.sha256@ + "\n"@ + "Class: "@ + (if b.elf.class is Elf32 { "ELF32"@ } else { "ELF64"@ }) + "\n"@ + "Endianness: "@ + (if b.elf.endianness is Little { "little-endian"@ } else { "big-endian"@ }), "\n"@);
    terminal_concat(p + "Format: ELF\n"@ + "File size: "@ + decimal(b.file.size_bytes as nat) + " bytes\n"@ + "SHA-256: "@ + b.hashes.sha256@ + "\n"@ + "Class: "@ + (if b.elf.class is Elf32 { "ELF32"@ } else { "ELF64"@ }) + "\n"@ + "Endianness: "@ + (if b.elf.endianness is Little { "little-endian"@ } else { "big-endian"@ }) + "\n"@, "Type: "@);
    terminal_concat(p + "Format: ELF\n"@ + "File size: "@ + decimal(b.file.size_bytes as nat) + " bytes\n"@ + "SHA-256: "@ + b.hashes.sha256@ + "\n"@ + "Class: "@ + (if b.elf.class is Elf32 { "ELF32"@ } else { "ELF64"@ }) + "\n"@ + "Endianness: "@ + (if b.elf.endianness is Little { "little-endian"@ } else { "big-endian"@ }) + "\n"@ + "Type: "@, elf_type_label(b.elf.elf_type));
    terminal_concat(p + "Format: ELF\n"@ + "File size: "@ + decimal(b.file.size_bytes as nat) + " bytes\n"@ + "SHA-256: "@ + b.hashes.sha256@ + "\n"@ + "Class: "@ + (if b.elf.class is Elf32 { "ELF32"@ } else { "ELF64"@ }) + "\n"@ + "Endianness: "@ + (if b.elf.endianness is Little { "little-endian"@ } else { "big-endian"@ }) + "\n"@ + "Type: "@ + elf_type_label(b.elf.elf_type), "\n"@);
    terminal_concat(p + "Format: ELF\n"@ + "File size: "@ + decimal(b.file.size_bytes as nat) + " bytes\n"@ + "SHA-256: "@ + b.hashes.sha256@ + "\n"@ + "Class: "@ + (if b.elf.class is Elf32 { "ELF32"@ } else { "ELF64"@ }) + "\n"@ + "Endianness: "@ + (if b.elf.endianness is Little { "little-endian"@ } else { "big-endian"@ }) + "\n"@ + "Type: "@ + elf_type_label(b.elf.elf_type) + "\n"@, "Machine: "@);
    terminal_concat(p + "Format: ELF\n"@ + "File size: "@ + decimal(b.file.size_bytes as nat) + " bytes\n"@ + "SHA-256: "@ + b.hashes.sha256@ + "\n"@ + "Class: "@ + (if b.elf.class is Elf32 { "ELF32"@ } else { "ELF64"@ }) + "\n"@ + "Endianness: "@ + (if b.elf.endianness is Little { "little-endian"@ } else { "big-endian"@ }) + "\n"@ + "Type: "@ + elf_type_label(b.elf.elf_type) + "\n"@ + "Machine: "@, machine_label(b.elf.machine));
    terminal_concat(p + "Format: ELF\n"@ + "File size: "@ + decimal(b.file.size_bytes as nat) + " bytes\n"@ + "SHA-256: "@ + b.hashes.sha256@ + "\n"@ + "Class: "@ + (if b.elf.class is Elf32 { "ELF32"@ } else { "ELF64"@ }) + "\n"@ + "Endianness: "@ + (if b.elf.endianness is Little { "little-endian"@ } else { "big-endian"@ }) + "\n"@ + "Type: "@ + elf_type_label(b.elf.elf_type) + "\n"@ + "Machine: "@ + machine_label(b.elf.machine), "\n"@);
    terminal_concat(p + "Format: ELF\n"@ + "File size: "@ + decimal(b.file.size_bytes as nat) + " bytes\n"@ + "SHA-256: "@ + b.hashes.sha256@ + "\n"@ + "Class: "@ + (if b.elf.class is Elf32 { "ELF32"@ } else { "ELF64"@ }) + "\n"@ + "Endianness: "@ + (if b.elf.endianness is Little { "little-endian"@ } else { "big-endian"@ }) + "\n"@ + "Type: "@ + elf_type_label(b.elf.elf_type) + "\n"@ + "Machine: "@ + machine_label(b.elf.machine) + "\n"@, "OS ABI: "@);
    terminal_concat(p + "Format: ELF\n"@ + "File size: "@ + decimal(b.file.size_bytes as nat) + " bytes\n"@ + "SHA-256: "@ + b.hashes.sha256@ + "\n"@ + "Class: "@ + (if b.elf.class is Elf32 { "ELF32"@ } else { "ELF64"@ }) + "\n"@ + "Endianness: "@ + (if b.elf.endianness is Little { "little-endian"@ } else { "big-endian"@ }) + "\n"@ + "Type: "@ + elf_type_label(b.elf.elf_type) + "\n"@ + "Machine: "@ + machine_label(b.elf.machine) + "\n"@ + "OS ABI: "@, os_abi_label(b.elf.os_abi));
    terminal_concat(p + "Format: ELF\n"@ + "File size: "@ + decimal(b.file.size_bytes as nat) + " bytes\n"@ + "SHA-256: "@ + b.hashes.sha256@ + "\n"@ + "Class: "@ + (if b.elf.class is Elf32 { "ELF32"@ } else { "ELF64"@ }) + "\n"@ + "Endianness: "@ + (if b.elf.endianness is Little { "little-endian"@ } else { "big-endian"@ }) + "\n"@ + "Type: "@ + elf_type_label(b.elf.elf_type) + "\n"@ + "Machine: "@ + machine_label(b.elf.machine) + "\n"@ + "OS ABI: "@ + os_abi_label(b.elf.os_abi), "\n"@);
    terminal_concat(p + "Format: ELF\n"@ + "File size: "@ + decimal(b.file.size_bytes as nat) + " bytes\n"@ + "SHA-256: "@ + b.hashes.sha256@ + "\n"@ + "Class: "@ + (if b.elf.class is Elf32 { "ELF32"@ } else { "ELF64"@ }) + "\n"@ + "Endianness: "@ + (if b.elf.endianness is Little { "little-endian"@ } else { "big-endian"@ }) + "\n"@ + "Type: "@ + elf_type_label(b.elf.elf_type) + "\n"@ + "Machine: "@ + machine_label(b.elf.machine) + "\n"@ + "OS ABI: "@ + os_abi_label(b.elf.os_abi) + "\n"@, "ABI version: "@);
    terminal_concat(p + "Format: ELF\n"@ + "File size: "@ + decimal(b.file.size_bytes as nat) + " bytes\n"@ + "SHA-256: "@ + b.hashes.sha256@ + "\n"@ + "Class: "@ + (if b.elf.class is Elf32 { "ELF32"@ } else { "ELF64"@ }) + "\n"@ + "Endianness: "@ + (if b.elf.endianness is Little { "little-endian"@ } else { "big-endian"@ }) + "\n"@ + "Type: "@ + elf_type_label(b.elf.elf_type) + "\n"@ + "Machine: "@ + machine_label(b.elf.machine) + "\n"@ + "OS ABI: "@ + os_abi_label(b.elf.os_abi) + "\n"@ + "ABI version: "@, decimal(b.elf.abi_version as nat));
    terminal_concat(p + "Format: ELF\n"@ + "File size: "@ + decimal(b.file.size_bytes as nat) + " bytes\n"@ + "SHA-256: "@ + b.hashes.sha256@ + "\n"@ + "Class: "@ + (if b.elf.class is Elf32 { "ELF32"@ } else { "ELF64"@ }) + "\n"@ + "Endianness: "@ + (if b.elf.endianness is Little { "little-endian"@ } else { "big-endian"@ }) + "\n"@ + "Type: "@ + elf_type_label(b.elf.elf_type) + "\n"@ + "Machine: "@ + machine_label(b.elf.machine) + "\n"@ + "OS ABI: "@ + os_abi_label(b.elf.os_abi) + "\n"@ + "ABI version: "@ + decimal(b.elf.abi_version as nat), "\n"@);
    terminal_concat(p + "Format: ELF\n"@ + "File size: "@ + decimal(b.file.size_bytes as nat) + " bytes\n"@ + "SHA-256: "@ + b.hashes.sha256@ + "\n"@ + "Class: "@ + (if b.elf.class is Elf32 { "ELF32"@ } else { "ELF64"@ }) + "\n"@ + "Endianness: "@ + (if b.elf.endianness is Little { "little-endian"@ } else { "big-endian"@ }) + "\n"@ + "Type: "@ + elf_type_label(b.elf.elf_type) + "\n"@ + "Machine: "@ + machine_label(b.elf.machine) + "\n"@ + "OS ABI: "@ + os_abi_label(b.elf.os_abi) + "\n"@ + "ABI version: "@ + decimal(b.elf.abi_version as nat) + "\n"@, "Entry point: "@);
    terminal_concat(p + "Format: ELF\n"@ + "File size: "@ + decimal(b.file.size_bytes as nat) + " bytes\n"@ + "SHA-256: "@ + b.hashes.sha256@ + "\n"@ + "Class: "@ + (if b.elf.class is Elf32 { "ELF32"@ } else { "ELF64"@ }) + "\n"@ + "Endianness: "@ + (if b.elf.endianness is Little { "little-endian"@ } else { "big-endian"@ }) + "\n"@ + "Type: "@ + elf_type_label(b.elf.elf_type) + "\n"@ + "Machine: "@ + machine_label(b.elf.machine) + "\n"@ + "OS ABI: "@ + os_abi_label(b.elf.os_abi) + "\n"@ + "ABI version: "@ + decimal(b.elf.abi_version as nat) + "\n"@ + "Entry point: "@, prefixed_hex(b.elf.entry_point as nat));
    terminal_concat(p + "Format: ELF\n"@ + "File size: "@ + decimal(b.file.size_bytes as nat) + " bytes\n"@ + "SHA-256: "@ + b.hashes.sha256@ + "\n"@ + "Class: "@ + (if b.elf.class is Elf32 { "ELF32"@ } else { "ELF64"@ }) + "\n"@ + "Endianness: "@ + (if b.elf.endianness is Little { "little-endian"@ } else { "big-endian"@ }) + "\n"@ + "Type: "@ + elf_type_label(b.elf.elf_type) + "\n"@ + "Machine: "@ + machine_label(b.elf.machine) + "\n"@ + "OS ABI: "@ + os_abi_label(b.elf.os_abi) + "\n"@ + "ABI version: "@ + decimal(b.elf.abi_version as nat) + "\n"@ + "Entry point: "@ + prefixed_hex(b.elf.entry_point as nat), "\n"@);
    terminal_concat(p + "Format: ELF\n"@ + "File size: "@ + decimal(b.file.size_bytes as nat) + " bytes\n"@ + "SHA-256: "@ + b.hashes.sha256@ + "\n"@ + "Class: "@ + (if b.elf.class is Elf32 { "ELF32"@ } else { "ELF64"@ }) + "\n"@ + "Endianness: "@ + (if b.elf.endianness is Little { "little-endian"@ } else { "big-endian"@ }) + "\n"@ + "Type: "@ + elf_type_label(b.elf.elf_type) + "\n"@ + "Machine: "@ + machine_label(b.elf.machine) + "\n"@ + "OS ABI: "@ + os_abi_label(b.elf.os_abi) + "\n"@ + "ABI version: "@ + decimal(b.elf.abi_version as nat) + "\n"@ + "Entry point: "@ + prefixed_hex(b.elf.entry_point as nat) + "\n"@, "Flags: "@);
    terminal_concat(p + "Format: ELF\n"@ + "File size: "@ + decimal(b.file.size_bytes as nat) + " bytes\n"@ + "SHA-256: "@ + b.hashes.sha256@ + "\n"@ + "Class: "@ + (if b.elf.class is Elf32 { "ELF32"@ } else { "ELF64"@ }) + "\n"@ + "Endianness: "@ + (if b.elf.endianness is Little { "little-endian"@ } else { "big-endian"@ }) + "\n"@ + "Type: "@ + elf_type_label(b.elf.elf_type) + "\n"@ + "Machine: "@ + machine_label(b.elf.machine) + "\n"@ + "OS ABI: "@ + os_abi_label(b.elf.os_abi) + "\n"@ + "ABI version: "@ + decimal(b.elf.abi_version as nat) + "\n"@ + "Entry point: "@ + prefixed_hex(b.elf.entry_point as nat) + "\n"@ + "Flags: "@, prefixed_hex(b.elf.flags as nat));
    terminal_concat(p + "Format: ELF\n"@ + "File size: "@ + decimal(b.file.size_bytes as nat) + " bytes\n"@ + "SHA-256: "@ + b.hashes.sha256@ + "\n"@ + "Class: "@ + (if b.elf.class is Elf32 { "ELF32"@ } else { "ELF64"@ }) + "\n"@ + "Endianness: "@ + (if b.elf.endianness is Little { "little-endian"@ } else { "big-endian"@ }) + "\n"@ + "Type: "@ + elf_type_label(b.elf.elf_type) + "\n"@ + "Machine: "@ + machine_label(b.elf.machine) + "\n"@ + "OS ABI: "@ + os_abi_label(b.elf.os_abi) + "\n"@ + "ABI version: "@ + decimal(b.elf.abi_version as nat) + "\n"@ + "Entry point: "@ + prefixed_hex(b.elf.entry_point as nat) + "\n"@ + "Flags: "@ + prefixed_hex(b.elf.flags as nat), "\n"@);
}

proof fn lemma_finding_texts(m: SecurityMitigations)
    ensures
        terminal_text(canary_text(m.stack_canary)@),
        terminal_text(nx_text(m.nx)@),
        terminal_text(fortify_text(m)),
        terminal_text(rwx_text(m.rwx_segments)),
        terminal_text(if m.has_insecure_rpath { "Yes (Warning)"@ } else { "No"@ }),
{
    assert(terminal_text(canary_text(m.stack_canary)@)) by {
        reveal_strlit("Yes");
        reveal_strlit("No (vulnerable)");
        reveal_strlit("Unknown (no symbol table)");
    }
    assert(terminal_text(nx_text(m.nx)@)) by {
        reveal_strlit("Yes (non-executable)");
        reveal_strlit("No (executable stack)");
        reveal_strlit("Unknown (no PT_GNU_STACK)");
    }
    assert(terminal_text(if m.has_insecure_rpath { "Yes (Warning)"@ } else { "No"@ })) by {
        reveal_strlit("Yes (Warning)");
        reveal_strlit("No");
    }
    decimal_printable(m.fortified_functions@.len());
    printable_is_terminal(decimal(m.fortified_functions@.len()));
    match m.fortify {
        Hardening::Enabled => {
            assert(terminal_text("Yes ("@)) by { reveal_strlit("Yes ("); }
            assert(terminal_text(" functions)"@)) by { reveal_strlit(" functions)"); }
            terminal_concat("Yes ("@, decimal(m.fortified_functions@.len()));
            terminal_concat("Yes ("@ + decimal(m.fortified_functions@.len()), " functions)"@);
        },
        Hardening::Disabled => {
            assert(terminal_text("No"@)) by { reveal_strlit("No"); }
        },
        Hardening::Unknown => {
            assert(terminal_text("Unknown (no symbol table)"@)) by { reveal_strlit("Unknown (no symbol table)"); }
        },
    }
    decimal_printable(m.rwx_segments as nat);
    printable_is_terminal(decimal(m.rwx_segments as nat));
    if m.rwx_segments == 0 {
        assert(terminal_text("0 (None)"@)) by { reveal_strlit("0 (None)"); }
    } else {
        assert(terminal_text(" (WARNING: W^X violation)"@)) by { reveal_strlit(" (WARNING: W^X violation)"); }
        terminal_concat(decimal(m.rwx_segments as nat), " (WARNING: W^X violation)"@);
    }
}

proof fn lemma_mitigations_terminal(p: Seq<char>, m: SecurityMitigations)
    requires
        terminal_text(p),
    ensures
        terminal_text(with_mitigations(p, m)),
{
    finding_labels_printable(m.relro, m.pie);
    lemma_finding_texts(m);
    assert(terminal_text("\nSecurity Hardening (checksec):\n"@)) by { reveal_strlit("\nSecurity Hardening (checksec):\n"); }
    assert(terminal_text("  RELRO:          "@)) by { reveal_strlit("  RELRO:          "); }
    printable_is_terminal(relro_label(m.relro)@);
    assert(terminal_text("\n"@)) by { reveal_strlit("\n"); }
    assert(terminal_text("  Stack Canary:   "@)) by { reveal_strlit("  Stack Canary:   "); }
    assert(terminal_text("\n"@)) by { reveal_strlit("\n"); }
    assert(terminal_text("  NX Stack:       "@)) by { reveal_strlit("  NX Stack:       "); }
    assert(terminal_text("\n"@)) by { reveal_strlit("\n"); }
    assert(terminal_text("  PIE:            "@)) by { reveal_strlit("  PIE:            "); }
    printable_is_terminal(pie_label(m.pie)@);
    assert(terminal_text("\n"@)) by { reveal_strlit("\n"); }
    assert(terminal_text("  Fortify Source: "@)) by { reveal_strlit("  Fortify Source: "); }
    assert(terminal_text("\n"@)) by { reveal_strlit("\n"); }
    assert(terminal_text("  RWX Segments:   "@)) by { reveal_strlit("  RWX Segments:   "); }
    assert(terminal_text("\n"@)) by { reveal_strlit("\n"); }
    assert(terminal_text("  Insecure RPATH: "@)) by { reveal_strlit("  Insecure RPATH: "); }
    assert(terminal_text("\n"@)) by { reveal_strlit("\n"); }
    terminal_concat(p, "\nSecurity Hardening (checksec):\n"@);
    terminal_concat(p + "\nSecurity Hardening (checksec):\n"@, "  RELRO:          "@);
    terminal_concat(p + "\nSecurity Hardening (checksec):\n"@ + "  RELRO:          "@, relro_label(m.relro)@);
    terminal_concat(p + "\nSecurity Hardening (checksec):\n"@ + "  RELRO:          "@ + relro_label(m.relro)@, "\n"@);
    terminal_concat(p + "\nSecurity Hardening (checksec):\n"@ + "  RELRO:          "@ + relro_label(m.relro)@ + "\n"@, "  Stack Canary:   "@);
    terminal_concat(p + "\nSecurity Hardening (checksec):\n"@ + "  RELRO:          "@ + relro_label(m.relro)@ + "\n"@ + "  Stack Canary:   "@, canary_text(m.stack_canary)@);
    terminal_concat(p + "\nSecurity Hardening (checksec):\n"@ + "  RELRO:          "@ + relro_label(m.relro)@ + "\n"@ + "  Stack Canary:   "@ + canary_text(m.stack_canary)@, "\n"@);
    terminal_concat(p + "\nSecurity Hardening (checksec):\n"@ + "  RELRO:          "@ + relro_label(m.relro)@ + "\n"@ + "  Stack Canary:   "@ + canary_text(m.stack_canary)@ + "\n"@, "  NX Stack:       "@);
    terminal_concat(p + "\nSecurity Hardening (checksec):\n"@ + "  RELRO:          "@ + relro_label(m.relro)@ + "\n"@ + "  Stack Canary:   "@ + canary_text(m.stack_canary)@ + "\n"@ + "  NX Stack:       "@, nx_text(m.nx)@);
    terminal_concat(p + "\nSecurity Hardening (checksec):\n"@ + "  RELRO:          "@ + relro_label(m.relro)@ + "\n"@ + "  Stack Canary:   "@ + canary_text(m.stack_canary)@ + "\n"@ + "  NX Stack:       "@ + nx_text(m.nx)@, "\n"@);
    terminal_concat(p + "\nSecurity Hardening (checksec):\n"@ + "  RELRO:          "@ + relro_label(m.relro)@ + "\n"@ + "  Stack Canary:   "@ + canary_text(m.stack_canary)@ + "\n"@ + "  NX Stack:       "@ + nx_text(m.nx)@ + "\n"@, "  PIE:            "@);
    terminal_concat(p + "\nSecurity Hardening (checksec):\n"@ + "  RELRO:          "@ + relro_label(m.relro)@ + "\n"@ + "  Stack Canary:   "@ + canary_text(m.stack_canary)@ + "\n"@ + "  NX Stack:       "@ + nx_text(m.nx)@ + "\n"@ + "  PIE:            "@, pie_label(m.pie)@);
    terminal_concat(p + "\nSecurity Hardening (checksec):\n"@ + "  RELRO:          "@ + relro_label(m.relro)@ + "\n"@ + "  Stack Canary:   "@ + canary_text(m.stack_canary)@ + "\n"@ + "  NX Stack:       "@ + nx_text(m.nx)@ + "\n"@ + "  PIE:            "@ + pie_label(m.pie)@, "\n"@);
    terminal_concat(p + "\nSecurity Hardening (checksec):\n"@ + "  RELRO:          "@ + relro_label(m.relro)@ + "\n"@ + "  Stack Canary:   "@ + canary_text(m.stack_canary)@ + "\n"@ + "  NX Stack:       "@ + nx_text(m.nx)@ + "\n"@ + "  PIE:            "@ + pie_label(m.pie)@ + "\n"@, "  Fortify Source: "@);
    terminal_concat(p + "\nSecurity Hardening (checksec):\n"@ + "  RELRO:          "@ + relro_label(m.relro)@ + "\n"@ + "  Stack Canary:   "@ + canary_text(m.stack_canary)@ + "\n"@ + "  NX Stack:       "@ + nx_text(m.nx)@ + "\n"@ + "  PIE:            "@ + pie_label(m.pie)@ + "\n"@ + "  Fortify Source: "@, fortify_text(m));
    terminal_concat(p + "\nSecurity Hardening (checksec):\n"@ + "  RELRO:          "@ + relro_label(m.relro)@ + "\n"@ + "  Stack Canary:   "@ + canary_text(m.stack_canary)@ + "\n"@ + "  NX Stack:       "@ + nx_text(m.nx)@ + "\n"@ + "  PIE:            "@ + pie_label(m.pie)@ + "\n"@ + "  Fortify Source: "@ + fortify_text(m), "\n"@);
    terminal_concat(p + "\nSecurity Hardening (checksec):\n"@ + "  RELRO:          "@ + relro_label(m.relro)@ + "\n"@ + "  Stack Canary:   "@ + canary_text(m.stack_canary)@ + "\n"@ + "  NX Stack:       "@ + nx_text(m.nx)@ + "\n"@ + "  PIE:            "@ + pie_label(m.pie)@ + "\n"@ + "  Fortify Source: "@ + fortify_text(m) + "\n"@, "  RWX Segments:   "@);
    terminal_concat(p + "\nSecurity Hardening (checksec):\n"@ + "  RELRO:          "@ + relro_label(m.relro)@ + "\n"@ + "  Stack Canary:   "@ + canary_text(m.stack_canary)@ + "\n"@ + "  NX Stack:       "@ + nx_text(m.nx)@ + "\n"@ + "  PIE:            "@ + pie_label(m.pie)@ + "\n"@ + "  Fortify Source: "@ + fortify_text(m) + "\n"@ + "  RWX Segments:   "@, rwx_text(m.rwx_segments));
    terminal_concat(p + "\nSecurity Hardening (checksec):\n"@ + "  RELRO:          "@ + relro_label(m.relro)@ + "\n"@ + "  Stack Canary:   "@ + canary_text(m.stack_canary)@ + "\n"@ + "  NX Stack:       "@ + nx_text(m.nx)@ + "\n"@ + "  PIE:            "@ + pie_label(m.pie)@ + "\n"@ + "  Fortify Source: "@ + fortify_text(m) + "\n"@ + "  RWX Segments:   "@ + rwx_text(m.rwx_segments), "\n"@);
    terminal_concat(p + "\nSecurity Hardening (checksec):\n"@ + "  RELRO:          "@ + relro_label(m.relro)@ + "\n"@ + "  Stack Canary:   "@ + canary_text(m.stack_canary)@ + "\n"@ + "  NX Stack:       "@ + nx_text(m.nx)@ + "\n"@ + "  PIE:            "@ + pie_label(m.pie)@ + "\n"@ + "  Fortify Source: "@ + fortify_text(m) + "\n"@ + "  RWX Segments:   "@ + rwx_text(m.rwx_segments) + "\n"@, "  Insecure RPATH: "@);
    terminal_concat(p + "\nSecurity Hardening (checksec):\n"@ + "  RELRO:          "@ + relro_label(m.relro)@ + "\n"@ + "  Stack Canary:   "@ + canary_text(m.stack_canary)@ + "\n"@ + "  NX Stack:       "@ + nx_text(m.nx)@ + "\n"@ + "  PIE:            "@ + pie_label(m.pie)@ + "\n"@ + "  Fortify Source: "@ + fortify_text(m) + "\n"@ + "  RWX Segments:   "@ + rwx_text(m.rwx_segments) + "\n"@ + "  Insecure RPATH: "@, (if m.has_insecure_rpath { "Yes (Warning)"@ } else { "No"@ }));
    terminal_concat(p + "\nSecurity Hardening (checksec):\n"@ + "  RELRO:          "@ + relro_label(m.relro)@ + "\n"@ + "  Stack Canary:   "@ + canary_text(m.stack_canary)@ + "\n"@ + "  NX Stack:       "@ + nx_text(m.nx)@ + "\n"@ + "  PIE:            "@ + pie_label(m.pie)@ + "\n"@ + "  Fortify Source: "@ + fortify_text(m) + "\n"@ + "  RWX Segments:   "@ + rwx_text(m.rwx_segments) + "\n"@ + "  Insecure RPATH: "@ + (if m.has_insecure_rpath { "Yes (Warning)"@ } else { "No"@ }), "\n"@);
}

proof fn lemma_flags_printable(section: u64, segment: u32)
    ensures
        printable_text(section_flags_text(section)),
        printable_text(segment_flags_text(segment)),
{
}

proof fn lemma_entropy_printable(e: Option<u16>)
    ensures
        printable_text(entropy_text(e)),
{
    match e {
        Some(h) => {
            assert(printable_text("."@)) by { reveal_strlit("."); }
            decimal_printable((h / 100) as nat);
            decimal_printable((h % 100) as nat);
            pad_left_printable(decimal((h % 100) as nat), 2, '0');
            printable_concat(decimal((h / 100) as nat), "."@);
            printable_concat(decimal((h / 100) as nat) + "."@, pad_left(decimal((h % 100) as nat), 2, '0'));
        },
        None => {
            assert(printable_text("-"@)) by { reveal_strlit("-"); }
        },
    }
}

proof fn lemma_section_line_terminal(p: Seq<char>, s: Section)
    requires
        terminal_text(p),
        printable_text(s.name@),
    ensures
        terminal_text(with_section_line(p, s)),
{
    assert(terminal_text("  ["@)) by { reveal_strlit("  ["); }
    decimal_printable(s.index as nat); pad_left_printable(decimal(s.index as nat), 2, ' '); printable_is_terminal(pad_left(decimal(s.index as nat), 2, ' '));
    assert(terminal_text("] "@)) by { reveal_strlit("] "); }
    pad_right_printable(s.name@, 22); printable_is_terminal(pad_right(s.name@, 22));
    assert(terminal_text(" type="@)) by { reveal_strlit(" type="); }
    prefixed_hex_printable(s.section_type as nat, 0); pad_right_printable(prefixed_hex(s.section_type as nat), 10); printable_is_terminal(pad_right(prefixed_hex(s.section_type as nat), 10));
    assert(terminal_text(" flags="@)) by { reveal_strlit(" flags="); }
    lemma_flags_printable(s.flags, 0); pad_right_printable(section_flags_text(s.flags), 4); printable_is_terminal(pad_right(section_flags_text(s.flags), 4));
    assert(terminal_text(" addr="@)) by { reveal_strlit(" addr="); }
    prefixed_hex_printable(s.address as nat, 10); printable_is_terminal(prefixed_hex_width(s.address as nat, 10));
    assert(terminal_text(" offset="@)) by { reveal_strlit(" offset="); }
    prefixed_hex_printable(s.offset as nat, 8); printable_is_terminal(prefixed_hex_width(s.offset as nat, 8));
    assert(terminal_text(" size="@)) by { reveal_strlit(" size="); }
    decimal_printable(s.size as nat); pad_right_printable(decimal(s.size as nat), 8); printable_is_terminal(pad_right(decimal(s.size as nat), 8));
    assert(terminal_text(" entropy="@)) by { reveal_strlit(" entropy="); }
    lemma_entropy_printable(s.entropy); printable_is_terminal(entropy_text(s.entropy));
    assert(terminal_text("\n"@)) by { reveal_strlit("\n"); }
    terminal_concat(p, "  ["@);
    terminal_concat(p + "  ["@, pad_left(decimal(s.index as nat), 2, ' '));
    terminal_concat(p + "  ["@ + pad_left(decimal(s.index as nat), 2, ' '), "] "@);
    terminal_concat(p + "  ["@ + pad_left(decimal(s.index as nat), 2, ' ') + "] "@, pad_right(s.name@, 22));
    terminal_concat(p + "  ["@ + pad_left(decimal(s.index as nat), 2, ' ') + "] "@ + pad_right(s.name@, 22), " type="@);
    terminal_concat(p + "  ["@ + pad_left(decimal(s.index as nat), 2, ' ') + "] "@ + pad_right(s.name@, 22) + " type="@, pad_right(prefixed_hex(s.section_type as nat), 10));
    terminal_concat(p + "  ["@ + pad_left(decimal(s.index as nat), 2, ' ') + "] "@ + pad_right(s.name@, 22) + " type="@ + pad_right(prefixed_hex(s.section_type as nat), 10), " flags="@);
    terminal_concat(p + "  ["@ + pad_left(decimal(s.index as nat), 2, ' ') + "] "@ + pad_right(s.name@, 22) + " type="@ + pad_right(prefixed_hex(s.section_type as nat), 10) + " flags="@, pad_right(section_flags_text(s.flags), 4));
    terminal_concat(p + "  ["@ + pad_left(decimal(s.index as nat), 2, ' ') + "] "@ + pad_right(s.name@, 22) + " type="@ + pad_right(prefixed_hex(s.section_type as nat), 10) + " flags="@ + pad_right(section_flags_text(s.flags), 4), " addr="@);
    terminal_concat(p + "  ["@ + pad_left(decimal(s.index as nat), 2, ' ') + "] "@ + pad_right(s.name@, 22) + " type="@ + pad_right(prefixed_hex(s.section_type as nat), 10) + " flags="@ + pad_right(section_flags_text(s.flags), 4) + " addr="@, prefixed_hex_width(s.address as nat, 10));
    terminal_concat(p + "  ["@ + pad_left(decimal(s.index as nat), 2, ' ') + "] "@ + pad_right(s.name@, 22) + " type="@ + pad_right(prefixed_hex(s.section_type as nat), 10) + " flags="@ + pad_right(section_flags_text(s.flags), 4) + " addr="@ + prefixed_hex_width(s.address as nat, 10), " offset="@);
    terminal_concat(p + "  ["@ + pad_left(decimal(s.index as nat), 2, ' ') + "] "@ + pad_right(s.name@, 22) + " type="@ + pad_right(prefixed_hex(s.section_type as nat), 10) + " flags="@ + pad_right(section_flags_text(s.flags), 4) + " addr="@ + prefixed_hex_width(s.address as nat, 10) + " offset="@, prefixed_hex_width(s.offset as nat, 8));
    terminal_concat(p + "  ["@ + pad_left(decimal(s.index as nat), 2, ' ') + "] "@ + pad_right(s.name@, 22) + " type="@ + pad_right(prefixed_hex(s.section_type as nat), 10) + " flags="@ + pad_right(section_flags_text(s.flags), 4) + " addr="@ + prefixed_hex_width(s.address as nat, 10) + " offset="@ + prefixed_hex_width(s.offset as nat, 8), " size="@);
    terminal_concat(p + "  ["@ + pad_left(decimal(s.index as nat), 2, ' ') + "] "@ + pad_right(s.name@, 22) + " type="@ + pad_right(prefixed_hex(s.section_type as nat), 10) + " flags="@ + pad_right(section_flags_text(s.flags), 4) + " addr="@ + prefixed_hex_width(s.address as nat, 10) + " offset="@ + prefixed_hex_width(s.offset as nat, 8) + " size="@, pad_right(decimal(s.size as nat), 8));
    terminal_concat(p + "  ["@ + pad_left(decimal(s.index as nat), 2, ' ') + "] "@ + pad_right(s.name@, 22) + " type="@ + pad_right(prefixed_hex(s.section_type as nat), 10) + " flags="@ + pad_right(section_flags_text(s.flags), 4) + " addr="@ + prefixed_hex_width(s.address as nat, 10) + " offset="@ + prefixed_hex_width(s.offset as nat, 8) + " size="@ + pad_right(decimal(s.size as nat), 8), " entropy="@);
    terminal_concat(p + "  ["@ + pad_left(decimal(s.index as nat), 2, ' ') + "] "@ + pad_right(s.name@, 22) + " type="@ + pad_right(prefixed_hex(s.section_type as nat), 10) + " flags="@ + pad_right(section_flags_text(s.flags), 4) + " addr="@ + prefixed_hex_width(s.address as nat, 10) + " offset="@ + prefixed_hex_width(s.offset as nat, 8) + " size="@ + pad_right(decimal(s.size as nat), 8) + " entropy="@, entropy_text(s.entropy));
    terminal_concat(p + "  ["@ + pad_left(decimal(s.index as nat), 2, ' ') + "] "@ + pad_right(s.name@, 22) + " type="@ + pad_right(prefixed_hex(s.section_type as nat), 10) + " flags="@ + pad_right(section_flags_text(s.flags), 4) + " addr="@ + prefixed_hex_width(s.address as nat, 10) + " offset="@ + prefixed_hex_width(s.offset as nat, 8) + " size="@ + pad_right(decimal(s.size as nat), 8) + " entropy="@ + entropy_text(s.entropy), "\n"@);
}

proof fn lemma_section_lines_terminal(p: Seq<char>, v: Seq<Section>)
    requires
        terminal_text(p),
        forall|i: int| 0 <= i < v.len() ==> printable_text(#[trigger] v[i].name@),
    ensures
        terminal_text(with_section_lines(p, v)),
    decreases v.len(),
{
    if v.len() > 0 {
        lemma_section_lines_terminal(p, v.drop_last());
        assert(printable_text(v[v.len() - 1].name@));
        lemma_section_line_terminal(with_section_lines(p, v.drop_last()), v.last());
    }
}

proof fn lemma_segment_line_terminal(p: Seq<char>, s: Segment)
    requires
        terminal_text(p),
    ensures
        terminal_text(with_segment_line(p, s)),
{
    assert(terminal_text("  ["@)) by { reveal_strlit("  ["); }
    decimal_printable(s.index as nat); pad_left_printable(decimal(s.index as nat), 2, ' '); printable_is_terminal(pad_left(decimal(s.index as nat), 2, ' '));
    assert(terminal_text("] type="@)) by { reveal_strlit("] type="); }
    prefixed_hex_printable(s.segment_type as nat, 10); printable_is_terminal(prefixed_hex_width(s.segment_type as nat, 10));
    assert(terminal_text(" flags="@)) by { reveal_strlit(" flags="); }
    lemma_flags_printable(0, s.flags); printable_is_terminal(segment_flags_text(s.flags));
    assert(terminal_text(" offset="@)) by { reveal_strlit(" offset="); }
    prefixed_hex_printable(s.offset as nat, 8); printable_is_terminal(prefixed_hex_width(s.offset as nat, 8));
    assert(terminal_text(" vaddr="@)) by { reveal_strlit(" vaddr="); }
    prefixed_hex_printable(s.virtual_address as nat, 10); printable_is_terminal(prefixed_hex_width(s.virtual_address as nat, 10));
    assert(terminal_text(" filesz="@)) by { reveal_strlit(" filesz="); }
    decimal_printable(s.file_size as nat); pad_right_printable(decimal(s.file_size as nat), 8); printable_is_terminal(pad_right(decimal(s.file_size as nat), 8));
    assert(terminal_text(" memsz="@)) by { reveal_strlit(" memsz="); }
    decimal_printable(s.memory_size as nat); pad_right_printable(decimal(s.memory_size as nat), 8); printable_is_terminal(pad_right(decimal(s.memory_size as nat), 8));
    assert(terminal_text(" align="@)) by { reveal_strlit(" align="); }
    prefixed_hex_printable(s.alignment as nat, 0); printable_is_terminal(prefixed_hex(s.alignment as nat));
    assert(terminal_text("\n"@)) by { reveal_strlit("\n"); }
    terminal_concat(p, "  ["@);
    terminal_concat(p + "  ["@, pad_left(decimal(s.index as nat), 2, ' '));
    terminal_concat(p + "  ["@ + pad_left(decimal(s.index as nat), 2, ' '), "] type="@);
    terminal_concat(p + "  ["@ + pad_left(decimal(s.index as nat), 2, ' ') + "] type="@, prefixed_hex_width(s.segment_type as nat, 10));
    terminal_concat(p + "  ["@ + pad_left(decimal(s.index as nat), 2, ' ') + "] type="@ + prefixed_hex_width(s.segment_type as nat, 10), " flags="@);
    terminal_concat(p + "  ["@ + pad_left(decimal(s.index as nat), 2, ' ') + "] type="@ + prefixed_hex_width(s.segment_type as nat, 10) + " flags="@, segment_flags_text(s.flags));
    terminal_concat(p + "  ["@ + pad_left(decimal(s.index as nat), 2, ' ') + "] type="@ + prefixed_hex_width(s.segment_type as nat, 10) + " flags="@ + segment_flags_text(s.flags), " offset="@);
    terminal_concat(p + "  ["@ + pad_left(decimal(s.index as nat), 2, ' ') + "] type="@ + prefixed_hex_width(s.segment_type as nat, 10) + " flags="@ + segment_flags_text(s.flags) + " offset="@, prefixed_hex_width(s.offset as nat, 8));
    terminal_concat(p + "  ["@ + pad_left(decimal(s.index as nat), 2, ' ') + "] type="@ + prefixed_hex_width(s.segment_type as nat, 10) + " flags="@ + segment_flags_text(s.flags) + " offset="@ + prefixed_hex_width(s.offset as nat, 8), " vaddr="@);
    terminal_concat(p + "  ["@ + pad_left(decimal(s.index as nat), 2, ' ') + "] type="@ + prefixed_hex_width(s.segment_type as nat, 10) + " flags="@ + segment_flags_text(s.flags) + " offset="@ + prefixed_hex_width(s.offset as nat, 8) + " vaddr="@, prefixed_hex_width(s.virtual_address as nat, 10));
    terminal_concat(p + "  ["@ + pad_left(decimal(s.index as nat), 2, ' ') + "] type="@ + prefixed_hex_width(s.segment_type as nat, 10) + " flags="@ + segment_flags_text(s.flags) + " offset="@ + prefixed_hex_width(s.offset as nat, 8) + " vaddr="@ + prefixed_hex_width(s.virtual_address as nat, 10), " filesz="@);
    terminal_concat(p + "  ["@ + pad_left(decimal(s.index as nat), 2, ' ') + "] type="@ + prefixed_hex_width(s.segment_type as nat, 10) + " flags="@ + segment_flags_text(s.flags) + " offset="@ + prefixed_hex_width(s.offset as nat, 8) + " vaddr="@ + prefixed_hex_width(s.virtual_address as nat, 10) + " filesz="@, pad_right(decimal(s.file_size as nat), 8));
    terminal_concat(p + "  ["@ + pad_left(decimal(s.index as nat), 2, ' ') + "] type="@ + prefixed_hex_width(s.segment_type as nat, 10) + " flags="@ + segment_flags_text(s.flags) + " offset="@ + prefixed_hex_width(s.offset as nat, 8) + " vaddr="@ + prefixed_hex_width(s.virtual_address as nat, 10) + " filesz="@ + pad_right(decimal(s.file_size as nat), 8), " memsz="@);
    terminal_concat(p + "  ["@ + pad_left(decimal(s.index as nat), 2, ' ') + "] type="@ + prefixed_hex_width(s.segment_type as nat, 10) + " flags="@ + segment_flags_text(s.flags) + " offset="@ + prefixed_hex_width(s.offset as nat, 8) + " vaddr="@ + prefixed_hex_width(s.virtual_address as nat, 10) + " filesz="@ + pad_right(decimal(s.file_size as nat), 8) + " memsz="@, pad_right(decimal(s.memory_size as nat), 8));
    terminal_concat(p + "  ["@ + pad_left(decimal(s.index as nat), 2, ' ') + "] type="@ + prefixed_hex_width(s.segment_type as nat, 10) + " flags="@ + segment_flags_text(s.flags) + " offset="@ + prefixed_hex_width(s.offset as nat, 8) + " vaddr="@ + prefixed_hex_width(s.virtual_address as nat, 10) + " filesz="@ + pad_right(decimal(s.file_size as nat), 8) + " memsz="@ + pad_right(decimal(s.memory_size as nat), 8), " align="@);
    terminal_concat(p + "  ["@ + pad_left(decimal(s.index as nat), 2, ' ') + "] type="@ + prefixed_hex_width(s.segment_type as nat, 10) + " flags="@ + segment_flags_text(s.flags) + " offset="@ + prefixed_hex_width(s.offset as nat, 8) + " vaddr="@ + prefixed_hex_width(s.virtual_address as nat, 10) + " filesz="@ + pad_right(decimal(s.file_size as nat), 8) + " memsz="@ + pad_right(decimal(s.memory_size as nat), 8) + " align="@, prefixed_hex(s.alignment as nat));
    terminal_concat(p + "  ["@ + pad_left(decimal(s.index as nat), 2, ' ') + "] type="@ + prefixed_hex_width(s.segment_type as nat, 10) + " flags="@ + segment_flags_text(s.flags) + " offset="@ + prefixed_hex_width(s.offset as nat, 8) + " vaddr="@ + prefixed_hex_width(s.virtual_address as nat, 10) + " filesz="@ + pad_right(decimal(s.file_size as nat), 8) + " memsz="@ + pad_right(decimal(s.memory_size as nat), 8) + " align="@ + prefixed_hex(s.alignment as nat), "\n"@);
}

proof fn lemma_segment_lines_terminal(p: Seq<char>, v: Seq<Segment>)
    requires
        terminal_text(p),
    ensures
        terminal_text(with_segment_lines(p, v)),
    decreases v.len(),
{
    if v.len() > 0 {
        lemma_segment_lines_terminal(p, v.drop_last());
        lemma_segment_line_terminal(with_segment_lines(p, v.drop_last()), v.last());
    }
}

proof fn lemma_labelled_lines_terminal(p: Seq<char>, label: Seq<char>, v: Seq<String>)
    requires
        terminal_text(p),
        printable_text(label),
        forall|i: int| 0 <= i < v.len() ==> printable_text(#[trigger] v[i]@),
    ensures
        terminal_text(with_labelled_lines(p, label, v)),
    decreases v.len(),
{
    if v.len() > 0 {
        lemma_labelled_lines_terminal(p, label, v.drop_last());
        let q = with_labelled_lines(p, label, v.drop_last());
        assert(printable_text(v[v.len() - 1]@));
        assert(terminal_text("\n"@)) by { reveal_strlit("\n"); }
        printable_is_terminal(label);
        printable_is_terminal(v.last()@);
        terminal_concat(q, label);
        terminal_concat(q + label, v.last()@);
        terminal_concat(q + label + v.last()@, "\n"@);
    }
}

proof fn lemma_optional_line_terminal(p: Seq<char>, label: Seq<char>, v: Option<String>)
    requires
        terminal_text(p),
        printable_text(label),
        v matches Some(x) ==> printable_text(x@),
    ensures
        terminal_text(with_optional_line(p, label, v)),
{
    if let Some(x) = v {
        assert(terminal_text("\n"@)) by { reveal_strlit("\n"); }
        printable_is_terminal(label);
        printable_is_terminal(x@);
        terminal_concat(p, label);
        terminal_concat(p + label, x@);
        terminal_concat(p + label + x@, "\n"@);
    }
}

proof fn lemma_dependencies_terminal(p: Seq<char>, d: DynamicInfo)
    requires
        terminal_text(p),
        d.interpreter matches Some(x) ==> printable_text(x@),
        d.rpath matches Some(x) ==> printable_text(x@),
        d.runpath matches Some(x) ==> printable_text(x@),
        forall|i: int| 0 <= i < d.needed@.len() ==> printable_text(#[trigger] d.needed@[i]@),
    ensures
        terminal_text(with_dependencies(p, d)),
{
    assert(terminal_text("\nDependencies:\n"@)) by { reveal_strlit("\nDependencies:\n"); }
    assert(printable_text("  Interpreter: "@)) by { reveal_strlit("  Interpreter: "); }
    assert(printable_text("  RPATH: "@)) by { reveal_strlit("  RPATH: "); }
    assert(printable_text("  RUNPATH: "@)) by { reveal_strlit("  RUNPATH: "); }
    assert(printable_text("  Needed: "@)) by { reveal_strlit("  Needed: "); }
    assert(terminal_text("  None\n"@)) by { reveal_strlit("  None\n"); }
    terminal_concat(p, "\nDependencies:\n"@);
    let q0 = p + "\nDependencies:\n"@;
    lemma_optional_line_terminal(q0, "  Interpreter: "@, d.interpreter);
    let q1 = with_optional_line(q0, "  Interpreter: "@, d.interpreter);
    lemma_optional_line_terminal(q1, "  RPATH: "@, d.rpath);
    let q2 = with_optional_line(q1, "  RPATH: "@, d.rpath);
    lemma_optional_line_terminal(q2, "  RUNPATH: "@, d.runpath);
    let q3 = with_optional_line(q2, "  RUNPATH: "@, d.runpath);
    lemma_labelled_lines_terminal(q3, "  Needed: "@, d.needed@);
    let q4 = with_labelled_lines(q3, "  Needed: "@, d.needed@);
    terminal_concat(q4, "  None\n"@);
}

proof fn lemma_note_terminal(p: Seq<char>, n: ElfNote)
    requires
        terminal_text(p),
        note_texts_printable(n),
    ensures
        terminal_text(with_note(p, n)),
{
    assert(terminal_text("  ["@)) by { reveal_strlit("  ["); }
    assert(terminal_text("] "@)) by { reveal_strlit("] "); }
    assert(terminal_text("\n"@)) by { reveal_strlit("\n"); }
    assert(printable_text("    - Property: "@)) by { reveal_strlit("    - Property: "); }
    printable_is_terminal(n.name@);
    printable_is_terminal(n.description@);
    terminal_concat(p, "  ["@);
    terminal_concat(p + "  ["@, n.name@);
    terminal_concat(p + "  ["@ + n.name@, "] "@);
    terminal_concat(p + "  ["@ + n.name@ + "] "@, n.description@);
    terminal_concat(p + "  ["@ + n.name@ + "] "@ + n.description@, "\n"@);
    lemma_labelled_lines_terminal(p + "  ["@ + n.name@ + "] "@ + n.description@ + "\n"@, "    - Property: "@, n.properties@);
}

proof fn lemma_note_blocks_terminal(p: Seq<char>, v: Seq<ElfNote>)
    requires
        terminal_text(p),
        forall|i: int| 0 <= i < v.len() ==> note_texts_printable(#[trigger] v[i]),
    ensures
        terminal_text(with_note_blocks(p, v)),
    decreases v.len(),
{
    if v.len() > 0 {
        lemma_note_blocks_terminal(p, v.drop_last());
        assert(note_texts_printable(v[v.len() - 1]));
        lemma_note_terminal(with_note_blocks(p, v.drop_last()), v.last());
    }
}

proof fn lemma_notes_terminal(p: Seq<char>, v: Seq<ElfNote>)
    requires
        terminal_text(p),
        forall|i: int| 0 <= i < v.len() ==> note_texts_printable(#[trigger] v[i]),
    ensures
        terminal_text(with_notes(p, v)),
{
    assert(terminal_text("\nNotes ("@)) by { reveal_strlit("\nNotes ("); }
    assert(terminal_text("):\n"@)) by { reveal_strlit("):\n"); }
    assert(terminal_text("  None\n"@)) by { reveal_strlit("  None\n"); }
    decimal_printable(v.len());
    printable_is_terminal(decimal(v.len()));
    terminal_concat(p, "\nNotes ("@);
    terminal_concat(p + "\nNotes ("@, decimal(v.len()));
    terminal_concat(p + "\nNotes ("@ + decimal(v.len()), "):\n"@);
    let q = p + "\nNotes ("@ + decimal(v.len()) + "):\n"@;
    terminal_concat(q, "  None\n"@);
    lemma_note_blocks_terminal(q, v);
}

proof fn lemma_marker_printable(s: Symbol)
    ensures
        printable_text(symbol_marker(s)),
{
    reveal_strlit("[import]");
    reveal_strlit("[export]");
}

proof fn lemma_symbol_line_terminal(p: Seq<char>, s: Symbol)
    requires
        terminal_text(p),
        printable_text(s.name@),
    ensures
        terminal_text(with_symbol_line(p, s)),
{
    symbol_labels_printable(s);
    assert(terminal_text("  ["@)) by { reveal_strlit("  ["); }
    decimal_printable(s.index as nat); pad_left_printable(decimal(s.index as nat), 4, ' '); printable_is_terminal(pad_left(decimal(s.index as nat), 4, ' '));
    assert(terminal_text("] "@)) by { reveal_strlit("] "); }
    pad_right_printable(s.name@, 32); printable_is_terminal(pad_right(s.name@, 32));
    assert(terminal_text(" type="@)) by { reveal_strlit(" type="); }
    pad_right_printable(symbol_type_label(s.sym_type), 10); printable_is_terminal(pad_right(symbol_type_label(s.sym_type), 10));
    assert(terminal_text(" bind="@)) by { reveal_strlit(" bind="); }
    pad_right_printable(binding_label(s.binding), 8); printable_is_terminal(pad_right(binding_label(s.binding), 8));
    assert(terminal_text(" vis="@)) by { reveal_strlit(" vis="); }
    pad_right_printable(visibility_label(s.visibility)@, 8); printable_is_terminal(pad_right(visibility_label(s.visibility)@, 8));
    assert(terminal_text(" value="@)) by { reveal_strlit(" value="); }
    prefixed_hex_printable(s.value as nat, 10); printable_is_terminal(prefixed_hex_width(s.value as nat, 10));
    assert(terminal_text(" size="@)) by { reveal_strlit(" size="); }
    decimal_printable(s.size as nat); pad_right_printable(decimal(s.size as nat), 6); printable_is_terminal(pad_right(decimal(s.size as nat), 6));
    assert(terminal_text(" "@)) by { reveal_strlit(" "); }
    lemma_marker_printable(s); printable_is_terminal(symbol_marker(s));
    assert(terminal_text("\n"@)) by { reveal_strlit("\n"); }
    terminal_concat(p, "  ["@);
    terminal_concat(p + "  ["@, pad_left(decimal(s.index as nat), 4, ' '));
    terminal_concat(p + "  ["@ + pad_left(decimal(s.index as nat), 4, ' '), "] "@);
    terminal_concat(p + "  ["@ + pad_left(decimal(s.index as nat), 4, ' ') + "] "@, pad_right(s.name@, 32));
    terminal_concat(p + "  ["@ + pad_left(decimal(s.index as nat), 4, ' ') + "] "@ + pad_right(s.name@, 32), " type="@);
    terminal_concat(p + "  ["@ + pad_left(decimal(s.index as nat), 4, ' ') + "] "@ + pad_right(s.name@, 32) + " type="@, pad_right(symbol_type_label(s.sym_type), 10));
    terminal_concat(p + "  ["@ + pad_left(decimal(s.index as nat), 4, ' ') + "] "@ + pad_right(s.name@, 32) + " type="@ + pad_right(symbol_type_label(s.sym_type), 10), " bind="@);
    terminal_concat(p + "  ["@ + pad_left(decimal(s.index as nat), 4, ' ') + "] "@ + pad_right(s.name@, 32) + " type="@ + pad_right(symbol_type_label(s.sym_type), 10) + " bind="@, pad_right(binding_label(s.binding), 8));
    terminal_concat(p + "  ["@ + pad_left(decimal(s.index as nat), 4, ' ') + "] "@ + pad_right(s.name@, 32) + " type="@ + pad_right(symbol_type_label(s.sym_type), 10) + " bind="@ + pad_right(binding_label(s.binding), 8), " vis="@);
    terminal_concat(p + "  ["@ + pad_left(decimal(s.index as nat), 4, ' ') + "] "@ + pad_right(s.name@, 32) + " type="@ + pad_right(symbol_type_label(s.sym_type), 10) + " bind="@ + pad_right(binding_label(s.binding), 8) + " vis="@, pad_right(visibility_label(s.visibility)@, 8));
    terminal_concat(p + "  ["@ + pad_left(decimal(s.index as nat), 4, ' ') + "] "@ + pad_right(s.name@, 32) + " type="@ + pad_right(symbol_type_label(s.sym_type), 10) + " bind="@ + pad_right(binding_label(s.binding), 8) + " vis="@ + pad_right(visibility_label(s.visibility)@, 8), " value="@);
    terminal_concat(p + "  ["@ + pad_left(decimal(s.index as nat), 4, ' ') + "] "@ + pad_right(s.name@, 32) + " type="@ + pad_right(symbol_type_label(s.sym_type), 10) + " bind="@ + pad_right(binding_label(s.binding), 8) + " vis="@ + pad_right(visibility_label(s.visibility)@, 8) + " value="@, prefixed_hex_width(s.value as nat, 10));
    terminal_concat(p + "  ["@ + pad_left(decimal(s.index as nat), 4, ' ') + "] "@ + pad_right(s.name@, 32) + " type="@ + pad_right(symbol_type_label(s.sym_type), 10) + " bind="@ + pad_right(binding_label(s.binding), 8) + " vis="@ + pad_right(visibility_label(s.visibility)@, 8) + " value="@ + prefixed_hex_width(s.value as nat, 10), " size="@);
    terminal_concat(p + "  ["@ + pad_left(decimal(s.index as nat), 4, ' ') + "] "@ + pad_right(s.name@, 32) + " type="@ + pad_right(symbol_type_label(s.sym_type), 10) + " bind="@ + pad_right(binding_label(s.binding), 8) + " vis="@ + pad_right(visibility_label(s.visibility)@, 8) + " value="@ + prefixed_hex_width(s.value as nat, 10) + " size="@, pad_right(decimal(s.size as nat), 6));
    terminal_concat(p + "  ["@ + pad_left(decimal(s.index as nat), 4, ' ') + "] "@ + pad_right(s.name@, 32) + " type="@ + pad_right(symbol_type_label(s.sym_type), 10) + " bind="@ + pad_right(binding_label(s.binding), 8) + " vis="@ + pad_right(visibility_label(s.visibility)@, 8) + " value="@ + prefixed_hex_width(s.value as nat, 10) + " size="@ + pad_right(decimal(s.size as nat), 6), " "@);
    terminal_concat(p + "  ["@ + pad_left(decimal(s.index as nat), 4, ' ') + "] "@ + pad_right(s.name@, 32) + " type="@ + pad_right(symbol_type_label(s.sym_type), 10) + " bind="@ + pad_right(binding_label(s.binding), 8) + " vis="@ + pad_right(visibility_label(s.visibility)@, 8) + " value="@ + prefixed_hex_width(s.value as nat, 10) + " size="@ + pad_right(decimal(s.size as nat), 6) + " "@, symbol_marker(s));
    terminal_concat(p + "  ["@ + pad_left(decimal(s.index as nat), 4, ' ') + "] "@ + pad_right(s.name@, 32) + " type="@ + pad_right(symbol_type_label(s.sym_type), 10) + " bind="@ + pad_right(binding_label(s.binding), 8) + " vis="@ + pad_right(visibility_label(s.visibility)@, 8) + " value="@ + prefixed_hex_width(s.value as nat, 10) + " size="@ + pad_right(decimal(s.size as nat), 6) + " "@ + symbol_marker(s), "\n"@);
}

proof fn lemma_symbol_lines_terminal(p: Seq<char>, v: Seq<Symbol>)
    requires
        terminal_text(p),
        forall|i: int| 0 <= i < v.len() ==> printable_text(#[trigger] v[i].name@),
    ensures
        terminal_text(with_symbol_lines(p, v)),
    decreases v.len(),
{
    if v.len() > 0 {
        lemma_symbol_lines_terminal(p, v.drop_last());
        assert(printable_text(v[v.len() - 1].name@));
        lemma_symbol_line_terminal(with_symbol_lines(p, v.drop_last()), v.last());
    }
}

proof fn lemma_symbols_terminal(p: Seq<char>, v: Seq<Symbol>)
    requires
        terminal_text(p),
        forall|i: int| 0 <= i < v.len() ==> printable_text(#[trigger] v[i].name@),
    ensures
        terminal_text(with_symbols(p, v)),
{
    assert(terminal_text("\nSymbols ("@)) by { reveal_strlit("\nSymbols ("); }
    decimal_printable(v.len()); printable_is_terminal(decimal(v.len()));
    assert(terminal_text(" total, "@)) by { reveal_strlit(" total, "); }
    decimal_printable(import_count(v)); printable_is_terminal(decimal(import_count(v)));
    assert(terminal_text(" imports, "@)) by { reveal_strlit(" imports, "); }
    decimal_printable(export_count(v)); printable_is_terminal(decimal(export_count(v)));
    assert(terminal_text(" exports):\n"@)) by { reveal_strlit(" exports):\n"); }
    terminal_concat(p, "\nSymbols ("@);
    terminal_concat(p + "\nSymbols ("@, decimal(v.len()));
    terminal_concat(p + "\nSymbols ("@ + decimal(v.len()), " total, "@);
    terminal_concat(p + "\nSymbols ("@ + decimal(v.len()) + " total, "@, decimal(import_count(v)));
    terminal_concat(p + "\nSymbols ("@ + decimal(v.len()) + " total, "@ + decimal(import_count(v)), " imports, "@);
    terminal_concat(p + "\nSymbols ("@ + decimal(v.len()) + " total, "@ + decimal(import_count(v)) + " imports, "@, decimal(export_count(v)));
    terminal_concat(p + "\nSymbols ("@ + decimal(v.len()) + " total, "@ + decimal(import_count(v)) + " imports, "@ + decimal(export_count(v)), " exports):\n"@);
    let q = p + "\nSymbols ("@ + decimal(v.len()) + " total, "@ + decimal(import_count(v)) + " imports, "@ + decimal(export_count(v)) + " exports):\n"@;
    let shown = summary(v);
    assert forall|i: int| 0 <= i < shown.len() implies printable_text(#[trigger] shown[i].name@) by {
        assert(shown[i] == v[i]);
    }
    lemma_symbol_lines_terminal(q, shown);
    let r = with_symbol_lines(q, shown);
    if v.len() > SUMMARY_ROWS {
        assert(terminal_text("  ... ("@)) by { reveal_strlit("  ... ("); }
        assert(terminal_text(" additional symbols omitted from summary)\n"@)) by {
            reveal_strlit(" additional symbols omitted from summary)\n");
        }
        decimal_printable((v.len() - SUMMARY_ROWS) as nat);
        printable_is_terminal(decimal((v.len() - SUMMARY_ROWS) as nat));
        terminal_concat(r, "  ... ("@);
        terminal_concat(r + "  ... ("@, decimal((v.len() - SUMMARY_ROWS) as nat));
        terminal_concat(r + "  ... ("@ + decimal((v.len() - SUMMARY_ROWS) as nat), " additional symbols omitted from summary)\n"@);
    }
}

proof fn lemma_target_printable(r: Relocation)
    requires
        relocation_texts_printable(r),
    ensures
        printable_text(relocation_target(r)),
{
    reveal_strlit("<none>");
}

proof fn lemma_relocation_line_terminal(p: Seq<char>, r: Relocation)
    requires
        terminal_text(p),
        relocation_texts_printable(r),
    ensures
        terminal_text(with_relocation_line(p, r)),
{
    assert(terminal_text("  offset="@)) by { reveal_strlit("  offset="); }
    prefixed_hex_printable(r.offset as nat, 10); printable_is_terminal(prefixed_hex_width(r.offset as nat, 10));
    assert(terminal_text(" type="@)) by { reveal_strlit(" type="); }
    decimal_printable(r.rel_type as nat); pad_right_printable(decimal(r.rel_type as nat), 4); printable_is_terminal(pad_right(decimal(r.rel_type as nat), 4));
    assert(terminal_text(" sym="@)) by { reveal_strlit(" sym="); }
    lemma_target_printable(r); pad_right_printable(relocation_target(r), 24); printable_is_terminal(pad_right(relocation_target(r), 24));
    assert(terminal_text(" section="@)) by { reveal_strlit(" section="); }
    printable_is_terminal(r.section_name@);
    assert(terminal_text("\n"@)) by { reveal_strlit("\n"); }
    terminal_concat(p, "  offset="@);
    terminal_concat(p + "  offset="@, prefixed_hex_width(r.offset as nat, 10));
    terminal_concat(p + "  offset="@ + prefixed_hex_width(r.offset as nat, 10), " type="@);
    terminal_concat(p + "  offset="@ + prefixed_hex_width(r.offset as nat, 10) + " type="@, pad_right(decimal(r.rel_type as nat), 4));
    terminal_concat(p + "  offset="@ + prefixed_hex_width(r.offset as nat, 10) + " type="@ + pad_right(decimal(r.rel_type as nat), 4), " sym="@);
    terminal_concat(p + "  offset="@ + prefixed_hex_width(r.offset as nat, 10) + " type="@ + pad_right(decimal(r.rel_type as nat), 4) + " sym="@, pad_right(relocation_target(r), 24));
    terminal_concat(p + "  offset="@ + prefixed_hex_width(r.offset as nat, 10) + " type="@ + pad_right(decimal(r.rel_type as nat), 4) + " sym="@ + pad_right(relocation_target(r), 24), " section="@);
    terminal_concat(p + "  offset="@ + prefixed_hex_width(r.offset as nat, 10) + " type="@ + pad_right(decimal(r.rel_type as nat), 4) + " sym="@ + pad_right(relocation_target(r), 24) + " section="@, r.section_name@);
    terminal_concat(p + "  offset="@ + prefixed_hex_width(r.offset as nat, 10) + " type="@ + pad_right(decimal(r.rel_type as nat), 4) + " sym="@ + pad_right(relocation_target(r), 24) + " section="@ + r.section_name@, "\n"@);
}

proof fn lemma_relocation_lines_terminal(p: Seq<char>, v: Seq<Relocation>)
    requires
        terminal_text(p),
        forall|i: int| 0 <= i < v.len() ==> relocation_texts_printable(#[trigger] v[i]),
    ensures
        terminal_text(with_relocation_lines(p, v)),
    decreases v.len(),
{
    if v.len() > 0 {
        lemma_relocation_lines_terminal(p, v.drop_last());
        assert(relocation_texts_printable(v[v.len() - 1]));
        lemma_relocation_line_terminal(with_relocation_lines(p, v.drop_last()), v.last());
    }
}

proof fn lemma_relocations_terminal(p: Seq<char>, v: Seq<Relocation>)
    requires
        terminal_text(p),
        forall|i: int| 0 <= i < v.len() ==> relocation_texts_printable(#[trigger] v[i]),
    ensures
        terminal_text(with_relocations(p, v)),
{
    assert(terminal_text("\nRelocations ("@)) by { reveal_strlit("\nRelocations ("); }
    assert(terminal_text("):\n"@)) by { reveal_strlit("):\n"); }
    decimal_printable(v.len());
    printable_is_terminal(decimal(v.len()));
    terminal_concat(p, "\nRelocations ("@);
    terminal_concat(p + "\nRelocations ("@, decimal(v.len()));
    terminal_concat(p + "\nRelocations ("@ + decimal(v.len()), "):\n"@);
    let q = p + "\nRelocations ("@ + decimal(v.len()) + "):\n"@;
    let shown = summary(v);
    assert forall|i: int| 0 <= i < shown.len() implies relocation_texts_printable(#[trigger] shown[i]) by {
        assert(shown[i] == v[i]);
    }
    lemma_relocation_lines_terminal(q, shown);
    let r = with_relocation_lines(q, shown);
    if v.len() > SUMMARY_ROWS {
        assert(terminal_text("  ... ("@)) by { reveal_strlit("  ... ("); }
        assert(terminal_text(" additional relocations omitted)\n"@)) by {
            reveal_strlit(" additional relocations omitted)\n");
        }
        decimal_printable((v.len() - SUMMARY_ROWS) as nat);
        printable_is_terminal(decimal((v.len() - SUMMARY_ROWS) as nat));
        terminal_concat(r, "  ... ("@);
        terminal_concat(r + "  ... ("@, decimal((v.len() - SUMMARY_ROWS) as nat));
        terminal_concat(r + "  ... ("@ + decimal((v.len() - SUMMARY_ROWS) as nat), " additional relocations omitted)\n"@);
    }
}

/// The human-readable report is terminal-safe: when the texts a result took
/// from the inspected file are printable, every character of the report is
/// printable ASCII or a line break, whichever categories are shown.
pub proof fn report_is_terminal_safe(b: Binary, o: ReportOptions)
    requires
        file_texts_printable(b),
    ensures
        terminal_text(report_text(b, o)),
{
    assert(terminal_text(Seq::<char>::empty()));
    let t0 = with_header(Seq::empty(), b);
    lemma_header_terminal(Seq::empty(), b);
    let t1 = if o.mitigations { with_mitigations(t0, b.mitigations) } else { t0 };
    lemma_mitigations_terminal(t0, b.mitigations);
    assert(terminal_text("\nSections ("@)) by { reveal_strlit("\nSections ("); }
    assert(terminal_text("\nSegments ("@)) by { reveal_strlit("\nSegments ("); }
    assert(terminal_text("):\n"@)) by { reveal_strlit("):\n"); }
    decimal_printable(b.sections@.len());
    printable_is_terminal(decimal(b.sections@.len()));
    terminal_concat(t1, "\nSections ("@);
    terminal_concat(t1 + "\nSections ("@, decimal(b.sections@.len()));
    terminal_concat(t1 + "\nSections ("@ + decimal(b.sections@.len()), "):\n"@);
    let h2 = t1 + "\nSections ("@ + decimal(b.sections@.len()) + "):\n"@;
    lemma_section_lines_terminal(h2, b.sections@);
    let t2 = if o.sections { with_section_lines(h2, b.sections@) } else { t1 };
    decimal_printable(b.segments@.len());
    printable_is_terminal(decimal(b.segments@.len()));
    terminal_concat(t2, "\nSegments ("@);
    terminal_concat(t2 + "\nSegments ("@, decimal(b.segments@.len()));
    terminal_concat(t2 + "\nSegments ("@ + decimal(b.segments@.len()), "):\n"@);
    let h3 = t2 + "\nSegments ("@ + decimal(b.segments@.len()) + "):\n"@;
    lemma_segment_lines_terminal(h3, b.segments@);
    let t3 = if o.segments { with_segment_lines(h3, b.segments@) } else { t2 };
    lemma_dependencies_terminal(t3, b.dynamic);
    let t4 = if o.dependencies { with_dependencies(t3, b.dynamic) } else { t3 };
    lemma_notes_terminal(t4, b.notes@);
    let t5 = if o.notes { with_notes(t4, b.notes@) } else { t4 };
    lemma_symbols_terminal(t5, b.symbols@);
    let t6 = if o.symbols { with_symbols(t5, b.symbols@) } else { t5 };
    lemma_relocations_terminal(t6, b.relocations@);
}

} // verus!
