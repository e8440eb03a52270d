//! Format-neutral result types of an inspection.

use vstd::prelude::*;
use crate::fmt::{hex, hex_printable, push_hex, push_str};
use crate::text::{group_text_safety, printable_text};

verus! {

/// A completed inspection result.
#[derive(Debug, Clone)]
pub struct Binary {
    /// The recognized file format.
    pub format: FileFormat,
    /// Basic metadata obtained from the filesystem.
    pub file: FileMetadata,
    /// ELF identification and header fields.
    pub elf: ElfHeader,
    /// Loader metadata decoded from the dynamic table.
    pub dynamic: DynamicInfo,
    /// Section headers in file order.
    pub sections: Vec<Section>,
    /// Program headers in file order.
    pub segments: Vec<Segment>,
    /// Static and dynamic symbols in table order.
    pub symbols: Vec<Symbol>,
    /// Security hardening findings.
    pub mitigations: SecurityMitigations,
    /// ELF notes in file order.
    pub notes: Vec<ElfNote>,
    /// Relocation entries in file order.
    pub relocations: Vec<Relocation>,
    /// Content digests of the whole file.
    pub hashes: FileHashes,
}

/// The inspected file format.
#[derive(Debug, Clone, Copy, PartialEq, Eq, Structural)]
pub enum FileFormat {
    /// Executable and Linkable Format.
    Elf,
}

/// Safe filesystem metadata included in a report.
#[derive(Debug, Clone, Copy, PartialEq, Eq, Structural)]
pub struct FileMetadata {
    /// File length in bytes at read time.
    pub size_bytes: u64,
}

/// Content digests of the inspected file.
#[derive(Debug, Clone)]
pub struct FileHashes {
    /// Lower-case hexadecimal SHA-256 digest of the file contents.
    pub sha256: String,
}

/// ELF header fields.
#[derive(Debug, Clone, Copy, PartialEq, Eq, Structural)]
pub struct ElfHeader {
    /// ELF word size.
    pub class: ElfClass,
    /// Byte order used by numeric ELF fields.
    pub endianness: Endianness,
    /// ELF object type.
    pub elf_type: ElfType,
    /// Target instruction-set architecture.
    pub machine: Machine,
    /// Target operating-system ABI.
    pub os_abi: OsAbi,
    /// ABI version byte from the ELF identifier.
    pub abi_version: u8,
    /// Program entry address.
    pub entry_point: u64,
    /// Processor-specific flags (`e_flags`).
    pub flags: u32,
    /// File offset of the section header table.
    pub section_offset: u64,
    /// Size of one section header entry.
    pub section_entry_size: u16,
    /// Number of section header entries.
    pub section_count: u16,
    /// File offset of the program header table.
    pub program_offset: u64,
    /// Size of one program header entry.
    pub program_entry_size: u16,
    /// Number of program header entries.
    pub program_count: u16,
}

/// ELF class from `EI_CLASS`.
#[derive(Debug, Clone, Copy, PartialEq, Eq, Structural)]
pub enum ElfClass {
    /// 32-bit ELF.
    Elf32,
    /// 64-bit ELF.
    Elf64,
}

impl ElfClass {
    /// The display name of the class.
    pub fn label(&self) -> (s: &'static str)
        ensures
            s == (if *self is Elf32 { "ELF32" } else { "ELF64" }),
    {
        match self {
            ElfClass::Elf32 => "ELF32",
            ElfClass::Elf64 => "ELF64",
        }
    }
}

/// ELF byte order from `EI_DATA`.
#[derive(Debug, Clone, Copy, PartialEq, Eq, Structural)]
pub enum Endianness {
    /// Little-endian encoding.
    Little,
    /// Big-endian encoding.
    Big,
}

impl Endianness {
    /// The display name of the byte order.
    pub fn label(&self) -> (s: &'static str)
        ensures
            s == (if *self is Little { "little-endian" } else { "big-endian" }),
    {
        match self {
            Endianness::Little => "little-endian",
            Endianness::Big => "big-endian",
        }
    }
}

/// `other (0x..)`: the display form of an unrecognized value.
pub open spec fn other_label(value: nat) -> Seq<char> {
    "other (0x"@ + hex(value) + ")"@
}

fn other_string(value: u64) -> (s: String)
    ensures
        s@ == other_label(value as nat),
{
    let mut s = String::new();
    push_str(&mut s, "other (0x");
    push_hex(&mut s, value);
    push_str(&mut s, ")");
    assert(s@ =~= other_label(value as nat));
    s
}

/// ELF object type.
#[derive(Debug, Clone, Copy, PartialEq, Eq, Structural)]
pub enum ElfType {
    /// Relocatable object.
    Relocatable,
    /// Executable object.
    Executable,
    /// Shared object.
    Shared,
    /// Core dump.
    Core,
    /// An unrecognized standardized or processor-specific value.
    Other(u16),
}

/// The display text of an ELF object type.
pub open spec fn elf_type_label(t: ElfType) -> Seq<char> {
    match t {
        ElfType::Relocatable => "relocatable"@,
        ElfType::Executable => "executable"@,
        ElfType::Shared => "shared object"@,
        ElfType::Core => "core"@,
        ElfType::Other(v) => other_label(v as nat),
    }
}

impl ElfType {
    /// The display text of the object type.
    pub fn label(&self) -> (s: String)
        ensures
            s@ == elf_type_label(*self),
    {
        match self {
            ElfType::Relocatable => String::from_str("relocatable"),
            ElfType::Executable => String::from_str("executable"),
            ElfType::Shared => String::from_str("shared object"),
            ElfType::Core => String::from_str("core"),
            ElfType::Other(v) => other_string(*v as u64),
        }
    }
}

/// Common ELF machine values, retaining unknown values losslessly.
#[derive(Debug, Clone, Copy, PartialEq, Eq, Structural)]
#[allow(non_camel_case_types)]
pub enum Machine {
    /// Intel 80386.
    X86,
    /// AMD x86-64.
    X86_64,
    /// 32-bit ARM.
    Arm,
    /// AArch64.
    Aarch64,
    /// RISC-V.
    RiscV,
    /// An unrecognized machine value.
    Other(u16),
}

/// The display text of a machine.
pub open spec fn machine_label(m: Machine) -> Seq<char> {
    match m {
        Machine::X86 => "Intel 80386"@,
        Machine::X86_64 => "x86-64"@,
        Machine::Arm => "ARM"@,
        Machine::Aarch64 => "AArch64"@,
        Machine::RiscV => "RISC-V"@,
        Machine::Other(v) => other_label(v as nat),
    }
}

impl Machine {
    /// The display text of the machine.
    pub fn label(&self) -> (s: String)
        ensures
            s@ == machine_label(*self),
    {
        match self {
            Machine::X86 => String::from_str("Intel 80386"),
            Machine::X86_64 => String::from_str("x86-64"),
            Machine::Arm => String::from_str("ARM"),
            Machine::Aarch64 => String::from_str("AArch64"),
            Machine::RiscV => String::from_str("RISC-V"),
            Machine::Other(v) => other_string(*v as u64),
        }
    }
}

/// ELF OS ABI value, retaining unknown values losslessly.
#[derive(Debug, Clone, Copy, PartialEq, Eq, Structural)]
pub enum OsAbi {
    /// System V ABI.
    SystemV,
    /// GNU extension ABI.
    Gnu,
    /// Linux ABI alias.
    Linux,
    /// FreeBSD ABI.
    FreeBsd,
    /// An unrecognized OS ABI value.
    Other(u8),
}

/// The display text of an OS ABI.
pub open spec fn os_abi_label(a: OsAbi) -> Seq<char> {
    match a {
        OsAbi::SystemV => "System V"@,
        OsAbi::Gnu => "GNU"@,
        OsAbi::Linux => "Linux"@,
        OsAbi::FreeBsd => "FreeBSD"@,
        OsAbi::Other(v) => other_label(v as nat),
    }
}

impl OsAbi {
    /// The display text of the OS ABI.
    pub fn label(&self) -> (s: String)
        ensures
            s@ == os_abi_label(*self),
    {
        match self {
            OsAbi::SystemV => String::from_str("System V"),
            OsAbi::Gnu => String::from_str("GNU"),
            OsAbi::Linux => String::from_str("Linux"),
            OsAbi::FreeBsd => String::from_str("FreeBSD"),
            OsAbi::Other(v) => other_string(*v as u64),
        }
    }
}

/// One section header.
#[derive(Debug, Clone)]
pub struct Section {
    /// Position in the section header table.
    pub index: u16,
    /// Terminal-safe section name.
    pub name: String,
    /// `sh_type`.
    pub section_type: u32,
    /// `sh_flags`.
    pub flags: u64,
    /// `sh_addr`.
    pub address: u64,
    /// `sh_offset`.
    pub offset: u64,
    /// `sh_size`.
    pub size: u64,
    /// `sh_link`.
    pub link: u32,
    /// `sh_info`.
    pub info: u32,
    /// `sh_addralign`.
    pub alignment: u64,
    /// `sh_entsize`.
    pub entry_size: u64,
    /// Whether the section contents fall within the shared entropy scan budget.
    pub entropy_scanned: bool,
    /// Shannon entropy of the contents in hundredths of a bit per byte, once
    /// computed by the caller for a scanned section.
    pub entropy: Option<u16>,
}

/// One program header.
#[derive(Debug, Clone, Copy, PartialEq, Eq, Structural)]
pub struct Segment {
    /// Position in the program header table.
    pub index: u16,
    /// `p_type`.
    pub segment_type: u32,
    /// `p_flags`.
    pub flags: u32,
    /// `p_offset`.
    pub offset: u64,
    /// `p_vaddr`.
    pub virtual_address: u64,
    /// `p_filesz`.
    pub file_size: u64,
    /// `p_memsz`.
    pub memory_size: u64,
    /// `p_align`.
    pub alignment: u64,
}

/// One decoded dynamic-table entry.
#[derive(Debug, Clone)]
pub struct DynamicEntry {
    /// `d_tag`.
    pub tag: u64,
    /// Symbolic name of the tag.
    pub tag_name: String,
    /// `d_val` / `d_ptr`.
    pub value: u64,
    /// The referenced string for string-valued tags.
    pub string_value: Option<String>,
}

/// Loader metadata from `PT_INTERP` and the dynamic table.
#[derive(Debug, Clone)]
pub struct DynamicInfo {
    /// Program interpreter path.
    pub interpreter: Option<String>,
    /// `DT_NEEDED` libraries in table order.
    pub needed: Vec<String>,
    /// `DT_RPATH`.
    pub rpath: Option<String>,
    /// `DT_RUNPATH`.
    pub runpath: Option<String>,
    /// Whether immediate binding is requested.
    pub bind_now: bool,
    /// Every entry up to `DT_NULL`.
    pub entries: Vec<DynamicEntry>,
}

impl Default for DynamicInfo {
    fn default() -> (d: Self)
        ensures
            d.interpreter is None,
            d.needed@.len() == 0,
            d.rpath is None,
            d.runpath is None,
            !d.bind_now,
            d.entries@.len() == 0,
    {
        DynamicInfo {
            interpreter: None,
            needed: Vec::new(),
            rpath: None,
            runpath: None,
            bind_now: false,
            entries: Vec::new(),
        }
    }
}

/// Symbol type from `st_info`.
#[derive(Debug, Clone, Copy, PartialEq, Eq, Structural)]
pub enum SymbolType {
    /// `STT_NOTYPE`.
    NoType,
    /// `STT_OBJECT`.
    Object,
    /// `STT_FUNC`.
    Func,
    /// `STT_SECTION`.
    Section,
    /// `STT_FILE`.
    File,
    /// `STT_COMMON`.
    Common,
    /// `STT_TLS`.
    Tls,
    /// `STT_GNU_IFUNC`.
    GnuIfunc,
    /// Any other value.
    Other(u8),
}

/// Symbol binding from `st_info`.
#[derive(Debug, Clone, Copy, PartialEq, Eq, Structural)]
pub enum SymbolBinding {
    /// `STB_LOCAL`.
    Local,
    /// `STB_GLOBAL`.
    Global,
    /// `STB_WEAK`.
    Weak,
    /// `STB_GNU_UNIQUE`.
    GnuUnique,
    /// Any other value.
    Other(u8),
}

/// Symbol visibility from `st_other`.
#[derive(Debug, Clone, Copy, PartialEq, Eq, Structural)]
pub enum SymbolVisibility {
    /// `STV_DEFAULT`.
    Default,
    /// `STV_INTERNAL`.
    Internal,
    /// `STV_HIDDEN`.
    Hidden,
    /// `STV_PROTECTED`.
    Protected,
}

/// The table a symbol was read from.
#[derive(Debug, Clone, Copy, PartialEq, Eq, Structural)]
pub enum SymbolTableKind {
    /// `.symtab`.
    Static,
    /// `.dynsym`.
    Dynamic,
}

/// One symbol-table entry.
#[derive(Debug, Clone)]
pub struct Symbol {
    /// Position among all decoded symbols.
    pub index: usize,
    /// Terminal-safe symbol name.
    pub name: String,
    /// `st_value`.
    pub value: u64,
    /// `st_size`.
    pub size: u64,
    /// Symbol type.
    pub sym_type: SymbolType,
    /// Symbol binding.
    pub binding: SymbolBinding,
    /// Symbol visibility.
    pub visibility: SymbolVisibility,
    /// Defining section, when it is an ordinary section index.
    pub section_index: Option<u16>,
    /// Undefined and named: resolved from another object.
    pub is_import: bool,
    /// Defined, global or weak, and named.
    pub is_export: bool,
    /// The table the symbol came from.
    pub table: SymbolTableKind,
}

/// A tri-state hardening finding.
#[derive(Debug, Clone, Copy, PartialEq, Eq, Structural)]
pub enum Hardening {
    /// The protection is present.
    Enabled,
    /// The protection is absent.
    Disabled,
    /// The file carries too little information to decide.
    Unknown,
}

/// Relocation read-only protection.
#[derive(Debug, Clone, Copy, PartialEq, Eq, Structural)]
pub enum Relro {
    /// `PT_GNU_RELRO` with immediate binding.
    Full,
    /// `PT_GNU_RELRO` with lazy binding.
    Partial,
    /// No `PT_GNU_RELRO`.
    NoRelro,
    /// No program headers.
    Unknown,
}

/// Position-independence of the image.
#[derive(Debug, Clone, Copy, PartialEq, Eq, Structural)]
pub enum PieStatus {
    /// A position-independent executable.
    Pie,
    /// A fixed-address executable.
    NoPie,
    /// A shared library.
    Dso,
    /// Neither an executable nor a shared object.
    Unknown,
}

/// The display text of a RELRO finding.
pub open spec fn relro_label(r: Relro) -> &'static str {
    match r {
        Relro::Full => "Full RELRO",
        Relro::Partial => "Partial RELRO",
        Relro::NoRelro => "No RELRO",
        Relro::Unknown => "Unknown (no program headers)",
    }
}

/// The display text of a PIE finding.
pub open spec fn pie_label(p: PieStatus) -> &'static str {
    match p {
        PieStatus::Pie => "PIE enabled",
        PieStatus::NoPie => "No PIE",
        PieStatus::Dso => "DSO (shared library)",
        PieStatus::Unknown => "Unknown",
    }
}

impl Relro {
    /// The display text of the finding.
    pub fn label(&self) -> (s: &'static str)
        ensures
            s == relro_label(*self),
    {
        match self {
            Relro::Full => "Full RELRO",
            Relro::Partial => "Partial RELRO",
            Relro::NoRelro => "No RELRO",
            Relro::Unknown => "Unknown (no program headers)",
        }
    }
}

impl PieStatus {
    /// The display text of the finding.
    pub fn label(&self) -> (s: &'static str)
        ensures
            s == pie_label(*self),
    {
        match self {
            PieStatus::Pie => "PIE enabled",
            PieStatus::NoPie => "No PIE",
            PieStatus::Dso => "DSO (shared library)",
            PieStatus::Unknown => "Unknown",
        }
    }
}

/// Security hardening findings (checksec).
#[derive(Debug, Clone)]
pub struct SecurityMitigations {
    /// RELRO level.
    pub relro: Relro,
    /// Stack-protector references.
    pub stack_canary: Hardening,
    /// Non-executable stack.
    pub nx: Hardening,
    /// Position independence.
    pub pie: PieStatus,
    /// Fortified libc calls.
    pub fortify: Hardening,
    /// Sorted, distinct names of imported `_chk` functions.
    pub fortified_functions: Vec<String>,
    /// Number of segments both writable and executable.
    pub rwx_segments: usize,
    /// Whether RPATH or RUNPATH holds an empty or relative entry.
    pub has_insecure_rpath: bool,
}

/// One ELF note.
#[derive(Debug, Clone)]
pub struct ElfNote {
    /// Terminal-safe owner name.
    pub name: String,
    /// `n_type`.
    pub note_type: u32,
    /// Human-readable summary.
    pub description: String,
    /// GNU build ID in lower-case hexadecimal.
    pub build_id: Option<String>,
    /// GNU ABI tag.
    pub abi_tag: Option<String>,
    /// Decoded GNU properties.
    pub properties: Vec<String>,
}

/// One relocation entry.
#[derive(Debug, Clone)]
pub struct Relocation {
    /// Name of the relocation section.
    pub section_name: String,
    /// `r_offset`.
    pub offset: u64,
    /// Relocation type from `r_info`.
    pub rel_type: u32,
    /// Symbol index from `r_info`.
    pub symbol_index: u32,
    /// Name of the referenced symbol, when resolvable and non-empty.
    pub symbol_name: Option<String>,
    /// `r_addend` for `SHT_RELA` entries.
    pub addend: Option<i64>,
}

} // verus!

verus! {

/// The display text of a symbol type.
pub open spec fn symbol_type_label(t: SymbolType) -> Seq<char> {
    match t {
        SymbolType::NoType => "NOTYPE"@,
        SymbolType::Object => "OBJECT"@,
        SymbolType::Func => "FUNC"@,
        SymbolType::Section => "SECTION"@,
        SymbolType::File => "FILE"@,
        SymbolType::Common => "COMMON"@,
        SymbolType::Tls => "TLS"@,
        SymbolType::GnuIfunc => "IFUNC"@,
        SymbolType::Other(v) => other_label(v as nat),
    }
}

impl SymbolType {
    /// The display text of the symbol type.
    pub fn label(&self) -> (s: String)
        ensures
            s@ == symbol_type_label(*self),
    {
        match self {
            SymbolType::NoType => String::from_str("NOTYPE"),
            SymbolType::Object => String::from_str("OBJECT"),
            SymbolType::Func => String::from_str("FUNC"),
            SymbolType::Section => String::from_str("SECTION"),
            SymbolType::File => String::from_str("FILE"),
            SymbolType::Common => String::from_str("COMMON"),
            SymbolType::Tls => String::from_str("TLS"),
            SymbolType::GnuIfunc => String::from_str("IFUNC"),
            SymbolType::Other(v) => other_string(*v as u64),
        }
    }
}

/// The display text of a symbol binding.
pub open spec fn binding_label(b: SymbolBinding) -> Seq<char> {
    match b {
        SymbolBinding::Local => "LOCAL"@,
        SymbolBinding::Global => "GLOBAL"@,
        SymbolBinding::Weak => "WEAK"@,
        SymbolBinding::GnuUnique => "UNIQUE"@,
        SymbolBinding::Other(v) => other_label(v as nat),
    }
}

impl SymbolBinding {
    /// The display text of the binding.
    pub fn label(&self) -> (s: String)
        ensures
            s@ == binding_label(*self),
    {
        match self {
            SymbolBinding::Local => String::from_str("LOCAL"),
            SymbolBinding::Global => String::from_str("GLOBAL"),
            SymbolBinding::Weak => String::from_str("WEAK"),
            SymbolBinding::GnuUnique => String::from_str("UNIQUE"),
            SymbolBinding::Other(v) => other_string(*v as u64),
        }
    }
}

/// The display text of a symbol visibility.
pub open spec fn visibility_label(v: SymbolVisibility) -> &'static str {
    match v {
        SymbolVisibility::Default => "DEFAULT",
        SymbolVisibility::Internal => "INTERNAL",
        SymbolVisibility::Hidden => "HIDDEN",
        SymbolVisibility::Protected => "PROTECTED",
    }
}

impl SymbolVisibility {
    /// The display text of the visibility.
    pub fn label(&self) -> (s: &'static str)
        ensures
            s == visibility_label(*self),
    {
        match self {
            SymbolVisibility::Default => "DEFAULT",
            SymbolVisibility::Internal => "INTERNAL",
            SymbolVisibility::Hidden => "HIDDEN",
            SymbolVisibility::Protected => "PROTECTED",
        }
    }
}

} // verus!

verus! {

pub(crate) proof fn other_label_printable(value: nat)
    ensures
        printable_text(other_label(value)),
{
    broadcast use group_text_safety;

    reveal_strlit("other (0x");
    reveal_strlit(")");
    hex_printable(value);
}

pub(crate) proof fn header_labels_printable(h: ElfHeader)
    ensures
        printable_text(elf_type_label(h.elf_type)),
        printable_text(machine_label(h.machine)),
        printable_text(os_abi_label(h.os_abi)),
        printable_text(if h.class is Elf32 { "ELF32"@ } else { "ELF64"@ }),
        printable_text(if h.endianness is Little { "little-endian"@ } else { "big-endian"@ }),
{
    reveal_strlit("relocatable");
    reveal_strlit("executable");
    reveal_strlit("shared object");
    reveal_strlit("core");
    reveal_strlit("Intel 80386");
    reveal_strlit("x86-64");
    reveal_strlit("ARM");
    reveal_strlit("AArch64");
    reveal_strlit("RISC-V");
    reveal_strlit("System V");
    reveal_strlit("GNU");
    reveal_strlit("Linux");
    reveal_strlit("FreeBSD");
    reveal_strlit("ELF32");
    reveal_strlit("ELF64");
    reveal_strlit("little-endian");
    reveal_strlit("big-endian");
    match h.elf_type {
        ElfType::Other(v) => other_label_printable(v as nat),
        _ => {},
    }
    match h.machine {
        Machine::Other(v) => other_label_printable(v as nat),
        _ => {},
    }
    match h.os_abi {
        OsAbi::Other(v) => other_label_printable(v as nat),
        _ => {},
    }
}

pub(crate) proof fn symbol_labels_printable(s: Symbol)
    ensures
        printable_text(symbol_type_label(s.sym_type)),
        printable_text(binding_label(s.binding)),
        printable_text(visibility_label(s.visibility)@),
{
    reveal_strlit("NOTYPE");
    reveal_strlit("OBJECT");
    reveal_strlit("FUNC");
    reveal_strlit("SECTION");
    reveal_strlit("FILE");
    reveal_strlit("COMMON");
    reveal_strlit("TLS");
    reveal_strlit("IFUNC");
    reveal_strlit("LOCAL");
    reveal_strlit("GLOBAL");
    reveal_strlit("WEAK");
    reveal_strlit("UNIQUE");
    reveal_strlit("DEFAULT");
    reveal_strlit("INTERNAL");
    reveal_strlit("HIDDEN");
    reveal_strlit("PROTECTED");
    match s.sym_type {
        SymbolType::Other(v) => other_label_printable(v as nat),
        _ => {},
    }
    match s.binding {
        SymbolBinding::Other(v) => other_label_printable(v as nat),
        _ => {},
    }
}

pub(crate) proof fn finding_labels_printable(r: Relro, p: PieStatus)
    ensures
        printable_text(relro_label(r)@),
        printable_text(pie_label(p)@),
{
    reveal_strlit("Full RELRO");
    reveal_strlit("Partial RELRO");
    reveal_strlit("No RELRO");
    reveal_strlit("Unknown (no program headers)");
    reveal_strlit("PIE enabled");
    reveal_strlit("No PIE");
    reveal_strlit("DSO (shared library)");
    reveal_strlit("Unknown");
}

} // verus!
