//! `SHT_REL` and `SHT_RELA` relocation tables.

use vstd::prelude::*;
use crate::error::AppError;
use crate::model::{ElfClass, Endianness, Relocation, Section, Symbol, SymbolTableKind};
use super::dynamic::range_bytes;
use super::read::{file_slice, range_in_file, read_i32, read_i64, read_u32, read_u64, u32_at, u64_at};

verus! {

/// Largest number of relocation entries decoded in one inspection.
pub const MAX_RELOC_ENTRIES: usize = 32_768;

/// `SHT_RELA`.
pub open spec fn is_rela(sec: Section) -> bool {
    sec.section_type == 4
}

/// `SHT_RELA` or `SHT_REL`.
pub open spec fn is_reloc_section(sec: Section) -> bool {
    sec.section_type == 4 || sec.section_type == 9
}

/// Size of one relocation entry.
pub open spec fn reloc_width(c: ElfClass, rela: bool) -> int {
    match (c, rela) {
        (ElfClass::Elf32, false) => 8,
        (ElfClass::Elf32, true) => 12,
        (ElfClass::Elf64, false) => 16,
        (ElfClass::Elf64, true) => 24,
    }
}

/// A relocation entry as stored in the file.
#[derive(Debug, Clone, Copy, PartialEq, Eq, Structural)]
pub struct RawReloc {
    /// `r_offset`.
    pub offset: u64,
    /// Relocation type from `r_info`.
    pub rel_type: u32,
    /// Symbol index from `r_info`.
    pub symbol_index: u32,
    /// `r_addend` of an `SHT_RELA` entry.
    pub addend: Option<i64>,
}

/// The relocation entry at offset `at` of a relocation table.
pub open spec fn raw_reloc_at(d: Seq<u8>, at: int, c: ElfClass, rela: bool, e: Endianness) -> RawReloc {
    if c is Elf32 {
        let info = u32_at(d, at + 4, e) as u32;
        RawReloc {
            offset: u32_at(d, at, e) as u64,
            rel_type: info & 0xff,
            symbol_index: info >> 8,
            addend: if rela { Some(((u32_at(d, at + 8, e) as u32) as i32) as i64) } else { None },
        }
    } else {
        let info = u64_at(d, at + 8, e) as u64;
        RawReloc {
            offset: u64_at(d, at, e) as u64,
            rel_type: (info & 0xffff_ffff) as u32,
            symbol_index: (info >> 32) as u32,
            addend: if rela { Some((u64_at(d, at + 16, e) as u64) as i64) } else { None },
        }
    }
}

fn read_reloc(d: &[u8], at: usize, class: &ElfClass, rela: bool, endianness: &Endianness) -> (r: Result<RawReloc, AppError>)
    requires
        at + reloc_width(*class, rela) <= d@.len(),
    ensures
        r == Ok::<RawReloc, AppError>(raw_reloc_at(d@, at as int, *class, rela, *endianness)),
{
    let len = d.len();
    match class {
        ElfClass::Elf32 => {
            let offset = read_u32(d, at, endianness)?;
            let info = read_u32(d, at + 4, endianness)?;
            let addend = if rela { Some(read_i32(d, at + 8, endianness)? as i64) } else { None };
            Ok(RawReloc { offset: offset as u64, rel_type: info & 0xff, symbol_index: info >> 8, addend })
        },
        ElfClass::Elf64 => {
            let offset = read_u64(d, at, endianness)?;
            let info = read_u64(d, at + 8, endianness)?;
            let addend = if rela { Some(read_i64(d, at + 16, endianness)?) } else { None };
            Ok(RawReloc { offset, rel_type: (info & 0xffff_ffff) as u32, symbol_index: (info >> 32) as u32, addend })
        },
    }
}

/// The names of the symbols of one table kind, in order.
pub open spec fn kind_names(symbols: Seq<Symbol>, kind: SymbolTableKind) -> Seq<Seq<char>>
    decreases symbols.len(),
{
    if symbols.len() == 0 {
        Seq::empty()
    } else {
        let prev = kind_names(symbols.drop_last(), kind);
        if symbols.last().table == kind {
            prev.push(symbols.last().name@)
        } else {
            prev
        }
    }
}

/// The symbol table kind a relocation section links to.
pub open spec fn target_kind(secs: Seq<Section>, sec: Section) -> Option<SymbolTableKind> {
    if sec.link < secs.len() {
        let t = secs[sec.link as int].section_type;
        if t == 2 {
            Some(SymbolTableKind::Static)
        } else if t == 11 {
            Some(SymbolTableKind::Dynamic)
        } else {
            None
        }
    } else {
        None
    }
}

/// The name of the symbol a relocation refers to, when it resolves to a non-empty name.
pub open spec fn reloc_symbol_name(secs: Seq<Section>, symbols: Seq<Symbol>, sec: Section, index: u32) -> Option<Seq<char>> {
    match target_kind(secs, sec) {
        Some(kind) => {
            let names = kind_names(symbols, kind);
            if index < names.len() && names[index as int].len() > 0 {
                Some(names[index as int])
            } else {
                None
            }
        },
        None => None,
    }
}

/// The number of entries of relocation section `sec`, before the global cap.
pub open spec fn reloc_count(s: Seq<u8>, sec: Section, c: ElfClass) -> nat {
    if is_reloc_section(sec) && range_in_file(s.len(), sec.offset, sec.size) {
        let n = (sec.size as int / reloc_width(c, is_rela(sec))) as nat;
        if n <= MAX_RELOC_ENTRIES {
            n
        } else {
            MAX_RELOC_ENTRIES as nat
        }
    } else {
        0
    }
}

/// Entries contributed by sections `0..j`, before the global cap.
pub open spec fn relocs_before(s: Seq<u8>, secs: Seq<Section>, c: ElfClass, j: int) -> nat
    decreases j,
{
    if j <= 0 {
        0
    } else {
        relocs_before(s, secs, c, j - 1) + reloc_count(s, secs[j - 1], c)
    }
}

/// Entry `i` of relocation section `sec`.
pub open spec fn section_reloc(s: Seq<u8>, sec: Section, c: ElfClass, e: Endianness, i: int) -> RawReloc {
    raw_reloc_at(range_bytes(s, sec.offset, sec.size), i * reloc_width(c, is_rela(sec)), c, is_rela(sec), e)
}

/// The decoding of one relocation.
pub open spec fn reloc_decoded(sec: Section, raw: RawReloc, name: Option<Seq<char>>, r: Relocation) -> bool {
    &&& r.section_name@ == sec.name@
    &&& r.offset == raw.offset
    &&& r.rel_type == raw.rel_type
    &&& r.symbol_index == raw.symbol_index
    &&& r.addend == raw.addend
    &&& match name {
        Some(n) => r.symbol_name matches Some(x) && x@ == n,
        None => r.symbol_name is None,
    }
}

/// Relocation `v[relocs_before(j) + i]`, when within the cap, decodes entry `i` of section `j`.
pub open spec fn reloc_slot(s: Seq<u8>, secs: Seq<Section>, symbols: Seq<Symbol>, c: ElfClass, e: Endianness, v: Seq<Relocation>, j: int, i: int) -> bool {
    let k = relocs_before(s, secs, c, j) + i;
    k < MAX_RELOC_ENTRIES ==> reloc_decoded(
        secs[j],
        section_reloc(s, secs[j], c, e, i),
        reloc_symbol_name(secs, symbols, secs[j], section_reloc(s, secs[j], c, e, i).symbol_index),
        v[k],
    )
}

/// The relocations of sections `0..upto`: their entries in order, up to the global cap.
pub open spec fn relocs_decoded_upto(s: Seq<u8>, secs: Seq<Section>, symbols: Seq<Symbol>, c: ElfClass, e: Endianness, v: Seq<Relocation>, upto: int) -> bool {
    let total = relocs_before(s, secs, c, upto);
    &&& v.len() == (if total <= MAX_RELOC_ENTRIES { total } else { MAX_RELOC_ENTRIES as nat })
    &&& forall|j: int, i: int| 0 <= j < upto && 0 <= i < reloc_count(s, secs[j], c) ==> #[trigger] reloc_slot(s, secs, symbols, c, e, v, j, i)
}

fn collect_names(symbols: &[Symbol], kind: SymbolTableKind) -> (names: Vec<String>)
    ensures
        names@.map_values(|x: String| x@) == kind_names(symbols@, kind),
{
    let mut names: Vec<String> = Vec::new();
    let mut k: usize = 0;
    while k < symbols.len()
        invariant
            k <= symbols@.len(),
            names@.map_values(|x: String| x@) == kind_names(symbols@.take(k as int), kind),
        decreases symbols@.len() - k,
    {
        assert(symbols@.take(k + 1).drop_last() =~= symbols@.take(k as int));
        if symbols[k].table == kind {
            names.push(symbols[k].name.clone());
        }
        assert(names@.map_values(|x: String| x@) =~= kind_names(symbols@.take(k + 1), kind));
        k = k + 1;
    }
    assert(symbols@.take(symbols@.len() as int) =~= symbols@);
    names
}

proof fn lemma_relocs_before_monotone(s: Seq<u8>, secs: Seq<Section>, c: ElfClass, i: int, j: int)
    requires
        0 <= i <= j <= secs.len(),
    ensures
        relocs_before(s, secs, c, i) <= relocs_before(s, secs, c, j),
    decreases j - i,
{
    if i < j {
        lemma_relocs_before_monotone(s, secs, c, i, j - 1);
    }
}

proof fn lemma_push_reloc(s: Seq<u8>, secs: Seq<Section>, symbols: Seq<Symbol>, c: ElfClass, e: Endianness, old: Seq<Relocation>, new: Seq<Relocation>, j: int, i: int)
    requires
        0 <= j < secs.len(),
        0 <= i < reloc_count(s, secs[j], c),
        old.len() == relocs_before(s, secs, c, j) + i,
        old.len() < MAX_RELOC_ENTRIES,
        new == old.push(new.last()),
        reloc_decoded(secs[j], section_reloc(s, secs[j], c, e, i), reloc_symbol_name(secs, symbols, secs[j], section_reloc(s, secs[j], c, e, i).symbol_index), new.last()),
        forall|jj: int, ii: int| 0 <= jj < j && 0 <= ii < reloc_count(s, secs[jj], c) ==> #[trigger] reloc_slot(s, secs, symbols, c, e, old, jj, ii),
        forall|ii: int| 0 <= ii < i ==> #[trigger] reloc_slot(s, secs, symbols, c, e, old, j, ii),
    ensures
        forall|jj: int, ii: int| 0 <= jj < j && 0 <= ii < reloc_count(s, secs[jj], c) ==> #[trigger] reloc_slot(s, secs, symbols, c, e, new, jj, ii),
        forall|ii: int| 0 <= ii < i + 1 ==> #[trigger] reloc_slot(s, secs, symbols, c, e, new, j, ii),
{
    assert forall|jj: int, ii: int| 0 <= jj < j && 0 <= ii < reloc_count(s, secs[jj], c) implies #[trigger] reloc_slot(s, secs, symbols, c, e, new, jj, ii) by {
        assert(reloc_slot(s, secs, symbols, c, e, old, jj, ii));
        lemma_relocs_before_monotone(s, secs, c, jj + 1, j);
    }
    assert forall|ii: int| 0 <= ii < i + 1 implies #[trigger] reloc_slot(s, secs, symbols, c, e, new, j, ii) by {
        if ii < i {
            assert(reloc_slot(s, secs, symbols, c, e, old, j, ii));
        }
    }
}

/// Every slot at or past the cap holds trivially; past-cap entries are not decoded.
proof fn lemma_capped_slots(s: Seq<u8>, secs: Seq<Section>, symbols: Seq<Symbol>, c: ElfClass, e: Endianness, v: Seq<Relocation>, j: int, i: int)
    requires
        0 <= j < secs.len(),
        relocs_before(s, secs, c, j) + i >= MAX_RELOC_ENTRIES,
        forall|ii: int| 0 <= ii < i ==> #[trigger] reloc_slot(s, secs, symbols, c, e, v, j, ii),
    ensures
        forall|ii: int| 0 <= ii < reloc_count(s, secs[j], c) ==> #[trigger] reloc_slot(s, secs, symbols, c, e, v, j, ii),
{
}

} // verus!

verus! {

/// The name at `index` of a symbol-name list, when the list exists and the name is non-empty.
pub open spec fn listed_name(names: Option<Seq<Seq<char>>>, index: u32) -> Option<Seq<char>> {
    match names {
        Some(l) => if index < l.len() && l[index as int].len() > 0 { Some(l[index as int]) } else { None },
        None => None,
    }
}

/// The view of an optional name list.
pub open spec fn names_view(lookup: Option<&Vec<String>>) -> Option<Seq<Seq<char>>> {
    match lookup {
        Some(l) => Some(l@.map_values(|x: String| x@)),
        None => None,
    }
}

fn decode_reloc_entry(data: &[u8], at: usize, class: &ElfClass, rela: bool, endianness: &Endianness, section: &Section, lookup: Option<&Vec<String>>) -> (r: Relocation)
    requires
        at + reloc_width(*class, rela) <= data@.len(),
    ensures
        reloc_decoded(*section, raw_reloc_at(data@, at as int, *class, rela, *endianness), listed_name(names_view(lookup), raw_reloc_at(data@, at as int, *class, rela, *endianness).symbol_index), r),
{
    let raw = match read_reloc(data, at, class, rela, endianness) {
        Ok(r) => r,
        Err(_) => RawReloc { offset: 0, rel_type: 0, symbol_index: 0, addend: None },
    };
    let mut symbol_name: Option<String> = None;
    if let Some(list) = lookup {
        let idx = raw.symbol_index as usize;
        if idx < list.len() && !list[idx].as_str().is_empty() {
            symbol_name = Some(list[idx].clone());
        }
    }
    Relocation {
        section_name: section.name.clone(),
        offset: raw.offset,
        rel_type: raw.rel_type,
        symbol_index: raw.symbol_index,
        symbol_name,
        addend: raw.addend,
    }
}

#[verifier::rlimit(60)]
fn decode_relocation_section(
    bytes: &[u8],
    class: &ElfClass,
    endianness: &Endianness,
    sections: &[Section],
    symbols: &[Symbol],
    static_names: &Vec<String>,
    dynamic_names: &Vec<String>,
    j: usize,
    relocations: &mut Vec<Relocation>,
)
    requires
        j < sections@.len(),
        static_names@.map_values(|x: String| x@) == kind_names(symbols@, SymbolTableKind::Static),
        dynamic_names@.map_values(|x: String| x@) == kind_names(symbols@, SymbolTableKind::Dynamic),
        relocs_decoded_upto(bytes@, sections@, symbols@, *class, *endianness, old(relocations)@, j as int),
    ensures
        relocs_decoded_upto(bytes@, sections@, symbols@, *class, *endianness, final(relocations)@, j + 1),
{
    let ghost s = bytes@;
    let ghost secs = sections@;
    let section = &sections[j];
    let ghost sec = secs[j as int];
    let rela = section.section_type == 4;
    if !rela && section.section_type != 9 {
        assert(reloc_count(s, sec, *class) == 0);
        return;
    }
    let entry_size: usize = match (class, rela) {
        (ElfClass::Elf32, false) => 8,
        (ElfClass::Elf32, true) => 12,
        (ElfClass::Elf64, false) => 16,
        (ElfClass::Elf64, true) => 24,
    };
    let data = match file_slice(bytes, section.offset, section.size, "relocation table") {
        Ok(d) => d,
        Err(_) => {
            assert(reloc_count(s, sec, *class) == 0);
            return;
        },
    };
    let link = section.link as usize;
    let lookup: Option<&Vec<String>> = if link < sections.len() {
        if sections[link].section_type == 2 {
            Some(static_names)
        } else if sections[link].section_type == 11 {
            Some(dynamic_names)
        } else {
            None
        }
    } else {
        None
    };
    let ghost names: Option<Seq<Seq<char>>> = match target_kind(secs, sec) {
        Some(kind) => Some(kind_names(symbols@, kind)),
        None => None,
    };
    assert(names_view(lookup) == names);
    let entry_count = data.len() / entry_size;
    let count = if entry_count < MAX_RELOC_ENTRIES { entry_count } else { MAX_RELOC_ENTRIES };
    assert(count == reloc_count(s, sec, *class));
    let ghost before = relocs_before(s, secs, *class, j as int);
    if relocations.len() >= MAX_RELOC_ENTRIES {
        proof {
            lemma_capped_slots(s, secs, symbols@, *class, *endianness, relocations@, j as int, 0);
        }
        return;
    }
    let mut i: usize = 0;
    while i < count
        invariant
            i <= count,
            s == bytes@,
            secs == sections@,
            j < secs.len(),
            sec == secs[j as int],
            count == reloc_count(s, sec, *class),
            count * entry_size <= data@.len(),
            entry_size == reloc_width(*class, rela),
            rela == is_rela(sec),
            data@ == range_bytes(s, sec.offset, sec.size),
            *section == sec,
            names_view(lookup) == names,
            names == (match target_kind(secs, sec) {
                Some(kind) => Some(kind_names(symbols@, kind)),
                None => None::<Seq<Seq<char>>>,
            }),
            before == relocs_before(s, secs, *class, j as int),
            relocations@.len() == before + i,
            before + i <= MAX_RELOC_ENTRIES,
            forall|jj: int, ii: int| 0 <= jj < j && 0 <= ii < reloc_count(s, secs[jj], *class) ==> #[trigger] reloc_slot(s, secs, symbols@, *class, *endianness, relocations@, jj, ii),
            forall|ii: int| 0 <= ii < i ==> #[trigger] reloc_slot(s, secs, symbols@, *class, *endianness, relocations@, j as int, ii),
        decreases count - i,
    {
        if relocations.len() >= MAX_RELOC_ENTRIES {
            proof {
                lemma_capped_slots(s, secs, symbols@, *class, *endianness, relocations@, j as int, i as int);
            }
            return;
        }
        assert(i * entry_size + entry_size <= data@.len()) by (nonlinear_arith)
            requires i < count, count * entry_size <= data@.len();
        let ghost old_relocs = relocations@;
        let relocation = decode_reloc_entry(data, i * entry_size, class, rela, endianness, section, lookup);
        assert(raw_reloc_at(data@, (i * entry_size) as int, *class, rela, *endianness) == section_reloc(s, sec, *class, *endianness, i as int));
        relocations.push(relocation);
        proof {
            lemma_push_reloc(s, secs, symbols@, *class, *endianness, old_relocs, relocations@, j as int, i as int);
        }
        i = i + 1;
    }
}

/// Decodes every relocation section, up to the global entry cap.
pub fn parse_relocations(
    bytes: &[u8],
    class: &ElfClass,
    endianness: &Endianness,
    sections: &[Section],
    symbols: &[Symbol],
) -> (r: Result<Vec<Relocation>, AppError>)
    ensures
        r matches Ok(v) && relocs_decoded_upto(bytes@, sections@, symbols@, *class, *endianness, v@, sections@.len() as int),
{
    let static_names = collect_names(symbols, SymbolTableKind::Static);
    let dynamic_names = collect_names(symbols, SymbolTableKind::Dynamic);
    let mut relocations: Vec<Relocation> = Vec::new();
    let mut j: usize = 0;
    while j < sections.len()
        invariant
            j <= sections@.len(),
            static_names@.map_values(|x: String| x@) == kind_names(symbols@, SymbolTableKind::Static),
            dynamic_names@.map_values(|x: String| x@) == kind_names(symbols@, SymbolTableKind::Dynamic),
            relocs_decoded_upto(bytes@, sections@, symbols@, *class, *endianness, relocations@, j as int),
        decreases sections@.len() - j,
    {
        decode_relocation_section(bytes, class, endianness, sections, symbols, &static_names, &dynamic_names, j, &mut relocations);
        j = j + 1;
    }
    Ok(relocations)
}

} // verus!

verus! {

proof fn lemma_kind_names_printable(symbols: Seq<Symbol>, kind: SymbolTableKind)
    requires
        forall|n: int, i: int|
            0 <= n < symbols.len() && 0 <= i < symbols[n].name@.len() ==> crate::text::is_printable_ascii(
                #[trigger] symbols[n].name@[i],
            ),
    ensures
        forall|n: int, i: int|
            0 <= n < kind_names(symbols, kind).len() && 0 <= i < kind_names(symbols, kind)[n].len()
                ==> crate::text::is_printable_ascii(#[trigger] kind_names(symbols, kind)[n][i]),
    decreases symbols.len(),
{
    if symbols.len() > 0 {
        let prev = symbols.drop_last();
        assert forall|n: int, i: int| 0 <= n < prev.len() && 0 <= i < prev[n].name@.len() implies crate::text::is_printable_ascii(
            #[trigger] prev[n].name@[i],
        ) by {
            assert(prev[n] == symbols[n]);
        }
        lemma_kind_names_printable(prev, kind);
        assert(symbols.last() == symbols[symbols.len() - 1]);
        assert forall|n: int, i: int|
            0 <= n < kind_names(symbols, kind).len() && 0 <= i < kind_names(symbols, kind)[n].len()
                implies crate::text::is_printable_ascii(#[trigger] kind_names(symbols, kind)[n][i]) by {
            if n < kind_names(prev, kind).len() {
                assert(kind_names(symbols, kind)[n] == kind_names(prev, kind)[n]);
            }
        }
    }
}

proof fn lemma_reloc_position(s: Seq<u8>, secs: Seq<Section>, c: ElfClass, upto: int, k: int) -> (ji: (int, int))
    requires
        0 <= upto,
        0 <= k < relocs_before(s, secs, c, upto),
    ensures
        0 <= ji.0 < upto,
        0 <= ji.1 < reloc_count(s, secs[ji.0], c),
        k == relocs_before(s, secs, c, ji.0) + ji.1,
    decreases upto,
{
    if k < relocs_before(s, secs, c, upto - 1) {
        lemma_reloc_position(s, secs, c, upto - 1, k)
    } else {
        (upto - 1, k - relocs_before(s, secs, c, upto - 1))
    }
}

/// A decoded relocation splits `r_info` as the ELF ABI does: for ELF64 the
/// type is `ELF64_R_TYPE(r_info)`, the low 32 bits, and the symbol index
/// `ELF64_R_SYM(r_info)`, the high 32 bits; for ELF32 the type is the low 8
/// bits and the symbol index the rest. Entries are 24 (`SHT_RELA`, 4) or 16
/// (`SHT_REL`) bytes long in ELF64 and 12 or 8 in ELF32; the offset is
/// `r_offset`, only `SHT_RELA` entries carry `r_addend`, and the symbol name
/// a relocation carries is the one its symbol index names.
pub proof fn relocation_info_follows_abi(
    s: Seq<u8>,
    secs: Seq<Section>,
    symbols: Seq<Symbol>,
    c: ElfClass,
    e: Endianness,
    v: Seq<Relocation>,
    j: int,
    i: int,
)
    requires
        reloc_slot(s, secs, symbols, c, e, v, j, i),
        relocs_before(s, secs, c, j) + i < MAX_RELOC_ENTRIES,
    ensures
        ({
            let r = v[relocs_before(s, secs, c, j) + i];
            let d = range_bytes(s, secs[j].offset, secs[j].size);
            let rela = secs[j].section_type == 4;
            &&& c is Elf64 ==> {
                let at = i * (if rela { 24int } else { 16int });
                let info = u64_at(d, at + 8, e) as u64;
                &&& r.rel_type == info % 0x1_0000_0000
                &&& r.symbol_index == info / 0x1_0000_0000
                &&& r.offset == u64_at(d, at, e) as u64
                &&& r.addend == (if rela { Some((u64_at(d, at + 16, e) as u64) as i64) } else { None })
            }
            &&& c is Elf32 ==> {
                let at = i * (if rela { 12int } else { 8int });
                let info = u32_at(d, at + 4, e) as u32;
                &&& r.rel_type == info % 0x100
                &&& r.symbol_index == info / 0x100
                &&& r.offset == u32_at(d, at, e) as u64
                &&& r.addend == (if rela { Some(((u32_at(d, at + 8, e) as u32) as i32) as i64) } else { None })
            }
            &&& match reloc_symbol_name(secs, symbols, secs[j], r.symbol_index) {
                Some(n) => r.symbol_name matches Some(x) && x@ == n,
                None => r.symbol_name is None,
            }
        }),
{
    let d = range_bytes(s, secs[j].offset, secs[j].size);
    let at = i * reloc_width(c, is_rela(secs[j]));
    let info64 = u64_at(d, at + 8, e) as u64;
    let info32 = u32_at(d, at + 4, e) as u32;
    assert((info64 & 0xffff_ffff) as u32 == info64 % 0x1_0000_0000) by (bit_vector);
    assert((info64 >> 32) as u32 == info64 / 0x1_0000_0000) by (bit_vector);
    assert(info32 & 0xff == info32 % 0x100) by (bit_vector);
    assert(info32 >> 8 == info32 / 0x100) by (bit_vector);
}

/// The names a relocation carries are printable when those of the sections
/// and symbols are: it names its own section and, if any, one of the symbols.
pub proof fn decoded_relocation_names_printable(
    s: Seq<u8>,
    secs: Seq<Section>,
    symbols: Seq<Symbol>,
    c: ElfClass,
    e: Endianness,
    v: Seq<Relocation>,
)
    requires
        relocs_decoded_upto(s, secs, symbols, c, e, v, secs.len() as int),
        forall|n: int, i: int|
            0 <= n < secs.len() && 0 <= i < secs[n].name@.len() ==> crate::text::is_printable_ascii(#[trigger] secs[n].name@[i]),
        forall|n: int, i: int|
            0 <= n < symbols.len() && 0 <= i < symbols[n].name@.len() ==> crate::text::is_printable_ascii(
                #[trigger] symbols[n].name@[i],
            ),
    ensures
        forall|k: int, i: int|
            0 <= k < v.len() && 0 <= i < v[k].section_name@.len() ==> crate::text::is_printable_ascii(
                #[trigger] v[k].section_name@[i],
            ),
        forall|k: int, i: int|
            0 <= k < v.len() && v[k].symbol_name is Some && 0 <= i < v[k].symbol_name->0@.len()
                ==> crate::text::is_printable_ascii(#[trigger] v[k].symbol_name->0@[i]),
{
    lemma_kind_names_printable(symbols, SymbolTableKind::Static);
    lemma_kind_names_printable(symbols, SymbolTableKind::Dynamic);
    assert forall|k: int| 0 <= k < v.len() implies (forall|i: int| 0 <= i < v[k].section_name@.len()
        ==> crate::text::is_printable_ascii(#[trigger] v[k].section_name@[i])) && (v[k].symbol_name is Some ==> forall|i: int|
        0 <= i < v[k].symbol_name->0@.len() ==> crate::text::is_printable_ascii(#[trigger] v[k].symbol_name->0@[i])) by {
        let (j, i) = lemma_reloc_position(s, secs, c, secs.len() as int, k);
        assert(reloc_slot(s, secs, symbols, c, e, v, j, i));
    }
}

} // verus!

verus! {

proof fn lemma_kind_names(symbols: Seq<Symbol>, kind: SymbolTableKind)
    ensures
        kind_names(symbols, kind) == symbols.filter(|x: Symbol| x.table == kind).map_values(|x: Symbol| x.name@),
    decreases symbols.len(),
{
    reveal(Seq::filter);
    if symbols.len() > 0 {
        lemma_kind_names(symbols.drop_last(), kind);
        let f = symbols.drop_last().filter(|x: Symbol| x.table == kind);
        assert(f.push(symbols.last()).map_values(|x: Symbol| x.name@) =~= f.map_values(|x: Symbol| x.name@).push(
            symbols.last().name@,
        ));
    }
}

/// A relocation names the symbol its index selects in the table its section
/// links to: counted among the symbols decoded from `SHT_SYMTAB` (2) when
/// `sh_link` names such a section, among those from `SHT_DYNSYM` (11) when
/// it names that, and no symbol otherwise; a symbol with an empty name, or an
/// index past the table, gives no name.
pub proof fn relocation_symbols_follow_link(secs: Seq<Section>, symbols: Seq<Symbol>, sec: Section, index: u32)
    ensures
        ({
            let linked: int = if sec.link < secs.len() { secs[sec.link as int].section_type as int } else { -1 };
            let statics = symbols.filter(|x: Symbol| x.table == SymbolTableKind::Static).map_values(|x: Symbol| x.name@);
            let dynamics = symbols.filter(|x: Symbol| x.table == SymbolTableKind::Dynamic).map_values(|x: Symbol| x.name@);
            &&& linked == 2 ==> reloc_symbol_name(secs, symbols, sec, index) == (if index < statics.len() && statics[index as int].len() > 0 {
                Some(statics[index as int])
            } else {
                None
            })
            &&& linked == 11 ==> reloc_symbol_name(secs, symbols, sec, index) == (if index < dynamics.len() && dynamics[index as int].len() > 0 {
                Some(dynamics[index as int])
            } else {
                None
            })
            &&& linked != 2 && linked != 11 ==> reloc_symbol_name(secs, symbols, sec, index) is None
        }),
{
    lemma_kind_names(symbols, SymbolTableKind::Static);
    lemma_kind_names(symbols, SymbolTableKind::Dynamic);
}

} // verus!
