//! Static and dynamic symbol tables, including dynamic symbols located through `PT_DYNAMIC`.

use vstd::prelude::*;
use crate::error::AppError;
use crate::model::{ElfClass, Endianness, Section, Segment, Symbol, SymbolBinding, SymbolTableKind, SymbolType, SymbolVisibility};
use crate::text::escaped;
use super::dynamic::{
    address_of, dyn_entries, dyn_table_error, dyn_table_ok, find_section, find_segment, first_section_of_type, find_tag, first_segment_of_type, range_bytes,
    read_dynamic_entries, loadable_ranges_fit, vaddr_offset, vaddr_to_offset,
};
use super::read::{file_slice, range_error, range_in_file, read_u16, read_u32, read_u64, u16_at, u32_at, u64_at};
use super::strings::{c_string_at, string_at, take_text, text_limit_error, MAX_TOTAL_TEXT_BYTES};

verus! {

/// Largest number of entries decoded from one symbol table.
pub const MAX_SYMBOL_ENTRIES: usize = 65_536;

/// Size of one symbol-table entry.
pub open spec fn symbol_entry_width(c: ElfClass) -> int {
    if c is Elf32 {
        16
    } else {
        24
    }
}

/// Size of one symbol-table entry.
pub fn symbol_entry_size(class: &ElfClass) -> (n: usize)
    ensures
        n == symbol_entry_width(*class),
{
    match class {
        ElfClass::Elf32 => 16,
        ElfClass::Elf64 => 24,
    }
}

/// The value of a 32-bit word of a hash table.
pub open spec fn hash_word(t: Seq<u8>, at: int, e: Endianness) -> nat {
    u32_at(t, at, e)
}

/// The index of the last symbol of the GNU hash chain that starts at chain
/// position `idx`, or `None` when the chain runs past the table.
pub open spec fn chain_end(chains: Seq<u8>, e: Endianness, idx: nat) -> Option<nat>
    decreases chains.len() - 4 * idx,
{
    if 4 * idx + 4 > chains.len() {
        None
    } else if hash_word(chains, 4 * idx as int, e) % 2 == 1 {
        Some(idx)
    } else {
        chain_end(chains, e, idx + 1)
    }
}

/// The highest symbol number reached by the chains of buckets `0..i`, or
/// `None` when a chain cannot be followed.
pub open spec fn gnu_scan(buckets: Seq<u8>, chains: Seq<u8>, e: Endianness, symoffset: nat, i: int) -> Option<nat>
    decreases i,
{
    if i <= 0 {
        Some(0)
    } else {
        match gnu_scan(buckets, chains, e, symoffset, i - 1) {
            None => None,
            Some(last) => {
                let first = hash_word(buckets, 4 * (i - 1), e);
                if first == 0 {
                    Some(last)
                } else if first < symoffset {
                    None
                } else {
                    match chain_end(chains, e, (first - symoffset) as nat) {
                        None => None,
                        Some(end) => {
                            let symbol = end + symoffset;
                            Some(if symbol > last { symbol } else { last })
                        },
                    }
                }
            },
        }
    }
}

/// The dynamic symbol count a GNU hash table at file offset `offset` implies.
#[verifier::opaque]
pub open spec fn gnu_hash_count(s: Seq<u8>, c: ElfClass, e: Endianness, offset: nat) -> Option<nat> {
    if offset > s.len() {
        None
    } else {
        let t = s.subrange(offset as int, s.len() as int);
        if t.len() < 12 {
            None
        } else {
            let bucket_count = hash_word(t, 0, e);
            let symoffset = hash_word(t, 4, e);
            let bloom = hash_word(t, 8, e) * (if c is Elf32 { 4nat } else { 8 });
            let buckets_at = 16 + bloom;
            let buckets_end = buckets_at + 4 * bucket_count;
            if buckets_end > t.len() || buckets_end > usize::MAX {
                None
            } else {
                match gnu_scan(
                    t.subrange(buckets_at as int, buckets_end as int),
                    t.subrange(buckets_end as int, t.len() as int),
                    e,
                    symoffset,
                    bucket_count as int,
                ) {
                    Some(last) => Some(last + 1),
                    None => None,
                }
            }
        }
    }
}

proof fn lemma_chain_end(chains: Seq<u8>, e: Endianness, idx: nat)
    ensures
        chain_end(chains, e, idx) matches Some(end) ==> idx <= end && 4 * end + 4 <= chains.len(),
    decreases chains.len() - 4 * idx,
{
    if 4 * idx + 4 <= chains.len() && hash_word(chains, 4 * idx as int, e) % 2 != 1 {
        lemma_chain_end(chains, e, idx + 1);
    }
}

proof fn lemma_gnu_scan_none(buckets: Seq<u8>, chains: Seq<u8>, e: Endianness, symoffset: nat, i: int, j: int)
    requires
        1 <= i <= j,
        gnu_scan(buckets, chains, e, symoffset, i) is None,
    ensures
        gnu_scan(buckets, chains, e, symoffset, j) is None,
    decreases j - i,
{
    if i < j {
        lemma_gnu_scan_none(buckets, chains, e, symoffset, i, j - 1);
    }
}

fn follow_chain(chains: &[u8], endianness: &Endianness, start: u64) -> (r: Option<u64>)
    ensures
        r == (match chain_end(chains@, *endianness, start as nat) {
            Some(end) => Some(end as u64),
            None => None::<u64>,
        }),
{
    proof {
        lemma_chain_end(chains@, *endianness, start as nat);
    }
    let len = chains.len() as u64;
    let mut idx = start;
    while idx < len / 4
        invariant
            len == chains@.len(),
            len <= usize::MAX,
            start <= idx,
            chain_end(chains@, *endianness, idx as nat) == chain_end(chains@, *endianness, start as nat),
        decreases len - idx,
    {
        assert(idx * 4 + 4 <= len) by (nonlinear_arith)
            requires idx < len / 4;
        let at = (idx * 4) as usize;
        assert(at == 4 * idx);
        let word = match read_u32(chains, at, endianness) {
            Ok(w) => w,
            Err(_) => return None,
        };
        assert(word == hash_word(chains@, 4 * idx as int, *endianness));
        if word % 2 == 1 {
            assert(chain_end(chains@, *endianness, idx as nat) == Some(idx as nat));
            return Some(idx);
        }
        assert(chain_end(chains@, *endianness, idx as nat) == chain_end(chains@, *endianness, (idx + 1) as nat));
        idx = idx + 1;
    }
    None
}

/// Counts dynamic symbols through a GNU hash table (`DT_GNU_HASH`) at file offset `offset`.
pub fn gnu_hash_symbol_count(bytes: &[u8], class: &ElfClass, endianness: &Endianness, offset: u64) -> (r: Option<u64>)
    ensures
        r matches Some(n) ==> gnu_hash_count(bytes@, *class, *endianness, offset as nat) == Some(n as nat),
        r is None ==> gnu_hash_count(bytes@, *class, *endianness, offset as nat) is None,
{
    reveal(gnu_hash_count);
    let len = bytes.len() as u64;
    if offset > len {
        return None;
    }
    let table = vstd::slice::slice_subrange(bytes, offset as usize, bytes.len());
    if table.len() < 12 {
        return None;
    }
    let bucket_count = match read_u32(table, 0, endianness) { Ok(v) => v as u64, Err(_) => return None };
    let symbol_offset = match read_u32(table, 4, endianness) { Ok(v) => v as u64, Err(_) => return None };
    let bloom_size = match read_u32(table, 8, endianness) { Ok(v) => v as u64, Err(_) => return None };
    let bloom_bytes = bloom_size * match class {
        ElfClass::Elf32 => 4,
        ElfClass::Elf64 => 8,
    };
    let buckets_at = 16 + bloom_bytes;
    let buckets_end = buckets_at + 4 * bucket_count;
    if buckets_end > table.len() as u64 || buckets_end > usize::MAX as u64 {
        return None;
    }
    let buckets = vstd::slice::slice_subrange(table, buckets_at as usize, buckets_end as usize);
    let chains = vstd::slice::slice_subrange(table, buckets_end as usize, table.len());
    let mut last: u64 = 0;
    let mut index: u64 = 0;
    assert(gnu_hash_count(bytes@, *class, *endianness, offset as nat) == (match gnu_scan(buckets@, chains@, *endianness, symbol_offset as nat, bucket_count as int) {
        Some(l) => Some(l + 1),
        None => None::<nat>,
    }));
    while index < bucket_count
        invariant
            gnu_hash_count(bytes@, *class, *endianness, offset as nat) == (match gnu_scan(buckets@, chains@, *endianness, symbol_offset as nat, bucket_count as int) {
                Some(l) => Some(l + 1),
                None => None::<nat>,
            }),
            index <= bucket_count,
            buckets@.len() == 4 * bucket_count,
            bucket_count < 0x1_0000_0000,
            symbol_offset < 0x1_0000_0000,
            last < 0x1_0000_0000 + 0x4000_0000_0000_0000,
            gnu_scan(buckets@, chains@, *endianness, symbol_offset as nat, index as int) == Some(last as nat),
            chains@.len() <= usize::MAX,
            buckets@.len() <= usize::MAX,
        decreases bucket_count - index,
    {
        let at = (index * 4) as usize;
        assert(at == 4 * index);
        assert(at + 4 <= buckets@.len());
        let first = match read_u32(buckets, at, endianness) { Ok(v) => v as u64, Err(_) => return None };
        assert(first == hash_word(buckets@, 4 * index as int, *endianness));
        if first != 0 {
            if first < symbol_offset {
                proof {
                    lemma_gnu_scan_none(buckets@, chains@, *endianness, symbol_offset as nat, index + 1, bucket_count as int);
                }
                return None;
            }
            let end = match follow_chain(chains, endianness, first - symbol_offset) {
                Some(end) => end,
                None => {
                    proof {
                        lemma_gnu_scan_none(buckets@, chains@, *endianness, symbol_offset as nat, index + 1, bucket_count as int);
                    }
                    return None;
                },
            };
            proof {
                lemma_chain_end(chains@, *endianness, (first - symbol_offset) as nat);
            }
            let symbol = end + symbol_offset;
            if symbol > last {
                last = symbol;
            }
        }
        index = index + 1;
    }
    Some(last + 1)
}

} // verus!

verus! {

/// The file offset of the SysV hash table's symbol count (`nchain`), read at `offset + 4`.
pub open spec fn hash_nchain(s: Seq<u8>, e: Endianness, offset: nat) -> Option<nat> {
    if offset + 8 <= s.len() {
        Some(u32_at(s, offset + 4int, e))
    } else {
        None
    }
}

/// The table a hash-table tag locates, when the tag is present and mapped.
pub open spec fn tag_offset(entries: Seq<(u64, u64)>, segs: Seq<Segment>, tag: u64) -> Option<u64> {
    match address_of(entries, tag, 0) {
        Some(a) => vaddr_offset(segs, a, 0),
        None => None,
    }
}

/// The dynamic symbol count the loader's hash tables imply: `nchain` of
/// `DT_HASH`, else the GNU hash chains, else the distance from the symbol
/// table to the string table that follows it.
pub open spec fn dyn_symbol_count(s: Seq<u8>, c: ElfClass, e: Endianness, entries: Seq<(u64, u64)>, segs: Seq<Segment>, symtab: u64, strtab: u64) -> Option<nat> {
    let from_hash = match tag_offset(entries, segs, 4) {
        Some(o) => hash_nchain(s, e, o as nat),
        None => None,
    };
    let from_gnu = match tag_offset(entries, segs, 0x6fff_fef5) {
        Some(o) => gnu_hash_count(s, c, e, o as nat),
        None => None,
    };
    if from_hash is Some {
        from_hash
    } else if from_gnu is Some {
        from_gnu
    } else if strtab > symtab {
        Some(((strtab - symtab) / symbol_entry_width(c)) as nat)
    } else {
        None
    }
}

/// Determines the dynamic symbol count from the hash tables the loader uses.
#[verifier::rlimit(30)]
pub(crate) fn dynamic_symbol_count(
    bytes: &[u8],
    class: &ElfClass,
    endianness: &Endianness,
    entries: &Vec<(u64, u64)>,
    segments: &[Segment],
    symtab_offset: u64,
    strtab_offset: u64,
) -> (r: Option<u64>)
    requires
        loadable_ranges_fit(segments@),
    ensures
        r matches Some(n) ==> dyn_symbol_count(bytes@, *class, *endianness, entries@, segments@, symtab_offset, strtab_offset) == Some(n as nat),
        r is None ==> dyn_symbol_count(bytes@, *class, *endianness, entries@, segments@, symtab_offset, strtab_offset) is None,
{
    if let Some(address) = find_tag(entries, 4) {
        if let Some(offset) = vaddr_to_offset(segments, address) {
            if offset <= bytes.len() as u64 && bytes.len() as u64 - offset >= 8 {
                if let Ok(nchain) = read_u32(bytes, offset as usize + 4, endianness) {
                    return Some(nchain as u64);
                }
            }
        }
    }
    if let Some(address) = find_tag(entries, 0x6fff_fef5) {
        if let Some(offset) = vaddr_to_offset(segments, address) {
            if let Some(count) = gnu_hash_symbol_count(bytes, class, endianness, offset) {
                return Some(count);
            }
        }
    }
    if strtab_offset > symtab_offset {
        return Some((strtab_offset - symtab_offset) / symbol_entry_size(class) as u64);
    }
    None
}

/// A symbol or string table as the symbol decoder sees it: a real section
/// header, or one synthesized from `PT_DYNAMIC`.
#[derive(Debug, Clone, Copy, PartialEq, Eq, Structural)]
pub struct TableDesc {
    /// `sh_type`.
    pub section_type: u32,
    /// File offset of the table.
    pub offset: u64,
    /// Size of the table in bytes.
    pub size: u64,
    /// `sh_link`.
    pub link: u32,
}

/// The table descriptor of a section header.
pub open spec fn desc_of(s: Section) -> TableDesc {
    TableDesc { section_type: s.section_type, offset: s.offset, size: s.size, link: s.link }
}

/// Whether locating the dynamic symbol table through `PT_DYNAMIC` succeeds.
pub open spec fn dyn_symtab_ok(s: Seq<u8>, segs: Seq<Segment>, c: ElfClass, e: Endianness) -> bool {
    match find_segment(segs, 2, 0) {
        None => true,
        Some(p) => {
            &&& dyn_table_ok(s, segs[p].offset, segs[p].file_size, c)
            &&& (dyn_symtab(s, segs, c, e) matches Some((symtab, strings)) ==> range_in_file(s.len(), symtab.offset, symtab.size)
                && range_in_file(s.len(), strings.offset, strings.size))
        },
    }
}

/// The dynamic symbol table and its string table located through `PT_DYNAMIC`
/// (`DT_SYMTAB`, `DT_STRTAB`, `DT_STRSZ`, and the hash tables for the count).
pub open spec fn dyn_symtab(s: Seq<u8>, segs: Seq<Segment>, c: ElfClass, e: Endianness) -> Option<(TableDesc, TableDesc)> {
    match find_segment(segs, 2, 0) {
        None => None,
        Some(p) => {
            let entries = dyn_entries(range_bytes(s, segs[p].offset, segs[p].file_size), c, e);
            match (address_of(entries, 6, 0), address_of(entries, 5, 0), address_of(entries, 10, 0)) {
                (Some(sa), Some(ta), Some(tz)) => if tz == 0 {
                    None
                } else {
                    match (vaddr_offset(segs, sa, 0), vaddr_offset(segs, ta, 0)) {
                        (Some(so), Some(to)) => match dyn_symbol_count(s, c, e, entries, segs, so, to) {
                            Some(n) => if n * symbol_entry_width(c) > u64::MAX || n == 0 {
                                None
                            } else {
                                Some((
                                    TableDesc { section_type: 11, offset: so, size: (n * symbol_entry_width(c)) as u64, link: 0 },
                                    TableDesc { section_type: 3, offset: to, size: tz, link: 0 },
                                ))
                            },
                            None => None,
                        },
                        _ => None,
                    }
                },
                _ => None,
            }
        },
    }
}

/// `err` is the error of a dynamic symbol table that cannot be located
/// through `PT_DYNAMIC`: reading the dynamic table, then the range of the
/// symbol table, then that of its string table.
pub open spec fn dyn_symtab_error(s: Seq<u8>, segs: Seq<Segment>, c: ElfClass, e: Endianness, err: AppError) -> bool {
    let p = find_segment(segs, 2, 0)->0;
    if !dyn_table_ok(s, segs[p].offset, segs[p].file_size, c) {
        dyn_table_error(s, segs[p].offset, segs[p].file_size, c, "dynamic segment", err)
    } else {
        dyn_symtab(s, segs, c, e) matches Some((symtab, strings)) && if !range_in_file(s.len(), symtab.offset, symtab.size) {
            err == range_error("dynamic symbol table", symtab.offset, symtab.size)
        } else {
            err == range_error("dynamic string table", strings.offset, strings.size)
        }
    }
}

/// Locates the dynamic symbol table and its string table through `PT_DYNAMIC`.
pub(crate) fn dynamic_symbol_table(bytes: &[u8], class: &ElfClass, endianness: &Endianness, segments: &[Segment]) -> (r: Result<Option<(TableDesc, TableDesc)>, AppError>)
    requires
        loadable_ranges_fit(segments@),
    ensures
        r is Ok <==> dyn_symtab_ok(bytes@, segments@, *class, *endianness),
        r matches Ok(found) ==> found == dyn_symtab(bytes@, segments@, *class, *endianness),
        r matches Err(err) ==> dyn_symtab_error(bytes@, segments@, *class, *endianness, err),
        r matches Err(err) ==> err is Parse,
{
    proof {
        super::dynamic::lemma_find_segment(segments@, 2, 0);
    }
    let p = match first_segment_of_type(segments, 2) {
        Some(p) => p,
        None => return Ok(None),
    };
    let segment = &segments[p];
    let entries = read_dynamic_entries(bytes, class, endianness, segment.offset, segment.file_size, "dynamic segment")?;
    let ghost spec_entries = dyn_entries(range_bytes(bytes@, segments@[p as int].offset, segments@[p as int].file_size), *class, *endianness);
    assert(entries@ == spec_entries);
    let (symtab_address, strtab_address, strtab_size) = match (find_tag(&entries, 6), find_tag(&entries, 5), find_tag(&entries, 10)) {
        (Some(a), Some(b), Some(c)) => (a, b, c),
        _ => return Ok(None),
    };
    if strtab_size == 0 {
        return Ok(None);
    }
    let (symtab_offset, strtab_offset) = match (vaddr_to_offset(segments, symtab_address), vaddr_to_offset(segments, strtab_address)) {
        (Some(a), Some(b)) => (a, b),
        _ => return Ok(None),
    };
    let entry_size = symbol_entry_size(class) as u64;
    let count = match dynamic_symbol_count(bytes, class, endianness, &entries, segments, symtab_offset, strtab_offset) {
        Some(n) => n,
        None => return Ok(None),
    };
    if count > u64::MAX / entry_size {
        assert(count * entry_size > u64::MAX) by (nonlinear_arith)
            requires count > u64::MAX / entry_size, entry_size > 0;
        return Ok(None);
    }
    assert(count * entry_size <= u64::MAX) by (nonlinear_arith)
        requires count <= u64::MAX / entry_size, entry_size > 0;
    let symtab_size = count * entry_size;
    if count == 0 {
        return Ok(None);
    }
    let ghost found = (
        TableDesc { section_type: 11, offset: symtab_offset, size: symtab_size, link: 0 },
        TableDesc { section_type: 3, offset: strtab_offset, size: strtab_size, link: 0 },
    );
    assert(dyn_symtab(bytes@, segments@, *class, *endianness) == Some(found));
    file_slice(bytes, symtab_offset, symtab_size, "dynamic symbol table")?;
    file_slice(bytes, strtab_offset, strtab_size, "dynamic string table")?;
    Ok(Some((
        TableDesc { section_type: 11, offset: symtab_offset, size: symtab_size, link: 0 },
        TableDesc { section_type: 3, offset: strtab_offset, size: strtab_size, link: 0 },
    )))
}

} // verus!

verus! {

/// A symbol-table entry as stored in the file.
#[derive(Debug, Clone, Copy, PartialEq, Eq, Structural)]
pub struct RawSymbol {
    /// `st_name`.
    pub name_offset: u32,
    /// `st_value`.
    pub value: u64,
    /// `st_size`.
    pub size: u64,
    /// `st_info`.
    pub info: u8,
    /// `st_other`.
    pub other: u8,
    /// `st_shndx`.
    pub shndx: u16,
}

/// The symbol entry at offset `at` of a symbol table.
pub open spec fn raw_symbol_at(d: Seq<u8>, at: int, c: ElfClass, e: Endianness) -> RawSymbol {
    if c is Elf32 {
        RawSymbol {
            name_offset: u32_at(d, at, e) as u32,
            value: u32_at(d, at + 4, e) as u64,
            size: u32_at(d, at + 8, e) as u64,
            info: d[at + 12],
            other: d[at + 13],
            shndx: u16_at(d, at + 14, e) as u16,
        }
    } else {
        RawSymbol {
            name_offset: u32_at(d, at, e) as u32,
            info: d[at + 4],
            other: d[at + 5],
            shndx: u16_at(d, at + 6, e) as u16,
            value: u64_at(d, at + 8, e) as u64,
            size: u64_at(d, at + 16, e) as u64,
        }
    }
}

fn read_raw_symbol(d: &[u8], at: usize, class: &ElfClass, endianness: &Endianness) -> (r: Result<RawSymbol, AppError>)
    requires
        at + symbol_entry_width(*class) <= d@.len(),
    ensures
        r == Ok::<RawSymbol, AppError>(raw_symbol_at(d@, at as int, *class, *endianness)),
{
    let len = d.len();
    match class {
        ElfClass::Elf32 => {
            let name_offset = read_u32(d, at, endianness)?;
            let value = read_u32(d, at + 4, endianness)?;
            let size = read_u32(d, at + 8, endianness)?;
            let shndx = read_u16(d, at + 14, endianness)?;
            Ok(RawSymbol { name_offset, value: value as u64, size: size as u64, info: d[at + 12], other: d[at + 13], shndx })
        },
        ElfClass::Elf64 => {
            let name_offset = read_u32(d, at, endianness)?;
            let shndx = read_u16(d, at + 6, endianness)?;
            let value = read_u64(d, at + 8, endianness)?;
            let size = read_u64(d, at + 16, endianness)?;
            Ok(RawSymbol { name_offset, value, size, info: d[at + 4], other: d[at + 5], shndx })
        },
    }
}

/// The symbol type of the low nibble of `st_info`.
pub open spec fn symbol_type_of(v: u8) -> SymbolType {
    match v {
        0 => SymbolType::NoType,
        1 => SymbolType::Object,
        2 => SymbolType::Func,
        3 => SymbolType::Section,
        4 => SymbolType::File,
        5 => SymbolType::Common,
        6 => SymbolType::Tls,
        10 => SymbolType::GnuIfunc,
        _ => SymbolType::Other(v),
    }
}

/// The binding of the high nibble of `st_info`.
pub open spec fn binding_of(v: u8) -> SymbolBinding {
    match v {
        0 => SymbolBinding::Local,
        1 => SymbolBinding::Global,
        2 => SymbolBinding::Weak,
        10 => SymbolBinding::GnuUnique,
        _ => SymbolBinding::Other(v),
    }
}

/// The visibility of the low two bits of `st_other`.
pub open spec fn visibility_of(v: u8) -> SymbolVisibility {
    match v {
        1 => SymbolVisibility::Internal,
        2 => SymbolVisibility::Hidden,
        3 => SymbolVisibility::Protected,
        _ => SymbolVisibility::Default,
    }
}

fn symbol_type(v: u8) -> (t: SymbolType)
    ensures
        t == symbol_type_of(v),
{
    match v {
        0 => SymbolType::NoType,
        1 => SymbolType::Object,
        2 => SymbolType::Func,
        3 => SymbolType::Section,
        4 => SymbolType::File,
        5 => SymbolType::Common,
        6 => SymbolType::Tls,
        10 => SymbolType::GnuIfunc,
        _ => SymbolType::Other(v),
    }
}

fn binding(v: u8) -> (b: SymbolBinding)
    ensures
        b == binding_of(v),
{
    match v {
        0 => SymbolBinding::Local,
        1 => SymbolBinding::Global,
        2 => SymbolBinding::Weak,
        10 => SymbolBinding::GnuUnique,
        _ => SymbolBinding::Other(v),
    }
}

fn visibility(v: u8) -> (s: SymbolVisibility)
    ensures
        s == visibility_of(v),
{
    match v {
        1 => SymbolVisibility::Internal,
        2 => SymbolVisibility::Hidden,
        3 => SymbolVisibility::Protected,
        _ => SymbolVisibility::Default,
    }
}

/// The raw bytes of a symbol's name in its string table, when it resolves.
pub open spec fn name_bytes_of(strings: Option<Seq<u8>>, raw: RawSymbol) -> Option<Seq<u8>> {
    if raw.name_offset != 0 {
        match strings {
            Some(t) => if raw.name_offset <= t.len() {
                c_string_at(t, raw.name_offset as int)
            } else {
                None
            },
            None => None,
        }
    } else {
        None
    }
}

/// The name a symbol is reported under: its string, the name of the section a
/// section symbol stands for, or empty.
pub open spec fn symbol_name(secs: Seq<Section>, strings: Option<Seq<u8>>, raw: RawSymbol) -> Seq<char> {
    if raw.name_offset != 0 {
        match name_bytes_of(strings, raw) {
            Some(b) => escaped(b),
            None => Seq::empty(),
        }
    } else if raw.info & 0x0f == 3 && raw.shndx < secs.len() {
        secs[raw.shndx as int].name@
    } else {
        Seq::empty()
    }
}

/// Decoded text a symbol's name is charged.
pub open spec fn name_charge(strings: Option<Seq<u8>>, raw: RawSymbol) -> nat {
    match name_bytes_of(strings, raw) {
        Some(b) => escaped(b).len(),
        None => 0,
    }
}

/// Symbol `sym` is the decoding of `raw`, the `index`-th decoded symbol, from a table of `kind`.
pub open spec fn symbol_decoded(secs: Seq<Section>, strings: Option<Seq<u8>>, raw: RawSymbol, kind: SymbolTableKind, index: int, sym: Symbol) -> bool {
    let name = symbol_name(secs, strings, raw);
    let bind = raw.info >> 4;
    &&& sym.index == index
    &&& sym.name@ == name
    &&& sym.value == raw.value
    &&& sym.size == raw.size
    &&& sym.sym_type == symbol_type_of(raw.info & 0x0f)
    &&& sym.binding == binding_of(bind)
    &&& sym.visibility == visibility_of(raw.other & 0x03)
    &&& sym.section_index == (if raw.shndx == 0 || raw.shndx >= 0xff00 { None } else { Some(raw.shndx) })
    &&& sym.is_import == (raw.shndx == 0 && name.len() > 0)
    &&& sym.is_export == (raw.shndx != 0 && (bind == 1 || bind == 2) && name.len() > 0)
    &&& sym.table == kind
}

/// Decodes one symbol entry.
fn decode_symbol(secs: &[Section], strings: Option<&[u8]>, raw: RawSymbol, kind: SymbolTableKind, index: usize, text_bytes: &mut usize) -> (r: Result<Symbol, AppError>)
    requires
        *old(text_bytes) <= MAX_TOTAL_TEXT_BYTES,
    ensures
        r is Ok <==> *old(text_bytes) + name_charge(super::dynamic::opt_view(strings), raw) <= MAX_TOTAL_TEXT_BYTES,
        r is Ok ==> *final(text_bytes) == *old(text_bytes) + name_charge(super::dynamic::opt_view(strings), raw),
        r matches Ok(sym) ==> symbol_decoded(secs@, super::dynamic::opt_view(strings), raw, kind, index as int, sym),
        r is Ok ==> *final(text_bytes) <= MAX_TOTAL_TEXT_BYTES,
        r matches Err(err) ==> err == text_limit_error(),
        r matches Err(err) ==> err is Parse,
{
    let sym_type_raw = raw.info & 0x0f;
    let sym_bind_raw = raw.info >> 4;
    let name = if raw.name_offset != 0 {
        match strings {
            Some(t) => match string_at(t, raw.name_offset) {
                Ok(s) => {
                    proof {
                        super::strings::lemma_c_string_bound(t@, raw.name_offset as int);
                        crate::text::lemma_escaped_len(c_string_at(t@, raw.name_offset as int)->0);
                    }
                    take_text(s, text_bytes)?
                },
                Err(_) => String::new(),
            },
            None => String::new(),
        }
    } else if sym_type_raw == 3 && (raw.shndx as usize) < secs.len() {
        secs[raw.shndx as usize].name.clone()
    } else {
        String::new()
    };
    let named = !name.as_str().is_empty();
    let is_import = raw.shndx == 0 && named;
    let is_export = raw.shndx != 0 && (sym_bind_raw == 1 || sym_bind_raw == 2) && named;
    let section_index = if raw.shndx == 0 || raw.shndx >= 0xff00 {
        None
    } else {
        Some(raw.shndx)
    };
    Ok(Symbol {
        index,
        name,
        value: raw.value,
        size: raw.size,
        sym_type: symbol_type(sym_type_raw),
        binding: binding(sym_bind_raw),
        visibility: visibility(raw.other & 0x03),
        section_index,
        is_import,
        is_export,
        table: kind,
    })
}

} // verus!

verus! {

/// `SHT_SYMTAB` or `SHT_DYNSYM`.
pub open spec fn is_symbol_table(t: TableDesc) -> bool {
    t.section_type == 2 || t.section_type == 11
}

/// The table kind a symbol table stands for.
pub open spec fn kind_of(t: TableDesc) -> SymbolTableKind {
    if t.section_type == 2 {
        SymbolTableKind::Static
    } else {
        SymbolTableKind::Dynamic
    }
}

/// The string table a symbol table links to, when the link names a string table.
pub open spec fn string_table_of(tables: Seq<TableDesc>, t: TableDesc) -> Option<TableDesc> {
    if t.link < tables.len() && tables[t.link as int].section_type == 3 {
        Some(tables[t.link as int])
    } else {
        None
    }
}

/// The bytes of the string table a symbol table links to.
pub open spec fn table_strings(s: Seq<u8>, tables: Seq<TableDesc>, t: TableDesc) -> Option<Seq<u8>> {
    match string_table_of(tables, t) {
        Some(st) => Some(range_bytes(s, st.offset, st.size)),
        None => None,
    }
}

/// A symbol table whose string table and entries lie inside the file.
pub open spec fn table_ok(s: Seq<u8>, tables: Seq<TableDesc>, t: TableDesc) -> bool {
    is_symbol_table(t) ==> {
        &&& (string_table_of(tables, t) matches Some(st) ==> range_in_file(s.len(), st.offset, st.size))
        &&& range_in_file(s.len(), t.offset, t.size)
    }
}

/// Table `j` cannot be decoded: its ranges lie outside the file, or its names
/// bring the text charged by tables `0..=j` over the budget.
pub open spec fn table_fails(s: Seq<u8>, tables: Seq<TableDesc>, c: ElfClass, e: Endianness, j: int) -> bool {
    !table_ok(s, tables, tables[j]) || text_before(s, tables, c, e, j + 1) > MAX_TOTAL_TEXT_BYTES
}

/// The error raised by a symbol table that fails: its string table's range,
/// then its own range, then the text budget.
pub open spec fn table_failure(s: Seq<u8>, tables: Seq<TableDesc>, t: TableDesc) -> AppError {
    let st = string_table_of(tables, t);
    if st is Some && !range_in_file(s.len(), st->0.offset, st->0.size) {
        range_error("symbol string table", st->0.offset, st->0.size)
    } else if !range_in_file(s.len(), t.offset, t.size) {
        range_error("symbol table", t.offset, t.size)
    } else {
        text_limit_error()
    }
}

/// The number of entries decoded from a table.
pub open spec fn table_symbol_count(t: TableDesc, c: ElfClass) -> nat {
    if is_symbol_table(t) {
        let n = (t.size as int / symbol_entry_width(c)) as nat;
        if n <= MAX_SYMBOL_ENTRIES {
            n
        } else {
            MAX_SYMBOL_ENTRIES as nat
        }
    } else {
        0
    }
}

/// Entry `i` of a symbol table.
pub open spec fn table_raw_symbol(s: Seq<u8>, t: TableDesc, c: ElfClass, e: Endianness, i: int) -> RawSymbol {
    raw_symbol_at(range_bytes(s, t.offset, t.size), i * symbol_entry_width(c), c, e)
}

/// Decoded text charged by the names of entries `0..i` of a table.
pub open spec fn table_charge(s: Seq<u8>, tables: Seq<TableDesc>, t: TableDesc, c: ElfClass, e: Endianness, i: int) -> nat
    decreases i,
{
    if i <= 0 {
        0
    } else {
        table_charge(s, tables, t, c, e, i - 1) + name_charge(table_strings(s, tables, t), table_raw_symbol(s, t, c, e, i - 1))
    }
}

/// The number of symbols decoded from tables `0..j`.
pub open spec fn symbols_before(tables: Seq<TableDesc>, c: ElfClass, j: int) -> nat
    decreases j,
{
    if j <= 0 {
        0
    } else {
        symbols_before(tables, c, j - 1) + table_symbol_count(tables[j - 1], c)
    }
}

/// Decoded text charged by the symbols of tables `0..j`.
pub open spec fn text_before(s: Seq<u8>, tables: Seq<TableDesc>, c: ElfClass, e: Endianness, j: int) -> nat
    decreases j,
{
    if j <= 0 {
        0
    } else {
        text_before(s, tables, c, e, j - 1) + table_charge(s, tables, tables[j - 1], c, e, table_symbol_count(tables[j - 1], c) as int)
    }
}

/// Symbol `v[symbols_before(j) + i]` is the decoding of entry `i` of table `j`.
pub open spec fn symbol_slot(s: Seq<u8>, secs: Seq<Section>, tables: Seq<TableDesc>, c: ElfClass, e: Endianness, v: Seq<Symbol>, j: int, i: int) -> bool {
    let k = symbols_before(tables, c, j) + i;
    symbol_decoded(secs, table_strings(s, tables, tables[j]), table_raw_symbol(s, tables[j], c, e, i), kind_of(tables[j]), k, v[k])
}

/// The symbols of tables `0..upto`, in order.
pub open spec fn symbols_decoded_upto(s: Seq<u8>, secs: Seq<Section>, tables: Seq<TableDesc>, c: ElfClass, e: Endianness, v: Seq<Symbol>, upto: int) -> bool {
    &&& v.len() == symbols_before(tables, c, upto)
    &&& forall|j: int, i: int| 0 <= j < upto && 0 <= i < table_symbol_count(tables[j], c) ==> #[trigger] symbol_slot(s, secs, tables, c, e, v, j, i)
}

proof fn lemma_text_monotone(s: Seq<u8>, tables: Seq<TableDesc>, c: ElfClass, e: Endianness, t: TableDesc, i: int, j: int)
    requires
        0 <= i <= j,
    ensures
        table_charge(s, tables, t, c, e, i) <= table_charge(s, tables, t, c, e, j),
    decreases j - i,
{
    if i < j {
        lemma_text_monotone(s, tables, c, e, t, i, j - 1);
    }
}

proof fn lemma_text_before_monotone(s: Seq<u8>, tables: Seq<TableDesc>, c: ElfClass, e: Endianness, i: int, j: int)
    requires
        0 <= i <= j,
    ensures
        text_before(s, tables, c, e, i) <= text_before(s, tables, c, e, j),
    decreases j - i,
{
    if i < j {
        lemma_text_before_monotone(s, tables, c, e, i, j - 1);
    }
}

proof fn lemma_symbols_before_monotone(tables: Seq<TableDesc>, c: ElfClass, i: int, j: int)
    requires
        0 <= i <= j,
    ensures
        symbols_before(tables, c, i) <= symbols_before(tables, c, j),
    decreases j - i,
{
    if i < j {
        lemma_symbols_before_monotone(tables, c, i, j - 1);
    }
}

proof fn lemma_push_slot(s: Seq<u8>, secs: Seq<Section>, tables: Seq<TableDesc>, c: ElfClass, e: Endianness, old: Seq<Symbol>, new: Seq<Symbol>, j: int, i: int)
    requires
        0 <= j < tables.len(),
        0 <= i,
        old.len() == symbols_before(tables, c, j) + i,
        new == old.push(new.last()),
        symbol_decoded(secs, table_strings(s, tables, tables[j]), table_raw_symbol(s, tables[j], c, e, i), kind_of(tables[j]), old.len() as int, new.last()),
        forall|jj: int, ii: int| 0 <= jj < j && 0 <= ii < table_symbol_count(tables[jj], c) ==> #[trigger] symbol_slot(s, secs, tables, c, e, old, jj, ii),
        forall|ii: int| 0 <= ii < i ==> #[trigger] symbol_slot(s, secs, tables, c, e, old, j, ii),
    ensures
        forall|jj: int, ii: int| 0 <= jj < j && 0 <= ii < table_symbol_count(tables[jj], c) ==> #[trigger] symbol_slot(s, secs, tables, c, e, new, jj, ii),
        forall|ii: int| 0 <= ii < i + 1 ==> #[trigger] symbol_slot(s, secs, tables, c, e, new, j, ii),
{
    assert forall|jj: int, ii: int| 0 <= jj < j && 0 <= ii < table_symbol_count(tables[jj], c) implies #[trigger] symbol_slot(s, secs, tables, c, e, new, jj, ii) by {
        assert(symbol_slot(s, secs, tables, c, e, old, jj, ii));
        lemma_symbols_before_monotone(tables, c, jj + 1, j);
    }
    assert forall|ii: int| 0 <= ii < i + 1 implies #[trigger] symbol_slot(s, secs, tables, c, e, new, j, ii) by {
        if ii < i {
            assert(symbol_slot(s, secs, tables, c, e, old, j, ii));
        }
    }
}

/// Decodes the entries of table `j`, appending them to `symbols`.
#[verifier::rlimit(80)]
#[verifier::spinoff_prover]
fn decode_table(
    bytes: &[u8],
    class: &ElfClass,
    endianness: &Endianness,
    secs: &[Section],
    tables: &Vec<TableDesc>,
    j: usize,
    symbols: &mut Vec<Symbol>,
    text_bytes: &mut usize,
) -> (r: Result<(), AppError>)
    requires
        j < tables@.len(),
        *old(text_bytes) <= MAX_TOTAL_TEXT_BYTES,
        *old(text_bytes) == text_before(bytes@, tables@, *class, *endianness, j as int),
        symbols_decoded_upto(bytes@, secs@, tables@, *class, *endianness, old(symbols)@, j as int),
        symbols_before(tables@, *class, j as int) <= j * MAX_SYMBOL_ENTRIES,
    ensures
        r is Ok <==> table_ok(bytes@, tables@, tables@[j as int]) && text_before(bytes@, tables@, *class, *endianness, j + 1) <= MAX_TOTAL_TEXT_BYTES,
        r is Ok ==> *final(text_bytes) == text_before(bytes@, tables@, *class, *endianness, j + 1),
        r is Ok ==> symbols_decoded_upto(bytes@, secs@, tables@, *class, *endianness, final(symbols)@, j + 1),
        r is Ok ==> *final(text_bytes) <= MAX_TOTAL_TEXT_BYTES,
        r matches Err(err) ==> err == table_failure(bytes@, tables@, tables@[j as int]),
        r matches Err(err) ==> err is Parse,
{
    let table = tables[j];
    let ghost t = tables@[j as int];
    if table.section_type != 2 && table.section_type != 11 {
        assert(symbols_decoded_upto(bytes@, secs@, tables@, *class, *endianness, symbols@, j + 1));
        return Ok(());
    }
    let kind = if table.section_type == 2 { SymbolTableKind::Static } else { SymbolTableKind::Dynamic };
    let link = table.link as usize;
    let strings: Option<&[u8]> = if link < tables.len() && tables[link].section_type == 3 {
        let st = tables[link];
        Some(file_slice(bytes, st.offset, st.size, "symbol string table")?)
    } else {
        None
    };
    assert(super::dynamic::opt_view(strings) == table_strings(bytes@, tables@, t));
    let entry_size = symbol_entry_size(class);
    let sym_data = file_slice(bytes, table.offset, table.size, "symbol table")?;
    let entry_count = sym_data.len() / entry_size;
    let clamped = if entry_count < MAX_SYMBOL_ENTRIES { entry_count } else { MAX_SYMBOL_ENTRIES };
    assert(clamped == table_symbol_count(t, *class));
    let ghost base = symbols_before(tables@, *class, j as int);
    let ghost start_text = *text_bytes;
    let mut i: usize = 0;
    while i < clamped
        invariant
            i <= clamped,
            clamped == table_symbol_count(t, *class),
            clamped <= MAX_SYMBOL_ENTRIES,
            clamped * entry_size <= sym_data@.len(),
            entry_size == symbol_entry_width(*class),
            t == tables@[j as int],
            j < tables@.len(),
            sym_data@ == range_bytes(bytes@, t.offset, t.size),
            super::dynamic::opt_view(strings) == table_strings(bytes@, tables@, t),
            kind == kind_of(t),
            table_ok(bytes@, tables@, t),
            base == symbols_before(tables@, *class, j as int),
            base <= j * MAX_SYMBOL_ENTRIES,
            start_text == text_before(bytes@, tables@, *class, *endianness, j as int),
            *text_bytes == start_text + table_charge(bytes@, tables@, t, *class, *endianness, i as int),
            *text_bytes <= MAX_TOTAL_TEXT_BYTES,
            symbols@.len() == base + i,
            forall|jj: int, ii: int| 0 <= jj < j && 0 <= ii < table_symbol_count(tables@[jj], *class) ==> #[trigger] symbol_slot(bytes@, secs@, tables@, *class, *endianness, symbols@, jj, ii),
            forall|ii: int| 0 <= ii < i ==> #[trigger] symbol_slot(bytes@, secs@, tables@, *class, *endianness, symbols@, j as int, ii),
        decreases clamped - i,
    {
        assert(i * entry_size + entry_size <= sym_data@.len()) by (nonlinear_arith)
            requires i < clamped, clamped * entry_size <= sym_data@.len();
        let raw = read_raw_symbol(sym_data, i * entry_size, class, endianness)?;
        assert(raw == table_raw_symbol(bytes@, t, *class, *endianness, i as int));
        let index = symbols.len();
        let symbol = match decode_symbol(secs, strings, raw, kind, index, text_bytes) {
            Ok(sym) => sym,
            Err(e) => {
                proof {
                    lemma_text_monotone(bytes@, tables@, *class, *endianness, t, i + 1, clamped as int);
                    lemma_text_before_monotone(bytes@, tables@, *class, *endianness, j + 1, j + 1);
                }
                return Err(e);
            },
        };
        let ghost old_symbols = symbols@;
        symbols.push(symbol);
        proof {
            lemma_push_slot(bytes@, secs@, tables@, *class, *endianness, old_symbols, symbols@, j as int, i as int);
        }
        i = i + 1;
    }
    proof {
        assert forall|jj: int, ii: int| 0 <= jj < j + 1 && 0 <= ii < table_symbol_count(tables@[jj], *class) implies #[trigger] symbol_slot(bytes@, secs@, tables@, *class, *endianness, symbols@, jj, ii) by {
            if jj == j {
            }
        }
    }
    Ok(())
}

} // verus!

verus! {

/// The tables the symbol decoder walks: every section header, then, when the
/// file has no `SHT_DYNSYM` section, the dynamic string and symbol tables
/// located through `PT_DYNAMIC`.
pub open spec fn symbol_tables(s: Seq<u8>, secs: Seq<Section>, segs: Seq<Segment>, c: ElfClass, e: Endianness) -> Seq<TableDesc> {
    let base = secs.map_values(|x: Section| desc_of(x));
    if find_section(secs, 11, 0) is None {
        match dyn_symtab(s, segs, c, e) {
            Some((symtab, strings)) => base.push(strings).push(
                TableDesc { section_type: symtab.section_type, offset: symtab.offset, size: symtab.size, link: secs.len() as u32 },
            ),
            None => base,
        }
    } else {
        base
    }
}

/// Whether the symbol tables decode without error.
pub open spec fn symbols_ok(s: Seq<u8>, secs: Seq<Section>, segs: Seq<Segment>, c: ElfClass, e: Endianness) -> bool {
    let tables = symbol_tables(s, secs, segs, c, e);
    &&& (find_section(secs, 11, 0) is None ==> dyn_symtab_ok(s, segs, c, e))
    &&& forall|j: int| 0 <= j < tables.len() ==> #[trigger] table_ok(s, tables, tables[j])
    &&& text_before(s, tables, c, e, tables.len() as int) <= MAX_TOTAL_TEXT_BYTES
}

/// `err` is the error of symbol tables that do not decode: locating the
/// dynamic symbol table through `PT_DYNAMIC` when no `SHT_DYNSYM` section
/// exists, then the first table that fails.
pub open spec fn symbols_error(s: Seq<u8>, secs: Seq<Section>, segs: Seq<Segment>, c: ElfClass, e: Endianness, err: AppError) -> bool {
    let tables = symbol_tables(s, secs, segs, c, e);
    if find_section(secs, 11, 0) is None && !dyn_symtab_ok(s, segs, c, e) {
        dyn_symtab_error(s, segs, c, e, err)
    } else {
        exists|j: int|
            0 <= j < tables.len() && (forall|k: int| 0 <= k < j ==> !#[trigger] table_fails(s, tables, c, e, k))
                && #[trigger] table_fails(s, tables, c, e, j) && err == table_failure(s, tables, tables[j])
    }
}

/// The decoded symbols of a file.
pub open spec fn symbols_decoded(s: Seq<u8>, secs: Seq<Section>, segs: Seq<Segment>, c: ElfClass, e: Endianness, v: Seq<Symbol>) -> bool {
    let tables = symbol_tables(s, secs, segs, c, e);
    symbols_decoded_upto(s, secs, tables, c, e, v, tables.len() as int)
}

proof fn lemma_symbols_before_bound(tables: Seq<TableDesc>, c: ElfClass, j: int)
    requires
        0 <= j <= tables.len(),
    ensures
        symbols_before(tables, c, j) <= j * MAX_SYMBOL_ENTRIES,
    decreases j,
{
    if j > 0 {
        lemma_symbols_before_bound(tables, c, j - 1);
    }
}

/// Decodes the static and dynamic symbol tables.
pub(crate) fn parse_symbols(
    bytes: &[u8],
    class: &ElfClass,
    endianness: &Endianness,
    sections: &[Section],
    segments: &[Segment],
) -> (r: Result<Vec<Symbol>, AppError>)
    requires
        loadable_ranges_fit(segments@),
    ensures
        r is Ok <==> symbols_ok(bytes@, sections@, segments@, *class, *endianness),
        r matches Ok(v) ==> symbols_decoded(bytes@, sections@, segments@, *class, *endianness, v@),
        r matches Err(err) ==> symbols_error(bytes@, sections@, segments@, *class, *endianness, err),
        r matches Err(err) ==> err is Parse,
{
    let mut tables: Vec<TableDesc> = Vec::new();
    let mut k: usize = 0;
    while k < sections.len()
        invariant
            k <= sections@.len(),
            tables@ =~= sections@.take(k as int).map_values(|x: Section| desc_of(x)),
        decreases sections@.len() - k,
    {
        let s = &sections[k];
        tables.push(TableDesc { section_type: s.section_type, offset: s.offset, size: s.size, link: s.link });
        proof {
            assert(sections@.take(k + 1).map_values(|x: Section| desc_of(x)) =~= sections@.take(k as int).map_values(|x: Section| desc_of(x)).push(desc_of(sections@[k as int])));
        }
        k = k + 1;
    }
    assert(sections@.take(sections@.len() as int) =~= sections@);
    if first_section_of_type(sections, 11).is_none() {
        if let Some((symtab, strings)) = dynamic_symbol_table(bytes, class, endianness, segments)? {
            let link = tables.len() as u32;
            tables.push(strings);
            tables.push(TableDesc { section_type: symtab.section_type, offset: symtab.offset, size: symtab.size, link });
        }
    }
    let ghost all = symbol_tables(bytes@, sections@, segments@, *class, *endianness);
    assert(tables@ =~= all);
    let mut symbols: Vec<Symbol> = Vec::new();
    let mut text_bytes: usize = 0;
    let mut j: usize = 0;
    while j < tables.len()
        invariant
            j <= tables@.len(),
            tables@ == all,
            all == symbol_tables(bytes@, sections@, segments@, *class, *endianness),
            first_section_of_type_none_ok(bytes@, sections@, segments@, *class, *endianness),
            text_bytes == text_before(bytes@, tables@, *class, *endianness, j as int),
            text_bytes <= MAX_TOTAL_TEXT_BYTES,
            symbols_decoded_upto(bytes@, sections@, tables@, *class, *endianness, symbols@, j as int),
            forall|jj: int| 0 <= jj < j ==> #[trigger] table_ok(bytes@, tables@, tables@[jj]),
            forall|jj: int| 0 <= jj < j ==> !#[trigger] table_fails(bytes@, tables@, *class, *endianness, jj),
        decreases tables@.len() - j,
    {
        proof {
            lemma_symbols_before_bound(tables@, *class, j as int);
        }
        match decode_table(bytes, class, endianness, sections, &tables, j, &mut symbols, &mut text_bytes) {
            Ok(()) => {},
            Err(e) => {
                proof {
                    lemma_text_before_monotone(bytes@, tables@, *class, *endianness, j + 1, tables@.len() as int);
                    assert(table_fails(bytes@, tables@, *class, *endianness, j as int));
                }
                return Err(e);
            },
        }
        j = j + 1;
    }
    Ok(symbols)
}

/// When the file has no `SHT_DYNSYM` section, locating the dynamic symbol table succeeded.
pub open spec fn first_section_of_type_none_ok(s: Seq<u8>, secs: Seq<Section>, segs: Seq<Segment>, c: ElfClass, e: Endianness) -> bool {
    find_section(secs, 11, 0) is None ==> dyn_symtab_ok(s, segs, c, e)
}

} // verus!

verus! {

proof fn lemma_symbol_position(tables: Seq<TableDesc>, c: ElfClass, upto: int, k: int) -> (ji: (int, int))
    requires
        0 <= upto,
        0 <= k < symbols_before(tables, c, upto),
    ensures
        0 <= ji.0 < upto,
        0 <= ji.1 < table_symbol_count(tables[ji.0], c),
        k == symbols_before(tables, c, ji.0) + ji.1,
    decreases upto,
{
    if k < symbols_before(tables, c, upto - 1) {
        lemma_symbol_position(tables, c, upto - 1, k)
    } else {
        (upto - 1, k - symbols_before(tables, c, upto - 1))
    }
}

proof fn lemma_no_symbol_tables(s: Seq<u8>, tables: Seq<TableDesc>, c: ElfClass, e: Endianness, j: int)
    requires
        0 <= j <= tables.len(),
        forall|k: int| 0 <= k < tables.len() ==> !is_symbol_table(#[trigger] tables[k]),
    ensures
        symbols_before(tables, c, j) == 0,
        text_before(s, tables, c, e, j) == 0,
    decreases j,
{
    if j > 0 {
        lemma_no_symbol_tables(s, tables, c, e, j - 1);
        assert(!is_symbol_table(tables[j - 1]));
        assert(table_charge(s, tables, tables[j - 1], c, e, 0) == 0);
    }
}

/// A stripped file, with neither `SHT_SYMTAB` nor `SHT_DYNSYM` sections nor a
/// `PT_DYNAMIC` segment, decodes without error to no symbols.
pub proof fn stripped_file_has_no_symbols(s: Seq<u8>, secs: Seq<Section>, segs: Seq<Segment>, c: ElfClass, e: Endianness, v: Seq<Symbol>)
    requires
        forall|i: int| 0 <= i < secs.len() ==> #[trigger] secs[i].section_type != 2 && secs[i].section_type != 11,
        forall|i: int| 0 <= i < segs.len() ==> #[trigger] segs[i].segment_type != 2,
    ensures
        symbols_ok(s, secs, segs, c, e),
        symbols_decoded(s, secs, segs, c, e, v) ==> v.len() == 0,
{
    super::dynamic::lemma_find_section(secs, 11, 0);
    super::dynamic::lemma_find_segment(segs, 2, 0);
    let tables = symbol_tables(s, secs, segs, c, e);
    assert(tables == secs.map_values(|x: Section| desc_of(x)));
    assert forall|k: int| 0 <= k < tables.len() implies !is_symbol_table(#[trigger] tables[k]) by {
        assert(tables[k] == desc_of(secs[k]));
    }
    lemma_no_symbol_tables(s, tables, c, e, tables.len() as int);
}

/// A decoded symbol's type, binding and visibility follow the ELF ABI: the
/// type is the low nibble of `st_info` (`STT_NOTYPE` 0, `STT_OBJECT` 1,
/// `STT_FUNC` 2, `STT_SECTION` 3, `STT_FILE` 4, `STT_COMMON` 5, `STT_TLS` 6,
/// `STT_GNU_IFUNC` 10), the binding its high nibble (`STB_LOCAL` 0,
/// `STB_GLOBAL` 1, `STB_WEAK` 2, `STB_GNU_UNIQUE` 10), and the visibility the
/// low two bits of `st_other` (`STV_DEFAULT` 0, `STV_INTERNAL` 1, `STV_HIDDEN`
/// 2, `STV_PROTECTED` 3); other values are kept as they are. Its value and
/// size are `st_value` and `st_size`, and a section index is reported only
/// for an ordinary section (neither `SHN_UNDEF` nor a reserved index). A
/// named symbol is an import when undefined (`SHN_UNDEF`, 0) and an export
/// when defined with global or weak binding; never both.
pub proof fn symbol_attributes_follow_abi(
    secs: Seq<Section>,
    strings: Option<Seq<u8>>,
    raw: RawSymbol,
    kind: SymbolTableKind,
    index: int,
    sym: Symbol,
)
    requires
        symbol_decoded(secs, strings, raw, kind, index, sym),
    ensures
        raw.info % 16 == 0 ==> sym.sym_type == SymbolType::NoType,
        raw.info % 16 == 1 ==> sym.sym_type == SymbolType::Object,
        raw.info % 16 == 2 ==> sym.sym_type == SymbolType::Func,
        raw.info % 16 == 3 ==> sym.sym_type == SymbolType::Section,
        raw.info % 16 == 4 ==> sym.sym_type == SymbolType::File,
        raw.info % 16 == 5 ==> sym.sym_type == SymbolType::Common,
        raw.info % 16 == 6 ==> sym.sym_type == SymbolType::Tls,
        raw.info % 16 == 10 ==> sym.sym_type == SymbolType::GnuIfunc,
        7 <= raw.info % 16 <= 9 || raw.info % 16 >= 11 ==> sym.sym_type == SymbolType::Other((raw.info % 16) as u8),
        raw.info / 16 == 0 ==> sym.binding == SymbolBinding::Local,
        raw.info / 16 == 1 ==> sym.binding == SymbolBinding::Global,
        raw.info / 16 == 2 ==> sym.binding == SymbolBinding::Weak,
        raw.info / 16 == 10 ==> sym.binding == SymbolBinding::GnuUnique,
        3 <= raw.info / 16 <= 9 || raw.info / 16 >= 11 ==> sym.binding == SymbolBinding::Other((raw.info / 16) as u8),
        raw.other % 4 == 0 ==> sym.visibility == SymbolVisibility::Default,
        raw.other % 4 == 1 ==> sym.visibility == SymbolVisibility::Internal,
        raw.other % 4 == 2 ==> sym.visibility == SymbolVisibility::Hidden,
        raw.other % 4 == 3 ==> sym.visibility == SymbolVisibility::Protected,
        sym.value == raw.value,
        sym.size == raw.size,
        sym.index == index,
        sym.table == kind,
        raw.shndx == 0 || raw.shndx >= 0xff00 ==> sym.section_index is None,
        1 <= raw.shndx < 0xff00 ==> sym.section_index == Some(raw.shndx),
        sym.is_import <==> raw.shndx == 0 && sym.name@.len() > 0,
        sym.is_export <==> raw.shndx != 0 && (raw.info / 16 == 1 || raw.info / 16 == 2) && sym.name@.len() > 0,
        !(sym.is_import && sym.is_export),
{
    let info = raw.info;
    let other = raw.other;
    assert(info & 0x0f == info % 16) by (bit_vector);
    assert(info >> 4 == info / 16) by (bit_vector);
    assert(other & 0x03 == other % 4) by (bit_vector);
}

/// Symbol names are terminal-safe when section names are: a symbol is named
/// by an escaped string, by the name of the section it stands for, or not at all.
pub proof fn decoded_symbol_names_printable(
    s: Seq<u8>,
    secs: Seq<Section>,
    segs: Seq<Segment>,
    c: ElfClass,
    e: Endianness,
    v: Seq<Symbol>,
)
    requires
        symbols_decoded(s, secs, segs, c, e, v),
        forall|i: int, k: int|
            0 <= i < secs.len() && 0 <= k < secs[i].name@.len() ==> crate::text::is_printable_ascii(#[trigger] secs[i].name@[k]),
    ensures
        forall|n: int, k: int|
            0 <= n < v.len() && 0 <= k < v[n].name@.len() ==> crate::text::is_printable_ascii(#[trigger] v[n].name@[k]),
{
    let tables = symbol_tables(s, secs, segs, c, e);
    assert forall|n: int, k: int| 0 <= n < v.len() && 0 <= k < v[n].name@.len() implies crate::text::is_printable_ascii(
        #[trigger] v[n].name@[k],
    ) by {
        let (j, i) = lemma_symbol_position(tables, c, tables.len() as int, n);
        assert(symbol_slot(s, secs, tables, c, e, v, j, i));
        let raw = table_raw_symbol(s, tables[j], c, e, i);
        let strings = table_strings(s, tables, tables[j]);
        if raw.name_offset != 0 {
            if let Some(b) = name_bytes_of(strings, raw) {
                crate::text::escaped_is_printable(b);
            }
        }
    }
}

} // verus!

verus! {

/// Symbol `i` of a symbol table is read from its entry as the ELF ABI lays it
/// out, in the file's byte order: entries are 24 bytes in ELF64 (`st_name`
/// at 0, `st_info` 4, `st_other` 5, `st_shndx` 6, `st_value` 8, `st_size`
/// 16) and 16 bytes in ELF32 (`st_name` 0, `st_value` 4, `st_size` 8,
/// `st_info` 12, `st_other` 13, `st_shndx` 14). The symbol's type, binding,
/// visibility and section then follow `symbol_attributes_follow_abi`.
pub proof fn symbol_entries_follow_abi(
    s: Seq<u8>,
    secs: Seq<Section>,
    tables: Seq<TableDesc>,
    c: ElfClass,
    e: Endianness,
    v: Seq<Symbol>,
    j: int,
    i: int,
)
    requires
        symbol_slot(s, secs, tables, c, e, v, j, i),
    ensures
        ({
            let raw = table_raw_symbol(s, tables[j], c, e, i);
            let d = range_bytes(s, tables[j].offset, tables[j].size);
            let sym = v[symbols_before(tables, c, j) + i];
            &&& c is Elf64 ==> {
                let at = 24 * i;
                &&& raw.name_offset == super::read::u32_at(d, at, e) as u32
                &&& raw.info == d[at + 4]
                &&& raw.other == d[at + 5]
                &&& raw.shndx == super::read::u16_at(d, at + 6, e) as u16
                &&& sym.value == super::read::u64_at(d, at + 8, e) as u64
                &&& sym.size == super::read::u64_at(d, at + 16, e) as u64
            }
            &&& c is Elf32 ==> {
                let at = 16 * i;
                &&& raw.name_offset == super::read::u32_at(d, at, e) as u32
                &&& sym.value == super::read::u32_at(d, at + 4, e) as u64
                &&& sym.size == super::read::u32_at(d, at + 8, e) as u64
                &&& raw.info == d[at + 12]
                &&& raw.other == d[at + 13]
                &&& raw.shndx == super::read::u16_at(d, at + 14, e) as u16
            }
            &&& symbol_decoded(secs, table_strings(s, tables, tables[j]), raw, kind_of(tables[j]), symbols_before(tables, c, j) + i, sym)
        }),
{
}

} // verus!

verus! {

/// A decoded symbol is shown under the `readelf` names of its ABI values:
/// `st_info` type 0..6 and 10 as `NOTYPE`, `OBJECT`, `FUNC`, `SECTION`,
/// `FILE`, `COMMON`, `TLS` and `IFUNC`; binding 0, 1, 2 and 10 as `LOCAL`,
/// `GLOBAL`, `WEAK` and `UNIQUE`; `st_other` visibility 0..3 as `DEFAULT`,
/// `INTERNAL`, `HIDDEN` and `PROTECTED`.
pub proof fn symbol_display_follows_abi(
    secs: Seq<Section>,
    strings: Option<Seq<u8>>,
    raw: RawSymbol,
    kind: SymbolTableKind,
    index: int,
    sym: Symbol,
)
    requires
        symbol_decoded(secs, strings, raw, kind, index, sym),
    ensures
        raw.info % 16 == 0 ==> crate::model::symbol_type_label(sym.sym_type) == "NOTYPE"@,
        raw.info % 16 == 1 ==> crate::model::symbol_type_label(sym.sym_type) == "OBJECT"@,
        raw.info % 16 == 2 ==> crate::model::symbol_type_label(sym.sym_type) == "FUNC"@,
        raw.info % 16 == 3 ==> crate::model::symbol_type_label(sym.sym_type) == "SECTION"@,
        raw.info % 16 == 4 ==> crate::model::symbol_type_label(sym.sym_type) == "FILE"@,
        raw.info % 16 == 5 ==> crate::model::symbol_type_label(sym.sym_type) == "COMMON"@,
        raw.info % 16 == 6 ==> crate::model::symbol_type_label(sym.sym_type) == "TLS"@,
        raw.info % 16 == 10 ==> crate::model::symbol_type_label(sym.sym_type) == "IFUNC"@,
        raw.info / 16 == 0 ==> crate::model::binding_label(sym.binding) == "LOCAL"@,
        raw.info / 16 == 1 ==> crate::model::binding_label(sym.binding) == "GLOBAL"@,
        raw.info / 16 == 2 ==> crate::model::binding_label(sym.binding) == "WEAK"@,
        raw.info / 16 == 10 ==> crate::model::binding_label(sym.binding) == "UNIQUE"@,
        raw.other % 4 == 0 ==> crate::model::visibility_label(sym.visibility)@ == "DEFAULT"@,
        raw.other % 4 == 1 ==> crate::model::visibility_label(sym.visibility)@ == "INTERNAL"@,
        raw.other % 4 == 2 ==> crate::model::visibility_label(sym.visibility)@ == "HIDDEN"@,
        raw.other % 4 == 3 ==> crate::model::visibility_label(sym.visibility)@ == "PROTECTED"@,
{
    symbol_attributes_follow_abi(secs, strings, raw, kind, index, sym);
}

} // verus!
