//! ELF notes: GNU ABI tags, build IDs, program properties, and Go build IDs.

use vstd::prelude::*;
use crate::error::AppError;
use crate::fmt::{
    decimal, decimal_printable, hex, hex_bytes, hex_bytes_printable, hex_printable, push_decimal, push_hex, push_hex_bytes,
    push_str,
};
use crate::model::{ElfClass, ElfNote, Endianness, Section, Segment};
use crate::text::{escape_bytes, escaped, escaped_printable, printable_concat, printable_text};
use super::dynamic::range_bytes;
use super::read::{file_slice, range_in_file, read_u32, u32_at};

verus! {

/// Largest number of notes decoded in one inspection.
pub const MAX_NOTE_ENTRIES: usize = 8_192;

/// `n` rounded up to a multiple of four.
pub open spec fn pad4(n: nat) -> nat {
    ((n + 3) / 4 * 4) as nat
}

/// `n` rounded up to a multiple of eight.
pub open spec fn pad8(n: nat) -> nat {
    ((n + 7) / 8 * 8) as nat
}

/// A note as stored in the file.
pub struct RawNote {
    /// Owner name bytes (`namesz` bytes).
    pub name: Seq<u8>,
    /// Descriptor bytes (`descsz` bytes).
    pub desc: Seq<u8>,
    /// `n_type`.
    pub note_type: u32,
}

/// The note at offset `cur` of a note buffer and the offset after it, when it fits.
pub open spec fn note_at(d: Seq<u8>, e: Endianness, cur: int) -> Option<(RawNote, int)> {
    if cur < 0 || cur + 12 > d.len() {
        None
    } else {
        let namesz = u32_at(d, cur, e);
        let descsz = u32_at(d, cur + 4, e);
        let note_type = u32_at(d, cur + 8, e) as u32;
        let c = cur + 12;
        let name_next = c + pad4(namesz);
        let desc_next = name_next + pad4(descsz);
        if c + namesz > d.len() || name_next > d.len() || name_next + descsz > d.len() || desc_next > d.len() {
            None
        } else {
            Some((RawNote { name: d.subrange(c, c + namesz), desc: d.subrange(name_next, name_next + descsz), note_type }, desc_next))
        }
    }
}

/// The notes of a note buffer from offset `cur`, up to the first one that does not fit.
pub open spec fn notes_from(d: Seq<u8>, e: Endianness, cur: int) -> Seq<RawNote>
    decreases d.len() - cur,
{
    match note_at(d, e, cur) {
        Some((n, next)) => if next > cur {
            seq![n] + notes_from(d, e, next)
        } else {
            Seq::empty()
        },
        None => Seq::empty(),
    }
}

/// A note name without one trailing NUL.
pub open spec fn strip_nul(name: Seq<u8>) -> Seq<u8> {
    if name.len() > 0 && name.last() == 0 {
        name.drop_last()
    } else {
        name
    }
}

/// The operating system named by a GNU ABI tag.
pub open spec fn abi_os_name(os: nat) -> Seq<char> {
    if os == 0 {
        "Linux"@
    } else if os == 1 {
        "GNU/Hurd"@
    } else if os == 2 {
        "Solaris"@
    } else if os == 3 {
        "FreeBSD"@
    } else {
        "OS"@
    }
}

/// `OS major.minor.subminor` of a GNU ABI tag descriptor.
pub open spec fn abi_tag_text(d: Seq<u8>, e: Endianness) -> Seq<char> {
    abi_os_name(u32_at(d, 0, e)) + " "@ + decimal(u32_at(d, 4, e)) + "."@ + decimal(u32_at(d, 8, e)) + "."@
        + decimal(u32_at(d, 12, e))
}

/// The build ID text: the first 64 descriptor bytes in hexadecimal.
pub open spec fn build_id_text(d: Seq<u8>) -> Seq<char> {
    hex_bytes(if d.len() > 64 { d.take(64) } else { d })
}

/// The strings one GNU program property contributes.
pub open spec fn property_strings(t: nat, data: Seq<u8>, e: Endianness) -> Seq<Seq<char>> {
    if t == 0xc000_0002 {
        if data.len() >= 4 {
            let bits = u32_at(data, 0, e) as u32;
            (if bits & 1 != 0 { seq!["x86 IBT (Indirect Branch Tracking)"@] } else { Seq::empty() })
                + (if bits & 2 != 0 { seq!["x86 SHSTK (Shadow Stack)"@] } else { Seq::empty() })
        } else {
            Seq::empty()
        }
    } else if t == 0xc000_0000 {
        if data.len() >= 4 {
            let bits = u32_at(data, 0, e) as u32;
            (if bits & 1 != 0 { seq!["ARM BTI (Branch Target Identification)"@] } else { Seq::empty() })
                + (if bits & 2 != 0 { seq!["ARM PAC (Pointer Authentication)"@] } else { Seq::empty() })
        } else {
            Seq::empty()
        }
    } else {
        seq!["Property 0x"@ + hex(t)]
    }
}

/// The property strings of a `NT_GNU_PROPERTY_TYPE_0` descriptor from offset `off`.
pub open spec fn properties_from(d: Seq<u8>, e: Endianness, off: int) -> Seq<Seq<char>>
    decreases d.len() - off,
{
    if off < 0 || off + 8 > d.len() {
        Seq::empty()
    } else {
        let t = u32_at(d, off, e);
        let sz = u32_at(d, off + 4, e);
        let start = off + 8;
        if start + sz > d.len() {
            Seq::empty()
        } else {
            let next = start + pad8(sz);
            property_strings(t, d.subrange(start, start + sz), e) + if next <= d.len() {
                properties_from(d, e, next)
            } else {
                Seq::empty()
            }
        }
    }
}

/// The owner name of a note, rendered terminal-safe.
pub open spec fn note_name(n: RawNote) -> Seq<char> {
    escaped(strip_nul(n.name))
}

/// Whether a note is owned by `GNU`.
pub open spec fn is_gnu(n: RawNote) -> bool {
    note_name(n) == seq!['G', 'N', 'U']
}

/// Whether a note is a GNU ABI tag with a complete descriptor.
pub open spec fn is_abi_tag(n: RawNote) -> bool {
    is_gnu(n) && n.note_type == 1 && n.desc.len() >= 16
}

/// The summary line of a note.
pub open spec fn note_description(n: RawNote, e: Endianness) -> Seq<char> {
    if is_abi_tag(n) {
        "ABI requirement: "@ + abi_tag_text(n.desc, e)
    } else if is_gnu(n) && n.note_type == 3 {
        "Build ID: "@ + build_id_text(n.desc)
    } else if is_gnu(n) && n.note_type == 5 {
        "GNU Properties"@
    } else if note_name(n) == seq!['G', 'o'] && n.note_type == 4 {
        "Go Build ID: "@ + escaped(n.desc)
    } else {
        "Note type 0x"@ + hex(n.note_type as nat)
    }
}

/// Note `v` is the decoding of raw note `n`.
pub open spec fn note_decoded(n: RawNote, e: Endianness, v: ElfNote) -> bool {
    &&& v.name@ == note_name(n)
    &&& v.note_type == n.note_type
    &&& v.description@ == note_description(n, e)
    &&& (if is_abi_tag(n) { v.abi_tag matches Some(t) && t@ == abi_tag_text(n.desc, e) } else { v.abi_tag is None })
    &&& (if is_gnu(n) && n.note_type == 3 { v.build_id matches Some(b) && b@ == build_id_text(n.desc) } else { v.build_id is None })
    &&& super::dynamic::strings_view(v.properties@) == (if is_gnu(n) && n.note_type == 5 { properties_from(n.desc, e, 0) } else { Seq::empty() })
}

} // verus!

verus! {

fn abi_tag(desc: &[u8], endianness: &Endianness) -> (s: String)
    requires
        desc@.len() >= 16,
    ensures
        s@ == abi_tag_text(desc@, *endianness),
{
    let os = match read_u32(desc, 0, endianness) { Ok(v) => v, Err(_) => 0 };
    let major = match read_u32(desc, 4, endianness) { Ok(v) => v, Err(_) => 0 };
    let minor = match read_u32(desc, 8, endianness) { Ok(v) => v, Err(_) => 0 };
    let subminor = match read_u32(desc, 12, endianness) { Ok(v) => v, Err(_) => 0 };
    let mut s = String::new();
    let os_str = if os == 0 {
        "Linux"
    } else if os == 1 {
        "GNU/Hurd"
    } else if os == 2 {
        "Solaris"
    } else if os == 3 {
        "FreeBSD"
    } else {
        "OS"
    };
    push_str(&mut s, os_str);
    push_str(&mut s, " ");
    push_decimal(&mut s, major as u64);
    push_str(&mut s, ".");
    push_decimal(&mut s, minor as u64);
    push_str(&mut s, ".");
    push_decimal(&mut s, subminor as u64);
    assert(s@ =~= abi_tag_text(desc@, *endianness));
    s
}

fn property_list(t: u32, data: &[u8], endianness: &Endianness, out: &mut Vec<String>)
    ensures
        super::dynamic::strings_view(final(out)@) == super::dynamic::strings_view(old(out)@) + property_strings(t as nat, data@, *endianness),
{
    let ghost before = super::dynamic::strings_view(out@);
    if t == 0xc000_0002 || t == 0xc000_0000 {
        if data.len() >= 4 {
            let bits = match read_u32(data, 0, endianness) { Ok(v) => v, Err(_) => 0 };
            if bits & 1 != 0 {
                out.push(String::from_str(if t == 0xc000_0002 { "x86 IBT (Indirect Branch Tracking)" } else { "ARM BTI (Branch Target Identification)" }));
            }
            if bits & 2 != 0 {
                out.push(String::from_str(if t == 0xc000_0002 { "x86 SHSTK (Shadow Stack)" } else { "ARM PAC (Pointer Authentication)" }));
            }
        }
    } else {
        let mut s = String::from_str("Property 0x");
        push_hex(&mut s, t as u64);
        out.push(s);
    }
    assert(super::dynamic::strings_view(out@) =~= before + property_strings(t as nat, data@, *endianness));
}

fn gnu_properties(desc: &[u8], endianness: &Endianness) -> (props: Vec<String>)
    ensures
        super::dynamic::strings_view(props@) == properties_from(desc@, *endianness, 0),
{
    let mut props: Vec<String> = Vec::new();
    let len = desc.len();
    let mut off: usize = 0;
    while len >= 8 && off <= len - 8
        invariant
            len == desc@.len(),
            off <= len,
            properties_from(desc@, *endianness, 0) == super::dynamic::strings_view(props@) + properties_from(desc@, *endianness, off as int),
        decreases len - off,
    {
        let t = match read_u32(desc, off, endianness) { Ok(v) => v, Err(_) => 0 };
        let sz = match read_u32(desc, off + 4, endianness) { Ok(v) => v, Err(_) => 0 } as usize;
        let start = off + 8;
        if sz > len - start {
            assert(properties_from(desc@, *endianness, off as int) =~= Seq::empty());
            assert(super::dynamic::strings_view(props@) + properties_from(desc@, *endianness, off as int) =~= super::dynamic::strings_view(props@));
            return props;
        }
        let data = vstd::slice::slice_subrange(desc, start, start + sz);
        let ghost before = super::dynamic::strings_view(props@);
        property_list(t, data, endianness, &mut props);
        let padded = (sz + 7) / 8 * 8;
        proof {
            let next = start + pad8(sz as nat);
            let rest = if next <= len { properties_from(desc@, *endianness, next as int) } else { Seq::empty() };
            assert(properties_from(desc@, *endianness, off as int) == property_strings(t as nat, data@, *endianness) + rest);
            assert(super::dynamic::strings_view(props@) + rest =~= before + properties_from(desc@, *endianness, off as int));
        }
        if padded > len - start {
            assert(super::dynamic::strings_view(props@) + Seq::<Seq<char>>::empty() =~= super::dynamic::strings_view(props@));
            return props;
        }
        off = start + padded;
    }
    assert(properties_from(desc@, *endianness, off as int) =~= Seq::empty());
    assert(super::dynamic::strings_view(props@) + properties_from(desc@, *endianness, off as int) =~= super::dynamic::strings_view(props@));
    props
}

/// Decodes one note from its name bytes, descriptor bytes, and type.
pub fn decode_note(name_raw: &[u8], desc_raw: &[u8], note_type: u32, endianness: &Endianness) -> (v: ElfNote)
    ensures
        note_decoded(RawNote { name: name_raw@, desc: desc_raw@, note_type }, *endianness, v),
{
    let ghost n = RawNote { name: name_raw@, desc: desc_raw@, note_type };
    let trimmed = if name_raw.len() > 0 && name_raw[name_raw.len() - 1] == 0 {
        vstd::slice::slice_subrange(name_raw, 0, name_raw.len() - 1)
    } else {
        name_raw
    };
    assert(trimmed@ =~= strip_nul(name_raw@));
    let clean_name = escape_bytes(trimmed);
    let gnu = clean_name.as_str().unicode_len() == 3 && clean_name.as_str().get_char(0) == 'G'
        && clean_name.as_str().get_char(1) == 'N' && clean_name.as_str().get_char(2) == 'U';
    proof {
        if gnu {
            assert(clean_name@ =~= seq!['G', 'N', 'U']);
        } else if clean_name@ == seq!['G', 'N', 'U'] {
            assert(clean_name@[0] == 'G');
        }
    }
    let go = clean_name.as_str().unicode_len() == 2 && clean_name.as_str().get_char(0) == 'G'
        && clean_name.as_str().get_char(1) == 'o';
    proof {
        if go {
            assert(clean_name@ =~= seq!['G', 'o']);
        } else if clean_name@ == seq!['G', 'o'] {
            assert(clean_name@[0] == 'G');
        }
    }
    let mut build_id: Option<String> = None;
    let mut abi: Option<String> = None;
    let mut properties: Vec<String> = Vec::new();
    let mut description = String::new();
    if gnu && note_type == 1 && desc_raw.len() >= 16 {
        let tag = abi_tag(desc_raw, endianness);
        push_str(&mut description, "ABI requirement: ");
        push_str(&mut description, tag.as_str());
        abi = Some(tag);
    } else if gnu && note_type == 3 {
        let id_bytes = if desc_raw.len() > 64 { vstd::slice::slice_subrange(desc_raw, 0, 64) } else { desc_raw };
        let mut hex_text = String::new();
        push_hex_bytes(&mut hex_text, id_bytes);
        push_str(&mut description, "Build ID: ");
        push_str(&mut description, hex_text.as_str());
        assert(id_bytes@ =~= (if desc_raw@.len() > 64 { desc_raw@.take(64) } else { desc_raw@ }));
        build_id = Some(hex_text);
    } else if gnu && note_type == 5 {
        push_str(&mut description, "GNU Properties");
        properties = gnu_properties(desc_raw, endianness);
    } else if go && note_type == 4 {
        push_str(&mut description, "Go Build ID: ");
        let text = escape_bytes(desc_raw);
        push_str(&mut description, text.as_str());
    } else {
        push_str(&mut description, "Note type 0x");
        push_hex(&mut description, note_type as u64);
    }
    assert(description@ =~= note_description(n, *endianness));
    assert(super::dynamic::strings_view(properties@) =~= (if is_gnu(n) && n.note_type == 5 { properties_from(n.desc, *endianness, 0) } else { Seq::empty() }));
    ElfNote { name: clean_name, note_type, description, build_id, abi_tag: abi, properties }
}

} // verus!

verus! {

/// The `(offset, size)` ranges of the `SHT_NOTE` sections, in order.
pub open spec fn section_note_ranges(secs: Seq<Section>) -> Seq<(u64, u64)>
    decreases secs.len(),
{
    if secs.len() == 0 {
        Seq::empty()
    } else {
        section_note_ranges(secs.drop_last()) + if secs.last().section_type == 7 {
            seq![(secs.last().offset, secs.last().size)]
        } else {
            Seq::empty()
        }
    }
}

/// The `(offset, size)` ranges of the `PT_NOTE` segments, in order.
pub open spec fn segment_note_ranges(segs: Seq<Segment>) -> Seq<(u64, u64)>
    decreases segs.len(),
{
    if segs.len() == 0 {
        Seq::empty()
    } else {
        segment_note_ranges(segs.drop_last()) + if segs.last().segment_type == 4 {
            seq![(segs.last().offset, segs.last().file_size)]
        } else {
            Seq::empty()
        }
    }
}

/// The note ranges: `SHT_NOTE` sections when there are any, else `PT_NOTE` segments.
pub open spec fn note_ranges(secs: Seq<Section>, segs: Seq<Segment>) -> Seq<(u64, u64)> {
    if section_note_ranges(secs).len() > 0 {
        section_note_ranges(secs)
    } else {
        segment_note_ranges(segs)
    }
}

/// The notes of one range; an empty range or one outside the file holds none.
pub open spec fn range_notes(s: Seq<u8>, e: Endianness, r: (u64, u64)) -> Seq<RawNote> {
    if r.1 == 0 || !range_in_file(s.len(), r.0, r.1) {
        Seq::empty()
    } else {
        notes_from(range_bytes(s, r.0, r.1), e, 0)
    }
}

/// The notes of a list of ranges, in order.
pub open spec fn all_notes(s: Seq<u8>, e: Endianness, ranges: Seq<(u64, u64)>) -> Seq<RawNote>
    decreases ranges.len(),
{
    if ranges.len() == 0 {
        Seq::empty()
    } else {
        all_notes(s, e, ranges.drop_last()) + range_notes(s, e, ranges.last())
    }
}

/// `v` decodes the first notes of `all`, up to the note cap.
pub open spec fn notes_prefix_decoded(all: Seq<RawNote>, e: Endianness, v: Seq<ElfNote>) -> bool {
    &&& v.len() == (if all.len() <= MAX_NOTE_ENTRIES { all.len() } else { MAX_NOTE_ENTRIES as nat })
    &&& forall|k: int| 0 <= k < v.len() ==> #[trigger] note_decoded(all[k], e, v[k])
}

/// The decoded notes of a file.
pub open spec fn notes_decoded(s: Seq<u8>, e: Endianness, secs: Seq<Section>, segs: Seq<Segment>, v: Seq<ElfNote>) -> bool {
    notes_prefix_decoded(all_notes(s, e, note_ranges(secs, segs)), e, v)
}

proof fn lemma_notes_extend(all: Seq<RawNote>, more: Seq<RawNote>, e: Endianness, v: Seq<ElfNote>)
    requires
        notes_prefix_decoded(all, e, v),
        v.len() >= MAX_NOTE_ENTRIES,
    ensures
        notes_prefix_decoded(all + more, e, v),
{
    assert forall|k: int| 0 <= k < v.len() implies #[trigger] note_decoded((all + more)[k], e, v[k]) by {
        assert((all + more)[k] == all[k]);
    }
}

#[verifier::rlimit(50)]
fn parse_note_buffer(data: &[u8], endianness: &Endianness, notes: &mut Vec<ElfNote>, Ghost(prefix): Ghost<Seq<RawNote>>)
    requires
        notes_prefix_decoded(prefix, *endianness, old(notes)@),
    ensures
        notes_prefix_decoded(prefix + notes_from(data@, *endianness, 0), *endianness, final(notes)@),
{
    let ghost all = prefix + notes_from(data@, *endianness, 0);
    if notes.len() >= MAX_NOTE_ENTRIES {
        proof {
            lemma_notes_extend(prefix, notes_from(data@, *endianness, 0), *endianness, notes@);
        }
        return;
    }
    let len = data.len() as u64;
    let mut cur: u64 = 0;
    let ghost mut done: Seq<RawNote> = Seq::empty();
    assert(notes_from(data@, *endianness, 0) =~= done + notes_from(data@, *endianness, cur as int));
    loop
        invariant
            len == data@.len(),
            len <= usize::MAX,
            cur <= len,
            all == prefix + notes_from(data@, *endianness, 0),
            notes_from(data@, *endianness, 0) == done + notes_from(data@, *endianness, cur as int),
            notes@.len() == prefix.len() + done.len(),
            notes@.len() < MAX_NOTE_ENTRIES,
            forall|k: int| 0 <= k < notes@.len() ==> #[trigger] note_decoded((prefix + done)[k], *endianness, notes@[k]),
        decreases len - cur,
    {
        let ghost here = notes_from(data@, *endianness, cur as int);
        if len - cur < 12 {
            assert(here =~= Seq::empty());
            assert(prefix + notes_from(data@, *endianness, 0) =~= prefix + done);
            return;
        }
        let namesz = match read_u32(data, cur as usize, endianness) { Ok(v) => v as u64, Err(_) => 0 };
        let descsz = match read_u32(data, cur as usize + 4, endianness) { Ok(v) => v as u64, Err(_) => 0 };
        let note_type = match read_u32(data, cur as usize + 8, endianness) { Ok(v) => v, Err(_) => 0 };
        let c = cur + 12;
        let name_pad = (namesz + 3) / 4 * 4;
        let desc_pad = (descsz + 3) / 4 * 4;
        if namesz > len - c || name_pad > len - c {
            assert(here =~= Seq::empty());
            assert(prefix + notes_from(data@, *endianness, 0) =~= prefix + done);
            return;
        }
        let name_next = c + name_pad;
        if descsz > len - name_next || desc_pad > len - name_next {
            assert(here =~= Seq::empty());
            assert(prefix + notes_from(data@, *endianness, 0) =~= prefix + done);
            return;
        }
        let next = name_next + desc_pad;
        let name_raw = vstd::slice::slice_subrange(data, c as usize, (c + namesz) as usize);
        let desc_raw = vstd::slice::slice_subrange(data, name_next as usize, (name_next + descsz) as usize);
        let ghost raw = RawNote { name: name_raw@, desc: desc_raw@, note_type };
        assert(note_at(data@, *endianness, cur as int) == Some((raw, next as int)));
        let note = decode_note(name_raw, desc_raw, note_type, endianness);
        notes.push(note);
        proof {
            assert(here == seq![raw] + notes_from(data@, *endianness, next as int));
            let old_done = done;
            done = done.push(raw);
            assert(notes_from(data@, *endianness, 0) =~= done + notes_from(data@, *endianness, next as int));
            assert forall|k: int| 0 <= k < notes@.len() implies #[trigger] note_decoded((prefix + done)[k], *endianness, notes@[k]) by {
                if k < notes@.len() - 1 {
                    assert((prefix + done)[k] == (prefix + old_done)[k]);
                } else {
                    assert((prefix + done)[k] == raw);
                }
            }
        }
        cur = next;
        if notes.len() >= MAX_NOTE_ENTRIES {
            proof {
                assert(prefix + notes_from(data@, *endianness, 0) =~= (prefix + done) + notes_from(data@, *endianness, cur as int));
                lemma_notes_extend(prefix + done, notes_from(data@, *endianness, cur as int), *endianness, notes@);
            }
            return;
        }
    }
}

/// Decodes the notes of the `SHT_NOTE` sections, or of the `PT_NOTE` segments when there are none.
pub fn parse_notes(
    bytes: &[u8],
    _class: &ElfClass,
    endianness: &Endianness,
    sections: &[Section],
    segments: &[Segment],
) -> (r: Result<Vec<ElfNote>, AppError>)
    ensures
        r matches Ok(v) && notes_decoded(bytes@, *endianness, sections@, segments@, v@),
{
    let mut ranges: Vec<(u64, u64)> = Vec::new();
    let mut i: usize = 0;
    while i < sections.len()
        invariant
            i <= sections@.len(),
            ranges@ == section_note_ranges(sections@.take(i as int)),
        decreases sections@.len() - i,
    {
        assert(sections@.take(i + 1).drop_last() =~= sections@.take(i as int));
        if sections[i].section_type == 7 {
            ranges.push((sections[i].offset, sections[i].size));
        }
        assert(ranges@ =~= section_note_ranges(sections@.take(i + 1)));
        i = i + 1;
    }
    assert(sections@.take(sections@.len() as int) =~= sections@);
    if ranges.len() == 0 {
        let mut j: usize = 0;
        while j < segments.len()
            invariant
                j <= segments@.len(),
                ranges@ == segment_note_ranges(segments@.take(j as int)),
            decreases segments@.len() - j,
        {
            assert(segments@.take(j + 1).drop_last() =~= segments@.take(j as int));
            if segments[j].segment_type == 4 {
                ranges.push((segments[j].offset, segments[j].file_size));
            }
            assert(ranges@ =~= segment_note_ranges(segments@.take(j + 1)));
            j = j + 1;
        }
        assert(segments@.take(segments@.len() as int) =~= segments@);
    }
    assert(ranges@ == note_ranges(sections@, segments@));
    let mut notes: Vec<ElfNote> = Vec::new();
    let mut k: usize = 0;
    while k < ranges.len()
        invariant
            k <= ranges@.len(),
            notes_prefix_decoded(all_notes(bytes@, *endianness, ranges@.take(k as int)), *endianness, notes@),
        decreases ranges@.len() - k,
    {
        let (offset, size) = ranges[k];
        let ghost prefix = all_notes(bytes@, *endianness, ranges@.take(k as int));
        assert(ranges@.take(k + 1).drop_last() =~= ranges@.take(k as int));
        if size != 0 {
            if let Ok(data) = file_slice(bytes, offset, size, "note data") {
                parse_note_buffer(data, endianness, &mut notes, Ghost(prefix));
            } else {
                assert(prefix + range_notes(bytes@, *endianness, ranges@[k as int]) =~= prefix);
            }
        } else {
            assert(prefix + range_notes(bytes@, *endianness, ranges@[k as int]) =~= prefix);
        }
        k = k + 1;
    }
    assert(ranges@.take(ranges@.len() as int) =~= ranges@);
    Ok(notes)
}

} // verus!

verus! {

proof fn lemma_property_strings_printable(t: nat, data: Seq<u8>, e: Endianness)
    ensures
        forall|j: int| 0 <= j < property_strings(t, data, e).len() ==> printable_text(#[trigger] property_strings(t, data, e)[j]),
{
    assert(printable_text("x86 IBT (Indirect Branch Tracking)"@)) by { reveal_strlit("x86 IBT (Indirect Branch Tracking)"); }
    assert(printable_text("x86 SHSTK (Shadow Stack)"@)) by { reveal_strlit("x86 SHSTK (Shadow Stack)"); }
    assert(printable_text("ARM BTI (Branch Target Identification)"@)) by {
        reveal_strlit("ARM BTI (Branch Target Identification)");
    }
    assert(printable_text("ARM PAC (Pointer Authentication)"@)) by { reveal_strlit("ARM PAC (Pointer Authentication)"); }
    assert(printable_text("Property 0x"@)) by { reveal_strlit("Property 0x"); }
    hex_printable(t);
    printable_concat("Property 0x"@, hex(t));
    let v = property_strings(t, data, e);
    assert forall|j: int| 0 <= j < v.len() implies printable_text(#[trigger] v[j]) by {
        if t == 0xc000_0002 || t == 0xc000_0000 {
            if data.len() >= 4 {
                let bits = u32_at(data, 0, e) as u32;
                let a: Seq<Seq<char>> = if t == 0xc000_0002 {
                    if bits & 1 != 0 { seq!["x86 IBT (Indirect Branch Tracking)"@] } else { Seq::empty() }
                } else {
                    if bits & 1 != 0 { seq!["ARM BTI (Branch Target Identification)"@] } else { Seq::empty() }
                };
                if j < a.len() {
                    assert(v[j] == a[j]);
                } else {
                    assert(v[j] == v[j]);
                }
            }
        }
    }
}

proof fn lemma_properties_printable(d: Seq<u8>, e: Endianness, off: int)
    ensures
        forall|j: int| 0 <= j < properties_from(d, e, off).len() ==> printable_text(#[trigger] properties_from(d, e, off)[j]),
    decreases d.len() - off,
{
    if !(off < 0 || off + 8 > d.len()) {
        let t = u32_at(d, off, e);
        let sz = u32_at(d, off + 4, e);
        let start = off + 8;
        if start + sz <= d.len() {
            let next = start + pad8(sz);
            let here = property_strings(t, d.subrange(start, start + sz), e);
            lemma_property_strings_printable(t, d.subrange(start, start + sz), e);
            let rest = if next <= d.len() { properties_from(d, e, next) } else { Seq::empty() };
            if next <= d.len() {
                lemma_properties_printable(d, e, next);
            }
            let v = properties_from(d, e, off);
            assert(v == here + rest);
            assert forall|j: int| 0 <= j < v.len() implies printable_text(#[trigger] v[j]) by {
                if j < here.len() {
                    assert(v[j] == here[j]);
                } else {
                    assert(v[j] == rest[j - here.len()]);
                }
            }
        }
    }
}

proof fn lemma_description_printable(n: RawNote, e: Endianness)
    ensures
        printable_text(note_description(n, e)),
{
    assert(printable_text("ABI requirement: "@)) by { reveal_strlit("ABI requirement: "); }
    assert(printable_text("Build ID: "@)) by { reveal_strlit("Build ID: "); }
    assert(printable_text("GNU Properties"@)) by { reveal_strlit("GNU Properties"); }
    assert(printable_text("Go Build ID: "@)) by { reveal_strlit("Go Build ID: "); }
    assert(printable_text("Note type 0x"@)) by { reveal_strlit("Note type 0x"); }
    if is_abi_tag(n) {
        let d = n.desc;
        assert(printable_text(abi_os_name(u32_at(d, 0, e)))) by {
            reveal_strlit("Linux");
            reveal_strlit("GNU/Hurd");
            reveal_strlit("Solaris");
            reveal_strlit("FreeBSD");
            reveal_strlit("OS");
        }
        assert(printable_text(" "@)) by { reveal_strlit(" "); }
        assert(printable_text("."@)) by { reveal_strlit("."); }
        decimal_printable(u32_at(d, 4, e));
        decimal_printable(u32_at(d, 8, e));
        decimal_printable(u32_at(d, 12, e));
        let a0 = abi_os_name(u32_at(d, 0, e));
        printable_concat(a0, " "@);
        printable_concat(a0 + " "@, decimal(u32_at(d, 4, e)));
        printable_concat(a0 + " "@ + decimal(u32_at(d, 4, e)), "."@);
        printable_concat(a0 + " "@ + decimal(u32_at(d, 4, e)) + "."@, decimal(u32_at(d, 8, e)));
        printable_concat(a0 + " "@ + decimal(u32_at(d, 4, e)) + "."@ + decimal(u32_at(d, 8, e)), "."@);
        printable_concat(
            a0 + " "@ + decimal(u32_at(d, 4, e)) + "."@ + decimal(u32_at(d, 8, e)) + "."@,
            decimal(u32_at(d, 12, e)),
        );
        printable_concat("ABI requirement: "@, abi_tag_text(d, e));
    } else if is_gnu(n) && n.note_type == 3 {
        hex_bytes_printable(if n.desc.len() > 64 { n.desc.take(64) } else { n.desc });
        printable_concat("Build ID: "@, build_id_text(n.desc));
    } else if is_gnu(n) && n.note_type == 5 {
    } else if note_name(n) == seq!['G', 'o'] && n.note_type == 4 {
        escaped_printable(n.desc);
        printable_concat("Go Build ID: "@, escaped(n.desc));
    } else {
        hex_printable(n.note_type as nat);
        printable_concat("Note type 0x"@, hex(n.note_type as nat));
    }
}

/// The texts of a decoded note are printable: its owner name is escaped, and
/// its summary and properties are made of fixed text, digits and escaped bytes.
pub proof fn decoded_note_texts_printable(n: RawNote, e: Endianness, v: ElfNote)
    requires
        note_decoded(n, e, v),
    ensures
        printable_text(v.name@),
        printable_text(v.description@),
        forall|j: int| 0 <= j < v.properties@.len() ==> printable_text(#[trigger] v.properties@[j]@),
{
    escaped_printable(strip_nul(n.name));
    lemma_description_printable(n, e);
    lemma_properties_printable(n.desc, e, 0);
    let view = super::dynamic::strings_view(v.properties@);
    assert(view.len() == v.properties@.len());
    assert forall|j: int| 0 <= j < v.properties@.len() implies printable_text(#[trigger] v.properties@[j]@) by {
        assert(view[j] == v.properties@[j]@);
        if is_gnu(n) && n.note_type == 5 {
            assert(view[j] == properties_from(n.desc, e, 0)[j]);
        }
    }
}

} // verus!

verus! {

proof fn lemma_section_note_ranges_nonempty(secs: Seq<Section>, i: int)
    requires
        0 <= i < secs.len(),
        secs[i].section_type == 7,
    ensures
        section_note_ranges(secs).len() > 0,
    decreases secs.len(),
{
    if i < secs.len() - 1 {
        lemma_section_note_ranges_nonempty(secs.drop_last(), i);
    }
}

/// Section headers are authoritative for notes: when the file names an
/// `SHT_NOTE` section, the program headers play no part, and the decoded notes
/// are those of the sections alone.
pub proof fn notes_prefer_sections(s: Seq<u8>, e: Endianness, secs: Seq<Section>, segs: Seq<Segment>, v: Seq<ElfNote>)
    requires
        exists|i: int| 0 <= i < secs.len() && #[trigger] secs[i].section_type == 7,
    ensures
        notes_decoded(s, e, secs, segs, v) <==> notes_decoded(s, e, secs, Seq::empty(), v),
        note_ranges(secs, segs) == section_note_ranges(secs),
{
    let i = choose|i: int| 0 <= i < secs.len() && #[trigger] secs[i].section_type == 7;
    lemma_section_note_ranges_nonempty(secs, i);
}

/// What a decoded note holds, its strings taken by their text.
pub open spec fn note_view(v: ElfNote) -> (Seq<char>, u32, Seq<char>, Option<Seq<char>>, Option<Seq<char>>, Seq<Seq<char>>) {
    (
        v.name@,
        v.note_type,
        v.description@,
        super::dynamic::opt_string_view(v.build_id),
        super::dynamic::opt_string_view(v.abi_tag),
        super::dynamic::strings_view(v.properties@),
    )
}

/// What a sequence of decoded notes holds.
pub open spec fn notes_view(v: Seq<ElfNote>) -> Seq<(Seq<char>, u32, Seq<char>, Option<Seq<char>>, Option<Seq<char>>, Seq<Seq<char>>)> {
    v.map_values(|n: ElfNote| note_view(n))
}

/// Decoding notes has one outcome: two results for the same file, sections
/// and segments hold the same notes.
pub proof fn notes_decoded_unique(s: Seq<u8>, e: Endianness, secs: Seq<Section>, segs: Seq<Segment>, v: Seq<ElfNote>, w: Seq<ElfNote>)
    requires
        notes_decoded(s, e, secs, segs, v),
        notes_decoded(s, e, secs, segs, w),
    ensures
        notes_view(v) == notes_view(w),
{
    let all = all_notes(s, e, note_ranges(secs, segs));
    assert forall|k: int| 0 <= k < v.len() implies #[trigger] notes_view(v)[k] == notes_view(w)[k] by {
        assert(note_decoded(all[k], e, v[k]));
        assert(note_decoded(all[k], e, w[k]));
    }
    assert(notes_view(v) =~= notes_view(w));
}

/// When the file names an `SHT_NOTE` section, decoding its notes with the
/// program headers and without them gives the same notes.
pub proof fn notes_ignore_segments_beside_note_sections(
    s: Seq<u8>,
    e: Endianness,
    secs: Seq<Section>,
    segs: Seq<Segment>,
    with_segments: Seq<ElfNote>,
    without_segments: Seq<ElfNote>,
)
    requires
        exists|i: int| 0 <= i < secs.len() && #[trigger] secs[i].section_type == 7,
        notes_decoded(s, e, secs, segs, with_segments),
        notes_decoded(s, e, secs, Seq::empty(), without_segments),
    ensures
        notes_view(with_segments) == notes_view(without_segments),
{
    notes_prefer_sections(s, e, secs, segs, with_segments);
    notes_decoded_unique(s, e, secs, Seq::empty(), with_segments, without_segments);
}

} // verus!

verus! {

/// Notes decode by owner and type as the GNU note ABI defines them: a `GNU`
/// note of type `NT_GNU_BUILD_ID` (3) carries its build ID as lower-case
/// hexadecimal of (at most the first 64 bytes of) its descriptor; one of type
/// `NT_GNU_ABI_TAG` (1) with a descriptor of at least 16 bytes carries an ABI
/// tag; only `NT_GNU_PROPERTY_TYPE_0` (5) notes carry properties; any other
/// note carries none of these. The note type is kept as it is.
pub proof fn notes_follow_gnu_types(n: RawNote, e: Endianness, v: ElfNote)
    requires
        note_decoded(n, e, v),
    ensures
        v.note_type == n.note_type,
        note_name(n) == seq!['G', 'N', 'U'] && n.note_type == 3 ==> (v.build_id matches Some(b) && b@ == hex_bytes(
            if n.desc.len() > 64 { n.desc.take(64) } else { n.desc },
        )),
        !(note_name(n) == seq!['G', 'N', 'U'] && n.note_type == 3) ==> v.build_id is None,
        note_name(n) == seq!['G', 'N', 'U'] && n.note_type == 1 && n.desc.len() >= 16 ==> v.abi_tag is Some,
        !(note_name(n) == seq!['G', 'N', 'U'] && n.note_type == 1 && n.desc.len() >= 16) ==> v.abi_tag is None,
        !(note_name(n) == seq!['G', 'N', 'U'] && n.note_type == 5) ==> v.properties@.len() == 0,
{
    if !(note_name(n) == seq!['G', 'N', 'U'] && n.note_type == 5) {
        assert(super::dynamic::strings_view(v.properties@).len() == 0);
    }
}

} // verus!

verus! {

/// A note is read as the ELF ABI lays it out: `n_namesz`, `n_descsz` and
/// `n_type` as three 4-byte words, then the name, padded to a multiple of 4
/// bytes, then the descriptor, padded likewise; the next note starts after
/// that padding.
pub proof fn note_layout_follows_abi(d: Seq<u8>, e: Endianness, cur: int)
    ensures
        note_at(d, e, cur) matches Some((n, next)) ==> {
            let namesz = u32_at(d, cur, e);
            let descsz = u32_at(d, cur + 4, e);
            let name_end = cur + 12 + namesz;
            let desc_start = cur + 12 + (namesz + 3) / 4 * 4;
            &&& n.note_type == u32_at(d, cur + 8, e) as u32
            &&& n.name == d.subrange(cur + 12, name_end)
            &&& n.desc == d.subrange(desc_start, desc_start + descsz)
            &&& next == desc_start + (descsz + 3) / 4 * 4
        },
{
}

} // verus!

verus! {

/// GNU program properties decode by the ABI's feature bits: for
/// `GNU_PROPERTY_X86_FEATURE_1_AND` (`0xc0000002`) bit 0 is IBT and bit 1 is
/// SHSTK; for `GNU_PROPERTY_AARCH64_FEATURE_1_AND` (`0xc0000000`) bit 0 is BTI
/// and bit 1 is PAC. Each feature is reported exactly when its bit is set.
pub proof fn properties_follow_feature_bits(t: nat, data: Seq<u8>, e: Endianness)
    requires
        data.len() >= 4,
    ensures
        ({
            let bits = u32_at(data, 0, e) as u32;
            let v = property_strings(t, data, e);
            &&& t == 0xc000_0002 ==> (v.contains("x86 IBT (Indirect Branch Tracking)"@) <==> bits % 2 == 1)
            &&& t == 0xc000_0002 ==> (v.contains("x86 SHSTK (Shadow Stack)"@) <==> (bits / 2) % 2 == 1)
            &&& t == 0xc000_0000 ==> (v.contains("ARM BTI (Branch Target Identification)"@) <==> bits % 2 == 1)
            &&& t == 0xc000_0000 ==> (v.contains("ARM PAC (Pointer Authentication)"@) <==> (bits / 2) % 2 == 1)
        }),
{
    reveal_strlit("x86 IBT (Indirect Branch Tracking)");
    reveal_strlit("x86 SHSTK (Shadow Stack)");
    reveal_strlit("ARM BTI (Branch Target Identification)");
    reveal_strlit("ARM PAC (Pointer Authentication)");
    let bits = u32_at(data, 0, e) as u32;
    assert((bits & 1 != 0) == (bits % 2 == 1)) by (bit_vector);
    assert((bits & 2 != 0) == ((bits / 2) % 2 == 1)) by (bit_vector);
    let ibt = "x86 IBT (Indirect Branch Tracking)"@;
    let shstk = "x86 SHSTK (Shadow Stack)"@;
    let bti = "ARM BTI (Branch Target Identification)"@;
    let pac = "ARM PAC (Pointer Authentication)"@;
    assert(ibt != shstk) by { assert(ibt[4] != shstk[4]); }
    assert(bti != pac) by { assert(bti[4] != pac[4]); }
    assert forall|a: Seq<char>, b: Seq<char>| #[trigger] seq![a].contains(b) <==> a == b by {
        if a == b {
            assert(seq![a][0] == b);
        }
    }
    let x = if bits & 1 != 0 { seq![ibt] } else { Seq::empty() };
    let y = if bits & 2 != 0 { seq![shstk] } else { Seq::empty() };
    vstd::seq_lib::lemma_seq_concat_contains_all_elements(x, y, ibt);
    vstd::seq_lib::lemma_seq_concat_contains_all_elements(x, y, shstk);
    let p = if bits & 1 != 0 { seq![bti] } else { Seq::empty() };
    let q = if bits & 2 != 0 { seq![pac] } else { Seq::empty() };
    vstd::seq_lib::lemma_seq_concat_contains_all_elements(p, q, bti);
    vstd::seq_lib::lemma_seq_concat_contains_all_elements(p, q, pac);
}

} // verus!
