//! Cell texts of the tabular views: grouped numbers and the symbolic names
//! and flag letters of section and segment headers.

use vstd::prelude::*;
use crate::fmt::{decimal, decimal_string, pad_left, push_decimal, push_padded_left};
use crate::text::push_char;
use vstd::arithmetic::div_mod::lemma_fundamental_div_mod_converse;

verus! {

/// The decimal rendering of `n` with a comma between groups of three digits.
pub open spec fn grouped(n: nat) -> Seq<char>
    decreases n,
{
    if n < 1000 {
        decimal(n)
    } else {
        grouped(n / 1000) + seq![','] + pad_left(decimal(n % 1000), 3, '0')
    }
}

fn push_grouped(out: &mut String, n: u64)
    ensures
        final(out)@ == old(out)@ + grouped(n as nat),
    decreases n,
{
    if n < 1000 {
        push_decimal(out, n);
    } else {
        push_grouped(out, n / 1000);
        push_char(out, ',');
        let low = decimal_string(n % 1000);
        push_padded_left(out, low.as_str(), 3, '0');
    }
    assert(final(out)@ =~= old(out)@ + grouped(n as nat));
}

/// Formats an integer with thousands separators (`1234567` as `1,234,567`).
pub fn format_number(n: u64) -> (s: String)
    ensures
        s@ == grouped(n as nat),
{
    let mut s = String::new();
    push_grouped(&mut s, n);
    assert(s@ =~= grouped(n as nat));
    s
}

/// The symbolic name of a section type, or `OTHER`.
pub open spec fn section_type_text(stype: u32) -> &'static str {
    if stype == 0 {
        "NULL"
    } else if stype == 1 {
        "PROGBITS"
    } else if stype == 2 {
        "SYMTAB"
    } else if stype == 3 {
        "STRTAB"
    } else if stype == 4 {
        "RELA"
    } else if stype == 5 {
        "HASH"
    } else if stype == 6 {
        "DYNAMIC"
    } else if stype == 7 {
        "NOTE"
    } else if stype == 8 {
        "NOBITS"
    } else if stype == 9 {
        "REL"
    } else if stype == 11 {
        "DYNSYM"
    } else if stype == 14 {
        "INIT_ARRAY"
    } else if stype == 15 {
        "FINI_ARRAY"
    } else if stype == 0x6ffffff6 {
        "GNU_HASH"
    } else if stype == 0x6ffffffe {
        "VERNEED"
    } else if stype == 0x6fffffff {
        "VERSYM"
    } else {
        "OTHER"
    }
}

/// The symbolic name of a section type.
pub fn section_type_name(stype: u32) -> (s: &'static str)
    ensures
        s == section_type_text(stype),
{
    match stype {
        0 => "NULL",
        1 => "PROGBITS",
        2 => "SYMTAB",
        3 => "STRTAB",
        4 => "RELA",
        5 => "HASH",
        6 => "DYNAMIC",
        7 => "NOTE",
        8 => "NOBITS",
        9 => "REL",
        11 => "DYNSYM",
        14 => "INIT_ARRAY",
        15 => "FINI_ARRAY",
        0x6ffffff6 => "GNU_HASH",
        0x6ffffffe => "VERNEED",
        0x6fffffff => "VERSYM",
        _ => "OTHER",
    }
}

/// The letters of the set section flags, in the order `W A X M S T`, or `-`.
pub open spec fn section_flag_letters(flags: u64) -> Seq<char> {
    let s = (if flags & 0x1 != 0 { seq!['W'] } else { Seq::empty() }) + (if flags & 0x2 != 0 {
        seq!['A']
    } else {
        Seq::empty()
    }) + (if flags & 0x4 != 0 { seq!['X'] } else { Seq::empty() }) + (if flags & 0x10 != 0 {
        seq!['M']
    } else {
        Seq::empty()
    }) + (if flags & 0x20 != 0 { seq!['S'] } else { Seq::empty() }) + (if flags & 0x400 != 0 {
        seq!['T']
    } else {
        Seq::empty()
    });
    if s.len() == 0 {
        seq!['-']
    } else {
        s
    }
}

/// The letters of the set section flags (write, alloc, exec, merge, strings, TLS).
pub fn section_flags_str(flags: u64) -> (s: String)
    ensures
        s@ == section_flag_letters(flags),
{
    let mut s = String::new();
    if flags & 0x1 != 0 {
        push_char(&mut s, 'W');
    }
    if flags & 0x2 != 0 {
        push_char(&mut s, 'A');
    }
    if flags & 0x4 != 0 {
        push_char(&mut s, 'X');
    }
    if flags & 0x10 != 0 {
        push_char(&mut s, 'M');
    }
    if flags & 0x20 != 0 {
        push_char(&mut s, 'S');
    }
    if flags & 0x400 != 0 {
        push_char(&mut s, 'T');
    }
    if s.as_str().unicode_len() == 0 {
        push_char(&mut s, '-');
    }
    assert(s@ =~= section_flag_letters(flags));
    s
}

/// The symbolic name of a segment type, or `OTHER`.
pub open spec fn segment_type_text(stype: u32) -> &'static str {
    if stype == 0 {
        "NULL"
    } else if stype == 1 {
        "LOAD"
    } else if stype == 2 {
        "DYNAMIC"
    } else if stype == 3 {
        "INTERP"
    } else if stype == 4 {
        "NOTE"
    } else if stype == 5 {
        "SHLIB"
    } else if stype == 6 {
        "PHDR"
    } else if stype == 7 {
        "TLS"
    } else if stype == 0x6474e550 {
        "GNU_EH_FRAME"
    } else if stype == 0x6474e551 {
        "GNU_STACK"
    } else if stype == 0x6474e552 {
        "GNU_RELRO"
    } else if stype == 0x6474e553 {
        "GNU_PROPERTY"
    } else {
        "OTHER"
    }
}

/// The symbolic name of a segment type.
pub fn segment_type_name(stype: u32) -> (s: &'static str)
    ensures
        s == segment_type_text(stype),
{
    match stype {
        0 => "NULL",
        1 => "LOAD",
        2 => "DYNAMIC",
        3 => "INTERP",
        4 => "NOTE",
        5 => "SHLIB",
        6 => "PHDR",
        7 => "TLS",
        0x6474e550 => "GNU_EH_FRAME",
        0x6474e551 => "GNU_STACK",
        0x6474e552 => "GNU_RELRO",
        0x6474e553 => "GNU_PROPERTY",
        _ => "OTHER",
    }
}

/// `R`, `W` and `X` for the set permissions, each replaced by `-` when clear.
pub open spec fn segment_permission_letters(flags: u32) -> Seq<char> {
    seq![
        if flags & 4 != 0 { 'R' } else { '-' },
        if flags & 2 != 0 { 'W' } else { '-' },
        if flags & 1 != 0 { 'X' } else { '-' },
    ]
}

/// The permissions of a segment as three letters (`R-X`, `RW-`, ...).
pub fn segment_flags_str(flags: u32) -> (s: String)
    ensures
        s@ == segment_permission_letters(flags),
{
    let mut s = String::new();
    push_char(&mut s, if flags & 4 != 0 { 'R' } else { '-' });
    push_char(&mut s, if flags & 2 != 0 { 'W' } else { '-' });
    push_char(&mut s, if flags & 1 != 0 { 'X' } else { '-' });
    assert(s@ =~= segment_permission_letters(flags));
    s
}

} // verus!

verus! {

/// `s` with every comma removed.
pub open spec fn without_commas(s: Seq<char>) -> Seq<char>
    decreases s.len(),
{
    if s.len() == 0 {
        Seq::empty()
    } else {
        without_commas(s.drop_last()) + if s.last() == ',' { Seq::empty() } else { seq![s.last()] }
    }
}

proof fn lemma_without_commas_concat(a: Seq<char>, b: Seq<char>)
    ensures
        without_commas(a + b) == without_commas(a) + without_commas(b),
    decreases b.len(),
{
    if b.len() == 0 {
        assert(a + b =~= a);
        assert(without_commas(a) + without_commas(b) =~= without_commas(a));
    } else {
        lemma_without_commas_concat(a, b.drop_last());
        assert((a + b).drop_last() =~= a + b.drop_last());
        assert((a + b).last() == b.last());
        assert(without_commas(a + b) =~= without_commas(a) + without_commas(b));
    }
}

proof fn lemma_no_commas(s: Seq<char>)
    requires
        forall|i: int| 0 <= i < s.len() ==> #[trigger] s[i] != ',',
    ensures
        without_commas(s) == s,
    decreases s.len(),
{
    if s.len() > 0 {
        lemma_no_commas(s.drop_last());
        assert(without_commas(s) =~= s);
    }
}

proof fn lemma_decimal_digits(n: nat)
    ensures
        forall|i: int| 0 <= i < decimal(n).len() ==> #[trigger] decimal(n)[i] != ',',
        decimal(n).len() >= 1,
    decreases n,
{
    if n >= 10 {
        lemma_decimal_digits(n / 10);
    }
}

proof fn lemma_pad_three(m: nat)
    requires
        m < 1000,
    ensures
        pad_left(decimal(m), 3, '0') == seq![
            crate::fmt::decimal_digit((m / 100) as int),
            crate::fmt::decimal_digit(((m / 10) % 10) as int),
            crate::fmt::decimal_digit((m % 10) as int),
        ],
{
    let tail = seq![
        crate::fmt::decimal_digit((m / 100) as int),
        crate::fmt::decimal_digit(((m / 10) % 10) as int),
        crate::fmt::decimal_digit((m % 10) as int),
    ];
    if m < 10 {
        assert(crate::fmt::repeat('0', 2) =~= seq!['0', '0']) by {
            reveal_with_fuel(crate::fmt::repeat, 3);
        }
        assert(pad_left(decimal(m), 3, '0') =~= tail);
    } else if m < 100 {
        assert(decimal(m / 10) == seq![crate::fmt::decimal_digit((m / 10) as int)]);
        assert(crate::fmt::repeat('0', 1) =~= seq!['0']) by {
            reveal_with_fuel(crate::fmt::repeat, 2);
        }
        assert(pad_left(decimal(m), 3, '0') =~= tail);
    } else {
        assert((m / 10) / 10 == m / 100);
        assert(decimal(m / 100) == seq![crate::fmt::decimal_digit((m / 100) as int)]);
        assert(decimal(m / 10) =~= seq![
            crate::fmt::decimal_digit((m / 100) as int),
            crate::fmt::decimal_digit(((m / 10) % 10) as int),
        ]);
        assert(pad_left(decimal(m), 3, '0') =~= tail);
    }
}

proof fn lemma_last_three_digits(n: nat)
    requires
        n >= 1000,
    ensures
        decimal(n) == decimal(n / 1000) + seq![
            crate::fmt::decimal_digit(((n / 100) % 10) as int),
            crate::fmt::decimal_digit(((n / 10) % 10) as int),
            crate::fmt::decimal_digit((n % 10) as int),
        ],
{
    assert((n / 10) / 10 == n / 100);
    assert((n / 100) / 10 == n / 1000);
    assert(decimal(n / 100) == decimal(n / 1000).push(crate::fmt::decimal_digit(((n / 100) % 10) as int)));
    assert(decimal(n / 10) == decimal(n / 100).push(crate::fmt::decimal_digit(((n / 10) % 10) as int)));
    assert(decimal(n) =~= decimal(n / 1000) + seq![
        crate::fmt::decimal_digit(((n / 100) % 10) as int),
        crate::fmt::decimal_digit(((n / 10) % 10) as int),
        crate::fmt::decimal_digit((n % 10) as int),
    ]);
}

proof fn lemma_digit_positions(n: nat)
    ensures
        (n % 1000) / 100 == (n / 100) % 10,
        ((n % 1000) / 10) % 10 == (n / 10) % 10,
        (n % 1000) % 10 == n % 10,
{
    let q = n / 1000;
    let m = n % 1000;
    lemma_fundamental_div_mod_converse(n as int, 1000, q as int, m as int);
    let a = m / 100;
    let r = m % 100;
    lemma_fundamental_div_mod_converse(m as int, 100, a as int, r as int);
    let b = r / 10;
    let c = r % 10;
    lemma_fundamental_div_mod_converse(r as int, 10, b as int, c as int);
    lemma_fundamental_div_mod_converse(m as int, 10, (10 * a + b) as int, c as int);
    lemma_fundamental_div_mod_converse((m / 10) as int, 10, a as int, b as int);
    lemma_fundamental_div_mod_converse(m as int, 10, (m / 10) as int, c as int);
    lemma_fundamental_div_mod_converse(n as int, 10, (100 * q + 10 * a + b) as int, c as int);
    lemma_fundamental_div_mod_converse((n / 10) as int, 10, (10 * q + a) as int, b as int);
    lemma_fundamental_div_mod_converse(n as int, 100, (10 * q + a) as int, (10 * b + c) as int);
    lemma_fundamental_div_mod_converse((n / 100) as int, 10, q as int, a as int);
}

proof fn lemma_decimal_groups(n: nat)
    requires
        n >= 1000,
    ensures
        decimal(n) == decimal(n / 1000) + pad_left(decimal(n % 1000), 3, '0'),
{
    lemma_last_three_digits(n);
    lemma_pad_three(n % 1000);
    lemma_digit_positions(n);
}

/// Grouping only inserts separators: removing the commas from a grouped
/// number gives back its plain decimal rendering.
pub proof fn grouping_keeps_digits(n: nat)
    ensures
        without_commas(grouped(n)) == decimal(n),
    decreases n,
{
    lemma_decimal_digits(n);
    if n < 1000 {
        lemma_no_commas(decimal(n));
    } else {
        grouping_keeps_digits(n / 1000);
        let low = pad_left(decimal(n % 1000), 3, '0');
        lemma_decimal_digits(n % 1000);
        assert forall|i: int| 0 <= i < low.len() implies #[trigger] low[i] != ',' by {
            let dm = decimal(n % 1000);
            if dm.len() < 3 {
                let pad = crate::fmt::repeat('0', (3 - dm.len()) as nat);
                lemma_repeat_chars('0', (3 - dm.len()) as nat);
                if i < pad.len() {
                    assert(low[i] == pad[i]);
                } else {
                    assert(low[i] == dm[i - pad.len()]);
                }
            }
        }
        lemma_no_commas(low);
        lemma_without_commas_concat(grouped(n / 1000), seq![',']);
        lemma_without_commas_concat(grouped(n / 1000) + seq![','], low);
        assert(without_commas(seq![',']) =~= Seq::<char>::empty()) by {
            let comma = seq![','];
            assert(comma.drop_last() =~= Seq::<char>::empty());
            assert(comma.last() == ',');
            assert(without_commas(comma.drop_last()) == Seq::<char>::empty());
        }
        lemma_decimal_groups(n);
        assert(without_commas(grouped(n)) =~= decimal(n));
    }
}

proof fn lemma_repeat_chars(c: char, k: nat)
    ensures
        crate::fmt::repeat(c, k).len() == k,
        forall|i: int| 0 <= i < k ==> #[trigger] crate::fmt::repeat(c, k)[i] == c,
    decreases k,
{
    if k > 0 {
        lemma_repeat_chars(c, (k - 1) as nat);
    }
}

} // verus!

verus! {

/// The unit a byte count is shown in.
#[derive(Debug, Clone, Copy, PartialEq, Eq, Structural)]
pub enum SizeUnit {
    /// Plain bytes, below 1 KiB.
    Bytes,
    /// Kibibytes, from 1 KiB.
    KiB,
    /// Mebibytes, from 1 MiB.
    MiB,
    /// Gibibytes, from 1 GiB.
    GiB,
}

/// The largest binary unit that a byte count reaches.
pub open spec fn unit_of(bytes: u64) -> SizeUnit {
    if bytes >= 0x4000_0000 {
        SizeUnit::GiB
    } else if bytes >= 0x10_0000 {
        SizeUnit::MiB
    } else if bytes >= 0x400 {
        SizeUnit::KiB
    } else {
        SizeUnit::Bytes
    }
}

/// Chooses the unit a size is shown in: the largest of KiB, MiB and GiB that
/// it reaches, or plain bytes below 1 KiB.
pub fn size_unit(bytes: u64) -> (u: SizeUnit)
    ensures
        u == unit_of(bytes),
{
    if bytes >= 0x4000_0000 {
        SizeUnit::GiB
    } else if bytes >= 0x10_0000 {
        SizeUnit::MiB
    } else if bytes >= 0x400 {
        SizeUnit::KiB
    } else {
        SizeUnit::Bytes
    }
}

impl SizeUnit {
    /// The number of bytes in one unit.
    pub fn bytes(&self) -> (n: u64)
        ensures
            n == match *self {
                SizeUnit::Bytes => 1u64,
                SizeUnit::KiB => 0x400u64,
                SizeUnit::MiB => 0x10_0000u64,
                SizeUnit::GiB => 0x4000_0000u64,
            },
    {
        match self {
            SizeUnit::Bytes => 1,
            SizeUnit::KiB => 0x400,
            SizeUnit::MiB => 0x10_0000,
            SizeUnit::GiB => 0x4000_0000,
        }
    }

    /// The unit's symbol.
    pub fn symbol(&self) -> (s: &'static str)
        ensures
            s == match *self {
                SizeUnit::Bytes => "B",
                SizeUnit::KiB => "KiB",
                SizeUnit::MiB => "MiB",
                SizeUnit::GiB => "GiB",
            },
    {
        match self {
            SizeUnit::Bytes => "B",
            SizeUnit::KiB => "KiB",
            SizeUnit::MiB => "MiB",
            SizeUnit::GiB => "GiB",
        }
    }
}

} // verus!

verus! {

/// Section types are named by the ELF ABI: `SHT_PROGBITS` 1 is `PROGBITS`,
/// `SHT_SYMTAB` 2 `SYMTAB`, `SHT_DYNSYM` 11 `DYNSYM`, `SHT_GNU_HASH`
/// `0x6ffffff6` `GNU_HASH`, and so on; any other type is `OTHER`.
pub proof fn section_type_names_follow_abi(stype: u32)
    ensures
        stype == 0 ==> section_type_text(stype)@ == "NULL"@,
        stype == 1 ==> section_type_text(stype)@ == "PROGBITS"@,
        stype == 2 ==> section_type_text(stype)@ == "SYMTAB"@,
        stype == 3 ==> section_type_text(stype)@ == "STRTAB"@,
        stype == 4 ==> section_type_text(stype)@ == "RELA"@,
        stype == 5 ==> section_type_text(stype)@ == "HASH"@,
        stype == 6 ==> section_type_text(stype)@ == "DYNAMIC"@,
        stype == 7 ==> section_type_text(stype)@ == "NOTE"@,
        stype == 8 ==> section_type_text(stype)@ == "NOBITS"@,
        stype == 9 ==> section_type_text(stype)@ == "REL"@,
        stype == 11 ==> section_type_text(stype)@ == "DYNSYM"@,
        stype == 14 ==> section_type_text(stype)@ == "INIT_ARRAY"@,
        stype == 15 ==> section_type_text(stype)@ == "FINI_ARRAY"@,
        stype == 0x6ffffff6 ==> section_type_text(stype)@ == "GNU_HASH"@,
        stype == 0x6ffffffe ==> section_type_text(stype)@ == "VERNEED"@,
        stype == 0x6fffffff ==> section_type_text(stype)@ == "VERSYM"@,
        stype != 0 && stype != 1 && stype != 2 && stype != 3 && stype != 4 && stype != 5 && stype != 6 && stype != 7 && stype != 8 && stype != 9 && stype != 11 && stype != 14 && stype != 15 && stype != 0x6ffffff6 && stype != 0x6ffffffe && stype != 0x6fffffff ==> section_type_text(stype)@ == "OTHER"@,
{
}

/// Segment types are named by the ELF ABI: `PT_LOAD` 1 is `LOAD`,
/// `PT_INTERP` 3 `INTERP`, `PT_GNU_STACK` `0x6474e551` `GNU_STACK`,
/// `PT_GNU_RELRO` `0x6474e552` `GNU_RELRO`, and so on; any other type is `OTHER`.
pub proof fn segment_type_names_follow_abi(stype: u32)
    ensures
        stype == 0 ==> segment_type_text(stype)@ == "NULL"@,
        stype == 1 ==> segment_type_text(stype)@ == "LOAD"@,
        stype == 2 ==> segment_type_text(stype)@ == "DYNAMIC"@,
        stype == 3 ==> segment_type_text(stype)@ == "INTERP"@,
        stype == 4 ==> segment_type_text(stype)@ == "NOTE"@,
        stype == 5 ==> segment_type_text(stype)@ == "SHLIB"@,
        stype == 6 ==> segment_type_text(stype)@ == "PHDR"@,
        stype == 7 ==> segment_type_text(stype)@ == "TLS"@,
        stype == 0x6474e550 ==> segment_type_text(stype)@ == "GNU_EH_FRAME"@,
        stype == 0x6474e551 ==> segment_type_text(stype)@ == "GNU_STACK"@,
        stype == 0x6474e552 ==> segment_type_text(stype)@ == "GNU_RELRO"@,
        stype == 0x6474e553 ==> segment_type_text(stype)@ == "GNU_PROPERTY"@,
        stype != 0 && stype != 1 && stype != 2 && stype != 3 && stype != 4 && stype != 5 && stype != 6 && stype != 7 && stype != 0x6474e550 && stype != 0x6474e551 && stype != 0x6474e552 && stype != 0x6474e553 ==> segment_type_text(stype)@ == "OTHER"@,
{
}

/// Segment permissions read `PF_R` (4), `PF_W` (2) and `PF_X` (1): the
/// letters are `R`, `W`, `X` in that order, each `-` when its bit is clear.
pub proof fn segment_permissions_follow_flags(flags: u32)
    ensures
        segment_permission_letters(flags).len() == 3,
        segment_permission_letters(flags)[0] == (if (flags / 4) % 2 == 1 { 'R' } else { '-' }),
        segment_permission_letters(flags)[1] == (if (flags / 2) % 2 == 1 { 'W' } else { '-' }),
        segment_permission_letters(flags)[2] == (if flags % 2 == 1 { 'X' } else { '-' }),
{
    assert((flags & 4 != 0) == ((flags / 4) % 2 == 1)) by (bit_vector);
    assert((flags & 2 != 0) == ((flags / 2) % 2 == 1)) by (bit_vector);
    assert((flags & 1 != 0) == (flags % 2 == 1)) by (bit_vector);
}

/// Section flags read `SHF_WRITE` (1) as `W`, `SHF_ALLOC` (2) as `A`,
/// `SHF_EXECINSTR` (4) as `X`, `SHF_MERGE` (0x10) as `M`, `SHF_STRINGS`
/// (0x20) as `S` and `SHF_TLS` (0x400) as `T`: each letter appears exactly
/// when its bit is set, and `-` alone when none is.
pub proof fn section_flags_follow_abi(flags: u64)
    ensures
        section_flag_letters(flags).contains('W') <==> flags % 2 == 1,
        section_flag_letters(flags).contains('A') <==> (flags / 2) % 2 == 1,
        section_flag_letters(flags).contains('X') <==> (flags / 4) % 2 == 1,
        section_flag_letters(flags).contains('M') <==> (flags / 0x10) % 2 == 1,
        section_flag_letters(flags).contains('S') <==> (flags / 0x20) % 2 == 1,
        section_flag_letters(flags).contains('T') <==> (flags / 0x400) % 2 == 1,
        section_flag_letters(flags) == seq!['-'] <==> (flags % 8 == 0 && (flags / 0x10) % 4 == 0 && (flags / 0x400) % 2 == 0),
{
    assert((flags & 0x1 != 0) == (flags % 2 == 1)) by (bit_vector);
    assert((flags & 0x2 != 0) == ((flags / 2) % 2 == 1)) by (bit_vector);
    assert((flags & 0x4 != 0) == ((flags / 4) % 2 == 1)) by (bit_vector);
    assert((flags & 0x10 != 0) == ((flags / 0x10) % 2 == 1)) by (bit_vector);
    assert((flags & 0x20 != 0) == ((flags / 0x20) % 2 == 1)) by (bit_vector);
    assert((flags & 0x400 != 0) == ((flags / 0x400) % 2 == 1)) by (bit_vector);
    assert((flags & 0x1 == 0 && flags & 0x2 == 0 && flags & 0x4 == 0 && flags & 0x10 == 0 && flags & 0x20 == 0 && flags & 0x400 == 0)
        == (flags % 8 == 0 && (flags / 0x10) % 4 == 0 && (flags / 0x400) % 2 == 0)) by (bit_vector);
    let w = if flags & 0x1 != 0 { seq!['W'] } else { Seq::empty() };
    let a = if flags & 0x2 != 0 { seq!['A'] } else { Seq::empty() };
    let x = if flags & 0x4 != 0 { seq!['X'] } else { Seq::empty() };
    let m = if flags & 0x10 != 0 { seq!['M'] } else { Seq::empty() };
    let st = if flags & 0x20 != 0 { seq!['S'] } else { Seq::empty() };
    let t = if flags & 0x400 != 0 { seq!['T'] } else { Seq::empty() };
    let all = w + a + x + m + st + t;
    assert forall|ch: char| all.contains(ch) <==> (w.contains(ch) || a.contains(ch) || x.contains(ch) || m.contains(ch) || st.contains(ch)
        || t.contains(ch)) by {
        vstd::seq_lib::lemma_seq_concat_contains_all_elements(w, a, ch);
        vstd::seq_lib::lemma_seq_concat_contains_all_elements(w + a, x, ch);
        vstd::seq_lib::lemma_seq_concat_contains_all_elements(w + a + x, m, ch);
        vstd::seq_lib::lemma_seq_concat_contains_all_elements(w + a + x + m, st, ch);
        vstd::seq_lib::lemma_seq_concat_contains_all_elements(w + a + x + m + st, t, ch);
    }
    assert forall|c: char, d: char| #[trigger] seq![c].contains(d) <==> c == d by {
        if c == d {
            assert(seq![c][0] == d);
        }
    }
    assert(section_flag_letters(flags) == if all.len() == 0 { seq!['-'] } else { all });
    if all.len() != 0 {
        assert(all.contains(all[0]));
        assert(all != seq!['-']) by {
            if all == seq!['-'] {
                assert(all.contains('-'));
            }
        }
    } else {
        assert(!w.contains('W') && !a.contains('A') && !x.contains('X') && !m.contains('M') && !st.contains('S') && !t.contains('T'));
    }
}

} // verus!
