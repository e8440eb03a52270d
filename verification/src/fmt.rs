//! Verified rendering of integers and column padding for human-readable text.

use vstd::prelude::*;
use crate::text::{group_text_safety, is_printable_ascii, printable_text, push_char};

verus! {

/// The decimal digit for a value below ten.
pub open spec fn decimal_digit(n: int) -> char {
    (n + 0x30) as char
}

/// The lower-case hexadecimal digit for a value below sixteen.
pub open spec fn lower_hex_digit(n: int) -> char {
    if n < 10 {
        (n + 0x30) as char
    } else {
        (n - 10 + 0x61) as char
    }
}

/// The shortest decimal rendering of `n`.
pub open spec fn decimal(n: nat) -> Seq<char>
    decreases n,
{
    if n < 10 {
        seq![decimal_digit(n as int)]
    } else {
        decimal(n / 10).push(decimal_digit((n % 10) as int))
    }
}

/// The shortest lower-case hexadecimal rendering of `n`, without prefix.
pub open spec fn hex(n: nat) -> Seq<char>
    decreases n,
{
    if n < 16 {
        seq![lower_hex_digit(n as int)]
    } else {
        hex(n / 16).push(lower_hex_digit((n % 16) as int))
    }
}

/// Lower-case hexadecimal of a byte string, two digits per byte.
pub open spec fn hex_bytes(b: Seq<u8>) -> Seq<char>
    decreases b.len(),
{
    if b.len() == 0 {
        Seq::empty()
    } else {
        hex_bytes(b.drop_last()) + seq![lower_hex_digit(b.last() as int / 16), lower_hex_digit(b.last() as int % 16)]
    }
}

/// `n` characters `c`.
pub open spec fn repeat(c: char, n: nat) -> Seq<char>
    decreases n,
{
    if n == 0 {
        Seq::empty()
    } else {
        repeat(c, (n - 1) as nat).push(c)
    }
}

/// `s` left-aligned in a field of `width` characters (Rust's `{:<width}`).
pub open spec fn pad_right(s: Seq<char>, width: nat) -> Seq<char> {
    if s.len() >= width {
        s
    } else {
        s + repeat(' ', (width - s.len()) as nat)
    }
}

/// `s` right-aligned in a field of `width` characters (Rust's `{:>width}`).
pub open spec fn pad_left(s: Seq<char>, width: nat, fill: char) -> Seq<char> {
    if s.len() >= width {
        s
    } else {
        repeat(fill, (width - s.len()) as nat) + s
    }
}

/// Rust's `{:#x}`: `0x` and the hexadecimal digits.
pub open spec fn prefixed_hex(n: nat) -> Seq<char> {
    seq!['0', 'x'] + hex(n)
}

/// Rust's `{:#0wx}`: `0x`, then the digits zero-padded so that the whole is `width` wide.
pub open spec fn prefixed_hex_width(n: nat, width: nat) -> Seq<char> {
    seq!['0', 'x'] + pad_left(hex(n), if width >= 2 { (width - 2) as nat } else { 0 }, '0')
}

fn digit_char(n: u64) -> (c: char)
    requires
        n < 16,
    ensures
        c == lower_hex_digit(n as int),
        n < 10 ==> c == decimal_digit(n as int),
{
    if n < 10 {
        (n as u8 + 0x30) as char
    } else {
        (n as u8 - 10 + 0x61) as char
    }
}

/// Appends the decimal rendering of `n`.
pub fn push_decimal(out: &mut String, n: u64)
    ensures
        final(out)@ == old(out)@ + decimal(n as nat),
    decreases n,
{
    if n >= 10 {
        push_decimal(out, n / 10);
    }
    push_char(out, digit_char(n % 10));
    assert(final(out)@ =~= old(out)@ + decimal(n as nat));
}

/// Appends the lower-case hexadecimal rendering of `n`, without prefix.
pub fn push_hex(out: &mut String, n: u64)
    ensures
        final(out)@ == old(out)@ + hex(n as nat),
    decreases n,
{
    if n >= 16 {
        push_hex(out, n / 16);
    }
    push_char(out, digit_char(n % 16));
    assert(final(out)@ =~= old(out)@ + hex(n as nat));
}

/// Appends the lower-case hexadecimal rendering of a byte string, two digits per byte.
pub fn push_hex_bytes(out: &mut String, b: &[u8])
    ensures
        final(out)@ == old(out)@ + hex_bytes(b@),
{
    let mut i: usize = 0;
    while i < b.len()
        invariant
            i <= b@.len(),
            out@ == old(out)@ + hex_bytes(b@.take(i as int)),
        decreases b@.len() - i,
    {
        assert(b@.take(i + 1).drop_last() =~= b@.take(i as int));
        let byte = b[i];
        push_hex(out, (byte / 16) as u64);
        push_hex(out, (byte % 16) as u64);
        assert(out@ =~= old(out)@ + hex_bytes(b@.take(i + 1)));
        i = i + 1;
    }
    assert(b@.take(b@.len() as int) =~= b@);
}

/// Appends `count` copies of `c`.
pub fn push_repeat(out: &mut String, c: char, count: usize)
    ensures
        final(out)@ == old(out)@ + repeat(c, count as nat),
{
    let mut i: usize = 0;
    while i < count
        invariant
            i <= count,
            out@ == old(out)@ + repeat(c, i as nat),
        decreases count - i,
    {
        push_char(out, c);
        i = i + 1;
        assert(out@ =~= old(out)@ + repeat(c, i as nat));
    }
}

/// Appends `s`.
pub fn push_str(out: &mut String, s: &str)
    ensures
        final(out)@ == old(out)@ + s@,
{
    out.append(s);
}

/// The decimal rendering of `n` as a string.
pub fn decimal_string(n: u64) -> (s: String)
    ensures
        s@ == decimal(n as nat),
{
    let mut s = String::new();
    push_decimal(&mut s, n);
    assert(s@ =~= decimal(n as nat));
    s
}

/// The `0x`-prefixed lower-case hexadecimal rendering of `n`.
pub fn prefixed_hex_string(n: u64) -> (s: String)
    ensures
        s@ == prefixed_hex(n as nat),
{
    let mut s = String::new();
    push_char(&mut s, '0');
    push_char(&mut s, 'x');
    push_hex(&mut s, n);
    assert(s@ =~= prefixed_hex(n as nat));
    s
}

/// Appends Rust's `{:#x}` rendering of `n`.
pub fn push_prefixed_hex(out: &mut String, n: u64)
    ensures
        final(out)@ == old(out)@ + prefixed_hex(n as nat),
{
    push_char(out, '0');
    push_char(out, 'x');
    push_hex(out, n);
    assert(final(out)@ =~= old(out)@ + prefixed_hex(n as nat));
}

/// Appends `s` left-aligned in a field of `width` characters.
pub fn push_padded_right(out: &mut String, s: &str, width: usize)
    ensures
        final(out)@ == old(out)@ + pad_right(s@, width as nat),
{
    let len = s.unicode_len();
    out.append(s);
    if len < width {
        push_repeat(out, ' ', width - len);
    }
    assert(final(out)@ =~= old(out)@ + pad_right(s@, width as nat));
}

/// Appends `s` right-aligned in a field of `width` characters filled with `fill`.
pub fn push_padded_left(out: &mut String, s: &str, width: usize, fill: char)
    ensures
        final(out)@ == old(out)@ + pad_left(s@, width as nat, fill),
{
    let len = s.unicode_len();
    if len < width {
        push_repeat(out, fill, width - len);
    }
    out.append(s);
    assert(final(out)@ =~= old(out)@ + pad_left(s@, width as nat, fill));
}

/// Appends Rust's `{:#0wx}` rendering of `n`: `0x` and zero-padded digits, `width` wide in all.
pub fn push_prefixed_hex_width(out: &mut String, n: u64, width: usize)
    ensures
        final(out)@ == old(out)@ + prefixed_hex_width(n as nat, width as nat),
{
    let mut digits = String::new();
    push_hex(&mut digits, n);
    push_char(out, '0');
    push_char(out, 'x');
    let inner = if width >= 2 { width - 2 } else { 0 };
    push_padded_left(out, digits.as_str(), inner, '0');
    assert(final(out)@ =~= old(out)@ + prefixed_hex_width(n as nat, width as nat));
}

} // verus!

verus! {

/// Two hexadecimal digits per byte.
pub proof fn lemma_hex_bytes_len(b: Seq<u8>)
    ensures
        hex_bytes(b).len() == 2 * b.len(),
    decreases b.len(),
{
    if b.len() > 0 {
        lemma_hex_bytes_len(b.drop_last());
    }
}

} // verus!

verus! {

/// Decimal renderings are printable.
pub proof fn decimal_printable(n: nat)
    ensures
        printable_text(decimal(n)),
    decreases n,
{
    broadcast use group_text_safety;

    if n >= 10 {
        decimal_printable(n / 10);
        assert(decimal(n) =~= decimal(n / 10) + seq![decimal_digit((n % 10) as int)]);
    }
}

/// Hexadecimal renderings are printable.
pub proof fn hex_printable(n: nat)
    ensures
        printable_text(hex(n)),
    decreases n,
{
    broadcast use group_text_safety;

    if n >= 16 {
        hex_printable(n / 16);
        assert(hex(n) =~= hex(n / 16) + seq![lower_hex_digit((n % 16) as int)]);
    }
}

/// Hexadecimal renderings of byte strings are printable.
pub proof fn hex_bytes_printable(b: Seq<u8>)
    ensures
        printable_text(hex_bytes(b)),
    decreases b.len(),
{
    broadcast use group_text_safety;

    if b.len() > 0 {
        hex_bytes_printable(b.drop_last());
    }
}

/// Runs of a printable character are printable.
pub proof fn repeat_printable(c: char, n: nat)
    requires
        is_printable_ascii(c),
    ensures
        printable_text(repeat(c, n)),
    decreases n,
{
    broadcast use group_text_safety;

    if n > 0 {
        repeat_printable(c, (n - 1) as nat);
        assert(repeat(c, n) =~= repeat(c, (n - 1) as nat) + seq![c]);
    }
}

/// Padding printable text with spaces keeps it printable.
pub proof fn pad_right_printable(s: Seq<char>, width: nat)
    requires
        printable_text(s),
    ensures
        printable_text(pad_right(s, width)),
{
    broadcast use group_text_safety;

    if s.len() < width {
        repeat_printable(' ', (width - s.len()) as nat);
    }
}

/// Padding printable text with a printable fill keeps it printable.
pub proof fn pad_left_printable(s: Seq<char>, width: nat, fill: char)
    requires
        printable_text(s),
        is_printable_ascii(fill),
    ensures
        printable_text(pad_left(s, width, fill)),
{
    broadcast use group_text_safety;

    if s.len() < width {
        repeat_printable(fill, (width - s.len()) as nat);
    }
}

/// `0x`-prefixed hexadecimal renderings are printable.
pub proof fn prefixed_hex_printable(n: nat, width: nat)
    ensures
        printable_text(prefixed_hex(n)),
        printable_text(prefixed_hex_width(n, width)),
{
    broadcast use group_text_safety;

    hex_printable(n);
    pad_left_printable(hex(n), if width >= 2 { (width - 2) as nat } else { 0 }, '0');
    assert(printable_text(seq!['0', 'x']));
}

} // verus!

verus! {

/// Hexadecimal of a byte string writes each byte as two lower-case digits,
/// high digit first, in byte order.
pub proof fn hex_bytes_follow_format(b: Seq<u8>)
    ensures
        hex_bytes(b).len() == 2 * b.len(),
        forall|i: int|
            0 <= i < b.len() ==> hex_bytes(b)[2 * i] == "0123456789abcdef"@[#[trigger] b[i] as int / 16] && hex_bytes(b)[2 * i
                + 1] == "0123456789abcdef"@[b[i] as int % 16],
    decreases b.len(),
{
    reveal_strlit("0123456789abcdef");
    if b.len() > 0 {
        let p = b.drop_last();
        hex_bytes_follow_format(p);
        assert forall|i: int| 0 <= i < b.len() implies hex_bytes(b)[2 * i] == "0123456789abcdef"@[#[trigger] b[i] as int / 16]
            && hex_bytes(b)[2 * i + 1] == "0123456789abcdef"@[b[i] as int % 16] by {
            if i < p.len() {
                assert(b[i] == p[i]);
            }
        }
    }
}

} // verus!
