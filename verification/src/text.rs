//! Terminal-safe rendering of strings supplied by inspected binaries.

use vstd::prelude::*;

verus! {

/// A byte that is rendered as itself: printable ASCII other than the backslash.
pub open spec fn is_plain_byte(b: u8) -> bool {
    0x20 <= b && b <= 0x7e && b != 0x5c
}

/// The upper-case hexadecimal digit for a value below sixteen.
pub open spec fn upper_hex_digit(n: int) -> char {
    if n < 10 {
        (n + 0x30) as char
    } else {
        (n - 10 + 0x41) as char
    }
}

/// How one byte is rendered: itself when plain, otherwise `\xNN` in upper-case hex.
pub open spec fn escape_byte(b: u8) -> Seq<char> {
    if is_plain_byte(b) {
        seq![b as char]
    } else {
        seq!['\\', 'x', upper_hex_digit(b as int / 16), upper_hex_digit(b as int % 16)]
    }
}

/// The rendering of a whole byte string, byte by byte.
pub open spec fn escaped(bytes: Seq<u8>) -> Seq<char>
    decreases bytes.len(),
{
    if bytes.len() == 0 {
        Seq::empty()
    } else {
        escaped(bytes.drop_last()) + escape_byte(bytes.last())
    }
}

/// Appends one character to a string (`String::push`).
#[verifier::external_body]
pub(crate) fn push_char(s: &mut String, c: char)
    ensures
        final(s)@ == old(s)@.push(c),
{
    s.push(c);
}

fn upper_hex(n: u8) -> (c: char)
    requires
        n < 16,
    ensures
        c == upper_hex_digit(n as int),
{
    if n < 10 {
        (n + 0x30) as char
    } else {
        (n - 10 + 0x41) as char
    }
}

/// Escapes every non-printable or non-ASCII byte using a stable `\xNN` form.
pub fn escape_bytes(bytes: &[u8]) -> (out: String)
    ensures
        out@ == escaped(bytes@),
{
    let mut output = String::new();
    let mut i: usize = 0;
    while i < bytes.len()
        invariant
            i <= bytes.len(),
            output@ == escaped(bytes@.take(i as int)),
        decreases bytes.len() - i,
    {
        let byte = bytes[i];
        assert(bytes@.take(i + 1).drop_last() =~= bytes@.take(i as int));
        if 0x20 <= byte && byte <= 0x7e && byte != 0x5c {
            push_char(&mut output, byte as char);
        } else {
            push_char(&mut output, '\\');
            push_char(&mut output, 'x');
            push_char(&mut output, upper_hex(byte / 16));
            push_char(&mut output, upper_hex(byte % 16));
        }
        assert(output@ =~= escaped(bytes@.take(i + 1)));
        i = i + 1;
    }
    assert(bytes@.take(bytes.len() as int) =~= bytes@);
    output
}

} // verus!

verus! {

/// A character that a terminal shows as itself: printable ASCII.
pub open spec fn is_printable_ascii(c: char) -> bool {
    0x20 <= c as int && c as int <= 0x7e
}

proof fn lemma_escape_byte_printable(b: u8)
    ensures
        forall|i: int| 0 <= i < escape_byte(b).len() ==> is_printable_ascii(#[trigger] escape_byte(b)[i]),
        1 <= escape_byte(b).len() <= 4,
{
}

/// Escaped text is terminal-safe: every character is printable ASCII, so no
/// byte of an inspected file can reach a terminal as a control sequence.
pub proof fn escaped_is_printable(bytes: Seq<u8>)
    ensures
        forall|i: int| 0 <= i < escaped(bytes).len() ==> is_printable_ascii(#[trigger] escaped(bytes)[i]),
    decreases bytes.len(),
{
    if bytes.len() > 0 {
        escaped_is_printable(bytes.drop_last());
        lemma_escape_byte_printable(bytes.last());
        let p = escaped(bytes.drop_last());
        let q = escape_byte(bytes.last());
        assert forall|i: int| 0 <= i < escaped(bytes).len() implies is_printable_ascii(#[trigger] escaped(bytes)[i]) by {
            if i < p.len() {
                assert(escaped(bytes)[i] == p[i]);
            } else {
                assert(escaped(bytes)[i] == q[i - p.len()]);
            }
        }
    }
}

/// Escaping renders each byte independently: the rendering of two byte
/// strings joined is the two renderings joined.
pub proof fn escaped_of_concat(a: Seq<u8>, b: Seq<u8>)
    ensures
        escaped(a + b) == escaped(a) + escaped(b),
    decreases b.len(),
{
    if b.len() == 0 {
        assert(a + b =~= a);
        assert(escaped(a) + escaped(b) =~= escaped(a));
    } else {
        escaped_of_concat(a, b.drop_last());
        assert((a + b).drop_last() =~= a + b.drop_last());
        assert((a + b).last() == b.last());
        assert(escaped(a + b) =~= escaped(a) + escaped(b));
    }
}

pub(crate) proof fn lemma_escaped_len(bytes: Seq<u8>)
    ensures
        bytes.len() <= escaped(bytes).len() <= 4 * bytes.len(),
    decreases bytes.len(),
{
    if bytes.len() > 0 {
        lemma_escaped_len(bytes.drop_last());
    }
}

proof fn lemma_escaped_front(bytes: Seq<u8>)
    requires
        bytes.len() > 0,
    ensures
        escaped(bytes) == escape_byte(bytes[0]) + escaped(bytes.drop_first()),
{
    assert(bytes =~= seq![bytes[0]] + bytes.drop_first());
    escaped_of_concat(seq![bytes[0]], bytes.drop_first());
    let one = seq![bytes[0]];
    assert(one.drop_last() =~= Seq::<u8>::empty());
    assert(one.last() == bytes[0]);
    assert(escaped(one.drop_last()) == Seq::<char>::empty());
    assert(escaped(one) =~= escape_byte(bytes[0]));
}

/// Escaping loses nothing: different byte strings never render alike, so the
/// original bytes can always be recovered from the text.
pub proof fn escaped_is_lossless(a: Seq<u8>, b: Seq<u8>)
    requires
        escaped(a) == escaped(b),
    ensures
        a == b,
    decreases a.len(),
{
    lemma_escaped_len(a);
    lemma_escaped_len(b);
    if a.len() == 0 {
        assert(b.len() == 0);
        assert(a =~= b);
    } else {
        assert(b.len() > 0);
        lemma_escaped_front(a);
        lemma_escaped_front(b);
        let ea = escape_byte(a[0]);
        let eb = escape_byte(b[0]);
        let t = escaped(a);
        assert(t[0] == ea[0]);
        assert(t[0] == eb[0]);
        assert(ea.len() == eb.len());
        assert(ea =~= t.subrange(0, ea.len() as int));
        assert(eb =~= t.subrange(0, eb.len() as int));
        assert(a[0] == b[0]);
        assert(escaped(a.drop_first()) =~= t.subrange(ea.len() as int, t.len() as int));
        assert(escaped(b.drop_first()) =~= t.subrange(eb.len() as int, t.len() as int));
        escaped_is_lossless(a.drop_first(), b.drop_first());
        assert(a =~= seq![a[0]] + a.drop_first());
        assert(b =~= seq![b[0]] + b.drop_first());
    }
}

} // verus!

verus! {

/// Every character of `s` is printable ASCII.
pub open spec fn printable_text(s: Seq<char>) -> bool {
    forall|i: int| 0 <= i < s.len() ==> is_printable_ascii(#[trigger] s[i])
}

/// Every character of `s` is printable ASCII or a line break: text a
/// terminal shows without interpreting any of it as a control sequence.
pub open spec fn terminal_text(s: Seq<char>) -> bool {
    forall|i: int| 0 <= i < s.len() ==> is_printable_ascii(#[trigger] s[i]) || s[i] == '\n'
}

/// Joining printable texts gives printable text.
pub broadcast proof fn printable_concat(a: Seq<char>, b: Seq<char>)
    requires
        printable_text(a),
        printable_text(b),
    ensures
        #[trigger] printable_text(a + b),
{
    assert forall|i: int| 0 <= i < (a + b).len() implies is_printable_ascii(#[trigger] (a + b)[i]) by {
        if i < a.len() {
            assert((a + b)[i] == a[i]);
        } else {
            assert((a + b)[i] == b[i - a.len()]);
        }
    }
}

/// Joining terminal texts gives terminal text.
pub broadcast proof fn terminal_concat(a: Seq<char>, b: Seq<char>)
    requires
        terminal_text(a),
        terminal_text(b),
    ensures
        #[trigger] terminal_text(a + b),
{
    assert forall|i: int| 0 <= i < (a + b).len() implies is_printable_ascii(#[trigger] (a + b)[i]) || (a + b)[i] == '\n' by {
        if i < a.len() {
            assert((a + b)[i] == a[i]);
        } else {
            assert((a + b)[i] == b[i - a.len()]);
        }
    }
}

/// Printable text is terminal text.
pub broadcast proof fn printable_is_terminal(s: Seq<char>)
    requires
        printable_text(s),
    ensures
        #[trigger] terminal_text(s),
{
}

/// Escaped text is printable.
pub proof fn escaped_printable(bytes: Seq<u8>)
    ensures
        printable_text(escaped(bytes)),
{
    escaped_is_printable(bytes);
}

/// The group of facts that carry printability through joined texts.
pub broadcast group group_text_safety {
    printable_concat,
    terminal_concat,
    printable_is_terminal,
}

} // verus!

verus! {

/// A byte is rendered as itself when it is printable ASCII (`0x20..=0x7e`)
/// other than the backslash, and otherwise as `\x` followed by its two
/// upper-case hexadecimal digits, high digit first.
pub proof fn escaped_byte_follows_format(b: u8)
    ensures
        0x20 <= b <= 0x7e && b != 0x5c ==> escaped(seq![b]) == seq![b as char],
        !(0x20 <= b <= 0x7e && b != 0x5c) ==> escaped(seq![b]) == seq![
            '\\',
            'x',
            "0123456789ABCDEF"@[b as int / 16],
            "0123456789ABCDEF"@[b as int % 16],
        ],
{
    reveal_strlit("0123456789ABCDEF");
    assert(seq![b].drop_last() =~= Seq::<u8>::empty());
    assert(escaped(seq![b]) =~= escaped(Seq::<u8>::empty()) + escape_byte(b));
}

} // verus!
