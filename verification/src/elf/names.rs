//! Character-level helpers over decoded names: ordering, `@` versions, and search paths.

use vstd::prelude::*;

verus! {

/// Lexicographic order on character sequences, by code point (the order of `str`).
pub open spec fn lex_lt(a: Seq<char>, b: Seq<char>) -> bool
    decreases a.len(),
{
    if a.len() == 0 {
        b.len() > 0
    } else if b.len() == 0 {
        false
    } else if a[0] != b[0] {
        (a[0] as int) < (b[0] as int)
    } else {
        lex_lt(a.drop_first(), b.drop_first())
    }
}

/// `lex_lt` is irreflexive.
pub proof fn lemma_lex_irreflexive(a: Seq<char>)
    ensures
        !lex_lt(a, a),
    decreases a.len(),
{
    if a.len() > 0 {
        lemma_lex_irreflexive(a.drop_first());
    }
}

/// `lex_lt` is transitive.
pub proof fn lemma_lex_transitive(a: Seq<char>, b: Seq<char>, c: Seq<char>)
    requires
        lex_lt(a, b),
        lex_lt(b, c),
    ensures
        lex_lt(a, c),
    decreases a.len(),
{
    if a.len() > 0 && b.len() > 0 && c.len() > 0 && a[0] == b[0] && b[0] == c[0] {
        lemma_lex_transitive(a.drop_first(), b.drop_first(), c.drop_first());
    }
}

/// `lex_lt` is total on distinct sequences.
pub proof fn lemma_lex_total(a: Seq<char>, b: Seq<char>)
    ensures
        a == b || lex_lt(a, b) || lex_lt(b, a),
    decreases a.len(),
{
    if a.len() > 0 && b.len() > 0 && a[0] == b[0] {
        lemma_lex_total(a.drop_first(), b.drop_first());
        if a.drop_first() == b.drop_first() {
            assert(a =~= seq![a[0]] + a.drop_first());
            assert(b =~= seq![b[0]] + b.drop_first());
        }
    } else if a.len() == 0 && b.len() == 0 {
        assert(a =~= b);
    } else if a.len() > 0 && b.len() > 0 {
        assert((a[0] as int) != (b[0] as int));
    }
}

/// `lex_lt` is asymmetric.
pub proof fn lemma_lex_asymmetric(a: Seq<char>, b: Seq<char>)
    requires
        lex_lt(a, b),
    ensures
        !lex_lt(b, a),
{
    if lex_lt(b, a) {
        lemma_lex_transitive(a, b, a);
        lemma_lex_irreflexive(a);
    }
}

/// Compares two strings lexicographically: -1, 0 or 1.
pub fn compare_str(a: &str, b: &str) -> (r: i8)
    ensures
        r == -1 <==> lex_lt(a@, b@),
        r == 0 <==> a@ == b@,
        r == 1 <==> lex_lt(b@, a@),
        -1 <= r <= 1,
{
    let alen = a.unicode_len();
    let blen = b.unicode_len();
    let mut i: usize = 0;
    assert(a@.skip(0) =~= a@);
    assert(b@.skip(0) =~= b@);
    while i < alen && i < blen
        invariant
            alen == a@.len(),
            blen == b@.len(),
            i <= alen,
            i <= blen,
            a@.take(i as int) == b@.take(i as int),
            lex_lt(a@, b@) == lex_lt(a@.skip(i as int), b@.skip(i as int)),
            lex_lt(b@, a@) == lex_lt(b@.skip(i as int), a@.skip(i as int)),
        decreases alen - i,
    {
        let ca = a.get_char(i);
        let cb = b.get_char(i);
        assert(a@.skip(i as int)[0] == ca);
        assert(b@.skip(i as int)[0] == cb);
        if ca != cb {
            if ca < cb {
                proof {
                    lemma_lex_asymmetric(a@, b@);
                }
                assert(a@[i as int] != b@[i as int]);
                return -1;
            } else {
                assert((cb as int) < (ca as int));
                proof {
                    lemma_lex_asymmetric(b@, a@);
                }
                assert(a@[i as int] != b@[i as int]);
                return 1;
            }
        }
        assert(a@.skip(i as int).drop_first() =~= a@.skip(i + 1));
        assert(b@.skip(i as int).drop_first() =~= b@.skip(i + 1));
        assert(a@.take(i + 1) =~= a@.take(i as int).push(ca));
        assert(b@.take(i + 1) =~= b@.take(i as int).push(cb));
        i = i + 1;
    }
    if alen == blen {
        assert(a@ =~= a@.take(i as int));
        assert(b@ =~= b@.take(i as int));
        proof {
            lemma_lex_irreflexive(a@);
        }
        0
    } else if alen < blen {
        assert(a@.skip(i as int).len() == 0);
        proof {
            lemma_lex_asymmetric(a@, b@);
        }
        assert(a@.len() != b@.len());
        -1
    } else {
        assert(b@.skip(i as int).len() == 0);
        proof {
            lemma_lex_asymmetric(b@, a@);
        }
        assert(a@.len() != b@.len());
        1
    }
}

} // verus!

verus! {

/// The position of the first `@` at or after `i`, or the length when there is none.
pub open spec fn at_index(s: Seq<char>, i: int) -> int
    decreases s.len() - i,
{
    if i >= s.len() {
        s.len() as int
    } else if s[i] == '@' {
        i
    } else {
        at_index(s, i + 1)
    }
}

/// A symbol name without its `@VERSION` suffix (the text before the first `@`).
pub open spec fn base_name(s: Seq<char>) -> Seq<char> {
    s.take(at_index(s, 0))
}

/// Whether a name ends with `_chk`, the suffix of fortified libc entry points.
pub open spec fn ends_with_chk(s: Seq<char>) -> bool {
    s.len() >= 4 && s.subrange(s.len() - 4, s.len() as int) == seq!['_', 'c', 'h', 'k']
}

proof fn lemma_at_index(s: Seq<char>, i: int)
    requires
        0 <= i <= s.len(),
    ensures
        i <= at_index(s, i) <= s.len(),
        forall|k: int| i <= k < at_index(s, i) ==> s[k] != '@',
    decreases s.len() - i,
{
    if i < s.len() && s[i] != '@' {
        lemma_at_index(s, i + 1);
    }
}

/// The text of `s` before its first `@`.
pub fn strip_version(s: &str) -> (r: String)
    ensures
        r@ == base_name(s@),
{
    let len = s.unicode_len();
    let mut i: usize = 0;
    proof {
        lemma_at_index(s@, 0);
    }
    while i < len && s.get_char(i) != '@'
        invariant
            len == s@.len(),
            i <= len,
            at_index(s@, i as int) == at_index(s@, 0),
        decreases len - i,
    {
        i = i + 1;
    }
    assert(at_index(s@, i as int) == i as int);
    String::from_str(s.substring_char(0, i))
}

/// Whether a name ends with `_chk`.
pub fn has_chk_suffix(s: &str) -> (b: bool)
    ensures
        b == ends_with_chk(s@),
{
    let len = s.unicode_len();
    if len < 4 {
        return false;
    }
    let r = s.get_char(len - 4) == '_' && s.get_char(len - 3) == 'c' && s.get_char(len - 2) == 'h'
        && s.get_char(len - 1) == 'k';
    proof {
        if r {
            assert(s@.subrange(len - 4, len as int) =~= seq!['_', 'c', 'h', 'k']);
        } else {
            if s@.subrange(len - 4, len as int) == seq!['_', 'c', 'h', 'k'] {
                assert(s@.subrange(len - 4, len as int)[0] == s@[len - 4]);
                assert(s@.subrange(len - 4, len as int)[1] == s@[len - 3]);
                assert(s@.subrange(len - 4, len as int)[2] == s@[len - 2]);
                assert(s@.subrange(len - 4, len as int)[3] == s@[len - 1]);
            }
        }
    }
    r
}

/// Unicode `White_Space`, as `char::is_whitespace` classifies it.
pub open spec fn is_space(c: char) -> bool {
    let v = c as int;
    (0x9 <= v && v <= 0xd) || v == 0x20 || v == 0x85 || v == 0xa0 || v == 0x1680 || (0x2000 <= v
        && v <= 0x200a) || v == 0x2028 || v == 0x2029 || v == 0x202f || v == 0x205f || v == 0x3000
}

fn space(c: char) -> (b: bool)
    ensures
        b == is_space(c),
{
    let v = c as u32;
    (0x9 <= v && v <= 0xd) || v == 0x20 || v == 0x85 || v == 0xa0 || v == 0x1680 || (0x2000 <= v
        && v <= 0x200a) || v == 0x2028 || v == 0x2029 || v == 0x202f || v == 0x205f || v == 0x3000
}

/// The first position at or after `i` that is not white space, or the length.
pub open spec fn lead(p: Seq<char>, i: int) -> int
    decreases p.len() - i,
{
    if i >= p.len() {
        p.len() as int
    } else if !is_space(p[i]) {
        i
    } else {
        lead(p, i + 1)
    }
}

/// One past the last position before `j` that is not white space, or zero.
pub open spec fn trail(p: Seq<char>, j: int) -> int
    decreases j,
{
    if j <= 0 {
        0
    } else if !is_space(p[j - 1]) {
        j
    } else {
        trail(p, j - 1)
    }
}

/// `p` without leading and trailing white space (`str::trim`).
pub open spec fn trim(p: Seq<char>) -> Seq<char> {
    let a = lead(p, 0);
    let b = trail(p, p.len() as int);
    if a >= b {
        Seq::empty()
    } else {
        p.subrange(a, b)
    }
}

/// A search-path entry that resolves relative to the working directory: empty, `.`, or `./…`.
pub open spec fn part_insecure(p: Seq<char>) -> bool {
    let t = trim(p);
    t.len() == 0 || t == seq!['.'] || (t.len() >= 2 && t[0] == '.' && t[1] == '/')
}

/// The position of the first `:` at or after `i`, or the length.
pub open spec fn part_end(s: Seq<char>, i: int) -> int
    decreases s.len() - i,
{
    if i >= s.len() {
        s.len() as int
    } else if s[i] == ':' {
        i
    } else {
        part_end(s, i + 1)
    }
}

/// Whether a `:`-separated part starting at `i`, or any later part, is insecure.
pub open spec fn any_insecure(s: Seq<char>, i: int) -> bool
    decreases s.len() + 1 - i,
{
    if i < 0 || i > s.len() {
        false
    } else {
        let e = part_end(s, i);
        part_insecure(s.subrange(i, e)) || (e < s.len() && e + 1 > i && any_insecure(s, e + 1))
    }
}

/// Whether any `:`-separated entry of a search path is empty, `.`, or starts with `./`.
pub open spec fn insecure_path(s: Seq<char>) -> bool {
    any_insecure(s, 0)
}

proof fn lemma_part_end(s: Seq<char>, i: int)
    requires
        0 <= i <= s.len(),
    ensures
        i <= part_end(s, i) <= s.len(),
        part_end(s, i) < s.len() ==> s[part_end(s, i)] == ':',
    decreases s.len() - i,
{
    if i < s.len() && s[i] != ':' {
        lemma_part_end(s, i + 1);
    }
}

proof fn lemma_lead_shift(p: Seq<char>, start: int, end: int, i: int)
    requires
        0 <= start <= i <= end <= p.len(),
    ensures
        lead(p.subrange(start, end), i - start) == (if lead_bounded(p, i, end) >= end { end - start } else { lead_bounded(p, i, end) - start }),
    decreases end - i,
{
    if i < end && is_space(p[i]) {
        lemma_lead_shift(p, start, end, i + 1);
    }
}

/// The first position in `i..end` that is not white space, or `end`.
pub open spec fn lead_bounded(p: Seq<char>, i: int, end: int) -> int
    decreases end - i,
{
    if i >= end {
        end
    } else if !is_space(p[i]) {
        i
    } else {
        lead_bounded(p, i + 1, end)
    }
}

/// One past the last position in `start..j` that is not white space, or `start`.
pub open spec fn trail_bounded(p: Seq<char>, start: int, j: int) -> int
    decreases j - start,
{
    if j <= start {
        start
    } else if !is_space(p[j - 1]) {
        j
    } else {
        trail_bounded(p, start, j - 1)
    }
}

proof fn lemma_trail_shift(p: Seq<char>, start: int, end: int, j: int)
    requires
        0 <= start <= j <= end <= p.len(),
    ensures
        trail(p.subrange(start, end), j - start) == trail_bounded(p, start, j) - start,
    decreases j - start,
{
    if j > start && is_space(p[j - 1]) {
        lemma_trail_shift(p, start, end, j - 1);
    }
}

proof fn lemma_lead_bounded(p: Seq<char>, i: int, end: int)
    requires
        0 <= i <= end <= p.len(),
    ensures
        i <= lead_bounded(p, i, end) <= end,
        lead_bounded(p, i, end) < end ==> !is_space(p[lead_bounded(p, i, end)]),
    decreases end - i,
{
    if i < end && is_space(p[i]) {
        lemma_lead_bounded(p, i + 1, end);
    }
}

proof fn lemma_trail_bounded(p: Seq<char>, start: int, j: int)
    requires
        0 <= start <= j <= p.len(),
    ensures
        start <= trail_bounded(p, start, j) <= j,
    decreases j - start,
{
    if j > start && is_space(p[j - 1]) {
        lemma_trail_bounded(p, start, j - 1);
    }
}

/// Whether the part `path[start..end]` is insecure.
fn part_is_insecure(path: &str, start: usize, end: usize) -> (b: bool)
    requires
        start <= end <= path@.len(),
    ensures
        b == part_insecure(path@.subrange(start as int, end as int)),
{
    let ghost p = path@.subrange(start as int, end as int);
    let mut a = start;
    while a < end && space(path.get_char(a))
        invariant
            start <= a <= end,
            end <= path@.len(),
            lead_bounded(path@, a as int, end as int) == lead_bounded(path@, start as int, end as int),
        decreases end - a,
    {
        a = a + 1;
    }
    assert(lead_bounded(path@, a as int, end as int) == a);
    let mut b = end;
    while b > start && space(path.get_char(b - 1))
        invariant
            start <= b <= end,
            end <= path@.len(),
            trail_bounded(path@, start as int, b as int) == trail_bounded(path@, start as int, end as int),
        decreases b - start,
    {
        b = b - 1;
    }
    assert(trail_bounded(path@, start as int, b as int) == b);
    proof {
        lemma_lead_shift(path@, start as int, end as int, start as int);
        lemma_trail_shift(path@, start as int, end as int, end as int);
        lemma_lead_bounded(path@, start as int, end as int);
        lemma_trail_bounded(path@, start as int, end as int);
    }
    assert(lead(p, 0) == a - start);
    assert(trail(p, p.len() as int) == b - start);
    if a >= b {
        return true;
    }
    assert(trim(p) =~= path@.subrange(a as int, b as int));
    if b - a == 1 && path.get_char(a) == '.' {
        assert(trim(p) =~= seq!['.']);
        return true;
    }
    if b - a >= 2 && path.get_char(a) == '.' && path.get_char(a + 1) == '/' {
        return true;
    }
    proof {
        if trim(p) == seq!['.'] {
            assert(trim(p)[0] == path@[a as int]);
        }
    }
    false
}

/// Whether any `:`-separated entry of a search path is empty, `.`, or starts with `./`.
pub fn is_insecure_path(path: &str) -> (b: bool)
    ensures
        b == insecure_path(path@),
{
    let len = path.unicode_len();
    let mut start: usize = 0;
    loop
        invariant
            len == path@.len(),
            start <= len,
            any_insecure(path@, start as int) == insecure_path(path@),
        decreases len + 1 - start,
    {
        let mut end = start;
        proof {
            lemma_part_end(path@, start as int);
        }
        while end < len && path.get_char(end) != ':'
            invariant
                start <= end <= len,
                len == path@.len(),
                part_end(path@, end as int) == part_end(path@, start as int),
            decreases len - end,
        {
            end = end + 1;
        }
        assert(part_end(path@, end as int) == end);
        if part_is_insecure(path, start, end) {
            return true;
        }
        if end >= len {
            return false;
        }
        start = end + 1;
    }
}

} // verus!

verus! {

proof fn lemma_part_end_shift(x: Seq<char>, y: Seq<char>, i: int)
    requires
        0 <= i <= y.len(),
    ensures
        part_end(x + y, x.len() + i) == x.len() + part_end(y, i),
    decreases y.len() - i,
{
    if i < y.len() {
        assert((x + y)[x.len() + i] == y[i]);
        lemma_part_end_shift(x, y, i + 1);
    }
}

proof fn lemma_any_insecure_shift(x: Seq<char>, y: Seq<char>, i: int)
    requires
        0 <= i <= y.len(),
    ensures
        any_insecure(x + y, x.len() + i) == any_insecure(y, i),
    decreases y.len() + 1 - i,
{
    let s = x + y;
    lemma_part_end_shift(x, y, i);
    lemma_part_end(y, i);
    let e = part_end(y, i);
    assert(s.subrange(x.len() + i, x.len() + e) =~= y.subrange(i, e));
    if e < y.len() {
        lemma_any_insecure_shift(x, y, e + 1);
    }
}

proof fn lemma_part_end_no_colon(p: Seq<char>, q: Seq<char>, i: int)
    requires
        0 <= i <= p.len(),
        forall|k: int| 0 <= k < p.len() ==> p[k] != ':',
        q.len() == 0 || q[0] == ':',
    ensures
        part_end(p + q, i) == p.len(),
    decreases p.len() - i,
{
    if i < p.len() {
        assert((p + q)[i] == p[i]);
        lemma_part_end_no_colon(p, q, i + 1);
    } else if q.len() > 0 {
        assert((p + q)[i] == q[0]);
    }
}

/// A search path is insecure exactly when one of its `:`-separated entries
/// resolves relative to the working directory: an entry that, trimmed of
/// white space, is empty, is `.`, or starts with `./`. A path of one entry
/// is judged by that entry; `p:q` is insecure when `p` is or `q` is.
pub proof fn insecure_path_follows_entries(p: Seq<char>, q: Seq<char>)
    requires
        forall|k: int| 0 <= k < p.len() ==> p[k] != ':',
    ensures
        insecure_path(p) <==> (trim(p).len() == 0 || trim(p) == seq!['.'] || (trim(p).len() >= 2 && trim(p)[0] == '.' && trim(p)[1]
            == '/')),
        insecure_path(p + seq![':'] + q) <==> (insecure_path(p) || insecure_path(q)),
{
    lemma_part_end_no_colon(p, Seq::empty(), 0);
    assert(p + Seq::<char>::empty() =~= p);
    assert(p.subrange(0, p.len() as int) =~= p);
    let s = p + seq![':'] + q;
    assert(s =~= p + (seq![':'] + q));
    lemma_part_end_no_colon(p, seq![':'] + q, 0);
    assert(s.subrange(0, p.len() as int) =~= p);
    assert(s[p.len() as int] == ':');
    lemma_any_insecure_shift(p + seq![':'], q, 0);
    assert(p + seq![':'] + q == s);
}

} // verus!
