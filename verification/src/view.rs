//! The row selection and ordering of the desktop tables: which sections,
//! segments and libraries are listed for a search query, in which order for
//! the chosen sort column, and how a click on a column header changes it.

use vstd::prelude::*;
use crate::elf::names::{compare_str, lemma_lex_asymmetric, lemma_lex_irreflexive, lemma_lex_total, lemma_lex_transitive, lex_lt};
use crate::fmt::{prefixed_hex, prefixed_hex_string};
use crate::labels::{section_type_name, section_type_text};
use crate::model::{Section, Segment};

verus! {

/// A value a table column is ordered by.
#[derive(Debug, Clone)]
pub enum SortKey {
    /// A numeric column.
    Number(u64),
    /// A text column, ordered by code points.
    Text(String),
}

/// Three-way comparison of integers: -1, 0 or 1.
pub open spec fn int_order(x: int, y: int) -> int {
    if x < y {
        -1
    } else if x == y {
        0
    } else {
        1
    }
}

/// Three-way comparison of texts by code points (the order of `str::Ord`).
pub open spec fn text_order(x: Seq<char>, y: Seq<char>) -> int {
    if lex_lt(x, y) {
        -1
    } else if x == y {
        0
    } else {
        1
    }
}

/// Three-way comparison of sort keys; numbers come before texts.
pub open spec fn key_order(a: SortKey, b: SortKey) -> int {
    match (a, b) {
        (SortKey::Number(x), SortKey::Number(y)) => int_order(x as int, y as int),
        (SortKey::Text(x), SortKey::Text(y)) => text_order(x@, y@),
        (SortKey::Number(_), SortKey::Text(_)) => -1,
        (SortKey::Text(_), SortKey::Number(_)) => 1,
    }
}

/// Row `i` is listed before row `j`: its key comes first in the chosen
/// direction, or the keys are equal and `i` comes first in the table (the
/// order of a stable sort).
pub open spec fn listed_before(keys: Seq<SortKey>, ascending: bool, i: int, j: int) -> bool {
    let c = key_order(keys[i], keys[j]);
    let d = if ascending { c } else { -c };
    d < 0 || (d == 0 && i < j)
}

/// `order` lists rows strictly in the order `listed_before`.
pub open spec fn listed_in_order(keys: Seq<SortKey>, ascending: bool, order: Seq<usize>) -> bool {
    forall|a: int, b: int| 0 <= a < b < order.len() ==> listed_before(keys, ascending, #[trigger] order[a] as int, #[trigger] order[b] as int)
}

proof fn lemma_text_order(x: Seq<char>, y: Seq<char>, z: Seq<char>)
    ensures
        text_order(x, y) == -text_order(y, x),
        text_order(x, x) == 0,
        text_order(x, y) < 0 && text_order(y, z) <= 0 ==> text_order(x, z) < 0,
        text_order(x, y) <= 0 && text_order(y, z) < 0 ==> text_order(x, z) < 0,
        text_order(x, y) == 0 && text_order(y, z) == 0 ==> text_order(x, z) == 0,
{
    lemma_lex_irreflexive(x);
    lemma_lex_total(x, y);
    lemma_lex_total(y, z);
    lemma_lex_total(x, z);
    if lex_lt(x, y) {
        lemma_lex_asymmetric(x, y);
    }
    if lex_lt(y, x) {
        lemma_lex_asymmetric(y, x);
    }
    if lex_lt(x, y) && lex_lt(y, z) {
        lemma_lex_transitive(x, y, z);
    }
    if lex_lt(x, z) {
        lemma_lex_asymmetric(x, z);
    }
    if lex_lt(z, x) {
        lemma_lex_asymmetric(z, x);
    }
}

proof fn lemma_key_order(a: SortKey, b: SortKey, c: SortKey)
    ensures
        key_order(a, b) == -key_order(b, a),
        key_order(a, a) == 0,
        -1 <= key_order(a, b) <= 1,
        key_order(a, b) < 0 && key_order(b, c) <= 0 ==> key_order(a, c) < 0,
        key_order(a, b) <= 0 && key_order(b, c) < 0 ==> key_order(a, c) < 0,
        key_order(a, b) == 0 && key_order(b, c) == 0 ==> key_order(a, c) == 0,
{
    match (a, b, c) {
        (SortKey::Text(x), SortKey::Text(y), SortKey::Text(z)) => lemma_text_order(x@, y@, z@),
        (SortKey::Text(x), SortKey::Text(y), _) => lemma_text_order(x@, y@, y@),
        (SortKey::Text(x), _, _) => lemma_text_order(x@, x@, x@),
        _ => {},
    }
}

proof fn lemma_listed_before(keys: Seq<SortKey>, ascending: bool, i: int, j: int, k: int)
    requires
        0 <= i < keys.len(),
        0 <= j < keys.len(),
        0 <= k < keys.len(),
    ensures
        !listed_before(keys, ascending, i, i),
        i != j ==> (listed_before(keys, ascending, i, j) <==> !listed_before(keys, ascending, j, i)),
        listed_before(keys, ascending, i, j) && listed_before(keys, ascending, j, k) ==> listed_before(keys, ascending, i, k),
{
    lemma_key_order(keys[i], keys[j], keys[k]);
    lemma_key_order(keys[k], keys[j], keys[i]);
    lemma_key_order(keys[i], keys[k], keys[j]);
}

/// The three-way comparison of two keys.
pub fn compare_keys(a: &SortKey, b: &SortKey) -> (r: i8)
    ensures
        r == key_order(*a, *b),
{
    match (a, b) {
        (SortKey::Number(x), SortKey::Number(y)) => {
            if *x < *y {
                -1
            } else if *x == *y {
                0
            } else {
                1
            }
        },
        (SortKey::Text(x), SortKey::Text(y)) => compare_str(x.as_str(), y.as_str()),
        (SortKey::Number(_), SortKey::Text(_)) => -1,
        (SortKey::Text(_), SortKey::Number(_)) => 1,
    }
}

fn listed_first(keys: &Vec<SortKey>, ascending: bool, i: usize, j: usize) -> (b: bool)
    requires
        i < keys@.len(),
        j < keys@.len(),
    ensures
        b == listed_before(keys@, ascending, i as int, j as int),
{
    let c = compare_keys(&keys[i], &keys[j]);
    let d = if ascending { c } else { -c };
    d < 0 || (d == 0 && i < j)
}

/// Orders the rows `rows` (increasing row numbers) as a stable sort by
/// `keys` in the chosen direction would: the result holds the same rows,
/// listed strictly in the order `listed_before`.
pub(crate) fn sort_rows(keys: &Vec<SortKey>, rows: Vec<usize>, ascending: bool) -> (order: Vec<usize>)
    requires
        forall|a: int| 0 <= a < rows@.len() ==> #[trigger] rows@[a] < keys@.len(),
        forall|a: int, b: int| 0 <= a < b < rows@.len() ==> #[trigger] rows@[a] < #[trigger] rows@[b],
    ensures
        listed_in_order(keys@, ascending, order@),
        order@.len() == rows@.len(),
        forall|x: usize| order@.contains(x) <==> rows@.contains(x),
{
    let mut order: Vec<usize> = Vec::new();
    let mut n: usize = 0;
    while n < rows.len()
        invariant
            n <= rows@.len(),
            forall|a: int| 0 <= a < rows@.len() ==> #[trigger] rows@[a] < keys@.len(),
            forall|a: int, b: int| 0 <= a < b < rows@.len() ==> #[trigger] rows@[a] < #[trigger] rows@[b],
            listed_in_order(keys@, ascending, order@),
            order@.len() == n,
            forall|x: usize| order@.contains(x) <==> rows@.take(n as int).contains(x),
        decreases rows@.len() - n,
    {
        let row = rows[n];
        let ghost before_insert = order@;
        assert forall|a: int| 0 <= a < order@.len() implies #[trigger] order@[a] < row && order@[a] < keys@.len() by {
            assert(order@.contains(order@[a]));
            let m = choose|m: int| 0 <= m < n && rows@.take(n as int)[m] == order@[a];
            assert(rows@[m] == order@[a]);
        }
        let mut p: usize = 0;
        while p < order.len() && listed_first(keys, ascending, order[p], row)
            invariant
                p <= order@.len(),
                order@ == before_insert,
                row < keys@.len(),
                forall|a: int| 0 <= a < order@.len() ==> #[trigger] order@[a] < row && order@[a] < keys@.len(),
                forall|a: int| 0 <= a < p ==> listed_before(keys@, ascending, #[trigger] order@[a] as int, row as int),
            decreases order@.len() - p,
        {
            p = p + 1;
        }
        proof {
            if p < order@.len() {
                lemma_listed_before(keys@, ascending, order@[p as int] as int, row as int, row as int);
                assert(listed_before(keys@, ascending, row as int, order@[p as int] as int));
                assert forall|a: int| p <= a < order@.len() implies listed_before(keys@, ascending, row as int, #[trigger] order@[a] as int) by {
                    if a > p {
                        lemma_listed_before(keys@, ascending, row as int, order@[p as int] as int, order@[a] as int);
                    }
                }
            }
        }
        order.insert(p, row);
        let ghost after = order@;
        assert(after =~= before_insert.insert(p as int, row));
        assert forall|a: int, b: int| 0 <= a < b < after.len() implies listed_before(keys@, ascending, #[trigger] after[a] as int, #[trigger] after[b] as int) by {
            if b < p {
                assert(after[a] == before_insert[a] && after[b] == before_insert[b]);
            } else if b == p {
                assert(after[a] == before_insert[a]);
            } else if a < p {
                assert(after[a] == before_insert[a] && after[b] == before_insert[b - 1]);
                lemma_listed_before(keys@, ascending, after[a] as int, row as int, after[b] as int);
            } else if a == p {
                assert(after[b] == before_insert[b - 1]);
            } else {
                assert(after[a] == before_insert[a - 1] && after[b] == before_insert[b - 1]);
            }
        }
        assert forall|x: usize| after.contains(x) <==> rows@.take(n + 1).contains(x) by {
            let t0 = rows@.take(n as int);
            let t1 = rows@.take(n + 1);
            if t1.contains(x) {
                let k = choose|k: int| 0 <= k < t1.len() && t1[k] == x;
                if k < n {
                    assert(t0[k] == x);
                    assert(t0.contains(x));
                    assert(before_insert.contains(x));
                } else {
                    assert(x == row);
                }
            }
            if t0.contains(x) {
                let k = choose|k: int| 0 <= k < t0.len() && t0[k] == x;
                assert(t1[k] == x);
            }
            if x == row {
                assert(t1[n as int] == x);
            }
            if after.contains(x) {
                let k = choose|k: int| 0 <= k < after.len() && after[k] == x;
                if k < p {
                    assert(before_insert[k] == x);
                } else if k > p {
                    assert(before_insert[k - 1] == x);
                }
            }
            if before_insert.contains(x) {
                let k = choose|k: int| 0 <= k < before_insert.len() && before_insert[k] == x;
                if k < p {
                    assert(after[k] == x);
                } else {
                    assert(after[k + 1] == x);
                }
            }
            if x == row {
                assert(after[p as int] == x);
            }
        }
        n = n + 1;
    }
    assert(rows@.take(rows@.len() as int) =~= rows@);
    order
}

/// The lower-case form of a text as `str::to_lowercase` computes it (the
/// Unicode lower-case mapping, including its context-dependent cases).
pub uninterp spec fn lowercase(s: Seq<char>) -> Seq<char>;

/// `str::to_lowercase`.
///
/// Trusted: the result is the lower-case form of exactly this text; the
/// mapping itself, from the Unicode tables, is not stated.
#[verifier::external_body]
fn to_lowercase(s: &str) -> (r: String)
    ensures
        r@ == lowercase(s@),
{
    s.to_lowercase()
}

/// `needle` occurs in `hay` as a run of consecutive characters.
pub open spec fn has_substring(hay: Seq<char>, needle: Seq<char>) -> bool {
    exists|i: int| 0 <= i && i + needle.len() <= hay.len() && #[trigger] hay.subrange(i, i + needle.len()) == needle
}

fn chars_of(s: &str) -> (v: Vec<char>)
    ensures
        v@ == s@,
{
    let n = s.unicode_len();
    let mut v: Vec<char> = Vec::new();
    let mut i: usize = 0;
    while i < n
        invariant
            n == s@.len(),
            i <= n,
            v@ == s@.take(i as int),
        decreases n - i,
    {
        v.push(s.get_char(i));
        i = i + 1;
        assert(v@ =~= s@.take(i as int));
    }
    assert(s@.take(n as int) =~= s@);
    v
}

fn matches_at(hay: &Vec<char>, needle: &Vec<char>, at: usize) -> (b: bool)
    requires
        at + needle@.len() <= hay@.len(),
    ensures
        b == (hay@.subrange(at as int, at + needle@.len()) == needle@),
{
    let mut j: usize = 0;
    while j < needle.len()
        invariant
            j <= needle@.len(),
            at + needle@.len() <= hay@.len(),
            forall|k: int| 0 <= k < j ==> hay@[at + k] == needle@[k],
        decreases needle@.len() - j,
    {
        let limit = hay.len();
        assert(at + j < limit);
        if hay[at + j] != needle[j] {
            assert(hay@.subrange(at as int, at + needle@.len())[j as int] != needle@[j as int]);
            return false;
        }
        j = j + 1;
    }
    assert(hay@.subrange(at as int, at + needle@.len()) =~= needle@);
    true
}

/// Whether `needle` occurs in `hay` (`str::contains`).
pub fn contains_text(hay: &str, needle: &str) -> (b: bool)
    ensures
        b == has_substring(hay@, needle@),
{
    let h = chars_of(hay);
    let n = chars_of(needle);
    if n.len() > h.len() {
        return false;
    }
    let last = h.len() - n.len();
    let mut i: usize = 0;
    loop
        invariant
            i <= last,
            last == h@.len() - n@.len(),
            h@ == hay@,
            n@ == needle@,
            forall|k: int| 0 <= k < i ==> #[trigger] hay@.subrange(k, k + needle@.len()) != needle@,
        decreases last - i,
    {
        if matches_at(&h, &n, i) {
            return true;
        }
        if i == last {
            return false;
        }
        i = i + 1;
    }
}

/// Sortable columns of the section table.
#[derive(Debug, Clone, Copy, PartialEq, Eq, Structural)]
pub enum SectionSort {
    /// Table position.
    Index,
    /// Section name.
    Name,
    /// `sh_type`.
    Type,
    /// `sh_addr`.
    Address,
    /// `sh_size`.
    Size,
}

/// Sortable columns of the segment table.
#[derive(Debug, Clone, Copy, PartialEq, Eq, Structural)]
pub enum SegmentSort {
    /// Table position.
    Index,
    /// `p_type`.
    Type,
    /// `p_offset`.
    Offset,
    /// `p_vaddr`.
    Address,
    /// `p_memsz`.
    Size,
    /// `p_flags`.
    Flags,
}

/// The key a section is ordered by in a column.
pub open spec fn section_key(s: Section, column: SectionSort) -> SortKey {
    match column {
        SectionSort::Index => SortKey::Number(s.index as u64),
        SectionSort::Name => SortKey::Text(s.name),
        SectionSort::Type => SortKey::Number(s.section_type as u64),
        SectionSort::Address => SortKey::Number(s.address),
        SectionSort::Size => SortKey::Number(s.size),
    }
}

/// The key a segment is ordered by in a column.
pub open spec fn segment_key(s: Segment, column: SegmentSort) -> SortKey {
    match column {
        SegmentSort::Index => SortKey::Number(s.index as u64),
        SegmentSort::Type => SortKey::Number(s.segment_type as u64),
        SegmentSort::Offset => SortKey::Number(s.offset),
        SegmentSort::Address => SortKey::Number(s.virtual_address),
        SegmentSort::Size => SortKey::Number(s.memory_size),
        SegmentSort::Flags => SortKey::Number(s.flags as u64),
    }
}

/// Whether a section is listed for a lower-case query: every section for an
/// empty query, else those whose lower-case name, `0x` type, lower-case type
/// name or `0x` address contains it.
pub open spec fn section_matches(s: Section, query: Seq<char>) -> bool {
    ||| query.len() == 0
    ||| has_substring(lowercase(s.name@), query)
    ||| has_substring(prefixed_hex(s.section_type as nat), query)
    ||| has_substring(lowercase(section_type_text(s.section_type)@), query)
    ||| has_substring(prefixed_hex(s.address as nat), query)
}

fn section_listed(s: &Section, query: &str) -> (b: bool)
    ensures
        b == section_matches(*s, query@),
{
    if query.unicode_len() == 0 {
        return true;
    }
    let name = to_lowercase(s.name.as_str());
    if contains_text(name.as_str(), query) {
        return true;
    }
    let section_type = prefixed_hex_string(s.section_type as u64);
    if contains_text(section_type.as_str(), query) {
        return true;
    }
    let kind = to_lowercase(section_type_name(s.section_type));
    if contains_text(kind.as_str(), query) {
        return true;
    }
    let address = prefixed_hex_string(s.address);
    contains_text(address.as_str(), query)
}

/// The rows of the section table for a search text and a sort column: the
/// sections matching the lower-cased search text, ordered by the column in
/// the chosen direction, equal keys in table order.
pub fn visible_sections(sections: &[Section], search: &str, column: SectionSort, ascending: bool) -> (rows: Vec<usize>)
    ensures
        listed_in_order(sections@.map_values(|s: Section| section_key(s, column)), ascending, rows@),
        forall|k: usize| rows@.contains(k) <==> k < sections@.len() && section_matches(sections@[k as int], lowercase(search@)),
{
    let query = to_lowercase(search);
    let mut keys: Vec<SortKey> = Vec::new();
    let mut matching: Vec<usize> = Vec::new();
    let mut i: usize = 0;
    while i < sections.len()
        invariant
            i <= sections@.len(),
            query@ == lowercase(search@),
            keys@ == sections@.take(i as int).map_values(|s: Section| section_key(s, column)),
            forall|a: int| 0 <= a < matching@.len() ==> #[trigger] matching@[a] < i,
            forall|a: int, b: int| 0 <= a < b < matching@.len() ==> #[trigger] matching@[a] < #[trigger] matching@[b],
            forall|k: usize| matching@.contains(k) <==> k < i && section_matches(sections@[k as int], query@),
        decreases sections@.len() - i,
    {
        let s = &sections[i];
        let key = match column {
            SectionSort::Index => SortKey::Number(s.index as u64),
            SectionSort::Name => SortKey::Text(s.name.clone()),
            SectionSort::Type => SortKey::Number(s.section_type as u64),
            SectionSort::Address => SortKey::Number(s.address),
            SectionSort::Size => SortKey::Number(s.size),
        };
        keys.push(key);
        assert(keys@ =~= sections@.take(i + 1).map_values(|s: Section| section_key(s, column)));
        let ghost old_matching = matching@;
        if section_listed(s, query.as_str()) {
            matching.push(i);
        }
        assert forall|k: usize| matching@.contains(k) <==> k < i + 1 && section_matches(sections@[k as int], query@) by {
            if matching@.contains(k) {
                let a = choose|a: int| 0 <= a < matching@.len() && matching@[a] == k;
                if a < old_matching.len() {
                    assert(old_matching[a] == k);
                    assert(old_matching.contains(k));
                }
            }
            if k < i && section_matches(sections@[k as int], query@) {
                assert(old_matching.contains(k));
                let a = choose|a: int| 0 <= a < old_matching.len() && old_matching[a] == k;
                assert(matching@[a] == k);
            }
            if k == i && section_matches(sections@[k as int], query@) {
                assert(matching@[matching@.len() - 1] == k);
            }
        }
        i = i + 1;
    }
    assert(sections@.take(sections@.len() as int) =~= sections@);
    assert forall|a: int| 0 <= a < matching@.len() implies #[trigger] matching@[a] < keys@.len() by {}
    sort_rows(&keys, matching, ascending)
}

/// The rows of the segment table for a sort column: every segment, ordered
/// by the column in the chosen direction, equal keys in table order.
pub fn visible_segments(segments: &[Segment], column: SegmentSort, ascending: bool) -> (rows: Vec<usize>)
    ensures
        listed_in_order(segments@.map_values(|s: Segment| segment_key(s, column)), ascending, rows@),
        forall|k: usize| rows@.contains(k) <==> k < segments@.len(),
{
    let mut keys: Vec<SortKey> = Vec::new();
    let mut all: Vec<usize> = Vec::new();
    let mut i: usize = 0;
    while i < segments.len()
        invariant
            i <= segments@.len(),
            keys@ == segments@.take(i as int).map_values(|s: Segment| segment_key(s, column)),
            all@.len() == i,
            forall|a: int| 0 <= a < i ==> #[trigger] all@[a] == a,
        decreases segments@.len() - i,
    {
        let s = &segments[i];
        let key = match column {
            SegmentSort::Index => SortKey::Number(s.index as u64),
            SegmentSort::Type => SortKey::Number(s.segment_type as u64),
            SegmentSort::Offset => SortKey::Number(s.offset),
            SegmentSort::Address => SortKey::Number(s.virtual_address),
            SegmentSort::Size => SortKey::Number(s.memory_size),
            SegmentSort::Flags => SortKey::Number(s.flags as u64),
        };
        keys.push(key);
        assert(keys@ =~= segments@.take(i + 1).map_values(|s: Segment| segment_key(s, column)));
        all.push(i);
        i = i + 1;
    }
    assert(segments@.take(segments@.len() as int) =~= segments@);
    assert forall|k: usize| all@.contains(k) <==> k < segments@.len() by {
        if k < segments@.len() {
            assert(all@[k as int] == k);
        }
    }
    sort_rows(&keys, all, ascending)
}

/// Whether a library is listed for a lower-case query: all for an empty
/// query, else those whose lower-case name contains it.
pub open spec fn library_matches(name: Seq<char>, query: Seq<char>) -> bool {
    query.len() == 0 || has_substring(lowercase(name), query)
}

/// The positions of the needed libraries listed for a search text, in table order.
pub fn visible_libraries(needed: &[String], search: &str) -> (rows: Vec<usize>)
    ensures
        forall|a: int, b: int| 0 <= a < b < rows@.len() ==> #[trigger] rows@[a] < #[trigger] rows@[b],
        forall|k: usize| rows@.contains(k) <==> k < needed@.len() && library_matches(needed@[k as int]@, lowercase(search@)),
{
    let query = to_lowercase(search);
    let empty = query.as_str().unicode_len() == 0;
    let mut rows: Vec<usize> = Vec::new();
    let mut i: usize = 0;
    while i < needed.len()
        invariant
            i <= needed@.len(),
            query@ == lowercase(search@),
            empty == (query@.len() == 0),
            forall|a: int| 0 <= a < rows@.len() ==> #[trigger] rows@[a] < i,
            forall|a: int, b: int| 0 <= a < b < rows@.len() ==> #[trigger] rows@[a] < #[trigger] rows@[b],
            forall|k: usize| rows@.contains(k) <==> k < i && library_matches(needed@[k as int]@, query@),
        decreases needed@.len() - i,
    {
        let ghost old_rows = rows@;
        let listed = empty || {
            let name = to_lowercase(needed[i].as_str());
            contains_text(name.as_str(), query.as_str())
        };
        if listed {
            rows.push(i);
        }
        assert forall|k: usize| rows@.contains(k) <==> k < i + 1 && library_matches(needed@[k as int]@, query@) by {
            if rows@.contains(k) {
                let a = choose|a: int| 0 <= a < rows@.len() && rows@[a] == k;
                if a < old_rows.len() {
                    assert(old_rows[a] == k);
                    assert(old_rows.contains(k));
                }
            }
            if k < i && library_matches(needed@[k as int]@, query@) {
                assert(old_rows.contains(k));
                let a = choose|a: int| 0 <= a < old_rows.len() && old_rows[a] == k;
                assert(rows@[a] == k);
            }
            if k == i && library_matches(needed@[k as int]@, query@) {
                assert(rows@[rows@.len() - 1] == k);
            }
        }
        i = i + 1;
    }
    rows
}

/// The sort state after a click on a column header: the active column flips
/// its direction; another column becomes active, ascending.
pub open spec fn after_click<C>(current: C, ascending: bool, clicked: C) -> (C, bool) {
    if current == clicked {
        (current, !ascending)
    } else {
        (clicked, true)
    }
}

/// Applies a click on a section-table header to the sort state.
pub fn click_section_header(current: SectionSort, ascending: bool, clicked: SectionSort) -> (r: (SectionSort, bool))
    ensures
        r == after_click(current, ascending, clicked),
{
    if current == clicked {
        (current, !ascending)
    } else {
        (clicked, true)
    }
}

/// Applies a click on a segment-table header to the sort state.
pub fn click_segment_header(current: SegmentSort, ascending: bool, clicked: SegmentSort) -> (r: (SegmentSort, bool))
    ensures
        r == after_click(current, ascending, clicked),
{
    if current == clicked {
        (current, !ascending)
    } else {
        (clicked, true)
    }
}

/// The marker after a column label: an arrow on the active column showing
/// its direction, nothing on the others.
pub open spec fn sort_marker(active: bool, ascending: bool) -> Seq<char> {
    if !active {
        Seq::empty()
    } else if ascending {
        seq![' ', '\u{25b2}']
    } else {
        seq![' ', '\u{25bc}']
    }
}

/// The text of a column header: its label and the sort marker.
pub fn header_text(label: &str, active: bool, ascending: bool) -> (s: String)
    ensures
        s@ == label@ + sort_marker(active, ascending),
{
    let mut s = String::new();
    crate::fmt::push_str(&mut s, label);
    if active {
        crate::text::push_char(&mut s, ' ');
        crate::text::push_char(&mut s, if ascending { '\u{25b2}' } else { '\u{25bc}' });
    }
    assert(s@ =~= label@ + sort_marker(active, ascending));
    s
}

/// What the Escape key does.
#[derive(Debug, Clone, Copy, PartialEq, Eq, Structural)]
pub enum EscapeAction {
    /// Clear the search text.
    ClearSearch,
    /// Dismiss a failed inspection.
    DismissFailure,
    /// Nothing.
    Ignore,
}

/// The Escape key first clears a search; with no search it dismisses a
/// failed inspection; otherwise it does nothing.
pub fn escape_action(search_is_empty: bool, failed: bool) -> (a: EscapeAction)
    ensures
        !search_is_empty ==> a == EscapeAction::ClearSearch,
        search_is_empty && failed ==> a == EscapeAction::DismissFailure,
        search_is_empty && !failed ==> a == EscapeAction::Ignore,
{
    if !search_is_empty {
        EscapeAction::ClearSearch
    } else if failed {
        EscapeAction::DismissFailure
    } else {
        EscapeAction::Ignore
    }
}

} // verus!
