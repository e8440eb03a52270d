//! NUL-terminated strings inside the file and the shared decoded-text budget.

use vstd::prelude::*;
use crate::error::{AppError, ParseError};
use crate::text::{escape_bytes, escaped};

verus! {

/// Longest string, in bytes before its terminator, that is decoded.
pub const MAX_STRING_BYTES: usize = 4_096;

/// Total decoded text allowed per table kind in one inspection.
pub const MAX_TOTAL_TEXT_BYTES: usize = 4 * 1024 * 1024;

/// The position of the first NUL in `s[i..stop]`, if any.
pub open spec fn find_nul(s: Seq<u8>, i: int, stop: int) -> Option<int>
    decreases stop - i,
{
    if i >= stop {
        None
    } else if s[i] == 0 {
        Some(i)
    } else {
        find_nul(s, i + 1, stop)
    }
}

/// Where the search for a terminator starting at `start` stops.
pub open spec fn search_stop(len: int, start: int) -> int {
    if start + MAX_STRING_BYTES + 1 <= len {
        start + MAX_STRING_BYTES + 1
    } else {
        len
    }
}

/// The bytes of the string starting at `start`, when it is terminated within the limit.
pub open spec fn c_string_at(s: Seq<u8>, start: int) -> Option<Seq<u8>> {
    match find_nul(s, start, search_stop(s.len() as int, start)) {
        Some(end) => Some(s.subrange(start, end)),
        None => None,
    }
}

proof fn lemma_find_nul_bounds(s: Seq<u8>, i: int, stop: int)
    ensures
        find_nul(s, i, stop) matches Some(k) ==> i <= k < stop && s[k] == 0,
    decreases stop - i,
{
    if i < stop && s[i] != 0 {
        lemma_find_nul_bounds(s, i + 1, stop);
    }
}

/// A terminated string is at most `MAX_STRING_BYTES` long.
pub(crate) proof fn lemma_c_string_bound(s: Seq<u8>, start: int)
    requires
        0 <= start,
    ensures
        c_string_at(s, start) matches Some(b) ==> b.len() <= MAX_STRING_BYTES,
{
    lemma_find_nul_bounds(s, start, search_stop(s.len() as int, start));
}

/// Finds the terminator of the string starting at `start`.
fn find_terminator(bytes: &[u8], start: usize) -> (r: Option<usize>)
    requires
        start <= bytes@.len(),
    ensures
        r matches Some(k) ==> find_nul(bytes@, start as int, search_stop(bytes@.len() as int, start as int)) == Some(k as int),
        r is None ==> find_nul(bytes@, start as int, search_stop(bytes@.len() as int, start as int)) is None,
        r matches Some(k) ==> start <= k < bytes@.len(),
{
    let len = bytes.len();
    let stop = if len - start >= MAX_STRING_BYTES + 1 {
        start + MAX_STRING_BYTES + 1
    } else {
        len
    };
    assert(stop == search_stop(bytes@.len() as int, start as int));
    let ghost target = find_nul(bytes@, start as int, stop as int);
    proof {
        lemma_find_nul_bounds(bytes@, start as int, stop as int);
    }
    let mut i = start;
    while i < stop
        invariant
            start <= i <= stop <= len,
            len == bytes@.len(),
            find_nul(bytes@, i as int, stop as int) == target,
            target == find_nul(bytes@, start as int, search_stop(bytes@.len() as int, start as int)),
            stop == search_stop(bytes@.len() as int, start as int),
        decreases stop - i,
    {
        if bytes[i] == 0 {
            assert(find_nul(bytes@, i as int, stop as int) == Some(i as int));
            return Some(i);
        }
        i = i + 1;
    }
    None
}

/// Decodes the terminal-safe string at `offset` of a string table.
pub fn string_at(table: &[u8], offset: u32) -> (r: Result<String, AppError>)
    ensures
        offset > table@.len() ==> r == Err::<String, AppError>(
            AppError::Parse(ParseError::OutOfBounds { what: "section name in string table", offset: offset as u64, size: 1 }),
        ),
        offset <= table@.len() && c_string_at(table@, offset as int) is None ==> r == Err::<String, AppError>(
            AppError::Parse(ParseError::InvalidStringTable("section name")),
        ),
        offset <= table@.len() && c_string_at(table@, offset as int) is Some ==> (r matches Ok(t)
            && t@ == escaped(c_string_at(table@, offset as int)->0)),
{
    let start = offset as usize;
    if start > table.len() {
        return Err(AppError::Parse(ParseError::OutOfBounds { what: "section name in string table", offset: offset as u64, size: 1 }));
    }
    match find_terminator(table, start) {
        Some(end) => Ok(escape_bytes(vstd::slice::slice_subrange(table, start, end))),
        None => Err(AppError::Parse(ParseError::InvalidStringTable("section name"))),
    }
}

/// Decodes the terminal-safe string at the start of `bytes`.
pub fn c_string(bytes: &[u8], what: &'static str) -> (r: Result<String, AppError>)
    ensures
        c_string_at(bytes@, 0) is None ==> r == Err::<String, AppError>(AppError::Parse(ParseError::InvalidStringTable(what))),
        c_string_at(bytes@, 0) matches Some(b) ==> (r matches Ok(t) && t@ == escaped(b)),
{
    match find_terminator(bytes, 0) {
        Some(end) => Ok(escape_bytes(vstd::slice::slice_subrange(bytes, 0, end))),
        None => Err(AppError::Parse(ParseError::InvalidStringTable(what))),
    }
}

/// The failure when decoded text exceeds its budget.
pub open spec fn text_limit_error() -> AppError {
    AppError::Parse(ParseError::LimitExceeded { what: "decoded text size", limit: MAX_TOTAL_TEXT_BYTES })
}

/// Charges a decoded string against the running text budget: the total grows
/// by the text's length, and the text is refused when the new total exceeds
/// the budget (or the addition overflows, which leaves the total unchanged).
///
/// The budget counts characters; the texts charged are escaped, hence ASCII,
/// so characters and bytes coincide.
pub(crate) fn take_text(text: String, total: &mut usize) -> (r: Result<String, AppError>)
    ensures
        old(total) + text@.len() > usize::MAX ==> r == Err::<String, AppError>(
            AppError::Parse(ParseError::IntegerOverflow("decoded text size")),
        ) && *final(total) == *old(total),
        old(total) + text@.len() <= usize::MAX ==> *final(total) == old(total) + text@.len(),
        old(total) + text@.len() <= MAX_TOTAL_TEXT_BYTES ==> r == Ok::<String, AppError>(text),
        MAX_TOTAL_TEXT_BYTES < old(total) + text@.len() <= usize::MAX ==> r == Err::<String, AppError>(text_limit_error()),
{
    let len = text.as_str().unicode_len();
    if len > usize::MAX - *total {
        return Err(AppError::Parse(ParseError::IntegerOverflow("decoded text size")));
    }
    *total = *total + len;
    if *total > MAX_TOTAL_TEXT_BYTES {
        return Err(AppError::Parse(ParseError::LimitExceeded { what: "decoded text size", limit: MAX_TOTAL_TEXT_BYTES }));
    }
    Ok(text)
}

} // verus!
