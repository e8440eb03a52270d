//! Bounded little- and big-endian field reads and range checks over the file bytes.

use vstd::prelude::*;
use crate::error::{AppError, ParseError};
use crate::model::Endianness;

verus! {

/// An arithmetic-overflow parse failure.
pub open spec fn overflow_error(what: &'static str) -> AppError {
    AppError::Parse(ParseError::IntegerOverflow(what))
}

/// An out-of-bounds parse failure.
pub open spec fn out_of_bounds_error(what: &'static str, offset: u64, size: u64) -> AppError {
    AppError::Parse(ParseError::OutOfBounds { what, offset, size })
}

/// The unsigned value of the `n` bytes at `at`, in the given byte order.
pub open spec fn uint_at(s: Seq<u8>, at: int, n: nat, e: Endianness) -> nat
    decreases n,
{
    if n == 0 {
        0
    } else if e is Little {
        s[at] as nat + 256 * uint_at(s, at + 1, (n - 1) as nat, e)
    } else {
        uint_at(s, at, (n - 1) as nat, e) * 256 + s[at + n - 1] as nat
    }
}

/// A 16-bit field.
pub open spec fn u16_at(s: Seq<u8>, at: int, e: Endianness) -> nat {
    if e is Little {
        s[at] as nat + 0x100 * s[at + 1] as nat
    } else {
        0x100 * s[at] as nat + s[at + 1] as nat
    }
}

/// A 32-bit field.
pub open spec fn u32_at(s: Seq<u8>, at: int, e: Endianness) -> nat {
    if e is Little {
        s[at] as nat + 0x100 * s[at + 1] as nat + 0x1_0000 * s[at + 2] as nat + 0x100_0000
            * s[at + 3] as nat
    } else {
        0x100_0000 * s[at] as nat + 0x1_0000 * s[at + 1] as nat + 0x100 * s[at + 2] as nat
            + s[at + 3] as nat
    }
}

/// A 64-bit field.
pub open spec fn u64_at(s: Seq<u8>, at: int, e: Endianness) -> nat {
    if e is Little {
        u32_at(s, at, e) + 0x1_0000_0000 * u32_at(s, at + 4, e)
    } else {
        0x1_0000_0000 * u32_at(s, at, e) + u32_at(s, at + 4, e)
    }
}

/// The failure of a numeric field read of `size` bytes at `offset`.
pub open spec fn field_error(offset: usize, size: usize) -> AppError {
    if offset + size > usize::MAX {
        overflow_error("field offset")
    } else {
        out_of_bounds_error("numeric field", offset as u64, size as u64)
    }
}

/// The result of a field read: the value when the field lies inside `s`.
pub open spec fn field_result<T>(s: Seq<u8>, offset: usize, size: usize, value: T, r: Result<T, AppError>) -> bool {
    &&& offset + size <= s.len() ==> r == Ok::<T, AppError>(value)
    &&& offset + size > s.len() ==> r == Err::<T, AppError>(field_error(offset, size))
}

/// The `size` bytes at `offset`, checked against the bounds of `bytes`.
pub fn field(bytes: &[u8], offset: usize, size: usize) -> (r: Result<&[u8], AppError>)
    ensures
        offset + size <= bytes@.len() ==> (r matches Ok(f) && f@ == bytes@.subrange(offset as int, offset + size)),
        offset + size > bytes@.len() ==> r == Err::<&[u8], AppError>(field_error(offset, size)),
{
    let len = bytes.len();
    if offset > usize::MAX - size {
        return Err(AppError::Parse(ParseError::IntegerOverflow("field offset")));
    }
    let end = offset + size;
    if end > len {
        return Err(
            AppError::Parse(
                ParseError::OutOfBounds {
                    what: "numeric field",
                    offset: offset as u64,
                    size: size as u64,
                },
            ),
        );
    }
    Ok(vstd::slice::slice_subrange(bytes, offset, end))
}

fn field_failure(offset: usize, size: usize) -> (e: AppError)
    ensures
        e == field_error(offset, size),
{
    if offset > usize::MAX - size {
        AppError::Parse(ParseError::IntegerOverflow("field offset"))
    } else {
        AppError::Parse(
            ParseError::OutOfBounds { what: "numeric field", offset: offset as u64, size: size as u64 },
        )
    }
}

/// Reads a 16-bit field.
pub fn read_u16(bytes: &[u8], offset: usize, endianness: &Endianness) -> (r: Result<u16, AppError>)
    ensures
        field_result(bytes@, offset, 2, u16_at(bytes@, offset as int, *endianness) as u16, r),
        r matches Ok(v) ==> v == u16_at(bytes@, offset as int, *endianness),
{
    let f = field(bytes, offset, 2)?;
    let b0 = f[0] as u16;
    let b1 = f[1] as u16;
    match endianness {
        Endianness::Little => Ok(b0 + 0x100 * b1),
        Endianness::Big => Ok(0x100 * b0 + b1),
    }
}

/// Reads a 32-bit field.
pub fn read_u32(bytes: &[u8], offset: usize, endianness: &Endianness) -> (r: Result<u32, AppError>)
    ensures
        field_result(bytes@, offset, 4, u32_at(bytes@, offset as int, *endianness) as u32, r),
        r matches Ok(v) ==> v == u32_at(bytes@, offset as int, *endianness),
{
    let f = field(bytes, offset, 4)?;
    let b0 = f[0] as u32;
    let b1 = f[1] as u32;
    let b2 = f[2] as u32;
    let b3 = f[3] as u32;
    match endianness {
        Endianness::Little => Ok(b0 + 0x100 * b1 + 0x1_0000 * b2 + 0x100_0000 * b3),
        Endianness::Big => Ok(0x100_0000 * b0 + 0x1_0000 * b1 + 0x100 * b2 + b3),
    }
}

/// Reads a signed 32-bit field (two's complement).
pub fn read_i32(bytes: &[u8], offset: usize, endianness: &Endianness) -> (r: Result<i32, AppError>)
    ensures
        field_result(bytes@, offset, 4, (u32_at(bytes@, offset as int, *endianness) as u32) as i32, r),
{
    let v = read_u32(bytes, offset, endianness)?;
    Ok(v as i32)
}

/// Reads a 64-bit field.
pub fn read_u64(bytes: &[u8], offset: usize, endianness: &Endianness) -> (r: Result<u64, AppError>)
    ensures
        field_result(bytes@, offset, 8, u64_at(bytes@, offset as int, *endianness) as u64, r),
        r matches Ok(v) ==> v == u64_at(bytes@, offset as int, *endianness),
{
    let checked = field(bytes, offset, 8);
    if checked.is_err() {
        return Err(field_failure(offset, 8));
    }
    let len = bytes.len();
    assert(offset + 8 <= len);
    let lo = read_u32(bytes, offset, endianness)?;
    let hi = read_u32(bytes, offset + 4, endianness)?;
    match endianness {
        Endianness::Little => Ok(lo as u64 + 0x1_0000_0000 * (hi as u64)),
        Endianness::Big => Ok(0x1_0000_0000 * (lo as u64) + hi as u64),
    }
}

/// Reads a signed 64-bit field (two's complement).
pub fn read_i64(bytes: &[u8], offset: usize, endianness: &Endianness) -> (r: Result<i64, AppError>)
    ensures
        field_result(bytes@, offset, 8, (u64_at(bytes@, offset as int, *endianness) as u64) as i64, r),
{
    let v = read_u64(bytes, offset, endianness)?;
    Ok(v as i64)
}

/// Whether `size` bytes at `offset` lie inside a file of `len` bytes.
pub open spec fn range_in_file(len: nat, offset: u64, size: u64) -> bool {
    offset + size <= len
}

/// The failure of a range check that does not fit the file.
pub open spec fn range_error(what: &'static str, offset: u64, size: u64) -> AppError {
    if offset + size > u64::MAX {
        overflow_error(what)
    } else {
        out_of_bounds_error(what, offset, size)
    }
}

/// The bytes of a file range, checked against the file's bounds.
pub fn file_slice<'a>(bytes: &'a [u8], offset: u64, size: u64, what: &'static str) -> (r: Result<&'a [u8], AppError>)
    ensures
        range_in_file(bytes@.len(), offset, size) ==> (r matches Ok(s) && s@ == bytes@.subrange(
            offset as int,
            offset + size,
        )),
        !range_in_file(bytes@.len(), offset, size) ==> r == Err::<&[u8], AppError>(range_error(what, offset, size)),
{
    let len = bytes.len() as u64;
    if offset > u64::MAX - size {
        return Err(AppError::Parse(ParseError::IntegerOverflow(what)));
    }
    let end = offset + size;
    if end > len {
        return Err(AppError::Parse(ParseError::OutOfBounds { what, offset, size }));
    }
    Ok(vstd::slice::slice_subrange(bytes, offset as usize, end as usize))
}

/// The failure built by `malformed`: a `Malformed` error with the `malformed ELF: ` prefix.
pub open spec fn is_malformed(e: AppError, message: Seq<char>) -> bool {
    e matches AppError::Parse(ParseError::Malformed(m)) && m@ == "malformed ELF: "@ + message
}

/// A `Malformed` parse failure carrying `message`.
pub fn malformed(message: &str) -> (e: AppError)
    ensures
        is_malformed(e, message@),
{
    let mut text = String::from_str("malformed ELF: ");
    text.append(message);
    AppError::Parse(ParseError::Malformed(text))
}

} // verus!
