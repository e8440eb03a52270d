//! Admission checks for inspection targets: only regular, non-symlink files
//! of bounded size are read.

use vstd::prelude::*;
use crate::error::AppError;

verus! {

/// The largest file, in bytes, that is read for inspection (512 MiB).
pub const MAX_FILE_BYTES: u64 = 536870912;

/// Checks the metadata of an opened target before any of it is read.
///
/// A symbolic link or anything other than a regular file is an invalid file;
/// a regular file longer than [`MAX_FILE_BYTES`] is too large.
pub fn check_target(is_symlink: bool, is_file: bool, len: u64) -> (r: Result<(), AppError>)
    ensures
        is_symlink ==> (r matches Err(AppError::InvalidFileType(m)) && m@ == "symbolic links are not accepted"@),
        !is_symlink && !is_file ==> (r matches Err(AppError::InvalidFileType(m)) && m@
            == "target must be a regular file (directories, FIFOs, and special devices are not supported)"@),
        !is_symlink && is_file && len > MAX_FILE_BYTES ==> r == Err::<(), AppError>(
            AppError::FileTooLarge { size: len, limit: MAX_FILE_BYTES },
        ),
        r is Ok <==> !is_symlink && is_file && len <= MAX_FILE_BYTES,
{
    if is_symlink {
        return Err(AppError::InvalidFileType(String::from_str("symbolic links are not accepted")));
    }
    if !is_file {
        return Err(
            AppError::InvalidFileType(
                String::from_str(
                    "target must be a regular file (directories, FIFOs, and special devices are not supported)",
                ),
            ),
        );
    }
    if len > MAX_FILE_BYTES {
        return Err(AppError::FileTooLarge { size: len, limit: MAX_FILE_BYTES });
    }
    Ok(())
}

/// Accepts the bytes read from a target when they are within the size limit.
///
/// The read itself is bounded to one byte more than the limit, so a file that
/// grew after its metadata was checked is still refused here.
pub fn check_contents(bytes: Vec<u8>) -> (r: Result<Vec<u8>, AppError>)
    ensures
        bytes@.len() <= MAX_FILE_BYTES ==> r == Ok::<Vec<u8>, AppError>(bytes),
        bytes@.len() > MAX_FILE_BYTES ==> r == Err::<Vec<u8>, AppError>(
            AppError::FileTooLarge { size: bytes@.len() as u64, limit: MAX_FILE_BYTES },
        ),
{
    if bytes.len() as u64 > MAX_FILE_BYTES {
        return Err(AppError::FileTooLarge { size: bytes.len() as u64, limit: MAX_FILE_BYTES });
    }
    Ok(bytes)
}

} // verus!

verus! {

/// The admission cap is 512 MiB: a regular, non-symlink target is admitted
/// exactly when it holds at most 512 × 1024 × 1024 bytes.
pub proof fn admission_cap_is_512_mib(len: u64)
    ensures
        MAX_FILE_BYTES == 512 * 1024 * 1024,
        len <= MAX_FILE_BYTES <==> len <= 536_870_912,
{
}

} // verus!
