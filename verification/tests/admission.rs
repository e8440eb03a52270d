use std::io;

use binary_inspector::error::{AppError, ParseError};
use binary_inspector::input::{check_contents, check_target, MAX_FILE_BYTES};

#[test]
fn the_size_limit_is_512_mib() {
    assert_eq!(MAX_FILE_BYTES, 512 * 1024 * 1024);
}

#[test]
fn refuses_symbolic_links_first() {
    match check_target(true, false, 10) {
        Err(AppError::InvalidFileType(message)) => assert_eq!(message, "symbolic links are not accepted"),
        other => panic!("unexpected {:?}", other),
    }
}

#[test]
fn refuses_anything_but_regular_files() {
    match check_target(false, false, 10) {
        Err(AppError::InvalidFileType(message)) => assert_eq!(
            message,
            "target must be a regular file (directories, FIFOs, and special devices are not supported)"
        ),
        other => panic!("unexpected {:?}", other),
    }
}

#[test]
fn refuses_files_over_the_limit() {
    assert!(check_target(false, true, MAX_FILE_BYTES).is_ok());
    match check_target(false, true, MAX_FILE_BYTES + 1) {
        Err(AppError::FileTooLarge { size, limit }) => {
            assert_eq!(size, MAX_FILE_BYTES + 1);
            assert_eq!(limit, MAX_FILE_BYTES);
        },
        other => panic!("unexpected {:?}", other),
    }
}

#[test]
fn accepts_contents_within_the_limit() {
    let bytes = vec![1_u8, 2, 3];
    assert_eq!(check_contents(bytes.clone()).ok(), Some(bytes));
}

#[test]
fn open_failures_are_classified() {
    let refused = AppError::from_open_failure(io::Error::new(io::ErrorKind::Other, "loop"), true);
    assert!(matches!(refused, AppError::InvalidFileType(ref m) if m == "symbolic links are not accepted"));
    assert_eq!(refused.exit_code(), 2);
    let missing = AppError::from_open_failure(io::Error::new(io::ErrorKind::NotFound, "gone"), false);
    assert!(matches!(missing, AppError::Io(_)));
    assert_eq!(missing.exit_code(), 2);
}

#[test]
fn messages_of_every_failure() {
    let io_err = AppError::Io(io::Error::new(io::ErrorKind::NotFound, "file not found"));
    assert_eq!(io_err.message(), "I/O error: file not found");
    assert_eq!(io_err.message_with("denied"), "I/O error: denied");
    let invalid = AppError::InvalidFileType("symbolic links are not accepted".to_string());
    assert_eq!(invalid.message(), "invalid file: symbolic links are not accepted");
    let large = AppError::FileTooLarge { size: 1000, limit: 500 };
    assert_eq!(large.message(), "file size (1000 bytes) exceeds inspection limit (500 bytes)");
    let parse: AppError = ParseError::InvalidMagic.into();
    assert_eq!(parse.message(), "parse error: not an ELF file (missing \\x7fELF magic)");
    let from_io: AppError = io::Error::new(io::ErrorKind::Other, "boom").into();
    assert!(matches!(from_io, AppError::Io(_)));
}

#[test]
fn parse_error_texts() {
    assert_eq!(
        ParseError::FileTooShort { actual: 8, expected: 16 }.message(),
        "file is shorter than the ELF identifier (8 bytes, expected at least 16)"
    );
    assert_eq!(ParseError::UnsupportedVersion(2).message(), "unsupported ELF identifier version 2");
    assert_eq!(ParseError::UnsupportedEndianness(3).message(), "unsupported ELF endianness 3");
    assert_eq!(
        ParseError::OutOfBounds { what: "section header", offset: 1000, size: 64 }.message(),
        "section header at offset 1000 (size 64 bytes) is outside the file"
    );
    assert_eq!(
        ParseError::IntegerOverflow("section table offset").message(),
        "integer overflow calculating section table offset"
    );
    assert_eq!(
        ParseError::InvalidHeader { what: "program header", detail: "entry size too small".to_string() }.message(),
        "invalid program header: entry size too small"
    );
    assert_eq!(
        ParseError::InvalidStringTable("symbol name").message(),
        "symbol name is unterminated or exceeds inspection limit"
    );
    assert_eq!(
        ParseError::LimitExceeded { what: "note entries", limit: 8192 }.message(),
        "note entries exceeds limit of 8192"
    );
}

#[test]
fn exit_codes_follow_the_documented_table() {
    assert_eq!(AppError::InvalidFileType(String::new()).exit_code(), 2);
    assert_eq!(AppError::Parse(ParseError::Malformed(String::new())).exit_code(), 3);
    assert_eq!(AppError::FileTooLarge { size: 2, limit: 1 }.guidance().1, "The file exceeds the maximum inspection limit (512 MiB).");
}
