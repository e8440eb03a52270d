use std::io;

use binary_inspector::error::{AppError, ParseError};

#[test]
fn test_parse_error_guidance_and_display() {
    let err = ParseError::InvalidMagic;
    assert_eq!(err.guidance().0, "Not an ELF Binary");
    assert!(err.message().contains("missing \\x7fELF magic"));

    let err = ParseError::FileTooShort { actual: 8, expected: 16 };
    assert_eq!(err.guidance().0, "File Too Small");
    assert!(err.message().contains("8 bytes, expected at least 16"));

    let err = ParseError::UnsupportedClass(99);
    assert_eq!(err.guidance().0, "Unsupported ELF Class");
    assert!(err.message().contains("unsupported ELF class 99"));

    let err = ParseError::UnsupportedVersion(2);
    assert_eq!(err.guidance().0, "Unsupported ELF Version");

    let err = ParseError::UnsupportedEndianness(3);
    assert_eq!(err.guidance().0, "Unsupported Endianness");

    let err = ParseError::OutOfBounds { what: "section header", offset: 1000, size: 64 };
    assert_eq!(err.guidance().0, "Corrupted or Truncated Binary");
    assert!(err.message().contains("section header at offset 1000"));

    let err = ParseError::IntegerOverflow("section table offset");
    assert_eq!(err.guidance().0, "Header Arithmetic Overflow");

    let err = ParseError::InvalidHeader { what: "program header", detail: "entry size too small".to_string() };
    assert_eq!(err.guidance().0, "Malformed Header");

    let err = ParseError::InvalidStringTable("symbol name");
    assert_eq!(err.guidance().0, "Corrupted String Table");

    let err = ParseError::LimitExceeded { what: "note entries", limit: 8192 };
    assert_eq!(err.guidance().0, "Safety Limit Exceeded");

    let err = ParseError::Malformed("invalid segment alignment".to_string());
    assert_eq!(err.guidance().0, "Malformed ELF Structure");
    assert_eq!(err.message(), "invalid segment alignment");
}

#[test]
fn test_app_error_exit_codes_and_source() {
    let io_err = AppError::Io(io::Error::new(io::ErrorKind::NotFound, "file not found"));
    assert_eq!(io_err.exit_code(), 2);
    assert!(io_err.has_source());
    assert_eq!(io_err.guidance().0, "Filesystem I/O Error");

    let file_type_err = AppError::InvalidFileType("symbolic links not allowed".to_string());
    assert_eq!(file_type_err.exit_code(), 2);
    assert!(!file_type_err.has_source());
    assert_eq!(file_type_err.guidance().0, "Unsupported File Type");

    let file_large_err = AppError::FileTooLarge { size: 1000, limit: 500 };
    assert_eq!(file_large_err.exit_code(), 3);
    assert!(!file_large_err.has_source());
    assert_eq!(file_large_err.guidance().0, "File Size Limit Exceeded");

    let parse_err: AppError = ParseError::InvalidMagic.into();
    assert_eq!(parse_err.exit_code(), 3);
    assert!(parse_err.has_source());
    assert_eq!(parse_err.guidance().0, "Not an ELF Binary");
}
