//! Application error types and process-exit classification.

use vstd::prelude::*;
use crate::fmt::{decimal, push_decimal, push_str};

verus! {

#[verifier::external_type_specification]
#[verifier::external_body]
pub struct ExIoError(std::io::Error);

/// Detailed reasons why parsing an ELF binary failed.
#[derive(Debug, Clone, PartialEq, Eq)]
pub enum ParseError {
    /// The file is shorter than the minimum ELF header length.
    FileTooShort {
        /// The number of bytes available in the file.
        actual: usize,
        /// The minimum number of bytes required.
        expected: usize,
    },
    /// The file does not begin with the ELF magic bytes `\x7fELF`.
    InvalidMagic,
    /// The ELF specification version is not supported.
    UnsupportedVersion(u8),
    /// The ELF bitness/class is not supported.
    UnsupportedClass(u8),
    /// The ELF data encoding/endianness is not supported.
    UnsupportedEndianness(u8),
    /// An offset or slice extends beyond the bounds of the binary buffer.
    OutOfBounds {
        /// Description of the field or structure being accessed.
        what: &'static str,
        /// Starting offset of the requested slice.
        offset: u64,
        /// Size in bytes of the requested slice.
        size: u64,
    },
    /// Integer overflow occurred during offset or size arithmetic.
    IntegerOverflow(&'static str),
    /// A header, table, or entry contains invalid or malformed field values.
    InvalidHeader {
        /// Component or table name.
        what: &'static str,
        /// Explanation of why the header is invalid.
        detail: String,
    },
    /// A string table entry is malformed or not null-terminated within limits.
    InvalidStringTable(&'static str),
    /// An analysis limit was reached (e.g. max string size, note count, decoded text size).
    LimitExceeded {
        /// Description of the limit.
        what: &'static str,
        /// The maximum allowed value.
        limit: usize,
    },
    /// General malformed or corrupt ELF data.
    Malformed(String),
}

/// The title and advice shown for a parse failure.
pub open spec fn parse_guidance(e: ParseError) -> (&'static str, &'static str) {
    match e {
        ParseError::FileTooShort { .. } => (
            "File Too Small",
            "The file is smaller than the minimum 16-byte ELF identification header.",
        ),
        ParseError::InvalidMagic => (
            "Not an ELF Binary",
            "The file does not start with standard ELF magic (\\x7fELF). Windows (.exe) and macOS (Mach-O) binaries are not supported.",
        ),
        ParseError::UnsupportedVersion(_) => (
            "Unsupported ELF Version",
            "Only standard ELF version 1 (EV_CURRENT) is supported.",
        ),
        ParseError::UnsupportedClass(_) => (
            "Unsupported ELF Class",
            "Only ELF32 (32-bit) and ELF64 (64-bit) binary formats are supported.",
        ),
        ParseError::UnsupportedEndianness(_) => (
            "Unsupported Endianness",
            "Only Little-Endian (ELFDATA2LSB) and Big-Endian (ELFDATA2MSB) formats are supported.",
        ),
        ParseError::OutOfBounds { .. } => (
            "Corrupted or Truncated Binary",
            "A header, section, or segment offset extends past the end of the file.",
        ),
        ParseError::IntegerOverflow(_) => (
            "Header Arithmetic Overflow",
            "An offset or table size computation overflowed, indicating a malformed or adversarial header.",
        ),
        ParseError::InvalidHeader { .. } => (
            "Malformed Header",
            "A header field or table entry violates ELF structural constraints.",
        ),
        ParseError::InvalidStringTable(_) => (
            "Corrupted String Table",
            "A required string was not null-terminated or exceeded the inspection limit.",
        ),
        ParseError::LimitExceeded { .. } => (
            "Safety Limit Exceeded",
            "An internal table or string exceeded the safety limit designed to prevent denial-of-service.",
        ),
        ParseError::Malformed(_) => (
            "Malformed ELF Structure",
            "The binary file failed ELF specification validation.",
        ),
    }
}

/// The one-line description of a parse failure.
pub open spec fn parse_message(e: ParseError) -> Seq<char> {
    match e {
        ParseError::FileTooShort { actual, expected } =>
            "file is shorter than the ELF identifier ("@ + decimal(actual as nat)
                + " bytes, expected at least "@ + decimal(expected as nat) + ")"@,
        ParseError::InvalidMagic => "not an ELF file (missing \\x7fELF magic)"@,
        ParseError::UnsupportedVersion(v) => "unsupported ELF identifier version "@ + decimal(v as nat),
        ParseError::UnsupportedClass(v) => "unsupported ELF class "@ + decimal(v as nat),
        ParseError::UnsupportedEndianness(v) => "unsupported ELF endianness "@ + decimal(v as nat),
        ParseError::OutOfBounds { what, offset, size } =>
            what@ + " at offset "@ + decimal(offset as nat) + " (size "@ + decimal(size as nat)
                + " bytes) is outside the file"@,
        ParseError::IntegerOverflow(what) => "integer overflow calculating "@ + what@,
        ParseError::InvalidHeader { what, detail } => "invalid "@ + what@ + ": "@ + detail@,
        ParseError::InvalidStringTable(what) => what@ + " is unterminated or exceeds inspection limit"@,
        ParseError::LimitExceeded { what, limit } =>
            what@ + " exceeds limit of "@ + decimal(limit as nat),
        ParseError::Malformed(message) => message@,
    }
}

impl ParseError {
    /// Returns a categorized title and actionable remediation advice for UI presentation.
    pub fn guidance(&self) -> (r: (&'static str, &'static str))
        ensures
            r == parse_guidance(*self),
    {
        match self {
            ParseError::FileTooShort { .. } => (
                "File Too Small",
                "The file is smaller than the minimum 16-byte ELF identification header.",
            ),
            ParseError::InvalidMagic => (
                "Not an ELF Binary",
                "The file does not start with standard ELF magic (\\x7fELF). Windows (.exe) and macOS (Mach-O) binaries are not supported.",
            ),
            ParseError::UnsupportedVersion(_) => (
                "Unsupported ELF Version",
                "Only standard ELF version 1 (EV_CURRENT) is supported.",
            ),
            ParseError::UnsupportedClass(_) => (
                "Unsupported ELF Class",
                "Only ELF32 (32-bit) and ELF64 (64-bit) binary formats are supported.",
            ),
            ParseError::UnsupportedEndianness(_) => (
                "Unsupported Endianness",
                "Only Little-Endian (ELFDATA2LSB) and Big-Endian (ELFDATA2MSB) formats are supported.",
            ),
            ParseError::OutOfBounds { .. } => (
                "Corrupted or Truncated Binary",
                "A header, section, or segment offset extends past the end of the file.",
            ),
            ParseError::IntegerOverflow(_) => (
                "Header Arithmetic Overflow",
                "An offset or table size computation overflowed, indicating a malformed or adversarial header.",
            ),
            ParseError::InvalidHeader { .. } => (
                "Malformed Header",
                "A header field or table entry violates ELF structural constraints.",
            ),
            ParseError::InvalidStringTable(_) => (
                "Corrupted String Table",
                "A required string was not null-terminated or exceeded the inspection limit.",
            ),
            ParseError::LimitExceeded { .. } => (
                "Safety Limit Exceeded",
                "An internal table or string exceeded the safety limit designed to prevent denial-of-service.",
            ),
            ParseError::Malformed(_) => (
                "Malformed ELF Structure",
                "The binary file failed ELF specification validation.",
            ),
        }
    }

    /// The human-readable description of this error (its display text).
    pub fn message(&self) -> (s: String)
        ensures
            s@ == parse_message(*self),
    {
        let mut s = String::new();
        match self {
            ParseError::FileTooShort { actual, expected } => {
                push_str(&mut s, "file is shorter than the ELF identifier (");
                push_decimal(&mut s, *actual as u64);
                push_str(&mut s, " bytes, expected at least ");
                push_decimal(&mut s, *expected as u64);
                push_str(&mut s, ")");
            },
            ParseError::InvalidMagic => {
                push_str(&mut s, "not an ELF file (missing \\x7fELF magic)");
            },
            ParseError::UnsupportedVersion(v) => {
                push_str(&mut s, "unsupported ELF identifier version ");
                push_decimal(&mut s, *v as u64);
            },
            ParseError::UnsupportedClass(v) => {
                push_str(&mut s, "unsupported ELF class ");
                push_decimal(&mut s, *v as u64);
            },
            ParseError::UnsupportedEndianness(v) => {
                push_str(&mut s, "unsupported ELF endianness ");
                push_decimal(&mut s, *v as u64);
            },
            ParseError::OutOfBounds { what, offset, size } => {
                push_str(&mut s, what);
                push_str(&mut s, " at offset ");
                push_decimal(&mut s, *offset);
                push_str(&mut s, " (size ");
                push_decimal(&mut s, *size);
                push_str(&mut s, " bytes) is outside the file");
            },
            ParseError::IntegerOverflow(what) => {
                push_str(&mut s, "integer overflow calculating ");
                push_str(&mut s, what);
            },
            ParseError::InvalidHeader { what, detail } => {
                push_str(&mut s, "invalid ");
                push_str(&mut s, what);
                push_str(&mut s, ": ");
                push_str(&mut s, detail.as_str());
            },
            ParseError::InvalidStringTable(what) => {
                push_str(&mut s, what);
                push_str(&mut s, " is unterminated or exceeds inspection limit");
            },
            ParseError::LimitExceeded { what, limit } => {
                push_str(&mut s, what);
                push_str(&mut s, " exceeds limit of ");
                push_decimal(&mut s, *limit as u64);
            },
            ParseError::Malformed(message) => {
                push_str(&mut s, message.as_str());
            },
        }
        assert(s@ =~= parse_message(*self));
        s
    }
}

/// A failure encountered while inspecting a file.
#[derive(Debug)]
pub enum AppError {
    /// An I/O error encountered while accessing or opening the file.
    Io(std::io::Error),
    /// The target path is not a regular file (e.g. symlink, directory, FIFO, or socket).
    InvalidFileType(String),
    /// The input file exceeds the safe inspection size limit.
    FileTooLarge {
        /// Actual file size in bytes.
        size: u64,
        /// Maximum allowed file size in bytes.
        limit: u64,
    },
    /// The input is not a supported or valid ELF binary.
    Parse(ParseError),
}

/// The documented process exit code of an error.
pub open spec fn exit_code_of(e: AppError) -> i32 {
    match e {
        AppError::Io(_) | AppError::InvalidFileType(_) => 2,
        AppError::FileTooLarge { .. } | AppError::Parse(_) => 3,
    }
}

/// The title and advice shown for an inspection failure.
pub open spec fn app_guidance(e: AppError) -> (&'static str, &'static str) {
    match e {
        AppError::Io(_) => (
            "Filesystem I/O Error",
            "Could not read the file from disk. Check file existence and read permissions.",
        ),
        AppError::InvalidFileType(_) => (
            "Unsupported File Type",
            "BinaryInspector requires regular files. Symlinks, directories, FIFOs, and special devices are not supported.",
        ),
        AppError::FileTooLarge { .. } => (
            "File Size Limit Exceeded",
            "The file exceeds the maximum inspection limit (512 MiB).",
        ),
        AppError::Parse(p) => parse_guidance(p),
    }
}

impl AppError {
    /// Returns the documented process exit code for this error.
    pub fn exit_code(&self) -> (code: i32)
        ensures
            code == exit_code_of(*self),
    {
        match self {
            AppError::Io(_) | AppError::InvalidFileType(_) => 2,
            AppError::FileTooLarge { .. } | AppError::Parse(_) => 3,
        }
    }

    /// Returns a categorized title and actionable remediation advice for UI presentation.
    pub fn guidance(&self) -> (r: (&'static str, &'static str))
        ensures
            r == app_guidance(*self),
    {
        match self {
            AppError::Io(_) => (
                "Filesystem I/O Error",
                "Could not read the file from disk. Check file existence and read permissions.",
            ),
            AppError::InvalidFileType(_) => (
                "Unsupported File Type",
                "BinaryInspector requires regular files. Symlinks, directories, FIFOs, and special devices are not supported.",
            ),
            AppError::FileTooLarge { .. } => (
                "File Size Limit Exceeded",
                "The file exceeds the maximum inspection limit (512 MiB).",
            ),
            AppError::Parse(parse_err) => parse_err.guidance(),
        }
    }

    /// Whether this error wraps an underlying cause (an I/O or a parse error).
    pub fn has_source(&self) -> (b: bool)
        ensures
            b == (*self is Io || *self is Parse),
    {
        match self {
            AppError::Io(_) | AppError::Parse(_) => true,
            AppError::InvalidFileType(_) | AppError::FileTooLarge { .. } => false,
        }
    }
}

impl From<ParseError> for AppError {
    fn from(error: ParseError) -> (e: AppError) {
        AppError::Parse(error)
    }
}

impl vstd::std_specs::convert::FromSpecImpl<ParseError> for AppError {
    open spec fn obeys_from_spec() -> bool {
        true
    }

    open spec fn from_spec(v: ParseError) -> AppError {
        AppError::Parse(v)
    }
}

impl From<std::io::Error> for AppError {
    fn from(error: std::io::Error) -> (e: AppError) {
        AppError::Io(error)
    }
}

impl vstd::std_specs::convert::FromSpecImpl<std::io::Error> for AppError {
    open spec fn obeys_from_spec() -> bool {
        true
    }

    open spec fn from_spec(v: std::io::Error) -> AppError {
        AppError::Io(v)
    }
}

/// The display text of an error, given the display text `io_text` of the
/// I/O error it wraps, if any.
pub open spec fn app_message(e: AppError, io_text: Seq<char>) -> Seq<char> {
    match e {
        AppError::Io(_) => "I/O error: "@ + io_text,
        AppError::InvalidFileType(m) => "invalid file: "@ + m@,
        AppError::FileTooLarge { size, limit } => "file size ("@ + decimal(size as nat) + " bytes) exceeds inspection limit ("@
            + decimal(limit as nat) + " bytes)"@,
        AppError::Parse(p) => "parse error: "@ + parse_message(p),
    }
}

/// The display text of an I/O error (`ToString::to_string` through its `Display`).
///
/// Nothing is stated of the text: it comes from the operating system's
/// description of the error.
#[verifier::external_body]
fn io_error_text(error: &std::io::Error) -> (s: String) {
    error.to_string()
}

impl AppError {
    /// The display text of this error, with `io_text` standing for the
    /// display text of a wrapped I/O error.
    pub fn message_with(&self, io_text: &str) -> (s: String)
        ensures
            s@ == app_message(*self, io_text@),
    {
        let mut s = String::new();
        match self {
            AppError::Io(_) => {
                push_str(&mut s, "I/O error: ");
                push_str(&mut s, io_text);
            },
            AppError::InvalidFileType(message) => {
                push_str(&mut s, "invalid file: ");
                push_str(&mut s, message.as_str());
            },
            AppError::FileTooLarge { size, limit } => {
                push_str(&mut s, "file size (");
                push_decimal(&mut s, *size);
                push_str(&mut s, " bytes) exceeds inspection limit (");
                push_decimal(&mut s, *limit);
                push_str(&mut s, " bytes)");
            },
            AppError::Parse(error) => {
                push_str(&mut s, "parse error: ");
                let m = error.message();
                push_str(&mut s, m.as_str());
            },
        }
        assert(s@ =~= app_message(*self, io_text@));
        s
    }

    /// The display text of this error.
    pub fn message(&self) -> (s: String)
        ensures
            exists|io_text: Seq<char>| s@ == app_message(*self, io_text),
            !(*self is Io) ==> s@ == app_message(*self, Seq::empty()),
    {
        let io_text = match self {
            AppError::Io(error) => io_error_text(error),
            _ => String::new(),
        };
        self.message_with(io_text.as_str())
    }

    /// The failure of opening an inspection target: a refused symbolic link
    /// (the open hit a link while links are not followed) is an invalid file,
    /// anything else is an I/O error.
    pub fn from_open_failure(error: std::io::Error, symlink_refused: bool) -> (e: AppError)
        ensures
            symlink_refused ==> (e matches AppError::InvalidFileType(m) && m@ == "symbolic links are not accepted"@),
            !symlink_refused ==> e == AppError::Io(error),
    {
        if symlink_refused {
            AppError::InvalidFileType(String::from_str("symbolic links are not accepted"))
        } else {
            AppError::Io(error)
        }
    }
}

} // verus!

verus! {

/// Exit codes follow the documented table: file-system errors, including a
/// target that is not a regular file, exit with 2; malformed, truncated,
/// unsupported or oversized input exits with 3; no error takes the codes 0
/// (success) or 1 (usage).
pub proof fn exit_codes_follow_documentation(e: AppError)
    ensures
        e is Io ==> exit_code_of(e) == 2,
        e is InvalidFileType ==> exit_code_of(e) == 2,
        e is Parse ==> exit_code_of(e) == 3,
        e is FileTooLarge ==> exit_code_of(e) == 3,
        exit_code_of(e) != 0 && exit_code_of(e) != 1,
{
}

} // verus!
