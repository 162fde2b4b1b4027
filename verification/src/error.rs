//! The error type shared by every operation on an image.
use vstd::prelude::*;
use vstd::string::StringExecFns;

verus! {

/// Everything that can go wrong while decoding an image.
#[derive(Debug, Clone)]
pub enum Error {
    InvalidSuperblock(String),
    InvalidDirentFileType(u8),
    InvalidLayout(u8),
    PathNotFound(String),
    NotAFile(String),
    NotADirectory(String),
    OutOfBounds(String),
    OutOfRange(usize, usize),
    NotSupported(String),
    CorruptedData(String),
}

/// An error without its free-form message: what contracts speak of.
#[derive(Debug, Clone, Copy, PartialEq, Eq, Structural)]
pub enum ErrorKind {
    InvalidSuperblock,
    InvalidDirentFileType(u8),
    InvalidLayout(u8),
    PathNotFound,
    NotAFile,
    NotADirectory,
    OutOfBounds,
    OutOfRange(usize, usize),
    NotSupported,
    CorruptedData,
}

impl Error {
    /// The kind of this error, numeric payloads included.
    pub open spec fn spec_kind(&self) -> ErrorKind {
        match *self {
            Error::InvalidSuperblock(_) => ErrorKind::InvalidSuperblock,
            Error::InvalidDirentFileType(v) => ErrorKind::InvalidDirentFileType(v),
            Error::InvalidLayout(v) => ErrorKind::InvalidLayout(v),
            Error::PathNotFound(_) => ErrorKind::PathNotFound,
            Error::NotAFile(_) => ErrorKind::NotAFile,
            Error::NotADirectory(_) => ErrorKind::NotADirectory,
            Error::OutOfBounds(_) => ErrorKind::OutOfBounds,
            Error::OutOfRange(got, max) => ErrorKind::OutOfRange(got, max),
            Error::NotSupported(_) => ErrorKind::NotSupported,
            Error::CorruptedData(_) => ErrorKind::CorruptedData,
        }
    }

    /// The kind of this error.
    #[verifier::when_used_as_spec(spec_kind)]
    pub fn kind(&self) -> (k: ErrorKind)
        ensures
            k == self.spec_kind(),
    {
        match self {
            Error::InvalidSuperblock(_) => ErrorKind::InvalidSuperblock,
            Error::InvalidDirentFileType(v) => ErrorKind::InvalidDirentFileType(*v),
            Error::InvalidLayout(v) => ErrorKind::InvalidLayout(*v),
            Error::PathNotFound(_) => ErrorKind::PathNotFound,
            Error::NotAFile(_) => ErrorKind::NotAFile,
            Error::NotADirectory(_) => ErrorKind::NotADirectory,
            Error::OutOfBounds(_) => ErrorKind::OutOfBounds,
            Error::OutOfRange(got, max) => ErrorKind::OutOfRange(*got, *max),
            Error::NotSupported(_) => ErrorKind::NotSupported,
            Error::CorruptedData(_) => ErrorKind::CorruptedData,
        }
    }
}

/// An executable result agrees with a specified one: the same value on
/// success, an error of the same kind on failure.
pub open spec fn agrees<T>(r: Result<T, Error>, s: Result<T, ErrorKind>) -> bool {
    match r {
        Ok(v) => s == Ok::<T, ErrorKind>(v),
        Err(e) => s == Err::<T, ErrorKind>(e.kind()),
    }
}

/// The sixteen digits, lower case.
pub open spec fn digits() -> Seq<char> {
    seq!['0', '1', '2', '3', '4', '5', '6', '7', '8', '9', 'a', 'b', 'c', 'd', 'e', 'f']
}

/// A number written in decimal, without leading zeros: the digits of the
/// number without its last digit, where any are left, and the last digit.
pub open spec fn decimal_text(value: u64) -> Seq<char>
    decreases value,
{
    if value < 10 {
        seq![digits()[value as int]]
    } else {
        decimal_text(value / 10).push(digits()[(value % 10) as int])
    }
}

/// A number written in lower-case hexadecimal, without leading zeros.
pub open spec fn hex_text(value: u32) -> Seq<char>
    decreases value,
{
    if value < 16 {
        seq![digits()[value as int]]
    } else {
        hex_text(value / 16).push(digits()[(value % 16) as int])
    }
}

/// `u64::to_string`: the number in decimal, without leading zeros.
#[verifier::external_body]
fn decimal_string(value: u64) -> (r: String)
    ensures
        r@ == decimal_text(value),
{
    value.to_string()
}

/// `format!("{:x}", value)`: the number in lower-case hexadecimal, without
/// leading zeros.
#[verifier::external_body]
fn hex_string(value: u32) -> (r: String)
    ensures
        r@ == hex_text(value),
{
    format!("{:x}", value)
}

/// The three texts, one after the other.
pub(crate) fn message_with_text(prefix: &str, text: &str, suffix: &str) -> (r: String)
    ensures
        r@ == prefix@ + text@ + suffix@,
{
    prefix.to_owned().concat(text).concat(suffix)
}

/// The prefix, the number in decimal, and the suffix, one after the other.
pub(crate) fn message_with_number(prefix: &str, value: u64, suffix: &str) -> (r: String)
    ensures
        r@ == prefix@ + decimal_text(value) + suffix@,
{
    message_with_text(prefix, decimal_string(value).as_str(), suffix)
}

/// The prefix, the characters `0x`, and the number in lower-case hexadecimal.
pub(crate) fn message_with_hex(prefix: &str, value: u32) -> (r: String)
    ensures
        r@ == prefix@ + "0x"@ + hex_text(value),
{
    message_with_text(prefix, "0x", hex_string(value).as_str())
}

impl Error {
    /// The text that describes this error to a reader.
    pub open spec fn spec_message(&self) -> Seq<char> {
        match *self {
            Error::InvalidSuperblock(msg) => "invalid super block: "@ + msg@,
            Error::InvalidDirentFileType(v) => "invalid dirent file type: "@ + decimal_text(
                v as u64,
            ),
            Error::InvalidLayout(v) => "invalid layout: "@ + decimal_text(v as u64),
            Error::PathNotFound(path) => "path not found: "@ + path@,
            Error::NotAFile(msg) => "not a file: "@ + msg@,
            Error::NotADirectory(msg) => "not a directory: "@ + msg@,
            Error::OutOfBounds(msg) => "out of bounds: "@ + msg@,
            Error::OutOfRange(got, max) => "out of range "@ + decimal_text(got as u64) + " of "@
                + decimal_text(max as u64),
            Error::NotSupported(msg) => msg@ + " not supported yet"@,
            Error::CorruptedData(msg) => "corrupted data: "@ + msg@,
        }
    }

    /// Describes this error in words.
    pub fn message(&self) -> (r: String)
        ensures
            r@ == self.spec_message(),
    {
        let r = match self {
            Error::InvalidSuperblock(msg) => message_with_text(
                "invalid super block: ",
                msg.as_str(),
                "",
            ),
            Error::InvalidDirentFileType(v) => message_with_number(
                "invalid dirent file type: ",
                *v as u64,
                "",
            ),
            Error::InvalidLayout(v) => message_with_number("invalid layout: ", *v as u64, ""),
            Error::PathNotFound(path) => message_with_text("path not found: ", path.as_str(), ""),
            Error::NotAFile(msg) => message_with_text("not a file: ", msg.as_str(), ""),
            Error::NotADirectory(msg) => message_with_text("not a directory: ", msg.as_str(), ""),
            Error::OutOfBounds(msg) => message_with_text("out of bounds: ", msg.as_str(), ""),
            Error::OutOfRange(got, max) => {
                let head = message_with_number("out of range ", *got as u64, " of ");
                message_with_number(head.as_str(), *max as u64, "")
            },
            Error::NotSupported(msg) => message_with_text("", msg.as_str(), " not supported yet"),
            Error::CorruptedData(msg) => message_with_text("corrupted data: ", msg.as_str(), ""),
        };
        proof {
            reveal_strlit("");
            assert(r@ =~= self.spec_message());
        }
        r
    }
}

} // verus!
