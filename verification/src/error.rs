//! Errors of the protocol and of the transport below it.

use vstd::prelude::*;
use vstd::string::*;

use crate::constants::{
    SSH_FX_BAD_MESSAGE, SSH_FX_BYTE_RANGE_LOCK_CONFLICT, SSH_FX_BYTE_RANGE_LOCK_REFUSED,
    SSH_FX_CANNOT_DELETE, SSH_FX_CONNECTION_LOST, SSH_FX_DELETE_PENDING, SSH_FX_DIR_NOT_EMPTY,
    SSH_FX_EOF, SSH_FX_FAILURE, SSH_FX_FILE_ALREADY_EXISTS, SSH_FX_FILE_CORRUPT,
    SSH_FX_FILE_IS_A_DIRECTORY, SSH_FX_GROUP_INVALID, SSH_FX_INVALID_FILENAME,
    SSH_FX_INVALID_HANDLE, SSH_FX_INVALID_PARAMETER, SSH_FX_LINK_LOOP, SSH_FX_LOCK_CONFLICT,
    SSH_FX_NOT_A_DIRECTORY, SSH_FX_NO_CONNECTION, SSH_FX_NO_MATCHING_BYTE_RANGE_LOCK,
    SSH_FX_NO_MEDIA, SSH_FX_NO_SPACE_ON_FILESYSTEM, SSH_FX_NO_SUCH_FILE, SSH_FX_NO_SUCH_PATH,
    SSH_FX_OK, SSH_FX_OP_UNSUPPORTED, SSH_FX_OWNER_INVALID, SSH_FX_PERMISSION_DENIED,
    SSH_FX_QUOTA_EXCEEDED, SSH_FX_UNKNOWN_PRINCIPAL, SSH_FX_WRITE_PROTECT,
};
use crate::text::{decimal, push_decimal};

verus! {

/// What kind of transport failure an [`IoError`] is.
#[derive(Clone, Copy, Debug, PartialEq, Eq, Structural)]
pub enum IoErrorKind {
    NotFound,
    PermissionDenied,
    ConnectionReset,
    NotConnected,
    AlreadyExists,
    InvalidInput,
    InvalidData,
    UnexpectedEof,
    Other,
}

/// A failure of the transport, or of the bytes that came over it.
#[derive(Debug)]
pub struct IoError {
    pub kind: IoErrorKind,
    pub message: String,
}

/// The contents of an [`IoError`].
pub struct IoErrorView {
    pub kind: IoErrorKind,
    pub message: Seq<char>,
}

impl View for IoError {
    type V = IoErrorView;

    open spec fn view(&self) -> IoErrorView {
        IoErrorView { kind: self.kind, message: self.message@ }
    }
}

impl IoError {
    /// An error of this kind.
    pub fn new(kind: IoErrorKind, message: String) -> (e: IoError)
        ensures
            e@ == (IoErrorView { kind, message: message@ }),
    {
        IoError { kind, message }
    }

    /// An error of no particular kind.
    pub fn other(message: String) -> (e: IoError)
        ensures
            e@ == other_error(message@),
    {
        IoError { kind: IoErrorKind::Other, message }
    }

    /// The input ended before the bytes that were asked for.
    pub fn unexpected_eof() -> (e: IoError)
        ensures
            e@ == eof_error(),
    {
        IoError {
            kind: IoErrorKind::UnexpectedEof,
            message: String::from_str("failed to fill whole buffer"),
        }
    }
}

/// An error of no particular kind.
pub open spec fn other_error(message: Seq<char>) -> IoErrorView {
    IoErrorView { kind: IoErrorKind::Other, message }
}

/// The error that bytes are missing.
pub open spec fn eof_error() -> IoErrorView {
    IoErrorView { kind: IoErrorKind::UnexpectedEof, message: "failed to fill whole buffer"@ }
}

/// Where a byte string stops being UTF-8.
#[derive(Clone, Copy, Debug, PartialEq, Eq, Structural)]
pub struct Utf8Error {
    pub valid_up_to: usize,
    pub error_len: Option<u8>,
}

/// Why a request failed. The status variants carry the server's message and
/// the language tag of that message.
#[derive(Debug)]
pub enum Error {
    Io(IoError),
    Utf8(Utf8Error),
    Other(u32, String, String),
    Eof(String, String),
    NoSuchFile(String, String),
    PermissionDenied(String, String),
    Failure(String, String),
    BadMessage(String, String),
    NoConnection(String, String),
    ConnectionLost(String, String),
    OpUnsupported(String, String),
    InvalidHandle(String, String),
    NoSuchPath(String, String),
    FileAlreadyExists(String, String),
    WriteProtect(String, String),
    NoMedia(String, String),
    NoSpaceOnFilesystem(String, String),
    QuotaExceeded(String, String),
    UnknownPrincipal(String, String),
    LockConflict(String, String),
    DirNotEmpty(String, String),
    NotADirectory(String, String),
    InvalidFilename(String, String),
    LinkLoop(String, String),
    CannotDelete(String, String),
    InvalidParameter(String, String),
    FileIsADirectory(String, String),
    ByteRangeLockConflict(String, String),
    ByteRangeLockRefused(String, String),
    DeletePending(String, String),
    FileCorrupt(String, String),
    OwnerInvalid(String, String),
    GroupInvalid(String, String),
    NoMatchingByteRangeLock(String, String),
}

/// The contents of an [`Error`]: the status variants by their code.
pub enum ErrorView {
    Io(IoErrorView),
    Utf8(Utf8Error),
    Other(u32, Seq<char>, Seq<char>),
    Status(u32, Seq<char>, Seq<char>),
}

impl View for Error {
    type V = ErrorView;

    open spec fn view(&self) -> ErrorView {
        match self {
            Error::Io(e) => ErrorView::Io(e@),
            Error::Utf8(e) => ErrorView::Utf8(*e),
            Error::Other(code, m, l) => ErrorView::Other(*code, m@, l@),
            Error::Eof(m, l) => ErrorView::Status(SSH_FX_EOF, m@, l@),
            Error::NoSuchFile(m, l) => ErrorView::Status(SSH_FX_NO_SUCH_FILE, m@, l@),
            Error::PermissionDenied(m, l) => ErrorView::Status(SSH_FX_PERMISSION_DENIED, m@, l@),
            Error::Failure(m, l) => ErrorView::Status(SSH_FX_FAILURE, m@, l@),
            Error::BadMessage(m, l) => ErrorView::Status(SSH_FX_BAD_MESSAGE, m@, l@),
            Error::NoConnection(m, l) => ErrorView::Status(SSH_FX_NO_CONNECTION, m@, l@),
            Error::ConnectionLost(m, l) => ErrorView::Status(SSH_FX_CONNECTION_LOST, m@, l@),
            Error::OpUnsupported(m, l) => ErrorView::Status(SSH_FX_OP_UNSUPPORTED, m@, l@),
            Error::InvalidHandle(m, l) => ErrorView::Status(SSH_FX_INVALID_HANDLE, m@, l@),
            Error::NoSuchPath(m, l) => ErrorView::Status(SSH_FX_NO_SUCH_PATH, m@, l@),
            Error::FileAlreadyExists(m, l) => ErrorView::Status(SSH_FX_FILE_ALREADY_EXISTS, m@, l@),
            Error::WriteProtect(m, l) => ErrorView::Status(SSH_FX_WRITE_PROTECT, m@, l@),
            Error::NoMedia(m, l) => ErrorView::Status(SSH_FX_NO_MEDIA, m@, l@),
            Error::NoSpaceOnFilesystem(m, l) => ErrorView::Status(
                SSH_FX_NO_SPACE_ON_FILESYSTEM,
                m@,
                l@,
            ),
            Error::QuotaExceeded(m, l) => ErrorView::Status(SSH_FX_QUOTA_EXCEEDED, m@, l@),
            Error::UnknownPrincipal(m, l) => ErrorView::Status(SSH_FX_UNKNOWN_PRINCIPAL, m@, l@),
            Error::LockConflict(m, l) => ErrorView::Status(SSH_FX_LOCK_CONFLICT, m@, l@),
            Error::DirNotEmpty(m, l) => ErrorView::Status(SSH_FX_DIR_NOT_EMPTY, m@, l@),
            Error::NotADirectory(m, l) => ErrorView::Status(SSH_FX_NOT_A_DIRECTORY, m@, l@),
            Error::InvalidFilename(m, l) => ErrorView::Status(SSH_FX_INVALID_FILENAME, m@, l@),
            Error::LinkLoop(m, l) => ErrorView::Status(SSH_FX_LINK_LOOP, m@, l@),
            Error::CannotDelete(m, l) => ErrorView::Status(SSH_FX_CANNOT_DELETE, m@, l@),
            Error::InvalidParameter(m, l) => ErrorView::Status(SSH_FX_INVALID_PARAMETER, m@, l@),
            Error::FileIsADirectory(m, l) => ErrorView::Status(SSH_FX_FILE_IS_A_DIRECTORY, m@, l@),
            Error::ByteRangeLockConflict(m, l) => ErrorView::Status(
                SSH_FX_BYTE_RANGE_LOCK_CONFLICT,
                m@,
                l@,
            ),
            Error::ByteRangeLockRefused(m, l) => ErrorView::Status(
                SSH_FX_BYTE_RANGE_LOCK_REFUSED,
                m@,
                l@,
            ),
            Error::DeletePending(m, l) => ErrorView::Status(SSH_FX_DELETE_PENDING, m@, l@),
            Error::FileCorrupt(m, l) => ErrorView::Status(SSH_FX_FILE_CORRUPT, m@, l@),
            Error::OwnerInvalid(m, l) => ErrorView::Status(SSH_FX_OWNER_INVALID, m@, l@),
            Error::GroupInvalid(m, l) => ErrorView::Status(SSH_FX_GROUP_INVALID, m@, l@),
            Error::NoMatchingByteRangeLock(m, l) => ErrorView::Status(
                SSH_FX_NO_MATCHING_BYTE_RANGE_LOCK,
                m@,
                l@,
            ),
        }
    }
}

/// The error that a status code other than `SSH_FX_OK` stands for: codes
/// without a variant of their own keep their number.
pub open spec fn status_error(code: u32, message: Seq<char>, lang: Seq<char>) -> ErrorView {
    if SSH_FX_EOF <= code <= SSH_FX_NO_MATCHING_BYTE_RANGE_LOCK {
        ErrorView::Status(code, message, lang)
    } else {
        ErrorView::Other(code, message, lang)
    }
}

impl Error {
    /// The error of a status reply with this code.
    pub fn from_status(code: u32, m: String, l: String) -> (e: Error)
        requires
            code != SSH_FX_OK,
        ensures
            e@ == status_error(code, m@, l@),
    {
        match code {
            SSH_FX_EOF => Error::Eof(m, l),
            SSH_FX_NO_SUCH_FILE => Error::NoSuchFile(m, l),
            SSH_FX_PERMISSION_DENIED => Error::PermissionDenied(m, l),
            SSH_FX_FAILURE => Error::Failure(m, l),
            SSH_FX_BAD_MESSAGE => Error::BadMessage(m, l),
            SSH_FX_NO_CONNECTION => Error::NoConnection(m, l),
            SSH_FX_CONNECTION_LOST => Error::ConnectionLost(m, l),
            SSH_FX_OP_UNSUPPORTED => Error::OpUnsupported(m, l),
            SSH_FX_INVALID_HANDLE => Error::InvalidHandle(m, l),
            SSH_FX_NO_SUCH_PATH => Error::NoSuchPath(m, l),
            SSH_FX_FILE_ALREADY_EXISTS => Error::FileAlreadyExists(m, l),
            SSH_FX_WRITE_PROTECT => Error::WriteProtect(m, l),
            SSH_FX_NO_MEDIA => Error::NoMedia(m, l),
            SSH_FX_NO_SPACE_ON_FILESYSTEM => Error::NoSpaceOnFilesystem(m, l),
            SSH_FX_QUOTA_EXCEEDED => Error::QuotaExceeded(m, l),
            SSH_FX_UNKNOWN_PRINCIPAL => Error::UnknownPrincipal(m, l),
            SSH_FX_LOCK_CONFLICT => Error::LockConflict(m, l),
            SSH_FX_DIR_NOT_EMPTY => Error::DirNotEmpty(m, l),
            SSH_FX_NOT_A_DIRECTORY => Error::NotADirectory(m, l),
            SSH_FX_INVALID_FILENAME => Error::InvalidFilename(m, l),
            SSH_FX_LINK_LOOP => Error::LinkLoop(m, l),
            SSH_FX_CANNOT_DELETE => Error::CannotDelete(m, l),
            SSH_FX_INVALID_PARAMETER => Error::InvalidParameter(m, l),
            SSH_FX_FILE_IS_A_DIRECTORY => Error::FileIsADirectory(m, l),
            SSH_FX_BYTE_RANGE_LOCK_CONFLICT => Error::ByteRangeLockConflict(m, l),
            SSH_FX_BYTE_RANGE_LOCK_REFUSED => Error::ByteRangeLockRefused(m, l),
            SSH_FX_DELETE_PENDING => Error::DeletePending(m, l),
            SSH_FX_FILE_CORRUPT => Error::FileCorrupt(m, l),
            SSH_FX_OWNER_INVALID => Error::OwnerInvalid(m, l),
            SSH_FX_GROUP_INVALID => Error::GroupInvalid(m, l),
            SSH_FX_NO_MATCHING_BYTE_RANGE_LOCK => Error::NoMatchingByteRangeLock(m, l),
            _ => Error::Other(code, m, l),
        }
    }
}

impl vstd::std_specs::convert::FromSpecImpl<IoError> for Error {
    open spec fn obeys_from_spec() -> bool {
        true
    }

    open spec fn from_spec(err: IoError) -> Error {
        Error::Io(err)
    }
}

impl From<IoError> for Error {
    fn from(err: IoError) -> (e: Error) {
        Error::Io(err)
    }
}

impl vstd::std_specs::convert::FromSpecImpl<Utf8Error> for Error {
    open spec fn obeys_from_spec() -> bool {
        true
    }

    open spec fn from_spec(err: Utf8Error) -> Error {
        Error::Utf8(err)
    }
}

impl From<Utf8Error> for Error {
    fn from(err: Utf8Error) -> (e: Error) {
        Error::Utf8(err)
    }
}

/// The text that `std` gives for a string under `{:?}`: quoted and escaped.
pub uninterp spec fn debug_str(s: Seq<char>) -> Seq<char>;

/// `<str as std::fmt::Debug>`, through `format!("{:?}", ..)`. Its result is
/// named, not described: which characters are escaped is left to `std`.
#[verifier::external_body]
fn format_debug_str(s: &str) -> (r: String)
    ensures
        r@ == debug_str(s@),
{
    format!("{:?}", s)
}

/// The name of the variant of a status code.
pub open spec fn variant_name(code: u32) -> Seq<char> {
    match code {
        SSH_FX_EOF => "Eof"@,
        SSH_FX_NO_SUCH_FILE => "NoSuchFile"@,
        SSH_FX_PERMISSION_DENIED => "PermissionDenied"@,
        SSH_FX_FAILURE => "Failure"@,
        SSH_FX_BAD_MESSAGE => "BadMessage"@,
        SSH_FX_NO_CONNECTION => "NoConnection"@,
        SSH_FX_CONNECTION_LOST => "ConnectionLost"@,
        SSH_FX_OP_UNSUPPORTED => "OpUnsupported"@,
        SSH_FX_INVALID_HANDLE => "InvalidHandle"@,
        SSH_FX_NO_SUCH_PATH => "NoSuchPath"@,
        SSH_FX_FILE_ALREADY_EXISTS => "FileAlreadyExists"@,
        SSH_FX_WRITE_PROTECT => "WriteProtect"@,
        SSH_FX_NO_MEDIA => "NoMedia"@,
        SSH_FX_NO_SPACE_ON_FILESYSTEM => "NoSpaceOnFilesystem"@,
        SSH_FX_QUOTA_EXCEEDED => "QuotaExceeded"@,
        SSH_FX_UNKNOWN_PRINCIPAL => "UnknownPrincipal"@,
        SSH_FX_LOCK_CONFLICT => "LockConflict"@,
        SSH_FX_DIR_NOT_EMPTY => "DirNotEmpty"@,
        SSH_FX_NOT_A_DIRECTORY => "NotADirectory"@,
        SSH_FX_INVALID_FILENAME => "InvalidFilename"@,
        SSH_FX_LINK_LOOP => "LinkLoop"@,
        SSH_FX_CANNOT_DELETE => "CannotDelete"@,
        SSH_FX_INVALID_PARAMETER => "InvalidParameter"@,
        SSH_FX_FILE_IS_A_DIRECTORY => "FileIsADirectory"@,
        SSH_FX_BYTE_RANGE_LOCK_CONFLICT => "ByteRangeLockConflict"@,
        SSH_FX_BYTE_RANGE_LOCK_REFUSED => "ByteRangeLockRefused"@,
        SSH_FX_DELETE_PENDING => "DeletePending"@,
        SSH_FX_FILE_CORRUPT => "FileCorrupt"@,
        SSH_FX_OWNER_INVALID => "OwnerInvalid"@,
        SSH_FX_GROUP_INVALID => "GroupInvalid"@,
        _ => "NoMatchingByteRangeLock"@,
    }
}

/// The text of an error that is not a transport error: the variant, and what
/// it carries in parentheses.
pub open spec fn debug_text(e: ErrorView) -> Seq<char>
    recommends
        e !is Io,
{
    match e {
        ErrorView::Io(e) => e.message,
        ErrorView::Utf8(e) => "Utf8(Utf8Error { valid_up_to: "@ + decimal(e.valid_up_to as nat)
            + ", error_len: "@ + match e.error_len {
            Some(n) => "Some("@ + decimal(n as nat) + ")"@,
            None => "None"@,
        } + " })"@,
        ErrorView::Other(code, m, l) => "Other("@ + decimal(code as nat) + ", "@ + debug_str(m)
            + ", "@ + debug_str(l) + ")"@,
        ErrorView::Status(code, m, l) => variant_name(code) + "("@ + debug_str(m) + ", "@
            + debug_str(l) + ")"@,
    }
}

fn pair_text(name: &str, m: &str, l: &str) -> (r: String)
    ensures
        r@ == name@ + "("@ + debug_str(m@) + ", "@ + debug_str(l@) + ")"@,
{
    let mut out = String::from_str(name);
    out.append("(");
    out.append(format_debug_str(m).as_str());
    out.append(", ");
    out.append(format_debug_str(l).as_str());
    out.append(")");
    out
}

fn other_text(code: u32, m: &str, l: &str) -> (r: String)
    ensures
        r@ == debug_text(ErrorView::Other(code, m@, l@)),
{
    let mut out = String::from_str("Other(");
    push_decimal(&mut out, code as u64);
    out.append(", ");
    out.append(format_debug_str(m).as_str());
    out.append(", ");
    out.append(format_debug_str(l).as_str());
    out.append(")");
    out
}

fn utf8_text(e: Utf8Error) -> (r: String)
    ensures
        r@ == debug_text(ErrorView::Utf8(e)),
{
    let mut out = String::from_str("Utf8(Utf8Error { valid_up_to: ");
    push_decimal(&mut out, e.valid_up_to as u64);
    out.append(", error_len: ");
    let ghost head = out@;
    match e.error_len {
        Some(n) => {
            out.append("Some(");
            push_decimal(&mut out, n as u64);
            out.append(")");
            assert(out@ =~= head + ("Some("@ + decimal(n as nat) + ")"@));
        },
        None => {
            out.append("None");
        },
    }
    out.append(" })");
    out
}

/// The kind of transport error of a status code, where it has one.
pub open spec fn status_io_kind(code: u32) -> Option<IoErrorKind> {
    match code {
        SSH_FX_NO_SUCH_FILE => Some(IoErrorKind::NotFound),
        SSH_FX_PERMISSION_DENIED => Some(IoErrorKind::PermissionDenied),
        SSH_FX_NO_CONNECTION => Some(IoErrorKind::NotConnected),
        SSH_FX_CONNECTION_LOST => Some(IoErrorKind::ConnectionReset),
        SSH_FX_INVALID_HANDLE => Some(IoErrorKind::InvalidInput),
        SSH_FX_NO_SUCH_PATH => Some(IoErrorKind::NotFound),
        SSH_FX_FILE_ALREADY_EXISTS => Some(IoErrorKind::AlreadyExists),
        SSH_FX_WRITE_PROTECT => Some(IoErrorKind::PermissionDenied),
        SSH_FX_NO_MEDIA => Some(IoErrorKind::NotFound),
        SSH_FX_QUOTA_EXCEEDED => Some(IoErrorKind::PermissionDenied),
        SSH_FX_LOCK_CONFLICT => Some(IoErrorKind::PermissionDenied),
        SSH_FX_INVALID_FILENAME => Some(IoErrorKind::InvalidInput),
        _ => None,
    }
}

/// An error as a transport error. The end of a file has no message; a status
/// with a kind of its own keeps its last string; any other is spelt out.
pub open spec fn as_io_error(e: ErrorView) -> IoErrorView {
    match e {
        ErrorView::Io(e) => e,
        ErrorView::Status(code, _, l) => if code == SSH_FX_EOF {
            IoErrorView { kind: IoErrorKind::UnexpectedEof, message: ""@ }
        } else {
            match status_io_kind(code) {
                Some(kind) => IoErrorView { kind, message: l },
                None => other_error(debug_text(e)),
            }
        },
        _ => other_error(debug_text(e)),
    }
}

impl vstd::std_specs::convert::FromSpecImpl<Error> for IoError {
    open spec fn obeys_from_spec() -> bool {
        false
    }

    open spec fn from_spec(err: Error) -> IoError {
        arbitrary()
    }
}

impl From<Error> for IoError {
    fn from(err: Error) -> (e: IoError)
        ensures
            e@ == as_io_error(err@),
    {
        match err {
            Error::Io(e) => e,
            Error::Eof(_, _) => IoError::new(IoErrorKind::UnexpectedEof, String::from_str("")),
            Error::NoSuchFile(_, m) => IoError::new(IoErrorKind::NotFound, m),
            Error::PermissionDenied(_, m) => IoError::new(IoErrorKind::PermissionDenied, m),
            Error::NoConnection(_, m) => IoError::new(IoErrorKind::NotConnected, m),
            Error::ConnectionLost(_, m) => IoError::new(IoErrorKind::ConnectionReset, m),
            Error::InvalidHandle(_, m) => IoError::new(IoErrorKind::InvalidInput, m),
            Error::NoSuchPath(_, m) => IoError::new(IoErrorKind::NotFound, m),
            Error::FileAlreadyExists(_, m) => IoError::new(IoErrorKind::AlreadyExists, m),
            Error::WriteProtect(_, m) => IoError::new(IoErrorKind::PermissionDenied, m),
            Error::NoMedia(_, m) => IoError::new(IoErrorKind::NotFound, m),
            Error::QuotaExceeded(_, m) => IoError::new(IoErrorKind::PermissionDenied, m),
            Error::LockConflict(_, m) => IoError::new(IoErrorKind::PermissionDenied, m),
            Error::InvalidFilename(_, m) => IoError::new(IoErrorKind::InvalidInput, m),
            Error::Utf8(e) => IoError::other(utf8_text(e)),
            Error::Other(code, m, l) => IoError::other(other_text(code, m.as_str(), l.as_str())),
            Error::Failure(m, l) => IoError::other(pair_text("Failure", m.as_str(), l.as_str())),
            Error::BadMessage(m, l) => {
                IoError::other(pair_text("BadMessage", m.as_str(), l.as_str()))
            },
            Error::OpUnsupported(m, l) => {
                IoError::other(pair_text("OpUnsupported", m.as_str(), l.as_str()))
            },
            Error::NoSpaceOnFilesystem(m, l) => {
                IoError::other(pair_text("NoSpaceOnFilesystem", m.as_str(), l.as_str()))
            },
            Error::UnknownPrincipal(m, l) => {
                IoError::other(pair_text("UnknownPrincipal", m.as_str(), l.as_str()))
            },
            Error::DirNotEmpty(m, l) => {
                IoError::other(pair_text("DirNotEmpty", m.as_str(), l.as_str()))
            },
            Error::NotADirectory(m, l) => {
                IoError::other(pair_text("NotADirectory", m.as_str(), l.as_str()))
            },
            Error::LinkLoop(m, l) => IoError::other(pair_text("LinkLoop", m.as_str(), l.as_str())),
            Error::CannotDelete(m, l) => {
                IoError::other(pair_text("CannotDelete", m.as_str(), l.as_str()))
            },
            Error::InvalidParameter(m, l) => {
                IoError::other(pair_text("InvalidParameter", m.as_str(), l.as_str()))
            },
            Error::FileIsADirectory(m, l) => {
                IoError::other(pair_text("FileIsADirectory", m.as_str(), l.as_str()))
            },
            Error::ByteRangeLockConflict(m, l) => {
                IoError::other(pair_text("ByteRangeLockConflict", m.as_str(), l.as_str()))
            },
            Error::ByteRangeLockRefused(m, l) => {
                IoError::other(pair_text("ByteRangeLockRefused", m.as_str(), l.as_str()))
            },
            Error::DeletePending(m, l) => {
                IoError::other(pair_text("DeletePending", m.as_str(), l.as_str()))
            },
            Error::FileCorrupt(m, l) => {
                IoError::other(pair_text("FileCorrupt", m.as_str(), l.as_str()))
            },
            Error::OwnerInvalid(m, l) => {
                IoError::other(pair_text("OwnerInvalid", m.as_str(), l.as_str()))
            },
            Error::GroupInvalid(m, l) => {
                IoError::other(pair_text("GroupInvalid", m.as_str(), l.as_str()))
            },
            Error::NoMatchingByteRangeLock(m, l) => {
                IoError::other(pair_text("NoMatchingByteRangeLock", m.as_str(), l.as_str()))
            },
        }
    }
}

} // verus!
