//! Small types of the protocol: hints, file types, open flags, handles.

use vstd::prelude::*;

use crate::constants::{
    SFTP_FLAG_APPEND, SFTP_FLAG_CREAT, SFTP_FLAG_EXCL, SFTP_FLAG_READ, SFTP_FLAG_TRUNC,
    SFTP_FLAG_WRITE, SSH_FILEXFER_ATTR_GUESSED_BINARY, SSH_FILEXFER_ATTR_GUESSED_TEXT,
    SSH_FILEXFER_ATTR_KNOWN_BINARY, SSH_FILEXFER_ATTR_KNOWN_TEXT,
    SSH_FILEXFER_TYPE_BLOCK_DEVICE, SSH_FILEXFER_TYPE_CHAR_DEVICE, SSH_FILEXFER_TYPE_DIRECTORY,
    SSH_FILEXFER_TYPE_FIFO, SSH_FILEXFER_TYPE_REGULAR, SSH_FILEXFER_TYPE_SOCKET,
    SSH_FILEXFER_TYPE_SPECIAL, SSH_FILEXFER_TYPE_SYMLINK, SSH_FILEXFER_TYPE_UNKNOWN,
};

verus! {

/// Whether a file is text, and how sure the server is of it.
#[derive(Clone, Copy, PartialEq, Eq, Debug, Structural)]
pub enum TextHint {
    KnownText,
    GuessedText,
    KnownBinary,
    GuessedBinary,
}

impl TextHint {
    /// The byte that stands for the hint.
    pub open spec fn code(self) -> u8 {
        match self {
            TextHint::KnownText => SSH_FILEXFER_ATTR_KNOWN_TEXT,
            TextHint::GuessedText => SSH_FILEXFER_ATTR_GUESSED_TEXT,
            TextHint::KnownBinary => SSH_FILEXFER_ATTR_KNOWN_BINARY,
            TextHint::GuessedBinary => SSH_FILEXFER_ATTR_GUESSED_BINARY,
        }
    }

    /// The hint that a byte stands for.
    pub fn from(hint: u8) -> (h: TextHint)
        requires
            hint <= SSH_FILEXFER_ATTR_GUESSED_BINARY,
        ensures
            h.code() == hint,
    {
        match hint {
            SSH_FILEXFER_ATTR_KNOWN_TEXT => TextHint::KnownText,
            SSH_FILEXFER_ATTR_GUESSED_TEXT => TextHint::GuessedText,
            SSH_FILEXFER_ATTR_KNOWN_BINARY => TextHint::KnownBinary,
            _ => TextHint::GuessedBinary,
        }
    }
}

impl vstd::std_specs::convert::FromSpecImpl<TextHint> for u8 {
    open spec fn obeys_from_spec() -> bool {
        true
    }

    open spec fn from_spec(hint: TextHint) -> u8 {
        hint.code()
    }
}

impl From<TextHint> for u8 {
    fn from(hint: TextHint) -> (v: u8) {
        match hint {
            TextHint::KnownText => SSH_FILEXFER_ATTR_KNOWN_TEXT,
            TextHint::GuessedText => SSH_FILEXFER_ATTR_GUESSED_TEXT,
            TextHint::KnownBinary => SSH_FILEXFER_ATTR_KNOWN_BINARY,
            TextHint::GuessedBinary => SSH_FILEXFER_ATTR_GUESSED_BINARY,
        }
    }
}

/// Distinct hints have distinct bytes.
pub proof fn law_text_hint_codes_distinct(a: TextHint, b: TextHint)
    ensures
        a.code() <= SSH_FILEXFER_ATTR_GUESSED_BINARY,
        a.code() == b.code() ==> a == b,
{
}

/// What sort of file an entry is.
#[derive(Debug, Clone, Copy, PartialEq, Eq, Structural)]
pub enum Kind {
    Regular,
    Directory,
    Symlink,
    Special,
    Unknown,
    Socket,
    CharDevice,
    BlockDevice,
    Fifo,
}

impl Default for Kind {
    fn default() -> (k: Kind)
        ensures
            k == Kind::Unknown,
    {
        Kind::Unknown
    }
}

impl Kind {
    /// The byte that stands for the file type.
    pub open spec fn code(self) -> u8 {
        match self {
            Kind::Regular => SSH_FILEXFER_TYPE_REGULAR,
            Kind::Directory => SSH_FILEXFER_TYPE_DIRECTORY,
            Kind::Symlink => SSH_FILEXFER_TYPE_SYMLINK,
            Kind::Special => SSH_FILEXFER_TYPE_SPECIAL,
            Kind::Unknown => SSH_FILEXFER_TYPE_UNKNOWN,
            Kind::Socket => SSH_FILEXFER_TYPE_SOCKET,
            Kind::CharDevice => SSH_FILEXFER_TYPE_CHAR_DEVICE,
            Kind::BlockDevice => SSH_FILEXFER_TYPE_BLOCK_DEVICE,
            Kind::Fifo => SSH_FILEXFER_TYPE_FIFO,
        }
    }

    /// The file type that a byte stands for.
    pub fn from(kind: u8) -> (k: Kind)
        requires
            SSH_FILEXFER_TYPE_REGULAR <= kind <= SSH_FILEXFER_TYPE_FIFO,
        ensures
            k.code() == kind,
    {
        match kind {
            SSH_FILEXFER_TYPE_REGULAR => Kind::Regular,
            SSH_FILEXFER_TYPE_DIRECTORY => Kind::Directory,
            SSH_FILEXFER_TYPE_SYMLINK => Kind::Symlink,
            SSH_FILEXFER_TYPE_SPECIAL => Kind::Special,
            SSH_FILEXFER_TYPE_UNKNOWN => Kind::Unknown,
            SSH_FILEXFER_TYPE_SOCKET => Kind::Socket,
            SSH_FILEXFER_TYPE_CHAR_DEVICE => Kind::CharDevice,
            SSH_FILEXFER_TYPE_BLOCK_DEVICE => Kind::BlockDevice,
            _ => Kind::Fifo,
        }
    }
}

impl vstd::std_specs::convert::FromSpecImpl<Kind> for u8 {
    open spec fn obeys_from_spec() -> bool {
        true
    }

    open spec fn from_spec(kind: Kind) -> u8 {
        kind.code()
    }
}

impl From<Kind> for u8 {
    fn from(kind: Kind) -> (v: u8) {
        match kind {
            Kind::Regular => SSH_FILEXFER_TYPE_REGULAR,
            Kind::Directory => SSH_FILEXFER_TYPE_DIRECTORY,
            Kind::Symlink => SSH_FILEXFER_TYPE_SYMLINK,
            Kind::Special => SSH_FILEXFER_TYPE_SPECIAL,
            Kind::Unknown => SSH_FILEXFER_TYPE_UNKNOWN,
            Kind::Socket => SSH_FILEXFER_TYPE_SOCKET,
            Kind::CharDevice => SSH_FILEXFER_TYPE_CHAR_DEVICE,
            Kind::BlockDevice => SSH_FILEXFER_TYPE_BLOCK_DEVICE,
            Kind::Fifo => SSH_FILEXFER_TYPE_FIFO,
        }
    }
}

/// Distinct file types have distinct bytes.
pub proof fn law_kind_codes_distinct(a: Kind, b: Kind)
    ensures
        SSH_FILEXFER_TYPE_REGULAR <= a.code() <= SSH_FILEXFER_TYPE_FIFO,
        a.code() == b.code() ==> a == b,
{
}

/// How a file is to be opened: a set of flags.
#[derive(Debug, PartialEq, Eq, Clone, Copy, Structural)]
pub struct OpenOptions(u32);

/// `flags` with `bit` switched on or off.
pub open spec fn switched(flags: u32, bit: u32, on: bool) -> u32 {
    if on {
        flags | bit
    } else {
        flags & !bit
    }
}

impl View for OpenOptions {
    type V = u32;

    closed spec fn view(&self) -> u32 {
        self.0
    }
}

impl Default for OpenOptions {
    fn default() -> (o: OpenOptions)
        ensures
            o@ == 0,
    {
        OpenOptions(0)
    }
}

impl OpenOptions {
    /// No flags.
    pub fn new() -> (o: OpenOptions)
        ensures
            o@ == 0,
    {
        OpenOptions(0)
    }

    fn switch(self, bit: u32, on: bool) -> (o: OpenOptions)
        ensures
            o@ == switched(self@, bit, on),
    {
        if on {
            OpenOptions(self.0 | bit)
        } else {
            OpenOptions(self.0 & !bit)
        }
    }

    /// Whether the file is to be read.
    pub fn read(self, read: bool) -> (o: OpenOptions)
        ensures
            o@ == switched(self@, SFTP_FLAG_READ, read),
    {
        self.switch(SFTP_FLAG_READ, read)
    }

    /// Whether the file is to be written.
    pub fn write(self, write: bool) -> (o: OpenOptions)
        ensures
            o@ == switched(self@, SFTP_FLAG_WRITE, write),
    {
        self.switch(SFTP_FLAG_WRITE, write)
    }

    /// Whether bytes are to be written at the end.
    pub fn append(self, append: bool) -> (o: OpenOptions)
        ensures
            o@ == switched(self@, SFTP_FLAG_APPEND, append),
    {
        self.switch(SFTP_FLAG_APPEND, append)
    }

    /// Whether the file is to be created if it is not there.
    pub fn create(self, create: bool) -> (o: OpenOptions)
        ensures
            o@ == switched(self@, SFTP_FLAG_CREAT, create),
    {
        self.switch(SFTP_FLAG_CREAT, create)
    }

    /// Whether the file is to be emptied.
    pub fn truncate(self, truncate: bool) -> (o: OpenOptions)
        ensures
            o@ == switched(self@, SFTP_FLAG_TRUNC, truncate),
    {
        self.switch(SFTP_FLAG_TRUNC, truncate)
    }

    /// Whether it is to be an error if the file is there.
    pub fn excl(self, excl: bool) -> (o: OpenOptions)
        ensures
            o@ == switched(self@, SFTP_FLAG_EXCL, excl),
    {
        self.switch(SFTP_FLAG_EXCL, excl)
    }

    /// Adds all flags of `mode`.
    pub fn mode(&mut self, mode: u32) -> (o: &mut OpenOptions)
        ensures
            o@ == old(self)@ | mode,
            *final(self) == *final(o),
    {
        self.0 = self.0 | mode;
        self
    }

    /// The flags as they are sent.
    pub fn get(&self) -> (flags: u32)
        ensures
            flags == self@,
    {
        self.0
    }
}

/// Switching one flag sets exactly that flag to the given value: the flag
/// reads back as it was set, and every other bit keeps its value.
pub proof fn law_switch_sets_one_flag(flags: u32, bit: u32, other: u32, on: bool)
    requires
        bit != 0,
        bit & other == 0,
    ensures
        switched(flags, bit, on) & bit == (if on { bit } else { 0 }),
        switched(flags, bit, on) & other == flags & other,
{
    assert((flags | bit) & bit == bit && (flags & !bit) & bit == 0) by (bit_vector);
    assert((flags | bit) & other == flags & other && (flags & !bit) & other == flags & other)
        by (bit_vector)
        requires
            bit & other == 0,
    ;
}

/// Two flags can be switched in either order.
pub proof fn law_switches_commute(flags: u32, a: u32, b: u32, on_a: bool, on_b: bool)
    requires
        a & b == 0,
    ensures
        switched(switched(flags, a, on_a), b, on_b) == switched(switched(flags, b, on_b), a, on_a),
{
    assert((flags | a) | b == (flags | b) | a) by (bit_vector);
    assert((flags & !a) & !b == (flags & !b) & !a) by (bit_vector);
    assert((flags | a) & !b == (flags & !b) | a && (flags & !a) | b == (flags | b) & !a)
        by (bit_vector)
        requires
            a & b == 0,
    ;
}

/// The last setting of a flag is the one that counts.
pub proof fn law_last_switch_counts(flags: u32, bit: u32, first: bool, second: bool)
    ensures
        switched(switched(flags, bit, first), bit, second) == switched(flags, bit, second),
{
    assert((flags | bit) | bit == flags | bit && (flags & !bit) | bit == flags | bit) by (bit_vector);
    assert((flags | bit) & !bit == flags & !bit && (flags & !bit) & !bit == flags & !bit)
        by (bit_vector);
}

/// The flags that the setters of [`OpenOptions`] switch.
pub open spec fn is_open_flag(f: u32) -> bool {
    ||| f == SFTP_FLAG_READ
    ||| f == SFTP_FLAG_WRITE
    ||| f == SFTP_FLAG_APPEND
    ||| f == SFTP_FLAG_CREAT
    ||| f == SFTP_FLAG_TRUNC
    ||| f == SFTP_FLAG_EXCL
}

/// No two open flags share a bit, so that no setter touches the flag of
/// another.
pub proof fn law_open_flags_are_separate(a: u32, b: u32)
    requires
        is_open_flag(a),
        is_open_flag(b),
        a != b,
    ensures
        a != 0,
        a & b == 0,
{
    assert(a & b == 0) by (bit_vector)
        requires
            a == 1 || a == 2 || a == 4 || a == 8 || a == 16 || a == 32,
            b == 1 || b == 2 || b == 4 || b == 8 || b == 16 || b == 32,
            a != b,
    ;
}

/// The handle of an open file.
#[derive(Debug, Clone)]
pub struct File(pub Vec<u8>);

/// The handle of an open directory.
#[derive(Debug, Clone)]
pub struct Directory(pub Vec<u8>);

} // verus!
