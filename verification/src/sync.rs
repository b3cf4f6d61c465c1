//! The client's side of a connection.
//!
//! A request comes out as the packet to send, together with a call that makes
//! sense of the reply.

use vstd::pervasive::unreached;
use vstd::prelude::*;
use vstd::slice::slice_to_vec;
use vstd::string::*;

use crate::attributes::{encodable, encode_attributes, pair_texts, Attributes};
use crate::constants::{
    SSH_FXP_BLOCK, SSH_FXP_CLOSE, SSH_FXP_EXTENDED, SSH_FXP_FSETSTAT, SSH_FXP_FSTAT,
    SSH_FXP_INIT, SSH_FXP_LINK, SSH_FXP_LSTAT, SSH_FXP_MKDIR, SSH_FXP_OPEN, SSH_FXP_OPENDIR,
    SSH_FXP_READ, SSH_FXP_READDIR, SSH_FXP_READLINK, SSH_FXP_REALPATH, SSH_FXP_REMOVE,
    SSH_FXP_RENAME, SSH_FXP_RMDIR, SSH_FXP_SETSTAT, SSH_FXP_STAT, SSH_FXP_SYMLINK,
    SSH_FXP_UNBLOCK, SSH_FXP_VERSION, SSH_FXP_WRITE,
};
use crate::error::{other_error, Error, ErrorView, IoError, IoErrorView};
use crate::protocol::{
    build_block, build_extended, build_handle_and_attrs, build_handle_and_flags,
    build_handle_only, build_init, build_link, build_open, build_path_and_attrs,
    build_path_and_flags, build_path_only, build_pread, build_pwrite, build_realpath,
    build_rename, build_two_paths, build_unblock, law_packet_round_trip,
    law_request_id_round_trip, link_byte, next_number, numbered, opt_chars, packet,
    parse_announcement, parse_numbered, parse_packet, parse_version, realpath_body,
    rename_flags, split_request_id, successor, with_request_id, write_raw_packet,
    PROTOCOL_VERSION,
};
use crate::reply::{
    attrs_answer, data_answer, entry_views, expect_extended, expect_status, extended_answer,
    first_name_answer, handle_answer, readdir_answer, status_answer, take_attrs, take_data,
    take_first_name, take_handle, take_readdir, Answer, AnswerView, Breach,
};
use crate::text::{decimal, push_decimal};
use crate::types::{Directory, File, OpenOptions};
use crate::wire::{be32, be64, bytes_field, put_u64, str_field};

verus! {

/// A numbered request, ready to be sent.
#[derive(Debug)]
pub struct Request {
    /// The id that the reply will carry.
    pub id: u32,
    /// The bytes to send.
    pub packet: Vec<u8>,
}

/// The contents of a [`Request`].
pub struct RequestView {
    pub id: u32,
    pub packet: Seq<u8>,
}

impl View for Request {
    type V = RequestView;

    open spec fn view(&self) -> RequestView {
        RequestView { id: self.id, packet: self.packet@ }
    }
}

/// What a reply packet's body gives for the request of this id: its payload.
pub open spec fn payload_answer(id: u32, body: Seq<u8>) -> AnswerView<Seq<u8>> {
    match parse_numbered(body) {
        Err(e) => Ok(Err(ErrorView::Io(e))),
        Ok((reply_id, payload)) => if reply_id == id {
            Ok(Ok(payload))
        } else {
            Err(Breach::RequestId)
        },
    }
}

/// What a reply packet's body gives for the request of this id, where its
/// payload has the given meaning.
pub open spec fn replied<T>(
    id: u32,
    body: Seq<u8>,
    meaning: spec_fn(Seq<u8>) -> AnswerView<T>,
) -> AnswerView<T> {
    match payload_answer(id, body) {
        Ok(Ok(payload)) => meaning(payload),
        Ok(Err(e)) => Ok(Err(e)),
        Err(b) => Err(b),
    }
}

impl Request {
    /// Takes the payload out of the body of the packet that came next.
    pub fn accept(&self, body: &[u8]) -> (r: Answer<Vec<u8>>)
        ensures
            match payload_answer(self.id, body@) {
                Ok(Ok(p)) => r matches Ok(Ok(v)) && v@ == p,
                Ok(Err(e)) => r matches Ok(Err(f)) && f@ == e,
                Err(b) => r matches Err(c) && c == b,
            },
    {
        match split_request_id(body) {
            Ok((id, payload)) => if id == self.id {
                Ok(Ok(slice_to_vec(payload)))
            } else {
                Err(Breach::RequestId)
            },
            Err(e) => Ok(Err(Error::Io(e))),
        }
    }
}

/// A request that is answered with a status.
#[derive(Debug)]
pub struct StatusCall {
    pub request: Request,
}

impl StatusCall {
    /// Makes sense of the payload of the reply.
    pub fn finish(&self, cmd: u8, data: &[u8]) -> (r: Result<(), Error>)
        ensures
            match status_answer(cmd, data@) {
                Ok(()) => r is Ok,
                Err(e) => r matches Err(f) && f@ == e,
            },
    {
        expect_status(cmd, data)
    }

    /// Makes sense of the packet that came next.
    pub fn complete(&self, kind: u8, body: &[u8]) -> (r: Answer<()>)
        ensures
            match replied(self.request.id, body@, |p: Seq<u8>| Ok(status_answer(kind, p))) {
                Ok(Ok(_)) => r matches Ok(Ok(_)),
                Ok(Err(e)) => r matches Ok(Err(f)) && f@ == e,
                Err(b) => r matches Err(c) && c == b,
            },
    {
        match self.request.accept(body) {
            Ok(Ok(payload)) => Ok(self.finish(kind, payload.as_slice())),
            Ok(Err(e)) => Ok(Err(e)),
            Err(b) => Err(b),
        }
    }
}

/// A request that is answered with a name.
#[derive(Debug)]
pub struct NameCall {
    pub request: Request,
}

impl NameCall {
    /// Makes sense of the payload of the reply.
    pub fn finish(&self, cmd: u8, data: &[u8]) -> (r: Answer<String>)
        ensures
            match first_name_answer(cmd, data@) {
                Ok(Ok(v)) => r matches Ok(Ok(w)) && w@ == v,
                Ok(Err(e)) => r matches Ok(Err(f)) && f@ == e,
                Err(b) => r matches Err(c) && c == b,
            },
    {
        take_first_name(cmd, data)
    }

    /// Makes sense of the packet that came next.
    pub fn complete(&self, kind: u8, body: &[u8]) -> (r: Answer<String>)
        ensures
            match replied(self.request.id, body@, |p: Seq<u8>| first_name_answer(kind, p)) {
                Ok(Ok(v)) => r matches Ok(Ok(w)) && w@ == v,
                Ok(Err(e)) => r matches Ok(Err(f)) && f@ == e,
                Err(b) => r matches Err(c) && c == b,
            },
    {
        match self.request.accept(body) {
            Ok(Ok(payload)) => self.finish(kind, payload.as_slice()),
            Ok(Err(e)) => Ok(Err(e)),
            Err(b) => Err(b),
        }
    }
}

/// A request that is answered with the handle of a file.
#[derive(Debug)]
pub struct FileCall {
    pub request: Request,
}

impl FileCall {
    /// Makes sense of the payload of the reply.
    pub fn finish(&self, cmd: u8, data: &[u8]) -> (r: Answer<File>)
        ensures
            match handle_answer(cmd, data@) {
                Ok(Ok(v)) => r matches Ok(Ok(w)) && w.0@ == v,
                Ok(Err(e)) => r matches Ok(Err(f)) && f@ == e,
                Err(b) => r matches Err(c) && c == b,
            },
    {
        match take_handle(cmd, data) {
            Ok(Ok(h)) => Ok(Ok(File(h))),
            Ok(Err(e)) => Ok(Err(e)),
            Err(b) => Err(b),
        }
    }

    /// Makes sense of the packet that came next.
    pub fn complete(&self, kind: u8, body: &[u8]) -> (r: Answer<File>)
        ensures
            match replied(self.request.id, body@, |p: Seq<u8>| handle_answer(kind, p)) {
                Ok(Ok(v)) => r matches Ok(Ok(w)) && w.0@ == v,
                Ok(Err(e)) => r matches Ok(Err(f)) && f@ == e,
                Err(b) => r matches Err(c) && c == b,
            },
    {
        match self.request.accept(body) {
            Ok(Ok(payload)) => self.finish(kind, payload.as_slice()),
            Ok(Err(e)) => Ok(Err(e)),
            Err(b) => Err(b),
        }
    }
}

/// A request that is answered with the handle of a directory.
#[derive(Debug)]
pub struct DirectoryCall {
    pub request: Request,
}

impl DirectoryCall {
    /// Makes sense of the payload of the reply.
    pub fn finish(&self, cmd: u8, data: &[u8]) -> (r: Answer<Directory>)
        ensures
            match handle_answer(cmd, data@) {
                Ok(Ok(v)) => r matches Ok(Ok(w)) && w.0@ == v,
                Ok(Err(e)) => r matches Ok(Err(f)) && f@ == e,
                Err(b) => r matches Err(c) && c == b,
            },
    {
        match take_handle(cmd, data) {
            Ok(Ok(h)) => Ok(Ok(Directory(h))),
            Ok(Err(e)) => Ok(Err(e)),
            Err(b) => Err(b),
        }
    }

    /// Makes sense of the packet that came next.
    pub fn complete(&self, kind: u8, body: &[u8]) -> (r: Answer<Directory>)
        ensures
            match replied(self.request.id, body@, |p: Seq<u8>| handle_answer(kind, p)) {
                Ok(Ok(v)) => r matches Ok(Ok(w)) && w.0@ == v,
                Ok(Err(e)) => r matches Ok(Err(f)) && f@ == e,
                Err(b) => r matches Err(c) && c == b,
            },
    {
        match self.request.accept(body) {
            Ok(Ok(payload)) => self.finish(kind, payload.as_slice()),
            Ok(Err(e)) => Ok(Err(e)),
            Err(b) => Err(b),
        }
    }
}

/// A request that is answered with attributes.
#[derive(Debug)]
pub struct AttrsCall {
    pub request: Request,
}

impl AttrsCall {
    /// Makes sense of the payload of the reply.
    pub fn finish(&self, cmd: u8, data: &[u8]) -> (r: Answer<Attributes>)
        ensures
            match attrs_answer(cmd, data@) {
                Ok(Ok(v)) => r matches Ok(Ok(w)) && w@ == v,
                Ok(Err(e)) => r matches Ok(Err(f)) && f@ == e,
                Err(b) => r matches Err(c) && c == b,
            },
    {
        take_attrs(cmd, data)
    }

    /// Makes sense of the packet that came next.
    pub fn complete(&self, kind: u8, body: &[u8]) -> (r: Answer<Attributes>)
        ensures
            match replied(self.request.id, body@, |p: Seq<u8>| attrs_answer(kind, p)) {
                Ok(Ok(v)) => r matches Ok(Ok(w)) && w@ == v,
                Ok(Err(e)) => r matches Ok(Err(f)) && f@ == e,
                Err(b) => r matches Err(c) && c == b,
            },
    {
        match self.request.accept(body) {
            Ok(Ok(payload)) => self.finish(kind, payload.as_slice()),
            Ok(Err(e)) => Ok(Err(e)),
            Err(b) => Err(b),
        }
    }
}

/// A request that is answered with data.
#[derive(Debug)]
pub struct DataCall {
    pub request: Request,
}

impl DataCall {
    /// Makes sense of the payload of the reply.
    pub fn finish(&self, cmd: u8, data: &[u8]) -> (r: Answer<Vec<u8>>)
        ensures
            match data_answer(cmd, data@) {
                Ok(Ok(v)) => r matches Ok(Ok(w)) && w@ == v,
                Ok(Err(e)) => r matches Ok(Err(f)) && f@ == e,
                Err(b) => r matches Err(c) && c == b,
            },
    {
        take_data(cmd, data)
    }

    /// Makes sense of the packet that came next.
    pub fn complete(&self, kind: u8, body: &[u8]) -> (r: Answer<Vec<u8>>)
        ensures
            match replied(self.request.id, body@, |p: Seq<u8>| data_answer(kind, p)) {
                Ok(Ok(v)) => r matches Ok(Ok(w)) && w@ == v,
                Ok(Err(e)) => r matches Ok(Err(f)) && f@ == e,
                Err(b) => r matches Err(c) && c == b,
            },
    {
        match self.request.accept(body) {
            Ok(Ok(payload)) => self.finish(kind, payload.as_slice()),
            Ok(Err(e)) => Ok(Err(e)),
            Err(b) => Err(b),
        }
    }
}

/// A request that is answered with directory entries.
#[derive(Debug)]
pub struct ListingCall {
    pub request: Request,
}

impl ListingCall {
    /// Makes sense of the payload of the reply.
    pub fn finish(&self, cmd: u8, data: &[u8]) -> (r: Answer<Vec<(String, String, Attributes)>>)
        ensures
            match readdir_answer(cmd, data@) {
                Ok(Ok(v)) => r matches Ok(Ok(w)) && entry_views(w@) == v,
                Ok(Err(e)) => r matches Ok(Err(f)) && f@ == e,
                Err(b) => r matches Err(c) && c == b,
            },
    {
        take_readdir(cmd, data)
    }

    /// Makes sense of the packet that came next.
    pub fn complete(&self, kind: u8, body: &[u8]) -> (r: Answer<Vec<(String, String, Attributes)>>)
        ensures
            match replied(self.request.id, body@, |p: Seq<u8>| readdir_answer(kind, p)) {
                Ok(Ok(v)) => r matches Ok(Ok(w)) && entry_views(w@) == v,
                Ok(Err(e)) => r matches Ok(Err(f)) && f@ == e,
                Err(b) => r matches Err(c) && c == b,
            },
    {
        match self.request.accept(body) {
            Ok(Ok(payload)) => self.finish(kind, payload.as_slice()),
            Ok(Err(e)) => Ok(Err(e)),
            Err(b) => Err(b),
        }
    }
}

/// A request that is answered with a status or with data.
#[derive(Debug)]
pub struct ExtendedCall {
    pub request: Request,
}

impl ExtendedCall {
    /// Makes sense of the payload of the reply.
    pub fn finish(&self, cmd: u8, data: Vec<u8>) -> (r: Result<Option<Vec<u8>>, Error>)
        ensures
            match extended_answer(cmd, data@) {
                Ok(Some(b)) => r matches Ok(Some(v)) && v@ == b,
                Ok(None) => r matches Ok(None),
                Err(e) => r matches Err(f) && f@ == e,
            },
    {
        expect_extended(cmd, data)
    }

    /// Makes sense of the packet that came next.
    pub fn complete(&self, kind: u8, body: &[u8]) -> (r: Answer<Option<Vec<u8>>>)
        ensures
            match replied(self.request.id, body@, |p: Seq<u8>| Ok(extended_answer(kind, p))) {
                Ok(Ok(Some(b))) => r matches Ok(Ok(Some(w))) && w@ == b,
                Ok(Ok(None)) => r matches Ok(Ok(None)),
                Ok(Err(e)) => r matches Ok(Err(f)) && f@ == e,
                Err(b) => r matches Err(c) && c == b,
            },
    {
        match self.request.accept(body) {
            Ok(Ok(payload)) => Ok(self.finish(kind, payload)),
            Ok(Err(e)) => Ok(Err(e)),
            Err(b) => Err(b),
        }
    }
}

/// An extended request whose data, if any comes, is of no interest.
#[derive(Debug)]
pub struct SeekCall {
    pub request: Request,
}

impl SeekCall {
    /// Makes sense of the payload of the reply.
    pub fn finish(&self, cmd: u8, data: Vec<u8>) -> (r: Result<(), Error>)
        ensures
            match extended_answer(cmd, data@) {
                Ok(_) => r is Ok,
                Err(e) => r matches Err(f) && f@ == e,
            },
    {
        match expect_extended(cmd, data) {
            Ok(_) => Ok(()),
            Err(e) => Err(e),
        }
    }

    /// Makes sense of the packet that came next.
    pub fn complete(&self, kind: u8, body: &[u8]) -> (r: Answer<()>)
        ensures
            match replied(self.request.id, body@, |p: Seq<u8>| Ok(extended_answer(kind, p))) {
                Ok(Ok(_)) => r matches Ok(Ok(_)),
                Ok(Err(e)) => r matches Ok(Err(f)) && f@ == e,
                Err(b) => r matches Err(c) && c == b,
            },
    {
        match self.request.accept(body) {
            Ok(Ok(payload)) => Ok(self.finish(kind, payload)),
            Ok(Err(e)) => Ok(Err(e)),
            Err(b) => Err(b),
        }
    }
}

/// A client that has shaken hands.
#[derive(Debug)]
pub struct SftpClient {
    version: u32,
    extensions: Vec<(String, String)>,
    last_request_id: u32,
}

/// The contents of a [`SftpClient`].
pub struct SessionView {
    /// The version that the server speaks.
    pub version: u32,
    /// The extensions that the server has.
    pub extensions: Seq<(Seq<char>, Seq<char>)>,
    /// The id of the next request.
    pub next_id: u32,
}

impl View for SftpClient {
    type V = SessionView;

    closed spec fn view(&self) -> SessionView {
        SessionView {
            version: self.version,
            extensions: pair_texts(self.extensions@),
            next_id: self.last_request_id,
        }
    }
}

/// What the first reply makes of a client.
pub open spec fn handshake(kind: u8, body: Seq<u8>) -> Result<SessionView, IoErrorView> {
    if kind != SSH_FXP_VERSION {
        Err(other_error("Unexpected response to init: "@ + decimal(kind as nat)))
    } else {
        match parse_announcement(body) {
            Err(e) => Err(e),
            Ok((version, extensions)) => Ok(SessionView { version, extensions, next_id: 0 }),
        }
    }
}

/// The request that a client issues next, for this command with this body.
pub open spec fn issued(c: SessionView, cmd: u8, body: Seq<u8>) -> RequestView {
    RequestView { id: c.next_id, packet: packet(cmd, numbered(c.next_id, body)) }
}

/// A client that has issued one more request.
pub open spec fn advanced(c: SessionView) -> SessionView {
    SessionView { next_id: successor(c.next_id), ..c }
}

/// The flags that were given, or none.
pub open spec fn flags_or_none(flags: Option<u32>) -> u32 {
    match flags {
        Some(f) => f,
        None => 0,
    }
}

/// The flags that were given, or none.
pub fn given_flags(flags: Option<u32>) -> (f: u32)
    ensures
        f == flags_or_none(flags),
{
    match flags {
        Some(f) => f,
        None => 0,
    }
}

impl SftpClient {
    /// The first packet of a connection.
    pub fn init_packet() -> (buf: Vec<u8>)
        ensures
            buf@ == packet(SSH_FXP_INIT, be32(PROTOCOL_VERSION)),
    {
        let mut buf = Vec::new();
        let _ = write_raw_packet(&mut buf, SSH_FXP_INIT, build_init().as_slice());
        assert(buf@ =~= packet(SSH_FXP_INIT, be32(PROTOCOL_VERSION)));
        buf
    }

    /// The client that the reply to the first packet makes.
    pub fn new(kind: u8, body: &[u8]) -> (r: Result<SftpClient, IoError>)
        ensures
            match handshake(kind, body@) {
                Ok(c) => r matches Ok(d) && d@ == c,
                Err(e) => r matches Err(f) && f@ == e,
            },
    {
        if kind != SSH_FXP_VERSION {
            let mut message = String::from_str("Unexpected response to init: ");
            push_decimal(&mut message, kind as u64);
            return Err(IoError::other(message));
        }
        match parse_version(body) {
            Ok((version, extensions)) => Ok(
                SftpClient { version, extensions, last_request_id: 0 },
            ),
            Err(e) => Err(e),
        }
    }

    /// The extensions that the server has.
    pub fn extensions(&self) -> (e: &[(String, String)])
        ensures
            pair_texts(e@) == self@.extensions,
    {
        self.extensions.as_slice()
    }

    /// The version that the server speaks.
    pub fn version(&self) -> (v: u32)
        ensures
            v == self@.version,
    {
        self.version
    }

    /// Issues a request: gives it the next id and makes its packet.
    pub fn process(&mut self, cmd: u8, body: &[u8]) -> (request: Request)
        ensures
            request@ == issued(old(self)@, cmd, body@),
            final(self)@ == advanced(old(self)@),
    {
        let id: u32 = self.last_request_id;
        self.last_request_id = next_number(id);
        let numbered_body = with_request_id(id, body);
        let mut bytes = Vec::new();
        let _ = write_raw_packet(&mut bytes, cmd, numbered_body.as_slice());
        assert(bytes@ =~= packet(cmd, numbered(id, body@)));
        Request { id, packet: bytes }
    }

    /// Creates a directory.
    pub fn mkdir(&mut self, path: &str, attr: &Attributes) -> (call: StatusCall)
        requires
            encodable(attr@),
        ensures
            call.request@ == issued(
                old(self)@,
                SSH_FXP_MKDIR,
                str_field(path@) + encode_attributes(attr@),
            ),
            final(self)@ == advanced(old(self)@),
    {
        match build_path_and_attrs(path, attr) {
            Ok(body) => StatusCall { request: self.process(SSH_FXP_MKDIR, body.as_slice()) },
            Err(_) => unreached(),
        }
    }

    /// Removes a directory.
    pub fn rmdir(&mut self, path: &str) -> (call: StatusCall)
        ensures
            call.request@ == issued(old(self)@, SSH_FXP_RMDIR, str_field(path@)),
            final(self)@ == advanced(old(self)@),
    {
        let body = build_path_only(path);
        StatusCall { request: self.process(SSH_FXP_RMDIR, body.as_slice()) }
    }

    /// Reads the target of a symbolic link.
    pub fn readlink(&mut self, path: &str) -> (call: NameCall)
        ensures
            call.request@ == issued(old(self)@, SSH_FXP_READLINK, str_field(path@)),
            final(self)@ == advanced(old(self)@),
    {
        let body = build_path_only(path);
        NameCall { request: self.process(SSH_FXP_READLINK, body.as_slice()) }
    }

    /// Creates a symbolic link.
    pub fn symlink(&mut self, path: &str, target: &str) -> (call: StatusCall)
        ensures
            call.request@ == issued(
                old(self)@,
                SSH_FXP_SYMLINK,
                str_field(path@) + str_field(target@),
            ),
            final(self)@ == advanced(old(self)@),
    {
        let body = build_two_paths(path, target);
        StatusCall { request: self.process(SSH_FXP_SYMLINK, body.as_slice()) }
    }

    /// Creates a hard link.
    pub fn hardlink(&mut self, path: &str, target: &str) -> (call: StatusCall)
        ensures
            call.request@ == issued(
                old(self)@,
                SSH_FXP_LINK,
                str_field(path@) + str_field(target@) + seq![link_byte(false)],
            ),
            final(self)@ == advanced(old(self)@),
    {
        self.link(path, target, false)
    }

    /// Creates a link, hard or symbolic.
    pub fn link(&mut self, path: &str, target: &str, symlink: bool) -> (call: StatusCall)
        ensures
            call.request@ == issued(
                old(self)@,
                SSH_FXP_LINK,
                str_field(path@) + str_field(target@) + seq![link_byte(symlink)],
            ),
            final(self)@ == advanced(old(self)@),
    {
        let body = build_link(path, target, symlink);
        StatusCall { request: self.process(SSH_FXP_LINK, body.as_slice()) }
    }

    /// Opens a file.
    pub fn open(&mut self, path: &str, options: OpenOptions, attr: &Attributes) -> (call: FileCall)
        requires
            encodable(attr@),
        ensures
            call.request@ == issued(
                old(self)@,
                SSH_FXP_OPEN,
                str_field(path@) + be32(options@) + encode_attributes(attr@),
            ),
            final(self)@ == advanced(old(self)@),
    {
        match build_open(path, options.get(), attr) {
            Ok(body) => FileCall { request: self.process(SSH_FXP_OPEN, body.as_slice()) },
            Err(_) => unreached(),
        }
    }

    /// Makes a path absolute.
    pub fn realpath(
        &mut self,
        path: &str,
        control_byte: Option<u8>,
        compose_path: Option<&str>,
    ) -> (call: NameCall)
        ensures
            call.request@ == issued(
                old(self)@,
                SSH_FXP_REALPATH,
                realpath_body(path@, control_byte, opt_chars(compose_path)),
            ),
            final(self)@ == advanced(old(self)@),
    {
        let body = build_realpath(path, control_byte, compose_path);
        NameCall { request: self.process(SSH_FXP_REALPATH, body.as_slice()) }
    }

    /// Sets the attributes of a path.
    pub fn setstat(&mut self, path: &str, attr: &Attributes) -> (call: StatusCall)
        requires
            encodable(attr@),
        ensures
            call.request@ == issued(
                old(self)@,
                SSH_FXP_SETSTAT,
                str_field(path@) + encode_attributes(attr@),
            ),
            final(self)@ == advanced(old(self)@),
    {
        match build_path_and_attrs(path, attr) {
            Ok(body) => StatusCall { request: self.process(SSH_FXP_SETSTAT, body.as_slice()) },
            Err(_) => unreached(),
        }
    }

    /// Reads the attributes of a path, following links.
    pub fn stat(&mut self, path: &str, flags: Option<u32>) -> (call: AttrsCall)
        ensures
            call.request@ == issued(
                old(self)@,
                SSH_FXP_STAT,
                str_field(path@) + be32(flags_or_none(flags)),
            ),
            final(self)@ == advanced(old(self)@),
    {
        let body = build_path_and_flags(path, given_flags(flags));
        AttrsCall { request: self.process(SSH_FXP_STAT, body.as_slice()) }
    }

    /// Removes a file.
    pub fn remove(&mut self, path: &str) -> (call: StatusCall)
        ensures
            call.request@ == issued(old(self)@, SSH_FXP_REMOVE, str_field(path@)),
            final(self)@ == advanced(old(self)@),
    {
        let body = build_path_only(path);
        StatusCall { request: self.process(SSH_FXP_REMOVE, body.as_slice()) }
    }

    /// Renames a path.
    pub fn rename(&mut self, oldpath: &str, newpath: &str, flags: Option<u32>) -> (call: StatusCall)
        ensures
            call.request@ == issued(
                old(self)@,
                SSH_FXP_RENAME,
                str_field(oldpath@) + str_field(newpath@) + be32(rename_flags(flags)),
            ),
            final(self)@ == advanced(old(self)@),
    {
        let body = build_rename(oldpath, newpath, flags);
        StatusCall { request: self.process(SSH_FXP_RENAME, body.as_slice()) }
    }

    /// Reads the attributes of a path, not following links.
    pub fn lstat(&mut self, path: &str, flags: Option<u32>) -> (call: AttrsCall)
        ensures
            call.request@ == issued(
                old(self)@,
                SSH_FXP_LSTAT,
                str_field(path@) + be32(flags_or_none(flags)),
            ),
            final(self)@ == advanced(old(self)@),
    {
        let body = build_path_and_flags(path, given_flags(flags));
        AttrsCall { request: self.process(SSH_FXP_LSTAT, body.as_slice()) }
    }

    /// Opens a directory.
    pub fn opendir(&mut self, path: &str) -> (call: DirectoryCall)
        ensures
            call.request@ == issued(old(self)@, SSH_FXP_OPENDIR, str_field(path@)),
            final(self)@ == advanced(old(self)@),
    {
        let body = build_path_only(path);
        DirectoryCall { request: self.process(SSH_FXP_OPENDIR, body.as_slice()) }
    }

    /// Sends an extended request.
    pub fn extended(&mut self, request: &str, data: &[u8]) -> (call: ExtendedCall)
        ensures
            call.request@ == issued(old(self)@, SSH_FXP_EXTENDED, str_field(request@) + data@),
            final(self)@ == advanced(old(self)@),
    {
        let body = build_extended(request, data);
        ExtendedCall { request: self.process(SSH_FXP_EXTENDED, body.as_slice()) }
    }

    /// Locks a byte range.
    pub fn block(
        &mut self,
        file: &File,
        offset: u64,
        length: u64,
        lockmask: u32,
    ) -> (call: StatusCall)
        ensures
            call.request@ == issued(
                old(self)@,
                SSH_FXP_BLOCK,
                bytes_field(file.0@) + be64(offset) + be64(length) + be32(lockmask),
            ),
            final(self)@ == advanced(old(self)@),
    {
        let body = build_block(file.0.as_slice(), offset, length, lockmask);
        StatusCall { request: self.process(SSH_FXP_BLOCK, body.as_slice()) }
    }

    /// Unlocks a byte range.
    pub fn unblock(&mut self, file: &File, offset: u64, length: u64) -> (call: StatusCall)
        ensures
            call.request@ == issued(
                old(self)@,
                SSH_FXP_UNBLOCK,
                bytes_field(file.0@) + be64(offset) + be64(length),
            ),
            final(self)@ == advanced(old(self)@),
    {
        let body = build_unblock(file.0.as_slice(), offset, length);
        StatusCall { request: self.process(SSH_FXP_UNBLOCK, body.as_slice()) }
    }

    /// Sets the attributes of an open file.
    pub fn fsetstat(&mut self, file: &File, attr: &Attributes) -> (call: StatusCall)
        requires
            encodable(attr@),
        ensures
            call.request@ == issued(
                old(self)@,
                SSH_FXP_FSETSTAT,
                bytes_field(file.0@) + encode_attributes(attr@),
            ),
            final(self)@ == advanced(old(self)@),
    {
        match build_handle_and_attrs(file.0.as_slice(), attr) {
            Ok(body) => StatusCall { request: self.process(SSH_FXP_FSETSTAT, body.as_slice()) },
            Err(_) => unreached(),
        }
    }

    /// Reads the attributes of an open file.
    pub fn fstat(&mut self, file: &File, flags: Option<u32>) -> (call: AttrsCall)
        ensures
            call.request@ == issued(
                old(self)@,
                SSH_FXP_FSTAT,
                bytes_field(file.0@) + be32(flags_or_none(flags)),
            ),
            final(self)@ == advanced(old(self)@),
    {
        let body = build_handle_and_flags(file.0.as_slice(), given_flags(flags));
        AttrsCall { request: self.process(SSH_FXP_FSTAT, body.as_slice()) }
    }

    /// Writes bytes at an offset.
    pub fn pwrite(&mut self, file: &File, offset: u64, data: &[u8]) -> (call: StatusCall)
        ensures
            call.request@ == issued(
                old(self)@,
                SSH_FXP_WRITE,
                bytes_field(file.0@) + be64(offset) + bytes_field(data@),
            ),
            final(self)@ == advanced(old(self)@),
    {
        let body = build_pwrite(file.0.as_slice(), offset, data);
        StatusCall { request: self.process(SSH_FXP_WRITE, body.as_slice()) }
    }

    /// Reads bytes at an offset.
    pub fn pread(&mut self, file: &File, offset: u64, length: u32) -> (call: DataCall)
        ensures
            call.request@ == issued(
                old(self)@,
                SSH_FXP_READ,
                bytes_field(file.0@) + be64(offset) + be32(length),
            ),
            final(self)@ == advanced(old(self)@),
    {
        let body = build_pread(file.0.as_slice(), offset, length);
        DataCall { request: self.process(SSH_FXP_READ, body.as_slice()) }
    }

    /// Closes a file.
    pub fn fclose(&mut self, file: &File) -> (call: StatusCall)
        ensures
            call.request@ == issued(old(self)@, SSH_FXP_CLOSE, bytes_field(file.0@)),
            final(self)@ == advanced(old(self)@),
    {
        let body = build_handle_only(file.0.as_slice());
        StatusCall { request: self.process(SSH_FXP_CLOSE, body.as_slice()) }
    }

    /// Moves a file opened as text to a line.
    pub fn flineseek(&mut self, file: &File, lineno: u64) -> (call: SeekCall)
        ensures
            call.request@ == issued(
                old(self)@,
                SSH_FXP_EXTENDED,
                str_field("text-seek"@) + (bytes_field(file.0@) + be64(lineno)),
            ),
            final(self)@ == advanced(old(self)@),
    {
        let mut place = build_handle_only(file.0.as_slice());
        put_u64(&mut place, lineno);
        let call = self.extended("text-seek", place.as_slice());
        SeekCall { request: call.request }
    }

    /// Closes a directory.
    pub fn closedir(&mut self, dir: &Directory) -> (call: StatusCall)
        ensures
            call.request@ == issued(old(self)@, SSH_FXP_CLOSE, bytes_field(dir.0@)),
            final(self)@ == advanced(old(self)@),
    {
        let body = build_handle_only(dir.0.as_slice());
        StatusCall { request: self.process(SSH_FXP_CLOSE, body.as_slice()) }
    }

    /// Reads the next entries of a directory.
    pub fn readdir(&mut self, dir: &Directory) -> (call: ListingCall)
        ensures
            call.request@ == issued(old(self)@, SSH_FXP_READDIR, bytes_field(dir.0@)),
            final(self)@ == advanced(old(self)@),
    {
        let body = build_handle_only(dir.0.as_slice());
        ListingCall { request: self.process(SSH_FXP_READDIR, body.as_slice()) }
    }
}

// What holds of every client.

/// The client after so many requests.
pub open spec fn after_requests(c: SessionView, n: nat) -> SessionView
    decreases n,
{
    if n == 0 {
        c
    } else {
        advanced(after_requests(c, (n - 1) as nat))
    }
}

proof fn lemma_ids_count_up(c: SessionView, n: nat)
    ensures
        after_requests(c, n).next_id == (c.next_id + n) % 0x1_0000_0000,
    decreases n,
{
    if n > 0 {
        lemma_ids_count_up(c, (n - 1) as nat);
        let before = c.next_id + n - 1;
        assert((before % 0x1_0000_0000 + 1) % 0x1_0000_0000 == (before + 1) % 0x1_0000_0000);
    }
}

/// Request ids count up from the first and start again at zero behind the
/// largest, so that no two of any `0x1_0000_0000` requests in a row share one.
pub proof fn law_request_ids_are_distinct(c: SessionView, i: nat, j: nat)
    requires
        i < j < i + 0x1_0000_0000,
    ensures
        after_requests(c, i).next_id == (c.next_id + i) % 0x1_0000_0000,
        after_requests(c, i).next_id != after_requests(c, j).next_id,
{
    lemma_ids_count_up(c, i);
    lemma_ids_count_up(c, j);
    let a = c.next_id + i;
    let b = c.next_id + j;
    assert(a % 0x1_0000_0000 != b % 0x1_0000_0000);
}

/// Requests change nothing of a client but the id of the next one.
pub proof fn law_requests_keep_the_handshake(c: SessionView, n: nat)
    ensures
        after_requests(c, n).version == c.version,
        after_requests(c, n).extensions == c.extensions,
    decreases n,
{
    if n > 0 {
        law_requests_keep_the_handshake(c, (n - 1) as nat);
    }
}

/// The server can read command, id and body back from the packet of a request.
pub proof fn law_request_can_be_read(c: SessionView, cmd: u8, body: Seq<u8>, rest: Seq<u8>)
    requires
        body.len() + 5 < 0x8000_0000,
    ensures
        parse_packet(issued(c, cmd, body).packet + rest) == Ok::<_, IoErrorView>(
            ((cmd, numbered(c.next_id, body)), rest),
        ),
        parse_numbered(numbered(c.next_id, body)) == Ok::<_, IoErrorView>((c.next_id, body)),
{
    law_packet_round_trip(cmd, numbered(c.next_id, body), rest);
    law_request_id_round_trip(c.next_id, body);
}

/// What a server sends in reply to a request means to the client what it says.
pub proof fn law_reply_means_its_payload<T>(
    id: u32,
    payload: Seq<u8>,
    meaning: spec_fn(Seq<u8>) -> AnswerView<T>,
)
    ensures
        replied(id, numbered(id, payload), meaning) == meaning(payload),
{
    law_request_id_round_trip(id, payload);
}

/// A request accepts the reply that carries its id, with the payload that was
/// sent, and the reply to no other request.
pub proof fn law_reply_is_matched_by_id(id: u32, reply_id: u32, payload: Seq<u8>)
    ensures
        payload_answer(id, numbered(reply_id, payload)) == (if reply_id == id {
            Ok::<_, Breach>(Ok::<_, ErrorView>(payload))
        } else {
            Err(Breach::RequestId)
        }),
{
    law_request_id_round_trip(reply_id, payload);
}

} // verus!
