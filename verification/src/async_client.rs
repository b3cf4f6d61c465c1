//! A client with any number of requests under way.
//!
//! Whoever waits for a reply is kept, by request id, until the reply comes or
//! the connection is lost. Once it is lost nobody is kept any more.

use std::collections::HashMap;
use vstd::pervasive::unreached;
use vstd::prelude::*;
use vstd::slice::slice_to_vec;
use vstd::string::*;

use crate::attributes::{encodable, encode_attributes, pair_texts, Attributes};
use crate::constants::{
    SSH_FXP_BLOCK, SSH_FXP_CLOSE, SSH_FXP_EXTENDED, SSH_FXP_FSETSTAT, SSH_FXP_FSTAT,
    SSH_FXP_LINK, SSH_FXP_LSTAT, SSH_FXP_MKDIR, SSH_FXP_OPEN, SSH_FXP_OPENDIR, SSH_FXP_READ,
    SSH_FXP_READDIR, SSH_FXP_READLINK, SSH_FXP_REALPATH, SSH_FXP_REMOVE, SSH_FXP_RENAME,
    SSH_FXP_RMDIR, SSH_FXP_SETSTAT, SSH_FXP_STAT, SSH_FXP_SYMLINK, SSH_FXP_UNBLOCK,
    SSH_FXP_WRITE,
};
use crate::error::{other_error, IoError};
use crate::protocol::{
    build_block, build_extended, build_handle_and_attrs, build_handle_and_flags,
    build_handle_only, build_link, build_open, build_path_and_attrs, build_path_and_flags,
    build_path_only, build_pread, build_pwrite, build_realpath, build_rename, build_two_paths,
    build_unblock, law_request_id_round_trip, link_byte, numbered, opt_chars, packet_length,
    parse_numbered, realpath_body, rename_flags, split_request_id, Framing,
};
use crate::sync::{
    advanced, flags_or_none, given_flags, handshake, issued, AttrsCall, DataCall, DirectoryCall,
    ExtendedCall, FileCall, ListingCall, NameCall, Request, SeekCall, SessionView, SftpClient,
    StatusCall,
};
use crate::types::{Directory, File, OpenOptions};
use crate::wire::{be32, be64, bytes_field, from_be32, put_u64, str_field};

verus! {

broadcast use vstd::std_specs::hash::group_hash_axioms;

/// A client that has shaken hands, and those who wait for its replies.
pub struct AsyncSftpClient<T> {
    session: SftpClient,
    pending: HashMap<u32, T>,
    lost: bool,
}

/// The contents of an [`AsyncSftpClient`].
pub struct AsyncView<T> {
    pub session: SessionView,
    /// Who waits for the reply to which request.
    pub pending: Map<u32, T>,
    /// Whether the connection is lost, so that no reply can come.
    pub lost: bool,
}

impl<T> View for AsyncSftpClient<T> {
    type V = AsyncView<T>;

    closed spec fn view(&self) -> AsyncView<T> {
        AsyncView { session: self.session@, pending: self.pending@, lost: self.lost }
    }
}

/// A client that has issued one more request, for whose reply `waiter` waits.
/// If the connection is lost no reply can come, and `waiter` is let go at once.
pub open spec fn awaiting<T>(c: AsyncView<T>, waiter: T) -> AsyncView<T> {
    AsyncView {
        session: advanced(c.session),
        pending: if c.lost {
            c.pending
        } else {
            c.pending.insert(c.session.next_id, waiter)
        },
        lost: c.lost,
    }
}

/// A client in which nobody waits for the reply to this request.
pub open spec fn cancelled<T>(c: AsyncView<T>, id: u32) -> AsyncView<T> {
    AsyncView { pending: c.pending.remove(id), ..c }
}

/// A client that has just shaken hands.
pub open spec fn fresh<T>(session: SessionView) -> AsyncView<T> {
    AsyncView { session, pending: Map::empty(), lost: false }
}

/// What comes from the connection.
#[derive(Debug)]
pub enum ReadEvent {
    /// A packet: its kind and its body.
    Packet(u8, Vec<u8>),
    /// The connection is closed or broken.
    Failed,
}

/// What is to be done about it.
#[derive(Debug)]
pub enum ReadAction<T> {
    /// Hand kind and payload to the one who waits for them; read on.
    Deliver(T, u8, Vec<u8>),
    /// Read on.
    Ignore,
    /// Read no more.
    Stop,
}

/// The contents of a [`ReadAction`].
pub enum ReadActionView<T> {
    Deliver(T, u8, Seq<u8>),
    Ignore,
    Stop,
}

impl<T> View for ReadAction<T> {
    type V = ReadActionView<T>;

    open spec fn view(&self) -> ReadActionView<T> {
        match self {
            ReadAction::Deliver(waiter, cmd, payload) => ReadActionView::Deliver(
                *waiter,
                *cmd,
                payload@,
            ),
            ReadAction::Ignore => ReadActionView::Ignore,
            ReadAction::Stop => ReadActionView::Stop,
        }
    }
}

/// What is to be done about a packet: one that carries the id of a pending
/// request goes to the one who waits for it, any other is passed over.
pub open spec fn packet_action<T>(c: AsyncView<T>, cmd: u8, body: Seq<u8>) -> ReadActionView<T> {
    match parse_numbered(body) {
        Ok((id, payload)) => if c.pending.contains_key(id) {
            ReadActionView::Deliver(c.pending[id], cmd, payload)
        } else {
            ReadActionView::Ignore
        },
        Err(_) => ReadActionView::Ignore,
    }
}

/// The client after a packet: nobody waits for the reply that it carries.
pub open spec fn after_packet<T>(c: AsyncView<T>, body: Seq<u8>) -> AsyncView<T> {
    match parse_numbered(body) {
        Ok((id, _)) => cancelled(c, id),
        Err(_) => c,
    }
}

/// What is to be done about an event.
pub open spec fn event_action<T>(c: AsyncView<T>, event: ReadEvent) -> ReadActionView<T> {
    match event {
        ReadEvent::Packet(cmd, body) => packet_action(c, cmd, body@),
        ReadEvent::Failed => ReadActionView::Stop,
    }
}

/// The client after an event. When the connection is gone nobody waits.
pub open spec fn after_event<T>(c: AsyncView<T>, event: ReadEvent) -> AsyncView<T> {
    match event {
        ReadEvent::Packet(_, body) => after_packet(c, body@),
        ReadEvent::Failed => AsyncView { session: c.session, pending: Map::empty(), lost: true },
    }
}

/// The length of the packet that follows, which is an error if it is zero.
pub fn read_length(header: &[u8; 4]) -> (r: Result<u32, IoError>)
    requires
        from_be32(header@) < 0x8000_0000,
    ensures
        match r {
            Ok(n) => n == from_be32(header@) && n > 0,
            Err(e) => from_be32(header@) == 0 && e@ == other_error("zero-length packet"@),
        },
{
    match packet_length(header) {
        Framing::Length(n) => Ok(n),
        Framing::Empty => Err(IoError::other(String::from_str("zero-length packet"))),
        Framing::Negative => unreached(),
    }
}

/// The error of a request whose reply can no longer come.
pub fn lost_reply() -> (e: IoError)
    ensures
        e@ == other_error("reader task closed before response arrived"@),
{
    IoError::other(String::from_str("reader task closed before response arrived"))
}

impl<T> AsyncSftpClient<T> {
    /// The client that the reply to the first packet makes.
    pub fn new(kind: u8, body: &[u8]) -> (r: Result<AsyncSftpClient<T>, IoError>)
        ensures
            match handshake(kind, body@) {
                Ok(c) => r matches Ok(d) && d@ == fresh::<T>(c),
                Err(e) => r matches Err(f) && f@ == e,
            },
    {
        match SftpClient::new(kind, body) {
            Ok(session) => Ok(AsyncSftpClient { session, pending: HashMap::new(), lost: false }),
            Err(e) => Err(e),
        }
    }

    /// The extensions that the server has.
    pub fn extensions(&self) -> (e: &[(String, String)])
        ensures
            pair_texts(e@) == self@.session.extensions,
    {
        self.session.extensions()
    }

    /// The version that the server speaks.
    pub fn version(&self) -> (v: u32)
        ensures
            v == self@.session.version,
    {
        self.session.version()
    }

    /// Whether the connection is lost: whoever asks for something waits for
    /// nothing, and [`lost_reply`] is the answer.
    pub fn is_lost(&self) -> (b: bool)
        ensures
            b == self@.lost,
    {
        self.lost
    }

    /// Issues a request for whose reply `waiter` waits. If the connection is
    /// lost, `waiter` is dropped.
    pub fn process(&mut self, cmd: u8, body: &[u8], waiter: T) -> (request: Request)
        ensures
            request@ == issued(old(self)@.session, cmd, body@),
            final(self)@ == awaiting(old(self)@, waiter),
    {
        let request = self.session.process(cmd, body);
        if !self.lost {
            let _ = self.pending.insert(request.id, waiter);
        }
        request
    }

    /// Gives up waiting for the reply to a request that could not be sent.
    pub fn cancel(&mut self, id: u32)
        ensures
            final(self)@ == cancelled(old(self)@, id),
    {
        let _ = self.pending.remove(&id);
        assert(self.pending@ =~= old(self).pending@.remove(id));
    }

    /// Takes what came from the connection and says what is to be done.
    pub fn run_reader(&mut self, event: ReadEvent) -> (action: ReadAction<T>)
        ensures
            action@ == event_action(old(self)@, event),
            final(self)@ == after_event(old(self)@, event),
    {
        match event {
            ReadEvent::Packet(cmd, body) => match split_request_id(body.as_slice()) {
                Ok((id, payload)) => {
                    let waiter = self.pending.remove(&id);
                    assert(self.pending@ =~= old(self).pending@.remove(id));
                    match waiter {
                        Some(w) => ReadAction::Deliver(w, cmd, slice_to_vec(payload)),
                        None => ReadAction::Ignore,
                    }
                },
                Err(_) => ReadAction::Ignore,
            },
            ReadEvent::Failed => {
                self.pending.clear();
                self.lost = true;
                ReadAction::Stop
            },
        }
    }

    /// Creates a directory.
    pub fn mkdir(&mut self, path: &str, attr: &Attributes, waiter: T) -> (call: StatusCall)
        requires
            encodable(attr@),
        ensures
            call.request@ == issued(
                old(self)@.session,
                SSH_FXP_MKDIR,
                str_field(path@) + encode_attributes(attr@),
            ),
            final(self)@ == awaiting(old(self)@, waiter),
    {
        match build_path_and_attrs(path, attr) {
            Ok(body) => StatusCall {
                request: self.process(SSH_FXP_MKDIR, body.as_slice(), waiter),
            },
            Err(_) => unreached(),
        }
    }

    /// Removes a directory.
    pub fn rmdir(&mut self, path: &str, waiter: T) -> (call: StatusCall)
        ensures
            call.request@ == issued(old(self)@.session, SSH_FXP_RMDIR, str_field(path@)),
            final(self)@ == awaiting(old(self)@, waiter),
    {
        let body = build_path_only(path);
        StatusCall { request: self.process(SSH_FXP_RMDIR, body.as_slice(), waiter) }
    }

    /// Reads the target of a symbolic link.
    pub fn readlink(&mut self, path: &str, waiter: T) -> (call: NameCall)
        ensures
            call.request@ == issued(old(self)@.session, SSH_FXP_READLINK, str_field(path@)),
            final(self)@ == awaiting(old(self)@, waiter),
    {
        let body = build_path_only(path);
        NameCall { request: self.process(SSH_FXP_READLINK, body.as_slice(), waiter) }
    }

    /// Creates a symbolic link.
    pub fn symlink(&mut self, path: &str, target: &str, waiter: T) -> (call: StatusCall)
        ensures
            call.request@ == issued(
                old(self)@.session,
                SSH_FXP_SYMLINK,
                str_field(path@) + str_field(target@),
            ),
            final(self)@ == awaiting(old(self)@, waiter),
    {
        let body = build_two_paths(path, target);
        StatusCall { request: self.process(SSH_FXP_SYMLINK, body.as_slice(), waiter) }
    }

    /// Creates a hard link.
    pub fn hardlink(&mut self, path: &str, target: &str, waiter: T) -> (call: StatusCall)
        ensures
            call.request@ == issued(
                old(self)@.session,
                SSH_FXP_LINK,
                str_field(path@) + str_field(target@) + seq![link_byte(false)],
            ),
            final(self)@ == awaiting(old(self)@, waiter),
    {
        self.link(path, target, false, waiter)
    }

    /// Creates a link, hard or symbolic.
    pub fn link(&mut self, path: &str, target: &str, symlink: bool, waiter: T) -> (call: StatusCall)
        ensures
            call.request@ == issued(
                old(self)@.session,
                SSH_FXP_LINK,
                str_field(path@) + str_field(target@) + seq![link_byte(symlink)],
            ),
            final(self)@ == awaiting(old(self)@, waiter),
    {
        let body = build_link(path, target, symlink);
        StatusCall { request: self.process(SSH_FXP_LINK, body.as_slice(), waiter) }
    }

    /// Opens a file.
    pub fn open(
        &mut self,
        path: &str,
        options: OpenOptions,
        attr: &Attributes,
        waiter: T,
    ) -> (call: FileCall)
        requires
            encodable(attr@),
        ensures
            call.request@ == issued(
                old(self)@.session,
                SSH_FXP_OPEN,
                str_field(path@) + be32(options@) + encode_attributes(attr@),
            ),
            final(self)@ == awaiting(old(self)@, waiter),
    {
        match build_open(path, options.get(), attr) {
            Ok(body) => FileCall { request: self.process(SSH_FXP_OPEN, body.as_slice(), waiter) },
            Err(_) => unreached(),
        }
    }

    /// Makes a path absolute.
    pub fn realpath(
        &mut self,
        path: &str,
        control_byte: Option<u8>,
        compose_path: Option<&str>,
        waiter: T,
    ) -> (call: NameCall)
        ensures
            call.request@ == issued(
                old(self)@.session,
                SSH_FXP_REALPATH,
                realpath_body(path@, control_byte, opt_chars(compose_path)),
            ),
            final(self)@ == awaiting(old(self)@, waiter),
    {
        let body = build_realpath(path, control_byte, compose_path);
        NameCall { request: self.process(SSH_FXP_REALPATH, body.as_slice(), waiter) }
    }

    /// Sets the attributes of a path.
    pub fn setstat(&mut self, path: &str, attr: &Attributes, waiter: T) -> (call: StatusCall)
        requires
            encodable(attr@),
        ensures
            call.request@ == issued(
                old(self)@.session,
                SSH_FXP_SETSTAT,
                str_field(path@) + encode_attributes(attr@),
            ),
            final(self)@ == awaiting(old(self)@, waiter),
    {
        match build_path_and_attrs(path, attr) {
            Ok(body) => StatusCall {
                request: self.process(SSH_FXP_SETSTAT, body.as_slice(), waiter),
            },
            Err(_) => unreached(),
        }
    }

    /// Reads the attributes of a path, following links.
    pub fn stat(&mut self, path: &str, flags: Option<u32>, waiter: T) -> (call: AttrsCall)
        ensures
            call.request@ == issued(
                old(self)@.session,
                SSH_FXP_STAT,
                str_field(path@) + be32(flags_or_none(flags)),
            ),
            final(self)@ == awaiting(old(self)@, waiter),
    {
        let body = build_path_and_flags(path, given_flags(flags));
        AttrsCall { request: self.process(SSH_FXP_STAT, body.as_slice(), waiter) }
    }

    /// Removes a file.
    pub fn remove(&mut self, path: &str, waiter: T) -> (call: StatusCall)
        ensures
            call.request@ == issued(old(self)@.session, SSH_FXP_REMOVE, str_field(path@)),
            final(self)@ == awaiting(old(self)@, waiter),
    {
        let body = build_path_only(path);
        StatusCall { request: self.process(SSH_FXP_REMOVE, body.as_slice(), waiter) }
    }

    /// Renames a path.
    pub fn rename(
        &mut self,
        oldpath: &str,
        newpath: &str,
        flags: Option<u32>,
        waiter: T,
    ) -> (call: StatusCall)
        ensures
            call.request@ == issued(
                old(self)@.session,
                SSH_FXP_RENAME,
                str_field(oldpath@) + str_field(newpath@) + be32(rename_flags(flags)),
            ),
            final(self)@ == awaiting(old(self)@, waiter),
    {
        let body = build_rename(oldpath, newpath, flags);
        StatusCall { request: self.process(SSH_FXP_RENAME, body.as_slice(), waiter) }
    }

    /// Reads the attributes of a path, not following links.
    pub fn lstat(&mut self, path: &str, flags: Option<u32>, waiter: T) -> (call: AttrsCall)
        ensures
            call.request@ == issued(
                old(self)@.session,
                SSH_FXP_LSTAT,
                str_field(path@) + be32(flags_or_none(flags)),
            ),
            final(self)@ == awaiting(old(self)@, waiter),
    {
        let body = build_path_and_flags(path, given_flags(flags));
        AttrsCall { request: self.process(SSH_FXP_LSTAT, body.as_slice(), waiter) }
    }

    /// Opens a directory.
    pub fn opendir(&mut self, path: &str, waiter: T) -> (call: DirectoryCall)
        ensures
            call.request@ == issued(old(self)@.session, SSH_FXP_OPENDIR, str_field(path@)),
            final(self)@ == awaiting(old(self)@, waiter),
    {
        let body = build_path_only(path);
        DirectoryCall { request: self.process(SSH_FXP_OPENDIR, body.as_slice(), waiter) }
    }

    /// Sends an extended request.
    pub fn extended(&mut self, request: &str, data: &[u8], waiter: T) -> (call: ExtendedCall)
        ensures
            call.request@ == issued(
                old(self)@.session,
                SSH_FXP_EXTENDED,
                str_field(request@) + data@,
            ),
            final(self)@ == awaiting(old(self)@, waiter),
    {
        let body = build_extended(request, data);
        ExtendedCall { request: self.process(SSH_FXP_EXTENDED, body.as_slice(), waiter) }
    }

    /// Locks a byte range.
    pub fn block(
        &mut self,
        file: &File,
        offset: u64,
        length: u64,
        lockmask: u32,
        waiter: T,
    ) -> (call: StatusCall)
        ensures
            call.request@ == issued(
                old(self)@.session,
                SSH_FXP_BLOCK,
                bytes_field(file.0@) + be64(offset) + be64(length) + be32(lockmask),
            ),
            final(self)@ == awaiting(old(self)@, waiter),
    {
        let body = build_block(file.0.as_slice(), offset, length, lockmask);
        StatusCall { request: self.process(SSH_FXP_BLOCK, body.as_slice(), waiter) }
    }

    /// Unlocks a byte range.
    pub fn unblock(
        &mut self,
        file: &File,
        offset: u64,
        length: u64,
        waiter: T,
    ) -> (call: StatusCall)
        ensures
            call.request@ == issued(
                old(self)@.session,
                SSH_FXP_UNBLOCK,
                bytes_field(file.0@) + be64(offset) + be64(length),
            ),
            final(self)@ == awaiting(old(self)@, waiter),
    {
        let body = build_unblock(file.0.as_slice(), offset, length);
        StatusCall { request: self.process(SSH_FXP_UNBLOCK, body.as_slice(), waiter) }
    }

    /// Sets the attributes of an open file.
    pub fn fsetstat(&mut self, file: &File, attr: &Attributes, waiter: T) -> (call: StatusCall)
        requires
            encodable(attr@),
        ensures
            call.request@ == issued(
                old(self)@.session,
                SSH_FXP_FSETSTAT,
                bytes_field(file.0@) + encode_attributes(attr@),
            ),
            final(self)@ == awaiting(old(self)@, waiter),
    {
        match build_handle_and_attrs(file.0.as_slice(), attr) {
            Ok(body) => StatusCall {
                request: self.process(SSH_FXP_FSETSTAT, body.as_slice(), waiter),
            },
            Err(_) => unreached(),
        }
    }

    /// Reads the attributes of an open file.
    pub fn fstat(&mut self, file: &File, flags: Option<u32>, waiter: T) -> (call: AttrsCall)
        ensures
            call.request@ == issued(
                old(self)@.session,
                SSH_FXP_FSTAT,
                bytes_field(file.0@) + be32(flags_or_none(flags)),
            ),
            final(self)@ == awaiting(old(self)@, waiter),
    {
        let body = build_handle_and_flags(file.0.as_slice(), given_flags(flags));
        AttrsCall { request: self.process(SSH_FXP_FSTAT, body.as_slice(), waiter) }
    }

    /// Writes bytes at an offset.
    pub fn pwrite(&mut self, file: &File, offset: u64, data: &[u8], waiter: T) -> (call: StatusCall)
        ensures
            call.request@ == issued(
                old(self)@.session,
                SSH_FXP_WRITE,
                bytes_field(file.0@) + be64(offset) + bytes_field(data@),
            ),
            final(self)@ == awaiting(old(self)@, waiter),
    {
        let body = build_pwrite(file.0.as_slice(), offset, data);
        StatusCall { request: self.process(SSH_FXP_WRITE, body.as_slice(), waiter) }
    }

    /// Reads bytes at an offset.
    pub fn pread(&mut self, file: &File, offset: u64, length: u32, waiter: T) -> (call: DataCall)
        ensures
            call.request@ == issued(
                old(self)@.session,
                SSH_FXP_READ,
                bytes_field(file.0@) + be64(offset) + be32(length),
            ),
            final(self)@ == awaiting(old(self)@, waiter),
    {
        let body = build_pread(file.0.as_slice(), offset, length);
        DataCall { request: self.process(SSH_FXP_READ, body.as_slice(), waiter) }
    }

    /// Closes a file.
    pub fn fclose(&mut self, file: &File, waiter: T) -> (call: StatusCall)
        ensures
            call.request@ == issued(old(self)@.session, SSH_FXP_CLOSE, bytes_field(file.0@)),
            final(self)@ == awaiting(old(self)@, waiter),
    {
        let body = build_handle_only(file.0.as_slice());
        StatusCall { request: self.process(SSH_FXP_CLOSE, body.as_slice(), waiter) }
    }

    /// Moves a file opened as text to a line.
    pub fn flineseek(&mut self, file: &File, lineno: u64, waiter: T) -> (call: SeekCall)
        ensures
            call.request@ == issued(
                old(self)@.session,
                SSH_FXP_EXTENDED,
                str_field("text-seek"@) + (bytes_field(file.0@) + be64(lineno)),
            ),
            final(self)@ == awaiting(old(self)@, waiter),
    {
        let mut place = build_handle_only(file.0.as_slice());
        put_u64(&mut place, lineno);
        let call = self.extended("text-seek", place.as_slice(), waiter);
        SeekCall { request: call.request }
    }

    /// Closes a directory.
    pub fn closedir(&mut self, dir: &Directory, waiter: T) -> (call: StatusCall)
        ensures
            call.request@ == issued(old(self)@.session, SSH_FXP_CLOSE, bytes_field(dir.0@)),
            final(self)@ == awaiting(old(self)@, waiter),
    {
        let body = build_handle_only(dir.0.as_slice());
        StatusCall { request: self.process(SSH_FXP_CLOSE, body.as_slice(), waiter) }
    }

    /// Reads the next entries of a directory.
    pub fn readdir(&mut self, dir: &Directory, waiter: T) -> (call: ListingCall)
        ensures
            call.request@ == issued(old(self)@.session, SSH_FXP_READDIR, bytes_field(dir.0@)),
            final(self)@ == awaiting(old(self)@, waiter),
    {
        let body = build_handle_only(dir.0.as_slice());
        ListingCall { request: self.process(SSH_FXP_READDIR, body.as_slice(), waiter) }
    }
}

// What holds of every client.

/// The reply to a pending request goes to the one who waits for it, with the
/// payload that was sent. Afterwards nobody waits for it; everybody else waits
/// on.
pub proof fn law_reply_reaches_its_waiter<T>(c: AsyncView<T>, id: u32, cmd: u8, payload: Seq<u8>)
    requires
        c.pending.contains_key(id),
    ensures
        packet_action(c, cmd, numbered(id, payload)) == ReadActionView::Deliver(
            c.pending[id],
            cmd,
            payload,
        ),
        !after_packet(c, numbered(id, payload)).pending.contains_key(id),
        forall|other: u32|
            #![trigger after_packet(c, numbered(id, payload)).pending.contains_key(other)]
            #![trigger after_packet(c, numbered(id, payload)).pending[other]]
            other != id && c.pending.contains_key(other) ==> after_packet(
                c,
                numbered(id, payload),
            ).pending.contains_key(other) && after_packet(c, numbered(id, payload)).pending[other]
                == c.pending[other],
{
    law_request_id_round_trip(id, payload);
}

/// A reply that nobody waits for is passed over and changes nothing.
pub proof fn law_stray_reply_is_ignored<T>(c: AsyncView<T>, id: u32, cmd: u8, payload: Seq<u8>)
    requires
        !c.pending.contains_key(id),
    ensures
        packet_action(c, cmd, numbered(id, payload)) == ReadActionView::<T>::Ignore,
        after_packet(c, numbered(id, payload)) == c,
{
    law_request_id_round_trip(id, payload);
    assert(c.pending.remove(id) =~= c.pending);
}

/// A reply is delivered once: the same packet again is passed over.
pub proof fn law_reply_is_delivered_once<T>(c: AsyncView<T>, cmd: u8, body: Seq<u8>)
    ensures
        packet_action(after_packet(c, body), cmd, body) == ReadActionView::<T>::Ignore,
        after_packet(after_packet(c, body), body) == after_packet(c, body),
{
    if let Ok((id, _)) = parse_numbered(body) {
        assert(c.pending.remove(id).remove(id) =~= c.pending.remove(id));
    }
}

/// A packet too short for a request id is passed over and changes nothing.
pub proof fn law_short_packet_is_ignored<T>(c: AsyncView<T>, cmd: u8, body: Seq<u8>)
    requires
        body.len() < 4,
    ensures
        packet_action(c, cmd, body) == ReadActionView::<T>::Ignore,
        after_packet(c, body) == c,
{
}

/// Replies to two requests can come in either order: each reaches its own
/// waiter, and the same client is left.
pub proof fn law_replies_come_in_any_order<T>(
    c: AsyncView<T>,
    id: u32,
    cmd: u8,
    payload: Seq<u8>,
    id2: u32,
    cmd2: u8,
    payload2: Seq<u8>,
)
    requires
        id != id2,
    ensures
        packet_action(after_packet(c, numbered(id2, payload2)), cmd, numbered(id, payload))
            == packet_action(c, cmd, numbered(id, payload)),
        after_packet(after_packet(c, numbered(id2, payload2)), numbered(id, payload))
            == after_packet(after_packet(c, numbered(id, payload)), numbered(id2, payload2)),
{
    law_request_id_round_trip(id, payload);
    law_request_id_round_trip(id2, payload2);
    assert(c.pending.remove(id2).remove(id) =~= c.pending.remove(id).remove(id2));
}

/// When the connection is gone, reading stops and nobody is left waiting.
pub proof fn law_lost_connection_frees_all<T>(c: AsyncView<T>)
    ensures
        event_action(c, ReadEvent::Failed) == ReadActionView::<T>::Stop,
        forall|id: u32| !(#[trigger] after_event(c, ReadEvent::Failed).pending.contains_key(id)),
{
}

/// Whether nobody waits once the connection is lost.
pub open spec fn nobody_waits_in_vain<T>(c: AsyncView<T>) -> bool {
    c.lost ==> c.pending == Map::<u32, T>::empty()
}

/// Once the connection is lost nobody waits: it is so of a client that has just
/// shaken hands, and every request, cancellation and event keeps it so.
pub proof fn law_nobody_waits_in_vain<T>(
    session: SessionView,
    c: AsyncView<T>,
    waiter: T,
    id: u32,
    event: ReadEvent,
)
    requires
        nobody_waits_in_vain(c),
    ensures
        nobody_waits_in_vain(fresh::<T>(session)),
        nobody_waits_in_vain(awaiting(c, waiter)),
        nobody_waits_in_vain(cancelled(c, id)),
        nobody_waits_in_vain(after_event(c, event)),
{
    assert(Map::<u32, T>::empty().remove(id) =~= Map::<u32, T>::empty());
    if let ReadEvent::Packet(_, body) = event {
        if let Ok((reply_id, _)) = parse_numbered(body@) {
            assert(Map::<u32, T>::empty().remove(reply_id) =~= Map::<u32, T>::empty());
        }
    }
}

/// A connection that is lost stays lost.
pub proof fn law_lost_stays_lost<T>(c: AsyncView<T>, waiter: T, id: u32, event: ReadEvent)
    requires
        c.lost,
    ensures
        awaiting(c, waiter).lost,
        cancelled(c, id).lost,
        after_event(c, event).lost,
{
}

/// A request whose connection fails, before it is made or afterwards, is not
/// left waiting.
pub proof fn law_request_does_not_outlive_the_connection<T>(c: AsyncView<T>, waiter: T)
    ensures
        !awaiting(after_event(c, ReadEvent::Failed), waiter).pending.contains_key(
            c.session.next_id,
        ),
        !after_event(awaiting(c, waiter), ReadEvent::Failed).pending.contains_key(
            c.session.next_id,
        ),
{
}

/// As long as the connection is not lost, whoever asks for something is kept
/// until the reply comes.
pub proof fn law_request_is_awaited<T>(c: AsyncView<T>, waiter: T)
    requires
        !c.lost,
    ensures
        awaiting(c, waiter).pending.contains_key(c.session.next_id),
        awaiting(c, waiter).pending[c.session.next_id] == waiter,
{
}

/// A request that was cancelled leaves those who waited before it as they
/// were.
pub proof fn law_cancelling_undoes_waiting<T>(c: AsyncView<T>, waiter: T)
    requires
        !c.pending.contains_key(c.session.next_id),
    ensures
        cancelled(awaiting(c, waiter), c.session.next_id).pending == c.pending,
{
    assert(c.pending.insert(c.session.next_id, waiter).remove(c.session.next_id) =~= c.pending);
}

/// Whether the client has issued `n` requests since its handshake, and waits
/// for the replies to some of those only.
pub open spec fn has_issued<T>(c: AsyncView<T>, n: nat) -> bool {
    &&& c.session.next_id == n % 0x1_0000_0000
    &&& forall|id: u32| #[trigger] c.pending.contains_key(id) ==> id < n
}

/// A client that has just shaken hands has issued no requests.
pub proof fn law_new_client_has_issued_nothing<T>(kind: u8, body: Seq<u8>)
    requires
        handshake(kind, body) is Ok,
    ensures
        has_issued(fresh::<T>(handshake(kind, body)->Ok_0), 0),
{
}

/// Each request adds one to the number of requests that a client has issued,
/// and nothing else that happens to it does.
pub proof fn law_requests_are_counted<T>(
    c: AsyncView<T>,
    n: nat,
    waiter: T,
    id: u32,
    event: ReadEvent,
)
    requires
        has_issued(c, n),
    ensures
        has_issued(awaiting(c, waiter), n + 1),
        has_issued(cancelled(c, id), n),
        has_issued(after_event(c, event), n),
{
    assert((n % 0x1_0000_0000 + 1) % 0x1_0000_0000 == (n + 1) % 0x1_0000_0000);
    assert forall|i: u32| #[trigger] awaiting(c, waiter).pending.contains_key(i) implies i < n
        + 1 by {
        assert(i == c.session.next_id || c.pending.contains_key(i));
    }
    assert forall|i: u32| #[trigger] cancelled(c, id).pending.contains_key(i) implies i < n by {
        assert(c.pending.contains_key(i));
    }
    assert forall|i: u32| #[trigger] after_event(c, event).pending.contains_key(i) implies i
        < n by {
        assert(c.pending.contains_key(i));
    }
}

/// Over the first `0x1_0000_0000` requests no new one takes the place of one
/// that still waits.
pub proof fn law_no_waiter_is_displaced<T>(c: AsyncView<T>, n: nat, waiter: T)
    requires
        has_issued(c, n),
        n < 0x1_0000_0000,
    ensures
        !c.pending.contains_key(c.session.next_id),
        forall|id: u32|
            #![trigger awaiting(c, waiter).pending[id]]
            c.pending.contains_key(id) ==> awaiting(c, waiter).pending.contains_key(id)
                && awaiting(c, waiter).pending[id] == c.pending[id],
{
}

/// What a packet does to a client is said by the id that it carries alone: the
/// connection is as it was before, and so is the number of requests.
pub proof fn law_packets_end_waiting_only<T>(c: AsyncView<T>, id: u32, payload: Seq<u8>)
    ensures
        after_packet(c, numbered(id, payload)).session == c.session,
        after_packet(c, numbered(id, payload)).lost == c.lost,
        forall|other: u32| #[trigger]
            after_packet(c, numbered(id, payload)).pending.contains_key(other) ==> other != id
                && c.pending.contains_key(other),
{
    law_request_id_round_trip(id, payload);
}

/// Events are packets, which are dealt with by their kind and their bytes, or
/// the end of the connection, behind which nothing is left but the number of
/// requests.
pub proof fn law_events_are_packets_or_the_end<T>(
    c: AsyncView<T>,
    cmd: u8,
    body: Vec<u8>,
    id: u32,
    payload: Seq<u8>,
)
    requires
        body@ == be32(id) + payload,
    ensures
        event_action(c, ReadEvent::Packet(cmd, body)) == (if c.pending.contains_key(id) {
            ReadActionView::Deliver(c.pending[id], cmd, payload)
        } else {
            ReadActionView::Ignore
        }),
        after_event(c, ReadEvent::Packet(cmd, body)) == (AsyncView {
            session: c.session,
            pending: c.pending.remove(id),
            lost: c.lost,
        }),
        after_event(c, ReadEvent::Failed) == (AsyncView {
            session: c.session,
            pending: Map::<u32, T>::empty(),
            lost: true,
        }),
{
    law_request_id_round_trip(id, payload);
}

/// A request that is cancelled is the only one that nobody waits for any more.
pub proof fn law_cancelling_frees_one<T>(c: AsyncView<T>, id: u32, other: u32)
    requires
        other != id,
    ensures
        !cancelled(c, id).pending.contains_key(id),
        cancelled(c, id).pending.contains_key(other) == c.pending.contains_key(other),
        c.pending.contains_key(other) ==> cancelled(c, id).pending[other] == c.pending[other],
        cancelled(c, id).session == c.session,
        cancelled(c, id).lost == c.lost,
{
}

/// A client that has just shaken hands is connected, has what the handshake
/// said, and nobody waits.
pub proof fn law_new_client_is_connected<T>(session: SessionView, id: u32)
    ensures
        fresh::<T>(session).session == session,
        !fresh::<T>(session).lost,
        !fresh::<T>(session).pending.contains_key(id),
{
}

/// A request uses up one id and changes nothing else of the connection, whether
/// anybody can wait for its reply or not.
pub proof fn law_requests_use_up_ids<T>(c: AsyncView<T>, waiter: T, other: u32)
    ensures
        awaiting(c, waiter).session.next_id == (c.session.next_id + 1) % 0x1_0000_0000,
        awaiting(c, waiter).session.version == c.session.version,
        awaiting(c, waiter).session.extensions == c.session.extensions,
        awaiting(c, waiter).lost == c.lost,
        other != c.session.next_id ==> awaiting(c, waiter).pending.contains_key(other)
            == c.pending.contains_key(other),
        c.lost ==> awaiting(c, waiter).pending == c.pending,
{
}

} // verus!
