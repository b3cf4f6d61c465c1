//! The steps of shell commands.
//!
//! A command runs in steps. Each step ends in an action, which somebody else
//! performs; what came of it is the event that the next step begins with.

use vstd::prelude::*;

use crate::attributes::{Attributes, AttributesView};
use crate::command::texts;
use crate::constants::SSH_FX_EOF;
use crate::error::{Error, ErrorView};
use crate::reply::{
    attrs_answer, data_answer, entry_views, expect_status, first_name_answer, handle_answer,
    readdir_answer, status_answer, take_attrs, take_data, take_first_name, take_handle,
    take_readdir, AnswerView, Breach,
};
use crate::sync::{payload_answer, Request};
use crate::types::{Directory, File};

verus! {

/// Why a command failed: by what the server said, or because something that it
/// asked for could not be done.
#[derive(Debug)]
pub enum Failure<E> {
    Protocol(Error),
    Outside(E),
}

/// The contents of a [`Failure`].
pub enum FailureView<E> {
    Protocol(ErrorView),
    Outside(E),
}

impl<E> View for Failure<E> {
    type V = FailureView<E>;

    open spec fn view(&self) -> FailureView<E> {
        match self {
            Failure::Protocol(e) => FailureView::Protocol(e@),
            Failure::Outside(e) => FailureView::Outside(*e),
        }
    }
}

/// What is to be done for a command.
#[derive(Debug)]
pub enum Action<E> {
    /// Send these bytes, and read the packet that comes next.
    Send(Vec<u8>),
    /// Create this local file.
    Create(String),
    /// Open this local file.
    Open(String),
    /// Write these bytes to the local file.
    Write(Vec<u8>),
    /// Read up to so many bytes from the local file.
    Read(u32),
    /// The command is done. Print these lines.
    Done(Vec<String>),
    /// The command has failed.
    Fail(Failure<E>),
    /// The server cannot be understood any more.
    Abort(Breach),
    /// That was not what the last action asked for; it is still to be done.
    Wait,
}

/// The contents of an [`Action`].
pub enum ActionView<E> {
    Send(Seq<u8>),
    Create(Seq<char>),
    Open(Seq<char>),
    Write(Seq<u8>),
    Read(u32),
    Done(Seq<Seq<char>>),
    Fail(FailureView<E>),
    Abort(Breach),
    Wait,
}

impl<E> View for Action<E> {
    type V = ActionView<E>;

    open spec fn view(&self) -> ActionView<E> {
        match self {
            Action::Send(bytes) => ActionView::Send(bytes@),
            Action::Create(path) => ActionView::Create(path@),
            Action::Open(path) => ActionView::Open(path@),
            Action::Write(bytes) => ActionView::Write(bytes@),
            Action::Read(n) => ActionView::Read(*n),
            Action::Done(lines) => ActionView::Done(texts(lines@)),
            Action::Fail(f) => ActionView::Fail(f@),
            Action::Abort(b) => ActionView::Abort(*b),
            Action::Wait => ActionView::Wait,
        }
    }
}

/// What came of an action.
#[derive(Debug)]
pub enum Event<E> {
    /// A packet came: its kind and its body.
    Reply(u8, Vec<u8>),
    /// The local file is open, or has taken the bytes.
    Ready,
    /// Bytes from the local file; none at its end.
    Bytes(Vec<u8>),
    /// It could not be done.
    Failed(E),
}

/// The contents of an [`Event`].
pub enum EventView<E> {
    Reply(u8, Seq<u8>),
    Ready,
    Bytes(Seq<u8>),
    Failed(E),
}

impl<E> View for Event<E> {
    type V = EventView<E>;

    open spec fn view(&self) -> EventView<E> {
        match self {
            Event::Reply(kind, body) => EventView::Reply(*kind, body@),
            Event::Ready => EventView::Ready,
            Event::Bytes(bytes) => EventView::Bytes(bytes@),
            Event::Failed(e) => EventView::Failed(*e),
        }
    }
}

/// How far a command has come. The ids are those of the requests whose
/// replies are awaited.
#[derive(Debug)]
pub enum Stage<E> {
    /// A request that is answered with a status.
    Status { id: u32 },
    /// `cd`: the path is being made absolute.
    CdResolve { id: u32 },
    /// `cd`: whether it is a directory is being asked.
    CdCheck { id: u32, path: String },
    /// `stat`: the attributes are being asked for.
    Stat { id: u32, path: String },
    /// `ls`: what the path is is being asked. A file is listed by `name`.
    LsStat { id: u32, path: String, name: String, long: bool },
    /// `ls`: the directory is being opened.
    LsOpen { id: u32, long: bool },
    /// `ls`: the directory is being read.
    LsRead { id: u32, dir: Directory, entries: Vec<(String, String, Attributes)>, long: bool },
    /// `ls`: all has been read, the directory is being closed.
    LsClose { id: u32, entries: Vec<(String, String, Attributes)>, long: bool },
    /// `ls`: reading has failed, the directory is being closed.
    LsQuit { id: u32, failure: Failure<E> },
    /// `get`: the remote file is being opened.
    GetOpen { id: u32, local: String },
    /// `get`: the local file is being created.
    GetCreate { file: File, local: String },
    /// `get`: bytes are being read.
    GetRead { id: u32, file: File, local: String, offset: u64 },
    /// `get`: so many bytes are being written.
    GetWrite { file: File, local: String, offset: u64, count: u64 },
    /// `get`: the remote file is being closed.
    GetClose { id: u32, local: String, result: Result<u64, Failure<E>> },
    /// `put`: the local file is being opened.
    PutSource { remote: String },
    /// `put`: the remote file is being opened.
    PutOpen { id: u32, remote: String },
    /// `put`: bytes are being read.
    PutRead { file: File, remote: String, offset: u64 },
    /// `put`: so many bytes are being written.
    PutWrite { id: u32, file: File, remote: String, offset: u64, count: u64 },
    /// `put`: the remote file is being closed.
    PutClose { id: u32, remote: String, result: Result<u64, Failure<E>> },
    /// The command is over.
    Over,
}

/// The contents of a [`Stage`].
pub enum StageView<E> {
    Status { id: u32 },
    CdResolve { id: u32 },
    CdCheck { id: u32, path: Seq<char> },
    Stat { id: u32, path: Seq<char> },
    LsStat { id: u32, path: Seq<char>, name: Seq<char>, long: bool },
    LsOpen { id: u32, long: bool },
    LsRead {
        id: u32,
        dir: Seq<u8>,
        entries: Seq<(Seq<char>, Seq<char>, AttributesView)>,
        long: bool,
    },
    LsClose { id: u32, entries: Seq<(Seq<char>, Seq<char>, AttributesView)>, long: bool },
    LsQuit { id: u32, failure: FailureView<E> },
    GetOpen { id: u32, local: Seq<char> },
    GetCreate { file: Seq<u8>, local: Seq<char> },
    GetRead { id: u32, file: Seq<u8>, local: Seq<char>, offset: u64 },
    GetWrite { file: Seq<u8>, local: Seq<char>, offset: u64, count: u64 },
    GetClose { id: u32, local: Seq<char>, result: Result<u64, FailureView<E>> },
    PutSource { remote: Seq<char> },
    PutOpen { id: u32, remote: Seq<char> },
    PutRead { file: Seq<u8>, remote: Seq<char>, offset: u64 },
    PutWrite { id: u32, file: Seq<u8>, remote: Seq<char>, offset: u64, count: u64 },
    PutClose { id: u32, remote: Seq<char>, result: Result<u64, FailureView<E>> },
    Over,
}

/// The contents of the result of a transfer.
pub open spec fn result_view<E>(r: Result<u64, Failure<E>>) -> Result<u64, FailureView<E>> {
    match r {
        Ok(n) => Ok(n),
        Err(f) => Err(f@),
    }
}

impl<E> View for Stage<E> {
    type V = StageView<E>;

    open spec fn view(&self) -> StageView<E> {
        match *self {
            Stage::Status { id } => StageView::Status { id },
            Stage::CdResolve { id } => StageView::CdResolve { id },
            Stage::CdCheck { id, path } => StageView::CdCheck { id, path: path@ },
            Stage::Stat { id, path } => StageView::Stat { id, path: path@ },
            Stage::LsStat { id, path, name, long } => StageView::LsStat {
                id,
                path: path@,
                name: name@,
                long,
            },
            Stage::LsOpen { id, long } => StageView::LsOpen { id, long },
            Stage::LsRead { id, dir, entries, long } => StageView::LsRead {
                id,
                dir: dir.0@,
                entries: entry_views(entries@),
                long,
            },
            Stage::LsClose { id, entries, long } => StageView::LsClose {
                id,
                entries: entry_views(entries@),
                long,
            },
            Stage::LsQuit { id, failure } => StageView::LsQuit { id, failure: failure@ },
            Stage::GetOpen { id, local } => StageView::GetOpen { id, local: local@ },
            Stage::GetCreate { file, local } => StageView::GetCreate {
                file: file.0@,
                local: local@,
            },
            Stage::GetRead { id, file, local, offset } => StageView::GetRead {
                id,
                file: file.0@,
                local: local@,
                offset,
            },
            Stage::GetWrite { file, local, offset, count } => StageView::GetWrite {
                file: file.0@,
                local: local@,
                offset,
                count,
            },
            Stage::GetClose { id, local, result } => StageView::GetClose {
                id,
                local: local@,
                result: result_view(result),
            },
            Stage::PutSource { remote } => StageView::PutSource { remote: remote@ },
            Stage::PutOpen { id, remote } => StageView::PutOpen { id, remote: remote@ },
            Stage::PutRead { file, remote, offset } => StageView::PutRead {
                file: file.0@,
                remote: remote@,
                offset,
            },
            Stage::PutWrite { id, file, remote, offset, count } => StageView::PutWrite {
                id,
                file: file.0@,
                remote: remote@,
                offset,
                count,
            },
            Stage::PutClose { id, remote, result } => StageView::PutClose {
                id,
                remote: remote@,
                result: result_view(result),
            },
            Stage::Over => StageView::Over,
        }
    }
}

// What is heard from the server.

/// What an event says to a stage.
pub enum Heard<T, F> {
    /// Nothing that it waits for.
    Nothing,
    Value(T),
    Failure(F),
    Breach(Breach),
}

/// The answer of a reply.
pub open spec fn heard<T, E>(a: AnswerView<T>) -> Heard<T, FailureView<E>> {
    match a {
        Ok(Ok(v)) => Heard::Value(v),
        Ok(Err(e)) => Heard::Failure(FailureView::Protocol(e)),
        Err(b) => Heard::Breach(b),
    }
}

/// What an event says to a stage that waits for the reply to a request: the
/// kind and the payload of the reply.
pub open spec fn hear_reply<E>(id: u32, event: EventView<E>) -> Heard<
    (u8, Seq<u8>),
    FailureView<E>,
> {
    match event {
        EventView::Reply(kind, body) => match payload_answer(id, body) {
            Ok(Ok(payload)) => Heard::Value((kind, payload)),
            Ok(Err(e)) => Heard::Failure(FailureView::Protocol(e)),
            Err(b) => Heard::Breach(b),
        },
        EventView::Failed(e) => Heard::Failure(FailureView::Outside(e)),
        _ => Heard::Nothing,
    }
}

/// What an event says to a stage that waits for a status.
pub open spec fn hear_status<E>(id: u32, event: EventView<E>) -> Heard<(), FailureView<E>> {
    match hear_reply(id, event) {
        Heard::Nothing => Heard::Nothing,
        Heard::Failure(f) => Heard::Failure(f),
        Heard::Breach(b) => Heard::Breach(b),
        Heard::Value((kind, payload)) => heard(Ok(status_answer(kind, payload))),
    }
}

/// What an event says to a stage that waits for a name.
pub open spec fn hear_name<E>(id: u32, event: EventView<E>) -> Heard<Seq<char>, FailureView<E>> {
    match hear_reply(id, event) {
        Heard::Nothing => Heard::Nothing,
        Heard::Failure(f) => Heard::Failure(f),
        Heard::Breach(b) => Heard::Breach(b),
        Heard::Value((kind, payload)) => heard(first_name_answer(kind, payload)),
    }
}

/// What an event says to a stage that waits for a handle.
pub open spec fn hear_handle<E>(id: u32, event: EventView<E>) -> Heard<Seq<u8>, FailureView<E>> {
    match hear_reply(id, event) {
        Heard::Nothing => Heard::Nothing,
        Heard::Failure(f) => Heard::Failure(f),
        Heard::Breach(b) => Heard::Breach(b),
        Heard::Value((kind, payload)) => heard(handle_answer(kind, payload)),
    }
}

/// What an event says to a stage that waits for data.
pub open spec fn hear_data<E>(id: u32, event: EventView<E>) -> Heard<Seq<u8>, FailureView<E>> {
    match hear_reply(id, event) {
        Heard::Nothing => Heard::Nothing,
        Heard::Failure(f) => Heard::Failure(f),
        Heard::Breach(b) => Heard::Breach(b),
        Heard::Value((kind, payload)) => heard(data_answer(kind, payload)),
    }
}

/// What an event says to a stage that waits for attributes.
pub open spec fn hear_attrs<E>(id: u32, event: EventView<E>) -> Heard<
    AttributesView,
    FailureView<E>,
> {
    match hear_reply(id, event) {
        Heard::Nothing => Heard::Nothing,
        Heard::Failure(f) => Heard::Failure(f),
        Heard::Breach(b) => Heard::Breach(b),
        Heard::Value((kind, payload)) => heard(attrs_answer(kind, payload)),
    }
}

/// What an event says to a stage that waits for directory entries.
pub open spec fn hear_listing<E>(id: u32, event: EventView<E>) -> Heard<
    Seq<(Seq<char>, Seq<char>, AttributesView)>,
    FailureView<E>,
> {
    match hear_reply(id, event) {
        Heard::Nothing => Heard::Nothing,
        Heard::Failure(f) => Heard::Failure(f),
        Heard::Breach(b) => Heard::Breach(b),
        Heard::Value((kind, payload)) => heard(readdir_answer(kind, payload)),
    }
}

/// Whether a failure is the server's way to say that there is no more.
pub open spec fn is_end<E>(f: FailureView<E>) -> bool {
    f matches FailureView::Protocol(ErrorView::Status(code, _, _)) && code == SSH_FX_EOF
}

pub(crate) fn listen_reply<E>(id: u32, event: Event<E>) -> (r: Heard<(u8, Vec<u8>), Failure<E>>)
    ensures
        match hear_reply(id, event@) {
            Heard::Nothing => r is Nothing,
            Heard::Value(v) => r matches Heard::Value(w) && w.0 == v.0 && w.1@ == v.1,
            Heard::Failure(f) => r matches Heard::Failure(g) && g@ == f,
            Heard::Breach(b) => r matches Heard::Breach(c) && c == b,
        },
{
    match event {
        Event::Reply(kind, body) => {
            let request = Request { id, packet: Vec::new() };
            match request.accept(body.as_slice()) {
                Ok(Ok(payload)) => Heard::Value((kind, payload)),
                Ok(Err(e)) => Heard::Failure(Failure::Protocol(e)),
                Err(b) => Heard::Breach(b),
            }
        },
        Event::Failed(e) => Heard::Failure(Failure::Outside(e)),
        _ => Heard::Nothing,
    }
}

pub(crate) fn listen_status<E>(id: u32, event: Event<E>) -> (r: Heard<(), Failure<E>>)
    ensures
        match hear_status(id, event@) {
            Heard::Nothing => r is Nothing,
            Heard::Value(_) => r is Value,
            Heard::Failure(f) => r matches Heard::Failure(g) && g@ == f,
            Heard::Breach(b) => r matches Heard::Breach(c) && c == b,
        },
{
    match listen_reply(id, event) {
        Heard::Nothing => Heard::Nothing,
        Heard::Failure(f) => Heard::Failure(f),
        Heard::Breach(b) => Heard::Breach(b),
        Heard::Value((kind, payload)) => match expect_status(kind, payload.as_slice()) {
            Ok(()) => Heard::Value(()),
            Err(e) => Heard::Failure(Failure::Protocol(e)),
        },
    }
}

pub(crate) fn listen_name<E>(id: u32, event: Event<E>) -> (r: Heard<String, Failure<E>>)
    ensures
        match hear_name(id, event@) {
            Heard::Nothing => r is Nothing,
            Heard::Value(v) => r matches Heard::Value(w) && w@ == v,
            Heard::Failure(f) => r matches Heard::Failure(g) && g@ == f,
            Heard::Breach(b) => r matches Heard::Breach(c) && c == b,
        },
{
    match listen_reply(id, event) {
        Heard::Nothing => Heard::Nothing,
        Heard::Failure(f) => Heard::Failure(f),
        Heard::Breach(b) => Heard::Breach(b),
        Heard::Value((kind, payload)) => match take_first_name(kind, payload.as_slice()) {
            Ok(Ok(v)) => Heard::Value(v),
            Ok(Err(e)) => Heard::Failure(Failure::Protocol(e)),
            Err(b) => Heard::Breach(b),
        },
    }
}

pub(crate) fn listen_handle<E>(id: u32, event: Event<E>) -> (r: Heard<Vec<u8>, Failure<E>>)
    ensures
        match hear_handle(id, event@) {
            Heard::Nothing => r is Nothing,
            Heard::Value(v) => r matches Heard::Value(w) && w@ == v,
            Heard::Failure(f) => r matches Heard::Failure(g) && g@ == f,
            Heard::Breach(b) => r matches Heard::Breach(c) && c == b,
        },
{
    match listen_reply(id, event) {
        Heard::Nothing => Heard::Nothing,
        Heard::Failure(f) => Heard::Failure(f),
        Heard::Breach(b) => Heard::Breach(b),
        Heard::Value((kind, payload)) => match take_handle(kind, payload.as_slice()) {
            Ok(Ok(v)) => Heard::Value(v),
            Ok(Err(e)) => Heard::Failure(Failure::Protocol(e)),
            Err(b) => Heard::Breach(b),
        },
    }
}

pub(crate) fn listen_data<E>(id: u32, event: Event<E>) -> (r: Heard<Vec<u8>, Failure<E>>)
    ensures
        match hear_data(id, event@) {
            Heard::Nothing => r is Nothing,
            Heard::Value(v) => r matches Heard::Value(w) && w@ == v,
            Heard::Failure(f) => r matches Heard::Failure(g) && g@ == f,
            Heard::Breach(b) => r matches Heard::Breach(c) && c == b,
        },
{
    match listen_reply(id, event) {
        Heard::Nothing => Heard::Nothing,
        Heard::Failure(f) => Heard::Failure(f),
        Heard::Breach(b) => Heard::Breach(b),
        Heard::Value((kind, payload)) => match take_data(kind, payload.as_slice()) {
            Ok(Ok(v)) => Heard::Value(v),
            Ok(Err(e)) => Heard::Failure(Failure::Protocol(e)),
            Err(b) => Heard::Breach(b),
        },
    }
}

pub(crate) fn listen_attrs<E>(id: u32, event: Event<E>) -> (r: Heard<Attributes, Failure<E>>)
    ensures
        match hear_attrs(id, event@) {
            Heard::Nothing => r is Nothing,
            Heard::Value(v) => r matches Heard::Value(w) && w@ == v,
            Heard::Failure(f) => r matches Heard::Failure(g) && g@ == f,
            Heard::Breach(b) => r matches Heard::Breach(c) && c == b,
        },
{
    match listen_reply(id, event) {
        Heard::Nothing => Heard::Nothing,
        Heard::Failure(f) => Heard::Failure(f),
        Heard::Breach(b) => Heard::Breach(b),
        Heard::Value((kind, payload)) => match take_attrs(kind, payload.as_slice()) {
            Ok(Ok(v)) => Heard::Value(v),
            Ok(Err(e)) => Heard::Failure(Failure::Protocol(e)),
            Err(b) => Heard::Breach(b),
        },
    }
}

pub(crate) fn listen_listing<E>(id: u32, event: Event<E>) -> (r: Heard<
    Vec<(String, String, Attributes)>,
    Failure<E>,
>)
    ensures
        match hear_listing(id, event@) {
            Heard::Nothing => r is Nothing,
            Heard::Value(v) => r matches Heard::Value(w) && entry_views(w@) == v,
            Heard::Failure(f) => r matches Heard::Failure(g) && g@ == f,
            Heard::Breach(b) => r matches Heard::Breach(c) && c == b,
        },
{
    match listen_reply(id, event) {
        Heard::Nothing => Heard::Nothing,
        Heard::Failure(f) => Heard::Failure(f),
        Heard::Breach(b) => Heard::Breach(b),
        Heard::Value((kind, payload)) => match take_readdir(kind, payload.as_slice()) {
            Ok(Ok(v)) => Heard::Value(v),
            Ok(Err(e)) => Heard::Failure(Failure::Protocol(e)),
            Err(b) => Heard::Breach(b),
        },
    }
}

pub(crate) fn is_end_of_data<E>(f: &Failure<E>) -> (r: bool)
    ensures
        r == is_end(f@),
{
    match f {
        Failure::Protocol(Error::Eof(_, _)) => true,
        _ => false,
    }
}

} // verus!
