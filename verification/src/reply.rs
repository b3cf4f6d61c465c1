//! What the replies to requests mean.

use vstd::pervasive::unreached;
use vstd::prelude::*;
use vstd::string::*;

use crate::attributes::{decode_attributes, Attributes, AttributesView, Decoded, Fault, FaultView};
use crate::constants::{
    SSH_FXP_ATTRS, SSH_FXP_DATA, SSH_FXP_EXTENDED_REPLY, SSH_FXP_HANDLE, SSH_FXP_NAME,
    SSH_FXP_STATUS, SSH_FX_OK,
};
use crate::error::{other_error, status_error, Error, ErrorView, IoError};
use crate::text::{decimal, push_decimal};
use crate::wire::{parse_bytes, parse_string, parse_u32, Cursor};

verus! {

/// What makes a reply impossible to take at its word.
#[derive(Clone, Copy, Debug, PartialEq, Eq, Structural)]
pub enum Breach {
    /// Success was reported where a value was due.
    OkStatus,
    /// The byte of a text hint stands for no hint.
    TextHint,
    /// A list of names, of which the first was due, is empty.
    NoName,
    /// The reply carries the id of another request.
    RequestId,
}

/// What a reply gives: a value, an error, or a breach of the protocol.
pub type AnswerView<T> = Result<Result<T, ErrorView>, Breach>;

/// What a reply gives: a value, an error, or a breach of the protocol.
pub type Answer<T> = Result<Result<T, Error>, Breach>;

// Status replies.

/// The outcome that a status reply reports.
pub open spec fn status_reply(s: Seq<u8>) -> Result<(), ErrorView> {
    match parse_u32(s) {
        Err(e) => Err(ErrorView::Io(e)),
        Ok((code, s)) => match parse_string(s, "error message"@) {
            Err(e) => Err(ErrorView::Io(e)),
            Ok((message, s)) => match parse_string(s, "lang tag"@) {
                Err(e) => Err(ErrorView::Io(e)),
                Ok((lang, _)) => if code == SSH_FX_OK {
                    Ok(())
                } else {
                    Err(status_error(code, message, lang))
                },
            },
        },
    }
}

/// Reads a status reply.
pub fn parse_status(respdata: &[u8]) -> (r: Result<(), Error>)
    ensures
        match status_reply(respdata@) {
            Ok(()) => r is Ok,
            Err(e) => r matches Err(f) && f@ == e,
        },
{
    let mut reader = Cursor::new(respdata);
    let status = match reader.read_u32() {
        Ok(v) => v,
        Err(e) => return Err(Error::Io(e)),
    };
    let err_msg = match reader.read_string("error message") {
        Ok(v) => v,
        Err(e) => return Err(Error::Io(e)),
    };
    let lang_tag = match reader.read_string("lang tag") {
        Ok(v) => v,
        Err(e) => return Err(Error::Io(e)),
    };
    if status == SSH_FX_OK {
        Ok(())
    } else {
        Err(Error::from_status(status, err_msg, lang_tag))
    }
}

/// The error of a reply of a kind that was not asked for.
pub open spec fn unexpected_reply(cmd: u8) -> ErrorView {
    ErrorView::Io(other_error("Unexpected response: "@ + decimal(cmd as nat)))
}

fn unexpected(cmd: u8) -> (e: Error)
    ensures
        e@ == unexpected_reply(cmd),
{
    let mut message = String::from_str("Unexpected response: ");
    push_decimal(&mut message, cmd as u64);
    Error::Io(IoError::other(message))
}

/// What a reply gives where only a status was due.
pub open spec fn status_answer(cmd: u8, data: Seq<u8>) -> Result<(), ErrorView> {
    if cmd == SSH_FXP_STATUS {
        status_reply(data)
    } else {
        Err(unexpected_reply(cmd))
    }
}

/// Takes a reply as a status.
pub fn expect_status(cmd: u8, data: &[u8]) -> (r: Result<(), Error>)
    ensures
        match status_answer(cmd, data@) {
            Ok(()) => r is Ok,
            Err(e) => r matches Err(f) && f@ == e,
        },
{
    match cmd {
        SSH_FXP_STATUS => parse_status(data),
        _ => Err(unexpected(cmd)),
    }
}

/// What a reply of another kind gives where a value was due.
pub open spec fn refusal<T>(cmd: u8, data: Seq<u8>) -> AnswerView<T> {
    if cmd == SSH_FXP_STATUS {
        match status_reply(data) {
            Ok(()) => Err(Breach::OkStatus),
            Err(e) => Ok(Err(e)),
        }
    } else {
        Ok(Err(unexpected_reply(cmd)))
    }
}

/// Takes a reply of another kind where a value was due.
fn refuse<T>(cmd: u8, data: &[u8]) -> (r: Answer<T>)
    ensures
        match refusal::<T>(cmd, data@) {
            Ok(Ok(_)) => false,
            Ok(Err(e)) => r matches Ok(Err(f)) && f@ == e,
            Err(b) => r matches Err(c) && c == b,
        },
{
    match cmd {
        SSH_FXP_STATUS => match parse_status(data) {
            Ok(()) => Err(Breach::OkStatus),
            Err(e) => Ok(Err(e)),
        },
        _ => Ok(Err(unexpected(cmd))),
    }
}

// Handles and data.

/// The bytes that a handle or data reply carries.
pub open spec fn bytes_reply(s: Seq<u8>) -> Result<Seq<u8>, ErrorView> {
    match parse_bytes(s) {
        Ok((b, _)) => Ok(b),
        Err(e) => Err(ErrorView::Io(e)),
    }
}

/// Reads a handle.
pub fn parse_handle(respdata: &[u8]) -> (r: Result<Vec<u8>, Error>)
    ensures
        match bytes_reply(respdata@) {
            Ok(b) => r matches Ok(v) && v@ == b,
            Err(e) => r matches Err(f) && f@ == e,
        },
{
    let mut reader = Cursor::new(respdata);
    match reader.read_bytes() {
        Ok(v) => Ok(v),
        Err(e) => Err(Error::Io(e)),
    }
}

/// Reads data.
pub fn parse_data(respdata: &[u8]) -> (r: Result<Vec<u8>, Error>)
    ensures
        match bytes_reply(respdata@) {
            Ok(b) => r matches Ok(v) && v@ == b,
            Err(e) => r matches Err(f) && f@ == e,
        },
{
    parse_handle(respdata)
}

/// What a reply gives where a handle was due.
pub open spec fn handle_answer(cmd: u8, data: Seq<u8>) -> AnswerView<Seq<u8>> {
    if cmd == SSH_FXP_HANDLE {
        Ok(bytes_reply(data))
    } else {
        refusal(cmd, data)
    }
}

/// What a reply gives where data was due.
pub open spec fn data_answer(cmd: u8, data: Seq<u8>) -> AnswerView<Seq<u8>> {
    if cmd == SSH_FXP_DATA {
        Ok(bytes_reply(data))
    } else {
        refusal(cmd, data)
    }
}

/// Takes a reply as a handle.
pub fn take_handle(cmd: u8, data: &[u8]) -> (r: Answer<Vec<u8>>)
    ensures
        match handle_answer(cmd, data@) {
            Ok(Ok(b)) => r matches Ok(Ok(v)) && v@ == b,
            Ok(Err(e)) => r matches Ok(Err(f)) && f@ == e,
            Err(b) => r matches Err(c) && c == b,
        },
{
    match cmd {
        SSH_FXP_HANDLE => Ok(parse_handle(data)),
        _ => refuse(cmd, data),
    }
}

/// Takes a reply as data.
pub fn take_data(cmd: u8, data: &[u8]) -> (r: Answer<Vec<u8>>)
    ensures
        match data_answer(cmd, data@) {
            Ok(Ok(b)) => r matches Ok(Ok(v)) && v@ == b,
            Ok(Err(e)) => r matches Ok(Err(f)) && f@ == e,
            Err(b) => r matches Err(c) && c == b,
        },
{
    match cmd {
        SSH_FXP_DATA => Ok(parse_data(data)),
        _ => refuse(cmd, data),
    }
}

/// Takes a reply as a handle, where it is not a status of success.
pub fn expect_handle(cmd: u8, data: &[u8]) -> (r: Result<Vec<u8>, Error>)
    requires
        handle_answer(cmd, data@) is Ok,
    ensures
        match handle_answer(cmd, data@)->Ok_0 {
            Ok(b) => r matches Ok(v) && v@ == b,
            Err(e) => r matches Err(f) && f@ == e,
        },
{
    match take_handle(cmd, data) {
        Ok(r) => r,
        Err(_) => unreached(),
    }
}

/// Takes a reply as data, where it is not a status of success.
pub fn expect_data(cmd: u8, data: &[u8]) -> (r: Result<Vec<u8>, Error>)
    requires
        data_answer(cmd, data@) is Ok,
    ensures
        match data_answer(cmd, data@)->Ok_0 {
            Ok(b) => r matches Ok(v) && v@ == b,
            Err(e) => r matches Err(f) && f@ == e,
        },
{
    match take_data(cmd, data) {
        Ok(r) => r,
        Err(_) => unreached(),
    }
}

// Attributes.

/// What something decoded stands for in a reply.
pub open spec fn decoded_answer<T>(d: Decoded<T>) -> AnswerView<T> {
    match d {
        Ok((v, _)) => Ok(Ok(v)),
        Err(FaultView::Io(e)) => Ok(Err(ErrorView::Io(e))),
        Err(FaultView::TextHint) => Err(Breach::TextHint),
    }
}

/// What an attributes reply carries.
pub open spec fn attrs_reply(s: Seq<u8>) -> AnswerView<AttributesView> {
    decoded_answer(decode_attributes(s))
}

/// What a reply gives where attributes were due.
pub open spec fn attrs_answer(cmd: u8, data: Seq<u8>) -> AnswerView<AttributesView> {
    if cmd == SSH_FXP_ATTRS {
        attrs_reply(data)
    } else {
        refusal(cmd, data)
    }
}

fn decode_attrs(respdata: &[u8]) -> (r: Answer<Attributes>)
    ensures
        match attrs_reply(respdata@) {
            Ok(Ok(v)) => r matches Ok(Ok(a)) && a@ == v,
            Ok(Err(e)) => r matches Ok(Err(f)) && f@ == e,
            Err(b) => r matches Err(c) && c == b,
        },
{
    let mut reader = Cursor::new(respdata);
    match Attributes::decode(&mut reader) {
        Ok(a) => Ok(Ok(a)),
        Err(Fault::Io(e)) => Ok(Err(Error::Io(e))),
        Err(Fault::TextHint) => Err(Breach::TextHint),
    }
}

/// Reads attributes whose text hint, if they have one, is one of the four.
pub fn parse_attrs(respdata: &[u8]) -> (r: Result<Attributes, Error>)
    requires
        attrs_reply(respdata@) is Ok,
    ensures
        match attrs_reply(respdata@)->Ok_0 {
            Ok(v) => r matches Ok(a) && a@ == v,
            Err(e) => r matches Err(f) && f@ == e,
        },
{
    match decode_attrs(respdata) {
        Ok(r) => r,
        Err(_) => unreached(),
    }
}

/// Takes a reply as attributes.
pub fn take_attrs(cmd: u8, data: &[u8]) -> (r: Answer<Attributes>)
    ensures
        match attrs_answer(cmd, data@) {
            Ok(Ok(v)) => r matches Ok(Ok(a)) && a@ == v,
            Ok(Err(e)) => r matches Ok(Err(f)) && f@ == e,
            Err(b) => r matches Err(c) && c == b,
        },
{
    match cmd {
        SSH_FXP_ATTRS => decode_attrs(data),
        _ => refuse(cmd, data),
    }
}

/// Takes a reply as attributes, where it is not a status of success and holds
/// no invalid text hint.
pub fn expect_attrs(cmd: u8, data: &[u8]) -> (r: Result<Attributes, Error>)
    requires
        attrs_answer(cmd, data@) is Ok,
    ensures
        match attrs_answer(cmd, data@)->Ok_0 {
            Ok(v) => r matches Ok(a) && a@ == v,
            Err(e) => r matches Err(f) && f@ == e,
        },
{
    match take_attrs(cmd, data) {
        Ok(r) => r,
        Err(_) => unreached(),
    }
}

// Lists of names.

/// The contents of a list of names.
pub open spec fn name_views(v: Seq<(String, Attributes)>) -> Seq<(Seq<char>, AttributesView)> {
    Seq::new(v.len(), |i: int| (v[i].0@, v[i].1@))
}

/// So many names, each with attributes.
pub open spec fn decode_names(n: nat, s: Seq<u8>) -> Decoded<Seq<(Seq<char>, AttributesView)>>
    decreases n,
{
    if n == 0 {
        Ok((seq![], s))
    } else {
        match parse_string(s, "filename"@) {
            Err(e) => Err(FaultView::Io(e)),
            Ok((name, s)) => match decode_attributes(s) {
                Err(e) => Err(e),
                Ok((a, s)) => match decode_names((n - 1) as nat, s) {
                    Err(e) => Err(e),
                    Ok((more, s)) => Ok((seq![(name, a)] + more, s)),
                },
            },
        }
    }
}

/// A count, then so many names.
pub open spec fn decode_name_list(s: Seq<u8>) -> Decoded<Seq<(Seq<char>, AttributesView)>> {
    match parse_u32(s) {
        Err(e) => Err(FaultView::Io(e)),
        Ok((n, s)) => decode_names(n as nat, s),
    }
}

/// What a name reply carries.
pub open spec fn name_reply(s: Seq<u8>) -> AnswerView<Seq<(Seq<char>, AttributesView)>> {
    decoded_answer(decode_name_list(s))
}

/// What a reply gives where names were due.
pub open spec fn name_answer(cmd: u8, data: Seq<u8>) -> AnswerView<Seq<(
    Seq<char>,
    AttributesView,
)>> {
    if cmd == SSH_FXP_NAME {
        name_reply(data)
    } else {
        refusal(cmd, data)
    }
}

fn read_names(c: &mut Cursor) -> (r: Result<Vec<(String, Attributes)>, Fault>)
    ensures
        match decode_name_list(old(c)@) {
            Ok((v, _)) => r matches Ok(w) && name_views(w@) == v,
            Err(e) => r matches Err(f) && f@ == e,
        },
{
    let count = match c.read_u32() {
        Ok(n) => n,
        Err(e) => return Err(Fault::Io(e)),
    };
    let ghost start = c@;
    let mut files: Vec<(String, Attributes)> = Vec::new();
    let mut i: u32 = 0;
    assert(decode_names(count as nat, start) matches Ok((v, _)) ==> name_views(files@) + v =~= v);
    while i < count
        invariant
            i <= count,
            decode_name_list(old(c)@) == decode_names(count as nat, start),
            match decode_names((count - i) as nat, c@) {
                Ok((v, rest)) => decode_names(count as nat, start) == Ok::<_, FaultView>(
                    (name_views(files@) + v, rest),
                ),
                Err(e) => decode_names(count as nat, start) == Err::<
                    (Seq<(Seq<char>, AttributesView)>, Seq<u8>),
                    _,
                >(e),
            },
        decreases count - i,
    {
        let ghost before = files@;
        let filename = match c.read_string("filename") {
            Ok(v) => v,
            Err(e) => return Err(Fault::Io(e)),
        };
        let attrs = match Attributes::decode(c) {
            Ok(a) => a,
            Err(e) => return Err(e),
        };
        files.push((filename, attrs));
        i += 1;
        proof {
            if let Ok((more, rest)) = decode_names((count - i) as nat, c@) {
                assert(name_views(files@) + more =~= name_views(before) + (seq![
                    (filename@, attrs@),
                ] + more));
            }
        }
    }
    assert(name_views(files@) =~= name_views(files@) + Seq::<(Seq<char>, AttributesView)>::empty());
    Ok(files)
}

fn decode_name(respdata: &[u8]) -> (r: Answer<Vec<(String, Attributes)>>)
    ensures
        match name_reply(respdata@) {
            Ok(Ok(v)) => r matches Ok(Ok(w)) && name_views(w@) == v,
            Ok(Err(e)) => r matches Ok(Err(f)) && f@ == e,
            Err(b) => r matches Err(c) && c == b,
        },
{
    let mut reader = Cursor::new(respdata);
    match read_names(&mut reader) {
        Ok(v) => Ok(Ok(v)),
        Err(Fault::Io(e)) => Ok(Err(Error::Io(e))),
        Err(Fault::TextHint) => Err(Breach::TextHint),
    }
}

/// Reads a list of names in which every text hint is one of the four.
pub fn parse_name(respdata: &[u8]) -> (r: Result<Vec<(String, Attributes)>, Error>)
    requires
        name_reply(respdata@) is Ok,
    ensures
        match name_reply(respdata@)->Ok_0 {
            Ok(v) => r matches Ok(w) && name_views(w@) == v,
            Err(e) => r matches Err(f) && f@ == e,
        },
{
    match decode_name(respdata) {
        Ok(r) => r,
        Err(_) => unreached(),
    }
}

/// Takes a reply as a list of names.
pub fn take_name(cmd: u8, data: &[u8]) -> (r: Answer<Vec<(String, Attributes)>>)
    ensures
        match name_answer(cmd, data@) {
            Ok(Ok(v)) => r matches Ok(Ok(w)) && name_views(w@) == v,
            Ok(Err(e)) => r matches Ok(Err(f)) && f@ == e,
            Err(b) => r matches Err(c) && c == b,
        },
{
    match cmd {
        SSH_FXP_NAME => decode_name(data),
        _ => refuse(cmd, data),
    }
}

/// Takes a reply as a list of names, where it is not a status of success and
/// holds no invalid text hint.
pub fn expect_name(cmd: u8, data: &[u8]) -> (r: Result<Vec<(String, Attributes)>, Error>)
    requires
        name_answer(cmd, data@) is Ok,
    ensures
        match name_answer(cmd, data@)->Ok_0 {
            Ok(v) => r matches Ok(w) && name_views(w@) == v,
            Err(e) => r matches Err(f) && f@ == e,
        },
{
    match take_name(cmd, data) {
        Ok(r) => r,
        Err(_) => unreached(),
    }
}

/// What a reply gives where one name was due: the first of the list.
pub open spec fn first_name_answer(cmd: u8, data: Seq<u8>) -> AnswerView<Seq<char>> {
    match name_answer(cmd, data) {
        Ok(Ok(names)) => if names.len() > 0 {
            Ok(Ok(names[0].0))
        } else {
            Err(Breach::NoName)
        },
        Ok(Err(e)) => Ok(Err(e)),
        Err(b) => Err(b),
    }
}

/// Takes a reply as one name.
pub fn take_first_name(cmd: u8, data: &[u8]) -> (r: Answer<String>)
    ensures
        match first_name_answer(cmd, data@) {
            Ok(Ok(name)) => r matches Ok(Ok(s)) && s@ == name,
            Ok(Err(e)) => r matches Ok(Err(f)) && f@ == e,
            Err(b) => r matches Err(c) && c == b,
        },
{
    match take_name(cmd, data) {
        Ok(Ok(names)) => {
            if names.len() == 0 {
                return Err(Breach::NoName);
            }
            Ok(Ok(names[0].0.clone()))
        },
        Ok(Err(e)) => Ok(Err(e)),
        Err(b) => Err(b),
    }
}

// Directory listings.

/// The contents of a directory listing.
pub open spec fn entry_views(v: Seq<(String, String, Attributes)>) -> Seq<
    (Seq<char>, Seq<char>, AttributesView),
> {
    Seq::new(v.len(), |i: int| (v[i].0@, v[i].1@, v[i].2@))
}

/// So many directory entries: a name, a line for it, attributes.
pub open spec fn decode_entries(n: nat, s: Seq<u8>) -> Decoded<
    Seq<(Seq<char>, Seq<char>, AttributesView)>,
>
    decreases n,
{
    if n == 0 {
        Ok((seq![], s))
    } else {
        match parse_string(s, "filename"@) {
            Err(e) => Err(FaultView::Io(e)),
            Ok((name, s)) => match parse_string(s, "longname"@) {
                Err(e) => Err(FaultView::Io(e)),
                Ok((long, s)) => match decode_attributes(s) {
                    Err(e) => Err(e),
                    Ok((a, s)) => match decode_entries((n - 1) as nat, s) {
                        Err(e) => Err(e),
                        Ok((more, s)) => Ok((seq![(name, long, a)] + more, s)),
                    },
                },
            },
        }
    }
}

/// A count, then so many directory entries.
pub open spec fn decode_listing(s: Seq<u8>) -> Decoded<
    Seq<(Seq<char>, Seq<char>, AttributesView)>,
> {
    match parse_u32(s) {
        Err(e) => Err(FaultView::Io(e)),
        Ok((n, s)) => decode_entries(n as nat, s),
    }
}

/// What the reply to the reading of a directory carries.
pub open spec fn readdir_reply(s: Seq<u8>) -> AnswerView<
    Seq<(Seq<char>, Seq<char>, AttributesView)>,
> {
    decoded_answer(decode_listing(s))
}

/// What a reply gives where directory entries were due.
pub open spec fn readdir_answer(cmd: u8, data: Seq<u8>) -> AnswerView<
    Seq<(Seq<char>, Seq<char>, AttributesView)>,
> {
    if cmd == SSH_FXP_NAME {
        readdir_reply(data)
    } else {
        refusal(cmd, data)
    }
}

fn read_entries(c: &mut Cursor) -> (r: Result<Vec<(String, String, Attributes)>, Fault>)
    ensures
        match decode_listing(old(c)@) {
            Ok((v, _)) => r matches Ok(w) && entry_views(w@) == v,
            Err(e) => r matches Err(f) && f@ == e,
        },
{
    let count = match c.read_u32() {
        Ok(n) => n,
        Err(e) => return Err(Fault::Io(e)),
    };
    let ghost start = c@;
    let mut files: Vec<(String, String, Attributes)> = Vec::new();
    let mut i: u32 = 0;
    assert(decode_entries(count as nat, start) matches Ok((v, _)) ==> entry_views(files@) + v
        =~= v);
    while i < count
        invariant
            i <= count,
            decode_listing(old(c)@) == decode_entries(count as nat, start),
            match decode_entries((count - i) as nat, c@) {
                Ok((v, rest)) => decode_entries(count as nat, start) == Ok::<_, FaultView>(
                    (entry_views(files@) + v, rest),
                ),
                Err(e) => decode_entries(count as nat, start) == Err::<
                    (Seq<(Seq<char>, Seq<char>, AttributesView)>, Seq<u8>),
                    _,
                >(e),
            },
        decreases count - i,
    {
        let ghost before = files@;
        let filename = match c.read_string("filename") {
            Ok(v) => v,
            Err(e) => return Err(Fault::Io(e)),
        };
        let longname = match c.read_string("longname") {
            Ok(v) => v,
            Err(e) => return Err(Fault::Io(e)),
        };
        let attrs = match Attributes::decode(c) {
            Ok(a) => a,
            Err(e) => return Err(e),
        };
        files.push((filename, longname, attrs));
        i += 1;
        proof {
            if let Ok((more, rest)) = decode_entries((count - i) as nat, c@) {
                assert(entry_views(files@) + more =~= entry_views(before) + (seq![
                    (filename@, longname@, attrs@),
                ] + more));
            }
        }
    }
    assert(entry_views(files@) =~= entry_views(files@) + Seq::<
        (Seq<char>, Seq<char>, AttributesView),
    >::empty());
    Ok(files)
}

fn decode_readdir(respdata: &[u8]) -> (r: Answer<Vec<(String, String, Attributes)>>)
    ensures
        match readdir_reply(respdata@) {
            Ok(Ok(v)) => r matches Ok(Ok(w)) && entry_views(w@) == v,
            Ok(Err(e)) => r matches Ok(Err(f)) && f@ == e,
            Err(b) => r matches Err(c) && c == b,
        },
{
    let mut reader = Cursor::new(respdata);
    match read_entries(&mut reader) {
        Ok(v) => Ok(Ok(v)),
        Err(Fault::Io(e)) => Ok(Err(Error::Io(e))),
        Err(Fault::TextHint) => Err(Breach::TextHint),
    }
}

/// Reads directory entries in which every text hint is one of the four.
pub fn parse_readdir(respdata: &[u8]) -> (r: Result<Vec<(String, String, Attributes)>, Error>)
    requires
        readdir_reply(respdata@) is Ok,
    ensures
        match readdir_reply(respdata@)->Ok_0 {
            Ok(v) => r matches Ok(w) && entry_views(w@) == v,
            Err(e) => r matches Err(f) && f@ == e,
        },
{
    match decode_readdir(respdata) {
        Ok(r) => r,
        Err(_) => unreached(),
    }
}

/// Takes a reply as directory entries.
pub fn take_readdir(cmd: u8, data: &[u8]) -> (r: Answer<Vec<(String, String, Attributes)>>)
    ensures
        match readdir_answer(cmd, data@) {
            Ok(Ok(v)) => r matches Ok(Ok(w)) && entry_views(w@) == v,
            Ok(Err(e)) => r matches Ok(Err(f)) && f@ == e,
            Err(b) => r matches Err(c) && c == b,
        },
{
    match cmd {
        SSH_FXP_NAME => decode_readdir(data),
        _ => refuse(cmd, data),
    }
}

/// Takes a reply as directory entries, where it is not a status of success
/// and holds no invalid text hint.
pub fn expect_readdir(cmd: u8, data: &[u8]) -> (r: Result<Vec<(String, String, Attributes)>, Error>)
    requires
        readdir_answer(cmd, data@) is Ok,
    ensures
        match readdir_answer(cmd, data@)->Ok_0 {
            Ok(v) => r matches Ok(w) && entry_views(w@) == v,
            Err(e) => r matches Err(f) && f@ == e,
        },
{
    match take_readdir(cmd, data) {
        Ok(r) => r,
        Err(_) => unreached(),
    }
}

// Extensions.

/// What a reply to an extended request gives: its data, or nothing where a
/// status reports success.
pub open spec fn extended_answer(cmd: u8, data: Seq<u8>) -> Result<Option<Seq<u8>>, ErrorView> {
    if cmd == SSH_FXP_EXTENDED_REPLY {
        Ok(Some(data))
    } else {
        match status_answer(cmd, data) {
            Ok(()) => Ok(None),
            Err(e) => Err(e),
        }
    }
}

/// Takes a reply as one to an extended request.
pub fn expect_extended(cmd: u8, data: Vec<u8>) -> (r: Result<Option<Vec<u8>>, Error>)
    ensures
        match extended_answer(cmd, data@) {
            Ok(Some(b)) => r matches Ok(Some(v)) && v@ == b,
            Ok(None) => r matches Ok(None),
            Err(e) => r matches Err(f) && f@ == e,
        },
{
    match cmd {
        SSH_FXP_EXTENDED_REPLY => Ok(Some(data)),
        _ => match expect_status(cmd, data.as_slice()) {
            Ok(()) => Ok(None),
            Err(e) => Err(e),
        },
    }
}

} // verus!
