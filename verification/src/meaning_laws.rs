//! What errors and replies say.

use vstd::prelude::*;
use vstd::utf8::valid_utf8;

use crate::attributes::{
    decode_attributes, encode_attributes, parse_fields, parse_pairs, AttributesView, FaultView,
};
use crate::error::{
    as_io_error, debug_str, status_error, variant_name, Error, ErrorView, IoError, IoErrorKind,
    IoErrorView, Utf8Error,
};
use crate::layout_laws::law_bad_text_is_refused_by_name;
use crate::reply::{
    attrs_answer, data_answer, extended_answer, first_name_answer, handle_answer, name_answer,
    readdir_answer, status_answer, Breach,
};
use crate::reply_laws::{
    entry_comes_back, entry_fields, law_bytes_reach_the_caller, law_entries_reach_the_caller,
    law_names_reach_the_caller, law_status_round_trip, listing_bytes, name_bytes,
    name_comes_back, name_fields, status_bytes,
};
use crate::sync::{handshake, payload_answer, replied, SessionView};
use crate::text::decimal;
use crate::wire::{
    be32, bytes_field, law_be32_round_trip, law_str_field_round_trip, parse_string, str_field,
    text_fits, utf8_error_text,
};

verus! {

// Errors.

/// Each status code has its own error, which keeps message and language.
pub proof fn law_codes_of_errors(code: u32, m: String, l: String)
    ensures
        Error::Eof(m, l)@ == ErrorView::Status(1, m@, l@),
        Error::NoSuchFile(m, l)@ == ErrorView::Status(2, m@, l@),
        Error::PermissionDenied(m, l)@ == ErrorView::Status(3, m@, l@),
        Error::Failure(m, l)@ == ErrorView::Status(4, m@, l@),
        Error::BadMessage(m, l)@ == ErrorView::Status(5, m@, l@),
        Error::NoConnection(m, l)@ == ErrorView::Status(6, m@, l@),
        Error::ConnectionLost(m, l)@ == ErrorView::Status(7, m@, l@),
        Error::OpUnsupported(m, l)@ == ErrorView::Status(8, m@, l@),
        Error::InvalidHandle(m, l)@ == ErrorView::Status(9, m@, l@),
        Error::NoSuchPath(m, l)@ == ErrorView::Status(10, m@, l@),
        Error::FileAlreadyExists(m, l)@ == ErrorView::Status(11, m@, l@),
        Error::WriteProtect(m, l)@ == ErrorView::Status(12, m@, l@),
        Error::NoMedia(m, l)@ == ErrorView::Status(13, m@, l@),
        Error::NoSpaceOnFilesystem(m, l)@ == ErrorView::Status(14, m@, l@),
        Error::QuotaExceeded(m, l)@ == ErrorView::Status(15, m@, l@),
        Error::UnknownPrincipal(m, l)@ == ErrorView::Status(16, m@, l@),
        Error::LockConflict(m, l)@ == ErrorView::Status(17, m@, l@),
        Error::DirNotEmpty(m, l)@ == ErrorView::Status(18, m@, l@),
        Error::NotADirectory(m, l)@ == ErrorView::Status(19, m@, l@),
        Error::InvalidFilename(m, l)@ == ErrorView::Status(20, m@, l@),
        Error::LinkLoop(m, l)@ == ErrorView::Status(21, m@, l@),
        Error::CannotDelete(m, l)@ == ErrorView::Status(22, m@, l@),
        Error::InvalidParameter(m, l)@ == ErrorView::Status(23, m@, l@),
        Error::FileIsADirectory(m, l)@ == ErrorView::Status(24, m@, l@),
        Error::ByteRangeLockConflict(m, l)@ == ErrorView::Status(25, m@, l@),
        Error::ByteRangeLockRefused(m, l)@ == ErrorView::Status(26, m@, l@),
        Error::DeletePending(m, l)@ == ErrorView::Status(27, m@, l@),
        Error::FileCorrupt(m, l)@ == ErrorView::Status(28, m@, l@),
        Error::OwnerInvalid(m, l)@ == ErrorView::Status(29, m@, l@),
        Error::GroupInvalid(m, l)@ == ErrorView::Status(30, m@, l@),
        Error::NoMatchingByteRangeLock(m, l)@ == ErrorView::Status(31, m@, l@),
        Error::Other(code, m, l)@ == ErrorView::Other(code, m@, l@),
{
}

/// Codes from one to thirty-one have an error of their own; any other code is
/// kept as a number.
pub proof fn law_codes_without_an_error(code: u32, m: Seq<char>, l: Seq<char>)
    ensures
        1 <= code <= 31 ==> status_error(code, m, l) == ErrorView::Status(code, m, l),
        code > 31 ==> status_error(code, m, l) == ErrorView::Other(code, m, l),
{
}

/// Errors as transport errors: those that have a kind take it, with the last
/// text of the status; the end of a file says nothing; a transport error stays
/// what it is.
pub proof fn law_kinds_of_errors(e: IoError, m: String, l: String)
    ensures
        as_io_error(Error::Io(e)@) == e@,
        as_io_error(Error::Eof(m, l)@) == (IoErrorView {
            kind: IoErrorKind::UnexpectedEof,
            message: ""@,
        }),
        as_io_error(Error::NoSuchFile(m, l)@) == (IoErrorView {
            kind: IoErrorKind::NotFound,
            message: l@,
        }),
        as_io_error(Error::PermissionDenied(m, l)@) == (IoErrorView {
            kind: IoErrorKind::PermissionDenied,
            message: l@,
        }),
        as_io_error(Error::NoConnection(m, l)@) == (IoErrorView {
            kind: IoErrorKind::NotConnected,
            message: l@,
        }),
        as_io_error(Error::ConnectionLost(m, l)@) == (IoErrorView {
            kind: IoErrorKind::ConnectionReset,
            message: l@,
        }),
        as_io_error(Error::InvalidHandle(m, l)@) == (IoErrorView {
            kind: IoErrorKind::InvalidInput,
            message: l@,
        }),
        as_io_error(Error::NoSuchPath(m, l)@) == (IoErrorView {
            kind: IoErrorKind::NotFound,
            message: l@,
        }),
        as_io_error(Error::FileAlreadyExists(m, l)@) == (IoErrorView {
            kind: IoErrorKind::AlreadyExists,
            message: l@,
        }),
        as_io_error(Error::WriteProtect(m, l)@) == (IoErrorView {
            kind: IoErrorKind::PermissionDenied,
            message: l@,
        }),
        as_io_error(Error::NoMedia(m, l)@) == (IoErrorView {
            kind: IoErrorKind::NotFound,
            message: l@,
        }),
        as_io_error(Error::QuotaExceeded(m, l)@) == (IoErrorView {
            kind: IoErrorKind::PermissionDenied,
            message: l@,
        }),
        as_io_error(Error::LockConflict(m, l)@) == (IoErrorView {
            kind: IoErrorKind::PermissionDenied,
            message: l@,
        }),
        as_io_error(Error::InvalidFilename(m, l)@) == (IoErrorView {
            kind: IoErrorKind::InvalidInput,
            message: l@,
        }),
{
}

/// The names under which errors are spelt out.
pub proof fn law_names_of_errors()
    ensures
        variant_name(1) == "Eof"@,
        variant_name(2) == "NoSuchFile"@,
        variant_name(3) == "PermissionDenied"@,
        variant_name(4) == "Failure"@,
        variant_name(5) == "BadMessage"@,
        variant_name(6) == "NoConnection"@,
        variant_name(7) == "ConnectionLost"@,
        variant_name(8) == "OpUnsupported"@,
        variant_name(9) == "InvalidHandle"@,
        variant_name(10) == "NoSuchPath"@,
        variant_name(11) == "FileAlreadyExists"@,
        variant_name(12) == "WriteProtect"@,
        variant_name(13) == "NoMedia"@,
        variant_name(14) == "NoSpaceOnFilesystem"@,
        variant_name(15) == "QuotaExceeded"@,
        variant_name(16) == "UnknownPrincipal"@,
        variant_name(17) == "LockConflict"@,
        variant_name(18) == "DirNotEmpty"@,
        variant_name(19) == "NotADirectory"@,
        variant_name(20) == "InvalidFilename"@,
        variant_name(21) == "LinkLoop"@,
        variant_name(22) == "CannotDelete"@,
        variant_name(23) == "InvalidParameter"@,
        variant_name(24) == "FileIsADirectory"@,
        variant_name(25) == "ByteRangeLockConflict"@,
        variant_name(26) == "ByteRangeLockRefused"@,
        variant_name(27) == "DeletePending"@,
        variant_name(28) == "FileCorrupt"@,
        variant_name(29) == "OwnerInvalid"@,
        variant_name(30) == "GroupInvalid"@,
        variant_name(31) == "NoMatchingByteRangeLock"@,
{
}

/// Errors that have no kind as transport errors are spelt out: the name, and in
/// parentheses both texts.
pub proof fn law_other_errors_are_spelt_out(code: u32, m: Seq<char>, l: Seq<char>)
    requires
        code == 4 || code == 5 || code == 8 || code == 14 || code == 16 || code == 18 || code == 19
            || 21 <= code <= 31,
    ensures
        as_io_error(ErrorView::Status(code, m, l)).kind == IoErrorKind::Other,
        as_io_error(ErrorView::Status(code, m, l)).message == variant_name(code) + "("@
            + debug_str(m) + ", "@ + debug_str(l) + ")"@,
{
}

/// A code without an error is spelt out as a number, with its texts.
pub proof fn law_unknown_codes_are_spelt_out(code: u32, m: String, l: String)
    ensures
        as_io_error(Error::Other(code, m, l)@).kind == IoErrorKind::Other,
        as_io_error(Error::Other(code, m, l)@).message == "Other("@ + decimal(code as nat) + ", "@
            + debug_str(m@) + ", "@ + debug_str(l@) + ")"@,
{
}

/// A text that is not UTF-8 is spelt out with the place where it stops being
/// so.
pub proof fn law_bad_text_is_spelt_out(u: Utf8Error)
    ensures
        as_io_error(Error::Utf8(u)@).kind == IoErrorKind::Other,
        u.error_len is None ==> as_io_error(Error::Utf8(u)@).message
            == "Utf8(Utf8Error { valid_up_to: "@ + decimal(u.valid_up_to as nat) + ", error_len: "@
            + "None"@ + " })"@,
        u.error_len is Some ==> as_io_error(Error::Utf8(u)@).message
            == "Utf8(Utf8Error { valid_up_to: "@ + decimal(u.valid_up_to as nat) + ", error_len: "@
            + ("Some("@ + decimal(u.error_len->0 as nat) + ")"@) + " })"@,
{
}

// Which replies answer which requests.

/// Where the status stands in a reply: code, message, language.
pub proof fn law_status_layout(code: u32, m: Seq<char>, l: Seq<char>, rest: Seq<u8>)
    requires
        text_fits(m),
        text_fits(l),
    ensures
        status_bytes(code, m, l) == be32(code) + str_field(m) + str_field(l),
        status_answer(101, be32(0) + str_field(m) + str_field(l) + rest) == Ok::<(), ErrorView>(
            (),
        ),
        1 <= code <= 31 ==> status_answer(101, be32(code) + str_field(m) + str_field(l) + rest)
            == Err::<(), _>(ErrorView::Status(code, m, l)),
        code > 31 ==> status_answer(101, be32(code) + str_field(m) + str_field(l) + rest) == Err::<
            (),
            _,
        >(ErrorView::Other(code, m, l)),
{
    law_status_round_trip(code, m, l, rest);
    law_status_round_trip(0, m, l, rest);
}

/// A request for a value is answered by a reply of its kind or refused by a
/// status; a reply of any other kind is an error that names the kind.
pub proof fn law_each_request_has_its_reply(kind: u8, data: Seq<u8>)
    ensures
        ({
            let e = ErrorView::Io(
                IoErrorView {
                    kind: IoErrorKind::Other,
                    message: "Unexpected response: "@ + decimal(kind as nat),
                },
            );
            &&& (kind != 101 ==> status_answer(kind, data) == Err::<(), _>(e))
            &&& (kind != 101 && kind != 102 ==> handle_answer(kind, data) == Ok::<_, Breach>(
                Err::<Seq<u8>, _>(e),
            ))
            &&& (kind != 101 && kind != 103 ==> data_answer(kind, data) == Ok::<_, Breach>(
                Err::<Seq<u8>, _>(e),
            ))
            &&& (kind != 101 && kind != 104 ==> name_answer(kind, data) == Ok::<_, Breach>(
                Err::<Seq<(Seq<char>, AttributesView)>, _>(e),
            ))
            &&& (kind != 101 && kind != 104 ==> first_name_answer(kind, data) == Ok::<_, Breach>(
                Err::<Seq<char>, _>(e),
            ))
            &&& (kind != 101 && kind != 104 ==> readdir_answer(kind, data) == Ok::<_, Breach>(
                Err::<Seq<(Seq<char>, Seq<char>, AttributesView)>, _>(e),
            ))
            &&& (kind != 101 && kind != 105 ==> attrs_answer(kind, data) == Ok::<_, Breach>(
                Err::<AttributesView, _>(e),
            ))
            &&& (kind != 101 && kind != 201 ==> extended_answer(kind, data) == Err::<
                Option<Seq<u8>>,
                _,
            >(e))
        }),
{
}

/// The data of an extension is all of the payload; handles and file data are
/// the bytes that the payload announces.
#[verifier::spinoff_prover]
pub proof fn law_values_in_replies(data: Seq<u8>, b: Seq<u8>, rest: Seq<u8>)
    requires
        b.len() <= u32::MAX,
    ensures
        extended_answer(201, data) == Ok::<_, ErrorView>(Some(data)),
        handle_answer(102, be32(b.len() as u32) + b + rest) == Ok::<_, Breach>(
            Ok::<_, ErrorView>(b),
        ),
        data_answer(103, be32(b.len() as u32) + b + rest) == Ok::<_, Breach>(
            Ok::<_, ErrorView>(b),
        ),
{
    assert(bytes_field(b) == be32(b.len() as u32) + b);
    law_bytes_reach_the_caller(b, rest);
}

/// One name in a reply: the count, the name, its attributes.
pub proof fn law_name_in_a_reply(name: Seq<char>, a: AttributesView, rest: Seq<u8>)
    requires
        name_comes_back((name, a)),
    ensures
        first_name_answer(104, be32(1) + (str_field(name) + encode_attributes(a)) + rest) == Ok::<
            _,
            Breach,
        >(Ok::<_, ErrorView>(name)),
        name_answer(104, be32(1) + (str_field(name) + encode_attributes(a)) + rest) == Ok::<
            _,
            Breach,
        >(Ok::<_, ErrorView>(seq![(name, a)])),
{
    let names = seq![(name, a)];
    assert forall|i: int| 0 <= i < names.len() implies name_comes_back(#[trigger] names[i]) by {}
    law_names_reach_the_caller(names, rest);
    assert(names.drop_first() =~= seq![]);
    assert(name_fields(names.drop_first()) =~= seq![]);
    assert(name_fields(names) =~= str_field(name) + encode_attributes(a));
    assert(name_bytes(names) =~= be32(1) + (str_field(name) + encode_attributes(a)));
}

/// Names follow each other in a reply.
pub proof fn law_names_follow_each_other(
    first: (Seq<char>, AttributesView),
    more: Seq<(Seq<char>, AttributesView)>,
)
    requires
        more.len() < u32::MAX,
    ensures
        name_bytes(seq![first] + more) == be32((more.len() + 1) as u32) + (str_field(first.0)
            + encode_attributes(first.1) + name_fields(more)),
        name_fields(seq![]) == Seq::<u8>::empty(),
{
    let all = seq![first] + more;
    assert(all.drop_first() =~= more);
}

/// One entry of a directory in a reply: the count, the name, the long line, the
/// attributes.
pub proof fn law_entry_in_a_reply(
    name: Seq<char>,
    long: Seq<char>,
    a: AttributesView,
    rest: Seq<u8>,
)
    requires
        entry_comes_back((name, long, a)),
    ensures
        readdir_answer(
            104,
            be32(1) + (str_field(name) + str_field(long) + encode_attributes(a)) + rest,
        ) == Ok::<_, Breach>(Ok::<_, ErrorView>(seq![(name, long, a)])),
{
    let entries = seq![(name, long, a)];
    assert forall|i: int| 0 <= i < entries.len() implies entry_comes_back(
        #[trigger] entries[i],
    ) by {}
    law_entries_reach_the_caller(entries, rest);
    assert(entries.drop_first() =~= seq![]);
    assert(entry_fields(entries.drop_first()) =~= seq![]);
    assert(entry_fields(entries) =~= str_field(name) + str_field(long) + encode_attributes(a));
    assert(listing_bytes(entries) =~= be32(1) + (str_field(name) + str_field(long)
        + encode_attributes(a)));
}

/// Entries follow each other in a reply.
pub proof fn law_entries_follow_each_other(
    first: (Seq<char>, Seq<char>, AttributesView),
    more: Seq<(Seq<char>, Seq<char>, AttributesView)>,
)
    requires
        more.len() < u32::MAX,
    ensures
        listing_bytes(seq![first] + more) == be32((more.len() + 1) as u32) + (str_field(first.0)
            + str_field(first.1) + encode_attributes(first.2) + entry_fields(more)),
        entry_fields(seq![]) == Seq::<u8>::empty(),
{
    let all = seq![first] + more;
    assert(all.drop_first() =~= more);
}

/// A packet too short for an id is an error for any request, whatever the reply
/// would mean.
pub proof fn law_short_replies_are_errors<T>(
    id: u32,
    body: Seq<u8>,
    meaning: spec_fn(Seq<u8>) -> crate::reply::AnswerView<T>,
)
    requires
        body.len() < 4,
    ensures
        ({
            let e = ErrorView::Io(
                IoErrorView {
                    kind: IoErrorKind::Other,
                    message: "response too short to contain request id"@,
                },
            );
            &&& payload_answer(id, body) == Ok::<_, Breach>(Err::<Seq<u8>, _>(e))
            &&& replied(id, body, meaning) == Ok::<_, Breach>(Err::<T, _>(e))
        }),
{
}

/// The error of a text that is not UTF-8.
pub open spec fn bad_text(what: Seq<char>, b: Seq<u8>) -> IoErrorView {
    IoErrorView {
        kind: IoErrorKind::InvalidData,
        message: "Invalid "@ + what + ": "@ + utf8_error_text(b),
    }
}

proof fn lemma_bad_text_behind(m: Seq<char>, b: Seq<u8>, rest: Seq<u8>, w: Seq<char>, v: Seq<char>)
    requires
        text_fits(m),
        b.len() <= u32::MAX,
        !valid_utf8(b),
    ensures
        parse_string(bytes_field(b) + rest, w) == Err::<(Seq<char>, Seq<u8>), _>(bad_text(w, b)),
        parse_string(str_field(m) + (bytes_field(b) + rest), v) == Ok::<_, IoErrorView>(
            (m, bytes_field(b) + rest),
        ),
{
    assert(bytes_field(b) == be32(b.len() as u32) + b);
    law_bad_text_is_refused_by_name(b, rest, w);
    law_str_field_round_trip(m, bytes_field(b) + rest, v);
}

/// A text in a reply that is not UTF-8 is refused under the name of the field:
/// message or language of a status, name or line of an entry.
pub proof fn law_bad_text_in_replies_is_named(
    n: u32,
    m: Seq<char>,
    b: Seq<u8>,
    rest: Seq<u8>,
)
    requires
        n > 0,
        text_fits(m),
        b.len() <= u32::MAX,
        !valid_utf8(b),
    ensures
        status_answer(101, be32(n) + (bytes_field(b) + rest)) == Err::<(), _>(
            ErrorView::Io(bad_text("error message"@, b)),
        ),
        status_answer(101, be32(n) + (str_field(m) + (bytes_field(b) + rest))) == Err::<(), _>(
            ErrorView::Io(bad_text("lang tag"@, b)),
        ),
        name_answer(104, be32(n) + (bytes_field(b) + rest)) == Ok::<_, Breach>(
            Err::<Seq<(Seq<char>, AttributesView)>, _>(ErrorView::Io(bad_text("filename"@, b))),
        ),
        readdir_answer(104, be32(n) + (bytes_field(b) + rest)) == Ok::<_, Breach>(
            Err::<Seq<(Seq<char>, Seq<char>, AttributesView)>, _>(
                ErrorView::Io(bad_text("filename"@, b)),
            ),
        ),
        readdir_answer(104, be32(n) + (str_field(m) + (bytes_field(b) + rest))) == Ok::<_, Breach>(
            Err::<Seq<(Seq<char>, Seq<char>, AttributesView)>, _>(
                ErrorView::Io(bad_text("longname"@, b)),
            ),
        ),
{
    let one = bytes_field(b) + rest;
    let two = str_field(m) + one;
    law_be32_round_trip(n, one);
    law_be32_round_trip(n, two);
    lemma_bad_text_behind(m, b, rest, "error message"@, "error message"@);
    lemma_bad_text_behind(m, b, rest, "lang tag"@, "error message"@);
    lemma_bad_text_behind(m, b, rest, "filename"@, "filename"@);
    lemma_bad_text_behind(m, b, rest, "longname"@, "filename"@);
}

/// A text in a server's announcement that is not UTF-8 is refused under the name
/// of the field.
pub proof fn law_bad_text_in_announcements_is_named(m: Seq<char>, b: Seq<u8>, rest: Seq<u8>)
    requires
        text_fits(m),
        b.len() <= u32::MAX,
        !valid_utf8(b),
    ensures
        handshake(2, be32(3) + (bytes_field(b) + rest)) == Err::<SessionView, _>(
            bad_text("extension key"@, b),
        ),
        handshake(2, be32(3) + (str_field(m) + (bytes_field(b) + rest))) == Err::<SessionView, _>(
            bad_text("extension value"@, b),
        ),
{
    let one = bytes_field(b) + rest;
    let two = str_field(m) + one;
    law_be32_round_trip(3, one);
    law_be32_round_trip(3, two);
    lemma_bad_text_behind(m, b, rest, "extension key"@, "extension key"@);
    lemma_bad_text_behind(m, b, rest, "extension value"@, "extension key"@);
    assert(two.len() > 0);
}

proof fn lemma_single_bits()
    ensures
        0x80u32 & 1 == 0 && 0x80u32 & 2 == 0 && 0x80u32 & 0x400 == 0 && 0x80u32 & 0x80 != 0,
        forall|bit: u32|
            bit == 1 || bit == 2 || bit == 4 || bit == 8 || bit == 0x10 || bit == 0x20 || bit
                == 0x40 || bit == 0x80 || bit == 0x100 || bit == 0x200 || bit == 0x400 || bit
                == 0x800 ==> #[trigger] (0x1000u32 & bit) == 0,
        0x1000u32 & 0x8000 == 0 && 0x1000u32 & 0x1000 != 0,
{
    assert(0x80u32 & 1 == 0 && 0x80u32 & 2 == 0 && 0x80u32 & 0x400 == 0 && 0x80u32 & 0x80 != 0)
        by (bit_vector);
    assert(forall|bit: u32|
        bit == 1 || bit == 2 || bit == 4 || bit == 8 || bit == 0x10 || bit == 0x20 || bit == 0x40
            || bit == 0x80 || bit == 0x100 || bit == 0x200 || bit == 0x400 || bit == 0x800
            ==> #[trigger] (0x1000u32 & bit) == 0) by (bit_vector);
    assert(0x1000u32 & 0x8000 == 0 && 0x1000u32 & 0x1000 != 0) by (bit_vector);
}

/// A text in attributes that is not UTF-8 is refused under the name of the
/// field.
pub proof fn law_bad_text_in_attributes_is_named(m: Seq<char>, b: Seq<u8>, rest: Seq<u8>)
    requires
        text_fits(m),
        b.len() <= u32::MAX,
        !valid_utf8(b),
    ensures
        decode_attributes(be32(0x80) + (bytes_field(b) + rest)) == Err::<
            (AttributesView, Seq<u8>),
            _,
        >(FaultView::Io(bad_text("owner"@, b))),
        decode_attributes(be32(0x80) + (str_field(m) + (bytes_field(b) + rest))) == Err::<
            (AttributesView, Seq<u8>),
            _,
        >(FaultView::Io(bad_text("group"@, b))),
        decode_attributes(be32(0x1000) + (bytes_field(b) + rest)) == Err::<
            (AttributesView, Seq<u8>),
            _,
        >(FaultView::Io(bad_text("mime type"@, b))),
{
    reveal(parse_fields);
    lemma_single_bits();
    let one = bytes_field(b) + rest;
    let two = str_field(m) + one;
    law_be32_round_trip(0x80, one);
    law_be32_round_trip(0x80, two);
    law_be32_round_trip(0x1000, one);
    lemma_bad_text_behind(m, b, rest, "owner"@, "owner"@);
    lemma_bad_text_behind(m, b, rest, "group"@, "owner"@);
    lemma_bad_text_behind(m, b, rest, "mime type"@, "mime type"@);
}

/// An extended attribute whose key or value is not UTF-8 is refused under the
/// name of the field.
pub proof fn law_bad_text_in_pairs_is_named(n: nat, m: Seq<char>, b: Seq<u8>, rest: Seq<u8>)
    requires
        n > 0,
        text_fits(m),
        b.len() <= u32::MAX,
        !valid_utf8(b),
    ensures
        parse_pairs(n, bytes_field(b) + rest) == Err::<
            (Seq<(Seq<char>, Seq<char>)>, Seq<u8>),
            _,
        >(bad_text("extended key"@, b)),
        parse_pairs(n, str_field(m) + (bytes_field(b) + rest)) == Err::<
            (Seq<(Seq<char>, Seq<char>)>, Seq<u8>),
            _,
        >(bad_text("extended value"@, b)),
{
    lemma_bad_text_behind(m, b, rest, "extended key"@, "extended key"@);
    lemma_bad_text_behind(m, b, rest, "extended value"@, "extended key"@);
}

} // verus!
