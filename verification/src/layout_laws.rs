//! Where everything stands on the wire.
//!
//! What is said here is said in bytes and numbers, without the functions that
//! make and read them.

use vstd::prelude::*;
use vstd::utf8::encode_utf8;

use crate::attribute_laws::{
    law_attributes_round_trip, lemma_access, lemma_bits, lemma_extras, lemma_opt_time,
    lemma_opt_u32, lemma_opt_u64, lengths_fit,
};
use crate::attributes::{
    access_mask, bits_mask, decode_attributes, encodable, encode_access, encode_attributes,
    encode_bits, encode_extras, encode_ids, encode_pairs, encode_times, extras_mask, field_mask,
    flag, has_subseconds, ids_mask, no_attributes, pair_fields, parse_access, parse_bits,
    parse_extras, parse_fields, parse_ids, parse_times, times_mask, AttributesView, FaultView,
};
use crate::constants::{
    SFTP_FLAG_APPEND, SFTP_FLAG_CREAT, SFTP_FLAG_EXCL, SFTP_FLAG_READ, SFTP_FLAG_TRUNC,
    SFTP_FLAG_WRITE, SSH_FILEXFER_ATTR_ACCESSTIME, SSH_FILEXFER_ATTR_ACL,
    SSH_FILEXFER_ATTR_ALLOCATION_SIZE, SSH_FILEXFER_ATTR_BITS, SSH_FILEXFER_ATTR_CREATETIME,
    SSH_FILEXFER_ATTR_CTIME, SSH_FILEXFER_ATTR_EXTENDED, SSH_FILEXFER_ATTR_FLAGS_APPEND_ONLY,
    SSH_FILEXFER_ATTR_FLAGS_ARCHIVE, SSH_FILEXFER_ATTR_FLAGS_CASE_INSENSITIVE,
    SSH_FILEXFER_ATTR_FLAGS_COMPRESSED, SSH_FILEXFER_ATTR_FLAGS_ENCRYPTED,
    SSH_FILEXFER_ATTR_FLAGS_HIDDEN, SSH_FILEXFER_ATTR_FLAGS_IMMUTABLE,
    SSH_FILEXFER_ATTR_FLAGS_READONLY, SSH_FILEXFER_ATTR_FLAGS_SPARSE,
    SSH_FILEXFER_ATTR_FLAGS_SYNC, SSH_FILEXFER_ATTR_FLAGS_SYSTEM,
    SSH_FILEXFER_ATTR_FLAGS_TRANSLATION_ERR, SSH_FILEXFER_ATTR_GUESSED_BINARY,
    SSH_FILEXFER_ATTR_GUESSED_TEXT, SSH_FILEXFER_ATTR_KNOWN_BINARY,
    SSH_FILEXFER_ATTR_KNOWN_TEXT, SSH_FILEXFER_ATTR_LINK_COUNT, SSH_FILEXFER_ATTR_MIME_TYPE,
    SSH_FILEXFER_ATTR_MODIFYTIME, SSH_FILEXFER_ATTR_OWNERGROUP, SSH_FILEXFER_ATTR_PERMISSIONS,
    SSH_FILEXFER_ATTR_SIZE, SSH_FILEXFER_ATTR_SUBSECOND_TIMES, SSH_FILEXFER_ATTR_TEXT_HINT,
    SSH_FILEXFER_ATTR_UIDGID, SSH_FILEXFER_ATTR_UNTRANSLATED_NAME,
    SSH_FILEXFER_TYPE_BLOCK_DEVICE, SSH_FILEXFER_TYPE_CHAR_DEVICE, SSH_FILEXFER_TYPE_DIRECTORY,
    SSH_FILEXFER_TYPE_FIFO, SSH_FILEXFER_TYPE_REGULAR, SSH_FILEXFER_TYPE_SOCKET,
    SSH_FILEXFER_TYPE_SPECIAL, SSH_FILEXFER_TYPE_SYMLINK, SSH_FILEXFER_TYPE_UNKNOWN,
    SSH_FXF_ACCESS_AUDIT_ALARM_INFO, SSH_FXF_ACCESS_BACKUP, SSH_FXF_ACCESS_DISPOSITION,
    SSH_FXF_APPEND_DATA, SSH_FXF_APPEND_DATA_ATOMIC, SSH_FXF_BACKUP_STREAM,
    SSH_FXF_BLOCK_ADVISORY, SSH_FXF_BLOCK_DELETE, SSH_FXF_BLOCK_READ, SSH_FXF_BLOCK_WRITE,
    SSH_FXF_CREATE_NEW, SSH_FXF_CREATE_TRUNCATE, SSH_FXF_DELETE_ON_CLOSE, SSH_FXF_NOFOLLOW,
    SSH_FXF_OPEN_EXISTING, SSH_FXF_OPEN_OR_CREATE, SSH_FXF_OVERRIDE_OWNER,
    SSH_FXF_RENAME_ATOMIC, SSH_FXF_RENAME_NATIVE, SSH_FXF_RENAME_OVERWRITE, SSH_FXF_TEXT_MODE,
    SSH_FXF_TRUNCATE_EXISTING, SSH_FXP_ATTRS, SSH_FXP_BLOCK, SSH_FXP_CLOSE, SSH_FXP_DATA,
    SSH_FXP_EXTENDED, SSH_FXP_EXTENDED_REPLY, SSH_FXP_FSETSTAT, SSH_FXP_FSTAT, SSH_FXP_HANDLE,
    SSH_FXP_INIT, SSH_FXP_LINK, SSH_FXP_LSTAT, SSH_FXP_MKDIR, SSH_FXP_NAME, SSH_FXP_OPEN,
    SSH_FXP_OPENDIR, SSH_FXP_READ, SSH_FXP_READDIR, SSH_FXP_READLINK, SSH_FXP_REALPATH,
    SSH_FXP_REMOVE, SSH_FXP_RENAME, SSH_FXP_RMDIR, SSH_FXP_SETSTAT, SSH_FXP_STAT,
    SSH_FXP_STATUS, SSH_FXP_SYMLINK, SSH_FXP_UNBLOCK, SSH_FXP_VERSION, SSH_FXP_WRITE,
    SSH_FX_BAD_MESSAGE, SSH_FX_BYTE_RANGE_LOCK_CONFLICT, SSH_FX_BYTE_RANGE_LOCK_REFUSED,
    SSH_FX_CANNOT_DELETE, SSH_FX_CONNECTION_LOST, SSH_FX_DELETE_PENDING, SSH_FX_DIR_NOT_EMPTY,
    SSH_FX_EOF, SSH_FX_FAILURE, SSH_FX_FILE_ALREADY_EXISTS, SSH_FX_FILE_CORRUPT,
    SSH_FX_FILE_IS_A_DIRECTORY, SSH_FX_GROUP_INVALID, SSH_FX_INVALID_FILENAME,
    SSH_FX_INVALID_HANDLE, SSH_FX_INVALID_PARAMETER, SSH_FX_LINK_LOOP, SSH_FX_LOCK_CONFLICT,
    SSH_FX_NOT_A_DIRECTORY, SSH_FX_NO_CONNECTION, SSH_FX_NO_MATCHING_BYTE_RANGE_LOCK,
    SSH_FX_NO_MEDIA, SSH_FX_NO_SPACE_ON_FILESYSTEM, SSH_FX_NO_SUCH_FILE, SSH_FX_NO_SUCH_PATH,
    SSH_FX_OK, SSH_FX_OP_UNSUPPORTED, SSH_FX_OWNER_INVALID, SSH_FX_PERMISSION_DENIED,
    SSH_FX_QUOTA_EXCEEDED, SSH_FX_UNKNOWN_PRINCIPAL, SSH_FX_WRITE_PROTECT,
};
use crate::error::{IoErrorKind, IoErrorView};
use crate::protocol::{
    link_byte, numbered, packet, parse_numbered, parse_packet, realpath_body, rename_flags,
    PROTOCOL_VERSION,
};
use crate::sync::{advanced, flags_or_none, handshake, issued, SessionView};
use crate::text::decimal;
use crate::types::{Kind, TextHint};
use crate::wire::{
    be32, be64, bytes_field, law_be32_round_trip, parse_bytes, parse_string, parse_u32,
    parse_u64, parse_u8, str_field, text_fits, utf8_error_text,
};

verus! {

// Numbers and fields.

/// Numbers stand on the wire with the most significant byte first.
pub proof fn law_numbers_are_big_endian(v: u32, w: u64)
    ensures
        be32(v).len() == 4,
        be32(v)[0] * 0x100_0000 + be32(v)[1] * 0x1_0000 + be32(v)[2] * 0x100 + be32(v)[3] == v,
        be64(w).len() == 8,
        be64(w)[0] * 0x100_0000_0000_0000 + be64(w)[1] * 0x1_0000_0000_0000 + be64(w)[2]
            * 0x100_0000_0000 + be64(w)[3] * 0x1_0000_0000 + be64(w)[4] * 0x100_0000 + be64(w)[5]
            * 0x1_0000 + be64(w)[6] * 0x100 + be64(w)[7] == w,
{
    let hi = (w / 0x1_0000_0000) as u32;
    let lo = (w % 0x1_0000_0000) as u32;
    assert(be64(w) =~= be32(hi) + be32(lo));
    assert(hi * 0x1_0000_0000 + lo == w);
}

/// A field is its length, as a number of four bytes, and then its bytes; a text
/// is the field of its UTF-8 bytes.
pub proof fn law_fields_carry_their_length(b: Seq<u8>, s: Seq<char>)
    requires
        b.len() <= u32::MAX,
        encode_utf8(s).len() <= u32::MAX,
    ensures
        bytes_field(b) == be32(b.len() as u32) + b,
        str_field(s) == be32(encode_utf8(s).len() as u32) + encode_utf8(s),
        text_fits(s),
{
    reveal(str_field);
    reveal(text_fits);
}

/// Reading fails on too few bytes, and only says that they are too few.
pub proof fn law_too_few_bytes_are_refused(s: Seq<u8>, what: Seq<char>)
    ensures
        ({
            let few = IoErrorView {
                kind: IoErrorKind::UnexpectedEof,
                message: "failed to fill whole buffer"@,
            };
            &&& (s.len() < 1 ==> parse_u8(s) == Err::<(u8, Seq<u8>), _>(few))
            &&& (s.len() < 4 ==> parse_u32(s) == Err::<(u32, Seq<u8>), _>(few))
            &&& (s.len() < 8 ==> parse_u64(s) == Err::<(u64, Seq<u8>), _>(few))
            &&& (s.len() < 4 ==> parse_bytes(s) == Err::<(Seq<u8>, Seq<u8>), _>(few))
            &&& (s.len() < 4 ==> parse_string(s, what) == Err::<(Seq<char>, Seq<u8>), _>(few))
        }),
{
}

/// A field that announces more bytes than there are is refused.
pub proof fn law_long_announcements_are_refused(n: u32, b: Seq<u8>, what: Seq<char>)
    requires
        b.len() < n,
    ensures
        ({
            let few = IoErrorView {
                kind: IoErrorKind::UnexpectedEof,
                message: "failed to fill whole buffer"@,
            };
            &&& parse_bytes(be32(n) + b) == Err::<(Seq<u8>, Seq<u8>), _>(few)
            &&& parse_string(be32(n) + b, what) == Err::<(Seq<char>, Seq<u8>), _>(few)
        }),
{
    law_be32_round_trip(n, b);
}

/// A text that is not UTF-8 is refused under the name of its field.
pub proof fn law_bad_text_is_refused_by_name(b: Seq<u8>, rest: Seq<u8>, what: Seq<char>)
    requires
        b.len() <= u32::MAX,
        !vstd::utf8::valid_utf8(b),
    ensures
        parse_string(be32(b.len() as u32) + b + rest, what) == Err::<(Seq<char>, Seq<u8>), _>(
            IoErrorView {
                kind: IoErrorKind::InvalidData,
                message: "Invalid "@ + what + ": "@ + utf8_error_text(b),
            },
        ),
{
    let s = be32(b.len() as u32) + b + rest;
    assert(s =~= be32(b.len() as u32) + (b + rest));
    law_be32_round_trip(b.len() as u32, b + rest);
    assert(s.subrange(4, 4 + b.len() as int) =~= b);
}

// Packets.

/// A packet is the number of the bytes behind that number, the kind, the body.
pub proof fn law_packet_layout(kind: u8, body: Seq<u8>)
    requires
        body.len() < u32::MAX,
    ensures
        packet(kind, body) == be32((body.len() + 1) as u32) + seq![kind] + body,
{
    reveal(packet);
}

/// A packet is read by its length: kind and body are what is there, and what is
/// behind them is left.
pub proof fn law_packets_are_read_by_length(kind: u8, body: Seq<u8>, rest: Seq<u8>)
    requires
        body.len() < u32::MAX,
    ensures
        parse_packet(be32((body.len() + 1) as u32) + seq![kind] + body + rest) == Ok::<
            _,
            IoErrorView,
        >(((kind, body), rest)),
{
    let n = (body.len() + 1) as u32;
    let s = be32(n) + seq![kind] + body + rest;
    assert(s =~= be32(n) + (seq![kind] + body + rest));
    law_be32_round_trip(n, seq![kind] + body + rest);
    assert(s[4] == kind);
    assert(s.subrange(5, 4 + n) =~= body);
    assert(s.skip(4 + n) =~= rest);
}

/// A request is a packet of the command, whose body is the id and then what is
/// asked. The id is the one that the client has reached; the next request takes
/// the next, and zero follows the largest.
pub proof fn law_request_layout(c: SessionView, cmd: u8, body: Seq<u8>)
    requires
        body.len() + 5 <= u32::MAX,
    ensures
        issued(c, cmd, body).id == c.next_id,
        issued(c, cmd, body).packet == be32((body.len() + 5) as u32) + seq![cmd] + be32(c.next_id)
            + body,
        advanced(c).next_id == (if c.next_id == u32::MAX {
            0
        } else {
            c.next_id + 1
        }),
        advanced(c).version == c.version,
        advanced(c).extensions == c.extensions,
{
    law_packet_layout(cmd, be32(c.next_id) + body);
    assert(issued(c, cmd, body).packet =~= be32((body.len() + 5) as u32) + seq![cmd] + be32(
        c.next_id,
    ) + body);
}

/// A reply is the id of the request and then the payload; one without room for
/// an id says so.
pub proof fn law_reply_layout(id: u32, payload: Seq<u8>, short: Seq<u8>)
    requires
        short.len() < 4,
    ensures
        numbered(id, payload) == be32(id) + payload,
        parse_numbered(be32(id) + payload) == Ok::<_, IoErrorView>((id, payload)),
        parse_numbered(short) == Err::<(u32, Seq<u8>), _>(
            IoErrorView {
                kind: IoErrorKind::Other,
                message: "response too short to contain request id"@,
            },
        ),
{
    law_be32_round_trip(id, payload);
}

// The handshake.

/// A connection begins only with an announcement of version three; anything
/// else is refused, and the error says what came.
pub proof fn law_handshake_is_for_version_three(kind: u8, version: u32, rest: Seq<u8>)
    ensures
        PROTOCOL_VERSION == 3,
        kind != 2 ==> handshake(kind, be32(version) + rest) == Err::<SessionView, _>(
            IoErrorView {
                kind: IoErrorKind::Other,
                message: "Unexpected response to init: "@ + decimal(kind as nat),
            },
        ),
        kind == 2 && version != 3 ==> handshake(kind, be32(version) + rest) == Err::<
            SessionView,
            _,
        >(
            IoErrorView {
                kind: IoErrorKind::Other,
                message: "SFTP version mismatch (expected 3, got: "@ + decimal(version as nat)
                    + ")"@,
            },
        ),
        handshake(2, be32(3)) == Ok::<_, IoErrorView>(
            SessionView { version: 3, extensions: seq![], next_id: 0 },
        ),
{
    law_be32_round_trip(version, rest);
    law_be32_round_trip(3, seq![]);
    assert(be32(3) + seq![] =~= be32(3));
}

/// An extension that a server announces is a name and then its data; the client
/// knows them in the order in which they came.
pub proof fn law_extensions_are_kept_in_order(extensions: Seq<(Seq<char>, Seq<char>)>)
    requires
        forall|i: int|
            0 <= i < extensions.len() ==> text_fits((#[trigger] extensions[i]).0) && text_fits(
                extensions[i].1,
            ),
    ensures
        handshake(2, be32(3) + wire_pairs(extensions)) == Ok::<_, IoErrorView>(
            SessionView { version: 3, extensions, next_id: 0 },
        ),
{
    assert forall|i: int| 0 <= i < extensions.len() implies crate::attribute_laws::pair_fits(
        #[trigger] extensions[i],
    ) by {}
    lemma_pairs_agree(extensions);
    crate::reply_laws::law_announcement_round_trip(extensions);
}

// Bodies of requests.

/// The path is followed by the control byte and by the path to append, each of
/// them only if it was given.
pub proof fn law_path_resolution_layout(path: Seq<char>, control: u8, compose: Seq<char>)
    ensures
        realpath_body(path, None, None) == str_field(path),
        realpath_body(path, Some(control), None) == str_field(path) + seq![control],
        realpath_body(path, None, Some(compose)) == str_field(path) + str_field(compose),
        realpath_body(path, Some(control), Some(compose)) == str_field(path) + seq![control]
            + str_field(compose),
{
    assert(realpath_body(path, None, None) =~= str_field(path));
    assert(realpath_body(path, Some(control), None) =~= str_field(path) + seq![control]);
    assert(realpath_body(path, None, Some(compose)) =~= str_field(path) + str_field(compose));
}

/// Flags are sent as given. Renaming without flags overwrites, at once and as
/// the system does it; other requests without flags send none.
pub proof fn law_flags_are_sent_as_given(f: u32)
    ensures
        rename_flags(Some(f)) == f,
        rename_flags(None) == 7,
        flags_or_none(Some(f)) == f,
        flags_or_none(None) == 0,
        link_byte(true) == 1,
        link_byte(false) == 0,
{
    assert(2u32 | 4u32 | 1u32 == 7u32) by (bit_vector);
}

// Attributes.

/// A number of four bytes, if there is one.
pub open spec fn wire32(o: Option<u32>) -> Seq<u8> {
    match o {
        Some(v) => be32(v),
        None => seq![],
    }
}

/// A number of eight bytes, if there is one.
pub open spec fn wire64(o: Option<u64>) -> Seq<u8> {
    match o {
        Some(v) => be64(v),
        None => seq![],
    }
}

/// A text behind its length, if there is one.
pub open spec fn wire_text(o: Option<Seq<char>>) -> Seq<u8> {
    match o {
        Some(s) => str_field(s),
        None => seq![],
    }
}

/// Bytes behind their length, if there are any.
pub open spec fn wire_bytes(o: Option<Seq<u8>>) -> Seq<u8> {
    match o {
        Some(b) => bytes_field(b),
        None => seq![],
    }
}

/// A time, if there is one: seconds, then nanoseconds if it has them.
pub open spec fn wire_time(o: Option<(u64, Option<u32>)>) -> Seq<u8> {
    match o {
        Some((secs, Some(ns))) => be64(secs) + be32(ns),
        Some((secs, None)) => be64(secs),
        None => seq![],
    }
}

/// The byte of a hint, if there is one.
pub open spec fn wire_hint(o: Option<TextHint>) -> Seq<u8> {
    match o {
        Some(TextHint::KnownText) => seq![0u8],
        Some(TextHint::GuessedText) => seq![1u8],
        Some(TextHint::KnownBinary) => seq![2u8],
        Some(TextHint::GuessedBinary) => seq![3u8],
        None => seq![],
    }
}

/// Pairs of texts, the first of each pair first.
pub open spec fn wire_pairs(pairs: Seq<(Seq<char>, Seq<char>)>) -> Seq<u8>
    decreases pairs.len(),
{
    if pairs.len() == 0 {
        seq![]
    } else {
        wire_pairs(pairs.drop_last()) + str_field(pairs.last().0) + str_field(pairs.last().1)
    }
}

/// How many pairs there are, and the pairs, if there are any.
pub open spec fn wire_extended(o: Option<Seq<(Seq<char>, Seq<char>)>>) -> Seq<u8> {
    match o {
        Some(pairs) => be32(pairs.len() as u32) + wire_pairs(pairs),
        None => seq![],
    }
}

/// `bit` if something is there.
#[verifier::opaque]
pub open spec fn bit_if(present: bool, bit: int) -> int {
    if present {
        bit
    } else {
        0
    }
}

/// Whether a time is there and has nanoseconds.
pub open spec fn with_nanoseconds(o: Option<(u64, Option<u32>)>) -> bool {
    match o {
        Some((_, Some(_))) => true,
        _ => false,
    }
}

/// The number that says which attributes are there.
pub open spec fn wire_mask(a: AttributesView) -> int {
    bit_if(a.size is Some, 0x1) + bit_if(a.uid is Some, 0x2) + bit_if(a.permissions is Some, 0x4)
        + bit_if(a.access_time is Some, 0x8) + bit_if(a.create_time is Some, 0x10) + bit_if(
        a.modify_time is Some,
        0x20,
    ) + bit_if(a.acl is Some, 0x40) + bit_if(a.owner is Some || a.group is Some, 0x80) + bit_if(
        with_nanoseconds(a.access_time),
        0x100,
    ) + bit_if(a.attrib_bits is Some || a.attrib_bits_valid is Some, 0x200) + bit_if(
        a.allocation_size is Some,
        0x400,
    ) + bit_if(a.text_hint is Some, 0x800) + bit_if(a.mime_type is Some, 0x1000) + bit_if(
        a.link_count is Some,
        0x2000,
    ) + bit_if(a.untranslated_name is Some, 0x4000) + bit_if(a.ctime is Some, 0x8000) + bit_if(
        a.extended is Some,
        0x8000_0000,
    )
}

proof fn lemma_ids_sum(p0: bool, p1: bool, p2: bool, m: u32)
    by (bit_vector)
    requires
        m == flag(p0, 1) | flag(p1, 0x400) | flag(p2, 2),
    ensures
        m & !0x403u32 == 0,
        m == flag(p0, 1) + flag(p1, 0x400) + flag(p2, 2),
{
}

proof fn lemma_access_sum(p0: bool, p1: bool, m: u32)
    by (bit_vector)
    requires
        m == flag(p0, 0x80) | flag(p1, 4),
    ensures
        m & !0x84u32 == 0,
        m == flag(p0, 0x80) + flag(p1, 4),
{
}

proof fn lemma_times_sum(p0: bool, p1: bool, p2: bool, p3: bool, p4: bool, m: u32)
    by (bit_vector)
    requires
        m == flag(p0, 0x100) | flag(p1, 8) | flag(p2, 0x10) | flag(p3, 0x20) | flag(p4, 0x8000),
    ensures
        m & !0x8138u32 == 0,
        m == flag(p0, 0x100) + flag(p1, 8) + flag(p2, 0x10) + flag(p3, 0x20) + flag(p4, 0x8000),
{
}

proof fn lemma_bits_sum(p0: bool, p1: bool, p2: bool, m: u32)
    by (bit_vector)
    requires
        m == flag(p0, 0x40) | flag(p1, 0x200) | flag(p2, 0x800),
    ensures
        m & !0xa40u32 == 0,
        m == flag(p0, 0x40) + flag(p1, 0x200) + flag(p2, 0x800),
{
}

proof fn lemma_extras_sum(p0: bool, p1: bool, p2: bool, p3: bool, m: u32)
    by (bit_vector)
    requires
        m == flag(p0, 0x1000) | flag(p1, 0x2000) | flag(p2, 0x4000) | flag(p3, 0x8000_0000),
    ensures
        m & !0x80007000u32 == 0,
        m == flag(p0, 0x1000) + flag(p1, 0x2000) + flag(p2, 0x4000) + flag(p3, 0x8000_0000),
{
}

proof fn lemma_masks_add(ids: u32, access: u32, times: u32, bits: u32, extras: u32)
    by (bit_vector)
    requires
        ids & !0x403u32 == 0,
        access & !0x84u32 == 0,
        times & !0x8138u32 == 0,
        bits & !0xa40u32 == 0,
        extras & !0x80007000u32 == 0,
    ensures
        ids | access | times | bits | extras == ids + access + times + bits + extras,
{
}

proof fn lemma_ids_part(a: AttributesView)
    ensures
        ids_mask(a) & !0x403u32 == 0,
        ids_mask(a) == bit_if(a.size is Some, 0x1) + bit_if(a.allocation_size is Some, 0x400)
            + bit_if(a.uid is Some, 0x2),
{
    reveal(ids_mask);
    reveal(bit_if);
    lemma_ids_sum(a.size is Some, a.allocation_size is Some, a.uid is Some, ids_mask(a));
}

proof fn lemma_access_part(a: AttributesView)
    ensures
        access_mask(a) & !0x84u32 == 0,
        access_mask(a) == bit_if(a.owner is Some || a.group is Some, 0x80) + bit_if(
            a.permissions is Some,
            0x4,
        ),
{
    reveal(access_mask);
    reveal(bit_if);
    lemma_access_sum(a.owner is Some || a.group is Some, a.permissions is Some, access_mask(a));
}

proof fn lemma_times_part(a: AttributesView)
    ensures
        times_mask(a) & !0x8138u32 == 0,
        times_mask(a) == bit_if(with_nanoseconds(a.access_time), 0x100) + bit_if(
            a.access_time is Some,
            0x8,
        ) + bit_if(a.create_time is Some, 0x10) + bit_if(a.modify_time is Some, 0x20) + bit_if(
            a.ctime is Some,
            0x8000,
        ),
{
    reveal(times_mask);
    reveal(bit_if);
    assert(has_subseconds(a.access_time) == with_nanoseconds(a.access_time));
    lemma_times_sum(
        with_nanoseconds(a.access_time),
        a.access_time is Some,
        a.create_time is Some,
        a.modify_time is Some,
        a.ctime is Some,
        times_mask(a),
    );
}

proof fn lemma_bits_part(a: AttributesView)
    ensures
        bits_mask(a) & !0xa40u32 == 0,
        bits_mask(a) == bit_if(a.acl is Some, 0x40) + bit_if(
            a.attrib_bits is Some || a.attrib_bits_valid is Some,
            0x200,
        ) + bit_if(a.text_hint is Some, 0x800),
{
    reveal(bits_mask);
    reveal(bit_if);
    lemma_bits_sum(
        a.acl is Some,
        a.attrib_bits is Some || a.attrib_bits_valid is Some,
        a.text_hint is Some,
        bits_mask(a),
    );
}

proof fn lemma_extras_part(a: AttributesView)
    ensures
        extras_mask(a) & !0x80007000u32 == 0,
        extras_mask(a) == bit_if(a.mime_type is Some, 0x1000) + bit_if(a.link_count is Some, 0x2000)
            + bit_if(a.untranslated_name is Some, 0x4000) + bit_if(
            a.extended is Some,
            0x8000_0000,
        ),
{
    reveal(extras_mask);
    reveal(bit_if);
    lemma_extras_sum(
        a.mime_type is Some,
        a.link_count is Some,
        a.untranslated_name is Some,
        a.extended is Some,
        extras_mask(a),
    );
}

proof fn lemma_mask_is_a_sum(a: AttributesView)
    ensures
        field_mask(a) == wire_mask(a),
{
    lemma_ids_part(a);
    lemma_access_part(a);
    lemma_times_part(a);
    lemma_bits_part(a);
    lemma_extras_part(a);
    lemma_masks_add(ids_mask(a), access_mask(a), times_mask(a), bits_mask(a), extras_mask(a));
    lemma_same_sum(
        bit_if(a.size is Some, 0x1),
        bit_if(a.allocation_size is Some, 0x400),
        bit_if(a.uid is Some, 0x2),
        bit_if(a.owner is Some || a.group is Some, 0x80),
        bit_if(a.permissions is Some, 0x4),
        bit_if(with_nanoseconds(a.access_time), 0x100),
        bit_if(a.access_time is Some, 0x8),
        bit_if(a.create_time is Some, 0x10),
        bit_if(a.modify_time is Some, 0x20),
        bit_if(a.ctime is Some, 0x8000),
        bit_if(a.acl is Some, 0x40),
        bit_if(a.attrib_bits is Some || a.attrib_bits_valid is Some, 0x200),
        bit_if(a.text_hint is Some, 0x800),
        bit_if(a.mime_type is Some, 0x1000),
        bit_if(a.link_count is Some, 0x2000),
        bit_if(a.untranslated_name is Some, 0x4000),
        bit_if(a.extended is Some, 0x8000_0000),
    );
}

proof fn lemma_same_sum(
    size: int,
    alloc: int,
    ids: int,
    names: int,
    perm: int,
    ns: int,
    atime: int,
    btime: int,
    mtime: int,
    ctime: int,
    acl: int,
    bits: int,
    hint: int,
    mime: int,
    links: int,
    raw: int,
    ext: int,
)
    ensures
        (size + alloc + ids) + (names + perm) + (ns + atime + btime + mtime + ctime) + (acl + bits
            + hint) + (mime + links + raw + ext) == size + ids + perm + atime + btime + mtime + acl
            + names + ns + bits + alloc + hint + mime + links + raw + ctime + ext,
{
}

proof fn lemma_pairs_join(pairs: Seq<(Seq<char>, Seq<char>)>, more: Seq<(Seq<char>, Seq<char>)>)
    ensures
        pair_fields(pairs + more) == pair_fields(pairs) + pair_fields(more),
    decreases pairs.len(),
{
    let all = pairs + more;
    if pairs.len() == 0 {
        assert(all =~= more);
        assert(pair_fields(all) =~= pair_fields(pairs) + pair_fields(more));
    } else {
        assert(all.drop_first() =~= pairs.drop_first() + more);
        lemma_pairs_join(pairs.drop_first(), more);
        assert(pair_fields(all) =~= pair_fields(pairs) + pair_fields(more));
    }
}

proof fn lemma_pairs_agree(pairs: Seq<(Seq<char>, Seq<char>)>)
    ensures
        pair_fields(pairs) == wire_pairs(pairs),
    decreases pairs.len(),
{
    if pairs.len() > 0 {
        let last = seq![pairs.last()];
        lemma_pairs_agree(pairs.drop_last());
        lemma_pairs_join(pairs.drop_last(), last);
        assert(pairs.drop_last() + last =~= pairs);
        assert(last.drop_first() =~= seq![]);
        assert(pair_fields(last.drop_first()) =~= seq![]);
        assert(pair_fields(last) =~= str_field(last[0].0) + str_field(last[0].1));
        assert(wire_pairs(pairs) =~= pair_fields(pairs));
    }
}

proof fn lemma_extended_agree(o: Option<Seq<(Seq<char>, Seq<char>)>>)
    requires
        o matches Some(pairs) ==> pairs.len() <= u32::MAX,
    ensures
        encode_pairs(o) == wire_extended(o),
{
    if let Some(pairs) = o {
        lemma_pairs_agree(pairs);
    }
}

/// Attributes on the wire: the number that says which are there, and those that
/// are, in this order.
pub proof fn law_attributes_layout(a: AttributesView, mask: u32)
    requires
        mask == wire_mask(a),
        a.extended matches Some(pairs) ==> pairs.len() <= u32::MAX,
    ensures
        encode_attributes(a) == be32(mask) + wire64(a.size) + wire64(a.allocation_size) + wire32(
            a.uid,
        ) + wire32(a.gid) + wire_text(a.owner) + wire_text(a.group) + wire32(a.permissions)
            + wire_time(a.access_time) + wire_time(a.create_time) + wire_time(a.modify_time)
            + wire_time(a.ctime) + wire_bytes(a.acl) + wire32(a.attrib_bits) + wire32(
            a.attrib_bits_valid,
        ) + wire_hint(a.text_hint) + wire_text(a.mime_type) + wire32(a.link_count) + wire_bytes(
            a.untranslated_name,
        ) + wire_extended(a.extended),
{
    reveal(encode_attributes);
    lemma_mask_is_a_sum(a);
    let ids = wire64(a.size) + wire64(a.allocation_size) + wire32(a.uid) + wire32(a.gid);
    assert(encode_ids(a) =~= ids);
    let access = wire_text(a.owner) + wire_text(a.group) + wire32(a.permissions);
    assert(encode_access(a) =~= access);
    lemma_time_agrees(a.access_time);
    lemma_time_agrees(a.create_time);
    lemma_time_agrees(a.modify_time);
    lemma_time_agrees(a.ctime);
    let times = wire_time(a.access_time) + wire_time(a.create_time) + wire_time(a.modify_time)
        + wire_time(a.ctime);
    assert(encode_times(a) =~= times);
    let bits = wire_bytes(a.acl) + wire32(a.attrib_bits) + wire32(a.attrib_bits_valid) + wire_hint(
        a.text_hint,
    );
    assert(encode_bits(a) =~= bits);
    lemma_extended_agree(a.extended);
    let extras = wire_text(a.mime_type) + wire32(a.link_count) + wire_bytes(a.untranslated_name)
        + wire_extended(a.extended);
    assert(encode_extras(a) =~= extras);
    lemma_join_3(
        be32(mask) + ids,
        wire_text(a.owner),
        wire_text(a.group),
        wire32(a.permissions),
    );
    lemma_join_4(
        be32(mask),
        wire64(a.size),
        wire64(a.allocation_size),
        wire32(a.uid),
        wire32(a.gid),
    );
    lemma_join_4(
        be32(mask) + ids + access,
        wire_time(a.access_time),
        wire_time(a.create_time),
        wire_time(a.modify_time),
        wire_time(a.ctime),
    );
    lemma_join_4(
        be32(mask) + ids + access + times,
        wire_bytes(a.acl),
        wire32(a.attrib_bits),
        wire32(a.attrib_bits_valid),
        wire_hint(a.text_hint),
    );
    lemma_join_4(
        be32(mask) + ids + access + times + bits,
        wire_text(a.mime_type),
        wire32(a.link_count),
        wire_bytes(a.untranslated_name),
        wire_extended(a.extended),
    );
}

proof fn lemma_time_agrees(o: Option<(u64, Option<u32>)>)
    ensures
        crate::attributes::encode_time(o) == wire_time(o),
{
    assert(crate::attributes::encode_time(o) =~= wire_time(o));
}

proof fn lemma_join_3(s: Seq<u8>, a: Seq<u8>, b: Seq<u8>, c: Seq<u8>)
    ensures
        s + (a + b + c) == s + a + b + c,
{
    assert(s + (a + b + c) =~= s + a + b + c);
}

proof fn lemma_join_4(s: Seq<u8>, a: Seq<u8>, b: Seq<u8>, c: Seq<u8>, d: Seq<u8>)
    ensures
        s + (a + b + c + d) == s + a + b + c + d,
{
    assert(s + (a + b + c + d) =~= s + a + b + c + d);
}

/// Whether the bit stands in the mask.
pub open spec fn has_bit(mask: u32, bit: u32) -> bool {
    mask & bit != 0
}

/// Whether the mask says which attributes are there. Bits that mean nothing may
/// stand in it too.
pub open spec fn mask_fits(mask: u32, a: AttributesView) -> bool {
    &&& has_bit(mask, 0x1) == (a.size is Some)
    &&& has_bit(mask, 0x2) == (a.uid is Some)
    &&& has_bit(mask, 0x2) == (a.gid is Some)
    &&& has_bit(mask, 0x4) == (a.permissions is Some)
    &&& has_bit(mask, 0x8) == (a.access_time is Some)
    &&& has_bit(mask, 0x10) == (a.create_time is Some)
    &&& has_bit(mask, 0x20) == (a.modify_time is Some)
    &&& has_bit(mask, 0x40) == (a.acl is Some)
    &&& has_bit(mask, 0x80) == (a.owner is Some)
    &&& has_bit(mask, 0x80) == (a.group is Some)
    &&& has_bit(mask, 0x200) == (a.attrib_bits is Some)
    &&& has_bit(mask, 0x200) == (a.attrib_bits_valid is Some)
    &&& has_bit(mask, 0x400) == (a.allocation_size is Some)
    &&& has_bit(mask, 0x800) == (a.text_hint is Some)
    &&& has_bit(mask, 0x1000) == (a.mime_type is Some)
    &&& has_bit(mask, 0x2000) == (a.link_count is Some)
    &&& has_bit(mask, 0x4000) == (a.untranslated_name is Some)
    &&& has_bit(mask, 0x8000) == (a.ctime is Some)
    &&& has_bit(mask, 0x8000_0000) == (a.extended is Some)
    &&& (a.access_time is Some ==> has_bit(mask, 0x100) == with_nanoseconds(a.access_time))
    &&& (a.create_time is Some ==> has_bit(mask, 0x100) == with_nanoseconds(a.create_time))
    &&& (a.modify_time is Some ==> has_bit(mask, 0x100) == with_nanoseconds(a.modify_time))
    &&& (a.ctime is Some ==> has_bit(mask, 0x100) == with_nanoseconds(a.ctime))
}

proof fn lemma_read_ids(a: AttributesView, mask: u32, rest: Seq<u8>)
    requires
        mask_fits(mask, a),
    ensures
        parse_ids(
            mask,
            wire64(a.size) + wire32(a.uid) + wire32(a.gid) + wire64(a.allocation_size) + rest,
        ) == Ok::<_, IoErrorView>(
            (
                crate::attributes::IdFields {
                    size: a.size,
                    uid: a.uid,
                    gid: a.gid,
                    allocation_size: a.allocation_size,
                },
                rest,
            ),
        ),
{
    let s2 = wire64(a.allocation_size) + rest;
    let s1 = wire32(a.gid) + s2;
    let s0 = wire32(a.uid) + s1;
    crate::attribute_laws::lemma_assoc4(
        wire64(a.size),
        wire32(a.uid),
        wire32(a.gid),
        wire64(a.allocation_size),
        rest,
    );
    lemma_opt_u64(a.size, s0);
    lemma_opt_u32(a.uid, s1);
    lemma_opt_u32(a.gid, s2);
    lemma_opt_u64(a.allocation_size, rest);
}

proof fn lemma_read_times(a: AttributesView, mask: u32, rest: Seq<u8>)
    requires
        mask_fits(mask, a),
    ensures
        parse_times(
            mask,
            wire_time(a.access_time) + wire_time(a.create_time) + wire_time(a.modify_time)
                + wire_time(a.ctime) + rest,
        ) == Ok::<_, IoErrorView>(
            (
                crate::attributes::TimeFields {
                    access_time: a.access_time,
                    create_time: a.create_time,
                    modify_time: a.modify_time,
                    ctime: a.ctime,
                },
                rest,
            ),
        ),
{
    let sub = has_bit(mask, 0x100);
    let s2 = wire_time(a.ctime) + rest;
    let s1 = wire_time(a.modify_time) + s2;
    let s0 = wire_time(a.create_time) + s1;
    crate::attribute_laws::lemma_assoc4(
        wire_time(a.access_time),
        wire_time(a.create_time),
        wire_time(a.modify_time),
        wire_time(a.ctime),
        rest,
    );
    lemma_time_agrees(a.access_time);
    lemma_time_agrees(a.create_time);
    lemma_time_agrees(a.modify_time);
    lemma_time_agrees(a.ctime);
    lemma_opt_time(a.access_time, sub, s0);
    lemma_opt_time(a.create_time, sub, s1);
    lemma_opt_time(a.modify_time, sub, s2);
    lemma_opt_time(a.ctime, sub, rest);
}

proof fn lemma_read_access(a: AttributesView, mask: u32, rest: Seq<u8>)
    requires
        mask_fits(mask, a),
        lengths_fit(a),
    ensures
        parse_access(
            mask,
            wire_text(a.owner) + wire_text(a.group) + wire32(a.permissions) + rest,
        ) == Ok::<_, IoErrorView>(
            (
                crate::attributes::AccessFields {
                    owner: a.owner,
                    group: a.group,
                    permissions: a.permissions,
                },
                rest,
            ),
        ),
{
    lemma_access(a, mask, rest);
    assert(encode_access(a) =~= wire_text(a.owner) + wire_text(a.group) + wire32(a.permissions));
}

/// The byte that stands for a hint.
pub open spec fn hint_byte(o: Option<TextHint>) -> Option<u8> {
    match o {
        Some(TextHint::KnownText) => Some(0u8),
        Some(TextHint::GuessedText) => Some(1u8),
        Some(TextHint::KnownBinary) => Some(2u8),
        Some(TextHint::GuessedBinary) => Some(3u8),
        None => None,
    }
}

proof fn lemma_read_bits(a: AttributesView, mask: u32, rest: Seq<u8>)
    requires
        mask_fits(mask, a),
        lengths_fit(a),
    ensures
        parse_bits(
            mask,
            wire_bytes(a.acl) + wire32(a.attrib_bits) + wire32(a.attrib_bits_valid) + wire_hint(
                a.text_hint,
            ) + rest,
        ) == Ok::<_, IoErrorView>(
            (
                crate::attributes::BitFields {
                    acl: a.acl,
                    attrib_bits: a.attrib_bits,
                    attrib_bits_valid: a.attrib_bits_valid,
                    hint: hint_byte(a.text_hint),
                },
                rest,
            ),
        ),
{
    lemma_bits(a, mask, rest);
    assert(encode_bits(a) =~= wire_bytes(a.acl) + wire32(a.attrib_bits) + wire32(
        a.attrib_bits_valid,
    ) + wire_hint(a.text_hint));
}

proof fn lemma_read_extras(a: AttributesView, mask: u32, rest: Seq<u8>)
    requires
        mask_fits(mask, a),
        lengths_fit(a),
    ensures
        parse_extras(
            mask,
            wire_text(a.mime_type) + wire32(a.link_count) + wire_bytes(a.untranslated_name)
                + wire_extended(a.extended) + rest,
        ) == Ok::<_, IoErrorView>(
            (
                crate::attributes::ExtraFields {
                    mime_type: a.mime_type,
                    link_count: a.link_count,
                    untranslated_name: a.untranslated_name,
                    extended: a.extended,
                },
                rest,
            ),
        ),
{
    lemma_extras(a, mask, rest);
    lemma_extended_agree(a.extended);
    assert(encode_extras(a) =~= wire_text(a.mime_type) + wire32(a.link_count) + wire_bytes(
        a.untranslated_name,
    ) + wire_extended(a.extended));
}

proof fn lemma_decoded(
    s: Seq<u8>,
    mask: u32,
    s0: Seq<u8>,
    s1: Seq<u8>,
    s2: Seq<u8>,
    s3: Seq<u8>,
    s4: Seq<u8>,
    rest: Seq<u8>,
    a: AttributesView,
)
    requires
        parse_u32(s) == Ok::<_, IoErrorView>((mask, s0)),
        parse_ids(mask, s0) == Ok::<_, IoErrorView>(
            (
                crate::attributes::IdFields {
                    size: a.size,
                    uid: a.uid,
                    gid: a.gid,
                    allocation_size: a.allocation_size,
                },
                s1,
            ),
        ),
        parse_access(mask, s1) == Ok::<_, IoErrorView>(
            (
                crate::attributes::AccessFields {
                    owner: a.owner,
                    group: a.group,
                    permissions: a.permissions,
                },
                s2,
            ),
        ),
        parse_times(mask, s2) == Ok::<_, IoErrorView>(
            (
                crate::attributes::TimeFields {
                    access_time: a.access_time,
                    create_time: a.create_time,
                    modify_time: a.modify_time,
                    ctime: a.ctime,
                },
                s3,
            ),
        ),
        parse_bits(mask, s3) == Ok::<_, IoErrorView>(
            (
                crate::attributes::BitFields {
                    acl: a.acl,
                    attrib_bits: a.attrib_bits,
                    attrib_bits_valid: a.attrib_bits_valid,
                    hint: hint_byte(a.text_hint),
                },
                s4,
            ),
        ),
        parse_extras(mask, s4) == Ok::<_, IoErrorView>(
            (
                crate::attributes::ExtraFields {
                    mime_type: a.mime_type,
                    link_count: a.link_count,
                    untranslated_name: a.untranslated_name,
                    extended: a.extended,
                },
                rest,
            ),
        ),
    ensures
        decode_attributes(s) == Ok::<_, FaultView>((a, rest)),
{
    reveal(parse_fields);
}

/// Attributes are read off the wire by the mask before them, in this order, and
/// nothing behind them is touched. The allocation size is read behind the ids.
pub proof fn law_attributes_are_read_in_order(a: AttributesView, mask: u32, rest: Seq<u8>)
    requires
        mask_fits(mask, a),
        lengths_fit(a),
    ensures
        decode_attributes(
            be32(mask) + (wire64(a.size) + wire32(a.uid) + wire32(a.gid) + wire64(
                a.allocation_size,
            ) + (wire_text(a.owner) + wire_text(a.group) + wire32(a.permissions) + (wire_time(
                a.access_time,
            ) + wire_time(a.create_time) + wire_time(a.modify_time) + wire_time(a.ctime) + (
            wire_bytes(a.acl) + wire32(a.attrib_bits) + wire32(a.attrib_bits_valid) + wire_hint(
                a.text_hint,
            ) + (wire_text(a.mime_type) + wire32(a.link_count) + wire_bytes(a.untranslated_name)
                + wire_extended(a.extended) + rest))))),
        ) == Ok::<_, FaultView>((a, rest)),
{
    let s4 = wire_text(a.mime_type) + wire32(a.link_count) + wire_bytes(a.untranslated_name)
        + wire_extended(a.extended) + rest;
    let s3 = wire_bytes(a.acl) + wire32(a.attrib_bits) + wire32(a.attrib_bits_valid) + wire_hint(
        a.text_hint,
    ) + s4;
    let s2 = wire_time(a.access_time) + wire_time(a.create_time) + wire_time(a.modify_time)
        + wire_time(a.ctime) + s3;
    let s1 = wire_text(a.owner) + wire_text(a.group) + wire32(a.permissions) + s2;
    let s0 = wire64(a.size) + wire32(a.uid) + wire32(a.gid) + wire64(a.allocation_size) + s1;
    law_be32_round_trip(mask, s0);
    lemma_read_ids(a, mask, s1);
    lemma_read_access(a, mask, s2);
    lemma_read_times(a, mask, s3);
    lemma_read_bits(a, mask, s4);
    lemma_read_extras(a, mask, rest);
    lemma_decoded(be32(mask) + s0, mask, s0, s1, s2, s3, s4, rest, a);
}

/// When a file was last read stands before when it was last changed.
pub proof fn law_read_time_stands_before_change_time(t: u64, u: u64, rest: Seq<u8>)
    ensures
        ({
            let a = AttributesView {
                access_time: Some((t, None)),
                modify_time: Some((u, None)),
                ..no_attributes()
            };
            &&& encode_attributes(a) == be32(0x28) + be64(t) + be64(u)
            &&& decode_attributes(be32(0x28) + be64(t) + be64(u) + rest) == Ok::<_, FaultView>(
                (a, rest),
            )
        }),
{
    let a = AttributesView {
        access_time: Some((t, None)),
        modify_time: Some((u, None)),
        ..no_attributes()
    };
    reveal(bit_if);
    law_attributes_layout(a, 0x28);
    assert(encode_attributes(a) =~= be32(0x28) + be64(t) + be64(u));
    law_attributes_round_trip(a, rest);
}

/// A text hint that is none of the four is a fault.
#[verifier::spinoff_prover]
pub proof fn law_unknown_hints_are_faults(h: u8, rest: Seq<u8>)
    requires
        h > 3,
    ensures
        decode_attributes(be32(0x800) + seq![h] + rest) == Err::<(AttributesView, Seq<u8>), _>(
            FaultView::TextHint,
        ),
{
    reveal(parse_fields);
    let s0 = seq![h] + rest;
    assert(be32(0x800) + seq![h] + rest =~= be32(0x800) + s0);
    law_be32_round_trip(0x800, s0);
    assert(s0.skip(1) =~= rest);
    assert(0x800u32 & 1 == 0 && 0x800u32 & 2 == 0 && 0x800u32 & 4 == 0 && 0x800u32 & 8 == 0
        && 0x800u32 & 0x10 == 0 && 0x800u32 & 0x20 == 0 && 0x800u32 & 0x40 == 0 && 0x800u32 & 0x80
        == 0 && 0x800u32 & 0x100 == 0 && 0x800u32 & 0x200 == 0 && 0x800u32 & 0x400 == 0 && 0x800u32
        & 0x800 != 0 && 0x800u32 & 0x1000 == 0 && 0x800u32 & 0x2000 == 0 && 0x800u32 & 0x4000 == 0
        && 0x800u32 & 0x8000 == 0 && 0x800u32 & 0x8000_0000 == 0) by (bit_vector);
}

/// Attributes can be encoded just when the ids come together and every other
/// time has nanoseconds just when the access time has them.
pub proof fn law_what_can_be_encoded(a: AttributesView)
    ensures
        encodable(a) == {
            let fine = with_nanoseconds(a.access_time);
            &&& (a.uid is Some) == (a.gid is Some)
            &&& (a.create_time is Some ==> with_nanoseconds(a.create_time) == fine)
            &&& (a.modify_time is Some ==> with_nanoseconds(a.modify_time) == fine)
            &&& (a.ctime is Some ==> with_nanoseconds(a.ctime) == fine)
        },
{
}

// Numbers of the protocol.

/// The bytes of text hints and of file types.
pub proof fn law_codes_of_hints_and_kinds()
    ensures
        TextHint::KnownText.code() == 0,
        TextHint::GuessedText.code() == 1,
        TextHint::KnownBinary.code() == 2,
        TextHint::GuessedBinary.code() == 3,
        Kind::Regular.code() == 1,
        Kind::Directory.code() == 2,
        Kind::Symlink.code() == 3,
        Kind::Special.code() == 4,
        Kind::Unknown.code() == 5,
        Kind::Socket.code() == 6,
        Kind::CharDevice.code() == 7,
        Kind::BlockDevice.code() == 8,
        Kind::Fifo.code() == 9,
{
}

/// The numbers of the protocol.
pub proof fn law_numbers_of_the_protocol()
    ensures
        SSH_FILEXFER_ATTR_SIZE == 0x00000001,
        SSH_FILEXFER_ATTR_UIDGID == 0x00000002,
        SSH_FILEXFER_ATTR_PERMISSIONS == 0x00000004,
        SSH_FILEXFER_ATTR_ACCESSTIME == 0x00000008,
        SSH_FILEXFER_ATTR_CREATETIME == 0x00000010,
        SSH_FILEXFER_ATTR_MODIFYTIME == 0x00000020,
        SSH_FILEXFER_ATTR_ACL == 0x00000040,
        SSH_FILEXFER_ATTR_OWNERGROUP == 0x00000080,
        SSH_FILEXFER_ATTR_SUBSECOND_TIMES == 0x00000100,
        SSH_FILEXFER_ATTR_BITS == 0x00000200,
        SSH_FILEXFER_ATTR_ALLOCATION_SIZE == 0x00000400,
        SSH_FILEXFER_ATTR_TEXT_HINT == 0x00000800,
        SSH_FILEXFER_ATTR_MIME_TYPE == 0x00001000,
        SSH_FILEXFER_ATTR_LINK_COUNT == 0x00002000,
        SSH_FILEXFER_ATTR_UNTRANSLATED_NAME == 0x00004000,
        SSH_FILEXFER_ATTR_CTIME == 0x00008000,
        SSH_FILEXFER_ATTR_EXTENDED == 0x80000000,
        SSH_FILEXFER_ATTR_KNOWN_TEXT == 0x00,
        SSH_FILEXFER_ATTR_GUESSED_TEXT == 0x01,
        SSH_FILEXFER_ATTR_KNOWN_BINARY == 0x02,
        SSH_FILEXFER_ATTR_GUESSED_BINARY == 0x03,
        SSH_FILEXFER_ATTR_FLAGS_READONLY == 0x00000001,
        SSH_FILEXFER_ATTR_FLAGS_SYSTEM == 0x00000002,
        SSH_FILEXFER_ATTR_FLAGS_HIDDEN == 0x00000004,
        SSH_FILEXFER_ATTR_FLAGS_CASE_INSENSITIVE == 0x00000008,
        SSH_FILEXFER_ATTR_FLAGS_ARCHIVE == 0x00000010,
        SSH_FILEXFER_ATTR_FLAGS_ENCRYPTED == 0x00000020,
        SSH_FILEXFER_ATTR_FLAGS_COMPRESSED == 0x00000040,
        SSH_FILEXFER_ATTR_FLAGS_SPARSE == 0x00000080,
        SSH_FILEXFER_ATTR_FLAGS_APPEND_ONLY == 0x00000100,
        SSH_FILEXFER_ATTR_FLAGS_IMMUTABLE == 0x00000200,
        SSH_FILEXFER_ATTR_FLAGS_SYNC == 0x00000400,
        SSH_FILEXFER_ATTR_FLAGS_TRANSLATION_ERR == 0x00000800,
        SSH_FILEXFER_TYPE_REGULAR == 1,
        SSH_FILEXFER_TYPE_DIRECTORY == 2,
        SSH_FILEXFER_TYPE_SYMLINK == 3,
        SSH_FILEXFER_TYPE_SPECIAL == 4,
        SSH_FILEXFER_TYPE_UNKNOWN == 5,
        SSH_FILEXFER_TYPE_SOCKET == 6,
        SSH_FILEXFER_TYPE_CHAR_DEVICE == 7,
        SSH_FILEXFER_TYPE_BLOCK_DEVICE == 8,
        SSH_FILEXFER_TYPE_FIFO == 9,
        SSH_FXP_INIT == 1,
        SSH_FXP_VERSION == 2,
        SSH_FXP_OPEN == 3,
        SSH_FXP_CLOSE == 4,
        SSH_FXP_READ == 5,
        SSH_FXP_WRITE == 6,
        SSH_FXP_LSTAT == 7,
        SSH_FXP_FSTAT == 8,
        SSH_FXP_SETSTAT == 9,
        SSH_FXP_FSETSTAT == 10,
        SSH_FXP_OPENDIR == 11,
        SSH_FXP_READDIR == 12,
        SSH_FXP_REMOVE == 13,
        SSH_FXP_MKDIR == 14,
        SSH_FXP_RMDIR == 15,
        SSH_FXP_REALPATH == 16,
        SSH_FXP_STAT == 17,
        SSH_FXP_RENAME == 18,
        SSH_FXP_READLINK == 19,
        SSH_FXP_SYMLINK == 20,
        SSH_FXP_LINK == 21,
        SSH_FXP_BLOCK == 22,
        SSH_FXP_UNBLOCK == 23,
        SSH_FXP_STATUS == 101,
        SSH_FXP_HANDLE == 102,
        SSH_FXP_DATA == 103,
        SSH_FXP_NAME == 104,
        SSH_FXP_ATTRS == 105,
        SSH_FXP_EXTENDED == 200,
        SSH_FXP_EXTENDED_REPLY == 201,
        SSH_FX_OK == 0,
        SSH_FX_EOF == 1,
        SSH_FX_NO_SUCH_FILE == 2,
        SSH_FX_PERMISSION_DENIED == 3,
        SSH_FX_FAILURE == 4,
        SSH_FX_BAD_MESSAGE == 5,
        SSH_FX_NO_CONNECTION == 6,
        SSH_FX_CONNECTION_LOST == 7,
        SSH_FX_OP_UNSUPPORTED == 8,
        SSH_FX_INVALID_HANDLE == 9,
        SSH_FX_NO_SUCH_PATH == 10,
        SSH_FX_FILE_ALREADY_EXISTS == 11,
        SSH_FX_WRITE_PROTECT == 12,
        SSH_FX_NO_MEDIA == 13,
        SSH_FX_NO_SPACE_ON_FILESYSTEM == 14,
        SSH_FX_QUOTA_EXCEEDED == 15,
        SSH_FX_UNKNOWN_PRINCIPAL == 16,
        SSH_FX_LOCK_CONFLICT == 17,
        SSH_FX_DIR_NOT_EMPTY == 18,
        SSH_FX_NOT_A_DIRECTORY == 19,
        SSH_FX_INVALID_FILENAME == 20,
        SSH_FX_LINK_LOOP == 21,
        SSH_FX_CANNOT_DELETE == 22,
        SSH_FX_INVALID_PARAMETER == 23,
        SSH_FX_FILE_IS_A_DIRECTORY == 24,
        SSH_FX_BYTE_RANGE_LOCK_CONFLICT == 25,
        SSH_FX_BYTE_RANGE_LOCK_REFUSED == 26,
        SSH_FX_DELETE_PENDING == 27,
        SSH_FX_FILE_CORRUPT == 28,
        SSH_FX_OWNER_INVALID == 29,
        SSH_FX_GROUP_INVALID == 30,
        SSH_FX_NO_MATCHING_BYTE_RANGE_LOCK == 31,
        SFTP_FLAG_READ == 0x00000001,
        SFTP_FLAG_WRITE == 0x00000002,
        SFTP_FLAG_APPEND == 0x00000004,
        SFTP_FLAG_CREAT == 0x00000008,
        SFTP_FLAG_TRUNC == 0x00000010,
        SFTP_FLAG_EXCL == 0x00000020,
        SSH_FXF_RENAME_OVERWRITE == 0x00000001,
        SSH_FXF_RENAME_ATOMIC == 0x00000002,
        SSH_FXF_RENAME_NATIVE == 0x00000004,
        SSH_FXF_ACCESS_DISPOSITION == 0x00000007,
        SSH_FXF_CREATE_NEW == 0x00000000,
        SSH_FXF_CREATE_TRUNCATE == 0x00000001,
        SSH_FXF_OPEN_EXISTING == 0x00000002,
        SSH_FXF_OPEN_OR_CREATE == 0x00000003,
        SSH_FXF_TRUNCATE_EXISTING == 0x00000004,
        SSH_FXF_APPEND_DATA == 0x00000008,
        SSH_FXF_APPEND_DATA_ATOMIC == 0x00000010,
        SSH_FXF_TEXT_MODE == 0x00000020,
        SSH_FXF_BLOCK_READ == 0x00000040,
        SSH_FXF_BLOCK_WRITE == 0x00000080,
        SSH_FXF_BLOCK_DELETE == 0x00000100,
        SSH_FXF_BLOCK_ADVISORY == 0x00000200,
        SSH_FXF_NOFOLLOW == 0x00000400,
        SSH_FXF_DELETE_ON_CLOSE == 0x00000800,
        SSH_FXF_ACCESS_AUDIT_ALARM_INFO == 0x00001000,
        SSH_FXF_ACCESS_BACKUP == 0x00002000,
        SSH_FXF_BACKUP_STREAM == 0x00004000,
        SSH_FXF_OVERRIDE_OWNER == 0x00008000,
{
}

} // verus!
