//! Packets, request ids, the handshake and the bodies of requests.

use vstd::prelude::*;
use vstd::slice::{slice_subrange, slice_to_vec};
use vstd::string::*;

use crate::attributes::{encodable, encode_attributes, pair_texts, Attributes};
use crate::constants::{SSH_FXF_RENAME_ATOMIC, SSH_FXF_RENAME_NATIVE, SSH_FXF_RENAME_OVERWRITE};
use crate::error::{eof_error, other_error, IoError, IoErrorView};
use crate::text::{decimal, push_decimal};
use crate::wire::{
    announced, be32, be64, bytes_field, from_be32, left_of, parse_string, parse_u32, put_bytes,
    put_raw, put_str, put_u32, put_u64, put_u8, str_field, wire_len, Cursor, Parsed,
};

verus! {

/// The protocol version that the client speaks.
pub const PROTOCOL_VERSION: u32 = 3;

// Packets.

/// The bytes of a packet: its length, its kind, its body.
#[verifier::opaque]
pub open spec fn packet(kind: u8, body: Seq<u8>) -> Seq<u8> {
    be32(wire_len(body.len() + 1)) + seq![kind] + body
}

/// The packet that begins `s`.
pub open spec fn parse_packet(s: Seq<u8>) -> Parsed<(u8, Seq<u8>)>
    recommends
        packet_length_fits(s),
{
    if s.len() >= 4 && s.len() - 4 >= from_be32(s) {
        Ok(((s[4], s.subrange(5, 4 + from_be32(s))), s.skip(4 + from_be32(s))))
    } else {
        Err(eof_error())
    }
}

/// Whether the length that begins `s`, if there is one, is that of a packet: a
/// kind at least, and no more than the largest signed 32-bit number.
pub open spec fn packet_length_fits(s: Seq<u8>) -> bool {
    s.len() >= 4 ==> 0 < from_be32(s) < 0x8000_0000
}

/// What the four bytes before a packet say.
#[derive(Clone, Copy, Debug, PartialEq, Eq, Structural)]
pub enum Framing {
    /// A packet without even a kind.
    Empty,
    /// A packet of so many bytes.
    Length(u32),
    /// A length that is negative as a signed number.
    Negative,
}

/// Reads the length of a packet.
pub fn packet_length(header: &[u8; 4]) -> (r: Framing)
    ensures
        r == (if from_be32(header@) == 0 {
            Framing::Empty
        } else if from_be32(header@) < 0x8000_0000 {
            Framing::Length(from_be32(header@))
        } else {
            Framing::Negative
        }),
{
    let bytes: [u8; 4] = *header;
    let mut c = Cursor::new(bytes.as_slice());
    match c.read_u32() {
        Ok(n) => if n == 0 {
            Framing::Empty
        } else if n < 0x8000_0000 {
            Framing::Length(n)
        } else {
            Framing::Negative
        },
        Err(_) => Framing::Empty,
    }
}

/// Parts the kind of a packet from its body.
pub fn split_packet(buf: &[u8]) -> (r: (u8, Vec<u8>))
    requires
        buf@.len() > 0,
    ensures
        r.0 == buf@[0],
        r.1@ == buf@.skip(1),
{
    let body = slice_to_vec(slice_subrange(buf, 1, buf.len()));
    assert(body@ =~= buf@.skip(1));
    (buf[0], body)
}

/// Takes a packet off the front of `channel`. How much of it has been taken
/// when it is not all there is left open.
pub fn read_raw_packet(channel: &mut Cursor) -> (r: Result<(u8, Vec<u8>), IoError>)
    requires
        packet_length_fits(old(channel)@),
    ensures
        match parse_packet(old(channel)@) {
            Ok(((kind, body), rest)) => {
                &&& r matches Ok(p)
                &&& p.0 == kind
                &&& p.1@ == body
                &&& final(channel)@ == rest
            },
            Err(e) => r matches Err(f) && f@ == e,
        },
        left_of(final(channel)@, old(channel)@),
{
    match channel.read_bytes() {
        Ok(buf) => {
            let (kind, body) = split_packet(buf.as_slice());
            proof {
                let s = old(channel)@;
                assert(s.subrange(4, 4 + from_be32(s))[0] == s[4]);
                assert(body@ =~= s.subrange(5, 4 + from_be32(s)));
            }
            Ok((kind, body))
        },
        Err(e) => Err(e),
    }
}

proof fn lemma_length_of_a_packet(n: nat)
    ensures
        successor(wire_len(n)) == wire_len(n + 1),
{
    assert((n % 0x1_0000_0000 + 1) % 0x1_0000_0000 == (n + 1) % 0x1_0000_0000);
}

/// Appends a packet to `channel`.
#[verifier::spinoff_prover]
pub fn write_raw_packet(channel: &mut Vec<u8>, kind: u8, buf: &[u8]) -> (r: Result<(), IoError>)
    ensures
        r is Ok,
        final(channel)@ == old(channel)@ + packet(kind, buf@),
{
    reveal(packet);
    let ghost before = channel@;
    put_u32(channel, next_number(announced(buf.len())));
    put_u8(channel, kind);
    put_raw(channel, buf);
    proof {
        lemma_length_of_a_packet(buf@.len());
    }
    assert(channel@ =~= before + packet(kind, buf@));
    Ok(())
}

/// The number after `n`; zero comes after the largest.
pub open spec fn successor(n: u32) -> u32 {
    ((n + 1) % 0x1_0000_0000) as u32
}

/// The number after `n`; zero comes after the largest.
pub fn next_number(n: u32) -> (m: u32)
    ensures
        m == successor(n),
{
    if n == u32::MAX {
        0
    } else {
        n + 1
    }
}

/// A packet is read back from its bytes, whatever follows it.
pub proof fn law_packet_round_trip(kind: u8, body: Seq<u8>, rest: Seq<u8>)
    requires
        body.len() + 1 < 0x8000_0000,
    ensures
        packet_length_fits(packet(kind, body) + rest),
        parse_packet(packet(kind, body) + rest) == Ok::<_, IoErrorView>(((kind, body), rest)),
{
    reveal(packet);
    let n = wire_len(body.len() + 1);
    let s = packet(kind, body) + rest;
    crate::wire::law_be32_round_trip(n, seq![kind] + body + rest);
    assert(s =~= be32(n) + (seq![kind] + body + rest));
    assert(s[4] == (seq![kind] + body + rest)[0]);
    assert(s.subrange(5, 4 + n) =~= body);
    assert(s.skip(4 + n) =~= rest);
}

// Request ids.

/// A body behind its request id.
pub open spec fn numbered(id: u32, body: Seq<u8>) -> Seq<u8> {
    be32(id) + body
}

/// The request id and the payload of a reply.
pub open spec fn parse_numbered(s: Seq<u8>) -> Result<(u32, Seq<u8>), IoErrorView> {
    if s.len() >= 4 {
        Ok((from_be32(s), s.skip(4)))
    } else {
        Err(other_error("response too short to contain request id"@))
    }
}

/// Puts the request id before a body.
pub fn with_request_id(request_id: u32, body: &[u8]) -> (buf: Vec<u8>)
    ensures
        buf@ == numbered(request_id, body@),
{
    let mut buf = Vec::new();
    put_u32(&mut buf, request_id);
    put_raw(&mut buf, body);
    assert(buf@ =~= numbered(request_id, body@));
    buf
}

/// Takes the request id off a reply.
pub fn split_request_id(buf: &[u8]) -> (r: Result<(u32, &[u8]), IoError>)
    ensures
        match parse_numbered(buf@) {
            Ok((id, payload)) => r matches Ok(p) && p.0 == id && p.1@ == payload,
            Err(e) => r matches Err(f) && f@ == e,
        },
{
    let mut c = Cursor::new(buf);
    match c.read_u32() {
        Ok(id) => Ok((id, c.remaining())),
        Err(_) => Err(
            IoError::other(String::from_str("response too short to contain request id")),
        ),
    }
}

/// The request id and the body are read back from a numbered body.
pub proof fn law_request_id_round_trip(id: u32, body: Seq<u8>)
    ensures
        parse_numbered(numbered(id, body)) == Ok::<_, IoErrorView>((id, body)),
{
    crate::wire::law_be32_round_trip(id, body);
}

// The handshake.

/// The body of the first packet.
pub fn build_init() -> (buf: Vec<u8>)
    ensures
        buf@ == be32(PROTOCOL_VERSION),
{
    let mut buf = Vec::new();
    put_u32(&mut buf, PROTOCOL_VERSION);
    assert(buf@ =~= be32(PROTOCOL_VERSION));
    buf
}

/// Reading a text takes at least the four bytes of its length.
pub proof fn lemma_text_takes_bytes(s: Seq<u8>, what: Seq<char>)
    ensures
        parse_string(s, what) matches Ok((_, rest)) ==> rest.len() + 4 <= s.len(),
{
}

/// Pairs of text fields up to the end.
pub open spec fn parse_extensions(s: Seq<u8>) -> Result<Seq<(Seq<char>, Seq<char>)>, IoErrorView>
    decreases s.len(),
{
    if s.len() == 0 {
        Ok(seq![])
    } else {
        match parse_string(s, "extension key"@) {
            Err(e) => Err(e),
            Ok((k, s1)) => match parse_string(s1, "extension value"@) {
                Err(e) => Err(e),
                Ok((v, s2)) => {
                    proof {
                        lemma_text_takes_bytes(s, "extension key"@);
                        lemma_text_takes_bytes(s1, "extension value"@);
                    }
                    match parse_extensions(s2) {
                        Err(e) => Err(e),
                        Ok(pairs) => Ok(seq![(k, v)] + pairs),
                    }
                },
            },
        }
    }
}

/// The version and the extensions that a server announces.
pub open spec fn parse_announcement(body: Seq<u8>) -> Result<
    (u32, Seq<(Seq<char>, Seq<char>)>),
    IoErrorView,
> {
    match parse_u32(body) {
        Err(e) => Err(e),
        Ok((version, s)) => if version != PROTOCOL_VERSION {
            Err(
                other_error(
                    "SFTP version mismatch (expected 3, got: "@ + decimal(version as nat) + ")"@,
                ),
            )
        } else {
            match parse_extensions(s) {
                Err(e) => Err(e),
                Ok(pairs) => Ok((version, pairs)),
            }
        },
    }
}

fn read_extensions(c: &mut Cursor) -> (r: Result<Vec<(String, String)>, IoError>)
    ensures
        match parse_extensions(old(c)@) {
            Ok(pairs) => r matches Ok(v) && pair_texts(v@) == pairs,
            Err(e) => r matches Err(f) && f@ == e,
        },
{
    let ghost start = c@;
    let mut extensions: Vec<(String, String)> = Vec::new();
    assert(parse_extensions(start) matches Ok(v) ==> pair_texts(extensions@) + v =~= v);
    while c.remaining().len() > 0
        invariant
            start == old(c)@,
            match parse_extensions(c@) {
                Ok(v) => parse_extensions(start) == Ok::<_, IoErrorView>(
                    pair_texts(extensions@) + v,
                ),
                Err(e) => parse_extensions(start) == Err::<Seq<(Seq<char>, Seq<char>)>, _>(e),
            },
        decreases c@.len(),
    {
        let ghost before = extensions@;
        let ghost at = c@;
        let key = match c.read_string("extension key") {
            Ok(k) => k,
            Err(e) => return Err(e),
        };
        let value = match c.read_string("extension value") {
            Ok(v) => v,
            Err(e) => return Err(e),
        };
        extensions.push((key, value));
        proof {
            if let Ok(more) = parse_extensions(c@) {
                assert(pair_texts(extensions@) + more =~= pair_texts(before) + (seq![
                    (key@, value@),
                ] + more));
            }
        }
    }
    assert(pair_texts(extensions@) =~= pair_texts(extensions@) + Seq::<
        (Seq<char>, Seq<char>),
    >::empty());
    Ok(extensions)
}

/// Reads the server's announcement of its version and extensions.
pub fn parse_version(body: &[u8]) -> (r: Result<(u32, Vec<(String, String)>), IoError>)
    ensures
        match parse_announcement(body@) {
            Ok((version, pairs)) => r matches Ok(v) && v.0 == version && pair_texts(v.1@) == pairs,
            Err(e) => r matches Err(f) && f@ == e,
        },
{
    let mut reader = Cursor::new(body);
    let version = match reader.read_u32() {
        Ok(v) => v,
        Err(e) => return Err(e),
    };
    if version != PROTOCOL_VERSION {
        let mut message = String::from_str("SFTP version mismatch (expected 3, got: ");
        push_decimal(&mut message, version as u64);
        message.append(")");
        return Err(IoError::other(message));
    }
    match read_extensions(&mut reader) {
        Ok(extensions) => Ok((version, extensions)),
        Err(e) => Err(e),
    }
}

// The bodies of requests.

/// A path.
pub fn build_path_only(path: &str) -> (buf: Vec<u8>)
    ensures
        buf@ == str_field(path@),
{
    let mut buf = Vec::new();
    put_str(&mut buf, path);
    assert(buf@ =~= str_field(path@));
    buf
}

/// A handle.
pub fn build_handle_only(handle: &[u8]) -> (buf: Vec<u8>)
    ensures
        buf@ == bytes_field(handle@),
{
    let mut buf = Vec::new();
    put_bytes(&mut buf, handle);
    assert(buf@ =~= bytes_field(handle@));
    buf
}

/// A path and attributes.
pub fn build_path_and_attrs(path: &str, attr: &Attributes) -> (r: Result<Vec<u8>, IoError>)
    requires
        encodable(attr@),
    ensures
        r matches Ok(buf) && buf@ == str_field(path@) + encode_attributes(attr@),
{
    match attr.serialize() {
        Ok(attrs) => {
            let mut buf = build_path_only(path);
            put_raw(&mut buf, attrs.as_slice());
            Ok(buf)
        },
        Err(e) => Err(e),
    }
}

/// A handle and attributes.
pub fn build_handle_and_attrs(handle: &[u8], attr: &Attributes) -> (r: Result<Vec<u8>, IoError>)
    requires
        encodable(attr@),
    ensures
        r matches Ok(buf) && buf@ == bytes_field(handle@) + encode_attributes(attr@),
{
    match attr.serialize() {
        Ok(attrs) => {
            let mut buf = build_handle_only(handle);
            put_raw(&mut buf, attrs.as_slice());
            Ok(buf)
        },
        Err(e) => Err(e),
    }
}

/// A path and flags.
pub fn build_path_and_flags(path: &str, flags: u32) -> (buf: Vec<u8>)
    ensures
        buf@ == str_field(path@) + be32(flags),
{
    let mut buf = build_path_only(path);
    put_u32(&mut buf, flags);
    buf
}

/// A handle and flags.
pub fn build_handle_and_flags(handle: &[u8], flags: u32) -> (buf: Vec<u8>)
    ensures
        buf@ == bytes_field(handle@) + be32(flags),
{
    let mut buf = build_handle_only(handle);
    put_u32(&mut buf, flags);
    buf
}

/// Two paths.
pub fn build_two_paths(a: &str, b: &str) -> (buf: Vec<u8>)
    ensures
        buf@ == str_field(a@) + str_field(b@),
{
    let mut buf = build_path_only(a);
    put_str(&mut buf, b);
    buf
}

/// The byte that says whether a link is symbolic.
pub open spec fn link_byte(symlink: bool) -> u8 {
    if symlink {
        1
    } else {
        0
    }
}

/// Two paths and whether the link is symbolic.
pub fn build_link(path: &str, target: &str, symlink: bool) -> (buf: Vec<u8>)
    ensures
        buf@ == str_field(path@) + str_field(target@) + seq![link_byte(symlink)],
{
    let mut buf = build_two_paths(path, target);
    let ghost head = buf@;
    put_u8(
        &mut buf,
        if symlink {
            1
        } else {
            0
        },
    );
    assert(buf@ =~= head + seq![link_byte(symlink)]);
    buf
}

/// A path, open flags and attributes.
pub fn build_open(path: &str, options: u32, attr: &Attributes) -> (r: Result<Vec<u8>, IoError>)
    requires
        encodable(attr@),
    ensures
        r matches Ok(buf) && buf@ == str_field(path@) + be32(options) + encode_attributes(attr@),
{
    match attr.serialize() {
        Ok(attrs) => {
            let mut buf = build_path_and_flags(path, options);
            put_raw(&mut buf, attrs.as_slice());
            Ok(buf)
        },
        Err(e) => Err(e),
    }
}

/// The body of a path resolution.
pub open spec fn realpath_body(
    path: Seq<char>,
    control_byte: Option<u8>,
    compose: Option<Seq<char>>,
) -> Seq<u8> {
    str_field(path) + match control_byte {
        Some(b) => seq![b],
        None => seq![],
    } + match compose {
        Some(c) => str_field(c),
        None => seq![],
    }
}

/// The characters of a text, if there is one.
pub open spec fn opt_chars(o: Option<&str>) -> Option<Seq<char>> {
    match o {
        Some(s) => Some(s@),
        None => None,
    }
}

/// A path, a control byte and a path to append, the last two as far as given.
pub fn build_realpath(path: &str, control_byte: Option<u8>, compose: Option<&str>) -> (buf: Vec<u8>)
    ensures
        buf@ == realpath_body(path@, control_byte, opt_chars(compose)),
{
    let mut buf = build_path_only(path);
    if let Some(b) = control_byte {
        put_u8(&mut buf, b);
    }
    if let Some(c) = compose {
        put_str(&mut buf, c);
    }
    assert(buf@ =~= realpath_body(path@, control_byte, opt_chars(compose)));
    buf
}

/// The flags of a renaming for which none are given: atomic, native and
/// overwriting.
pub open spec fn rename_flags(flags: Option<u32>) -> u32 {
    match flags {
        Some(f) => f,
        None => SSH_FXF_RENAME_ATOMIC | SSH_FXF_RENAME_NATIVE | SSH_FXF_RENAME_OVERWRITE,
    }
}

/// Two paths and renaming flags.
pub fn build_rename(oldpath: &str, newpath: &str, flags: Option<u32>) -> (buf: Vec<u8>)
    ensures
        buf@ == str_field(oldpath@) + str_field(newpath@) + be32(rename_flags(flags)),
{
    let mut buf = build_two_paths(oldpath, newpath);
    let f: u32 = match flags {
        Some(f) => f,
        None => SSH_FXF_RENAME_ATOMIC | SSH_FXF_RENAME_NATIVE | SSH_FXF_RENAME_OVERWRITE,
    };
    put_u32(&mut buf, f);
    buf
}

/// The name of an extension and its data.
pub fn build_extended(request: &str, data: &[u8]) -> (buf: Vec<u8>)
    ensures
        buf@ == str_field(request@) + data@,
{
    let mut buf = build_path_only(request);
    put_raw(&mut buf, data);
    buf
}

/// A handle, a byte range and a lock mask.
pub fn build_block(handle: &[u8], offset: u64, length: u64, lockmask: u32) -> (buf: Vec<u8>)
    ensures
        buf@ == bytes_field(handle@) + be64(offset) + be64(length) + be32(lockmask),
{
    let mut buf = build_unblock(handle, offset, length);
    put_u32(&mut buf, lockmask);
    buf
}

/// A handle and a byte range.
pub fn build_unblock(handle: &[u8], offset: u64, length: u64) -> (buf: Vec<u8>)
    ensures
        buf@ == bytes_field(handle@) + be64(offset) + be64(length),
{
    let mut buf = build_handle_only(handle);
    put_u64(&mut buf, offset);
    put_u64(&mut buf, length);
    buf
}

/// A handle, an offset and the bytes to write there.
pub fn build_pwrite(handle: &[u8], offset: u64, data: &[u8]) -> (buf: Vec<u8>)
    ensures
        buf@ == bytes_field(handle@) + be64(offset) + bytes_field(data@),
{
    let mut buf = build_handle_only(handle);
    put_u64(&mut buf, offset);
    put_bytes(&mut buf, data);
    buf
}

/// A handle, an offset and the number of bytes to read there.
pub fn build_pread(handle: &[u8], offset: u64, length: u32) -> (buf: Vec<u8>)
    ensures
        buf@ == bytes_field(handle@) + be64(offset) + be32(length),
{
    let mut buf = build_handle_only(handle);
    put_u64(&mut buf, offset);
    put_u32(&mut buf, length);
    buf
}

} // verus!
