//! Big-endian integers, length-prefixed fields and the reading cursor.

use byteorder::{BigEndian, ReadBytesExt, WriteBytesExt};
use vstd::prelude::*;
use vstd::slice::{slice_subrange, slice_to_vec};
use vstd::string::*;
use vstd::utf8::*;

use crate::error::{eof_error, IoError, IoErrorKind, IoErrorView};

verus! {

/// The four bytes of `v`, most significant first.
pub open spec fn be32(v: u32) -> Seq<u8> {
    seq![
        (v / 0x100_0000) as u8,
        (v / 0x1_0000 % 0x100) as u8,
        (v / 0x100 % 0x100) as u8,
        (v % 0x100) as u8,
    ]
}

/// The number whose four bytes, most significant first, begin `s`.
pub open spec fn from_be32(s: Seq<u8>) -> u32
    recommends
        s.len() >= 4,
{
    (s[0] * 0x100_0000 + s[1] * 0x1_0000 + s[2] * 0x100 + s[3]) as u32
}

/// The eight bytes of `v`, most significant first.
pub open spec fn be64(v: u64) -> Seq<u8> {
    be32((v / 0x1_0000_0000) as u32) + be32((v % 0x1_0000_0000) as u32)
}

/// The number whose eight bytes, most significant first, begin `s`.
pub open spec fn from_be64(s: Seq<u8>) -> u64
    recommends
        s.len() >= 8,
{
    (from_be32(s) * 0x1_0000_0000 + from_be32(s.skip(4))) as u64
}

/// A 32-bit number is read back from its bytes, whatever follows them.
pub proof fn law_be32_round_trip(v: u32, rest: Seq<u8>)
    ensures
        be32(v).len() == 4,
        from_be32(be32(v) + rest) == v,
        (be32(v) + rest).skip(4) == rest,
{
    assert((be32(v) + rest).skip(4) =~= rest);
}

/// A 64-bit number is read back from its bytes, whatever follows them.
pub proof fn law_be64_round_trip(v: u64, rest: Seq<u8>)
    ensures
        be64(v).len() == 8,
        from_be64(be64(v) + rest) == v,
        (be64(v) + rest).skip(8) == rest,
{
    let hi = (v / 0x1_0000_0000) as u32;
    let lo = (v % 0x1_0000_0000) as u32;
    let s = be64(v) + rest;
    law_be32_round_trip(hi, be32(lo) + rest);
    law_be32_round_trip(lo, rest);
    assert(s =~= be32(hi) + (be32(lo) + rest));
    assert(s.skip(8) =~= rest);
}

/// The number under which a field of `n` bytes announces its length: the
/// length itself up to the largest 32-bit number, its remainder beyond.
pub open spec fn wire_len(n: nat) -> u32 {
    (n % 0x1_0000_0000) as u32
}

/// A field of bytes behind its length.
pub open spec fn bytes_field(b: Seq<u8>) -> Seq<u8> {
    be32(wire_len(b.len())) + b
}

/// A field of text: its UTF-8 bytes behind their length.
#[verifier::opaque]
pub open spec fn str_field(s: Seq<char>) -> Seq<u8> {
    bytes_field(encode_utf8(s))
}

/// Whether the length of a text can be announced.
#[verifier::opaque]
pub open spec fn text_fits(s: Seq<char>) -> bool {
    encode_utf8(s).len() <= u32::MAX
}

/// What reading a value off the front of some bytes gives: the value and the
/// bytes behind it, or an error.
pub type Parsed<T> = Result<(T, Seq<u8>), IoErrorView>;

/// A byte.
pub open spec fn parse_u8(s: Seq<u8>) -> Parsed<u8> {
    if s.len() >= 1 {
        Ok((s[0], s.skip(1)))
    } else {
        Err(eof_error())
    }
}

/// A 32-bit number.
pub open spec fn parse_u32(s: Seq<u8>) -> Parsed<u32> {
    if s.len() >= 4 {
        Ok((from_be32(s), s.skip(4)))
    } else {
        Err(eof_error())
    }
}

/// A 64-bit number.
pub open spec fn parse_u64(s: Seq<u8>) -> Parsed<u64> {
    if s.len() >= 8 {
        Ok((from_be64(s), s.skip(8)))
    } else {
        Err(eof_error())
    }
}

/// A field of bytes: a length, then so many bytes.
pub open spec fn parse_bytes(s: Seq<u8>) -> Parsed<Seq<u8>> {
    if s.len() >= 4 && s.len() - 4 >= from_be32(s) {
        Ok((s.subrange(4, 4 + from_be32(s)), s.skip(4 + from_be32(s))))
    } else {
        Err(eof_error())
    }
}

/// The text with which `std` describes bytes that are not UTF-8.
pub uninterp spec fn utf8_error_text(bytes: Seq<u8>) -> Seq<char>;

/// The error of a text field, called `what`, that is not UTF-8.
pub open spec fn invalid_text(what: Seq<char>, bytes: Seq<u8>) -> IoErrorView {
    IoErrorView {
        kind: IoErrorKind::InvalidData,
        message: "Invalid "@ + what + ": "@ + utf8_error_text(bytes),
    }
}

/// A field of text, called `what` in the error.
pub open spec fn parse_string(s: Seq<u8>, what: Seq<char>) -> Parsed<Seq<char>> {
    match parse_bytes(s) {
        Err(e) => Err(e),
        Ok((b, rest)) => if valid_utf8(b) {
            Ok((decode_utf8(b), rest))
        } else {
            Err(invalid_text(what, b))
        },
    }
}

/// A field of bytes is read back from its encoding, whatever follows it.
pub proof fn law_bytes_field_round_trip(b: Seq<u8>, rest: Seq<u8>)
    requires
        b.len() <= u32::MAX,
    ensures
        parse_bytes(bytes_field(b) + rest) == Ok::<_, IoErrorView>((b, rest)),
{
    let s = bytes_field(b) + rest;
    law_be32_round_trip(wire_len(b.len()), b + rest);
    assert(s =~= be32(wire_len(b.len())) + (b + rest));
    assert(s.subrange(4, 4 + b.len() as int) =~= b);
    assert(s.skip(4 + b.len() as int) =~= rest);
}

/// A field of text is read back from its encoding, whatever follows it and
/// whatever it is called.
pub proof fn law_str_field_round_trip(s: Seq<char>, rest: Seq<u8>, what: Seq<char>)
    requires
        text_fits(s),
    ensures
        parse_string(str_field(s) + rest, what) == Ok::<_, IoErrorView>((s, rest)),
{
    reveal(str_field);
    reveal(text_fits);
    law_bytes_field_round_trip(encode_utf8(s), rest);
    encode_utf8_valid_utf8(s);
    encode_utf8_decode_utf8(s);
}

/// `std::io::Error`, as `byteorder` reports failures. Nothing is said of what
/// is in it.
#[verifier::external_type_specification]
#[verifier::external_body]
pub struct ExIoError(std::io::Error);

/// `byteorder::ReadBytesExt::read_u8` on a byte slice: with a byte there it
/// takes that byte, on an empty slice it fails.
#[verifier::external_body]
fn byteorder_read_u8(rest: &mut &[u8]) -> (r: Result<u8, std::io::Error>)
    ensures
        r is Ok <==> old(rest)@.len() >= 1,
        r matches Ok(v) ==> v == old(rest)@[0] && final(rest)@ == old(rest)@.skip(1),
{
    rest.read_u8()
}

/// `byteorder::ReadBytesExt::read_u32::<BigEndian>` on a byte slice: with four
/// bytes or more it takes the first four as a number, with fewer it fails.
#[verifier::external_body]
fn byteorder_read_u32(rest: &mut &[u8]) -> (r: Result<u32, std::io::Error>)
    ensures
        r is Ok <==> old(rest)@.len() >= 4,
        r matches Ok(v) ==> v == from_be32(old(rest)@) && final(rest)@ == old(rest)@.skip(4),
{
    rest.read_u32::<BigEndian>()
}

/// `byteorder::ReadBytesExt::read_u64::<BigEndian>` on a byte slice: with eight
/// bytes or more it takes the first eight as a number, with fewer it fails.
#[verifier::external_body]
fn byteorder_read_u64(rest: &mut &[u8]) -> (r: Result<u64, std::io::Error>)
    ensures
        r is Ok <==> old(rest)@.len() >= 8,
        r matches Ok(v) ==> v == from_be64(old(rest)@) && final(rest)@ == old(rest)@.skip(8),
{
    rest.read_u64::<BigEndian>()
}

/// `byteorder::WriteBytesExt::write_u8` on a vector: it appends the byte and
/// does not fail.
#[verifier::external_body]
fn byteorder_write_u8(buf: &mut Vec<u8>, v: u8) -> (r: Result<(), std::io::Error>)
    ensures
        r is Ok,
        final(buf)@ == old(buf)@.push(v),
{
    buf.write_u8(v)
}

/// `byteorder::WriteBytesExt::write_u32::<BigEndian>` on a vector: it appends
/// the four bytes of the number and does not fail.
#[verifier::external_body]
fn byteorder_write_u32(buf: &mut Vec<u8>, v: u32) -> (r: Result<(), std::io::Error>)
    ensures
        r is Ok,
        final(buf)@ == old(buf)@ + be32(v),
{
    buf.write_u32::<BigEndian>(v)
}

/// `byteorder::WriteBytesExt::write_u64::<BigEndian>` on a vector: it appends
/// the eight bytes of the number and does not fail.
#[verifier::external_body]
fn byteorder_write_u64(buf: &mut Vec<u8>, v: u64) -> (r: Result<(), std::io::Error>)
    ensures
        r is Ok,
        final(buf)@ == old(buf)@ + be64(v),
{
    buf.write_u64::<BigEndian>(v)
}

/// `String::from_utf8`: bytes that are UTF-8 become the text that they encode,
/// any others are refused. The description of the refusal is named, not
/// spelt out.
#[verifier::external_body]
fn string_from_utf8(bytes: Vec<u8>) -> (r: Result<String, String>)
    ensures
        r is Ok <==> valid_utf8(bytes@),
        r matches Ok(s) ==> s@ == decode_utf8(bytes@),
        r matches Err(text) ==> text@ == utf8_error_text(bytes@),
{
    match String::from_utf8(bytes) {
        Ok(s) => Ok(s),
        Err(e) => Err(e.to_string()),
    }
}

/// Appends a byte.
pub fn put_u8(buf: &mut Vec<u8>, v: u8)
    ensures
        final(buf)@ == old(buf)@.push(v),
{
    let _ = byteorder_write_u8(buf, v);
}

/// Appends a 32-bit number.
pub fn put_u32(buf: &mut Vec<u8>, v: u32)
    ensures
        final(buf)@ == old(buf)@ + be32(v),
{
    let _ = byteorder_write_u32(buf, v);
}

/// Appends a 64-bit number.
pub fn put_u64(buf: &mut Vec<u8>, v: u64)
    ensures
        final(buf)@ == old(buf)@ + be64(v),
{
    let _ = byteorder_write_u64(buf, v);
}

/// Appends bytes as they are.
pub fn put_raw(buf: &mut Vec<u8>, b: &[u8])
    ensures
        final(buf)@ == old(buf)@ + b@,
{
    let ghost before = buf@;
    buf.extend_from_slice(b);
    assert(buf@ =~= before + b@);
}

/// The number that announces a length on the wire.
pub fn announced(n: usize) -> (v: u32)
    ensures
        v == wire_len(n as nat),
{
    let wide = n as u64;
    proof {
        assert(wide as u32 == wide % 0x1_0000_0000) by (bit_vector);
    }
    wide as u32
}

/// Appends a field of bytes.
pub fn put_bytes(buf: &mut Vec<u8>, b: &[u8])
    ensures
        final(buf)@ == old(buf)@ + bytes_field(b@),
{
    let ghost before = buf@;
    put_u32(buf, announced(b.len()));
    put_raw(buf, b);
    assert(buf@ =~= before + bytes_field(b@));
}

/// Appends a field of text.
pub fn put_str(buf: &mut Vec<u8>, s: &str)
    ensures
        final(buf)@ == old(buf)@ + str_field(s@),
{
    reveal(str_field);
    put_bytes(buf, s.as_bytes());
}

/// Whether `rest` is what is left of `all` when some bytes, or none, have been
/// taken off its front.
#[verifier::opaque]
pub open spec fn left_of(rest: Seq<u8>, all: Seq<u8>) -> bool {
    rest.len() <= all.len() && rest == all.skip(all.len() - rest.len())
}

pub(crate) broadcast proof fn lemma_all_is_left(s: Seq<u8>)
    ensures
        #[trigger] left_of(s, s),
{
    reveal(left_of);
    assert(s.skip(0) =~= s);
}

pub(crate) broadcast proof fn lemma_less_is_left(a: Seq<u8>, b: Seq<u8>, c: Seq<u8>)
    requires
        #[trigger] left_of(a, b),
        #[trigger] left_of(b, c),
    ensures
        left_of(a, c),
{
    reveal(left_of);
    assert(a =~= c.skip(c.len() - a.len()));
}

proof fn lemma_skip_is_left(s: Seq<u8>, n: int)
    requires
        0 <= n <= s.len(),
    ensures
        left_of(s.skip(n), s),
{
    reveal(left_of);
}

/// A place in some bytes, from which reading goes on. Its view is the bytes
/// that are still to be read.
///
/// Reading only ever goes forward. How far it has come when it fails is left
/// open, as `std::io::Read::read_exact` leaves it.
pub struct Cursor<'a> {
    rest: &'a [u8],
}

impl<'a> View for Cursor<'a> {
    type V = Seq<u8>;

    closed spec fn view(&self) -> Seq<u8> {
        self.rest@
    }
}

impl<'a> Cursor<'a> {
    /// A cursor at the start of `data`.
    pub fn new(data: &'a [u8]) -> (c: Cursor<'a>)
        ensures
            c@ == data@,
    {
        Cursor { rest: data }
    }

    /// The bytes that are still to be read.
    pub fn remaining(&self) -> (b: &'a [u8])
        ensures
            b@ == self@,
    {
        self.rest
    }

    /// Takes a byte.
    pub fn read_u8(&mut self) -> (r: Result<u8, IoError>)
        ensures
            match parse_u8(old(self)@) {
                Ok((v, rest)) => r == Ok::<u8, IoError>(v) && final(self)@ == rest,
                Err(e) => r matches Err(f) && f@ == e,
            },
            left_of(final(self)@, old(self)@),
    {
        let mut rest = self.rest;
        match byteorder_read_u8(&mut rest) {
            Ok(v) => {
                proof {
                    lemma_skip_is_left(self.rest@, 1);
                }
                self.rest = rest;
                Ok(v)
            },
            Err(_) => {
                proof {
                    lemma_all_is_left(self.rest@);
                }
                Err(IoError::unexpected_eof())
            },
        }
    }

    /// Takes a 32-bit number.
    pub fn read_u32(&mut self) -> (r: Result<u32, IoError>)
        ensures
            match parse_u32(old(self)@) {
                Ok((v, rest)) => r == Ok::<u32, IoError>(v) && final(self)@ == rest,
                Err(e) => r matches Err(f) && f@ == e,
            },
            left_of(final(self)@, old(self)@),
    {
        let mut rest = self.rest;
        match byteorder_read_u32(&mut rest) {
            Ok(v) => {
                proof {
                    lemma_skip_is_left(self.rest@, 4);
                }
                self.rest = rest;
                Ok(v)
            },
            Err(_) => {
                proof {
                    lemma_all_is_left(self.rest@);
                }
                Err(IoError::unexpected_eof())
            },
        }
    }

    /// Takes a 64-bit number.
    pub fn read_u64(&mut self) -> (r: Result<u64, IoError>)
        ensures
            match parse_u64(old(self)@) {
                Ok((v, rest)) => r == Ok::<u64, IoError>(v) && final(self)@ == rest,
                Err(e) => r matches Err(f) && f@ == e,
            },
            left_of(final(self)@, old(self)@),
    {
        let mut rest = self.rest;
        match byteorder_read_u64(&mut rest) {
            Ok(v) => {
                proof {
                    lemma_skip_is_left(self.rest@, 8);
                }
                self.rest = rest;
                Ok(v)
            },
            Err(_) => {
                proof {
                    lemma_all_is_left(self.rest@);
                }
                Err(IoError::unexpected_eof())
            },
        }
    }

    /// Takes a field of bytes.
    pub fn read_bytes(&mut self) -> (r: Result<Vec<u8>, IoError>)
        ensures
            match parse_bytes(old(self)@) {
                Ok((b, rest)) => r matches Ok(v) && v@ == b && final(self)@ == rest,
                Err(e) => r matches Err(f) && f@ == e,
            },
            left_of(final(self)@, old(self)@),
    {
        let start = self.rest;
        match self.read_u32() {
            Ok(len) => {
                let all = self.rest;
                if len as u64 > all.len() as u64 {
                    return Err(IoError::unexpected_eof());
                }
                let n = len as usize;
                let b = slice_to_vec(slice_subrange(all, 0, n));
                self.rest = slice_subrange(all, n, all.len());
                assert(b@ =~= start@.subrange(4, 4 + n));
                assert(self.rest@ =~= start@.skip(4 + n));
                proof {
                    lemma_skip_is_left(start@, 4 + n);
                }
                Ok(b)
            },
            Err(e) => Err(e),
        }
    }

    /// Takes a field of text, called `what` in the error.
    pub fn read_string(&mut self, what: &str) -> (r: Result<String, IoError>)
        ensures
            match parse_string(old(self)@, what@) {
                Ok((s, rest)) => r matches Ok(v) && v@ == s && final(self)@ == rest,
                Err(e) => r matches Err(f) && f@ == e,
            },
            left_of(final(self)@, old(self)@),
    {
        match self.read_bytes() {
            Ok(b) => match string_from_utf8(b) {
                Ok(s) => Ok(s),
                Err(text) => {
                    let mut message = String::from_str("Invalid ");
                    message.append(what);
                    message.append(": ");
                    message.append(text.as_str());
                    Err(IoError::new(IoErrorKind::InvalidData, message))
                },
            },
            Err(e) => Err(e),
        }
    }
}

} // verus!
