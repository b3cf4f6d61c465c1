//! What follows does not change what was read, and what is cut off is missed.

use vstd::prelude::*;

use crate::attribute_laws::{comes_back, law_attributes_round_trip};
use crate::attributes::{
    announces, decode_attributes, encode_attributes, parse_access, parse_bits, parse_extras,
    parse_fields, parse_ids, parse_if_bytes, parse_if_pairs, parse_if_text, parse_if_time,
    parse_if_u32, parse_if_u64, parse_if_u8, parse_pairs, parse_time, parse_times,
    AttributesView, Decoded, FaultView,
};
use crate::constants::{
    SSH_FILEXFER_ATTR_ACCESSTIME, SSH_FILEXFER_ATTR_ACL, SSH_FILEXFER_ATTR_ALLOCATION_SIZE,
    SSH_FILEXFER_ATTR_BITS, SSH_FILEXFER_ATTR_CREATETIME, SSH_FILEXFER_ATTR_CTIME,
    SSH_FILEXFER_ATTR_EXTENDED, SSH_FILEXFER_ATTR_LINK_COUNT, SSH_FILEXFER_ATTR_MIME_TYPE,
    SSH_FILEXFER_ATTR_MODIFYTIME, SSH_FILEXFER_ATTR_OWNERGROUP, SSH_FILEXFER_ATTR_PERMISSIONS,
    SSH_FILEXFER_ATTR_SIZE, SSH_FILEXFER_ATTR_SUBSECOND_TIMES, SSH_FILEXFER_ATTR_TEXT_HINT,
    SSH_FILEXFER_ATTR_UIDGID, SSH_FILEXFER_ATTR_UNTRANSLATED_NAME, SSH_FXP_NAME,
};
use crate::error::{eof_error, ErrorView, IoErrorView};
use crate::reply::{
    bytes_reply, decode_entries, decode_listing, decode_name_list, decode_names, name_answer,
    readdir_answer, status_reply, Breach,
};
use crate::reply_laws::{
    entry_comes_back, law_entries_round_trip, law_names_round_trip, listing_bytes, name_bytes,
    name_comes_back, status_bytes,
};
use crate::wire::{
    be32, bytes_field, from_be32, law_be32_round_trip, law_bytes_field_round_trip,
    law_str_field_round_trip, parse_bytes, parse_string, parse_u32, parse_u64, parse_u8,
    str_field, text_fits, Parsed,
};

verus! {

/// How what is read from some bytes, `a`, goes with what is read from the same
/// bytes with `more` behind them, `b`: a value stays the same and leaves `more`
/// behind it, and only the error that bytes are missing can go away.
pub open spec fn goes_with<T>(a: Parsed<T>, b: Parsed<T>, more: Seq<u8>) -> bool {
    match a {
        Ok((v, rest)) => b == Ok::<_, IoErrorView>((v, rest + more)),
        Err(e) => e == eof_error() || b == Err::<(T, Seq<u8>), _>(e),
    }
}

/// The same for what is decoded.
pub open spec fn decodes_with<T>(a: Decoded<T>, b: Decoded<T>, more: Seq<u8>) -> bool {
    match a {
        Ok((v, rest)) => b == Ok::<_, FaultView>((v, rest + more)),
        Err(e) => e == FaultView::Io(eof_error()) || b == Err::<(T, Seq<u8>), _>(e),
    }
}

// Fields.

proof fn lemma_u8(s: Seq<u8>, more: Seq<u8>)
    ensures
        goes_with(parse_u8(s), parse_u8(s + more), more),
{
    if s.len() >= 1 {
        assert((s + more).skip(1) =~= s.skip(1) + more);
    }
}

proof fn lemma_from_be32(s: Seq<u8>, more: Seq<u8>)
    requires
        s.len() >= 4,
    ensures
        from_be32(s + more) == from_be32(s),
{
}

proof fn lemma_u32(s: Seq<u8>, more: Seq<u8>)
    ensures
        goes_with(parse_u32(s), parse_u32(s + more), more),
{
    if s.len() >= 4 {
        lemma_from_be32(s, more);
        assert((s + more).skip(4) =~= s.skip(4) + more);
    }
}

proof fn lemma_u64(s: Seq<u8>, more: Seq<u8>)
    ensures
        goes_with(parse_u64(s), parse_u64(s + more), more),
{
    if s.len() >= 8 {
        lemma_from_be32(s, more);
        lemma_from_be32(s.skip(4), more);
        assert((s + more).skip(4) =~= s.skip(4) + more);
        assert((s + more).skip(8) =~= s.skip(8) + more);
    }
}

proof fn lemma_bytes(s: Seq<u8>, more: Seq<u8>)
    ensures
        goes_with(parse_bytes(s), parse_bytes(s + more), more),
{
    if s.len() >= 4 && s.len() - 4 >= from_be32(s) {
        let n = from_be32(s) as int;
        lemma_from_be32(s, more);
        assert((s + more).subrange(4, 4 + n) =~= s.subrange(4, 4 + n));
        assert((s + more).skip(4 + n) =~= s.skip(4 + n) + more);
    }
}

proof fn lemma_string(s: Seq<u8>, what: Seq<char>, more: Seq<u8>)
    ensures
        goes_with(parse_string(s, what), parse_string(s + more, what), more),
{
    lemma_bytes(s, more);
}

proof fn lemma_if_u8(present: bool, s: Seq<u8>, more: Seq<u8>)
    ensures
        goes_with(parse_if_u8(present, s), parse_if_u8(present, s + more), more),
{
    lemma_u8(s, more);
}

proof fn lemma_if_u32(present: bool, s: Seq<u8>, more: Seq<u8>)
    ensures
        goes_with(parse_if_u32(present, s), parse_if_u32(present, s + more), more),
{
    lemma_u32(s, more);
}

proof fn lemma_if_u64(present: bool, s: Seq<u8>, more: Seq<u8>)
    ensures
        goes_with(parse_if_u64(present, s), parse_if_u64(present, s + more), more),
{
    lemma_u64(s, more);
}

proof fn lemma_if_bytes(present: bool, s: Seq<u8>, more: Seq<u8>)
    ensures
        goes_with(parse_if_bytes(present, s), parse_if_bytes(present, s + more), more),
{
    lemma_bytes(s, more);
}

proof fn lemma_if_text(present: bool, s: Seq<u8>, what: Seq<char>, more: Seq<u8>)
    ensures
        goes_with(parse_if_text(present, s, what), parse_if_text(present, s + more, what), more),
{
    lemma_string(s, what, more);
}

proof fn lemma_time(s: Seq<u8>, sub: bool, more: Seq<u8>)
    ensures
        goes_with(parse_time(s, sub), parse_time(s + more, sub), more),
{
    lemma_u64(s, more);
    if let Ok((_, s1)) = parse_u64(s) {
        lemma_if_u32(sub, s1, more);
    }
}

proof fn lemma_if_time(present: bool, s: Seq<u8>, sub: bool, more: Seq<u8>)
    ensures
        goes_with(parse_if_time(present, s, sub), parse_if_time(present, s + more, sub), more),
{
    lemma_time(s, sub, more);
}

proof fn lemma_pairs(n: nat, s: Seq<u8>, more: Seq<u8>)
    ensures
        goes_with(parse_pairs(n, s), parse_pairs(n, s + more), more),
    decreases n,
{
    if n > 0 {
        lemma_string(s, "extended key"@, more);
        if let Ok((_, s1)) = parse_string(s, "extended key"@) {
            lemma_string(s1, "extended value"@, more);
            if let Ok((_, s2)) = parse_string(s1, "extended value"@) {
                lemma_pairs((n - 1) as nat, s2, more);
            }
        }
    }
}

proof fn lemma_if_pairs(present: bool, s: Seq<u8>, more: Seq<u8>)
    ensures
        goes_with(parse_if_pairs(present, s), parse_if_pairs(present, s + more), more),
{
    lemma_u32(s, more);
    if let Ok((n, s1)) = parse_u32(s) {
        lemma_pairs(n as nat, s1, more);
    }
}

// Groups of fields.

proof fn lemma_ids(mask: u32, s: Seq<u8>, more: Seq<u8>)
    ensures
        goes_with(parse_ids(mask, s), parse_ids(mask, s + more), more),
{
    let size = announces(mask, SSH_FILEXFER_ATTR_SIZE);
    let ids = announces(mask, SSH_FILEXFER_ATTR_UIDGID);
    lemma_if_u64(size, s, more);
    if let Ok((_, s1)) = parse_if_u64(size, s) {
        lemma_if_u32(ids, s1, more);
        if let Ok((_, s2)) = parse_if_u32(ids, s1) {
            lemma_if_u32(ids, s2, more);
            if let Ok((_, s3)) = parse_if_u32(ids, s2) {
                lemma_if_u64(announces(mask, SSH_FILEXFER_ATTR_ALLOCATION_SIZE), s3, more);
            }
        }
    }
}

proof fn lemma_access(mask: u32, s: Seq<u8>, more: Seq<u8>)
    ensures
        goes_with(parse_access(mask, s), parse_access(mask, s + more), more),
{
    let owned = announces(mask, SSH_FILEXFER_ATTR_OWNERGROUP);
    lemma_if_text(owned, s, "owner"@, more);
    if let Ok((_, s1)) = parse_if_text(owned, s, "owner"@) {
        lemma_if_text(owned, s1, "group"@, more);
        if let Ok((_, s2)) = parse_if_text(owned, s1, "group"@) {
            lemma_if_u32(announces(mask, SSH_FILEXFER_ATTR_PERMISSIONS), s2, more);
        }
    }
}

proof fn lemma_times(mask: u32, s: Seq<u8>, more: Seq<u8>)
    ensures
        goes_with(parse_times(mask, s), parse_times(mask, s + more), more),
{
    let sub = announces(mask, SSH_FILEXFER_ATTR_SUBSECOND_TIMES);
    let access = announces(mask, SSH_FILEXFER_ATTR_ACCESSTIME);
    let create = announces(mask, SSH_FILEXFER_ATTR_CREATETIME);
    let modify = announces(mask, SSH_FILEXFER_ATTR_MODIFYTIME);
    lemma_if_time(access, s, sub, more);
    if let Ok((_, s1)) = parse_if_time(access, s, sub) {
        lemma_if_time(create, s1, sub, more);
        if let Ok((_, s2)) = parse_if_time(create, s1, sub) {
            lemma_if_time(modify, s2, sub, more);
            if let Ok((_, s3)) = parse_if_time(modify, s2, sub) {
                lemma_if_time(announces(mask, SSH_FILEXFER_ATTR_CTIME), s3, sub, more);
            }
        }
    }
}

proof fn lemma_bits(mask: u32, s: Seq<u8>, more: Seq<u8>)
    ensures
        goes_with(parse_bits(mask, s), parse_bits(mask, s + more), more),
{
    let acl = announces(mask, SSH_FILEXFER_ATTR_ACL);
    let bits = announces(mask, SSH_FILEXFER_ATTR_BITS);
    lemma_if_bytes(acl, s, more);
    if let Ok((_, s1)) = parse_if_bytes(acl, s) {
        lemma_if_u32(bits, s1, more);
        if let Ok((_, s2)) = parse_if_u32(bits, s1) {
            lemma_if_u32(bits, s2, more);
            if let Ok((_, s3)) = parse_if_u32(bits, s2) {
                lemma_if_u8(announces(mask, SSH_FILEXFER_ATTR_TEXT_HINT), s3, more);
            }
        }
    }
}

proof fn lemma_extras(mask: u32, s: Seq<u8>, more: Seq<u8>)
    ensures
        goes_with(parse_extras(mask, s), parse_extras(mask, s + more), more),
{
    let mime = announces(mask, SSH_FILEXFER_ATTR_MIME_TYPE);
    let links = announces(mask, SSH_FILEXFER_ATTR_LINK_COUNT);
    let name = announces(mask, SSH_FILEXFER_ATTR_UNTRANSLATED_NAME);
    lemma_if_text(mime, s, "mime type"@, more);
    if let Ok((_, s1)) = parse_if_text(mime, s, "mime type"@) {
        lemma_if_u32(links, s1, more);
        if let Ok((_, s2)) = parse_if_u32(links, s1) {
            lemma_if_bytes(name, s2, more);
            if let Ok((_, s3)) = parse_if_bytes(name, s2) {
                lemma_if_pairs(announces(mask, SSH_FILEXFER_ATTR_EXTENDED), s3, more);
            }
        }
    }
}

proof fn lemma_fields(s: Seq<u8>, more: Seq<u8>)
    ensures
        goes_with(parse_fields(s), parse_fields(s + more), more),
{
    reveal(parse_fields);
    lemma_u32(s, more);
    if let Ok((mask, s0)) = parse_u32(s) {
        lemma_ids(mask, s0, more);
        if let Ok((_, s1)) = parse_ids(mask, s0) {
            lemma_access(mask, s1, more);
            if let Ok((_, s2)) = parse_access(mask, s1) {
                lemma_times(mask, s2, more);
                if let Ok((_, s3)) = parse_times(mask, s2) {
                    lemma_bits(mask, s3, more);
                    if let Ok((_, s4)) = parse_bits(mask, s3) {
                        lemma_extras(mask, s4, more);
                    }
                }
            }
        }
    }
}

// Attributes.

/// Bytes behind attributes do not change what they decode to. Only the error
/// that bytes are missing can go away.
pub proof fn law_attributes_end_where_they_end(s: Seq<u8>, more: Seq<u8>)
    ensures
        decodes_with(decode_attributes(s), decode_attributes(s + more), more),
{
    lemma_fields(s, more);
}

/// What decodes to something with nothing left over is missing bytes if any
/// are cut off its end.
proof fn lemma_cut<T>(s: Seq<u8>, n: int, v: T, cut: Decoded<T>, whole: Decoded<T>)
    requires
        0 <= n < s.len(),
        decodes_with(cut, whole, s.skip(n)),
        whole == Ok::<_, FaultView>((v, Seq::<u8>::empty())),
    ensures
        cut == Err::<(T, Seq<u8>), _>(FaultView::Io(eof_error())),
{
    if let Ok((_, rest)) = cut {
        assert((rest + s.skip(n)).len() > 0);
    }
}

/// Attributes that are not all there are refused: the error is that bytes are
/// missing.
pub proof fn law_cut_attributes_are_refused(a: AttributesView, n: int)
    requires
        comes_back(a),
        0 <= n < encode_attributes(a).len(),
    ensures
        decode_attributes(encode_attributes(a).take(n)) == Err::<(AttributesView, Seq<u8>), _>(
            FaultView::Io(eof_error()),
        ),
{
    let s = encode_attributes(a);
    law_attributes_round_trip(a, seq![]);
    assert(s + seq![] =~= s);
    assert(s.take(n) + s.skip(n) =~= s);
    law_attributes_end_where_they_end(s.take(n), s.skip(n));
    lemma_cut(s, n, a, decode_attributes(s.take(n)), decode_attributes(s));
}

// Lists.

proof fn lemma_names(n: nat, s: Seq<u8>, more: Seq<u8>)
    ensures
        decodes_with(decode_names(n, s), decode_names(n, s + more), more),
    decreases n,
{
    if n > 0 {
        lemma_string(s, "filename"@, more);
        if let Ok((_, s1)) = parse_string(s, "filename"@) {
            law_attributes_end_where_they_end(s1, more);
            if let Ok((_, s2)) = decode_attributes(s1) {
                lemma_names((n - 1) as nat, s2, more);
            }
        }
    }
}

proof fn lemma_name_list(s: Seq<u8>, more: Seq<u8>)
    ensures
        decodes_with(decode_name_list(s), decode_name_list(s + more), more),
{
    lemma_u32(s, more);
    if let Ok((n, s1)) = parse_u32(s) {
        lemma_names(n as nat, s1, more);
    }
}

proof fn lemma_entries(n: nat, s: Seq<u8>, more: Seq<u8>)
    ensures
        decodes_with(decode_entries(n, s), decode_entries(n, s + more), more),
    decreases n,
{
    if n > 0 {
        lemma_string(s, "filename"@, more);
        if let Ok((_, s1)) = parse_string(s, "filename"@) {
            lemma_string(s1, "longname"@, more);
            if let Ok((_, s2)) = parse_string(s1, "longname"@) {
                law_attributes_end_where_they_end(s2, more);
                if let Ok((_, s3)) = decode_attributes(s2) {
                    lemma_entries((n - 1) as nat, s3, more);
                }
            }
        }
    }
}

proof fn lemma_listing(s: Seq<u8>, more: Seq<u8>)
    ensures
        decodes_with(decode_listing(s), decode_listing(s + more), more),
{
    lemma_u32(s, more);
    if let Ok((n, s1)) = parse_u32(s) {
        lemma_entries(n as nat, s1, more);
    }
}

/// Names that are not all there are refused: the error is that bytes are
/// missing.
pub proof fn law_cut_names_are_refused(names: Seq<(Seq<char>, AttributesView)>, n: int)
    requires
        names.len() <= u32::MAX,
        forall|i: int| 0 <= i < names.len() ==> name_comes_back(#[trigger] names[i]),
        0 <= n < name_bytes(names).len(),
    ensures
        name_answer(SSH_FXP_NAME, name_bytes(names).take(n)) == Ok::<_, Breach>(
            Err::<Seq<(Seq<char>, AttributesView)>, _>(ErrorView::Io(eof_error())),
        ),
{
    let s = name_bytes(names);
    assert(s + seq![] =~= s);
    assert(s.take(n) + s.skip(n) =~= s);
    assert(decode_name_list(s) == Ok::<_, FaultView>((names, Seq::<u8>::empty()))) by {
        law_names_round_trip(names, seq![]);
    }
    lemma_name_list(s.take(n), s.skip(n));
    lemma_cut(s, n, names, decode_name_list(s.take(n)), decode_name_list(s));
}

/// Directory entries that are not all there are refused: the error is that
/// bytes are missing.
pub proof fn law_cut_entries_are_refused(
    entries: Seq<(Seq<char>, Seq<char>, AttributesView)>,
    n: int,
)
    requires
        entries.len() <= u32::MAX,
        forall|i: int| 0 <= i < entries.len() ==> entry_comes_back(#[trigger] entries[i]),
        0 <= n < listing_bytes(entries).len(),
    ensures
        readdir_answer(SSH_FXP_NAME, listing_bytes(entries).take(n)) == Ok::<_, Breach>(
            Err::<Seq<(Seq<char>, Seq<char>, AttributesView)>, _>(ErrorView::Io(eof_error())),
        ),
{
    let s = listing_bytes(entries);
    assert(s + seq![] =~= s);
    assert(s.take(n) + s.skip(n) =~= s);
    assert(decode_listing(s) == Ok::<_, FaultView>((entries, Seq::<u8>::empty()))) by {
        law_entries_round_trip(entries, seq![]);
    }
    lemma_listing(s.take(n), s.skip(n));
    lemma_cut(s, n, entries, decode_listing(s.take(n)), decode_listing(s));
}

// Statuses, handles and data.

/// A status whose bytes are not all there is refused: the error is that bytes
/// are missing.
pub proof fn law_cut_status_is_refused(code: u32, message: Seq<char>, lang: Seq<char>, n: int)
    requires
        text_fits(message),
        text_fits(lang),
        0 <= n < status_bytes(code, message, lang).len(),
    ensures
        status_reply(status_bytes(code, message, lang).take(n)) == Err::<(), _>(
            ErrorView::Io(eof_error()),
        ),
{
    let s = status_bytes(code, message, lang);
    let cut = s.take(n);
    let more = s.skip(n);
    let s1 = str_field(message) + str_field(lang);
    assert(cut + more =~= s);
    assert(s =~= be32(code) + s1);
    law_be32_round_trip(code, s1);
    lemma_u32(cut, more);
    if let Ok((_, c1)) = parse_u32(cut) {
        assert(c1 + more == s1);
        law_str_field_round_trip(message, str_field(lang), "error message"@);
        lemma_string(c1, "error message"@, more);
        if let Ok((_, c2)) = parse_string(c1, "error message"@) {
            assert(c2 + more == str_field(lang));
            assert(str_field(lang) + seq![] =~= str_field(lang));
            law_str_field_round_trip(lang, seq![], "lang tag"@);
            lemma_string(c2, "lang tag"@, more);
            if let Ok((_, c3)) = parse_string(c2, "lang tag"@) {
                assert((c3 + more).len() > 0);
            }
        }
    }
}

/// A handle, or data, that is not all there is refused: the error is that
/// bytes are missing.
pub proof fn law_cut_bytes_are_refused(b: Seq<u8>, n: int)
    requires
        b.len() <= u32::MAX,
        0 <= n < bytes_field(b).len(),
    ensures
        bytes_reply(bytes_field(b).take(n)) == Err::<Seq<u8>, _>(ErrorView::Io(eof_error())),
{
    let s = bytes_field(b);
    assert(s + seq![] =~= s);
    assert(s.take(n) + s.skip(n) =~= s);
    law_bytes_field_round_trip(b, seq![]);
    lemma_bytes(s.take(n), s.skip(n));
    if let Ok((_, rest)) = parse_bytes(s.take(n)) {
        assert((rest + s.skip(n)).len() > 0);
    }
}

} // verus!
