//! Encoding and decoding attributes are inverse.

use vstd::prelude::*;

use crate::attributes::{
    access_mask, announces, bits_mask, decode_attributes, encodable, encode_access,
    encode_attributes, encode_bits, encode_bytes, encode_extras, encode_hint, encode_ids,
    encode_pairs, encode_text, encode_time, encode_times, encode_u32, encode_u64, extras_mask,
    field_mask, flag, has_subseconds, ids_mask, no_attributes, pair_fields, parse_access,
    parse_bits, parse_extras, parse_fields, parse_ids, parse_if_bytes, parse_if_pairs,
    parse_if_text, parse_if_time, parse_if_u32, parse_if_u64, parse_if_u8, parse_pairs,
    parse_times, subseconds_agree, times_mask, AccessFields, AttributesView, BitFields,
    ExtraFields, FaultView, IdFields, TimeFields,
};
use crate::constants::{
    SSH_FILEXFER_ATTR_ACCESSTIME, SSH_FILEXFER_ATTR_ACL, SSH_FILEXFER_ATTR_ALLOCATION_SIZE,
    SSH_FILEXFER_ATTR_BITS, SSH_FILEXFER_ATTR_CREATETIME, SSH_FILEXFER_ATTR_CTIME,
    SSH_FILEXFER_ATTR_EXTENDED, SSH_FILEXFER_ATTR_LINK_COUNT, SSH_FILEXFER_ATTR_MIME_TYPE,
    SSH_FILEXFER_ATTR_MODIFYTIME, SSH_FILEXFER_ATTR_OWNERGROUP, SSH_FILEXFER_ATTR_PERMISSIONS,
    SSH_FILEXFER_ATTR_SIZE, SSH_FILEXFER_ATTR_SUBSECOND_TIMES, SSH_FILEXFER_ATTR_TEXT_HINT,
    SSH_FILEXFER_ATTR_UIDGID, SSH_FILEXFER_ATTR_UNTRANSLATED_NAME,
};
use crate::error::IoErrorView;
use crate::types::TextHint;
use crate::wire::{
    be32, be64, law_be32_round_trip, law_be64_round_trip, law_bytes_field_round_trip,
    law_str_field_round_trip, parse_string, parse_u32, str_field, text_fits, wire_len,
};

verus! {

proof fn lemma_ids_flags(p0: bool, p1: bool, p2: bool, m: u32)
    by (bit_vector)
    requires
        m == flag(p0, SSH_FILEXFER_ATTR_SIZE)
            | flag(p1, SSH_FILEXFER_ATTR_ALLOCATION_SIZE)
            | flag(p2, SSH_FILEXFER_ATTR_UIDGID),
    ensures
        m & !0x403u32 == 0,
        announces(m, SSH_FILEXFER_ATTR_SIZE) == p0,
        announces(m, SSH_FILEXFER_ATTR_ALLOCATION_SIZE) == p1,
        announces(m, SSH_FILEXFER_ATTR_UIDGID) == p2,
{
}

proof fn lemma_ids_mask(a: AttributesView)
    ensures
        ids_mask(a) & !0x403u32 == 0,
        announces(ids_mask(a), SSH_FILEXFER_ATTR_SIZE) == (a.size is Some),
        announces(ids_mask(a), SSH_FILEXFER_ATTR_ALLOCATION_SIZE) == (a.allocation_size is Some),
        announces(ids_mask(a), SSH_FILEXFER_ATTR_UIDGID) == (a.uid is Some),
{
    reveal(ids_mask);
    lemma_ids_flags(a.size is Some, a.allocation_size is Some, a.uid is Some, ids_mask(a));
}

proof fn lemma_access_flags(p0: bool, p1: bool, m: u32)
    by (bit_vector)
    requires
        m == flag(p0, SSH_FILEXFER_ATTR_OWNERGROUP) | flag(p1, SSH_FILEXFER_ATTR_PERMISSIONS),
    ensures
        m & !0x84u32 == 0,
        announces(m, SSH_FILEXFER_ATTR_OWNERGROUP) == p0,
        announces(m, SSH_FILEXFER_ATTR_PERMISSIONS) == p1,
{
}

proof fn lemma_access_mask(a: AttributesView)
    ensures
        access_mask(a) & !0x84u32 == 0,
        announces(access_mask(a), SSH_FILEXFER_ATTR_OWNERGROUP)
            == (a.owner is Some || a.group is Some),
        announces(access_mask(a), SSH_FILEXFER_ATTR_PERMISSIONS) == (a.permissions is Some),
{
    reveal(access_mask);
    lemma_access_flags(a.owner is Some || a.group is Some, a.permissions is Some, access_mask(a));
}

proof fn lemma_times_flags(p0: bool, p1: bool, p2: bool, p3: bool, p4: bool, m: u32)
    by (bit_vector)
    requires
        m == flag(p0, SSH_FILEXFER_ATTR_SUBSECOND_TIMES)
            | flag(p1, SSH_FILEXFER_ATTR_ACCESSTIME)
            | flag(p2, SSH_FILEXFER_ATTR_CREATETIME)
            | flag(p3, SSH_FILEXFER_ATTR_MODIFYTIME)
            | flag(p4, SSH_FILEXFER_ATTR_CTIME),
    ensures
        m & !0x8138u32 == 0,
        announces(m, SSH_FILEXFER_ATTR_SUBSECOND_TIMES) == p0,
        announces(m, SSH_FILEXFER_ATTR_ACCESSTIME) == p1,
        announces(m, SSH_FILEXFER_ATTR_CREATETIME) == p2,
        announces(m, SSH_FILEXFER_ATTR_MODIFYTIME) == p3,
        announces(m, SSH_FILEXFER_ATTR_CTIME) == p4,
{
}

proof fn lemma_times_mask(a: AttributesView)
    ensures
        times_mask(a) & !0x8138u32 == 0,
        announces(times_mask(a), SSH_FILEXFER_ATTR_SUBSECOND_TIMES)
            == (has_subseconds(a.access_time)),
        announces(times_mask(a), SSH_FILEXFER_ATTR_ACCESSTIME) == (a.access_time is Some),
        announces(times_mask(a), SSH_FILEXFER_ATTR_CREATETIME) == (a.create_time is Some),
        announces(times_mask(a), SSH_FILEXFER_ATTR_MODIFYTIME) == (a.modify_time is Some),
        announces(times_mask(a), SSH_FILEXFER_ATTR_CTIME) == (a.ctime is Some),
{
    reveal(times_mask);
    lemma_times_flags(
        has_subseconds(a.access_time),
        a.access_time is Some,
        a.create_time is Some,
        a.modify_time is Some,
        a.ctime is Some,
        times_mask(a),
    );
}

proof fn lemma_bits_flags(p0: bool, p1: bool, p2: bool, m: u32)
    by (bit_vector)
    requires
        m == flag(p0, SSH_FILEXFER_ATTR_ACL)
            | flag(p1, SSH_FILEXFER_ATTR_BITS)
            | flag(p2, SSH_FILEXFER_ATTR_TEXT_HINT),
    ensures
        m & !0xa40u32 == 0,
        announces(m, SSH_FILEXFER_ATTR_ACL) == p0,
        announces(m, SSH_FILEXFER_ATTR_BITS) == p1,
        announces(m, SSH_FILEXFER_ATTR_TEXT_HINT) == p2,
{
}

proof fn lemma_bits_mask(a: AttributesView)
    ensures
        bits_mask(a) & !0xa40u32 == 0,
        announces(bits_mask(a), SSH_FILEXFER_ATTR_ACL) == (a.acl is Some),
        announces(bits_mask(a), SSH_FILEXFER_ATTR_BITS)
            == (a.attrib_bits is Some || a.attrib_bits_valid is Some),
        announces(bits_mask(a), SSH_FILEXFER_ATTR_TEXT_HINT) == (a.text_hint is Some),
{
    reveal(bits_mask);
    lemma_bits_flags(
        a.acl is Some,
        a.attrib_bits is Some || a.attrib_bits_valid is Some,
        a.text_hint is Some,
        bits_mask(a),
    );
}

proof fn lemma_extras_flags(p0: bool, p1: bool, p2: bool, p3: bool, m: u32)
    by (bit_vector)
    requires
        m == flag(p0, SSH_FILEXFER_ATTR_MIME_TYPE)
            | flag(p1, SSH_FILEXFER_ATTR_LINK_COUNT)
            | flag(p2, SSH_FILEXFER_ATTR_UNTRANSLATED_NAME)
            | flag(p3, SSH_FILEXFER_ATTR_EXTENDED),
    ensures
        m & !0x80007000u32 == 0,
        announces(m, SSH_FILEXFER_ATTR_MIME_TYPE) == p0,
        announces(m, SSH_FILEXFER_ATTR_LINK_COUNT) == p1,
        announces(m, SSH_FILEXFER_ATTR_UNTRANSLATED_NAME) == p2,
        announces(m, SSH_FILEXFER_ATTR_EXTENDED) == p3,
{
}

proof fn lemma_extras_mask(a: AttributesView)
    ensures
        extras_mask(a) & !0x80007000u32 == 0,
        announces(extras_mask(a), SSH_FILEXFER_ATTR_MIME_TYPE) == (a.mime_type is Some),
        announces(extras_mask(a), SSH_FILEXFER_ATTR_LINK_COUNT) == (a.link_count is Some),
        announces(extras_mask(a), SSH_FILEXFER_ATTR_UNTRANSLATED_NAME)
            == (a.untranslated_name is Some),
        announces(extras_mask(a), SSH_FILEXFER_ATTR_EXTENDED) == (a.extended is Some),
{
    reveal(extras_mask);
    lemma_extras_flags(
        a.mime_type is Some,
        a.link_count is Some,
        a.untranslated_name is Some,
        a.extended is Some,
        extras_mask(a),
    );
}

/// Masks of fields that share no bit keep their bits in their union.
proof fn lemma_union(ids: u32, access: u32, times: u32, bits: u32, extras: u32, m: u32)
    by (bit_vector)
    requires
        ids & !0x403u32 == 0,
        access & !0x84u32 == 0,
        times & !0x8138u32 == 0,
        bits & !0xa40u32 == 0,
        extras & !0x80007000u32 == 0,
        m == ids | access | times | bits | extras,
    ensures
        announces(m, SSH_FILEXFER_ATTR_SIZE) == announces(ids, SSH_FILEXFER_ATTR_SIZE),
        announces(m, SSH_FILEXFER_ATTR_ALLOCATION_SIZE)
            == announces(ids, SSH_FILEXFER_ATTR_ALLOCATION_SIZE),
        announces(m, SSH_FILEXFER_ATTR_UIDGID) == announces(ids, SSH_FILEXFER_ATTR_UIDGID),
        announces(m, SSH_FILEXFER_ATTR_OWNERGROUP)
            == announces(access, SSH_FILEXFER_ATTR_OWNERGROUP),
        announces(m, SSH_FILEXFER_ATTR_PERMISSIONS)
            == announces(access, SSH_FILEXFER_ATTR_PERMISSIONS),
        announces(m, SSH_FILEXFER_ATTR_SUBSECOND_TIMES)
            == announces(times, SSH_FILEXFER_ATTR_SUBSECOND_TIMES),
        announces(m, SSH_FILEXFER_ATTR_ACCESSTIME)
            == announces(times, SSH_FILEXFER_ATTR_ACCESSTIME),
        announces(m, SSH_FILEXFER_ATTR_CREATETIME)
            == announces(times, SSH_FILEXFER_ATTR_CREATETIME),
        announces(m, SSH_FILEXFER_ATTR_MODIFYTIME)
            == announces(times, SSH_FILEXFER_ATTR_MODIFYTIME),
        announces(m, SSH_FILEXFER_ATTR_CTIME) == announces(times, SSH_FILEXFER_ATTR_CTIME),
        announces(m, SSH_FILEXFER_ATTR_ACL) == announces(bits, SSH_FILEXFER_ATTR_ACL),
        announces(m, SSH_FILEXFER_ATTR_BITS) == announces(bits, SSH_FILEXFER_ATTR_BITS),
        announces(m, SSH_FILEXFER_ATTR_TEXT_HINT) == announces(bits, SSH_FILEXFER_ATTR_TEXT_HINT),
        announces(m, SSH_FILEXFER_ATTR_MIME_TYPE) == announces(extras, SSH_FILEXFER_ATTR_MIME_TYPE),
        announces(m, SSH_FILEXFER_ATTR_LINK_COUNT)
            == announces(extras, SSH_FILEXFER_ATTR_LINK_COUNT),
        announces(m, SSH_FILEXFER_ATTR_UNTRANSLATED_NAME)
            == announces(extras, SSH_FILEXFER_ATTR_UNTRANSLATED_NAME),
        announces(m, SSH_FILEXFER_ATTR_EXTENDED) == announces(extras, SSH_FILEXFER_ATTR_EXTENDED),
{
}

/// The mask of attributes announces exactly the fields that are there.
pub proof fn law_mask_announces_fields(a: AttributesView)
    ensures
        announces(field_mask(a), SSH_FILEXFER_ATTR_SIZE) == (a.size is Some),
        announces(field_mask(a), SSH_FILEXFER_ATTR_ALLOCATION_SIZE) == (a.allocation_size is Some),
        announces(field_mask(a), SSH_FILEXFER_ATTR_UIDGID) == (a.uid is Some),
        announces(field_mask(a), SSH_FILEXFER_ATTR_OWNERGROUP)
            == (a.owner is Some || a.group is Some),
        announces(field_mask(a), SSH_FILEXFER_ATTR_PERMISSIONS) == (a.permissions is Some),
        announces(field_mask(a), SSH_FILEXFER_ATTR_SUBSECOND_TIMES)
            == (has_subseconds(a.access_time)),
        announces(field_mask(a), SSH_FILEXFER_ATTR_ACCESSTIME) == (a.access_time is Some),
        announces(field_mask(a), SSH_FILEXFER_ATTR_CREATETIME) == (a.create_time is Some),
        announces(field_mask(a), SSH_FILEXFER_ATTR_MODIFYTIME) == (a.modify_time is Some),
        announces(field_mask(a), SSH_FILEXFER_ATTR_CTIME) == (a.ctime is Some),
        announces(field_mask(a), SSH_FILEXFER_ATTR_ACL) == (a.acl is Some),
        announces(field_mask(a), SSH_FILEXFER_ATTR_BITS)
            == (a.attrib_bits is Some || a.attrib_bits_valid is Some),
        announces(field_mask(a), SSH_FILEXFER_ATTR_TEXT_HINT) == (a.text_hint is Some),
        announces(field_mask(a), SSH_FILEXFER_ATTR_MIME_TYPE) == (a.mime_type is Some),
        announces(field_mask(a), SSH_FILEXFER_ATTR_LINK_COUNT) == (a.link_count is Some),
        announces(field_mask(a), SSH_FILEXFER_ATTR_UNTRANSLATED_NAME)
            == (a.untranslated_name is Some),
        announces(field_mask(a), SSH_FILEXFER_ATTR_EXTENDED) == (a.extended is Some),
{
    lemma_ids_mask(a);
    lemma_access_mask(a);
    lemma_times_mask(a);
    lemma_bits_mask(a);
    lemma_extras_mask(a);
    lemma_union(
        ids_mask(a),
        access_mask(a),
        times_mask(a),
        bits_mask(a),
        extras_mask(a),
        field_mask(a),
    );
}

proof fn lemma_assoc2(a: Seq<u8>, b: Seq<u8>, rest: Seq<u8>)
    ensures
        a + b + rest == a + (b + rest),
{
    assert(a + b + rest =~= a + (b + rest));
}

proof fn lemma_assoc3(a: Seq<u8>, b: Seq<u8>, c: Seq<u8>, rest: Seq<u8>)
    ensures
        a + b + c + rest == a + (b + (c + rest)),
{
    assert(a + b + c + rest =~= a + (b + (c + rest)));
}

pub(crate) proof fn lemma_assoc4(a: Seq<u8>, b: Seq<u8>, c: Seq<u8>, d: Seq<u8>, rest: Seq<u8>)
    ensures
        a + b + c + d + rest == a + (b + (c + (d + rest))),
{
    assert(a + b + c + d + rest =~= a + (b + (c + (d + rest))));
}

proof fn lemma_assoc6(
    a: Seq<u8>,
    b: Seq<u8>,
    c: Seq<u8>,
    d: Seq<u8>,
    e: Seq<u8>,
    f: Seq<u8>,
    rest: Seq<u8>,
)
    ensures
        a + b + c + d + e + f + rest == a + (b + (c + (d + (e + (f + rest))))),
{
    assert(a + b + c + d + e + f + rest =~= a + (b + (c + (d + (e + (f + rest))))));
}

// The fields, one kind after the other.

pub(crate) proof fn lemma_opt_u32(o: Option<u32>, rest: Seq<u8>)
    ensures
        parse_if_u32(o is Some, encode_u32(o) + rest) == Ok::<_, IoErrorView>((o, rest)),
{
    match o {
        Some(v) => law_be32_round_trip(v, rest),
        None => assert(encode_u32(o) + rest =~= rest),
    }
}

pub(crate) proof fn lemma_opt_u64(o: Option<u64>, rest: Seq<u8>)
    ensures
        parse_if_u64(o is Some, encode_u64(o) + rest) == Ok::<_, IoErrorView>((o, rest)),
{
    match o {
        Some(v) => law_be64_round_trip(v, rest),
        None => assert(encode_u64(o) + rest =~= rest),
    }
}

proof fn lemma_opt_hint(o: Option<TextHint>, rest: Seq<u8>)
    ensures
        parse_if_u8(o is Some, encode_hint(o) + rest) == Ok::<_, IoErrorView>(
            (
                match o {
                    Some(h) => Some(h.code()),
                    None => None,
                },
                rest,
            ),
        ),
{
    match o {
        Some(h) => assert((encode_hint(o) + rest).skip(1) =~= rest),
        None => assert(encode_hint(o) + rest =~= rest),
    }
}

proof fn lemma_opt_bytes(o: Option<Seq<u8>>, rest: Seq<u8>)
    requires
        o matches Some(b) ==> b.len() <= u32::MAX,
    ensures
        parse_if_bytes(o is Some, encode_bytes(o) + rest) == Ok::<_, IoErrorView>((o, rest)),
{
    match o {
        Some(b) => law_bytes_field_round_trip(b, rest),
        None => assert(encode_bytes(o) + rest =~= rest),
    }
}

proof fn lemma_opt_text(o: Option<Seq<char>>, rest: Seq<u8>, what: Seq<char>)
    requires
        o matches Some(s) ==> text_fits(s),
    ensures
        parse_if_text(o is Some, encode_text(o) + rest, what) == Ok::<_, IoErrorView>((o, rest)),
{
    match o {
        Some(s) => law_str_field_round_trip(s, rest, what),
        None => assert(encode_text(o) + rest =~= rest),
    }
}

pub(crate) proof fn lemma_opt_time(o: Option<(u64, Option<u32>)>, sub: bool, rest: Seq<u8>)
    requires
        subseconds_agree(o, sub),
    ensures
        parse_if_time(o is Some, encode_time(o) + rest, sub) == Ok::<_, IoErrorView>((o, rest)),
{
    match o {
        Some(t) => {
            lemma_assoc2(be64(t.0), encode_u32(t.1), rest);
            law_be64_round_trip(t.0, encode_u32(t.1) + rest);
            lemma_opt_u32(t.1, rest);
        },
        None => assert(encode_time(o) + rest =~= rest),
    }
}

proof fn lemma_one_pair(
    n: nat,
    s: Seq<u8>,
    k: Seq<char>,
    s1: Seq<u8>,
    v: Seq<char>,
    s2: Seq<u8>,
    more: Seq<(Seq<char>, Seq<char>)>,
    rest: Seq<u8>,
)
    requires
        parse_string(s, "extended key"@) == Ok::<_, IoErrorView>((k, s1)),
        parse_string(s1, "extended value"@) == Ok::<_, IoErrorView>((v, s2)),
        parse_pairs(n, s2) == Ok::<_, IoErrorView>((more, rest)),
    ensures
        parse_pairs(n + 1, s) == Ok::<_, IoErrorView>((seq![(k, v)] + more, rest)),
{
}

proof fn lemma_pairs(pairs: Seq<(Seq<char>, Seq<char>)>, rest: Seq<u8>)
    requires
        forall|i: int| 0 <= i < pairs.len() ==> pair_fits(#[trigger] pairs[i]),
    ensures
        parse_pairs(pairs.len(), pair_fields(pairs) + rest) == Ok::<_, IoErrorView>((pairs, rest)),
    decreases pairs.len(),
{
    if pairs.len() == 0 {
        assert(pair_fields(pairs) + rest =~= rest);
        assert(pairs =~= seq![]);
    } else {
        assert(pair_fits(pairs[0]));
        let k = pairs[0].0;
        let v = pairs[0].1;
        let more = pairs.drop_first();
        let tail = pair_fields(more) + rest;
        assert forall|i: int| 0 <= i < more.len() implies pair_fits(#[trigger] more[i]) by {
            assert(more[i] == pairs[i + 1]);
        }
        lemma_pairs(more, rest);
        law_str_field_round_trip(v, tail, "extended value"@);
        law_str_field_round_trip(k, str_field(v) + tail, "extended key"@);
        lemma_assoc3(str_field(k), str_field(v), pair_fields(more), rest);
        lemma_one_pair(
            more.len(),
            str_field(k) + (str_field(v) + tail),
            k,
            str_field(v) + tail,
            v,
            tail,
            more,
            rest,
        );
        assert(seq![(k, v)] + more =~= pairs);
    }
}

proof fn lemma_counted_pairs(
    n: u32,
    s: Seq<u8>,
    s1: Seq<u8>,
    pairs: Seq<(Seq<char>, Seq<char>)>,
    rest: Seq<u8>,
)
    requires
        parse_u32(s) == Ok::<_, IoErrorView>((n, s1)),
        parse_pairs(n as nat, s1) == Ok::<_, IoErrorView>((pairs, rest)),
    ensures
        parse_if_pairs(true, s) == Ok::<_, IoErrorView>((Some(pairs), rest)),
{
}

proof fn lemma_opt_pairs(o: Option<Seq<(Seq<char>, Seq<char>)>>, rest: Seq<u8>)
    requires
        o matches Some(pairs) ==> pairs_fit(pairs),
    ensures
        parse_if_pairs(o is Some, encode_pairs(o) + rest) == Ok::<_, IoErrorView>((o, rest)),
{
    match o {
        Some(pairs) => {
            let n = wire_len(pairs.len());
            let s = pair_fields(pairs) + rest;
            assert(n as nat == pairs.len());
            assert(parse_pairs(n as nat, s) == Ok::<_, IoErrorView>((pairs, rest))) by {
                lemma_pairs(pairs, rest);
            }
            assert(encode_pairs(o) + rest == be32(n) + s) by {
                lemma_assoc2(be32(n), pair_fields(pairs), rest);
            }
            assert(parse_u32(be32(n) + s) == Ok::<_, IoErrorView>((n, s))) by {
                law_be32_round_trip(n, s);
            }
            lemma_counted_pairs(n, be32(n) + s, s, pairs, rest);
        },
        None => assert(encode_pairs(o) + rest =~= rest),
    }
}

// The groups of fields.

/// An allocation size made of the bytes of the ids may change places with
/// them.
proof fn lemma_swap(size: Seq<u8>, alloc: Option<u64>, uid: Option<u32>, gid: Option<u32>)
    requires
        uid is Some == gid is Some,
        alloc is Some && uid is Some && gid is Some ==> alloc->0 == uid->0 * 0x1_0000_0000 + gid->0,
    ensures
        size + encode_u64(alloc) + encode_u32(uid) + encode_u32(gid) == size + encode_u32(uid)
            + encode_u32(gid) + encode_u64(alloc),
{
    if alloc is Some && uid is Some {
        let v = alloc->0;
        assert(v / 0x1_0000_0000 == uid->0);
        assert(v % 0x1_0000_0000 == gid->0);
        assert(encode_u64(alloc) =~= encode_u32(uid) + encode_u32(gid));
    }
    assert(size + encode_u64(alloc) + encode_u32(uid) + encode_u32(gid) =~= size + encode_u32(uid)
        + encode_u32(gid) + encode_u64(alloc));
}

proof fn lemma_ids(a: AttributesView, mask: u32, rest: Seq<u8>)
    requires
        a.uid is Some == a.gid is Some,
        sizes_agree(a),
        announces(mask, SSH_FILEXFER_ATTR_SIZE) == (a.size is Some),
        announces(mask, SSH_FILEXFER_ATTR_ALLOCATION_SIZE) == (a.allocation_size is Some),
        announces(mask, SSH_FILEXFER_ATTR_UIDGID) == (a.uid is Some),
    ensures
        parse_ids(mask, encode_ids(a) + rest) == Ok::<_, IoErrorView>(
            (
                IdFields { size: a.size, uid: a.uid, gid: a.gid, allocation_size: a.allocation_size },
                rest,
            ),
        ),
{
    let s2 = encode_u64(a.allocation_size) + rest;
    let s1 = encode_u32(a.gid) + s2;
    let s0 = encode_u32(a.uid) + s1;
    lemma_swap(encode_u64(a.size), a.allocation_size, a.uid, a.gid);
    lemma_assoc4(
        encode_u64(a.size),
        encode_u32(a.uid),
        encode_u32(a.gid),
        encode_u64(a.allocation_size),
        rest,
    );
    lemma_opt_u64(a.size, s0);
    lemma_opt_u32(a.uid, s1);
    lemma_opt_u32(a.gid, s2);
    lemma_opt_u64(a.allocation_size, rest);
}

pub(crate) proof fn lemma_access(a: AttributesView, mask: u32, rest: Seq<u8>)
    requires
        a.owner is Some == a.group is Some,
        a.owner matches Some(s) ==> text_fits(s),
        a.group matches Some(s) ==> text_fits(s),
        announces(mask, SSH_FILEXFER_ATTR_OWNERGROUP) == (a.owner is Some || a.group is Some),
        announces(mask, SSH_FILEXFER_ATTR_PERMISSIONS) == (a.permissions is Some),
    ensures
        parse_access(mask, encode_access(a) + rest) == Ok::<_, IoErrorView>(
            (AccessFields { owner: a.owner, group: a.group, permissions: a.permissions }, rest),
        ),
{
    let s1 = encode_u32(a.permissions) + rest;
    let s0 = encode_text(a.group) + s1;
    lemma_assoc3(encode_text(a.owner), encode_text(a.group), encode_u32(a.permissions), rest);
    lemma_opt_text(a.owner, s0, "owner"@);
    lemma_opt_text(a.group, s1, "group"@);
    lemma_opt_u32(a.permissions, rest);
}

proof fn lemma_times(a: AttributesView, mask: u32, rest: Seq<u8>)
    requires
        encodable(a),
        announces(mask, SSH_FILEXFER_ATTR_SUBSECOND_TIMES) == has_subseconds(a.access_time),
        announces(mask, SSH_FILEXFER_ATTR_ACCESSTIME) == (a.access_time is Some),
        announces(mask, SSH_FILEXFER_ATTR_CREATETIME) == (a.create_time is Some),
        announces(mask, SSH_FILEXFER_ATTR_MODIFYTIME) == (a.modify_time is Some),
        announces(mask, SSH_FILEXFER_ATTR_CTIME) == (a.ctime is Some),
    ensures
        parse_times(mask, encode_times(a) + rest) == Ok::<_, IoErrorView>(
            (
                TimeFields {
                    access_time: a.access_time,
                    create_time: a.create_time,
                    modify_time: a.modify_time,
                    ctime: a.ctime,
                },
                rest,
            ),
        ),
{
    let sub = has_subseconds(a.access_time);
    let s2 = encode_time(a.ctime) + rest;
    let s1 = encode_time(a.modify_time) + s2;
    let s0 = encode_time(a.create_time) + s1;
    lemma_assoc4(
        encode_time(a.access_time),
        encode_time(a.create_time),
        encode_time(a.modify_time),
        encode_time(a.ctime),
        rest,
    );
    lemma_opt_time(a.access_time, sub, s0);
    lemma_opt_time(a.create_time, sub, s1);
    lemma_opt_time(a.modify_time, sub, s2);
    lemma_opt_time(a.ctime, sub, rest);
}

pub(crate) proof fn lemma_bits(a: AttributesView, mask: u32, rest: Seq<u8>)
    requires
        a.acl matches Some(b) ==> b.len() <= u32::MAX,
        a.attrib_bits is Some == a.attrib_bits_valid is Some,
        announces(mask, SSH_FILEXFER_ATTR_ACL) == (a.acl is Some),
        announces(mask, SSH_FILEXFER_ATTR_BITS) == (a.attrib_bits is Some
            || a.attrib_bits_valid is Some),
        announces(mask, SSH_FILEXFER_ATTR_TEXT_HINT) == (a.text_hint is Some),
    ensures
        parse_bits(mask, encode_bits(a) + rest) == Ok::<_, IoErrorView>(
            (
                BitFields {
                    acl: a.acl,
                    attrib_bits: a.attrib_bits,
                    attrib_bits_valid: a.attrib_bits_valid,
                    hint: match a.text_hint {
                        Some(h) => Some(h.code()),
                        None => None,
                    },
                },
                rest,
            ),
        ),
{
    let s2 = encode_hint(a.text_hint) + rest;
    let s1 = encode_u32(a.attrib_bits_valid) + s2;
    let s0 = encode_u32(a.attrib_bits) + s1;
    lemma_assoc4(
        encode_bytes(a.acl),
        encode_u32(a.attrib_bits),
        encode_u32(a.attrib_bits_valid),
        encode_hint(a.text_hint),
        rest,
    );
    lemma_opt_bytes(a.acl, s0);
    lemma_opt_u32(a.attrib_bits, s1);
    lemma_opt_u32(a.attrib_bits_valid, s2);
    lemma_opt_hint(a.text_hint, rest);
}

pub(crate) proof fn lemma_extras(a: AttributesView, mask: u32, rest: Seq<u8>)
    requires
        a.mime_type matches Some(s) ==> text_fits(s),
        a.untranslated_name matches Some(b) ==> b.len() <= u32::MAX,
        a.extended matches Some(pairs) ==> pairs_fit(pairs),
        announces(mask, SSH_FILEXFER_ATTR_MIME_TYPE) == (a.mime_type is Some),
        announces(mask, SSH_FILEXFER_ATTR_LINK_COUNT) == (a.link_count is Some),
        announces(mask, SSH_FILEXFER_ATTR_UNTRANSLATED_NAME) == (a.untranslated_name is Some),
        announces(mask, SSH_FILEXFER_ATTR_EXTENDED) == (a.extended is Some),
    ensures
        parse_extras(mask, encode_extras(a) + rest) == Ok::<_, IoErrorView>(
            (
                ExtraFields {
                    mime_type: a.mime_type,
                    link_count: a.link_count,
                    untranslated_name: a.untranslated_name,
                    extended: a.extended,
                },
                rest,
            ),
        ),
{
    let s2 = encode_pairs(a.extended) + rest;
    let s1 = encode_bytes(a.untranslated_name) + s2;
    let s0 = encode_u32(a.link_count) + s1;
    lemma_assoc4(
        encode_text(a.mime_type),
        encode_u32(a.link_count),
        encode_bytes(a.untranslated_name),
        encode_pairs(a.extended),
        rest,
    );
    lemma_opt_text(a.mime_type, s0, "mime type"@);
    lemma_opt_u32(a.link_count, s1);
    lemma_opt_bytes(a.untranslated_name, s2);
    lemma_opt_pairs(a.extended, rest);
}

// All of it.

/// Whether the lengths of both texts can be announced.
pub open spec fn pair_fits(pair: (Seq<char>, Seq<char>)) -> bool {
    text_fits(pair.0) && text_fits(pair.1)
}

/// Whether the number of pairs, and the length of each text in them, can be
/// announced.
pub open spec fn pairs_fit(pairs: Seq<(Seq<char>, Seq<char>)>) -> bool {
    &&& pairs.len() <= u32::MAX
    &&& forall|i: int| 0 <= i < pairs.len() ==> pair_fits(#[trigger] pairs[i])
}

/// Whether it is the same to write the allocation size before the numeric ids
/// and to read it behind them.
pub open spec fn sizes_agree(a: AttributesView) -> bool {
    a.allocation_size is Some && a.uid is Some && a.gid is Some ==> a.allocation_size->0
        == a.uid->0 * 0x1_0000_0000 + a.gid->0
}

/// Whether the length of each field that has one can be announced.
pub open spec fn lengths_fit(a: AttributesView) -> bool {
    &&& (a.owner matches Some(s) ==> text_fits(s))
    &&& (a.group matches Some(s) ==> text_fits(s))
    &&& (a.acl matches Some(b) ==> b.len() <= u32::MAX)
    &&& (a.mime_type matches Some(s) ==> text_fits(s))
    &&& (a.untranslated_name matches Some(b) ==> b.len() <= u32::MAX)
    &&& (a.extended matches Some(pairs) ==> pairs_fit(pairs))
}

/// Attributes that come back from their encoding: those that can be encoded,
/// whose lengths can be announced, in which owner and group go together as the
/// two words of attribute bits do, and in which an allocation size beside
/// numeric ids is made of their bytes.
pub open spec fn comes_back(a: AttributesView) -> bool {
    &&& encodable(a)
    &&& sizes_agree(a)
    &&& a.owner is Some == a.group is Some
    &&& a.attrib_bits is Some == a.attrib_bits_valid is Some
    &&& lengths_fit(a)
}

/// Attributes without any field come back.
pub proof fn law_no_attributes_come_back()
    ensures
        comes_back(no_attributes()),
{
}

/// Size and permissions, each there or not, come back.
pub proof fn law_size_and_permissions_come_back(size: Option<u64>, permissions: Option<u32>)
    ensures
        comes_back(AttributesView { size, permissions, ..no_attributes() }),
{
}

/// Numeric ids come back.
pub proof fn law_ids_come_back(uid: u32, gid: u32)
    ensures
        comes_back(AttributesView { uid: Some(uid), gid: Some(gid), ..no_attributes() }),
{
}

/// Attributes come back in which what goes together is together, whatever
/// their fields hold, unless there is an allocation size beside numeric ids.
pub proof fn law_fields_that_go_together_come_back(a: AttributesView)
    requires
        encodable(a),
        a.owner is Some == a.group is Some,
        a.attrib_bits is Some == a.attrib_bits_valid is Some,
        lengths_fit(a),
        a.allocation_size is None || a.uid is None,
    ensures
        comes_back(a),
{
}

/// Attributes are read back from their encoding, whatever follows it.
pub proof fn law_attributes_round_trip(a: AttributesView, rest: Seq<u8>)
    requires
        comes_back(a),
    ensures
        decode_attributes(encode_attributes(a) + rest) == Ok::<_, FaultView>((a, rest)),
{
    let mask = field_mask(a);
    let s4 = encode_extras(a) + rest;
    let s3 = encode_bits(a) + s4;
    let s2 = encode_times(a) + s3;
    let s1 = encode_access(a) + s2;
    let s0 = encode_ids(a) + s1;
    lemma_assoc6(
        be32(mask),
        encode_ids(a),
        encode_access(a),
        encode_times(a),
        encode_bits(a),
        encode_extras(a),
        rest,
    );
    law_mask_announces_fields(a);
    law_be32_round_trip(mask, s0);
    lemma_ids(a, mask, s1);
    lemma_access(a, mask, s2);
    lemma_times(a, mask, s3);
    lemma_bits(a, mask, s4);
    lemma_extras(a, mask, rest);
    reveal(parse_fields);
    reveal(encode_attributes);
}

} // verus!
