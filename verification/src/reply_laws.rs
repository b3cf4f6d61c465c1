//! What servers send is what clients get.

use vstd::prelude::*;

use crate::attribute_laws::{comes_back, law_attributes_round_trip, pair_fits};
use crate::attributes::{
    decode_attributes, encode_attributes, pair_fields, AttributesView, FaultView,
};
use crate::constants::{
    SSH_FXP_ATTRS, SSH_FXP_DATA, SSH_FXP_EXTENDED_REPLY, SSH_FXP_HANDLE, SSH_FXP_NAME,
    SSH_FXP_STATUS, SSH_FX_OK,
};
use crate::error::{status_error, ErrorView, IoErrorView};
use crate::protocol::{parse_announcement, parse_extensions, PROTOCOL_VERSION};
use crate::reply::{
    attrs_answer, data_answer, decode_entries, decode_listing, decode_name_list, decode_names,
    extended_answer, first_name_answer, handle_answer, name_answer, readdir_answer,
    status_answer, status_reply, unexpected_reply, Breach,
};
use crate::wire::{
    be32, bytes_field, law_be32_round_trip, law_bytes_field_round_trip,
    law_str_field_round_trip, parse_string, parse_u32, str_field, text_fits, wire_len,
};

verus! {

proof fn lemma_u32(v: u32, rest: Seq<u8>)
    ensures
        parse_u32(be32(v) + rest) == Ok::<_, IoErrorView>((v, rest)),
{
    law_be32_round_trip(v, rest);
}

// The handshake.

/// Version and extensions are read back from a server's announcement.
pub proof fn law_announcement_round_trip(extensions: Seq<(Seq<char>, Seq<char>)>)
    requires
        forall|i: int| 0 <= i < extensions.len() ==> pair_fits(#[trigger] extensions[i]),
    ensures
        parse_announcement(
            be32(PROTOCOL_VERSION) + pair_fields(extensions),
        ) == Ok::<_, IoErrorView>(
            (PROTOCOL_VERSION, extensions),
        ),
{
    lemma_u32(PROTOCOL_VERSION, pair_fields(extensions));
    lemma_extensions(extensions);
}

proof fn lemma_one_extension(
    s: Seq<u8>,
    k: Seq<char>,
    s1: Seq<u8>,
    v: Seq<char>,
    s2: Seq<u8>,
    more: Seq<(Seq<char>, Seq<char>)>,
)
    requires
        parse_string(s, "extension key"@) == Ok::<_, IoErrorView>((k, s1)),
        parse_string(s1, "extension value"@) == Ok::<_, IoErrorView>((v, s2)),
        parse_extensions(s2) == Ok::<_, IoErrorView>(more),
    ensures
        parse_extensions(s) == Ok::<_, IoErrorView>(seq![(k, v)] + more),
{
}

#[verifier::rlimit(40)]
proof fn lemma_extensions(pairs: Seq<(Seq<char>, Seq<char>)>)
    requires
        forall|i: int| 0 <= i < pairs.len() ==> pair_fits(#[trigger] pairs[i]),
    ensures
        parse_extensions(pair_fields(pairs)) == Ok::<_, IoErrorView>(pairs),
    decreases pairs.len(),
{
    if pairs.len() == 0 {
        assert(pairs =~= seq![]);
    } else {
        assert(pair_fits(pairs[0]));
        let k = pairs[0].0;
        let v = pairs[0].1;
        let more = pairs.drop_first();
        let tail = pair_fields(more);
        assert forall|i: int| 0 <= i < more.len() implies pair_fits(#[trigger] more[i]) by {
            assert(more[i] == pairs[i + 1]);
        }
        let s1 = str_field(v) + tail;
        let s = str_field(k) + s1;
        assert(parse_extensions(tail) == Ok::<_, IoErrorView>(more)) by {
            lemma_extensions(more);
        }
        assert(parse_string(s1, "extension value"@) == Ok::<_, IoErrorView>((v, tail))) by {
            law_str_field_round_trip(v, tail, "extension value"@);
        }
        assert(parse_string(s, "extension key"@) == Ok::<_, IoErrorView>((k, s1))) by {
            law_str_field_round_trip(k, s1, "extension key"@);
        }
        assert(pair_fields(pairs) == s) by {
            lemma_assoc(str_field(k), str_field(v), tail);
        }
        lemma_one_extension(s, k, s1, v, tail, more);
        assert(seq![(k, v)] + more =~= pairs);
    }
}

proof fn lemma_assoc(a: Seq<u8>, b: Seq<u8>, c: Seq<u8>)
    ensures
        a + b + c == a + (b + c),
{
    assert(a + b + c =~= a + (b + c));
}

// Status replies.

/// The bytes of a status reply.
pub open spec fn status_bytes(code: u32, message: Seq<char>, lang: Seq<char>) -> Seq<u8> {
    be32(code) + str_field(message) + str_field(lang)
}

/// A status reply reports the status that it was made of, whatever follows it.
pub proof fn law_status_round_trip(code: u32, message: Seq<char>, lang: Seq<char>, rest: Seq<u8>)
    requires
        text_fits(message),
        text_fits(lang),
    ensures
        status_reply(status_bytes(code, message, lang) + rest) == (if code == SSH_FX_OK {
            Ok(())
        } else {
            Err::<(), _>(status_error(code, message, lang))
        }),
{
    let s1 = str_field(lang) + rest;
    let s0 = str_field(message) + s1;
    lemma_assoc(be32(code) + str_field(message), str_field(lang), rest);
    lemma_assoc(be32(code), str_field(message), s1);
    lemma_u32(code, s0);
    law_str_field_round_trip(message, s1, "error message"@);
    law_str_field_round_trip(lang, rest, "lang tag"@);
}

/// The error of a status tells the code, the message and the language tag.
pub proof fn law_status_errors_are_told_apart(
    code: u32,
    message: Seq<char>,
    lang: Seq<char>,
    code2: u32,
    message2: Seq<char>,
    lang2: Seq<char>,
)
    requires
        status_error(code, message, lang) == status_error(code2, message2, lang2),
    ensures
        code == code2,
        message == message2,
        lang == lang2,
{
}

/// A request that the server refuses is answered with the error of its
/// status, whatever was asked for.
pub proof fn law_refusal_reaches_the_caller(
    code: u32,
    message: Seq<char>,
    lang: Seq<char>,
    rest: Seq<u8>,
)
    requires
        code != SSH_FX_OK,
        text_fits(message),
        text_fits(lang),
    ensures
        ({
            let data = status_bytes(code, message, lang) + rest;
            let e = status_error(code, message, lang);
            &&& status_answer(SSH_FXP_STATUS, data) == Err::<(), _>(e)
            &&& handle_answer(SSH_FXP_STATUS, data) == Ok::<_, Breach>(Err::<Seq<u8>, _>(e))
            &&& data_answer(SSH_FXP_STATUS, data) == Ok::<_, Breach>(Err::<Seq<u8>, _>(e))
            &&& attrs_answer(SSH_FXP_STATUS, data) == Ok::<_, Breach>(Err::<AttributesView, _>(e))
            &&& name_answer(SSH_FXP_STATUS, data) == Ok::<_, Breach>(
                Err::<Seq<(Seq<char>, AttributesView)>, _>(e),
            )
            &&& first_name_answer(SSH_FXP_STATUS, data) == Ok::<_, Breach>(Err::<Seq<char>, _>(e))
            &&& readdir_answer(SSH_FXP_STATUS, data) == Ok::<_, Breach>(
                Err::<Seq<(Seq<char>, Seq<char>, AttributesView)>, _>(e),
            )
            &&& extended_answer(SSH_FXP_STATUS, data) == Err::<Option<Seq<u8>>, _>(e)
        }),
{
    law_status_round_trip(code, message, lang, rest);
}

/// A status of success answers the requests that ask for no value, and no
/// others.
pub proof fn law_success_carries_no_value(message: Seq<char>, lang: Seq<char>, rest: Seq<u8>)
    requires
        text_fits(message),
        text_fits(lang),
    ensures
        ({
            let data = status_bytes(SSH_FX_OK, message, lang) + rest;
            &&& status_answer(SSH_FXP_STATUS, data) == Ok::<(), ErrorView>(())
            &&& extended_answer(SSH_FXP_STATUS, data) == Ok::<Option<Seq<u8>>, ErrorView>(None)
            &&& handle_answer(SSH_FXP_STATUS, data) == Err::<Result<Seq<u8>, ErrorView>, _>(
                Breach::OkStatus,
            )
            &&& data_answer(SSH_FXP_STATUS, data) == Err::<Result<Seq<u8>, ErrorView>, _>(
                Breach::OkStatus,
            )
            &&& attrs_answer(SSH_FXP_STATUS, data) == Err::<Result<AttributesView, ErrorView>, _>(
                Breach::OkStatus,
            )
            &&& name_answer(SSH_FXP_STATUS, data) is Err
            &&& readdir_answer(SSH_FXP_STATUS, data) is Err
        }),
{
    law_status_round_trip(SSH_FX_OK, message, lang, rest);
}

/// A reply of a kind that answers no request is an error, and says which kind
/// it was.
pub proof fn law_other_kinds_are_unexpected(cmd: u8, data: Seq<u8>)
    requires
        cmd != SSH_FXP_STATUS,
        cmd != SSH_FXP_HANDLE,
        cmd != SSH_FXP_DATA,
        cmd != SSH_FXP_NAME,
        cmd != SSH_FXP_ATTRS,
        cmd != SSH_FXP_EXTENDED_REPLY,
    ensures
        ({
            let e = unexpected_reply(cmd);
            &&& status_answer(cmd, data) == Err::<(), _>(e)
            &&& handle_answer(cmd, data) == Ok::<_, Breach>(Err::<Seq<u8>, _>(e))
            &&& data_answer(cmd, data) == Ok::<_, Breach>(Err::<Seq<u8>, _>(e))
            &&& attrs_answer(cmd, data) == Ok::<_, Breach>(Err::<AttributesView, _>(e))
            &&& name_answer(cmd, data) == Ok::<_, Breach>(
                Err::<Seq<(Seq<char>, AttributesView)>, _>(e),
            )
            &&& readdir_answer(cmd, data) == Ok::<_, Breach>(
                Err::<Seq<(Seq<char>, Seq<char>, AttributesView)>, _>(e),
            )
            &&& extended_answer(cmd, data) == Err::<Option<Seq<u8>>, _>(e)
        }),
{
}

// Values.

/// A handle, or data, reaches the client as it was sent.
pub proof fn law_bytes_reach_the_caller(b: Seq<u8>, rest: Seq<u8>)
    requires
        b.len() <= u32::MAX,
    ensures
        handle_answer(SSH_FXP_HANDLE, bytes_field(b) + rest) == Ok::<_, Breach>(
            Ok::<_, ErrorView>(b),
        ),
        data_answer(SSH_FXP_DATA, bytes_field(b) + rest) == Ok::<_, Breach>(Ok::<_, ErrorView>(b)),
{
    law_bytes_field_round_trip(b, rest);
}

/// Attributes reach the client as they were sent.
pub proof fn law_attributes_reach_the_caller(a: AttributesView, rest: Seq<u8>)
    requires
        comes_back(a),
    ensures
        attrs_answer(SSH_FXP_ATTRS, encode_attributes(a) + rest) == Ok::<_, Breach>(
            Ok::<_, ErrorView>(a),
        ),
{
    law_attributes_round_trip(a, rest);
}

/// The bytes of names with attributes, one after the other.
pub open spec fn name_fields(names: Seq<(Seq<char>, AttributesView)>) -> Seq<u8>
    decreases names.len(),
{
    if names.len() == 0 {
        seq![]
    } else {
        str_field(names[0].0) + encode_attributes(names[0].1) + name_fields(names.drop_first())
    }
}

/// The bytes of a name reply.
pub open spec fn name_bytes(names: Seq<(Seq<char>, AttributesView)>) -> Seq<u8> {
    be32(wire_len(names.len())) + name_fields(names)
}

/// Whether a name and its attributes come back from their encoding.
pub open spec fn name_comes_back(entry: (Seq<char>, AttributesView)) -> bool {
    text_fits(entry.0) && comes_back(entry.1)
}

proof fn lemma_one_name(
    n: nat,
    s: Seq<u8>,
    name: Seq<char>,
    s1: Seq<u8>,
    a: AttributesView,
    s2: Seq<u8>,
    more: Seq<(Seq<char>, AttributesView)>,
    rest: Seq<u8>,
)
    requires
        parse_string(s, "filename"@) == Ok::<_, IoErrorView>((name, s1)),
        decode_attributes(s1) == Ok::<_, FaultView>((a, s2)),
        decode_names(n, s2) == Ok::<_, FaultView>((more, rest)),
    ensures
        decode_names(n + 1, s) == Ok::<_, FaultView>((seq![(name, a)] + more, rest)),
{
}

proof fn lemma_names(names: Seq<(Seq<char>, AttributesView)>, rest: Seq<u8>)
    requires
        forall|i: int| 0 <= i < names.len() ==> name_comes_back(#[trigger] names[i]),
    ensures
        decode_names(names.len(), name_fields(names) + rest) == Ok::<_, FaultView>((names, rest)),
    decreases names.len(),
{
    if names.len() == 0 {
        assert(name_fields(names) + rest =~= rest);
        assert(names =~= seq![]);
    } else {
        assert(name_comes_back(names[0]));
        let name = names[0].0;
        let a = names[0].1;
        let more = names.drop_first();
        let tail = name_fields(more) + rest;
        let s1 = encode_attributes(a) + tail;
        assert forall|i: int| 0 <= i < more.len() implies name_comes_back(#[trigger] more[i]) by {
            assert(more[i] == names[i + 1]);
        }
        lemma_names(more, rest);
        law_attributes_round_trip(a, tail);
        law_str_field_round_trip(name, s1, "filename"@);
        lemma_assoc(str_field(name) + encode_attributes(a), name_fields(more), rest);
        lemma_assoc(str_field(name), encode_attributes(a), tail);
        lemma_one_name(more.len(), str_field(name) + s1, name, s1, a, tail, more, rest);
        assert(seq![(name, a)] + more =~= names);
    }
}

proof fn lemma_name_list(
    n: u32,
    s: Seq<u8>,
    s1: Seq<u8>,
    names: Seq<(Seq<char>, AttributesView)>,
    rest: Seq<u8>,
)
    requires
        parse_u32(s) == Ok::<_, IoErrorView>((n, s1)),
        decode_names(n as nat, s1) == Ok::<_, FaultView>((names, rest)),
    ensures
        decode_name_list(s) == Ok::<_, FaultView>((names, rest)),
{
}

/// Names are read back from their encoding, in their order, whatever follows
/// it.
pub proof fn law_names_round_trip(names: Seq<(Seq<char>, AttributesView)>, rest: Seq<u8>)
    requires
        names.len() <= u32::MAX,
        forall|i: int| 0 <= i < names.len() ==> name_comes_back(#[trigger] names[i]),
    ensures
        decode_name_list(name_bytes(names) + rest) == Ok::<_, FaultView>((names, rest)),
{
    let n = wire_len(names.len());
    let s = name_fields(names) + rest;
    assert(n as nat == names.len());
    assert(decode_names(n as nat, s) == Ok::<_, FaultView>((names, rest))) by {
        lemma_names(names, rest);
    }
    assert(name_bytes(names) + rest == be32(n) + s) by {
        lemma_assoc(be32(n), name_fields(names), rest);
    }
    assert(parse_u32(be32(n) + s) == Ok::<_, IoErrorView>((n, s))) by {
        lemma_u32(n, s);
    }
    lemma_name_list(n, be32(n) + s, s, names, rest);
}

/// Names reach the client as they were sent, in their order.
pub proof fn law_names_reach_the_caller(names: Seq<(Seq<char>, AttributesView)>, rest: Seq<u8>)
    requires
        names.len() <= u32::MAX,
        forall|i: int| 0 <= i < names.len() ==> name_comes_back(#[trigger] names[i]),
    ensures
        name_answer(SSH_FXP_NAME, name_bytes(names) + rest) == Ok::<_, Breach>(
            Ok::<_, ErrorView>(names),
        ),
        first_name_answer(SSH_FXP_NAME, name_bytes(names) + rest) == (if names.len() > 0 {
            Ok::<_, Breach>(Ok::<_, ErrorView>(names[0].0))
        } else {
            Err(Breach::NoName)
        }),
{
    law_names_round_trip(names, rest);
}

/// The bytes of directory entries, one after the other.
pub open spec fn entry_fields(entries: Seq<(Seq<char>, Seq<char>, AttributesView)>) -> Seq<u8>
    decreases entries.len(),
{
    if entries.len() == 0 {
        seq![]
    } else {
        str_field(entries[0].0) + str_field(entries[0].1) + encode_attributes(entries[0].2)
            + entry_fields(entries.drop_first())
    }
}

/// The bytes of the reply to the reading of a directory.
pub open spec fn listing_bytes(entries: Seq<(Seq<char>, Seq<char>, AttributesView)>) -> Seq<u8> {
    be32(wire_len(entries.len())) + entry_fields(entries)
}

/// Whether a directory entry comes back from its encoding.
pub open spec fn entry_comes_back(entry: (Seq<char>, Seq<char>, AttributesView)) -> bool {
    text_fits(entry.0) && text_fits(entry.1) && comes_back(entry.2)
}

proof fn lemma_one_entry(
    n: nat,
    s: Seq<u8>,
    name: Seq<char>,
    s1: Seq<u8>,
    long: Seq<char>,
    s2: Seq<u8>,
    a: AttributesView,
    s3: Seq<u8>,
    more: Seq<(Seq<char>, Seq<char>, AttributesView)>,
    rest: Seq<u8>,
)
    requires
        parse_string(s, "filename"@) == Ok::<_, IoErrorView>((name, s1)),
        parse_string(s1, "longname"@) == Ok::<_, IoErrorView>((long, s2)),
        decode_attributes(s2) == Ok::<_, FaultView>((a, s3)),
        decode_entries(n, s3) == Ok::<_, FaultView>((more, rest)),
    ensures
        decode_entries(n + 1, s) == Ok::<_, FaultView>((seq![(name, long, a)] + more, rest)),
{
}

proof fn lemma_entries(entries: Seq<(Seq<char>, Seq<char>, AttributesView)>, rest: Seq<u8>)
    requires
        forall|i: int| 0 <= i < entries.len() ==> entry_comes_back(#[trigger] entries[i]),
    ensures
        decode_entries(entries.len(), entry_fields(entries) + rest) == Ok::<_, FaultView>(
            (entries, rest),
        ),
    decreases entries.len(),
{
    if entries.len() == 0 {
        assert(entry_fields(entries) + rest =~= rest);
        assert(entries =~= seq![]);
    } else {
        assert(entry_comes_back(entries[0]));
        let name = entries[0].0;
        let long = entries[0].1;
        let a = entries[0].2;
        let more = entries.drop_first();
        let tail = entry_fields(more) + rest;
        let s2 = encode_attributes(a) + tail;
        let s1 = str_field(long) + s2;
        assert forall|i: int| 0 <= i < more.len() implies entry_comes_back(#[trigger] more[i]) by {
            assert(more[i] == entries[i + 1]);
        }
        lemma_entries(more, rest);
        law_attributes_round_trip(a, tail);
        law_str_field_round_trip(long, s2, "longname"@);
        law_str_field_round_trip(name, s1, "filename"@);
        lemma_assoc(
            str_field(name) + str_field(long) + encode_attributes(a),
            entry_fields(more),
            rest,
        );
        lemma_assoc(str_field(name) + str_field(long), encode_attributes(a), tail);
        lemma_assoc(str_field(name), str_field(long), s2);
        lemma_one_entry(
            more.len(),
            str_field(name) + s1,
            name,
            s1,
            long,
            s2,
            a,
            tail,
            more,
            rest,
        );
        assert(seq![(name, long, a)] + more =~= entries);
    }
}

proof fn lemma_listing(
    n: u32,
    s: Seq<u8>,
    s1: Seq<u8>,
    entries: Seq<(Seq<char>, Seq<char>, AttributesView)>,
    rest: Seq<u8>,
)
    requires
        parse_u32(s) == Ok::<_, IoErrorView>((n, s1)),
        decode_entries(n as nat, s1) == Ok::<_, FaultView>((entries, rest)),
    ensures
        decode_listing(s) == Ok::<_, FaultView>((entries, rest)),
{
}

/// Directory entries are read back from their encoding, in their order,
/// whatever follows it.
pub proof fn law_entries_round_trip(
    entries: Seq<(Seq<char>, Seq<char>, AttributesView)>,
    rest: Seq<u8>,
)
    requires
        entries.len() <= u32::MAX,
        forall|i: int| 0 <= i < entries.len() ==> entry_comes_back(#[trigger] entries[i]),
    ensures
        decode_listing(listing_bytes(entries) + rest) == Ok::<_, FaultView>((entries, rest)),
{
    let n = wire_len(entries.len());
    let s = entry_fields(entries) + rest;
    assert(n as nat == entries.len());
    assert(decode_entries(n as nat, s) == Ok::<_, FaultView>((entries, rest))) by {
        lemma_entries(entries, rest);
    }
    assert(listing_bytes(entries) + rest == be32(n) + s) by {
        lemma_assoc(be32(n), entry_fields(entries), rest);
    }
    assert(parse_u32(be32(n) + s) == Ok::<_, IoErrorView>((n, s))) by {
        lemma_u32(n, s);
    }
    lemma_listing(n, be32(n) + s, s, entries, rest);
}

/// Directory entries reach the client as they were sent, in their order.
pub proof fn law_entries_reach_the_caller(
    entries: Seq<(Seq<char>, Seq<char>, AttributesView)>,
    rest: Seq<u8>,
)
    requires
        entries.len() <= u32::MAX,
        forall|i: int| 0 <= i < entries.len() ==> entry_comes_back(#[trigger] entries[i]),
    ensures
        readdir_answer(SSH_FXP_NAME, listing_bytes(entries) + rest) == Ok::<_, Breach>(
            Ok::<_, ErrorView>(entries),
        ),
{
    law_entries_round_trip(entries, rest);
}

} // verus!
