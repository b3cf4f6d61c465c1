//! File attributes and their encoding.

use vstd::pervasive::unreached;
use vstd::prelude::*;

use crate::constants::{
    SSH_FILEXFER_ATTR_ACCESSTIME, SSH_FILEXFER_ATTR_ACL, SSH_FILEXFER_ATTR_ALLOCATION_SIZE,
    SSH_FILEXFER_ATTR_BITS, SSH_FILEXFER_ATTR_CREATETIME, SSH_FILEXFER_ATTR_CTIME,
    SSH_FILEXFER_ATTR_EXTENDED, SSH_FILEXFER_ATTR_GUESSED_BINARY,
    SSH_FILEXFER_ATTR_GUESSED_TEXT, SSH_FILEXFER_ATTR_KNOWN_BINARY,
    SSH_FILEXFER_ATTR_KNOWN_TEXT, SSH_FILEXFER_ATTR_LINK_COUNT, SSH_FILEXFER_ATTR_MIME_TYPE,
    SSH_FILEXFER_ATTR_MODIFYTIME, SSH_FILEXFER_ATTR_OWNERGROUP, SSH_FILEXFER_ATTR_PERMISSIONS,
    SSH_FILEXFER_ATTR_SIZE, SSH_FILEXFER_ATTR_SUBSECOND_TIMES, SSH_FILEXFER_ATTR_TEXT_HINT,
    SSH_FILEXFER_ATTR_UIDGID, SSH_FILEXFER_ATTR_UNTRANSLATED_NAME,
};
use crate::error::{IoError, IoErrorView};
use crate::types::TextHint;
use crate::wire::{
    announced, be32, be64, bytes_field, left_of, parse_bytes, parse_string, parse_u32,
    parse_u64, parse_u8, put_bytes, put_str, put_u32, put_u64, put_u8, str_field, wire_len,
    Cursor, Parsed,
};

verus! {

broadcast use {crate::wire::lemma_all_is_left, crate::wire::lemma_less_is_left};

/// What is known, or to be set, of a file.
#[derive(Debug, PartialEq, Eq, Clone)]
pub struct Attributes {
    pub size: Option<u64>,
    pub uid: Option<u32>,
    pub gid: Option<u32>,
    pub allocation_size: Option<u64>,
    pub owner: Option<String>,
    pub group: Option<String>,
    pub permissions: Option<u32>,
    pub access_time: Option<(u64, Option<u32>)>,
    pub create_time: Option<(u64, Option<u32>)>,
    pub modify_time: Option<(u64, Option<u32>)>,
    pub ctime: Option<(u64, Option<u32>)>,
    pub acl: Option<Vec<u8>>,
    pub attrib_bits: Option<u32>,
    pub attrib_bits_valid: Option<u32>,
    pub text_hint: Option<TextHint>,
    pub mime_type: Option<String>,
    pub link_count: Option<u32>,
    pub untranslated_name: Option<Vec<u8>>,
    pub extended: Option<Vec<(String, String)>>,
}

/// The contents of [`Attributes`].
pub struct AttributesView {
    pub size: Option<u64>,
    pub uid: Option<u32>,
    pub gid: Option<u32>,
    pub allocation_size: Option<u64>,
    pub owner: Option<Seq<char>>,
    pub group: Option<Seq<char>>,
    pub permissions: Option<u32>,
    pub access_time: Option<(u64, Option<u32>)>,
    pub create_time: Option<(u64, Option<u32>)>,
    pub modify_time: Option<(u64, Option<u32>)>,
    pub ctime: Option<(u64, Option<u32>)>,
    pub acl: Option<Seq<u8>>,
    pub attrib_bits: Option<u32>,
    pub attrib_bits_valid: Option<u32>,
    pub text_hint: Option<TextHint>,
    pub mime_type: Option<Seq<char>>,
    pub link_count: Option<u32>,
    pub untranslated_name: Option<Seq<u8>>,
    pub extended: Option<Seq<(Seq<char>, Seq<char>)>>,
}

/// The text of a string, if there is one.
pub open spec fn opt_text(o: Option<String>) -> Option<Seq<char>> {
    match o {
        Some(s) => Some(s@),
        None => None,
    }
}

/// The bytes of a vector, if there is one.
pub open spec fn opt_bytes(o: Option<Vec<u8>>) -> Option<Seq<u8>> {
    match o {
        Some(b) => Some(b@),
        None => None,
    }
}

/// The texts of a list of pairs.
pub open spec fn pair_texts(v: Seq<(String, String)>) -> Seq<(Seq<char>, Seq<char>)> {
    Seq::new(v.len(), |i: int| (v[i].0@, v[i].1@))
}

/// The texts of a list of pairs, if there is one.
pub open spec fn opt_pairs(o: Option<Vec<(String, String)>>) -> Option<Seq<(
    Seq<char>,
    Seq<char>,
)>> {
    match o {
        Some(v) => Some(pair_texts(v@)),
        None => None,
    }
}

impl View for Attributes {
    type V = AttributesView;

    open spec fn view(&self) -> AttributesView {
        AttributesView {
            size: self.size,
            uid: self.uid,
            gid: self.gid,
            allocation_size: self.allocation_size,
            owner: opt_text(self.owner),
            group: opt_text(self.group),
            permissions: self.permissions,
            access_time: self.access_time,
            create_time: self.create_time,
            modify_time: self.modify_time,
            ctime: self.ctime,
            acl: opt_bytes(self.acl),
            attrib_bits: self.attrib_bits,
            attrib_bits_valid: self.attrib_bits_valid,
            text_hint: self.text_hint,
            mime_type: opt_text(self.mime_type),
            link_count: self.link_count,
            untranslated_name: opt_bytes(self.untranslated_name),
            extended: opt_pairs(self.extended),
        }
    }
}

/// Attributes of which nothing is known.
pub open spec fn no_attributes() -> AttributesView {
    AttributesView {
        size: None,
        uid: None,
        gid: None,
        allocation_size: None,
        owner: None,
        group: None,
        permissions: None,
        access_time: None,
        create_time: None,
        modify_time: None,
        ctime: None,
        acl: None,
        attrib_bits: None,
        attrib_bits_valid: None,
        text_hint: None,
        mime_type: None,
        link_count: None,
        untranslated_name: None,
        extended: None,
    }
}

// The mask and the fields behind it.

/// `bit` where the field is there, nothing where it is not.
pub open spec fn flag(present: bool, bit: u32) -> u32 {
    if present {
        bit
    } else {
        0
    }
}

/// Whether a time carries nanoseconds.
pub open spec fn has_subseconds(time: Option<(u64, Option<u32>)>) -> bool {
    time matches Some(t) && t.1 is Some
}

/// The bits of sizes and numeric ids.
#[verifier::opaque]
pub open spec fn ids_mask(a: AttributesView) -> u32 {
    flag(a.size is Some, SSH_FILEXFER_ATTR_SIZE)
        | flag(a.allocation_size is Some, SSH_FILEXFER_ATTR_ALLOCATION_SIZE)
        | flag(a.uid is Some, SSH_FILEXFER_ATTR_UIDGID)
}

/// The bits of owner, group and permissions.
#[verifier::opaque]
pub open spec fn access_mask(a: AttributesView) -> u32 {
    flag(a.owner is Some || a.group is Some, SSH_FILEXFER_ATTR_OWNERGROUP)
        | flag(a.permissions is Some, SSH_FILEXFER_ATTR_PERMISSIONS)
}

/// The bits of the four times and of their nanoseconds.
#[verifier::opaque]
pub open spec fn times_mask(a: AttributesView) -> u32 {
    flag(has_subseconds(a.access_time), SSH_FILEXFER_ATTR_SUBSECOND_TIMES)
        | flag(a.access_time is Some, SSH_FILEXFER_ATTR_ACCESSTIME)
        | flag(a.create_time is Some, SSH_FILEXFER_ATTR_CREATETIME)
        | flag(a.modify_time is Some, SSH_FILEXFER_ATTR_MODIFYTIME)
        | flag(a.ctime is Some, SSH_FILEXFER_ATTR_CTIME)
}

/// The bits of access control list, attribute bits and text hint.
#[verifier::opaque]
pub open spec fn bits_mask(a: AttributesView) -> u32 {
    flag(a.acl is Some, SSH_FILEXFER_ATTR_ACL)
        | flag(a.attrib_bits is Some || a.attrib_bits_valid is Some, SSH_FILEXFER_ATTR_BITS)
        | flag(a.text_hint is Some, SSH_FILEXFER_ATTR_TEXT_HINT)
}

/// The bits of media type, link count, raw name and extensions.
#[verifier::opaque]
pub open spec fn extras_mask(a: AttributesView) -> u32 {
    flag(a.mime_type is Some, SSH_FILEXFER_ATTR_MIME_TYPE)
        | flag(a.link_count is Some, SSH_FILEXFER_ATTR_LINK_COUNT)
        | flag(a.untranslated_name is Some, SSH_FILEXFER_ATTR_UNTRANSLATED_NAME)
        | flag(a.extended is Some, SSH_FILEXFER_ATTR_EXTENDED)
}

/// The mask that says which fields of `a` follow.
pub open spec fn field_mask(a: AttributesView) -> u32 {
    ids_mask(a) | access_mask(a) | times_mask(a) | bits_mask(a) | extras_mask(a)
}

/// A 32-bit number, if it is there.
pub open spec fn encode_u32(o: Option<u32>) -> Seq<u8> {
    match o {
        Some(v) => be32(v),
        None => seq![],
    }
}

/// A 64-bit number, if it is there.
pub open spec fn encode_u64(o: Option<u64>) -> Seq<u8> {
    match o {
        Some(v) => be64(v),
        None => seq![],
    }
}

/// A time, if it is there: seconds, and nanoseconds if it has them.
pub open spec fn encode_time(o: Option<(u64, Option<u32>)>) -> Seq<u8> {
    match o {
        Some(t) => be64(t.0) + encode_u32(t.1),
        None => seq![],
    }
}

/// A field of text, if it is there.
pub open spec fn encode_text(o: Option<Seq<char>>) -> Seq<u8> {
    match o {
        Some(s) => str_field(s),
        None => seq![],
    }
}

/// A field of bytes, if it is there.
pub open spec fn encode_bytes(o: Option<Seq<u8>>) -> Seq<u8> {
    match o {
        Some(b) => bytes_field(b),
        None => seq![],
    }
}

/// The byte of a text hint, if it is there.
pub open spec fn encode_hint(o: Option<TextHint>) -> Seq<u8> {
    match o {
        Some(h) => seq![h.code()],
        None => seq![],
    }
}

/// Pairs of text fields, one pair after the other.
pub open spec fn pair_fields(pairs: Seq<(Seq<char>, Seq<char>)>) -> Seq<u8>
    decreases pairs.len(),
{
    if pairs.len() == 0 {
        seq![]
    } else {
        str_field(pairs[0].0) + str_field(pairs[0].1) + pair_fields(pairs.drop_first())
    }
}

/// A count and so many pairs, if they are there.
pub open spec fn encode_pairs(o: Option<Seq<(Seq<char>, Seq<char>)>>) -> Seq<u8> {
    match o {
        Some(pairs) => be32(wire_len(pairs.len())) + pair_fields(pairs),
        None => seq![],
    }
}

/// Sizes and numeric ids.
pub open spec fn encode_ids(a: AttributesView) -> Seq<u8> {
    encode_u64(a.size) + encode_u64(a.allocation_size) + encode_u32(a.uid) + encode_u32(a.gid)
}

/// Owner, group and permissions.
pub open spec fn encode_access(a: AttributesView) -> Seq<u8> {
    encode_text(a.owner) + encode_text(a.group) + encode_u32(a.permissions)
}

/// The four times.
pub open spec fn encode_times(a: AttributesView) -> Seq<u8> {
    encode_time(a.access_time) + encode_time(a.create_time) + encode_time(a.modify_time)
        + encode_time(a.ctime)
}

/// Access control list, attribute bits and text hint.
pub open spec fn encode_bits(a: AttributesView) -> Seq<u8> {
    encode_bytes(a.acl) + encode_u32(a.attrib_bits) + encode_u32(a.attrib_bits_valid)
        + encode_hint(a.text_hint)
}

/// Media type, link count, raw name and extensions.
pub open spec fn encode_extras(a: AttributesView) -> Seq<u8> {
    encode_text(a.mime_type) + encode_u32(a.link_count) + encode_bytes(a.untranslated_name)
        + encode_pairs(a.extended)
}

/// The bytes of attributes: the mask, then the fields that are there.
#[verifier::opaque]
pub open spec fn encode_attributes(a: AttributesView) -> Seq<u8> {
    be32(field_mask(a)) + encode_ids(a) + encode_access(a) + encode_times(a) + encode_bits(a)
        + encode_extras(a)
}

/// Whether a time, if it is there, carries nanoseconds just when `sub` says.
pub open spec fn subseconds_agree(time: Option<(u64, Option<u32>)>, sub: bool) -> bool {
    time matches Some(t) ==> t.1 is Some == sub
}

/// Attributes that can be encoded: user and group id go together, and all
/// times carry nanoseconds just when the access time does.
pub open spec fn encodable(a: AttributesView) -> bool {
    let sub = has_subseconds(a.access_time);
    &&& a.uid is Some == a.gid is Some
    &&& subseconds_agree(a.create_time, sub)
    &&& subseconds_agree(a.modify_time, sub)
    &&& subseconds_agree(a.ctime, sub)
}

fn put_opt_u32(buf: &mut Vec<u8>, o: Option<u32>)
    ensures
        final(buf)@ == old(buf)@ + encode_u32(o),
{
    if let Some(v) = o {
        put_u32(buf, v);
    } else {
        assert(buf@ =~= buf@ + encode_u32(o));
    }
}

fn put_opt_u64(buf: &mut Vec<u8>, o: Option<u64>)
    ensures
        final(buf)@ == old(buf)@ + encode_u64(o),
{
    if let Some(v) = o {
        put_u64(buf, v);
    } else {
        assert(buf@ =~= buf@ + encode_u64(o));
    }
}

fn put_opt_time(buf: &mut Vec<u8>, o: Option<(u64, Option<u32>)>)
    ensures
        final(buf)@ == old(buf)@ + encode_time(o),
{
    let ghost before = buf@;
    if let Some(t) = o {
        put_u64(buf, t.0);
        put_opt_u32(buf, t.1);
    }
    assert(buf@ =~= before + encode_time(o));
}

fn put_opt_text(buf: &mut Vec<u8>, o: &Option<String>)
    ensures
        final(buf)@ == old(buf)@ + encode_text(opt_text(*o)),
{
    if let Some(s) = o {
        put_str(buf, s.as_str());
    } else {
        assert(buf@ =~= buf@ + encode_text(opt_text(*o)));
    }
}

fn put_opt_bytes(buf: &mut Vec<u8>, o: &Option<Vec<u8>>)
    ensures
        final(buf)@ == old(buf)@ + encode_bytes(opt_bytes(*o)),
{
    if let Some(b) = o {
        put_bytes(buf, b.as_slice());
    } else {
        assert(buf@ =~= buf@ + encode_bytes(opt_bytes(*o)));
    }
}

fn put_opt_hint(buf: &mut Vec<u8>, o: Option<TextHint>)
    ensures
        final(buf)@ == old(buf)@ + encode_hint(o),
{
    let ghost before = buf@;
    if let Some(h) = o {
        put_u8(buf, u8::from(h));
    }
    assert(buf@ =~= before + encode_hint(o));
}

fn put_opt_pairs(buf: &mut Vec<u8>, o: &Option<Vec<(String, String)>>)
    ensures
        final(buf)@ == old(buf)@ + encode_pairs(opt_pairs(*o)),
{
    let ghost before = buf@;
    if let Some(v) = o {
        let ghost pairs = pair_texts(v@);
        put_u32(buf, announced(v.len()));
        let ghost head = buf@;
        let mut i: usize = 0;
        assert(pairs.skip(0) =~= pairs);
        while i < v.len()
            invariant
                i <= v@.len(),
                pairs == pair_texts(v@),
                buf@ + pair_fields(pairs.skip(i as int)) == head + pair_fields(pairs),
            decreases v@.len() - i,
        {
            let ghost at = buf@;
            let ghost left = pairs.skip(i as int);
            put_str(buf, v[i].0.as_str());
            put_str(buf, v[i].1.as_str());
            i += 1;
            proof {
                assert(left.drop_first() =~= pairs.skip(i as int));
                assert(buf@ + pair_fields(pairs.skip(i as int)) =~= at + pair_fields(left));
            }
        }
        assert(buf@ =~= buf@ + pair_fields(pairs.skip(i as int)));
        assert(buf@ =~= before + encode_pairs(opt_pairs(*o)));
    } else {
        assert(buf@ =~= before + encode_pairs(opt_pairs(*o)));
    }
}

fn flag_of(present: bool, bit: u32) -> (m: u32)
    ensures
        m == flag(present, bit),
{
    if present {
        bit
    } else {
        0
    }
}

fn time_agrees(time: Option<(u64, Option<u32>)>, sub: bool) -> (r: bool)
    ensures
        r == subseconds_agree(time, sub),
{
    match time {
        Some(t) => t.1.is_some() == sub,
        None => true,
    }
}

impl Default for Attributes {
    fn default() -> (a: Attributes)
        ensures
            a@ == no_attributes(),
    {
        Attributes {
            size: None,
            uid: None,
            gid: None,
            allocation_size: None,
            owner: None,
            group: None,
            permissions: None,
            access_time: None,
            create_time: None,
            modify_time: None,
            ctime: None,
            acl: None,
            attrib_bits: None,
            attrib_bits_valid: None,
            text_hint: None,
            mime_type: None,
            link_count: None,
            untranslated_name: None,
            extended: None,
        }
    }
}

impl Attributes {
    /// Attributes of which nothing is known.
    pub fn new() -> (a: Attributes)
        ensures
            a@ == no_attributes(),
    {
        Attributes::default()
    }

    fn mask(&self) -> (m: u32)
        ensures
            m == field_mask(self@),
    {
        reveal(ids_mask);
        reveal(access_mask);
        reveal(times_mask);
        reveal(bits_mask);
        reveal(extras_mask);
        let sub = match self.access_time {
            Some(t) => t.1.is_some(),
            None => false,
        };
        let owned = self.owner.is_some() || self.group.is_some();
        let words = self.attrib_bits.is_some() || self.attrib_bits_valid.is_some();
        let ids: u32 = flag_of(self.size.is_some(), SSH_FILEXFER_ATTR_SIZE)
            | flag_of(self.allocation_size.is_some(), SSH_FILEXFER_ATTR_ALLOCATION_SIZE)
            | flag_of(self.uid.is_some(), SSH_FILEXFER_ATTR_UIDGID);
        let access: u32 = flag_of(owned, SSH_FILEXFER_ATTR_OWNERGROUP)
            | flag_of(self.permissions.is_some(), SSH_FILEXFER_ATTR_PERMISSIONS);
        let times: u32 = flag_of(sub, SSH_FILEXFER_ATTR_SUBSECOND_TIMES)
            | flag_of(self.access_time.is_some(), SSH_FILEXFER_ATTR_ACCESSTIME)
            | flag_of(self.create_time.is_some(), SSH_FILEXFER_ATTR_CREATETIME)
            | flag_of(self.modify_time.is_some(), SSH_FILEXFER_ATTR_MODIFYTIME)
            | flag_of(self.ctime.is_some(), SSH_FILEXFER_ATTR_CTIME);
        let bits: u32 = flag_of(self.acl.is_some(), SSH_FILEXFER_ATTR_ACL)
            | flag_of(words, SSH_FILEXFER_ATTR_BITS)
            | flag_of(self.text_hint.is_some(), SSH_FILEXFER_ATTR_TEXT_HINT);
        let extras: u32 = flag_of(self.mime_type.is_some(), SSH_FILEXFER_ATTR_MIME_TYPE)
            | flag_of(self.link_count.is_some(), SSH_FILEXFER_ATTR_LINK_COUNT)
            | flag_of(self.untranslated_name.is_some(), SSH_FILEXFER_ATTR_UNTRANSLATED_NAME)
            | flag_of(self.extended.is_some(), SSH_FILEXFER_ATTR_EXTENDED);
        ids | access | times | bits | extras
    }

    fn put_ids(&self, buf: &mut Vec<u8>)
        ensures
            final(buf)@ == old(buf)@ + encode_ids(self@),
    {
        let ghost before = buf@;
        put_opt_u64(buf, self.size);
        put_opt_u64(buf, self.allocation_size);
        put_opt_u32(buf, self.uid);
        put_opt_u32(buf, self.gid);
        assert(buf@ =~= before + encode_ids(self@));
    }

    fn put_access(&self, buf: &mut Vec<u8>)
        ensures
            final(buf)@ == old(buf)@ + encode_access(self@),
    {
        let ghost before = buf@;
        put_opt_text(buf, &self.owner);
        put_opt_text(buf, &self.group);
        put_opt_u32(buf, self.permissions);
        assert(buf@ =~= before + encode_access(self@));
    }

    fn put_times(&self, buf: &mut Vec<u8>)
        ensures
            final(buf)@ == old(buf)@ + encode_times(self@),
    {
        let ghost before = buf@;
        put_opt_time(buf, self.access_time);
        put_opt_time(buf, self.create_time);
        put_opt_time(buf, self.modify_time);
        put_opt_time(buf, self.ctime);
        assert(buf@ =~= before + encode_times(self@));
    }

    fn put_bits(&self, buf: &mut Vec<u8>)
        ensures
            final(buf)@ == old(buf)@ + encode_bits(self@),
    {
        let ghost before = buf@;
        put_opt_bytes(buf, &self.acl);
        put_opt_u32(buf, self.attrib_bits);
        put_opt_u32(buf, self.attrib_bits_valid);
        put_opt_hint(buf, self.text_hint);
        assert(buf@ =~= before + encode_bits(self@));
    }

    fn put_extras(&self, buf: &mut Vec<u8>)
        ensures
            final(buf)@ == old(buf)@ + encode_extras(self@),
    {
        let ghost before = buf@;
        put_opt_text(buf, &self.mime_type);
        put_opt_u32(buf, self.link_count);
        put_opt_bytes(buf, &self.untranslated_name);
        put_opt_pairs(buf, &self.extended);
        assert(buf@ =~= before + encode_extras(self@));
    }

    /// Whether these attributes can be encoded.
    pub fn is_encodable(&self) -> (r: bool)
        ensures
            r == encodable(self@),
    {
        let sub = match self.access_time {
            Some(t) => t.1.is_some(),
            None => false,
        };
        self.uid.is_some() == self.gid.is_some() && time_agrees(self.create_time, sub)
            && time_agrees(self.modify_time, sub) && time_agrees(self.ctime, sub)
    }

    /// The bytes of these attributes.
    pub fn serialize(&self) -> (r: Result<Vec<u8>, IoError>)
        requires
            encodable(self@),
        ensures
            r matches Ok(bytes) && bytes@ == encode_attributes(self@),
    {
        reveal(encode_attributes);
        let mut buf = Vec::new();
        put_u32(&mut buf, self.mask());
        assert(buf@ =~= be32(field_mask(self@)));
        self.put_ids(&mut buf);
        self.put_access(&mut buf);
        self.put_times(&mut buf);
        self.put_bits(&mut buf);
        self.put_extras(&mut buf);
        Ok(buf)
    }
}

// Reading the fields back.

/// Whether `mask` announces the fields of `bit`.
pub open spec fn announces(mask: u32, bit: u32) -> bool {
    mask & bit != 0
}

/// A byte, where it is announced.
pub open spec fn parse_if_u8(present: bool, s: Seq<u8>) -> Parsed<Option<u8>> {
    if present {
        match parse_u8(s) {
            Ok((v, rest)) => Ok((Some(v), rest)),
            Err(e) => Err(e),
        }
    } else {
        Ok((None, s))
    }
}

/// A 32-bit number, where it is announced.
pub open spec fn parse_if_u32(present: bool, s: Seq<u8>) -> Parsed<Option<u32>> {
    if present {
        match parse_u32(s) {
            Ok((v, rest)) => Ok((Some(v), rest)),
            Err(e) => Err(e),
        }
    } else {
        Ok((None, s))
    }
}

/// A 64-bit number, where it is announced.
pub open spec fn parse_if_u64(present: bool, s: Seq<u8>) -> Parsed<Option<u64>> {
    if present {
        match parse_u64(s) {
            Ok((v, rest)) => Ok((Some(v), rest)),
            Err(e) => Err(e),
        }
    } else {
        Ok((None, s))
    }
}

/// A field of bytes, where it is announced.
pub open spec fn parse_if_bytes(present: bool, s: Seq<u8>) -> Parsed<Option<Seq<u8>>> {
    if present {
        match parse_bytes(s) {
            Ok((v, rest)) => Ok((Some(v), rest)),
            Err(e) => Err(e),
        }
    } else {
        Ok((None, s))
    }
}

/// A field of text, where it is announced.
pub open spec fn parse_if_text(
    present: bool,
    s: Seq<u8>,
    what: Seq<char>,
) -> Parsed<Option<Seq<char>>> {
    if present {
        match parse_string(s, what) {
            Ok((v, rest)) => Ok((Some(v), rest)),
            Err(e) => Err(e),
        }
    } else {
        Ok((None, s))
    }
}

/// A time: seconds, and nanoseconds where `sub` says so.
pub open spec fn parse_time(s: Seq<u8>, sub: bool) -> Parsed<(u64, Option<u32>)> {
    match parse_u64(s) {
        Err(e) => Err(e),
        Ok((secs, s)) => match parse_if_u32(sub, s) {
            Err(e) => Err(e),
            Ok((ns, s)) => Ok(((secs, ns), s)),
        },
    }
}

/// A time, where it is announced.
pub open spec fn parse_if_time(present: bool, s: Seq<u8>, sub: bool) -> Parsed<Option<(
    u64,
    Option<u32>,
)>> {
    if present {
        match parse_time(s, sub) {
            Ok((v, rest)) => Ok((Some(v), rest)),
            Err(e) => Err(e),
        }
    } else {
        Ok((None, s))
    }
}

/// So many pairs of text fields.
pub open spec fn parse_pairs(n: nat, s: Seq<u8>) -> Parsed<Seq<(Seq<char>, Seq<char>)>>
    decreases n,
{
    if n == 0 {
        Ok((seq![], s))
    } else {
        match parse_string(s, "extended key"@) {
            Err(e) => Err(e),
            Ok((k, s)) => match parse_string(s, "extended value"@) {
                Err(e) => Err(e),
                Ok((v, s)) => match parse_pairs((n - 1) as nat, s) {
                    Err(e) => Err(e),
                    Ok((pairs, s)) => Ok((seq![(k, v)] + pairs, s)),
                },
            },
        }
    }
}

/// A count, then so many pairs.
pub open spec fn parse_counted_pairs(s: Seq<u8>) -> Parsed<Seq<(Seq<char>, Seq<char>)>> {
    match parse_u32(s) {
        Err(e) => Err(e),
        Ok((n, s)) => parse_pairs(n as nat, s),
    }
}

/// Pairs of text fields, where they are announced.
pub open spec fn parse_if_pairs(present: bool, s: Seq<u8>) -> Parsed<Option<Seq<(
    Seq<char>,
    Seq<char>,
)>>> {
    if present {
        match parse_counted_pairs(s) {
            Ok((v, rest)) => Ok((Some(v), rest)),
            Err(e) => Err(e),
        }
    } else {
        Ok((None, s))
    }
}

/// Sizes and numeric ids, as they are read.
pub struct IdFields {
    pub size: Option<u64>,
    pub uid: Option<u32>,
    pub gid: Option<u32>,
    pub allocation_size: Option<u64>,
}

/// Sizes and numeric ids: the allocation size comes last.
pub open spec fn parse_ids(mask: u32, s: Seq<u8>) -> Parsed<IdFields> {
    match parse_if_u64(announces(mask, SSH_FILEXFER_ATTR_SIZE), s) {
        Err(e) => Err(e),
        Ok((size, s)) => match parse_if_u32(announces(mask, SSH_FILEXFER_ATTR_UIDGID), s) {
            Err(e) => Err(e),
            Ok((uid, s)) => match parse_if_u32(announces(mask, SSH_FILEXFER_ATTR_UIDGID), s) {
                Err(e) => Err(e),
                Ok((gid, s)) => match parse_if_u64(
                    announces(mask, SSH_FILEXFER_ATTR_ALLOCATION_SIZE),
                    s,
                ) {
                    Err(e) => Err(e),
                    Ok((allocation_size, s)) => Ok(
                        (IdFields { size, uid, gid, allocation_size }, s),
                    ),
                },
            },
        },
    }
}

/// Owner, group and permissions, as they are read.
pub struct AccessFields {
    pub owner: Option<Seq<char>>,
    pub group: Option<Seq<char>>,
    pub permissions: Option<u32>,
}

/// Owner, group and permissions.
pub open spec fn parse_access(mask: u32, s: Seq<u8>) -> Parsed<AccessFields> {
    match parse_if_text(announces(mask, SSH_FILEXFER_ATTR_OWNERGROUP), s, "owner"@) {
        Err(e) => Err(e),
        Ok((owner, s)) => match parse_if_text(
            announces(mask, SSH_FILEXFER_ATTR_OWNERGROUP),
            s,
            "group"@,
        ) {
            Err(e) => Err(e),
            Ok((group, s)) => match parse_if_u32(
                announces(mask, SSH_FILEXFER_ATTR_PERMISSIONS),
                s,
            ) {
                Err(e) => Err(e),
                Ok((permissions, s)) => Ok((AccessFields { owner, group, permissions }, s)),
            },
        },
    }
}

/// The four times, as they are read.
pub struct TimeFields {
    pub access_time: Option<(u64, Option<u32>)>,
    pub create_time: Option<(u64, Option<u32>)>,
    pub modify_time: Option<(u64, Option<u32>)>,
    pub ctime: Option<(u64, Option<u32>)>,
}

/// The four times.
pub open spec fn parse_times(mask: u32, s: Seq<u8>) -> Parsed<TimeFields> {
    let sub = announces(mask, SSH_FILEXFER_ATTR_SUBSECOND_TIMES);
    match parse_if_time(announces(mask, SSH_FILEXFER_ATTR_ACCESSTIME), s, sub) {
        Err(e) => Err(e),
        Ok((access_time, s)) => match parse_if_time(
            announces(mask, SSH_FILEXFER_ATTR_CREATETIME),
            s,
            sub,
        ) {
            Err(e) => Err(e),
            Ok((create_time, s)) => match parse_if_time(
                announces(mask, SSH_FILEXFER_ATTR_MODIFYTIME),
                s,
                sub,
            ) {
                Err(e) => Err(e),
                Ok((modify_time, s)) => match parse_if_time(
                    announces(mask, SSH_FILEXFER_ATTR_CTIME),
                    s,
                    sub,
                ) {
                    Err(e) => Err(e),
                    Ok((ctime, s)) => Ok(
                        (TimeFields { access_time, create_time, modify_time, ctime }, s),
                    ),
                },
            },
        },
    }
}

/// Access control list, attribute bits and text hint, as they are read.
pub struct BitFields {
    pub acl: Option<Seq<u8>>,
    pub attrib_bits: Option<u32>,
    pub attrib_bits_valid: Option<u32>,
    pub hint: Option<u8>,
}

/// Access control list, attribute bits and the byte of the text hint.
pub open spec fn parse_bits(mask: u32, s: Seq<u8>) -> Parsed<BitFields> {
    match parse_if_bytes(announces(mask, SSH_FILEXFER_ATTR_ACL), s) {
        Err(e) => Err(e),
        Ok((acl, s)) => match parse_if_u32(announces(mask, SSH_FILEXFER_ATTR_BITS), s) {
            Err(e) => Err(e),
            Ok((attrib_bits, s)) => match parse_if_u32(announces(mask, SSH_FILEXFER_ATTR_BITS), s) {
                Err(e) => Err(e),
                Ok((attrib_bits_valid, s)) => match parse_if_u8(
                    announces(mask, SSH_FILEXFER_ATTR_TEXT_HINT),
                    s,
                ) {
                    Err(e) => Err(e),
                    Ok((hint, s)) => Ok(
                        (BitFields { acl, attrib_bits, attrib_bits_valid, hint }, s),
                    ),
                },
            },
        },
    }
}

/// Media type, link count, raw name and extensions, as they are read.
pub struct ExtraFields {
    pub mime_type: Option<Seq<char>>,
    pub link_count: Option<u32>,
    pub untranslated_name: Option<Seq<u8>>,
    pub extended: Option<Seq<(Seq<char>, Seq<char>)>>,
}

/// Media type, link count, raw name and extensions.
pub open spec fn parse_extras(mask: u32, s: Seq<u8>) -> Parsed<ExtraFields> {
    match parse_if_text(announces(mask, SSH_FILEXFER_ATTR_MIME_TYPE), s, "mime type"@) {
        Err(e) => Err(e),
        Ok((mime_type, s)) => match parse_if_u32(announces(mask, SSH_FILEXFER_ATTR_LINK_COUNT), s) {
            Err(e) => Err(e),
            Ok((link_count, s)) => match parse_if_bytes(
                announces(mask, SSH_FILEXFER_ATTR_UNTRANSLATED_NAME),
                s,
            ) {
                Err(e) => Err(e),
                Ok((untranslated_name, s)) => match parse_if_pairs(
                    announces(mask, SSH_FILEXFER_ATTR_EXTENDED),
                    s,
                ) {
                    Err(e) => Err(e),
                    Ok((extended, s)) => Ok(
                        (ExtraFields { mime_type, link_count, untranslated_name, extended }, s),
                    ),
                },
            },
        },
    }
}

/// All fields, the text hint still as a byte.
#[verifier::opaque]
pub open spec fn parse_fields(s: Seq<u8>) -> Parsed<(AttributesView, Option<u8>)> {
    match parse_u32(s) {
        Err(e) => Err(e),
        Ok((mask, s)) => match parse_ids(mask, s) {
            Err(e) => Err(e),
            Ok((ids, s)) => match parse_access(mask, s) {
                Err(e) => Err(e),
                Ok((access, s)) => match parse_times(mask, s) {
                    Err(e) => Err(e),
                    Ok((times, s)) => match parse_bits(mask, s) {
                        Err(e) => Err(e),
                        Ok((bits, s)) => match parse_extras(mask, s) {
                            Err(e) => Err(e),
                            Ok((extras, s)) => Ok(
                                ((gathered(ids, access, times, bits, extras), bits.hint), s),
                            ),
                        },
                    },
                },
            },
        },
    }
}

/// The attributes made of the fields that were read, but for the text hint.
pub open spec fn gathered(
    ids: IdFields,
    access: AccessFields,
    times: TimeFields,
    bits: BitFields,
    extras: ExtraFields,
) -> AttributesView {
    AttributesView {
        size: ids.size,
        uid: ids.uid,
        gid: ids.gid,
        allocation_size: ids.allocation_size,
        owner: access.owner,
        group: access.group,
        permissions: access.permissions,
        access_time: times.access_time,
        create_time: times.create_time,
        modify_time: times.modify_time,
        ctime: times.ctime,
        acl: bits.acl,
        attrib_bits: bits.attrib_bits,
        attrib_bits_valid: bits.attrib_bits_valid,
        text_hint: None,
        mime_type: extras.mime_type,
        link_count: extras.link_count,
        untranslated_name: extras.untranslated_name,
        extended: extras.extended,
    }
}

/// Why attributes cannot be decoded.
#[derive(Debug)]
pub enum Fault {
    /// The bytes end too early, or hold text that is not UTF-8.
    Io(IoError),
    /// The byte of the text hint stands for no hint.
    TextHint,
}

/// The contents of a [`Fault`].
pub enum FaultView {
    Io(IoErrorView),
    TextHint,
}

impl View for Fault {
    type V = FaultView;

    open spec fn view(&self) -> FaultView {
        match self {
            Fault::Io(e) => FaultView::Io(e@),
            Fault::TextHint => FaultView::TextHint,
        }
    }
}

/// What decoding something off the front of some bytes gives.
pub type Decoded<T> = Result<(T, Seq<u8>), FaultView>;

/// The hint of a byte.
pub open spec fn hint_of(code: u8) -> TextHint
    recommends
        code <= SSH_FILEXFER_ATTR_GUESSED_BINARY,
{
    match code {
        SSH_FILEXFER_ATTR_KNOWN_TEXT => TextHint::KnownText,
        SSH_FILEXFER_ATTR_GUESSED_TEXT => TextHint::GuessedText,
        SSH_FILEXFER_ATTR_KNOWN_BINARY => TextHint::KnownBinary,
        _ => TextHint::GuessedBinary,
    }
}

/// The attributes that begin `s`. The text hint is looked at last, when all
/// fields have been read.
pub open spec fn decode_attributes(s: Seq<u8>) -> Decoded<AttributesView> {
    match parse_fields(s) {
        Err(e) => Err(FaultView::Io(e)),
        Ok(((a, hint), s)) => match hint {
            None => Ok((a, s)),
            Some(code) => if code <= SSH_FILEXFER_ATTR_GUESSED_BINARY {
                Ok((AttributesView { text_hint: Some(hint_of(code)), ..a }, s))
            } else {
                Err(FaultView::TextHint)
            },
        },
    }
}

fn read_if_u8(c: &mut Cursor, present: bool) -> (r: Result<Option<u8>, IoError>)
    ensures
        match parse_if_u8(present, old(c)@) {
            Ok((v, rest)) => r matches Ok(w) && w == v && final(c)@ == rest,
            Err(e) => r matches Err(f) && f@ == e,
        },
        left_of(final(c)@, old(c)@),
{
    if present {
        match c.read_u8() {
            Ok(v) => Ok(Some(v)),
            Err(e) => Err(e),
        }
    } else {
        Ok(None)
    }
}

fn read_if_u32(c: &mut Cursor, present: bool) -> (r: Result<Option<u32>, IoError>)
    ensures
        match parse_if_u32(present, old(c)@) {
            Ok((v, rest)) => r matches Ok(w) && w == v && final(c)@ == rest,
            Err(e) => r matches Err(f) && f@ == e,
        },
        left_of(final(c)@, old(c)@),
{
    if present {
        match c.read_u32() {
            Ok(v) => Ok(Some(v)),
            Err(e) => Err(e),
        }
    } else {
        Ok(None)
    }
}

fn read_if_u64(c: &mut Cursor, present: bool) -> (r: Result<Option<u64>, IoError>)
    ensures
        match parse_if_u64(present, old(c)@) {
            Ok((v, rest)) => r matches Ok(w) && w == v && final(c)@ == rest,
            Err(e) => r matches Err(f) && f@ == e,
        },
        left_of(final(c)@, old(c)@),
{
    if present {
        match c.read_u64() {
            Ok(v) => Ok(Some(v)),
            Err(e) => Err(e),
        }
    } else {
        Ok(None)
    }
}

fn read_if_bytes(c: &mut Cursor, present: bool) -> (r: Result<Option<Vec<u8>>, IoError>)
    ensures
        match parse_if_bytes(present, old(c)@) {
            Ok((v, rest)) => r matches Ok(w) && opt_bytes(w) == v && final(c)@ == rest,
            Err(e) => r matches Err(f) && f@ == e,
        },
        left_of(final(c)@, old(c)@),
{
    if present {
        match c.read_bytes() {
            Ok(v) => Ok(Some(v)),
            Err(e) => Err(e),
        }
    } else {
        Ok(None)
    }
}

fn read_if_text(c: &mut Cursor, present: bool, what: &str) -> (r: Result<Option<String>, IoError>)
    ensures
        match parse_if_text(present, old(c)@, what@) {
            Ok((v, rest)) => r matches Ok(w) && opt_text(w) == v && final(c)@ == rest,
            Err(e) => r matches Err(f) && f@ == e,
        },
        left_of(final(c)@, old(c)@),
{
    if present {
        match c.read_string(what) {
            Ok(v) => Ok(Some(v)),
            Err(e) => Err(e),
        }
    } else {
        Ok(None)
    }
}

fn read_time(c: &mut Cursor, sub: bool) -> (r: Result<(u64, Option<u32>), IoError>)
    ensures
        match parse_time(old(c)@, sub) {
            Ok((v, rest)) => r matches Ok(w) && w == v && final(c)@ == rest,
            Err(e) => r matches Err(f) && f@ == e,
        },
        left_of(final(c)@, old(c)@),
{
    match c.read_u64() {
        Ok(secs) => match read_if_u32(c, sub) {
            Ok(ns) => Ok((secs, ns)),
            Err(e) => Err(e),
        },
        Err(e) => Err(e),
    }
}

fn read_if_time(c: &mut Cursor, present: bool, sub: bool) -> (r: Result<
    Option<(u64, Option<u32>)>,
    IoError,
>)
    ensures
        match parse_if_time(present, old(c)@, sub) {
            Ok((v, rest)) => r matches Ok(w) && w == v && final(c)@ == rest,
            Err(e) => r matches Err(f) && f@ == e,
        },
        left_of(final(c)@, old(c)@),
{
    if present {
        match read_time(c, sub) {
            Ok(v) => Ok(Some(v)),
            Err(e) => Err(e),
        }
    } else {
        Ok(None)
    }
}

fn read_pairs(c: &mut Cursor) -> (r: Result<Vec<(String, String)>, IoError>)
    ensures
        match parse_counted_pairs(old(c)@) {
            Ok((v, rest)) => r matches Ok(w) && pair_texts(w@) == v && final(c)@ == rest,
            Err(e) => r matches Err(f) && f@ == e,
        },
        left_of(final(c)@, old(c)@),
{
    let n = match c.read_u32() {
        Ok(n) => n,
        Err(e) => return Err(e),
    };
    let ghost start = c@;
    let mut pairs: Vec<(String, String)> = Vec::new();
    let mut i: u32 = 0;
    assert(parse_pairs(n as nat, start) matches Ok((v, _)) ==> pair_texts(pairs@) + v =~= v);
    while i < n
        invariant
            i <= n,
            left_of(c@, old(c)@),
            parse_counted_pairs(old(c)@) == parse_pairs(n as nat, start),
            match parse_pairs((n - i) as nat, c@) {
                Ok((v, rest)) => parse_pairs(n as nat, start) == Ok::<_, IoErrorView>(
                    (pair_texts(pairs@) + v, rest),
                ),
                Err(e) => parse_pairs(n as nat, start) == Err::<(
                    Seq<(Seq<char>, Seq<char>)>,
                    Seq<u8>,
                ), _>(e),
            },
        decreases n - i,
    {
        let ghost before = pairs@;
        let k = match c.read_string("extended key") {
            Ok(k) => k,
            Err(e) => return Err(e),
        };
        let v = match c.read_string("extended value") {
            Ok(v) => v,
            Err(e) => return Err(e),
        };
        pairs.push((k, v));
        i += 1;
        proof {
            if let Ok((more, rest)) = parse_pairs((n - i) as nat, c@) {
                assert(pair_texts(pairs@) + more =~= pair_texts(before) + (seq![(k@, v@)] + more));
            }
        }
    }
    assert(pair_texts(pairs@) =~= pair_texts(pairs@) + Seq::<(Seq<char>, Seq<char>)>::empty());
    Ok(pairs)
}

fn read_if_pairs(c: &mut Cursor, present: bool) -> (r: Result<
    Option<Vec<(String, String)>>,
    IoError,
>)
    ensures
        match parse_if_pairs(present, old(c)@) {
            Ok((v, rest)) => r matches Ok(w) && opt_pairs(w) == v && final(c)@ == rest,
            Err(e) => r matches Err(f) && f@ == e,
        },
        left_of(final(c)@, old(c)@),
{
    if present {
        match read_pairs(c) {
            Ok(v) => Ok(Some(v)),
            Err(e) => Err(e),
        }
    } else {
        Ok(None)
    }
}

/// Whether `mask` announces the fields of `bit`.
fn announces_field(mask: u32, bit: u32) -> (b: bool)
    ensures
        b == announces(mask, bit),
{
    mask & bit != 0
}

fn read_ids(c: &mut Cursor, mask: u32) -> (r: Result<
    (Option<u64>, Option<u32>, Option<u32>, Option<u64>),
    IoError,
>)
    ensures
        match parse_ids(mask, old(c)@) {
            Ok((v, rest)) => {
                &&& r matches Ok(w)
                &&& w.0 == v.size
                &&& w.1 == v.uid
                &&& w.2 == v.gid
                &&& w.3 == v.allocation_size
                &&& final(c)@ == rest
            },
            Err(e) => r matches Err(f) && f@ == e,
        },
        left_of(final(c)@, old(c)@),
{
    let size = match read_if_u64(c, announces_field(mask, SSH_FILEXFER_ATTR_SIZE)) {
        Ok(v) => v,
        Err(e) => return Err(e),
    };
    let uid = match read_if_u32(c, announces_field(mask, SSH_FILEXFER_ATTR_UIDGID)) {
        Ok(v) => v,
        Err(e) => return Err(e),
    };
    let gid = match read_if_u32(c, announces_field(mask, SSH_FILEXFER_ATTR_UIDGID)) {
        Ok(v) => v,
        Err(e) => return Err(e),
    };
    let allocation_size = match read_if_u64(
        c,
        announces_field(mask, SSH_FILEXFER_ATTR_ALLOCATION_SIZE),
    ) {
        Ok(v) => v,
        Err(e) => return Err(e),
    };
    Ok((size, uid, gid, allocation_size))
}

fn read_access(c: &mut Cursor, mask: u32) -> (r: Result<
    (Option<String>, Option<String>, Option<u32>),
    IoError,
>)
    ensures
        match parse_access(mask, old(c)@) {
            Ok((v, rest)) => {
                &&& r matches Ok(w)
                &&& opt_text(w.0) == v.owner
                &&& opt_text(w.1) == v.group
                &&& w.2 == v.permissions
                &&& final(c)@ == rest
            },
            Err(e) => r matches Err(f) && f@ == e,
        },
        left_of(final(c)@, old(c)@),
{
    let owner = match read_if_text(
        c,
        announces_field(mask, SSH_FILEXFER_ATTR_OWNERGROUP),
        "owner",
    ) {
        Ok(v) => v,
        Err(e) => return Err(e),
    };
    let group = match read_if_text(
        c,
        announces_field(mask, SSH_FILEXFER_ATTR_OWNERGROUP),
        "group",
    ) {
        Ok(v) => v,
        Err(e) => return Err(e),
    };
    let permissions = match read_if_u32(c, announces_field(mask, SSH_FILEXFER_ATTR_PERMISSIONS)) {
        Ok(v) => v,
        Err(e) => return Err(e),
    };
    Ok((owner, group, permissions))
}

fn read_times(c: &mut Cursor, mask: u32) -> (r: Result<
    (
        Option<(u64, Option<u32>)>,
        Option<(u64, Option<u32>)>,
        Option<(u64, Option<u32>)>,
        Option<(u64, Option<u32>)>,
    ),
    IoError,
>)
    ensures
        match parse_times(mask, old(c)@) {
            Ok((v, rest)) => {
                &&& r matches Ok(w)
                &&& w.0 == v.access_time
                &&& w.1 == v.create_time
                &&& w.2 == v.modify_time
                &&& w.3 == v.ctime
                &&& final(c)@ == rest
            },
            Err(e) => r matches Err(f) && f@ == e,
        },
        left_of(final(c)@, old(c)@),
{
    let sub = announces_field(mask, SSH_FILEXFER_ATTR_SUBSECOND_TIMES);
    let access_time = match read_if_time(
        c,
        announces_field(mask, SSH_FILEXFER_ATTR_ACCESSTIME),
        sub,
    ) {
        Ok(v) => v,
        Err(e) => return Err(e),
    };
    let create_time = match read_if_time(
        c,
        announces_field(mask, SSH_FILEXFER_ATTR_CREATETIME),
        sub,
    ) {
        Ok(v) => v,
        Err(e) => return Err(e),
    };
    let modify_time = match read_if_time(
        c,
        announces_field(mask, SSH_FILEXFER_ATTR_MODIFYTIME),
        sub,
    ) {
        Ok(v) => v,
        Err(e) => return Err(e),
    };
    let ctime = match read_if_time(c, announces_field(mask, SSH_FILEXFER_ATTR_CTIME), sub) {
        Ok(v) => v,
        Err(e) => return Err(e),
    };
    Ok((access_time, create_time, modify_time, ctime))
}

fn read_bits(c: &mut Cursor, mask: u32) -> (r: Result<
    (Option<Vec<u8>>, Option<u32>, Option<u32>, Option<u8>),
    IoError,
>)
    ensures
        match parse_bits(mask, old(c)@) {
            Ok((v, rest)) => {
                &&& r matches Ok(w)
                &&& opt_bytes(w.0) == v.acl
                &&& w.1 == v.attrib_bits
                &&& w.2 == v.attrib_bits_valid
                &&& w.3 == v.hint
                &&& final(c)@ == rest
            },
            Err(e) => r matches Err(f) && f@ == e,
        },
        left_of(final(c)@, old(c)@),
{
    let acl = match read_if_bytes(c, announces_field(mask, SSH_FILEXFER_ATTR_ACL)) {
        Ok(v) => v,
        Err(e) => return Err(e),
    };
    let attrib_bits = match read_if_u32(c, announces_field(mask, SSH_FILEXFER_ATTR_BITS)) {
        Ok(v) => v,
        Err(e) => return Err(e),
    };
    let attrib_bits_valid = match read_if_u32(c, announces_field(mask, SSH_FILEXFER_ATTR_BITS)) {
        Ok(v) => v,
        Err(e) => return Err(e),
    };
    let hint = match read_if_u8(c, announces_field(mask, SSH_FILEXFER_ATTR_TEXT_HINT)) {
        Ok(v) => v,
        Err(e) => return Err(e),
    };
    Ok((acl, attrib_bits, attrib_bits_valid, hint))
}

fn read_extras(c: &mut Cursor, mask: u32) -> (r: Result<
    (Option<String>, Option<u32>, Option<Vec<u8>>, Option<Vec<(String, String)>>),
    IoError,
>)
    ensures
        match parse_extras(mask, old(c)@) {
            Ok((v, rest)) => {
                &&& r matches Ok(w)
                &&& opt_text(w.0) == v.mime_type
                &&& w.1 == v.link_count
                &&& opt_bytes(w.2) == v.untranslated_name
                &&& opt_pairs(w.3) == v.extended
                &&& final(c)@ == rest
            },
            Err(e) => r matches Err(f) && f@ == e,
        },
        left_of(final(c)@, old(c)@),
{
    let mime_type = match read_if_text(
        c,
        announces_field(mask, SSH_FILEXFER_ATTR_MIME_TYPE),
        "mime type",
    ) {
        Ok(v) => v,
        Err(e) => return Err(e),
    };
    let link_count = match read_if_u32(c, announces_field(mask, SSH_FILEXFER_ATTR_LINK_COUNT)) {
        Ok(v) => v,
        Err(e) => return Err(e),
    };
    let untranslated_name = match read_if_bytes(
        c,
        announces_field(mask, SSH_FILEXFER_ATTR_UNTRANSLATED_NAME),
    ) {
        Ok(v) => v,
        Err(e) => return Err(e),
    };
    let extended = match read_if_pairs(c, announces_field(mask, SSH_FILEXFER_ATTR_EXTENDED)) {
        Ok(v) => v,
        Err(e) => return Err(e),
    };
    Ok((mime_type, link_count, untranslated_name, extended))
}

impl Attributes {
    fn read_fields(c: &mut Cursor) -> (r: Result<(Attributes, Option<u8>), IoError>)
        ensures
            match parse_fields(old(c)@) {
                Ok((v, rest)) => r matches Ok(w) && w.0@ == v.0 && w.1 == v.1 && final(c)@ == rest,
                Err(e) => r matches Err(f) && f@ == e,
            },
            left_of(final(c)@, old(c)@),
    {
        reveal(parse_fields);
        let mask = match c.read_u32() {
            Ok(v) => v,
            Err(e) => return Err(e),
        };
        let (size, uid, gid, allocation_size) = match read_ids(c, mask) {
            Ok(v) => v,
            Err(e) => return Err(e),
        };
        let (owner, group, permissions) = match read_access(c, mask) {
            Ok(v) => v,
            Err(e) => return Err(e),
        };
        let (access_time, create_time, modify_time, ctime) = match read_times(c, mask) {
            Ok(v) => v,
            Err(e) => return Err(e),
        };
        let (acl, attrib_bits, attrib_bits_valid, hint) = match read_bits(c, mask) {
            Ok(v) => v,
            Err(e) => return Err(e),
        };
        let (mime_type, link_count, untranslated_name, extended) = match read_extras(c, mask) {
            Ok(v) => v,
            Err(e) => return Err(e),
        };
        let a = Attributes {
            size,
            uid,
            gid,
            allocation_size,
            owner,
            group,
            permissions,
            access_time,
            create_time,
            modify_time,
            ctime,
            acl,
            attrib_bits,
            attrib_bits_valid,
            text_hint: None,
            mime_type,
            link_count,
            untranslated_name,
            extended,
        };
        Ok((a, hint))
    }

    /// Takes attributes off the front of `reader`. How much of them has been
    /// taken when they cannot be decoded is left open.
    pub fn decode(reader: &mut Cursor) -> (r: Result<Attributes, Fault>)
        ensures
            match decode_attributes(old(reader)@) {
                Ok((v, rest)) => r matches Ok(a) && a@ == v && final(reader)@ == rest,
                Err(e) => r matches Err(f) && f@ == e,
            },
            left_of(final(reader)@, old(reader)@),
    {
        match Attributes::read_fields(reader) {
            Ok((mut a, hint)) => {
                if let Some(code) = hint {
                    if code > SSH_FILEXFER_ATTR_GUESSED_BINARY {
                        return Err(Fault::TextHint);
                    }
                    a.text_hint = Some(TextHint::from(code));
                }
                Ok(a)
            },
            Err(e) => Err(Fault::Io(e)),
        }
    }

    /// Takes attributes off the front of `reader`, whose text hint, if they
    /// have one, must be one of the four. How much of them has been taken when
    /// they cannot be decoded is left open.
    pub fn deserialize(reader: &mut Cursor) -> (r: Result<Attributes, IoError>)
        requires
            decode_attributes(old(reader)@) != Err::<(AttributesView, Seq<u8>), _>(
                FaultView::TextHint,
            ),
        ensures
            match decode_attributes(old(reader)@) {
                Ok((v, rest)) => r matches Ok(a) && a@ == v && final(reader)@ == rest,
                Err(e) => r matches Err(f) && e == FaultView::Io(f@),
            },
            left_of(final(reader)@, old(reader)@),
    {
        match Attributes::decode(reader) {
            Ok(a) => Ok(a),
            Err(Fault::Io(e)) => Err(e),
            Err(Fault::TextHint) => unreached(),
        }
    }
}

} // verus!
