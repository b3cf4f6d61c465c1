use sftp::attributes::{Attributes, Fault};
use sftp::constants::{
    SFTP_FLAG_APPEND, SFTP_FLAG_CREAT, SFTP_FLAG_EXCL, SFTP_FLAG_READ, SFTP_FLAG_TRUNC,
    SFTP_FLAG_WRITE, SSH_FILEXFER_ATTR_TEXT_HINT, SSH_FXP_ATTRS, SSH_FXP_DATA, SSH_FXP_EXTENDED_REPLY,
    SSH_FXP_HANDLE, SSH_FXP_NAME, SSH_FXP_STATUS, SSH_FX_EOF, SSH_FX_FAILURE, SSH_FX_OK,
};
use sftp::error::{Error, IoError, IoErrorKind, Utf8Error};
use sftp::protocol::{
    build_block, build_extended, build_handle_and_attrs, build_handle_and_flags, build_handle_only,
    build_init, build_link, build_open, build_path_and_attrs, build_path_and_flags,
    build_path_only, build_pread, build_pwrite, build_realpath, build_rename, build_two_paths,
    build_unblock, packet_length, parse_version, read_raw_packet, split_packet, split_request_id,
    with_request_id, write_raw_packet, Framing,
};
use sftp::reply::{
    expect_attrs, expect_data, expect_extended, expect_handle, expect_name, expect_readdir,
    expect_status, parse_attrs, parse_data, parse_handle, parse_name, parse_readdir, parse_status,
    take_attrs, take_data, take_first_name, take_handle, take_name, take_readdir, Breach,
};
use sftp::types::{Kind, OpenOptions, TextHint};
use sftp::wire::Cursor;

fn text(s: &str) -> Vec<u8> {
    let mut v = (s.len() as u32).to_be_bytes().to_vec();
    v.extend_from_slice(s.as_bytes());
    v
}

fn status(code: u32, message: &str, lang: &str) -> Vec<u8> {
    let mut v = code.to_be_bytes().to_vec();
    v.extend_from_slice(&text(message));
    v.extend_from_slice(&text(lang));
    v
}

fn io_error(e: Error) -> IoError {
    match e {
        Error::Io(e) => e,
        other => panic!("expected a transport error, got {:?}", other),
    }
}

// Attributes.

#[test]
fn attributes_roundtrip_size_perms() {
    let mut a = Attributes::new();
    a.size = Some(12345);
    a.permissions = Some(0o100644);
    let bytes = a.serialize().unwrap();
    let mut cursor = Cursor::new(bytes.as_slice());
    let b = Attributes::deserialize(&mut cursor).unwrap();
    assert_eq!(a, b);
}

#[test]
fn attributes_roundtrip_uidgid() {
    let mut a = Attributes::new();
    a.uid = Some(1000);
    a.gid = Some(1000);
    let bytes = a.serialize().unwrap();
    let mut cursor = Cursor::new(bytes.as_slice());
    let b = Attributes::deserialize(&mut cursor).unwrap();
    assert_eq!(a, b);
}

fn everything() -> Attributes {
    let mut a = Attributes::new();
    a.size = Some(0x0102030405060708);
    a.uid = Some(7);
    a.gid = Some(8);
    a.owner = Some("ow\u{fc}ner".to_string());
    a.group = Some("group".to_string());
    a.permissions = Some(0o100644);
    a.access_time = Some((1, Some(2)));
    a.create_time = Some((3, Some(4)));
    a.modify_time = Some((5, Some(6)));
    a.ctime = Some((7, Some(8)));
    a.acl = Some(vec![1, 2, 3]);
    a.attrib_bits = Some(0x10);
    a.attrib_bits_valid = Some(0x30);
    a.text_hint = Some(TextHint::KnownBinary);
    a.mime_type = Some("text/plain".to_string());
    a.link_count = Some(2);
    a.untranslated_name = Some(vec![0xff, 0xfe]);
    a.extended = Some(vec![
        ("k1".to_string(), "v1".to_string()),
        ("k2".to_string(), String::new()),
    ]);
    a
}

#[test]
fn all_fields_come_back() {
    let a = everything();
    let bytes = a.serialize().unwrap();
    let mut cursor = Cursor::new(bytes.as_slice());
    let b = Attributes::deserialize(&mut cursor).unwrap();
    assert_eq!(a, b);
    assert!(cursor.remaining().is_empty());
}

#[test]
fn decoding_stops_behind_the_attributes() {
    let mut bytes = everything().serialize().unwrap();
    bytes.extend_from_slice(b"rest");
    let mut cursor = Cursor::new(bytes.as_slice());
    Attributes::deserialize(&mut cursor).unwrap();
    assert_eq!(cursor.remaining(), b"rest");
}

#[test]
fn encoding_of_some_fields() {
    let mut a = Attributes::new();
    assert_eq!(a.serialize().unwrap(), vec![0, 0, 0, 0]);
    a.permissions = Some(0o644);
    a.modify_time = Some((0x10, None));
    assert_eq!(
        a.serialize().unwrap(),
        vec![0, 0, 0, 0x24, 0, 0, 1, 0xa4, 0, 0, 0, 0, 0, 0, 0, 0x10]
    );
    assert_eq!(Attributes::default(), Attributes::new());
}

#[test]
fn allocation_size_is_written_before_the_ids_and_read_behind_them() {
    let mut a = Attributes::new();
    a.allocation_size = Some(0x0000_0001_0000_0002);
    a.uid = Some(3);
    a.gid = Some(4);
    let bytes = a.serialize().unwrap();
    let b = Attributes::deserialize(&mut Cursor::new(bytes.as_slice())).unwrap();
    assert_eq!(b.uid, Some(1));
    assert_eq!(b.gid, Some(2));
    assert_eq!(b.allocation_size, Some(0x0000_0003_0000_0004));

    a.uid = Some(1);
    a.gid = Some(2);
    let bytes = a.serialize().unwrap();
    let b = Attributes::deserialize(&mut Cursor::new(bytes.as_slice())).unwrap();
    assert_eq!(a, b);
}

#[test]
fn truncated_attributes_are_refused() {
    let bytes = everything().serialize().unwrap();
    for n in 0..bytes.len() {
        let mut cursor = Cursor::new(&bytes[..n]);
        let e = Attributes::deserialize(&mut cursor).unwrap_err();
        assert_eq!(e.kind, IoErrorKind::UnexpectedEof);
        assert_eq!(e.message, "failed to fill whole buffer");
        assert!(bytes[..n].ends_with(cursor.remaining()));
    }
}

#[test]
fn owner_that_is_not_utf8_is_refused() {
    let mut bytes = 0x80u32.to_be_bytes().to_vec();
    bytes.extend_from_slice(&[0, 0, 0, 1, 0xff]);
    bytes.extend_from_slice(&text("group"));
    let e = Attributes::deserialize(&mut Cursor::new(bytes.as_slice())).unwrap_err();
    assert_eq!(e.kind, IoErrorKind::InvalidData);
    assert_eq!(
        e.message,
        "Invalid owner: invalid utf-8 sequence of 1 bytes from index 0"
    );
}

#[test]
fn text_hint_out_of_range_is_a_fault() {
    let mut bytes = SSH_FILEXFER_ATTR_TEXT_HINT.to_be_bytes().to_vec();
    bytes.push(4);
    let r = Attributes::decode(&mut Cursor::new(bytes.as_slice()));
    assert!(matches!(r, Err(Fault::TextHint)));
    assert_eq!(take_attrs(SSH_FXP_ATTRS, &bytes).unwrap_err(), Breach::TextHint);
    bytes[4] = 3;
    let a = Attributes::decode(&mut Cursor::new(bytes.as_slice())).unwrap();
    assert_eq!(a.text_hint, Some(TextHint::GuessedBinary));
    assert!(matches!(
        Attributes::decode(&mut Cursor::new(&bytes[..3])),
        Err(Fault::Io(_))
    ));
}

// Small types.

#[test]
fn hints_and_file_types_come_back() {
    for b in 0u8..4 {
        assert_eq!(u8::from(TextHint::from(b)), b);
    }
    for b in 1u8..10 {
        assert_eq!(u8::from(Kind::from(b)), b);
    }
    assert_eq!(Kind::from(2), Kind::Directory);
    assert_eq!(Kind::default(), Kind::Unknown);
    assert_eq!(TextHint::from(1), TextHint::GuessedText);
}

#[test]
fn open_flags_switch_on_and_off() {
    let all = OpenOptions::new()
        .read(true)
        .write(true)
        .append(true)
        .create(true)
        .truncate(true)
        .excl(true);
    assert_eq!(
        all.get(),
        SFTP_FLAG_READ
            | SFTP_FLAG_WRITE
            | SFTP_FLAG_APPEND
            | SFTP_FLAG_CREAT
            | SFTP_FLAG_TRUNC
            | SFTP_FLAG_EXCL
    );
    assert_eq!(all.append(false).get(), 0x3b);
    assert_eq!(all.read(false).read(true), all);
    assert_eq!(all.read(false).write(false), all.write(false).read(false));
    let mut o = OpenOptions::default();
    assert_eq!(o.get(), 0);
    assert_eq!(o.mode(0x40).get(), 0x40);
    assert_eq!(o.get(), 0x40);
}

// Packets and request ids.

#[test]
fn request_id_roundtrip() {
    let body = b"hello".to_vec();
    let wrapped = with_request_id(0x12345678, &body);
    let (id, rest) = split_request_id(&wrapped).unwrap();
    assert_eq!(id, 0x12345678);
    assert_eq!(rest, body.as_slice());
}

#[test]
fn request_id_needs_four_bytes() {
    let e = split_request_id(&[1, 2, 3]).unwrap_err();
    assert_eq!(e.kind, IoErrorKind::Other);
    assert_eq!(e.message, "response too short to contain request id");
    assert_eq!(split_request_id(&[1, 2, 3, 4]).unwrap(), (0x01020304, &[][..]));
}

#[test]
fn packets_come_back() {
    let mut channel = Vec::new();
    write_raw_packet(&mut channel, 14, b"abc").unwrap();
    write_raw_packet(&mut channel, 101, b"").unwrap();
    assert_eq!(channel, b"\x00\x00\x00\x04\x0eabc\x00\x00\x00\x01\x65".to_vec());
    let mut cursor = Cursor::new(channel.as_slice());
    assert_eq!(read_raw_packet(&mut cursor).unwrap(), (14, b"abc".to_vec()));
    assert_eq!(read_raw_packet(&mut cursor).unwrap(), (101, Vec::new()));
    assert!(cursor.remaining().is_empty());
}

#[test]
fn cut_packets_are_refused() {
    let whole = b"\x00\x00\x00\x04\x0eabc";
    for n in 0..whole.len() {
        let mut cursor = Cursor::new(&whole[..n]);
        let e = read_raw_packet(&mut cursor).unwrap_err();
        assert_eq!(e.kind, IoErrorKind::UnexpectedEof);
    }
}

#[test]
fn packet_lengths() {
    assert_eq!(packet_length(&[0, 0, 0, 0]), Framing::Empty);
    assert_eq!(packet_length(&[0, 0, 1, 2]), Framing::Length(258));
    assert_eq!(packet_length(&[0x7f, 0xff, 0xff, 0xff]), Framing::Length(0x7fffffff));
    assert_eq!(packet_length(&[0x80, 0, 0, 0]), Framing::Negative);
    assert_eq!(split_packet(&[9, 1, 2]), (9, vec![1, 2]));
}

// The handshake.

#[test]
fn announcement_of_version_and_extensions() {
    assert_eq!(build_init(), vec![0, 0, 0, 3]);
    let mut body = 3u32.to_be_bytes().to_vec();
    assert_eq!(parse_version(&body).unwrap(), (3, Vec::new()));
    body.extend_from_slice(&text("posix-rename@openssh.com"));
    body.extend_from_slice(&text("1"));
    body.extend_from_slice(&text("x"));
    body.extend_from_slice(&text(""));
    let (version, extensions) = parse_version(&body).unwrap();
    assert_eq!(version, 3);
    assert_eq!(
        extensions,
        vec![
            ("posix-rename@openssh.com".to_string(), "1".to_string()),
            ("x".to_string(), String::new()),
        ]
    );
}

#[test]
fn other_versions_are_refused() {
    let e = parse_version(&4u32.to_be_bytes()).unwrap_err();
    assert_eq!(e.kind, IoErrorKind::Other);
    assert_eq!(e.message, "SFTP version mismatch (expected 3, got: 4)");
    let e = parse_version(&u32::MAX.to_be_bytes()).unwrap_err();
    assert_eq!(e.message, "SFTP version mismatch (expected 3, got: 4294967295)");
    assert_eq!(
        parse_version(&[0, 0, 0]).unwrap_err().kind,
        IoErrorKind::UnexpectedEof
    );
}

#[test]
fn broken_extensions_are_refused() {
    let mut body = 3u32.to_be_bytes().to_vec();
    body.extend_from_slice(&text("key"));
    assert_eq!(parse_version(&body).unwrap_err().kind, IoErrorKind::UnexpectedEof);
    body.extend_from_slice(&[0, 0, 0, 2, b'a', 0x80]);
    let e = parse_version(&body).unwrap_err();
    assert_eq!(e.kind, IoErrorKind::InvalidData);
    assert_eq!(
        e.message,
        "Invalid extension value: invalid utf-8 sequence of 1 bytes from index 1"
    );
}

// The bodies of requests.

#[test]
fn build_path_only_layout() {
    let body = build_path_only("hello");
    assert_eq!(body, b"\x00\x00\x00\x05hello".to_vec());
}

#[test]
fn build_two_paths_layout() {
    let body = build_two_paths("a", "bc");
    assert_eq!(body, b"\x00\x00\x00\x01a\x00\x00\x00\x02bc".to_vec());
}

#[test]
fn layouts_of_the_other_bodies() {
    let none = Attributes::new();
    assert_eq!(build_path_only("\u{fc}"), vec![0, 0, 0, 2, 0xc3, 0xbc]);
    assert_eq!(build_handle_only(b"h"), b"\x00\x00\x00\x01h".to_vec());
    assert_eq!(
        build_path_and_attrs("p", &none).unwrap(),
        b"\x00\x00\x00\x01p\x00\x00\x00\x00".to_vec()
    );
    assert_eq!(
        build_handle_and_attrs(b"h", &none).unwrap(),
        b"\x00\x00\x00\x01h\x00\x00\x00\x00".to_vec()
    );
    assert_eq!(
        build_path_and_flags("p", 0x01020304),
        b"\x00\x00\x00\x01p\x01\x02\x03\x04".to_vec()
    );
    assert_eq!(
        build_handle_and_flags(b"h", 5),
        b"\x00\x00\x00\x01h\x00\x00\x00\x05".to_vec()
    );
    assert_eq!(
        build_link("a", "b", true),
        b"\x00\x00\x00\x01a\x00\x00\x00\x01b\x01".to_vec()
    );
    assert_eq!(
        build_link("a", "b", false),
        b"\x00\x00\x00\x01a\x00\x00\x00\x01b\x00".to_vec()
    );
    assert_eq!(
        build_open("p", 0x1a, &none).unwrap(),
        b"\x00\x00\x00\x01p\x00\x00\x00\x1a\x00\x00\x00\x00".to_vec()
    );
    assert_eq!(
        build_extended("x", b"yz"),
        b"\x00\x00\x00\x01xyz".to_vec()
    );
}

#[test]
fn layouts_of_paths_to_resolve_and_rename() {
    assert_eq!(build_realpath(".", None, None), b"\x00\x00\x00\x01.".to_vec());
    assert_eq!(
        build_realpath(".", Some(2), Some("c")),
        b"\x00\x00\x00\x01.\x02\x00\x00\x00\x01c".to_vec()
    );
    assert_eq!(
        build_realpath(".", None, Some("c")),
        b"\x00\x00\x00\x01.\x00\x00\x00\x01c".to_vec()
    );
    assert_eq!(
        build_rename("a", "b", None),
        b"\x00\x00\x00\x01a\x00\x00\x00\x01b\x00\x00\x00\x07".to_vec()
    );
    assert_eq!(
        build_rename("a", "b", Some(0)),
        b"\x00\x00\x00\x01a\x00\x00\x00\x01b\x00\x00\x00\x00".to_vec()
    );
}

#[test]
fn layouts_of_byte_ranges() {
    assert_eq!(
        build_block(b"h", 1, 2, 3),
        b"\x00\x00\x00\x01h\x00\x00\x00\x00\x00\x00\x00\x01\x00\x00\x00\x00\x00\x00\x00\x02\x00\x00\x00\x03"
            .to_vec()
    );
    assert_eq!(
        build_unblock(b"h", 1, 2),
        b"\x00\x00\x00\x01h\x00\x00\x00\x00\x00\x00\x00\x01\x00\x00\x00\x00\x00\x00\x00\x02"
            .to_vec()
    );
    assert_eq!(
        build_pwrite(b"h", 0x0102030405060708, b"xy"),
        b"\x00\x00\x00\x01h\x01\x02\x03\x04\x05\x06\x07\x08\x00\x00\x00\x02xy".to_vec()
    );
    assert_eq!(
        build_pread(b"h", 0x0102030405060708, 9),
        b"\x00\x00\x00\x01h\x01\x02\x03\x04\x05\x06\x07\x08\x00\x00\x00\x09".to_vec()
    );
}

// Replies.

#[test]
fn parse_status_ok() {
    let mut buf = Vec::new();
    buf.extend_from_slice(&SSH_FX_OK.to_be_bytes());
    buf.extend_from_slice(&0u32.to_be_bytes());
    buf.extend_from_slice(&0u32.to_be_bytes());
    parse_status(&buf).unwrap();
}

#[test]
fn parse_status_eof() {
    let mut buf = Vec::new();
    buf.extend_from_slice(&SSH_FX_EOF.to_be_bytes());
    let msg = b"end";
    buf.extend_from_slice(&(msg.len() as u32).to_be_bytes());
    buf.extend_from_slice(msg);
    buf.extend_from_slice(&0u32.to_be_bytes());
    match parse_status(&buf) {
        Err(Error::Eof(m, _)) => assert_eq!(m, "end"),
        other => panic!("expected Eof, got {:?}", other),
    }
}

#[test]
fn each_status_code_has_its_error() {
    let names = [
        "Eof",
        "NoSuchFile",
        "PermissionDenied",
        "Failure",
        "BadMessage",
        "NoConnection",
        "ConnectionLost",
        "OpUnsupported",
        "InvalidHandle",
        "NoSuchPath",
        "FileAlreadyExists",
        "WriteProtect",
        "NoMedia",
        "NoSpaceOnFilesystem",
        "QuotaExceeded",
        "UnknownPrincipal",
        "LockConflict",
        "DirNotEmpty",
        "NotADirectory",
        "InvalidFilename",
        "LinkLoop",
        "CannotDelete",
        "InvalidParameter",
        "FileIsADirectory",
        "ByteRangeLockConflict",
        "ByteRangeLockRefused",
        "DeletePending",
        "FileCorrupt",
        "OwnerInvalid",
        "GroupInvalid",
        "NoMatchingByteRangeLock",
    ];
    for (i, name) in names.iter().enumerate() {
        let e = parse_status(&status(i as u32 + 1, "m", "en")).unwrap_err();
        assert_eq!(format!("{:?}", e), format!("{}(\"m\", \"en\")", name));
    }
    let e = parse_status(&status(32, "m", "en")).unwrap_err();
    assert_eq!(format!("{:?}", e), "Other(32, \"m\", \"en\")");
}

#[test]
fn cut_status_is_refused() {
    let whole = status(SSH_FX_OK, "ok", "en");
    for n in 0..whole.len() {
        let e = io_error(parse_status(&whole[..n]).unwrap_err());
        assert_eq!(e.kind, IoErrorKind::UnexpectedEof);
    }
    let mut bad = SSH_FX_OK.to_be_bytes().to_vec();
    bad.extend_from_slice(&[0, 0, 0, 1, 0xff]);
    bad.extend_from_slice(&text(""));
    let e = io_error(parse_status(&bad).unwrap_err());
    assert_eq!(
        e.message,
        "Invalid error message: invalid utf-8 sequence of 1 bytes from index 0"
    );
}

#[test]
fn errors_as_transport_errors() {
    let convert = |code: u32| IoError::from(parse_status(&status(code, "m", "l")).unwrap_err());
    let expected = [
        (1, IoErrorKind::UnexpectedEof, ""),
        (2, IoErrorKind::NotFound, "l"),
        (3, IoErrorKind::PermissionDenied, "l"),
        (4, IoErrorKind::Other, "Failure(\"m\", \"l\")"),
        (6, IoErrorKind::NotConnected, "l"),
        (7, IoErrorKind::ConnectionReset, "l"),
        (9, IoErrorKind::InvalidInput, "l"),
        (10, IoErrorKind::NotFound, "l"),
        (11, IoErrorKind::AlreadyExists, "l"),
        (12, IoErrorKind::PermissionDenied, "l"),
        (13, IoErrorKind::NotFound, "l"),
        (15, IoErrorKind::PermissionDenied, "l"),
        (17, IoErrorKind::PermissionDenied, "l"),
        (20, IoErrorKind::InvalidInput, "l"),
        (18, IoErrorKind::Other, "DirNotEmpty(\"m\", \"l\")"),
        (99, IoErrorKind::Other, "Other(99, \"m\", \"l\")"),
    ];
    for (code, kind, message) in expected {
        let e = convert(code);
        assert_eq!(e.kind, kind);
        assert_eq!(e.message, message);
    }
    let quoted = Error::Failure("a \"b\"\n".to_string(), String::new());
    assert_eq!(IoError::from(quoted).message, "Failure(\"a \\\"b\\\"\\n\", \"\")");
    let utf8 = Error::from(Utf8Error { valid_up_to: 12, error_len: Some(1) });
    assert_eq!(
        IoError::from(utf8).message,
        "Utf8(Utf8Error { valid_up_to: 12, error_len: Some(1) })"
    );
    let utf8 = Error::from(Utf8Error { valid_up_to: 0, error_len: None });
    assert_eq!(
        IoError::from(utf8).message,
        "Utf8(Utf8Error { valid_up_to: 0, error_len: None })"
    );
    let io = Error::from(IoError::new(IoErrorKind::NotFound, "gone".to_string()));
    assert_eq!(IoError::from(io).message, "gone");
}

#[test]
fn values_reach_the_caller() {
    assert_eq!(parse_handle(b"\x00\x00\x00\x02hh").unwrap(), b"hh".to_vec());
    assert_eq!(parse_data(b"\x00\x00\x00\x03abcd").unwrap(), b"abc".to_vec());
    assert_eq!(
        expect_handle(SSH_FXP_HANDLE, b"\x00\x00\x00\x01h").unwrap(),
        b"h".to_vec()
    );
    assert_eq!(
        expect_data(SSH_FXP_DATA, b"\x00\x00\x00\x00").unwrap(),
        Vec::<u8>::new()
    );
    let bytes = everything().serialize().unwrap();
    assert_eq!(parse_attrs(&bytes).unwrap(), everything());
    assert_eq!(expect_attrs(SSH_FXP_ATTRS, &bytes).unwrap(), everything());
    expect_status(SSH_FXP_STATUS, &status(SSH_FX_OK, "", "")).unwrap();
    assert_eq!(
        expect_extended(SSH_FXP_EXTENDED_REPLY, b"data".to_vec()).unwrap(),
        Some(b"data".to_vec())
    );
    assert_eq!(
        expect_extended(SSH_FXP_STATUS, status(SSH_FX_OK, "", "")).unwrap(),
        None
    );
}

#[test]
fn names_and_entries_reach_the_caller() {
    let mut names = 2u32.to_be_bytes().to_vec();
    let mut entries = 2u32.to_be_bytes().to_vec();
    for n in ["one", "two"] {
        names.extend_from_slice(&text(n));
        names.extend_from_slice(&everything().serialize().unwrap());
        entries.extend_from_slice(&text(n));
        entries.extend_from_slice(&text("long"));
        entries.extend_from_slice(&Attributes::new().serialize().unwrap());
    }
    let got = expect_name(SSH_FXP_NAME, &names).unwrap();
    assert_eq!(got, parse_name(&names).unwrap());
    assert_eq!(
        got,
        vec![
            ("one".to_string(), everything()),
            ("two".to_string(), everything()),
        ]
    );
    assert_eq!(take_first_name(SSH_FXP_NAME, &names).unwrap().unwrap(), "one");
    let got = expect_readdir(SSH_FXP_NAME, &entries).unwrap();
    assert_eq!(got, parse_readdir(&entries).unwrap());
    assert_eq!(
        got,
        vec![
            ("one".to_string(), "long".to_string(), Attributes::new()),
            ("two".to_string(), "long".to_string(), Attributes::new()),
        ]
    );
    for n in 0..entries.len() {
        let e = io_error(parse_readdir(&entries[..n]).unwrap_err());
        assert_eq!(e.kind, IoErrorKind::UnexpectedEof);
    }
    assert!(parse_name(&names[..names.len() - 1]).is_err());
}

#[test]
fn empty_list_has_no_first_name() {
    let empty = 0u32.to_be_bytes();
    assert!(expect_name(SSH_FXP_NAME, &empty).unwrap().is_empty());
    assert_eq!(take_first_name(SSH_FXP_NAME, &empty).unwrap_err(), Breach::NoName);
}

#[test]
fn refusals_reach_the_caller() {
    let s = status(SSH_FX_FAILURE, "no", "en");
    assert!(matches!(expect_status(SSH_FXP_STATUS, &s), Err(Error::Failure(m, l)) if m == "no" && l == "en"));
    assert!(matches!(expect_handle(SSH_FXP_STATUS, &s), Err(Error::Failure(_, _))));
    assert!(matches!(expect_data(SSH_FXP_STATUS, &s), Err(Error::Failure(_, _))));
    assert!(matches!(expect_attrs(SSH_FXP_STATUS, &s), Err(Error::Failure(_, _))));
    assert!(matches!(expect_name(SSH_FXP_STATUS, &s), Err(Error::Failure(_, _))));
    assert!(matches!(expect_readdir(SSH_FXP_STATUS, &s), Err(Error::Failure(_, _))));
    assert!(matches!(expect_extended(SSH_FXP_STATUS, s), Err(Error::Failure(_, _))));
}

#[test]
fn success_where_a_value_was_due_is_a_breach() {
    let s = status(SSH_FX_OK, "", "");
    assert_eq!(take_handle(SSH_FXP_STATUS, &s).unwrap_err(), Breach::OkStatus);
    assert_eq!(take_data(SSH_FXP_STATUS, &s).unwrap_err(), Breach::OkStatus);
    assert_eq!(take_attrs(SSH_FXP_STATUS, &s).unwrap_err(), Breach::OkStatus);
    assert_eq!(take_name(SSH_FXP_STATUS, &s).unwrap_err(), Breach::OkStatus);
    assert_eq!(take_readdir(SSH_FXP_STATUS, &s).unwrap_err(), Breach::OkStatus);
}

#[test]
fn replies_of_other_kinds_are_unexpected() {
    let message = "Unexpected response: 77";
    assert_eq!(io_error(expect_status(77, b"").unwrap_err()).message, message);
    assert_eq!(io_error(expect_handle(77, b"").unwrap_err()).message, message);
    assert_eq!(io_error(expect_data(77, b"").unwrap_err()).message, message);
    assert_eq!(io_error(expect_attrs(77, b"").unwrap_err()).message, message);
    assert_eq!(io_error(expect_name(77, b"").unwrap_err()).message, message);
    assert_eq!(io_error(expect_readdir(77, b"").unwrap_err()).message, message);
    let e = io_error(expect_extended(77, Vec::new()).unwrap_err());
    assert_eq!(e.message, message);
    assert_eq!(e.kind, IoErrorKind::Other);
    assert_eq!(
        io_error(expect_handle(SSH_FXP_DATA, b"").unwrap_err()).message,
        "Unexpected response: 103"
    );
}

#[test]
fn attributes_that_cannot_be_encoded() {
    let mut a = Attributes::new();
    assert!(a.is_encodable());
    a.uid = Some(1);
    assert!(!a.is_encodable());
    a.gid = Some(1);
    assert!(a.is_encodable());
    a.create_time = Some((1, Some(2)));
    assert!(!a.is_encodable());
    a.access_time = Some((1, Some(2)));
    assert!(a.is_encodable());
    a.modify_time = Some((1, None));
    assert!(!a.is_encodable());
    a.modify_time = None;
    a.ctime = Some((1, None));
    assert!(!a.is_encodable());
    assert!(everything().is_encodable());
}

#[test]
fn bytes_behind_attributes_change_nothing() {
    let bytes = everything().serialize().unwrap();
    for tail in [&b""[..], b"\0", b"more"] {
        let mut all = bytes.clone();
        all.extend_from_slice(tail);
        let mut cursor = Cursor::new(all.as_slice());
        assert_eq!(Attributes::decode(&mut cursor).unwrap(), everything());
        assert_eq!(cursor.remaining(), tail);
    }
}

#[test]
fn cut_handles_are_refused() {
    let whole = b"\x00\x00\x00\x02hh";
    for n in 0..whole.len() {
        let e = io_error(parse_handle(&whole[..n]).unwrap_err());
        assert_eq!(e.kind, IoErrorKind::UnexpectedEof);
        let e = io_error(parse_data(&whole[..n]).unwrap_err());
        assert_eq!(e.message, "failed to fill whole buffer");
    }
}
