use sftp::async_client::{lost_reply, read_length, AsyncSftpClient, ReadAction, ReadEvent};
use sftp::attributes::Attributes;
use sftp::constants::{
    SSH_FXP_ATTRS, SSH_FXP_BLOCK, SSH_FXP_CLOSE, SSH_FXP_DATA, SSH_FXP_EXTENDED,
    SSH_FXP_EXTENDED_REPLY, SSH_FXP_FSETSTAT, SSH_FXP_FSTAT, SSH_FXP_HANDLE, SSH_FXP_INIT,
    SSH_FXP_LINK, SSH_FXP_LSTAT, SSH_FXP_MKDIR, SSH_FXP_NAME, SSH_FXP_OPEN, SSH_FXP_OPENDIR,
    SSH_FXP_READ, SSH_FXP_READDIR, SSH_FXP_READLINK, SSH_FXP_REALPATH, SSH_FXP_REMOVE,
    SSH_FXP_RENAME, SSH_FXP_RMDIR, SSH_FXP_SETSTAT, SSH_FXP_STAT, SSH_FXP_STATUS, SSH_FXP_SYMLINK,
    SSH_FXP_UNBLOCK, SSH_FXP_VERSION, SSH_FXP_WRITE, SSH_FX_EOF, SSH_FX_NO_SUCH_FILE, SSH_FX_OK,
};
use sftp::error::{Error, IoErrorKind};
use sftp::protocol::{read_raw_packet, split_request_id};
use sftp::reply::Breach;
use sftp::sync::{Request, SftpClient};
use sftp::types::{Directory, File, OpenOptions};
use sftp::wire::Cursor;

/// The command and the body of a request that was sent.
fn received(request: &Request) -> (u8, u32, Vec<u8>) {
    let mut cursor = Cursor::new(&request.packet);
    let (cmd, body) = read_raw_packet(&mut cursor).unwrap();
    assert!(cursor.remaining().is_empty());
    let (id, payload) = split_request_id(&body).unwrap();
    assert_eq!(id, request.id);
    (cmd, id, payload.to_vec())
}

/// A client whose server answers every request as the handler says. The
/// handler gets the command and the body without the request id, and gives the
/// kind and the body of the reply, again without it.
struct Stub<F> {
    client: AsyncSftpClient<&'static str>,
    handler: F,
}

fn with_stub<F: FnMut(u8, &[u8]) -> (u8, Vec<u8>)>(handler: F) -> Stub<F> {
    let client = AsyncSftpClient::new(SSH_FXP_VERSION, &3u32.to_be_bytes()).unwrap();
    Stub { client, handler }
}

impl<F: FnMut(u8, &[u8]) -> (u8, Vec<u8>)> Stub<F> {
    fn exchange(&mut self, request: &Request) -> (u8, Vec<u8>) {
        let (cmd, id, body) = received(request);
        let (kind, reply) = (self.handler)(cmd, &body);
        let mut wire = id.to_be_bytes().to_vec();
        wire.extend_from_slice(&reply);
        match self.client.run_reader(ReadEvent::Packet(kind, wire)) {
            ReadAction::Deliver("me", kind, payload) => (kind, payload),
            other => panic!("expected a delivery, got {:?}", other),
        }
    }
}

fn ok_status() -> (u8, Vec<u8>) {
    err_status(SSH_FX_OK)
}

fn err_status(code: u32) -> (u8, Vec<u8>) {
    let mut body = Vec::new();
    body.extend_from_slice(&code.to_be_bytes());
    body.extend_from_slice(&0u32.to_be_bytes());
    body.extend_from_slice(&0u32.to_be_bytes());
    (SSH_FXP_STATUS, body)
}

fn field(bytes: &[u8]) -> Vec<u8> {
    let mut body = (bytes.len() as u32).to_be_bytes().to_vec();
    body.extend_from_slice(bytes);
    body
}

fn handle_body(handle: &[u8]) -> (u8, Vec<u8>) {
    (SSH_FXP_HANDLE, field(handle))
}

fn attrs_body(a: &Attributes) -> (u8, Vec<u8>) {
    (SSH_FXP_ATTRS, a.serialize().unwrap())
}

fn data_body(payload: &[u8]) -> (u8, Vec<u8>) {
    (SSH_FXP_DATA, field(payload))
}

fn name_body(entries: &[(&str, Attributes)]) -> (u8, Vec<u8>) {
    let mut body = (entries.len() as u32).to_be_bytes().to_vec();
    for (name, attrs) in entries {
        body.extend_from_slice(&field(name.as_bytes()));
        body.extend_from_slice(&attrs.serialize().unwrap());
    }
    (SSH_FXP_NAME, body)
}

fn readdir_body(entries: &[(&str, &str, Attributes)]) -> (u8, Vec<u8>) {
    let mut body = (entries.len() as u32).to_be_bytes().to_vec();
    for (name, longname, attrs) in entries {
        body.extend_from_slice(&field(name.as_bytes()));
        body.extend_from_slice(&field(longname.as_bytes()));
        body.extend_from_slice(&attrs.serialize().unwrap());
    }
    (SSH_FXP_NAME, body)
}

#[test]
fn handshake_and_concurrent_requests() {
    let first = SftpClient::init_packet();
    let (kind, body) = read_raw_packet(&mut Cursor::new(&first)).unwrap();
    assert_eq!(kind, SSH_FXP_INIT);
    assert_eq!(body, 3u32.to_be_bytes().to_vec());

    let mut client = AsyncSftpClient::new(SSH_FXP_VERSION, &3u32.to_be_bytes()).unwrap();
    assert_eq!(client.version(), 3);
    assert!(client.extensions().is_empty());

    // Three requests under way at once; the replies come in another order.
    let attrs = Attributes::new();
    let r1 = client.mkdir("/a", &attrs, 1);
    let r2 = client.mkdir("/b", &attrs, 2);
    let r3 = client.rmdir("/c", 3);
    assert_eq!((r1.request.id, r2.request.id, r3.request.id), (0, 1, 2));

    let mut done = Vec::new();
    for request in [&r3.request, &r1.request, &r2.request] {
        let mut wire = request.id.to_be_bytes().to_vec();
        wire.extend_from_slice(&ok_status().1);
        match client.run_reader(ReadEvent::Packet(SSH_FXP_STATUS, wire)) {
            ReadAction::Deliver(who, cmd, payload) => done.push((who, cmd, payload)),
            other => panic!("expected a delivery, got {:?}", other),
        }
    }
    assert_eq!(done[0].0, 3);
    assert_eq!(done[1].0, 1);
    assert_eq!(done[2].0, 2);
    r3.finish(done[0].1, &done[0].2).unwrap();
    r1.finish(done[1].1, &done[1].2).unwrap();
    r2.finish(done[2].1, &done[2].2).unwrap();
}

#[test]
fn request_fails_after_reader_exits() {
    let mut client = AsyncSftpClient::new(SSH_FXP_VERSION, &3u32.to_be_bytes()).unwrap();
    let attrs = Attributes::new();
    let call = client.mkdir("/x", &attrs, "me");
    assert!(matches!(
        client.run_reader(ReadEvent::Failed),
        ReadAction::Stop
    ));
    // Nobody is left waiting: even the reply itself would reach no one.
    let mut wire = call.request.id.to_be_bytes().to_vec();
    wire.extend_from_slice(&ok_status().1);
    assert!(matches!(
        client.run_reader(ReadEvent::Packet(SSH_FXP_STATUS, wire)),
        ReadAction::Ignore
    ));
    // Nor is anybody who asks for something now: the waiter is let go at once.
    assert!(client.is_lost());
    let late = client.mkdir("/x", &attrs, "late");
    let mut wire = late.request.id.to_be_bytes().to_vec();
    wire.extend_from_slice(&ok_status().1);
    assert!(matches!(
        client.run_reader(ReadEvent::Packet(SSH_FXP_STATUS, wire)),
        ReadAction::Ignore
    ));
    let e = lost_reply();
    assert_eq!(e.kind, IoErrorKind::Other);
    assert_eq!(e.message, "reader task closed before response arrived");
}

#[test]
fn waiters_of_a_lost_connection_are_dropped() {
    let mut client = AsyncSftpClient::new(SSH_FXP_VERSION, &3u32.to_be_bytes()).unwrap();
    assert!(!client.is_lost());
    let before = std::rc::Rc::new(());
    let after = std::rc::Rc::new(());
    client.rmdir("/a", before.clone());
    assert_eq!(std::rc::Rc::strong_count(&before), 2);
    assert!(matches!(
        client.run_reader(ReadEvent::Failed),
        ReadAction::Stop
    ));
    assert_eq!(std::rc::Rc::strong_count(&before), 1);
    let call = client.rmdir("/b", after.clone());
    assert_eq!(std::rc::Rc::strong_count(&after), 1);
    // The request is still numbered, and giving it up changes nothing.
    assert_eq!(call.request.id, 1);
    client.cancel(call.request.id);
    assert!(client.is_lost());
}

#[test]
fn async_open_returns_handle() {
    let mut stub = with_stub(|cmd, _body| {
        assert_eq!(cmd, SSH_FXP_OPEN);
        handle_body(b"HANDLE42")
    });
    let call = stub
        .client
        .open("/x", OpenOptions::new().read(true), &Attributes::new(), "me");
    let (cmd, data) = stub.exchange(&call.request);
    let f = call.finish(cmd, &data).unwrap().unwrap();
    assert_eq!(f.0, b"HANDLE42".to_vec());
}

#[test]
fn async_open_propagates_no_such_file() {
    let mut stub = with_stub(|cmd, _| {
        assert_eq!(cmd, SSH_FXP_OPEN);
        err_status(SSH_FX_NO_SUCH_FILE)
    });
    let call = stub.client.open(
        "/missing",
        OpenOptions::new().read(true),
        &Attributes::new(),
        "me",
    );
    let (cmd, data) = stub.exchange(&call.request);
    match call.finish(cmd, &data).unwrap() {
        Err(Error::NoSuchFile(_, _)) => {}
        other => panic!("expected NoSuchFile, got {:?}", other),
    }
}

#[test]
fn async_stat_returns_attributes() {
    let mut a = Attributes::new();
    a.size = Some(1234);
    a.permissions = Some(0o100644);
    let a_clone = a.clone();
    let mut stub = with_stub(move |cmd, _| {
        assert_eq!(cmd, SSH_FXP_STAT);
        attrs_body(&a_clone)
    });
    let call = stub.client.stat("/file", None, "me");
    let (cmd, data) = stub.exchange(&call.request);
    let got = call.finish(cmd, &data).unwrap().unwrap();
    assert_eq!(got, a);
}

#[test]
fn async_lstat_returns_attributes() {
    let mut stub = with_stub(|cmd, _| {
        assert_eq!(cmd, SSH_FXP_LSTAT);
        attrs_body(&Attributes::new())
    });
    let call = stub.client.lstat("/x", None, "me");
    let (cmd, data) = stub.exchange(&call.request);
    call.finish(cmd, &data).unwrap().unwrap();
}

#[test]
fn async_fstat_returns_attributes() {
    let mut stub = with_stub(|cmd, _| {
        assert_eq!(cmd, SSH_FXP_FSTAT);
        attrs_body(&Attributes::new())
    });
    let call = stub.client.fstat(&File(b"h".to_vec()), None, "me");
    let (cmd, data) = stub.exchange(&call.request);
    call.finish(cmd, &data).unwrap().unwrap();
}

#[test]
fn async_pread_returns_data() {
    let mut stub = with_stub(|cmd, _| {
        assert_eq!(cmd, SSH_FXP_READ);
        data_body(b"hello")
    });
    let call = stub.client.pread(&File(b"h".to_vec()), 0, 5, "me");
    let (cmd, data) = stub.exchange(&call.request);
    let data = call.finish(cmd, &data).unwrap().unwrap();
    assert_eq!(data, b"hello".to_vec());
}

#[test]
fn async_pread_propagates_eof() {
    let mut stub = with_stub(|cmd, _| {
        assert_eq!(cmd, SSH_FXP_READ);
        err_status(SSH_FX_EOF)
    });
    let call = stub.client.pread(&File(b"h".to_vec()), 0, 5, "me");
    let (cmd, data) = stub.exchange(&call.request);
    match call.finish(cmd, &data).unwrap() {
        Err(Error::Eof(_, _)) => {}
        other => panic!("expected Eof, got {:?}", other),
    }
}

#[test]
fn async_pwrite_returns_ok() {
    let mut stub = with_stub(|cmd, _| {
        assert_eq!(cmd, SSH_FXP_WRITE);
        ok_status()
    });
    let call = stub.client.pwrite(&File(b"h".to_vec()), 0, b"data", "me");
    let (cmd, data) = stub.exchange(&call.request);
    call.finish(cmd, &data).unwrap();
}

#[test]
fn async_opendir_and_readdir() {
    let mut stub = with_stub(|cmd, _| match cmd {
        SSH_FXP_OPENDIR => handle_body(b"D"),
        SSH_FXP_READDIR => readdir_body(&[
            ("a", "-rw-r--r-- a", Attributes::new()),
            ("b", "-rw-r--r-- b", Attributes::new()),
        ]),
        other => panic!("unexpected cmd {}", other),
    });
    let call = stub.client.opendir("/d", "me");
    let (cmd, data) = stub.exchange(&call.request);
    let dir = call.finish(cmd, &data).unwrap().unwrap();
    let call = stub.client.readdir(&dir, "me");
    let (cmd, data) = stub.exchange(&call.request);
    let entries = call.finish(cmd, &data).unwrap().unwrap();
    assert_eq!(entries.len(), 2);
    assert_eq!(entries[0].0, "a");
    assert_eq!(entries[1].0, "b");
}

#[test]
fn async_readdir_eof_surfaces() {
    let mut stub = with_stub(|cmd, _| match cmd {
        SSH_FXP_OPENDIR => handle_body(b"D"),
        SSH_FXP_READDIR => err_status(SSH_FX_EOF),
        other => panic!("unexpected cmd {}", other),
    });
    let call = stub.client.opendir("/d", "me");
    let (cmd, data) = stub.exchange(&call.request);
    let dir = call.finish(cmd, &data).unwrap().unwrap();
    let call = stub.client.readdir(&dir, "me");
    let (cmd, data) = stub.exchange(&call.request);
    match call.finish(cmd, &data).unwrap() {
        Err(Error::Eof(_, _)) => {}
        other => panic!("expected Eof, got {:?}", other),
    }
}

#[test]
fn async_realpath_returns_first_name() {
    let mut stub = with_stub(|cmd, _| {
        assert_eq!(cmd, SSH_FXP_REALPATH);
        name_body(&[("/home/alice", Attributes::new())])
    });
    let call = stub.client.realpath(".", None, None, "me");
    let (cmd, data) = stub.exchange(&call.request);
    assert_eq!(call.finish(cmd, &data).unwrap().unwrap(), "/home/alice");
}

#[test]
fn async_readlink_returns_target() {
    let mut stub = with_stub(|cmd, _| {
        assert_eq!(cmd, SSH_FXP_READLINK);
        name_body(&[("/actual", Attributes::new())])
    });
    let call = stub.client.readlink("/lnk", "me");
    let (cmd, data) = stub.exchange(&call.request);
    assert_eq!(call.finish(cmd, &data).unwrap().unwrap(), "/actual");
}

#[test]
fn async_status_mutators() {
    let mut stub = with_stub(|cmd, _| {
        assert!(matches!(
            cmd,
            SSH_FXP_MKDIR
                | SSH_FXP_RMDIR
                | SSH_FXP_REMOVE
                | SSH_FXP_RENAME
                | SSH_FXP_SYMLINK
                | SSH_FXP_LINK
                | SSH_FXP_SETSTAT
                | SSH_FXP_FSETSTAT
                | SSH_FXP_CLOSE
                | SSH_FXP_BLOCK
                | SSH_FXP_UNBLOCK
        ));
        ok_status()
    });

    let attrs = Attributes::new();
    let handle = File(b"h".to_vec());
    let dir = Directory(b"d".to_vec());

    let calls = vec![
        stub.client.mkdir("/a", &attrs, "me"),
        stub.client.rmdir("/a", "me"),
        stub.client.remove("/a", "me"),
        stub.client.rename("/a", "/b", None, "me"),
        stub.client.symlink("/b", "/a", "me"),
        stub.client.hardlink("/b", "/a", "me"),
        stub.client.setstat("/a", &attrs, "me"),
        stub.client.fsetstat(&handle, &attrs, "me"),
        stub.client.fclose(&handle, "me"),
        stub.client.closedir(&dir, "me"),
        stub.client.block(&handle, 0, 0, 0, "me"),
        stub.client.unblock(&handle, 0, 0, "me"),
    ];
    for call in calls {
        let (cmd, data) = stub.exchange(&call.request);
        call.finish(cmd, &data).unwrap();
    }
}

#[test]
fn async_extended_returns_payload_on_reply() {
    let mut stub = with_stub(|cmd, _| {
        assert_eq!(cmd, SSH_FXP_EXTENDED);
        (SSH_FXP_EXTENDED_REPLY, b"payload".to_vec())
    });
    let call = stub.client.extended("x", b"", "me");
    let (cmd, data) = stub.exchange(&call.request);
    let out = call.finish(cmd, data).unwrap();
    assert_eq!(out, Some(b"payload".to_vec()));
}

#[test]
fn async_extended_returns_none_on_ok_status() {
    let mut stub = with_stub(|cmd, _| {
        assert_eq!(cmd, SSH_FXP_EXTENDED);
        ok_status()
    });
    let call = stub.client.extended("x", b"", "me");
    let (cmd, data) = stub.exchange(&call.request);
    assert_eq!(call.finish(cmd, data).unwrap(), None);
}

#[test]
fn line_seek_is_an_extended_request() {
    let mut stub = with_stub(|cmd, body| {
        assert_eq!(cmd, SSH_FXP_EXTENDED);
        assert_eq!(
            body,
            b"\x00\x00\x00\x09text-seek\x00\x00\x00\x01h\x00\x00\x00\x00\x00\x00\x00\x2a"
        );
        (SSH_FXP_EXTENDED_REPLY, b"ignored".to_vec())
    });
    let call = stub.client.flineseek(&File(b"h".to_vec()), 42, "me");
    let (cmd, data) = stub.exchange(&call.request);
    call.finish(cmd, data).unwrap();
}

#[test]
fn link_says_whether_it_is_symbolic() {
    let mut stub = with_stub(|cmd, body| {
        assert_eq!(cmd, SSH_FXP_LINK);
        assert_eq!(body, b"\x00\x00\x00\x01b\x00\x00\x00\x01a\x01");
        ok_status()
    });
    let call = stub.client.link("b", "a", true, "me");
    let (cmd, data) = stub.exchange(&call.request);
    call.finish(cmd, &data).unwrap();
}

// Those who wait.

#[test]
fn a_reply_is_delivered_once_and_strays_are_ignored() {
    let mut client = AsyncSftpClient::new(SSH_FXP_VERSION, &3u32.to_be_bytes()).unwrap();
    let call = client.remove("/f", 'a');
    let other = client.remove("/g", 'b');
    let mut wire = call.request.id.to_be_bytes().to_vec();
    wire.extend_from_slice(b"payload");
    assert!(matches!(
        client.run_reader(ReadEvent::Packet(7, wire.clone())),
        ReadAction::Deliver('a', 7, p) if p == b"payload".to_vec()
    ));
    assert!(matches!(
        client.run_reader(ReadEvent::Packet(7, wire)),
        ReadAction::Ignore
    ));
    assert!(matches!(
        client.run_reader(ReadEvent::Packet(7, vec![0, 0, 0])),
        ReadAction::Ignore
    ));
    assert!(matches!(
        client.run_reader(ReadEvent::Packet(7, 99u32.to_be_bytes().to_vec())),
        ReadAction::Ignore
    ));
    assert!(matches!(
        client.run_reader(ReadEvent::Packet(8, other.request.id.to_be_bytes().to_vec())),
        ReadAction::Deliver('b', 8, p) if p.is_empty()
    ));
}

#[test]
fn a_cancelled_request_waits_no_more() {
    let mut client = AsyncSftpClient::new(SSH_FXP_VERSION, &3u32.to_be_bytes()).unwrap();
    let call = client.remove("/f", 'a');
    client.cancel(call.request.id);
    assert!(matches!(
        client.run_reader(ReadEvent::Packet(7, call.request.id.to_be_bytes().to_vec())),
        ReadAction::Ignore
    ));
}

#[test]
fn length_zero_is_an_error() {
    let e = read_length(&[0, 0, 0, 0]).unwrap_err();
    assert_eq!(e.kind, IoErrorKind::Other);
    assert_eq!(e.message, "zero-length packet");
    assert_eq!(read_length(&[0, 0, 0, 5]).unwrap(), 5);
}

// The client with one request at a time.

#[test]
fn first_reply_must_be_a_version() {
    let e = SftpClient::new(SSH_FXP_STATUS, &3u32.to_be_bytes()).unwrap_err();
    assert_eq!(e.kind, IoErrorKind::Other);
    assert_eq!(e.message, "Unexpected response to init: 101");
    let e = SftpClient::new(SSH_FXP_VERSION, &6u32.to_be_bytes()).unwrap_err();
    assert_eq!(e.message, "SFTP version mismatch (expected 3, got: 6)");
    let mut body = 3u32.to_be_bytes().to_vec();
    body.extend_from_slice(&field(b"ext"));
    body.extend_from_slice(&field(b"2"));
    let client = SftpClient::new(SSH_FXP_VERSION, &body).unwrap();
    assert_eq!(client.version(), 3);
    assert_eq!(
        client.extensions().to_vec(),
        vec![("ext".to_string(), "2".to_string())]
    );
}

#[test]
fn requests_are_numbered_from_zero() {
    let mut client = SftpClient::new(SSH_FXP_VERSION, &3u32.to_be_bytes()).unwrap();
    for n in 0..5u32 {
        let call = client.rmdir("/d");
        assert_eq!(call.request.id, n);
        let (cmd, id, body) = received(&call.request);
        assert_eq!((cmd, id), (SSH_FXP_RMDIR, n));
        assert_eq!(body, b"\x00\x00\x00\x02/d".to_vec());
    }
}

#[test]
fn requests_hold_command_and_body() {
    let mut client = SftpClient::new(SSH_FXP_VERSION, &3u32.to_be_bytes()).unwrap();
    let attrs = Attributes::new();
    let file = File(b"h".to_vec());
    let dir = Directory(b"d".to_vec());
    let check = |request: Request, cmd: u8, body: &[u8]| {
        let got = received(&request);
        assert_eq!(got.0, cmd);
        assert_eq!(got.2, body.to_vec());
    };
    check(client.mkdir("a", &attrs).request, SSH_FXP_MKDIR, b"\0\0\0\x01a\0\0\0\0");
    check(client.readlink("a").request, SSH_FXP_READLINK, b"\0\0\0\x01a");
    check(client.symlink("a", "b").request, SSH_FXP_SYMLINK, b"\0\0\0\x01a\0\0\0\x01b");
    check(client.hardlink("a", "b").request, SSH_FXP_LINK, b"\0\0\0\x01a\0\0\0\x01b\0");
    check(client.link("a", "b", true).request, SSH_FXP_LINK, b"\0\0\0\x01a\0\0\0\x01b\x01");
    check(
        client.open("a", OpenOptions::new().write(true), &attrs).request,
        SSH_FXP_OPEN,
        b"\0\0\0\x01a\0\0\0\x02\0\0\0\0",
    );
    check(client.realpath(".", None, None).request, SSH_FXP_REALPATH, b"\0\0\0\x01.");
    check(client.setstat("a", &attrs).request, SSH_FXP_SETSTAT, b"\0\0\0\x01a\0\0\0\0");
    check(client.stat("a", None).request, SSH_FXP_STAT, b"\0\0\0\x01a\0\0\0\0");
    check(client.stat("a", Some(5)).request, SSH_FXP_STAT, b"\0\0\0\x01a\0\0\0\x05");
    check(client.lstat("a", Some(5)).request, SSH_FXP_LSTAT, b"\0\0\0\x01a\0\0\0\x05");
    check(client.remove("a").request, SSH_FXP_REMOVE, b"\0\0\0\x01a");
    check(
        client.rename("a", "b", Some(1)).request,
        SSH_FXP_RENAME,
        b"\0\0\0\x01a\0\0\0\x01b\0\0\0\x01",
    );
    check(client.opendir("a").request, SSH_FXP_OPENDIR, b"\0\0\0\x01a");
    check(client.extended("x", b"y").request, SSH_FXP_EXTENDED, b"\0\0\0\x01xy");
    check(
        client.block(&file, 1, 2, 3).request,
        SSH_FXP_BLOCK,
        b"\0\0\0\x01h\0\0\0\0\0\0\0\x01\0\0\0\0\0\0\0\x02\0\0\0\x03",
    );
    check(
        client.unblock(&file, 1, 2).request,
        SSH_FXP_UNBLOCK,
        b"\0\0\0\x01h\0\0\0\0\0\0\0\x01\0\0\0\0\0\0\0\x02",
    );
    check(client.fsetstat(&file, &attrs).request, SSH_FXP_FSETSTAT, b"\0\0\0\x01h\0\0\0\0");
    check(client.fstat(&file, None).request, SSH_FXP_FSTAT, b"\0\0\0\x01h\0\0\0\0");
    check(
        client.pwrite(&file, 1, b"xy").request,
        SSH_FXP_WRITE,
        b"\0\0\0\x01h\0\0\0\0\0\0\0\x01\0\0\0\x02xy",
    );
    check(
        client.pread(&file, 1, 2).request,
        SSH_FXP_READ,
        b"\0\0\0\x01h\0\0\0\0\0\0\0\x01\0\0\0\x02",
    );
    check(client.fclose(&file).request, SSH_FXP_CLOSE, b"\0\0\0\x01h");
    check(
        client.flineseek(&file, 1).request,
        SSH_FXP_EXTENDED,
        b"\0\0\0\x09text-seek\0\0\0\x01h\0\0\0\0\0\0\0\x01",
    );
    check(client.closedir(&dir).request, SSH_FXP_CLOSE, b"\0\0\0\x01d");
    check(client.readdir(&dir).request, SSH_FXP_READDIR, b"\0\0\0\x01d");
}

#[test]
fn a_request_accepts_its_own_reply_only() {
    let mut client = SftpClient::new(SSH_FXP_VERSION, &3u32.to_be_bytes()).unwrap();
    let _ = client.rmdir("/a");
    let call = client.rmdir("/b");
    assert_eq!(
        call.request.accept(b"\0\0\0\x01payload").unwrap().unwrap(),
        b"payload".to_vec()
    );
    assert_eq!(
        call.request.accept(b"\0\0\0\x00payload").unwrap_err(),
        Breach::RequestId
    );
    match call.request.accept(b"\0\0").unwrap() {
        Err(Error::Io(e)) => assert_eq!(e.message, "response too short to contain request id"),
        other => panic!("expected a transport error, got {:?}", other),
    }
}

#[test]
fn calls_make_sense_of_whole_packets() {
    let mut client = SftpClient::new(SSH_FXP_VERSION, &3u32.to_be_bytes()).unwrap();
    let file = File(b"h".to_vec());
    let packet = |request: &Request, reply: (u8, Vec<u8>)| {
        let mut body = request.id.to_be_bytes().to_vec();
        body.extend_from_slice(&reply.1);
        (reply.0, body)
    };

    let call = client.rmdir("/d");
    let (kind, body) = packet(&call.request, ok_status());
    call.complete(kind, &body).unwrap().unwrap();
    let (kind, body) = packet(&call.request, err_status(SSH_FX_EOF));
    assert!(matches!(call.complete(kind, &body).unwrap(), Err(Error::Eof(_, _))));

    let call = client.readlink("/l");
    let (kind, body) = packet(&call.request, name_body(&[("/t", Attributes::new())]));
    assert_eq!(call.complete(kind, &body).unwrap().unwrap(), "/t");
    let (kind, body) = packet(&call.request, name_body(&[]));
    assert_eq!(call.complete(kind, &body).unwrap_err(), Breach::NoName);

    let call = client.open("/f", OpenOptions::new(), &Attributes::new());
    let (kind, body) = packet(&call.request, handle_body(b"H"));
    assert_eq!(call.complete(kind, &body).unwrap().unwrap().0, b"H".to_vec());

    let call = client.opendir("/d");
    let (kind, body) = packet(&call.request, handle_body(b"D"));
    assert_eq!(call.complete(kind, &body).unwrap().unwrap().0, b"D".to_vec());
    let (kind, body) = packet(&call.request, ok_status());
    assert_eq!(call.complete(kind, &body).unwrap_err(), Breach::OkStatus);

    let call = client.fstat(&file, None);
    let (kind, body) = packet(&call.request, attrs_body(&Attributes::new()));
    assert_eq!(call.complete(kind, &body).unwrap().unwrap(), Attributes::new());

    let call = client.pread(&file, 0, 5);
    let (kind, body) = packet(&call.request, data_body(b"hello"));
    assert_eq!(call.complete(kind, &body).unwrap().unwrap(), b"hello".to_vec());
    assert_eq!(
        call.complete(kind, b"\xff\xff\xff\xff").unwrap_err(),
        Breach::RequestId
    );

    let call = client.readdir(&Directory(b"D".to_vec()));
    let (kind, body) = packet(&call.request, readdir_body(&[("a", "l", Attributes::new())]));
    assert_eq!(
        call.complete(kind, &body).unwrap().unwrap(),
        vec![("a".to_string(), "l".to_string(), Attributes::new())]
    );

    let call = client.extended("x", b"");
    let (kind, body) = packet(&call.request, (SSH_FXP_EXTENDED_REPLY, b"p".to_vec()));
    assert_eq!(call.complete(kind, &body).unwrap().unwrap(), Some(b"p".to_vec()));
    let (kind, body) = packet(&call.request, ok_status());
    assert_eq!(call.complete(kind, &body).unwrap().unwrap(), None);

    let call = client.flineseek(&file, 1);
    let (kind, body) = packet(&call.request, (SSH_FXP_EXTENDED_REPLY, b"p".to_vec()));
    call.complete(kind, &body).unwrap().unwrap();
    assert!(matches!(
        call.complete(kind, b"").unwrap(),
        Err(Error::Io(e)) if e.message == "response too short to contain request id"
    ));
}
