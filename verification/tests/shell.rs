use sftp::attributes::Attributes;
use sftp::command::{interpret, parse_line, parse_ls_args, Command, HELP};
use sftp::constants::{
    SSH_FXP_ATTRS, SSH_FXP_CLOSE, SSH_FXP_DATA, SSH_FXP_HANDLE, SSH_FXP_LINK, SSH_FXP_MKDIR,
    SSH_FXP_NAME, SSH_FXP_OPEN, SSH_FXP_OPENDIR, SSH_FXP_READ, SSH_FXP_READDIR, SSH_FXP_REALPATH,
    SSH_FXP_REMOVE, SSH_FXP_RENAME, SSH_FXP_RMDIR, SSH_FXP_SETSTAT, SSH_FXP_STAT, SSH_FXP_STATUS,
    SSH_FXP_SYMLINK, SSH_FXP_VERSION, SSH_FXP_WRITE, SSH_FX_EOF, SSH_FX_FAILURE, SSH_FX_OK,
};
use sftp::error::{Error, IoErrorKind};
use sftp::listing::{describe, format_long, is_dir, list_entries, name_not_after, sort_entries};
use sftp::protocol::{read_raw_packet, split_request_id};
use sftp::reply::Breach;
use sftp::shell::{Job, Shell};
use sftp::stage::{Action, Event, Failure, Stage};
use sftp::sync::SftpClient;
use sftp::wire::Cursor;

fn shell_at(cwd: &str) -> Shell {
    let client = SftpClient::new(SSH_FXP_VERSION, &3u32.to_be_bytes()).unwrap();
    Shell::new(client, cwd.to_string())
}

fn field(bytes: &[u8]) -> Vec<u8> {
    let mut body = (bytes.len() as u32).to_be_bytes().to_vec();
    body.extend_from_slice(bytes);
    body
}

fn status(code: u32) -> (u8, Vec<u8>) {
    let mut body = code.to_be_bytes().to_vec();
    body.extend_from_slice(&field(b"m"));
    body.extend_from_slice(&field(b"l"));
    (SSH_FXP_STATUS, body)
}

fn name(path: &str) -> (u8, Vec<u8>) {
    let mut body = 1u32.to_be_bytes().to_vec();
    body.extend_from_slice(&field(path.as_bytes()));
    body.extend_from_slice(&Attributes::new().serialize().unwrap());
    (SSH_FXP_NAME, body)
}

fn attrs(permissions: u32) -> (u8, Vec<u8>) {
    let mut a = Attributes::new();
    a.permissions = Some(permissions);
    (SSH_FXP_ATTRS, a.serialize().unwrap())
}

fn entries(names: &[(&str, &str)]) -> (u8, Vec<u8>) {
    let mut body = (names.len() as u32).to_be_bytes().to_vec();
    for (n, long) in names {
        body.extend_from_slice(&field(n.as_bytes()));
        body.extend_from_slice(&field(long.as_bytes()));
        body.extend_from_slice(&Attributes::new().serialize().unwrap());
    }
    (SSH_FXP_NAME, body)
}

/// Command, request id and body of what an action sends.
fn sent(action: &Action<String>) -> (u8, u32, Vec<u8>) {
    match action {
        Action::Send(bytes) => {
            let (cmd, body) = read_raw_packet(&mut Cursor::new(bytes)).unwrap();
            let (id, payload) = split_request_id(&body).unwrap();
            (cmd, id, payload.to_vec())
        }
        other => panic!("expected a request, got {:?}", other),
    }
}

/// A command under way.
struct Run {
    shell: Shell,
    stage: Stage<String>,
    action: Action<String>,
}

fn start(shell: Shell, line: &str) -> Run {
    let mut shell = shell;
    match shell.dispatch(line) {
        Job::Run(stage, action) => Run { shell, stage, action },
        other => panic!("expected a command that runs, got {:?}", other),
    }
}

impl Run {
    fn event(mut self, event: Event<String>) -> Run {
        let (stage, action) = self.shell.step(self.stage, event);
        Run { shell: self.shell, stage, action }
    }

    /// The server answers the request that was sent.
    fn reply(self, reply: (u8, Vec<u8>)) -> Run {
        let (_, id, _) = sent(&self.action);
        let mut body = id.to_be_bytes().to_vec();
        body.extend_from_slice(&reply.1);
        self.event(Event::Reply(reply.0, body))
    }

    fn asks(self, cmd: u8, body: &[u8]) -> Run {
        let got = sent(&self.action);
        assert_eq!(got.0, cmd);
        assert_eq!(got.2, body.to_vec());
        self
    }

    fn prints(self, lines: &[&str]) -> Shell {
        assert!(matches!(self.stage, Stage::Over));
        match self.action {
            Action::Done(got) => assert_eq!(got, lines.to_vec()),
            other => panic!("expected the end, got {:?}", other),
        }
        self.shell
    }

    fn fails(self) -> (Shell, Failure<String>) {
        assert!(matches!(self.stage, Stage::Over));
        match self.action {
            Action::Fail(f) => (self.shell, f),
            other => panic!("expected a failure, got {:?}", other),
        }
    }
}

fn pwd(shell: &mut Shell) -> String {
    match shell.dispatch::<String>("pwd") {
        Job::Say(lines) => lines.join("\n"),
        other => panic!("expected a line, got {:?}", other),
    }
}

fn words(v: &[&str]) -> Vec<String> {
    v.iter().map(|s| s.to_string()).collect()
}

// Command lines.

#[test]
fn words_of_each_command() {
    let said = |v: &[&str]| format!("{:?}", interpret(&words(v)));
    assert_eq!(said(&[]), "Empty");
    assert_eq!(said(&["quit"]), "Quit");
    assert_eq!(said(&["exit", "now"]), "Quit");
    assert_eq!(said(&["bye"]), "Quit");
    assert_eq!(said(&["help"]), "Help");
    assert_eq!(said(&["?"]), "Help");
    assert_eq!(said(&["pwd"]), "Pwd");
    assert_eq!(said(&["cd"]), "Cd(None)");
    assert_eq!(said(&["cd", "a", "b"]), "Cd(Some(\"a\"))");
    assert_eq!(said(&["ls", "-l", "a"]), "Ls([\"-l\", \"a\"])");
    assert_eq!(said(&["dir"]), "Ls([])");
    assert_eq!(said(&["mkdir", "a"]), "Mkdir(\"a\")");
    assert_eq!(said(&["rmdir", "a"]), "Rmdir(\"a\")");
    assert_eq!(said(&["rm", "a", "b"]), "Rm(\"a\")");
    assert_eq!(said(&["rename", "a", "b"]), "Rename(\"a\", \"b\")");
    assert_eq!(said(&["symlink", "a", "b"]), "Symlink(\"a\", \"b\")");
    assert_eq!(said(&["ln", "a", "b"]), "Ln(\"a\", \"b\", false)");
    assert_eq!(said(&["ln", "-s", "a", "b"]), "Ln(\"a\", \"b\", true)");
    assert_eq!(said(&["ln", "a", "-s", "b"]), "Ln(\"a\", \"b\", false)");
    assert_eq!(said(&["chmod", "644", "a"]), "Chmod(\"644\", \"a\")");
    assert_eq!(said(&["stat", "a"]), "Stat(\"a\")");
    assert_eq!(said(&["get", "a"]), "Get(\"a\", None)");
    assert_eq!(said(&["get", "a", "b"]), "Get(\"a\", Some(\"b\"))");
    assert_eq!(said(&["put", "a"]), "Put(\"a\", None)");
    assert_eq!(said(&["put", "a", "b"]), "Put(\"a\", Some(\"b\"))");
    assert_eq!(said(&["lpwd"]), "Lpwd");
    assert_eq!(said(&["lcd", "a"]), "Lcd(Some(\"a\"))");
    assert_eq!(said(&["lls"]), "Lls(None)");
    assert_eq!(said(&["frobnicate"]), "Unknown(\"frobnicate\")");
}

#[test]
fn missing_arguments_are_told() {
    let cases: [(&[&str], &str); 12] = [
        (&["mkdir"], "usage: mkdir path"),
        (&["rmdir"], "usage: rmdir path"),
        (&["rm"], "usage: rm path"),
        (&["rename", "a"], "usage: rename old new"),
        (&["symlink", "a"], "usage: symlink target link"),
        (&["ln", "-s", "a"], "usage: ln [-s] target link"),
        (&["ln", "a", "b", "c"], "usage: ln [-s] target link"),
        (&["chmod", "644"], "usage: chmod mode path"),
        (&["stat"], "usage: stat path"),
        (&["get"], "usage: get remote [local]"),
        (&["put"], "usage: put local [remote]"),
        (&["ln"], "usage: ln [-s] target link"),
    ];
    for (v, message) in cases {
        match interpret(&words(v)) {
            Command::Misused(Error::Io(e)) => {
                assert_eq!(e.kind, IoErrorKind::InvalidInput);
                assert_eq!(e.message, message);
            }
            other => panic!("expected a complaint, got {:?}", other),
        }
    }
}

#[test]
fn lines_are_split_as_a_shell_does() {
    let said = |line: &str| format!("{:?}", parse_line(line));
    assert_eq!(said("get 'a b' \"c d\""), "Get(\"a b\", Some(\"c d\"))");
    assert_eq!(said("  rm   a\\ b"), "Rm(\"a b\")");
    assert_eq!(said("   "), "Empty");
    assert_eq!(said("# comment"), "Empty");
    assert_eq!(said("rm 'a"), "Malformed(\"missing closing quote\")");
}

#[test]
fn listing_options() {
    let opts = |v: &[&str]| parse_ls_args(&words(v));
    assert_eq!(opts(&[]), (false, None));
    assert_eq!(opts(&["-l"]), (true, None));
    assert_eq!(opts(&["-la", "a"]), (true, Some("a".to_string())));
    assert_eq!(opts(&["a", "-al"]), (true, Some("a".to_string())));
    assert_eq!(opts(&["-x", "a", "b", "-y"]), (false, Some("b".to_string())));
    assert_eq!(opts(&[""]), (false, Some(String::new())));
}

// What needs no server.

#[test]
fn lines_that_need_no_server() {
    let mut shell = shell_at("/home");
    assert!(matches!(shell.dispatch::<String>("quit"), Job::Quit));
    assert!(matches!(shell.dispatch::<String>(""), Job::Say(v) if v.is_empty()));
    assert!(matches!(shell.dispatch::<String>("help"), Job::Say(v) if v == vec![HELP.to_string()]));
    assert_eq!(pwd(&mut shell), "Remote working directory: /home");
    assert!(matches!(shell.dispatch::<String>("lpwd"), Job::Lpwd));
    assert!(matches!(shell.dispatch::<String>("lcd x"), Job::Lcd(Some(p)) if p == "x"));
    assert!(matches!(shell.dispatch::<String>("lls"), Job::Lls(None)));
    assert!(matches!(
        shell.dispatch::<String>("what is this"),
        Job::Complain(s) if s == "unknown command: what (try 'help')"
    ));
    assert!(matches!(
        shell.dispatch::<String>("rm \"x"),
        Job::Complain(s) if s == "parse error: missing closing quote"
    ));
    assert!(matches!(
        shell.dispatch::<String>("rm"),
        Job::Refuse(Error::Io(e)) if e.message == "usage: rm path"
    ));
}

#[test]
fn help_names_every_command() {
    assert_eq!(HELP.lines().count(), 19);
    assert_eq!(HELP.lines().next(), Some("Available commands:"));
    assert_eq!(HELP.lines().last(), Some("  quit, exit, bye        disconnect"));
}

#[test]
fn paths_are_resolved() {
    assert_eq!(shell_at("/home").resolve_remote("a/b"), "/home/a/b");
    assert_eq!(shell_at("/").resolve_remote("a"), "/a");
    assert_eq!(shell_at("/home").resolve_remote("/etc"), "/etc");
    assert_eq!(shell_at("/home").resolve_remote(""), "/home/");
    let once = shell_at("/home").resolve_remote("a");
    assert_eq!(shell_at("/elsewhere").resolve_remote(&once), once);
}

#[test]
fn a_shell_starts_where_the_server_says() {
    let mut client = SftpClient::new(SSH_FXP_VERSION, &3u32.to_be_bytes()).unwrap();
    let call = Shell::home(&mut client);
    let (cmd, body) = read_raw_packet(&mut Cursor::new(&call.request.packet)).unwrap();
    assert_eq!(cmd, SSH_FXP_REALPATH);
    assert_eq!(body, b"\0\0\0\0\0\0\0\x01.".to_vec());
    let (cmd, data) = name("/home/alice");
    let cwd = call.finish(cmd, &data).unwrap().unwrap();
    let mut shell = Shell::new(client, cwd);
    assert_eq!(pwd(&mut shell), "Remote working directory: /home/alice");
}

// Requests that are answered with a status.

#[test]
fn simple_commands_ask_once() {
    let at = || shell_at("/d");
    start(at(), "mkdir a")
        .asks(SSH_FXP_MKDIR, b"\0\0\0\x04/d/a\0\0\0\0")
        .reply(status(SSH_FX_OK))
        .prints(&[]);
    start(at(), "rmdir a")
        .asks(SSH_FXP_RMDIR, b"\0\0\0\x04/d/a")
        .reply(status(SSH_FX_OK))
        .prints(&[]);
    start(at(), "rm /a")
        .asks(SSH_FXP_REMOVE, b"\0\0\0\x02/a")
        .reply(status(SSH_FX_OK))
        .prints(&[]);
    start(at(), "rename a b")
        .asks(SSH_FXP_RENAME, b"\0\0\0\x04/d/a\0\0\0\x04/d/b\0\0\0\x07")
        .reply(status(SSH_FX_OK))
        .prints(&[]);
    start(at(), "symlink a b")
        .asks(SSH_FXP_SYMLINK, b"\0\0\0\x04/d/b\0\0\0\x01a")
        .reply(status(SSH_FX_OK))
        .prints(&[]);
    start(at(), "ln -s a b")
        .asks(SSH_FXP_SYMLINK, b"\0\0\0\x04/d/b\0\0\0\x01a")
        .reply(status(SSH_FX_OK))
        .prints(&[]);
    start(at(), "ln a b")
        .asks(SSH_FXP_LINK, b"\0\0\0\x04/d/b\0\0\0\x04/d/a\0")
        .reply(status(SSH_FX_OK))
        .prints(&[]);
    start(at(), "chmod 755 a")
        .asks(SSH_FXP_SETSTAT, b"\0\0\0\x04/d/a\0\0\0\x04\0\0\x01\xed")
        .reply(status(SSH_FX_OK))
        .prints(&[]);
}

#[test]
fn refused_commands_tell_why() {
    let (_, f) = start(shell_at("/d"), "rm a").reply(status(SSH_FX_FAILURE)).fails();
    assert!(matches!(f, Failure::Protocol(Error::Failure(m, l)) if m == "m" && l == "l"));
    let (_, f) = start(shell_at("/d"), "rm a")
        .event(Event::Failed("broken".to_string()))
        .fails();
    assert!(matches!(f, Failure::Outside(e) if e == "broken"));
    let (_, f) = start(shell_at("/d"), "rm a").event(Event::Reply(101, vec![0])).fails();
    assert!(matches!(
        f,
        Failure::Protocol(Error::Io(e)) if e.message == "response too short to contain request id"
    ));
}

#[test]
fn modes_are_octal() {
    let mode = |m: &str| start(shell_at("/"), &format!("chmod {} a", m));
    assert_eq!(sent(&mode("0").action).2[11..], [0, 0, 0, 0][1..]);
    assert_eq!(sent(&mode("+17").action).2[10..], [0, 0, 0, 15]);
    assert_eq!(sent(&mode("37777777777").action).2[10..], [255, 255, 255, 255]);
    for (m, why) in [
        ("8", "invalid digit found in string"),
        ("u+x", "invalid digit found in string"),
        ("-1", "invalid digit found in string"),
        ("+", "invalid digit found in string"),
        ("''", "cannot parse integer from empty string"),
        ("40000000000", "number too large to fit in target type"),
    ] {
        let (_, f) = mode(m).fails();
        match f {
            Failure::Protocol(Error::Io(e)) => {
                assert_eq!(e.kind, IoErrorKind::InvalidInput);
                let shown = if m == "''" { "" } else { m };
                assert_eq!(e.message, format!("invalid mode '{}': {}", shown, why));
            }
            other => panic!("expected a complaint, got {:?}", other),
        }
    }
}

#[test]
fn events_that_answer_nothing_change_nothing() {
    let run = start(shell_at("/d"), "rm a").event(Event::Ready);
    assert!(matches!(run.action, Action::Wait));
    let run = run.event(Event::Bytes(vec![1]));
    assert!(matches!(run.action, Action::Wait));
    let body = [&[0, 0, 0, 0][..], &status(SSH_FX_OK).1].concat();
    let run = run.event(Event::Reply(SSH_FXP_STATUS, body.clone()));
    assert!(matches!(run.action, Action::Done(_)));
    let run = run.event(Event::Reply(SSH_FXP_STATUS, body));
    assert!(matches!(run.action, Action::Wait));
}

#[test]
fn a_reply_to_another_request_is_a_breach() {
    let run = start(shell_at("/d"), "rm a").event(Event::Reply(
        SSH_FXP_STATUS,
        [&[0, 0, 0, 9][..], &status(SSH_FX_OK).1].concat(),
    ));
    assert!(matches!(run.action, Action::Abort(Breach::RequestId)));
}

// `cd` and `stat`.

#[test]
fn cd_goes_to_directories_only() {
    let mut shell = start(shell_at("/d"), "cd sub")
        .asks(SSH_FXP_REALPATH, b"\0\0\0\x06/d/sub")
        .reply(name("/real/sub"))
        .asks(SSH_FXP_STAT, b"\0\0\0\x09/real/sub\0\0\0\0")
        .reply(attrs(0o040755))
        .prints(&[]);
    assert_eq!(pwd(&mut shell), "Remote working directory: /real/sub");

    let (mut shell, f) = start(shell, "cd file")
        .reply(name("/real/file"))
        .reply(attrs(0o100644))
        .fails();
    assert!(matches!(
        f,
        Failure::Protocol(Error::NotADirectory(m, p)) if m.is_empty() && p == "/real/file"
    ));
    assert_eq!(pwd(&mut shell), "Remote working directory: /real/sub");

    let mut shell = start(shell, "cd")
        .asks(SSH_FXP_REALPATH, b"\0\0\0\x01/")
        .reply(name("/"))
        .reply(attrs(0o040755))
        .prints(&[]);
    assert_eq!(pwd(&mut shell), "Remote working directory: /");
}

#[test]
fn cd_to_nowhere_is_a_breach() {
    let run = start(shell_at("/"), "cd x").reply((SSH_FXP_NAME, vec![0, 0, 0, 0]));
    assert!(matches!(run.action, Action::Abort(Breach::NoName)));
}

#[test]
fn stat_prints_what_is_known() {
    start(shell_at("/d"), "stat f")
        .asks(SSH_FXP_STAT, b"\0\0\0\x04/d/f\0\0\0\0")
        .reply(attrs(0o100644))
        .prints(&["/d/f:", "  permissions: 100644"]);
    let mut a = Attributes::new();
    assert_eq!(describe("p", &a), vec!["p:".to_string()]);
    a.size = Some(12);
    a.permissions = Some(0o755);
    a.uid = Some(1);
    a.gid = Some(2);
    a.owner = Some("o".to_string());
    a.group = Some("g".to_string());
    a.modify_time = Some((99, Some(5)));
    assert_eq!(
        describe("p", &a),
        words(&[
            "p:",
            "  size: 12",
            "  permissions: 755",
            "  uid/gid: 1/2",
            "  owner/group: o/g",
            "  mtime: 99",
        ])
    );
}

// `ls`.

#[test]
fn ls_of_a_directory_is_sorted() {
    start(shell_at("/d"), "ls")
        .asks(SSH_FXP_STAT, b"\0\0\0\x02/d\0\0\0\0")
        .reply(attrs(0o040755))
        .asks(SSH_FXP_OPENDIR, b"\0\0\0\x02/d")
        .reply((SSH_FXP_HANDLE, field(b"H")))
        .asks(SSH_FXP_READDIR, b"\0\0\0\x01H")
        .reply(entries(&[("b", "long b"), ("a", "first a")]))
        .asks(SSH_FXP_READDIR, b"\0\0\0\x01H")
        .reply(entries(&[("C", ""), ("a", "second a")]))
        .reply(status(SSH_FX_EOF))
        .asks(SSH_FXP_CLOSE, b"\0\0\0\x01H")
        .reply(status(SSH_FX_OK))
        .prints(&["C", "a", "a", "b"]);
}

#[test]
fn long_ls_skips_empty_lines() {
    start(shell_at("/"), "ls -l sub")
        .asks(SSH_FXP_STAT, b"\0\0\0\x04/sub\0\0\0\0")
        .reply(attrs(0o040755))
        .reply((SSH_FXP_HANDLE, field(b"H")))
        .reply(entries(&[("b", "long b"), ("a", "first a"), ("C", ""), ("a", "second a")]))
        .reply(status(SSH_FX_EOF))
        .reply(status(SSH_FX_OK))
        .prints(&["first a", "second a", "long b"]);
}

#[test]
fn ls_of_a_file_prints_its_name() {
    start(shell_at("/d"), "ls f")
        .asks(SSH_FXP_STAT, b"\0\0\0\x04/d/f\0\0\0\0")
        .reply(attrs(0o100644))
        .prints(&["f"]);

    start(shell_at("/d"), "ls ..")
        .reply(attrs(0o100644))
        .prints(&["/d/.."]);

    start(shell_at("/d"), "ls -l f")
        .reply(attrs(0o100644))
        .prints(&["100644 - /d/f"]);

    let run = |name: Option<String>| {
        let mut shell = shell_at("/d");
        let (stage, action) = shell.ls_named("/d/f".to_string(), name, false);
        Run { shell, stage, action }.reply(attrs(0o100644))
    };
    run(Some("other".to_string())).prints(&["other"]);
    run(None).prints(&["/d/f"]);
}

#[test]
fn ls_closes_the_directory_when_reading_fails() {
    let (_, f) = start(shell_at("/"), "ls")
        .reply(attrs(0o040755))
        .reply((SSH_FXP_HANDLE, field(b"H")))
        .reply(status(SSH_FX_FAILURE))
        .asks(SSH_FXP_CLOSE, b"\0\0\0\x01H")
        .event(Event::Failed("gone".to_string()))
        .fails();
    assert!(matches!(f, Failure::Protocol(Error::Failure(_, _))));
}

#[test]
fn ls_fails_when_closing_fails() {
    let (_, f) = start(shell_at("/"), "ls")
        .reply(attrs(0o040755))
        .reply((SSH_FXP_HANDLE, field(b"H")))
        .reply(status(SSH_FX_EOF))
        .reply(status(SSH_FX_FAILURE))
        .fails();
    assert!(matches!(f, Failure::Protocol(Error::Failure(_, _))));
}

#[test]
fn names_are_ordered_by_their_bytes() {
    let entry = |n: &str| (n.to_string(), n.to_string(), Attributes::new());
    let list = vec![entry("b"), entry("ab"), entry("a"), entry("\u{fc}"), entry("B"), entry("a")];
    assert_eq!(sort_entries(&list), vec![4, 2, 5, 1, 0, 3]);
    assert_eq!(list_entries(&list, false), words(&["B", "a", "a", "ab", "b", "\u{fc}"]));
    assert!(list_entries(&Vec::new(), true).is_empty());
    assert!(name_not_after("a", "a"));
    assert!(name_not_after("a", "ab"));
    assert!(!name_not_after("b", "ab"));
    assert!(name_not_after("\u{ffff}", "\u{10000}"));
}

#[test]
fn many_names_are_sorted() {
    let mut list = Vec::new();
    let mut n: u32 = 1;
    for _ in 0..500 {
        n = n.wrapping_mul(1103515245).wrapping_add(12345);
        list.push((format!("{}", n % 100), String::new(), Attributes::new()));
    }
    let mut expected: Vec<usize> = (0..500).collect();
    expected.sort_by(|a, b| list[*a].0.cmp(&list[*b].0));
    assert_eq!(sort_entries(&list), expected);
}

#[test]
fn modes_of_directories() {
    let mut a = Attributes::new();
    assert!(!is_dir(&a));
    a.permissions = Some(0o040000);
    assert!(is_dir(&a));
    a.permissions = Some(0o060000);
    assert!(!is_dir(&a));
    a.permissions = Some(0o100755);
    assert!(!is_dir(&a));
}

#[test]
fn long_lines() {
    let mut a = Attributes::new();
    assert_eq!(format_long("/p", &a), "? - /p");
    a.permissions = Some(0o100644);
    a.size = Some(u64::MAX);
    assert_eq!(format_long("/p", &a), "100644 18446744073709551615 /p");
    a.permissions = Some(0);
    a.size = Some(0);
    assert_eq!(format_long("/p", &a), "0 0 /p");
}

// `get`.

#[test]
fn get_writes_what_the_server_sends() {
    let run = start(shell_at("/d"), "get f out")
        .asks(SSH_FXP_OPEN, b"\0\0\0\x04/d/f\0\0\0\x01\0\0\0\0")
        .reply((SSH_FXP_HANDLE, field(b"H")));
    assert!(matches!(&run.action, Action::Create(p) if p == "out"));
    let run = run
        .event(Event::Ready)
        .asks(SSH_FXP_READ, b"\0\0\0\x01H\0\0\0\0\0\0\0\0\0\0\x80\0")
        .reply((SSH_FXP_DATA, field(b"hello ")));
    assert!(matches!(&run.action, Action::Write(b) if b == b"hello "));
    let run = run
        .event(Event::Ready)
        .asks(SSH_FXP_READ, b"\0\0\0\x01H\0\0\0\0\0\0\0\x06\0\0\x80\0")
        .reply((SSH_FXP_DATA, field(b"world")));
    assert!(matches!(&run.action, Action::Write(b) if b == b"world"));
    run.event(Event::Ready)
        .asks(SSH_FXP_READ, b"\0\0\0\x01H\0\0\0\0\0\0\0\x0b\0\0\x80\0")
        .reply(status(SSH_FX_EOF))
        .asks(SSH_FXP_CLOSE, b"\0\0\0\x01H")
        .reply(status(SSH_FX_FAILURE))
        .prints(&["Fetched out (11 bytes)"]);
}

#[test]
fn get_finds_a_local_name() {
    let run = start(shell_at("/d"), "get f")
        .asks(SSH_FXP_OPEN, b"\0\0\0\x04/d/f\0\0\0\x01\0\0\0\0")
        .reply((SSH_FXP_HANDLE, field(b"H")));
    assert!(matches!(&run.action, Action::Create(p) if p == "f"));
    run.event(Event::Ready)
        .reply((SSH_FXP_DATA, field(b"")))
        .asks(SSH_FXP_CLOSE, b"\0\0\0\x01H")
        .event(Event::Failed("gone".to_string()))
        .prints(&["Fetched f (0 bytes)"]);
    let run = start(shell_at("/d"), "get ..").reply((SSH_FXP_HANDLE, field(b"H")));
    assert!(matches!(&run.action, Action::Create(p) if p == "/d/.."));

    let mut shell = shell_at("/d");
    let (stage, action) = shell.get_named("f", Some("other".to_string()));
    let run = Run { shell, stage, action }.reply((SSH_FXP_HANDLE, field(b"H")));
    assert!(matches!(&run.action, Action::Create(p) if p == "other"));
}

#[test]
fn get_closes_the_file_whatever_fails() {
    let opened = || start(shell_at("/"), "get f o").reply((SSH_FXP_HANDLE, field(b"H")));
    let (_, f) = opened()
        .event(Event::Failed("no create".to_string()))
        .asks(SSH_FXP_CLOSE, b"\0\0\0\x01H")
        .reply(status(SSH_FX_OK))
        .fails();
    assert!(matches!(f, Failure::Outside(e) if e == "no create"));
    let (_, f) = opened()
        .event(Event::Ready)
        .reply((SSH_FXP_DATA, field(b"x")))
        .event(Event::Failed("no write".to_string()))
        .asks(SSH_FXP_CLOSE, b"\0\0\0\x01H")
        .reply(status(SSH_FX_OK))
        .fails();
    assert!(matches!(f, Failure::Outside(e) if e == "no write"));
    let (_, f) = opened()
        .event(Event::Ready)
        .reply(status(SSH_FX_FAILURE))
        .asks(SSH_FXP_CLOSE, b"\0\0\0\x01H")
        .reply(status(SSH_FX_OK))
        .fails();
    assert!(matches!(f, Failure::Protocol(Error::Failure(_, _))));
    let (_, f) = start(shell_at("/"), "get f o").reply(status(SSH_FX_FAILURE)).fails();
    assert!(matches!(f, Failure::Protocol(Error::Failure(_, _))));
    let run = opened().event(Event::Ready).reply(status(SSH_FX_OK));
    assert!(matches!(run.action, Action::Abort(Breach::OkStatus)));
}

// `put`.

#[test]
fn put_sends_what_is_read() {
    let run = start(shell_at("/d"), "put local sub/name");
    assert!(matches!(&run.action, Action::Open(p) if p == "local"));
    let run = run
        .event(Event::Ready)
        .asks(SSH_FXP_OPEN, b"\0\0\0\x0b/d/sub/name\0\0\0\x1a\0\0\0\0")
        .reply((SSH_FXP_HANDLE, field(b"H")));
    assert!(matches!(run.action, Action::Read(32768)));
    let run = run
        .event(Event::Bytes(b"abc".to_vec()))
        .asks(SSH_FXP_WRITE, b"\0\0\0\x01H\0\0\0\0\0\0\0\0\0\0\0\x03abc")
        .reply(status(SSH_FX_OK));
    assert!(matches!(run.action, Action::Read(32768)));
    let run = run
        .event(Event::Bytes(b"de".to_vec()))
        .asks(SSH_FXP_WRITE, b"\0\0\0\x01H\0\0\0\0\0\0\0\x03\0\0\0\x02de")
        .reply(status(SSH_FX_OK));
    run.event(Event::Bytes(Vec::new()))
        .asks(SSH_FXP_CLOSE, b"\0\0\0\x01H")
        .reply(status(SSH_FX_OK))
        .prints(&["Uploaded /d/sub/name (5 bytes)"]);
}

#[test]
fn put_finds_a_remote_name() {
    let run = start(shell_at("/d"), "put dir/file");
    assert!(matches!(&run.action, Action::Open(p) if p == "dir/file"));
    run.event(Event::Ready)
        .asks(SSH_FXP_OPEN, b"\0\0\0\x07/d/file\0\0\0\x1a\0\0\0\0");
    let (_, f) = start(shell_at("/d"), "put ..").fails();
    match f {
        Failure::Protocol(Error::Io(e)) => {
            assert_eq!(e.kind, IoErrorKind::InvalidInput);
            assert_eq!(e.message, "cannot derive remote name from local path");
        }
        other => panic!("expected a complaint, got {:?}", other),
    }
}

#[test]
fn put_closes_the_file_whatever_fails() {
    let (_, f) = start(shell_at("/"), "put l r")
        .event(Event::Failed("no such file".to_string()))
        .fails();
    assert!(matches!(f, Failure::Outside(e) if e == "no such file"));
    let opened = || {
        start(shell_at("/"), "put l r")
            .event(Event::Ready)
            .reply((SSH_FXP_HANDLE, field(b"H")))
    };
    let (_, f) = opened()
        .event(Event::Failed("no read".to_string()))
        .asks(SSH_FXP_CLOSE, b"\0\0\0\x01H")
        .reply(status(SSH_FX_OK))
        .fails();
    assert!(matches!(f, Failure::Outside(e) if e == "no read"));
    let (_, f) = opened()
        .event(Event::Bytes(b"x".to_vec()))
        .reply(status(SSH_FX_FAILURE))
        .asks(SSH_FXP_CLOSE, b"\0\0\0\x01H")
        .reply(status(SSH_FX_OK))
        .fails();
    assert!(matches!(f, Failure::Protocol(Error::Failure(_, _))));
    let (_, f) = start(shell_at("/"), "put l r")
        .event(Event::Ready)
        .reply(status(SSH_FX_FAILURE))
        .fails();
    assert!(matches!(f, Failure::Protocol(Error::Failure(_, _))));
}

#[test]
fn last_components_are_found() {
    // Where `get` without a local path writes to.
    let found = |path: &str| {
        let run = start(shell_at("/d"), &format!("get {}", path));
        match run.reply((SSH_FXP_HANDLE, field(b"H"))).action {
            Action::Create(local) => local,
            other => panic!("expected a file to create, got {:?}", other),
        }
    };
    assert_eq!(found("/usr/bin/"), "bin");
    assert_eq!(found("tmp/foo.txt"), "foo.txt");
    assert_eq!(found("foo.txt/."), "foo.txt");
    assert_eq!(found("foo.txt/.//"), "foo.txt");
    assert_eq!(found("foo.txt"), "foo.txt");
    assert_eq!(found("foo.txt/.."), "/d/foo.txt/..");
    assert_eq!(found("/"), "/");

    // Where `put` without a remote path writes to, if anywhere.
    let target = |path: &str| {
        let run = start(shell_at("/d"), &format!("put {}", path));
        match run.action {
            Action::Open(ref local) => assert_eq!(local, path),
            Action::Fail(_) => return None,
            other => panic!("expected a file to open, got {:?}", other),
        }
        let (_, _, body) = sent(&run.event(Event::Ready).action);
        Some(String::from_utf8(body[4..body.len() - 8].to_vec()).unwrap())
    };
    assert_eq!(target("a/b"), Some("/d/b".to_string()));
    assert_eq!(target("./b/"), Some("/d/b".to_string()));
    assert_eq!(target("..."), Some("/d/...".to_string()));
    assert_eq!(target("a/.."), None);
    assert_eq!(target("."), None);
    assert_eq!(target("/"), None);
}

#[test]
fn names_that_were_found_are_used() {
    let mut shell = shell_at("/d");
    let (_, action) = shell.put_named::<String>("x/y", Some("z".to_string()));
    assert!(matches!(action, Action::Open(p) if p == "x/y"));
    let (stage, action) = shell.put_named::<String>("x/y", None);
    assert!(matches!(stage, Stage::Over));
    assert!(matches!(action, Action::Fail(Failure::Protocol(Error::Io(_)))));
}
