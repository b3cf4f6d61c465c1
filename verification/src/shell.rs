//! The shell: what each command asks of the server and of the local files,
//! and what it makes of the answers.

use vstd::prelude::*;
use vstd::string::*;

use crate::attributes::Attributes;
use crate::command::{
    line_command, opt_view, parse_line, parse_ls_args, texts, wants_long, Command, HELP,
};
use crate::constants::SSH_FXP_REALPATH;
use crate::error::{Error, IoError, IoErrorKind};
use crate::listing::{describe, format_long, is_dir, list_entries};
use crate::path::{can_be_found, file_name};
use crate::protocol::{opt_chars, realpath_body};
use crate::reply::entry_views;
use crate::stage::{
    is_end_of_data, listen_attrs, listen_data, listen_handle, listen_listing, listen_name,
    listen_reply, listen_status, result_view, Action, ActionView, Event, Failure, Heard, Stage,
};
use crate::steps::{
    cd_check_step, cd_resolve_step, cd_start, chmod_start, get_close, get_close_step,
    get_create_step, get_open, get_open_step, get_read, get_read_step, get_start,
    get_write_step, job_of, ln_start, ls_close_step, ls_open_step, ls_path, ls_quit_step,
    ls_read, ls_read_step, ls_start, ls_stat_step, mkdir_start, moved, name_fits, named_path,
    next_step, put_close, put_close_step, put_open_step, put_read_step, put_source,
    put_source_step, put_start, put_write_step, rename_start, resolved, rm_start, rmdir_start,
    stat_start, stat_step, status_step, symlink_start, transfer_line, JobView, ShellView,
    StepView, CHUNK,
};
use crate::sync::{advanced, issued, NameCall, Request, SftpClient};
use crate::text::{begins_with, ends_with, push_decimal, u32_from_octal};
use crate::types::{Directory, File, OpenOptions};

verus! {

/// A shell on a connection.
pub struct Shell {
    client: SftpClient,
    remote_cwd: String,
}

impl View for Shell {
    type V = ShellView;

    closed spec fn view(&self) -> ShellView {
        ShellView { session: self.client@, cwd: self.remote_cwd@ }
    }
}

/// Whether a step of the shell led where `step` says.
pub open spec fn leads_to<E>(shell: Shell, r: (Stage<E>, Action<E>), step: StepView<E>) -> bool {
    &&& shell@ == step.shell
    &&& r.0@ == step.stage
    &&& r.1@ == step.action
}

/// What a line sets going.
#[derive(Debug)]
pub enum Job<E> {
    /// The shell is to be left.
    Quit,
    /// These lines are to be printed.
    Say(Vec<String>),
    /// This line is to be printed as an error.
    Complain(String),
    /// This error is to be reported.
    Refuse(Error),
    /// The local working directory is to be printed.
    Lpwd,
    /// The local working directory is to be changed: to this path, or home.
    Lcd(Option<String>),
    /// A local directory is to be listed: this one, or the working directory.
    Lls(Option<String>),
    /// A command that runs in steps, and its first action.
    Run(Stage<E>, Action<E>),
}

impl<E> View for Job<E> {
    type V = JobView<E>;

    open spec fn view(&self) -> JobView<E> {
        match self {
            Job::Quit => JobView::Quit,
            Job::Say(lines) => JobView::Say(texts(lines@)),
            Job::Complain(line) => JobView::Complain(line@),
            Job::Refuse(e) => JobView::Refuse(e@),
            Job::Lpwd => JobView::Lpwd,
            Job::Lcd(path) => JobView::Lcd(opt_view(*path)),
            Job::Lls(path) => JobView::Lls(opt_view(*path)),
            Job::Run(stage, action) => JobView::Run(stage@, action@),
        }
    }
}

/// The place behind so many bytes.
fn move_by(offset: u64, count: u64) -> (o: u64)
    ensures
        o == moved(offset, count),
{
    let left = u64::MAX - offset;
    if count <= left {
        offset + count
    } else {
        count - left - 1
    }
}

fn send<E>(request: Request) -> (a: Action<E>)
    ensures
        a@ == ActionView::<E>::Send(request@.packet),
{
    Action::Send(request.packet)
}

fn no_lines<E>() -> (a: Action<E>)
    ensures
        a@ == ActionView::<E>::Done(seq![]),
{
    let lines: Vec<String> = Vec::new();
    assert(texts(lines@) =~= seq![]);
    Action::Done(lines)
}

fn say<E>(line: String) -> (job: Job<E>)
    ensures
        job@ == JobView::<E>::Say(seq![line@]),
{
    let mut lines: Vec<String> = Vec::new();
    lines.push(line);
    assert(texts(lines@) =~= seq![line@]);
    Job::Say(lines)
}

fn one_line<E>(line: String) -> (a: Action<E>)
    ensures
        a@ == ActionView::<E>::Done(seq![line@]),
{
    let mut lines: Vec<String> = Vec::new();
    lines.push(line);
    assert(texts(lines@) =~= seq![line@]);
    Action::Done(lines)
}

fn transfer_report<E>(verb: &str, path: &str, result: Result<u64, Failure<E>>) -> (a: Action<E>)
    ensures
        a@ == (match result {
            Ok(n) => ActionView::Done(seq![transfer_line(verb@, path@, n)]),
            Err(f) => ActionView::Fail(f@),
        }),
{
    match result {
        Ok(n) => {
            let mut line = String::from_str(verb);
            line.append(" ");
            line.append(path);
            line.append(" (");
            push_decimal(&mut line, n);
            line.append(" bytes)");
            one_line(line)
        },
        Err(f) => Action::Fail(f),
    }
}

impl Shell {
    /// The request whose answer is the directory that a shell starts in.
    pub fn home(client: &mut SftpClient) -> (call: NameCall)
        ensures
            call.request@ == issued(
                old(client)@,
                SSH_FXP_REALPATH,
                realpath_body("."@, None, None),
            ),
            final(client)@ == advanced(old(client)@),
    {
        client.realpath(".", None, None)
    }

    /// A shell that starts in the given directory.
    pub fn new(client: SftpClient, remote_cwd: String) -> (shell: Shell)
        ensures
            shell@ == (ShellView { session: client@, cwd: remote_cwd@ }),
    {
        Shell { client, remote_cwd }
    }

    /// A path as seen from the working directory.
    pub fn resolve_remote(&self, path: &str) -> (p: String)
        ensures
            p@ == resolved(self@.cwd, path@),
    {
        if begins_with(path, '/') {
            String::from_str(path)
        } else if ends_with(self.remote_cwd.as_str(), '/') {
            let mut p = self.remote_cwd.clone();
            p.append(path);
            p
        } else {
            let mut p = self.remote_cwd.clone();
            p.append("/");
            p.append(path);
            p
        }
    }

    /// The line that tells the working directory.
    pub fn cmd_pwd(&self) -> (line: String)
        ensures
            line@ == "Remote working directory: "@ + self@.cwd,
    {
        let mut line = String::from_str("Remote working directory: ");
        line.append(self.remote_cwd.as_str());
        line
    }

    /// Begins to create a directory.
    pub fn cmd_mkdir<E>(&mut self, path: &str) -> (r: (Stage<E>, Action<E>))
        ensures
            leads_to(*final(self), r, mkdir_start(old(self)@, path@)),
    {
        let target = self.resolve_remote(path);
        let call = self.client.mkdir(target.as_str(), &Attributes::new());
        (Stage::Status { id: call.request.id }, send(call.request))
    }

    /// Begins to remove a directory.
    pub fn cmd_rmdir<E>(&mut self, path: &str) -> (r: (Stage<E>, Action<E>))
        ensures
            leads_to(*final(self), r, rmdir_start(old(self)@, path@)),
    {
        let target = self.resolve_remote(path);
        let call = self.client.rmdir(target.as_str());
        (Stage::Status { id: call.request.id }, send(call.request))
    }

    /// Begins to remove a file.
    pub fn cmd_rm<E>(&mut self, path: &str) -> (r: (Stage<E>, Action<E>))
        ensures
            leads_to(*final(self), r, rm_start(old(self)@, path@)),
    {
        let target = self.resolve_remote(path);
        let call = self.client.remove(target.as_str());
        (Stage::Status { id: call.request.id }, send(call.request))
    }

    /// Begins to rename a path.
    pub fn cmd_rename<E>(&mut self, from: &str, to: &str) -> (r: (Stage<E>, Action<E>))
        ensures
            leads_to(*final(self), r, rename_start(old(self)@, from@, to@)),
    {
        let from_path = self.resolve_remote(from);
        let to_path = self.resolve_remote(to);
        let call = self.client.rename(from_path.as_str(), to_path.as_str(), None);
        (Stage::Status { id: call.request.id }, send(call.request))
    }

    /// Begins to create a symbolic link to a target, which is taken as it is.
    pub fn cmd_symlink<E>(&mut self, target: &str, link: &str) -> (r: (Stage<E>, Action<E>))
        ensures
            leads_to(*final(self), r, symlink_start(old(self)@, target@, link@)),
    {
        let link_path = self.resolve_remote(link);
        let call = self.client.symlink(link_path.as_str(), target);
        (Stage::Status { id: call.request.id }, send(call.request))
    }

    /// Begins to create a link, hard or symbolic.
    pub fn cmd_ln<E>(&mut self, target: &str, link: &str, symbolic: bool) -> (r: (
        Stage<E>,
        Action<E>,
    ))
        ensures
            leads_to(*final(self), r, ln_start(old(self)@, target@, link@, symbolic)),
    {
        if symbolic {
            return self.cmd_symlink(target, link);
        }
        let link_path = self.resolve_remote(link);
        let target_path = self.resolve_remote(target);
        let call = self.client.hardlink(link_path.as_str(), target_path.as_str());
        (Stage::Status { id: call.request.id }, send(call.request))
    }

    /// Begins to set the permissions of a path, given in octal.
    pub fn cmd_chmod<E>(&mut self, mode_str: &str, path: &str) -> (r: (Stage<E>, Action<E>))
        ensures
            leads_to(*final(self), r, chmod_start(old(self)@, mode_str@, path@)),
    {
        match u32_from_octal(mode_str) {
            Ok(mode) => {
                let target = self.resolve_remote(path);
                let mut attrs = Attributes::new();
                attrs.permissions = Some(mode);
                let call = self.client.setstat(target.as_str(), &attrs);
                (Stage::Status { id: call.request.id }, send(call.request))
            },
            Err(text) => {
                let mut message = String::from_str("invalid mode '");
                message.append(mode_str);
                message.append("': ");
                message.append(text.as_str());
                let e = Error::Io(IoError::new(IoErrorKind::InvalidInput, message));
                (Stage::Over, Action::Fail(Failure::Protocol(e)))
            },
        }
    }

    /// Begins to change the working directory: to a path, or to the root.
    pub fn cmd_cd<E>(&mut self, path: Option<&str>) -> (r: (Stage<E>, Action<E>))
        ensures
            leads_to(*final(self), r, cd_start(old(self)@, opt_chars(path))),
    {
        let target = match path {
            Some(p) => self.resolve_remote(p),
            None => String::from_str("/"),
        };
        let call = self.client.realpath(target.as_str(), None, None);
        (Stage::CdResolve { id: call.request.id }, send(call.request))
    }

    /// Begins to show the attributes of a path.
    pub fn cmd_stat<E>(&mut self, path: &str) -> (r: (Stage<E>, Action<E>))
        ensures
            leads_to(*final(self), r, stat_start(old(self)@, path@)),
    {
        let target = self.resolve_remote(path);
        let call = self.client.stat(target.as_str(), None);
        (Stage::Stat { id: call.request.id, path: target }, send(call.request))
    }

    /// Begins to list a path, or the working directory.
    pub fn cmd_ls<E>(&mut self, args: &[String]) -> (r: (Stage<E>, Action<E>))
        ensures
            exists|name: Option<Seq<char>>| #[trigger]
                can_be_found(ls_path(old(self)@, texts(args@)), name) && leads_to(
                    *final(self),
                    r,
                    ls_start(
                        old(self)@,
                        ls_path(old(self)@, texts(args@)),
                        name,
                        wants_long(texts(args@)),
                    ),
                ),
    {
        let (long, target) = parse_ls_args(args);
        let path = match target {
            Some(p) => self.resolve_remote(p.as_str()),
            None => self.remote_cwd.clone(),
        };
        assert(path@ == ls_path(self@, texts(args@)));
        let name = file_name(path.as_str());
        assert(can_be_found(ls_path(self@, texts(args@)), opt_view(name)));
        self.ls_named(path, name, long)
    }

    /// Begins to list a path of which `name` is the last component.
    pub fn ls_named<E>(&mut self, path: String, name: Option<String>, long: bool) -> (r: (
        Stage<E>,
        Action<E>,
    ))
        ensures
            leads_to(*final(self), r, ls_start(old(self)@, path@, opt_view(name), long)),
    {
        let call = self.client.stat(path.as_str(), None);
        let name = match name {
            Some(n) => n,
            None => path.clone(),
        };
        (Stage::LsStat { id: call.request.id, path, name, long }, send(call.request))
    }

    /// Begins to fetch a file.
    pub fn cmd_get<E>(&mut self, remote: &str, local: Option<&str>) -> (r: (Stage<E>, Action<E>))
        ensures
            match local {
                Some(_) => leads_to(
                    *final(self),
                    r,
                    get_start(old(self)@, remote@, opt_chars(local), None),
                ),
                None => exists|name: Option<Seq<char>>| #[trigger]
                    can_be_found(resolved(old(self)@.cwd, remote@), name) && leads_to(
                        *final(self),
                        r,
                        get_start(old(self)@, remote@, None, name),
                    ),
            },
    {
        match local {
            Some(l) => {
                let path = self.resolve_remote(remote);
                self.get_open(path, String::from_str(l))
            },
            None => {
                let path = self.resolve_remote(remote);
                let name = file_name(path.as_str());
                assert(can_be_found(path@, opt_view(name)));
                self.get_named(remote, name)
            },
        }
    }

    /// Begins to fetch a file of whose path `name` is the last component, to a
    /// local file of that name.
    pub fn get_named<E>(&mut self, remote: &str, name: Option<String>) -> (r: (Stage<E>, Action<E>))
        ensures
            leads_to(*final(self), r, get_start(old(self)@, remote@, None, opt_view(name))),
    {
        let path = self.resolve_remote(remote);
        let local = match name {
            Some(n) => n,
            None => path.clone(),
        };
        self.get_open(path, local)
    }

    /// Begins to send a file.
    pub fn cmd_put<E>(&mut self, local: &str, remote: Option<&str>) -> (r: (Stage<E>, Action<E>))
        ensures
            match remote {
                Some(_) => leads_to(
                    *final(self),
                    r,
                    put_start(old(self)@, local@, opt_chars(remote), None),
                ),
                None => exists|name: Option<Seq<char>>| #[trigger]
                    can_be_found(local@, name) && leads_to(
                        *final(self),
                        r,
                        put_start(old(self)@, local@, None, name),
                    ),
            },
    {
        match remote {
            Some(name) => self.put_source(String::from_str(local), name),
            None => {
                let name = file_name(local);
                assert(can_be_found(local@, opt_view(name)));
                self.put_named(local, name)
            },
        }
    }

    /// Begins to send a file of whose path `name` is the last component, to a
    /// remote file of that name.
    pub fn put_named<E>(&mut self, local: &str, name: Option<String>) -> (r: (Stage<E>, Action<E>))
        ensures
            leads_to(*final(self), r, put_start(old(self)@, local@, None, opt_view(name))),
    {
        match name {
            Some(n) => self.put_source(String::from_str(local), n.as_str()),
            None => {
                let e = Error::Io(
                    IoError::new(
                        IoErrorKind::InvalidInput,
                        String::from_str("cannot derive remote name from local path"),
                    ),
                );
                (Stage::Over, Action::Fail(Failure::Protocol(e)))
            },
        }
    }

    fn status_step<E>(&mut self, id: u32, event: Event<E>) -> (r: (Stage<E>, Action<E>))
        ensures
            leads_to(*final(self), r, status_step(old(self)@, id, event@)),
    {
        match listen_status(id, event) {
            Heard::Nothing => (Stage::Status { id }, Action::Wait),
            Heard::Value(()) => (Stage::Over, no_lines()),
            Heard::Failure(f) => (Stage::Over, Action::Fail(f)),
            Heard::Breach(b) => (Stage::Over, Action::Abort(b)),
        }
    }

    fn cd_resolve_step<E>(&mut self, id: u32, event: Event<E>) -> (r: (Stage<E>, Action<E>))
        ensures
            leads_to(*final(self), r, cd_resolve_step(old(self)@, id, event@)),
    {
        match listen_name(id, event) {
            Heard::Nothing => (Stage::CdResolve { id }, Action::Wait),
            Heard::Value(path) => {
                let call = self.client.stat(path.as_str(), None);
                (Stage::CdCheck { id: call.request.id, path }, send(call.request))
            },
            Heard::Failure(f) => (Stage::Over, Action::Fail(f)),
            Heard::Breach(b) => (Stage::Over, Action::Abort(b)),
        }
    }

    fn cd_check_step<E>(&mut self, id: u32, path: String, event: Event<E>) -> (r: (
        Stage<E>,
        Action<E>,
    ))
        ensures
            leads_to(*final(self), r, cd_check_step(old(self)@, id, path@, event@)),
    {
        match listen_attrs(id, event) {
            Heard::Nothing => (Stage::CdCheck { id, path }, Action::Wait),
            Heard::Value(attrs) => {
                if !is_dir(&attrs) {
                    let e = Error::NotADirectory(String::new(), path);
                    return (Stage::Over, Action::Fail(Failure::Protocol(e)));
                }
                self.remote_cwd = path;
                (Stage::Over, no_lines())
            },
            Heard::Failure(f) => (Stage::Over, Action::Fail(f)),
            Heard::Breach(b) => (Stage::Over, Action::Abort(b)),
        }
    }

    fn stat_step<E>(&mut self, id: u32, path: String, event: Event<E>) -> (r: (
        Stage<E>,
        Action<E>,
    ))
        ensures
            leads_to(*final(self), r, stat_step(old(self)@, id, path@, event@)),
    {
        match listen_attrs(id, event) {
            Heard::Nothing => (Stage::Stat { id, path }, Action::Wait),
            Heard::Value(attrs) => (Stage::Over, Action::Done(describe(path.as_str(), &attrs))),
            Heard::Failure(f) => (Stage::Over, Action::Fail(f)),
            Heard::Breach(b) => (Stage::Over, Action::Abort(b)),
        }
    }

    fn ls_stat_step<E>(
        &mut self,
        id: u32,
        path: String,
        name: String,
        long: bool,
        event: Event<E>,
    ) -> (r: (Stage<E>, Action<E>))
        ensures
            leads_to(*final(self), r, ls_stat_step(old(self)@, id, path@, name@, long, event@)),
    {
        match listen_attrs(id, event) {
            Heard::Nothing => (Stage::LsStat { id, path, name, long }, Action::Wait),
            Heard::Value(attrs) => {
                if is_dir(&attrs) {
                    let call = self.client.opendir(path.as_str());
                    (Stage::LsOpen { id: call.request.id, long }, send(call.request))
                } else {
                    let line = if long {
                        format_long(path.as_str(), &attrs)
                    } else {
                        name
                    };
                    (Stage::Over, one_line(line))
                }
            },
            Heard::Failure(f) => (Stage::Over, Action::Fail(f)),
            Heard::Breach(b) => (Stage::Over, Action::Abort(b)),
        }
    }

    fn ls_read<E>(
        &mut self,
        dir: Directory,
        entries: Vec<(String, String, Attributes)>,
        long: bool,
    ) -> (r: (Stage<E>, Action<E>))
        ensures
            leads_to(
                *final(self),
                r,
                ls_read(old(self)@, dir.0@, entry_views(entries@), long),
            ),
    {
        let call = self.client.readdir(&dir);
        (Stage::LsRead { id: call.request.id, dir, entries, long }, send(call.request))
    }

    fn ls_open_step<E>(&mut self, id: u32, long: bool, event: Event<E>) -> (r: (
        Stage<E>,
        Action<E>,
    ))
        ensures
            leads_to(*final(self), r, ls_open_step(old(self)@, id, long, event@)),
    {
        match listen_handle(id, event) {
            Heard::Nothing => (Stage::LsOpen { id, long }, Action::Wait),
            Heard::Value(handle) => {
                let entries: Vec<(String, String, Attributes)> = Vec::new();
                assert(entry_views(entries@) =~= seq![]);
                self.ls_read(Directory(handle), entries, long)
            },
            Heard::Failure(f) => (Stage::Over, Action::Fail(f)),
            Heard::Breach(b) => (Stage::Over, Action::Abort(b)),
        }
    }

    fn ls_read_step<E>(
        &mut self,
        id: u32,
        dir: Directory,
        entries: Vec<(String, String, Attributes)>,
        long: bool,
        event: Event<E>,
    ) -> (r: (Stage<E>, Action<E>))
        ensures
            leads_to(
                *final(self),
                r,
                ls_read_step(old(self)@, id, dir.0@, entry_views(entries@), long, event@),
            ),
    {
        match listen_listing(id, event) {
            Heard::Nothing => (Stage::LsRead { id, dir, entries, long }, Action::Wait),
            Heard::Value(batch) => {
                let mut all = entries;
                let mut more = batch;
                let ghost before = all@;
                let ghost added = more@;
                all.append(&mut more);
                assert(entry_views(all@) =~= entry_views(before) + entry_views(added));
                self.ls_read(dir, all, long)
            },
            Heard::Failure(f) => {
                let call = self.client.closedir(&dir);
                if is_end_of_data(&f) {
                    (Stage::LsClose { id: call.request.id, entries, long }, send(call.request))
                } else {
                    (Stage::LsQuit { id: call.request.id, failure: f }, send(call.request))
                }
            },
            Heard::Breach(b) => (Stage::Over, Action::Abort(b)),
        }
    }

    fn ls_close_step<E>(
        &mut self,
        id: u32,
        entries: Vec<(String, String, Attributes)>,
        long: bool,
        event: Event<E>,
    ) -> (r: (Stage<E>, Action<E>))
        ensures
            leads_to(
                *final(self),
                r,
                ls_close_step(old(self)@, id, entry_views(entries@), long, event@),
            ),
    {
        match listen_status(id, event) {
            Heard::Nothing => (Stage::LsClose { id, entries, long }, Action::Wait),
            Heard::Value(()) => (Stage::Over, Action::Done(list_entries(&entries, long))),
            Heard::Failure(f) => (Stage::Over, Action::Fail(f)),
            Heard::Breach(b) => (Stage::Over, Action::Abort(b)),
        }
    }

    fn ls_quit_step<E>(&mut self, id: u32, failure: Failure<E>, event: Event<E>) -> (r: (
        Stage<E>,
        Action<E>,
    ))
        ensures
            leads_to(*final(self), r, ls_quit_step(old(self)@, id, failure@, event@)),
    {
        match listen_reply(id, event) {
            Heard::Nothing => (Stage::LsQuit { id, failure }, Action::Wait),
            Heard::Breach(b) => (Stage::Over, Action::Abort(b)),
            _ => (Stage::Over, Action::Fail(failure)),
        }
    }

    fn get_open<E>(&mut self, remote: String, local: String) -> (r: (Stage<E>, Action<E>))
        ensures
            leads_to(*final(self), r, get_open(old(self)@, remote@, local@)),
    {
        let call = self.client.open(
            remote.as_str(),
            OpenOptions::new().read(true),
            &Attributes::new(),
        );
        (Stage::GetOpen { id: call.request.id, local }, send(call.request))
    }

    fn get_open_step<E>(&mut self, id: u32, local: String, event: Event<E>) -> (r: (
        Stage<E>,
        Action<E>,
    ))
        ensures
            leads_to(*final(self), r, get_open_step(old(self)@, id, local@, event@)),
    {
        match listen_handle(id, event) {
            Heard::Nothing => (Stage::GetOpen { id, local }, Action::Wait),
            Heard::Value(handle) => {
                let path = local.clone();
                (Stage::GetCreate { file: File(handle), local }, Action::Create(path))
            },
            Heard::Failure(f) => (Stage::Over, Action::Fail(f)),
            Heard::Breach(b) => (Stage::Over, Action::Abort(b)),
        }
    }

    fn get_read<E>(&mut self, file: File, local: String, offset: u64) -> (r: (Stage<E>, Action<E>))
        ensures
            leads_to(*final(self), r, get_read(old(self)@, file.0@, local@, offset)),
    {
        let call = self.client.pread(&file, offset, CHUNK);
        (Stage::GetRead { id: call.request.id, file, local, offset }, send(call.request))
    }

    fn get_close<E>(&mut self, file: File, local: String, result: Result<u64, Failure<E>>) -> (r: (
        Stage<E>,
        Action<E>,
    ))
        ensures
            leads_to(
                *final(self),
                r,
                get_close(old(self)@, file.0@, local@, result_view(result)),
            ),
    {
        let call = self.client.fclose(&file);
        (Stage::GetClose { id: call.request.id, local, result }, send(call.request))
    }

    fn get_create_step<E>(&mut self, file: File, local: String, event: Event<E>) -> (r: (
        Stage<E>,
        Action<E>,
    ))
        ensures
            leads_to(*final(self), r, get_create_step(old(self)@, file.0@, local@, event@)),
    {
        match event {
            Event::Ready => self.get_read(file, local, 0),
            Event::Failed(e) => self.get_close(file, local, Err(Failure::Outside(e))),
            _ => (Stage::GetCreate { file, local }, Action::Wait),
        }
    }

    fn get_read_step<E>(
        &mut self,
        id: u32,
        file: File,
        local: String,
        offset: u64,
        event: Event<E>,
    ) -> (r: (Stage<E>, Action<E>))
        ensures
            leads_to(
                *final(self),
                r,
                get_read_step(old(self)@, id, file.0@, local@, offset, event@),
            ),
    {
        match listen_data(id, event) {
            Heard::Nothing => (Stage::GetRead { id, file, local, offset }, Action::Wait),
            Heard::Value(data) => {
                if data.len() == 0 {
                    return self.get_close(file, local, Ok(offset));
                }
                let count = data.len() as u64;
                (Stage::GetWrite { file, local, offset, count }, Action::Write(data))
            },
            Heard::Failure(f) => {
                let result = if is_end_of_data(&f) {
                    Ok(offset)
                } else {
                    Err(f)
                };
                self.get_close(file, local, result)
            },
            Heard::Breach(b) => (Stage::Over, Action::Abort(b)),
        }
    }

    fn get_write_step<E>(
        &mut self,
        file: File,
        local: String,
        offset: u64,
        count: u64,
        event: Event<E>,
    ) -> (r: (Stage<E>, Action<E>))
        ensures
            leads_to(
                *final(self),
                r,
                get_write_step(old(self)@, file.0@, local@, offset, count, event@),
            ),
    {
        match event {
            Event::Ready => self.get_read(file, local, move_by(offset, count)),
            Event::Failed(e) => self.get_close(file, local, Err(Failure::Outside(e))),
            _ => (Stage::GetWrite { file, local, offset, count }, Action::Wait),
        }
    }

    fn get_close_step<E>(
        &mut self,
        id: u32,
        local: String,
        result: Result<u64, Failure<E>>,
        event: Event<E>,
    ) -> (r: (Stage<E>, Action<E>))
        ensures
            leads_to(
                *final(self),
                r,
                get_close_step(old(self)@, id, local@, result_view(result), event@),
            ),
    {
        match listen_reply(id, event) {
            Heard::Nothing => (Stage::GetClose { id, local, result }, Action::Wait),
            Heard::Breach(b) => (Stage::Over, Action::Abort(b)),
            _ => (Stage::Over, transfer_report("Fetched", local.as_str(), result)),
        }
    }

    fn put_source<E>(&mut self, local: String, remote: &str) -> (r: (Stage<E>, Action<E>))
        ensures
            leads_to(*final(self), r, put_source(old(self)@, local@, remote@)),
    {
        let path = self.resolve_remote(remote);
        (Stage::PutSource { remote: path }, Action::Open(local))
    }

    fn put_source_step<E>(&mut self, remote: String, event: Event<E>) -> (r: (Stage<E>, Action<E>))
        ensures
            leads_to(*final(self), r, put_source_step(old(self)@, remote@, event@)),
    {
        match event {
            Event::Ready => {
                let call = self.client.open(
                    remote.as_str(),
                    OpenOptions::new().write(true).create(true).truncate(true),
                    &Attributes::new(),
                );
                (Stage::PutOpen { id: call.request.id, remote }, send(call.request))
            },
            Event::Failed(e) => (Stage::Over, Action::Fail(Failure::Outside(e))),
            _ => (Stage::PutSource { remote }, Action::Wait),
        }
    }

    fn put_open_step<E>(&mut self, id: u32, remote: String, event: Event<E>) -> (r: (
        Stage<E>,
        Action<E>,
    ))
        ensures
            leads_to(*final(self), r, put_open_step(old(self)@, id, remote@, event@)),
    {
        match listen_handle(id, event) {
            Heard::Nothing => (Stage::PutOpen { id, remote }, Action::Wait),
            Heard::Value(handle) => (
                Stage::PutRead { file: File(handle), remote, offset: 0 },
                Action::Read(CHUNK),
            ),
            Heard::Failure(f) => (Stage::Over, Action::Fail(f)),
            Heard::Breach(b) => (Stage::Over, Action::Abort(b)),
        }
    }

    fn put_close<E>(&mut self, file: File, remote: String, result: Result<u64, Failure<E>>) -> (r: (
        Stage<E>,
        Action<E>,
    ))
        ensures
            leads_to(
                *final(self),
                r,
                put_close(old(self)@, file.0@, remote@, result_view(result)),
            ),
    {
        let call = self.client.fclose(&file);
        (Stage::PutClose { id: call.request.id, remote, result }, send(call.request))
    }

    fn put_read_step<E>(
        &mut self,
        file: File,
        remote: String,
        offset: u64,
        event: Event<E>,
    ) -> (r: (Stage<E>, Action<E>))
        ensures
            leads_to(
                *final(self),
                r,
                put_read_step(old(self)@, file.0@, remote@, offset, event@),
            ),
    {
        match event {
            Event::Bytes(bytes) => {
                if bytes.len() == 0 {
                    return self.put_close(file, remote, Ok(offset));
                }
                let count = bytes.len() as u64;
                let call = self.client.pwrite(&file, offset, bytes.as_slice());
                (
                    Stage::PutWrite { id: call.request.id, file, remote, offset, count },
                    send(call.request),
                )
            },
            Event::Failed(e) => self.put_close(file, remote, Err(Failure::Outside(e))),
            _ => (Stage::PutRead { file, remote, offset }, Action::Wait),
        }
    }

    fn put_write_step<E>(
        &mut self,
        id: u32,
        file: File,
        remote: String,
        offset: u64,
        count: u64,
        event: Event<E>,
    ) -> (r: (Stage<E>, Action<E>))
        ensures
            leads_to(
                *final(self),
                r,
                put_write_step(old(self)@, id, file.0@, remote@, offset, count, event@),
            ),
    {
        match listen_status(id, event) {
            Heard::Nothing => (Stage::PutWrite { id, file, remote, offset, count }, Action::Wait),
            Heard::Value(()) => (
                Stage::PutRead { file, remote, offset: move_by(offset, count) },
                Action::Read(CHUNK),
            ),
            Heard::Failure(f) => self.put_close(file, remote, Err(f)),
            Heard::Breach(b) => (Stage::Over, Action::Abort(b)),
        }
    }

    fn put_close_step<E>(
        &mut self,
        id: u32,
        remote: String,
        result: Result<u64, Failure<E>>,
        event: Event<E>,
    ) -> (r: (Stage<E>, Action<E>))
        ensures
            leads_to(
                *final(self),
                r,
                put_close_step(old(self)@, id, remote@, result_view(result), event@),
            ),
    {
        match listen_reply(id, event) {
            Heard::Nothing => (Stage::PutClose { id, remote, result }, Action::Wait),
            Heard::Breach(b) => (Stage::Over, Action::Abort(b)),
            _ => (Stage::Over, transfer_report("Uploaded", remote.as_str(), result)),
        }
    }

    /// Sets a command going.
    pub fn begin<E>(&mut self, command: Command) -> (job: Job<E>)
        ensures
            exists|name: Option<Seq<char>>| #[trigger]
                name_fits(old(self)@, command@, name) && (final(self)@, job@) == job_of::<E>(
                    old(self)@,
                    command@,
                    name,
                ),
    {
        let ghost sh = self@;
        let ghost asked = command@;
        assert(named_path(sh, asked) is None ==> name_fits(sh, asked, None));
        match command {
            Command::Empty => {
                let lines: Vec<String> = Vec::new();
                assert(texts(lines@) =~= seq![]);
                Job::Say(lines)
            },
            Command::Quit => Job::Quit,
            Command::Help => say(String::from_str(HELP)),
            Command::Pwd => say(self.cmd_pwd()),
            Command::Cd(path) => {
                let (stage, action) = match &path {
                    Some(p) => self.cmd_cd(Some(p.as_str())),
                    None => self.cmd_cd(None),
                };
                Job::Run(stage, action)
            },
            Command::Ls(args) => {
                let (stage, action) = self.cmd_ls(args.as_slice());
                proof {
                    let path = ls_path(sh, texts(args@));
                    let name = choose|name: Option<Seq<char>>| #[trigger]
                        can_be_found(path, name) && leads_to(
                            *self,
                            (stage, action),
                            ls_start(sh, path, name, wants_long(texts(args@))),
                        );
                    assert(name_fits(sh, asked, name));
                }
                Job::Run(stage, action)
            },
            Command::Mkdir(path) => {
                let (stage, action) = self.cmd_mkdir(path.as_str());
                Job::Run(stage, action)
            },
            Command::Rmdir(path) => {
                let (stage, action) = self.cmd_rmdir(path.as_str());
                Job::Run(stage, action)
            },
            Command::Rm(path) => {
                let (stage, action) = self.cmd_rm(path.as_str());
                Job::Run(stage, action)
            },
            Command::Rename(from, to) => {
                let (stage, action) = self.cmd_rename(from.as_str(), to.as_str());
                Job::Run(stage, action)
            },
            Command::Symlink(target, link) => {
                let (stage, action) = self.cmd_symlink(target.as_str(), link.as_str());
                Job::Run(stage, action)
            },
            Command::Ln(target, link, symbolic) => {
                let (stage, action) = self.cmd_ln(target.as_str(), link.as_str(), symbolic);
                Job::Run(stage, action)
            },
            Command::Chmod(mode, path) => {
                let (stage, action) = self.cmd_chmod(mode.as_str(), path.as_str());
                Job::Run(stage, action)
            },
            Command::Stat(path) => {
                let (stage, action) = self.cmd_stat(path.as_str());
                Job::Run(stage, action)
            },
            Command::Get(remote, local) => {
                let (stage, action) = match &local {
                    Some(l) => self.cmd_get(remote.as_str(), Some(l.as_str())),
                    None => self.cmd_get(remote.as_str(), None),
                };
                proof {
                    if local is None {
                        let name = choose|name: Option<Seq<char>>| #[trigger]
                            can_be_found(resolved(sh.cwd, remote@), name) && leads_to(
                                *self,
                                (stage, action),
                                get_start(sh, remote@, None, name),
                            );
                        assert(name_fits(sh, asked, name));
                    }
                }
                Job::Run(stage, action)
            },
            Command::Put(local, remote) => {
                let (stage, action) = match &remote {
                    Some(r) => self.cmd_put(local.as_str(), Some(r.as_str())),
                    None => self.cmd_put(local.as_str(), None),
                };
                proof {
                    if remote is None {
                        let name = choose|name: Option<Seq<char>>| #[trigger]
                            can_be_found(local@, name) && leads_to(
                                *self,
                                (stage, action),
                                put_start(sh, local@, None, name),
                            );
                        assert(name_fits(sh, asked, name));
                    }
                }
                Job::Run(stage, action)
            },
            Command::Lpwd => Job::Lpwd,
            Command::Lcd(path) => Job::Lcd(path),
            Command::Lls(path) => Job::Lls(path),
            Command::Unknown(word) => {
                let mut line = String::from_str("unknown command: ");
                line.append(word.as_str());
                line.append(" (try 'help')");
                Job::Complain(line)
            },
            Command::Malformed(text) => {
                let mut line = String::from_str("parse error: ");
                line.append(text.as_str());
                Job::Complain(line)
            },
            Command::Misused(e) => Job::Refuse(e),
        }
    }

    /// Reads a line and sets going what it asks for.
    pub fn dispatch<E>(&mut self, line: &str) -> (job: Job<E>)
        ensures
            exists|name: Option<Seq<char>>| #[trigger]
                name_fits(old(self)@, line_command(line@), name) && (final(self)@, job@)
                    == job_of::<E>(old(self)@, line_command(line@), name),
    {
        let command = parse_line(line);
        self.begin(command)
    }

    /// Takes a command one step on: what came of the last action leads to the
    /// next.
    pub fn step<E>(&mut self, stage: Stage<E>, event: Event<E>) -> (r: (Stage<E>, Action<E>))
        ensures
            leads_to(*final(self), r, next_step(old(self)@, stage@, event@)),
    {
        reveal(next_step);
        match stage {
            Stage::Status { id } => self.status_step(id, event),
            Stage::CdResolve { id } => self.cd_resolve_step(id, event),
            Stage::CdCheck { id, path } => self.cd_check_step(id, path, event),
            Stage::Stat { id, path } => self.stat_step(id, path, event),
            Stage::LsStat { id, path, name, long } => {
                self.ls_stat_step(id, path, name, long, event)
            },
            Stage::LsOpen { id, long } => self.ls_open_step(id, long, event),
            Stage::LsRead { id, dir, entries, long } => {
                self.ls_read_step(id, dir, entries, long, event)
            },
            Stage::LsClose { id, entries, long } => self.ls_close_step(id, entries, long, event),
            Stage::LsQuit { id, failure } => self.ls_quit_step(id, failure, event),
            Stage::GetOpen { id, local } => self.get_open_step(id, local, event),
            Stage::GetCreate { file, local } => self.get_create_step(file, local, event),
            Stage::GetRead { id, file, local, offset } => {
                self.get_read_step(id, file, local, offset, event)
            },
            Stage::GetWrite { file, local, offset, count } => {
                self.get_write_step(file, local, offset, count, event)
            },
            Stage::GetClose { id, local, result } => self.get_close_step(id, local, result, event),
            Stage::PutSource { remote } => self.put_source_step(remote, event),
            Stage::PutOpen { id, remote } => self.put_open_step(id, remote, event),
            Stage::PutRead { file, remote, offset } => {
                self.put_read_step(file, remote, offset, event)
            },
            Stage::PutWrite { id, file, remote, offset, count } => {
                self.put_write_step(id, file, remote, offset, count, event)
            },
            Stage::PutClose { id, remote, result } => self.put_close_step(
                id,
                remote,
                result,
                event,
            ),
            Stage::Over => (Stage::Over, Action::Wait),
        }
    }
}

} // verus!
