//! Where each event leads each command of the shell.

use vstd::prelude::*;

use crate::attributes::{encode_attributes, no_attributes, AttributesView};
use crate::command::{last_operand, wants_long, CommandView, HELP};
use crate::constants::{
    SFTP_FLAG_CREAT, SFTP_FLAG_READ, SFTP_FLAG_TRUNC, SFTP_FLAG_WRITE, SSH_FXP_CLOSE,
    SSH_FXP_LINK, SSH_FXP_MKDIR, SSH_FXP_OPEN, SSH_FXP_OPENDIR, SSH_FXP_READ, SSH_FXP_READDIR,
    SSH_FXP_REALPATH, SSH_FXP_REMOVE, SSH_FXP_RENAME, SSH_FXP_RMDIR, SSH_FXP_SETSTAT,
    SSH_FXP_STAT, SSH_FXP_SYMLINK, SSH_FXP_WRITE, SSH_FX_NOT_A_DIRECTORY,
};
use crate::error::{ErrorView, IoErrorKind, IoErrorView};
use crate::listing::{attr_lines, is_directory, listing_lines, long_line};
use crate::path::can_be_found;
use crate::protocol::{link_byte, realpath_body, rename_flags};
use crate::stage::{
    hear_attrs, hear_data, hear_handle, hear_listing, hear_name, hear_reply, hear_status,
    is_end, ActionView, EventView, FailureView, Heard, StageView,
};
use crate::sync::{advanced, issued, SessionView};
use crate::text::{decimal, octal_error_text, parse_octal};
use crate::types::switched;
use crate::wire::{be32, be64, bytes_field, str_field};

verus! {

/// How many bytes of a file are moved at a time.
pub const CHUNK: u32 = 32768;

/// The contents of a [`Shell`].
pub struct ShellView {
    pub session: SessionView,
    /// The remote working directory.
    pub cwd: Seq<char>,
}

/// What a step leads to.
pub struct StepView<E> {
    pub shell: ShellView,
    pub stage: StageView<E>,
    pub action: ActionView<E>,
}

/// The last step of a command.
pub open spec fn ends<E>(sh: ShellView, action: ActionView<E>) -> StepView<E> {
    StepView { shell: sh, stage: StageView::Over, action }
}

/// A step that changes nothing.
pub open spec fn waits<E>(sh: ShellView, stage: StageView<E>) -> StepView<E> {
    StepView { shell: sh, stage, action: ActionView::Wait }
}

/// A step that does not concern the server.
pub open spec fn goes_on<E>(sh: ShellView, stage: StageView<E>, action: ActionView<E>) -> StepView<
    E,
> {
    StepView { shell: sh, stage, action }
}

/// A step that sends a request.
pub open spec fn asks<E>(
    sh: ShellView,
    stage: StageView<E>,
    cmd: u8,
    body: Seq<u8>,
) -> StepView<E> {
    StepView {
        shell: ShellView { session: advanced(sh.session), cwd: sh.cwd },
        stage,
        action: ActionView::Send(issued(sh.session, cmd, body).packet),
    }
}

// Paths.

/// A path as seen from a working directory.
pub open spec fn resolved(cwd: Seq<char>, path: Seq<char>) -> Seq<char> {
    if path.len() > 0 && path.first() == '/' {
        path
    } else if cwd.len() > 0 && cwd.last() == '/' {
        cwd + path
    } else {
        cwd + "/"@ + path
    }
}

// Requests that are answered with a status.

/// The id of the request that a shell sends next.
pub open spec fn next_id(sh: ShellView) -> u32 {
    sh.session.next_id
}

/// A step that sends a request to which the answer is a status.
pub open spec fn asks_status<E>(sh: ShellView, cmd: u8, body: Seq<u8>) -> StepView<E> {
    asks(sh, StageView::Status { id: next_id(sh) }, cmd, body)
}

/// `mkdir`: the directory is created, nothing said of its attributes.
pub open spec fn mkdir_start<E>(sh: ShellView, path: Seq<char>) -> StepView<E> {
    asks_status(
        sh,
        SSH_FXP_MKDIR,
        str_field(resolved(sh.cwd, path)) + encode_attributes(no_attributes()),
    )
}

/// `rmdir`: the directory is removed.
pub open spec fn rmdir_start<E>(sh: ShellView, path: Seq<char>) -> StepView<E> {
    asks_status(sh, SSH_FXP_RMDIR, str_field(resolved(sh.cwd, path)))
}

/// `rm`: the file is removed.
pub open spec fn rm_start<E>(sh: ShellView, path: Seq<char>) -> StepView<E> {
    asks_status(sh, SSH_FXP_REMOVE, str_field(resolved(sh.cwd, path)))
}

/// `rename`: both paths are seen from the working directory.
pub open spec fn rename_start<E>(sh: ShellView, from: Seq<char>, to: Seq<char>) -> StepView<E> {
    asks_status(
        sh,
        SSH_FXP_RENAME,
        str_field(resolved(sh.cwd, from)) + str_field(resolved(sh.cwd, to)) + be32(
            rename_flags(None),
        ),
    )
}

/// The target of a symbolic link is sent as it was given.
pub open spec fn symlink_start<E>(
    sh: ShellView,
    target: Seq<char>,
    link: Seq<char>,
) -> StepView<E> {
    asks_status(sh, SSH_FXP_SYMLINK, str_field(resolved(sh.cwd, link)) + str_field(target))
}

/// `ln`: of a hard link the target, too, is seen from the working directory.
pub open spec fn ln_start<E>(
    sh: ShellView,
    target: Seq<char>,
    link: Seq<char>,
    symbolic: bool,
) -> StepView<E> {
    if symbolic {
        symlink_start(sh, target, link)
    } else {
        asks_status(
            sh,
            SSH_FXP_LINK,
            str_field(resolved(sh.cwd, link)) + str_field(resolved(sh.cwd, target)) + seq![
                link_byte(false),
            ],
        )
    }
}

/// The error of a mode that is no octal number.
pub open spec fn mode_error(mode: Seq<char>) -> ErrorView {
    ErrorView::Io(
        IoErrorView {
            kind: IoErrorKind::InvalidInput,
            message: "invalid mode '"@ + mode + "': "@ + octal_error_text(mode),
        },
    )
}

/// `chmod`: only the permissions are set.
pub open spec fn chmod_start<E>(sh: ShellView, mode: Seq<char>, path: Seq<char>) -> StepView<E> {
    match parse_octal(mode) {
        Some(m) => asks_status(
            sh,
            SSH_FXP_SETSTAT,
            str_field(resolved(sh.cwd, path)) + encode_attributes(
                AttributesView { permissions: Some(m), ..no_attributes() },
            ),
        ),
        None => ends(sh, ActionView::Fail(FailureView::Protocol(mode_error(mode)))),
    }
}

/// The status ends the command.
pub open spec fn status_step<E>(sh: ShellView, id: u32, event: EventView<E>) -> StepView<E> {
    match hear_status(id, event) {
        Heard::Nothing => waits(sh, StageView::Status { id }),
        Heard::Value(_) => ends(sh, ActionView::Done(seq![])),
        Heard::Failure(f) => ends(sh, ActionView::Fail(f)),
        Heard::Breach(b) => ends(sh, ActionView::Abort(b)),
    }
}

// `cd` and `stat`.

/// The body of a request for the attributes of a path.
pub open spec fn stat_body(path: Seq<char>) -> Seq<u8> {
    str_field(path) + be32(0)
}

/// `cd`: the path is made absolute by the server.
pub open spec fn cd_start<E>(sh: ShellView, path: Option<Seq<char>>) -> StepView<E> {
    let target = match path {
        Some(p) => resolved(sh.cwd, p),
        None => "/"@,
    };
    asks(
        sh,
        StageView::CdResolve { id: next_id(sh) },
        SSH_FXP_REALPATH,
        realpath_body(target, None, None),
    )
}

/// `cd`: what the absolute path is, is asked for.
pub open spec fn cd_resolve_step<E>(sh: ShellView, id: u32, event: EventView<E>) -> StepView<E> {
    match hear_name(id, event) {
        Heard::Nothing => waits(sh, StageView::CdResolve { id }),
        Heard::Value(path) => asks(
            sh,
            StageView::CdCheck { id: next_id(sh), path },
            SSH_FXP_STAT,
            stat_body(path),
        ),
        Heard::Failure(f) => ends(sh, ActionView::Fail(f)),
        Heard::Breach(b) => ends(sh, ActionView::Abort(b)),
    }
}

/// The working directory changes only when the server has said that the path
/// is a directory.
pub open spec fn cd_check_step<E>(
    sh: ShellView,
    id: u32,
    path: Seq<char>,
    event: EventView<E>,
) -> StepView<E> {
    match hear_attrs(id, event) {
        Heard::Nothing => waits(sh, StageView::CdCheck { id, path }),
        Heard::Value(a) => if is_directory(a) {
            ends(ShellView { session: sh.session, cwd: path }, ActionView::Done(seq![]))
        } else {
            ends(
                sh,
                ActionView::Fail(
                    FailureView::Protocol(ErrorView::Status(SSH_FX_NOT_A_DIRECTORY, seq![], path)),
                ),
            )
        },
        Heard::Failure(f) => ends(sh, ActionView::Fail(f)),
        Heard::Breach(b) => ends(sh, ActionView::Abort(b)),
    }
}

/// `stat`: the attributes are asked for.
pub open spec fn stat_start<E>(sh: ShellView, path: Seq<char>) -> StepView<E> {
    let target = resolved(sh.cwd, path);
    asks(sh, StageView::Stat { id: next_id(sh), path: target }, SSH_FXP_STAT, stat_body(target))
}

/// `stat`: they are shown.
pub open spec fn stat_step<E>(
    sh: ShellView,
    id: u32,
    path: Seq<char>,
    event: EventView<E>,
) -> StepView<E> {
    match hear_attrs(id, event) {
        Heard::Nothing => waits(sh, StageView::Stat { id, path }),
        Heard::Value(a) => ends(sh, ActionView::Done(attr_lines(path, a))),
        Heard::Failure(f) => ends(sh, ActionView::Fail(f)),
        Heard::Breach(b) => ends(sh, ActionView::Abort(b)),
    }
}

// `ls`.

/// The path that `ls` lists: the last one it was given, or the working
/// directory.
pub open spec fn ls_path(sh: ShellView, args: Seq<Seq<char>>) -> Seq<char> {
    match last_operand(args) {
        Some(p) => resolved(sh.cwd, p),
        None => sh.cwd,
    }
}

/// A name that was found, or else the whole path.
pub open spec fn name_or(name: Option<Seq<char>>, path: Seq<char>) -> Seq<char> {
    match name {
        Some(n) => n,
        None => path,
    }
}

/// `ls`: what the path is, is asked for. `name` is its last component.
pub open spec fn ls_start<E>(
    sh: ShellView,
    path: Seq<char>,
    name: Option<Seq<char>>,
    long: bool,
) -> StepView<E> {
    asks(
        sh,
        StageView::LsStat { id: next_id(sh), path, name: name_or(name, path), long },
        SSH_FXP_STAT,
        stat_body(path),
    )
}

/// `ls`: a directory is opened, of a file the one line is shown.
pub open spec fn ls_stat_step<E>(
    sh: ShellView,
    id: u32,
    path: Seq<char>,
    name: Seq<char>,
    long: bool,
    event: EventView<E>,
) -> StepView<E> {
    match hear_attrs(id, event) {
        Heard::Nothing => waits(sh, StageView::LsStat { id, path, name, long }),
        Heard::Value(attrs) => if is_directory(attrs) {
            asks(
                sh,
                StageView::LsOpen { id: next_id(sh), long },
                SSH_FXP_OPENDIR,
                str_field(path),
            )
        } else {
            ends(
                sh,
                ActionView::Done(
                    if long {
                        seq![long_line(path, attrs)]
                    } else {
                        seq![name]
                    },
                ),
            )
        },
        Heard::Failure(f) => ends(sh, ActionView::Fail(f)),
        Heard::Breach(b) => ends(sh, ActionView::Abort(b)),
    }
}

/// A step that asks for the next entries of a directory.
pub open spec fn ls_read<E>(
    sh: ShellView,
    dir: Seq<u8>,
    entries: Seq<(Seq<char>, Seq<char>, AttributesView)>,
    long: bool,
) -> StepView<E> {
    asks(
        sh,
        StageView::LsRead { id: next_id(sh), dir, entries, long },
        SSH_FXP_READDIR,
        bytes_field(dir),
    )
}

/// `ls`: the open directory is read.
pub open spec fn ls_open_step<E>(
    sh: ShellView,
    id: u32,
    long: bool,
    event: EventView<E>,
) -> StepView<E> {
    match hear_handle(id, event) {
        Heard::Nothing => waits(sh, StageView::LsOpen { id, long }),
        Heard::Value(dir) => ls_read(sh, dir, seq![], long),
        Heard::Failure(f) => ends(sh, ActionView::Fail(f)),
        Heard::Breach(b) => ends(sh, ActionView::Abort(b)),
    }
}

/// `ls`: entries are gathered until there are no more.
pub open spec fn ls_read_step<E>(
    sh: ShellView,
    id: u32,
    dir: Seq<u8>,
    entries: Seq<(Seq<char>, Seq<char>, AttributesView)>,
    long: bool,
    event: EventView<E>,
) -> StepView<E> {
    match hear_listing(id, event) {
        Heard::Nothing => waits(sh, StageView::LsRead { id, dir, entries, long }),
        Heard::Value(batch) => ls_read(sh, dir, entries + batch, long),
        Heard::Failure(f) => asks(
            sh,
            if is_end(f) {
                StageView::LsClose { id: next_id(sh), entries, long }
            } else {
                StageView::LsQuit { id: next_id(sh), failure: f }
            },
            SSH_FXP_CLOSE,
            bytes_field(dir),
        ),
        Heard::Breach(b) => ends(sh, ActionView::Abort(b)),
    }
}

/// `ls`: the directory is closed, and the listing is shown.
pub open spec fn ls_close_step<E>(
    sh: ShellView,
    id: u32,
    entries: Seq<(Seq<char>, Seq<char>, AttributesView)>,
    long: bool,
    event: EventView<E>,
) -> StepView<E> {
    match hear_status(id, event) {
        Heard::Nothing => waits(sh, StageView::LsClose { id, entries, long }),
        Heard::Value(_) => ends(sh, ActionView::Done(listing_lines(entries, long))),
        Heard::Failure(f) => ends(sh, ActionView::Fail(f)),
        Heard::Breach(b) => ends(sh, ActionView::Abort(b)),
    }
}

/// How closing went is of no interest once reading has failed.
pub open spec fn ls_quit_step<E>(
    sh: ShellView,
    id: u32,
    failure: FailureView<E>,
    event: EventView<E>,
) -> StepView<E> {
    match hear_reply(id, event) {
        Heard::Nothing => waits(sh, StageView::LsQuit { id, failure }),
        Heard::Breach(b) => ends(sh, ActionView::Abort(b)),
        _ => ends(sh, ActionView::Fail(failure)),
    }
}

// `get`.

/// The body of a request to open a file.
pub open spec fn open_body(path: Seq<char>, flags: u32) -> Seq<u8> {
    str_field(path) + be32(flags) + encode_attributes(no_attributes())
}

/// The flags to open a file for reading.
pub open spec fn read_flags() -> u32 {
    switched(0, SFTP_FLAG_READ, true)
}

/// The flags to open a file for writing, new or emptied.
pub open spec fn write_flags() -> u32 {
    switched(
        switched(switched(0, SFTP_FLAG_WRITE, true), SFTP_FLAG_CREAT, true),
        SFTP_FLAG_TRUNC,
        true,
    )
}

/// The place behind so many bytes.
pub open spec fn moved(offset: u64, count: u64) -> u64 {
    ((offset + count) % 0x1_0000_0000_0000_0000) as u64
}

/// `get`: the remote file is opened for reading.
pub open spec fn get_open<E>(sh: ShellView, remote: Seq<char>, local: Seq<char>) -> StepView<E> {
    asks(
        sh,
        StageView::GetOpen { id: next_id(sh), local },
        SSH_FXP_OPEN,
        open_body(remote, read_flags()),
    )
}

/// `get`: without a local path it is the last component of the remote path,
/// which is `name`, or all of it.
pub open spec fn get_start<E>(
    sh: ShellView,
    remote: Seq<char>,
    local: Option<Seq<char>>,
    name: Option<Seq<char>>,
) -> StepView<E> {
    let path = resolved(sh.cwd, remote);
    match local {
        Some(l) => get_open(sh, path, l),
        None => get_open(sh, path, name_or(name, path)),
    }
}

/// `get`: the local file is created.
pub open spec fn get_open_step<E>(
    sh: ShellView,
    id: u32,
    local: Seq<char>,
    event: EventView<E>,
) -> StepView<E> {
    match hear_handle(id, event) {
        Heard::Nothing => waits(sh, StageView::GetOpen { id, local }),
        Heard::Value(file) => goes_on(
            sh,
            StageView::GetCreate { file, local },
            ActionView::Create(local),
        ),
        Heard::Failure(f) => ends(sh, ActionView::Fail(f)),
        Heard::Breach(b) => ends(sh, ActionView::Abort(b)),
    }
}

/// A step that asks for the next bytes of the remote file.
pub open spec fn get_read<E>(
    sh: ShellView,
    file: Seq<u8>,
    local: Seq<char>,
    offset: u64,
) -> StepView<E> {
    asks(
        sh,
        StageView::GetRead { id: next_id(sh), file, local, offset },
        SSH_FXP_READ,
        bytes_field(file) + be64(offset) + be32(CHUNK),
    )
}

/// A step that closes the remote file, however the transfer went.
pub open spec fn get_close<E>(
    sh: ShellView,
    file: Seq<u8>,
    local: Seq<char>,
    result: Result<u64, FailureView<E>>,
) -> StepView<E> {
    asks(
        sh,
        StageView::GetClose { id: next_id(sh), local, result },
        SSH_FXP_CLOSE,
        bytes_field(file),
    )
}

/// `get`: reading begins at the start of the file.
pub open spec fn get_create_step<E>(
    sh: ShellView,
    file: Seq<u8>,
    local: Seq<char>,
    event: EventView<E>,
) -> StepView<E> {
    match event {
        EventView::Ready => get_read(sh, file, local, 0),
        EventView::Failed(e) => get_close(sh, file, local, Err(FailureView::Outside(e))),
        _ => waits(sh, StageView::GetCreate { file, local }),
    }
}

/// `get`: bytes that have come are written; none, or no more, is the end.
pub open spec fn get_read_step<E>(
    sh: ShellView,
    id: u32,
    file: Seq<u8>,
    local: Seq<char>,
    offset: u64,
    event: EventView<E>,
) -> StepView<E> {
    match hear_data(id, event) {
        Heard::Nothing => waits(sh, StageView::GetRead { id, file, local, offset }),
        Heard::Value(data) => if data.len() == 0 {
            get_close(sh, file, local, Ok(offset))
        } else {
            goes_on(
                sh,
                StageView::GetWrite { file, local, offset, count: data.len() as u64 },
                ActionView::Write(data),
            )
        },
        Heard::Failure(f) => get_close(
            sh,
            file,
            local,
            if is_end(f) {
                Ok(offset)
            } else {
                Err(f)
            },
        ),
        Heard::Breach(b) => ends(sh, ActionView::Abort(b)),
    }
}

/// `get`: reading goes on behind the bytes that were written.
pub open spec fn get_write_step<E>(
    sh: ShellView,
    file: Seq<u8>,
    local: Seq<char>,
    offset: u64,
    count: u64,
    event: EventView<E>,
) -> StepView<E> {
    match event {
        EventView::Ready => get_read(sh, file, local, moved(offset, count)),
        EventView::Failed(e) => get_close(sh, file, local, Err(FailureView::Outside(e))),
        _ => waits(sh, StageView::GetWrite { file, local, offset, count }),
    }
}

/// The line that reports a transfer.
pub open spec fn transfer_line(verb: Seq<char>, path: Seq<char>, bytes: u64) -> Seq<char> {
    verb + " "@ + path + " ("@ + decimal(bytes as nat) + " bytes)"@
}

/// The end of a transfer: how closing went is of no interest.
pub open spec fn transfer_end<E>(
    sh: ShellView,
    verb: Seq<char>,
    path: Seq<char>,
    result: Result<u64, FailureView<E>>,
) -> StepView<E> {
    match result {
        Ok(n) => ends(sh, ActionView::Done(seq![transfer_line(verb, path, n)])),
        Err(f) => ends(sh, ActionView::Fail(f)),
    }
}

/// `get`: the file is closed, and the result is told.
pub open spec fn get_close_step<E>(
    sh: ShellView,
    id: u32,
    local: Seq<char>,
    result: Result<u64, FailureView<E>>,
    event: EventView<E>,
) -> StepView<E> {
    match hear_reply(id, event) {
        Heard::Nothing => waits(sh, StageView::GetClose { id, local, result }),
        Heard::Breach(b) => ends(sh, ActionView::Abort(b)),
        _ => transfer_end(sh, "Fetched"@, local, result),
    }
}

// `put`.

/// `put`: the local file is opened.
pub open spec fn put_source<E>(sh: ShellView, local: Seq<char>, remote: Seq<char>) -> StepView<E> {
    goes_on(
        sh,
        StageView::PutSource { remote: resolved(sh.cwd, remote) },
        ActionView::Open(local),
    )
}

/// The error of a local path without a last component.
pub open spec fn nameless_error() -> ErrorView {
    ErrorView::Io(
        IoErrorView {
            kind: IoErrorKind::InvalidInput,
            message: "cannot derive remote name from local path"@,
        },
    )
}

/// `put`: without a remote path it is the last component of the local path,
/// which is `name`.
pub open spec fn put_start<E>(
    sh: ShellView,
    local: Seq<char>,
    remote: Option<Seq<char>>,
    name: Option<Seq<char>>,
) -> StepView<E> {
    match remote {
        Some(r) => put_source(sh, local, r),
        None => match name {
            Some(n) => put_source(sh, local, n),
            None => ends(sh, ActionView::Fail(FailureView::Protocol(nameless_error()))),
        },
    }
}

/// `put`: the remote file is opened for writing, new or emptied.
pub open spec fn put_source_step<E>(
    sh: ShellView,
    remote: Seq<char>,
    event: EventView<E>,
) -> StepView<E> {
    match event {
        EventView::Ready => asks(
            sh,
            StageView::PutOpen { id: next_id(sh), remote },
            SSH_FXP_OPEN,
            open_body(remote, write_flags()),
        ),
        EventView::Failed(e) => ends(sh, ActionView::Fail(FailureView::Outside(e))),
        _ => waits(sh, StageView::PutSource { remote }),
    }
}

/// A step that asks for the next bytes of the local file.
pub open spec fn put_read<E>(
    sh: ShellView,
    file: Seq<u8>,
    remote: Seq<char>,
    offset: u64,
) -> StepView<E> {
    goes_on(sh, StageView::PutRead { file, remote, offset }, ActionView::Read(CHUNK))
}

/// A step that closes the remote file, however the transfer went.
pub open spec fn put_close<E>(
    sh: ShellView,
    file: Seq<u8>,
    remote: Seq<char>,
    result: Result<u64, FailureView<E>>,
) -> StepView<E> {
    asks(
        sh,
        StageView::PutClose { id: next_id(sh), remote, result },
        SSH_FXP_CLOSE,
        bytes_field(file),
    )
}

/// `put`: the local file is read from its start.
pub open spec fn put_open_step<E>(
    sh: ShellView,
    id: u32,
    remote: Seq<char>,
    event: EventView<E>,
) -> StepView<E> {
    match hear_handle(id, event) {
        Heard::Nothing => waits(sh, StageView::PutOpen { id, remote }),
        Heard::Value(file) => put_read(sh, file, remote, 0),
        Heard::Failure(f) => ends(sh, ActionView::Fail(f)),
        Heard::Breach(b) => ends(sh, ActionView::Abort(b)),
    }
}

/// `put`: bytes that were read are sent; none is the end.
pub open spec fn put_read_step<E>(
    sh: ShellView,
    file: Seq<u8>,
    remote: Seq<char>,
    offset: u64,
    event: EventView<E>,
) -> StepView<E> {
    match event {
        EventView::Bytes(bytes) => if bytes.len() == 0 {
            put_close(sh, file, remote, Ok(offset))
        } else {
            asks(
                sh,
                StageView::PutWrite {
                    id: next_id(sh),
                    file,
                    remote,
                    offset,
                    count: bytes.len() as u64,
                },
                SSH_FXP_WRITE,
                bytes_field(file) + be64(offset) + bytes_field(bytes),
            )
        },
        EventView::Failed(e) => put_close(sh, file, remote, Err(FailureView::Outside(e))),
        _ => waits(sh, StageView::PutRead { file, remote, offset }),
    }
}

/// `put`: reading goes on when the bytes have been written.
pub open spec fn put_write_step<E>(
    sh: ShellView,
    id: u32,
    file: Seq<u8>,
    remote: Seq<char>,
    offset: u64,
    count: u64,
    event: EventView<E>,
) -> StepView<E> {
    match hear_status(id, event) {
        Heard::Nothing => waits(sh, StageView::PutWrite { id, file, remote, offset, count }),
        Heard::Value(_) => put_read(sh, file, remote, moved(offset, count)),
        Heard::Failure(f) => put_close(sh, file, remote, Err(f)),
        Heard::Breach(b) => ends(sh, ActionView::Abort(b)),
    }
}

/// `put`: the file is closed, and the result is told.
pub open spec fn put_close_step<E>(
    sh: ShellView,
    id: u32,
    remote: Seq<char>,
    result: Result<u64, FailureView<E>>,
    event: EventView<E>,
) -> StepView<E> {
    match hear_reply(id, event) {
        Heard::Nothing => waits(sh, StageView::PutClose { id, remote, result }),
        Heard::Breach(b) => ends(sh, ActionView::Abort(b)),
        _ => transfer_end(sh, "Uploaded"@, remote, result),
    }
}

// All commands.

/// Where an event leads a command.
#[verifier::opaque]
pub open spec fn next_step<E>(
    sh: ShellView,
    stage: StageView<E>,
    event: EventView<E>,
) -> StepView<E> {
    match stage {
        StageView::Status { id } => status_step(sh, id, event),
        StageView::CdResolve { id } => cd_resolve_step(sh, id, event),
        StageView::CdCheck { id, path } => cd_check_step(sh, id, path, event),
        StageView::Stat { id, path } => stat_step(sh, id, path, event),
        StageView::LsStat { id, path, name, long } => ls_stat_step(sh, id, path, name, long, event),
        StageView::LsOpen { id, long } => ls_open_step(sh, id, long, event),
        StageView::LsRead { id, dir, entries, long } => ls_read_step(
            sh,
            id,
            dir,
            entries,
            long,
            event,
        ),
        StageView::LsClose { id, entries, long } => ls_close_step(sh, id, entries, long, event),
        StageView::LsQuit { id, failure } => ls_quit_step(sh, id, failure, event),
        StageView::GetOpen { id, local } => get_open_step(sh, id, local, event),
        StageView::GetCreate { file, local } => get_create_step(sh, file, local, event),
        StageView::GetRead { id, file, local, offset } => get_read_step(
            sh,
            id,
            file,
            local,
            offset,
            event,
        ),
        StageView::GetWrite { file, local, offset, count } => get_write_step(
            sh,
            file,
            local,
            offset,
            count,
            event,
        ),
        StageView::GetClose { id, local, result } => get_close_step(sh, id, local, result, event),
        StageView::PutSource { remote } => put_source_step(sh, remote, event),
        StageView::PutOpen { id, remote } => put_open_step(sh, id, remote, event),
        StageView::PutRead { file, remote, offset } => put_read_step(
            sh,
            file,
            remote,
            offset,
            event,
        ),
        StageView::PutWrite { id, file, remote, offset, count } => put_write_step(
            sh,
            id,
            file,
            remote,
            offset,
            count,
            event,
        ),
        StageView::PutClose { id, remote, result } => put_close_step(sh, id, remote, result, event),
        StageView::Over => waits(sh, StageView::Over),
    }
}

/// The contents of what a line sets going.
pub enum JobView<E> {
    Quit,
    Say(Seq<Seq<char>>),
    Complain(Seq<char>),
    Refuse(ErrorView),
    Lpwd,
    Lcd(Option<Seq<char>>),
    Lls(Option<Seq<char>>),
    Run(StageView<E>, ActionView<E>),
}

/// A job that begins with this step.
pub open spec fn runs<E>(step: StepView<E>) -> (ShellView, JobView<E>) {
    (step.shell, JobView::Run(step.stage, step.action))
}

/// The path of which a command takes the last component for a name, if it does.
pub open spec fn named_path(sh: ShellView, c: CommandView) -> Option<Seq<char>> {
    match c {
        CommandView::Ls(args) => Some(ls_path(sh, args)),
        CommandView::Get(remote, None) => Some(resolved(sh.cwd, remote)),
        CommandView::Put(local, None) => Some(local),
        _ => None,
    }
}

/// Whether this can be the name that a command finds. A command that takes no
/// name from a path finds none.
pub open spec fn name_fits(sh: ShellView, c: CommandView, name: Option<Seq<char>>) -> bool {
    match named_path(sh, c) {
        Some(path) => can_be_found(path, name),
        None => name is None,
    }
}

/// What a command sets going, and the shell that it leaves. `name` is the name
/// that it found.
pub open spec fn job_of<E>(sh: ShellView, c: CommandView, name: Option<Seq<char>>) -> (
    ShellView,
    JobView<E>,
) {
    match c {
        CommandView::Empty => (sh, JobView::Say(seq![])),
        CommandView::Quit => (sh, JobView::Quit),
        CommandView::Help => (sh, JobView::Say(seq![HELP@])),
        CommandView::Pwd => (sh, JobView::Say(seq!["Remote working directory: "@ + sh.cwd])),
        CommandView::Cd(path) => runs(cd_start(sh, path)),
        CommandView::Ls(args) => runs(
            ls_start(sh, ls_path(sh, args), name, wants_long(args)),
        ),
        CommandView::Mkdir(path) => runs(mkdir_start(sh, path)),
        CommandView::Rmdir(path) => runs(rmdir_start(sh, path)),
        CommandView::Rm(path) => runs(rm_start(sh, path)),
        CommandView::Rename(from, to) => runs(rename_start(sh, from, to)),
        CommandView::Symlink(target, link) => runs(symlink_start(sh, target, link)),
        CommandView::Ln(target, link, symbolic) => runs(ln_start(sh, target, link, symbolic)),
        CommandView::Chmod(mode, path) => runs(chmod_start(sh, mode, path)),
        CommandView::Stat(path) => runs(stat_start(sh, path)),
        CommandView::Get(remote, local) => runs(get_start(sh, remote, local, name)),
        CommandView::Put(local, remote) => runs(put_start(sh, local, remote, name)),
        CommandView::Lpwd => (sh, JobView::Lpwd),
        CommandView::Lcd(path) => (sh, JobView::Lcd(path)),
        CommandView::Lls(path) => (sh, JobView::Lls(path)),
        CommandView::Unknown(word) => (
            sh,
            JobView::Complain("unknown command: "@ + word + " (try 'help')"@),
        ),
        CommandView::Malformed(text) => (sh, JobView::Complain("parse error: "@ + text)),
        CommandView::Misused(e) => (sh, JobView::Refuse(e)),
    }
}

} // verus!
