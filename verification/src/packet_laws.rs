//! What the commands of the shell send, and what they make of the answers.
//!
//! What is said here is said of the packets that leave the shell and of the
//! replies that come, without the functions that lead from one to the other.

use vstd::prelude::*;

use crate::attribute_laws::comes_back;
use crate::attributes::{encode_attributes, no_attributes, AttributesView};
use crate::command::{CommandView, HELP};
use crate::error::{ErrorView, IoErrorKind, IoErrorView};
use crate::layout_laws::{bit_if, law_attributes_layout, law_path_resolution_layout};
use crate::listing::{attr_lines, is_directory};
use crate::meaning_laws::{law_name_in_a_reply, law_status_layout};
use crate::protocol::numbered;
use crate::reply::Breach;
use crate::reply_laws::{
    law_attributes_reach_the_caller, law_bytes_reach_the_caller, law_refusal_reaches_the_caller,
    name_comes_back,
};
use crate::shell_laws::is_absolute;
use crate::stage::{
    hear_attrs, hear_data, hear_handle, hear_listing, hear_name, hear_status, ActionView,
    EventView, FailureView, Heard, StageView,
};
use crate::steps::{job_of, next_step, resolved, JobView, ShellView, StepView};
use crate::sync::{advanced, issued, law_reply_is_matched_by_id};
use crate::text::{decimal, octal_error_text, parse_octal};
use crate::wire::{be32, bytes_field, str_field, text_fits};

verus! {

// Vocabulary.

/// The shell when it has sent one request.
pub open spec fn after_one(sh: ShellView) -> ShellView {
    ShellView { session: advanced(sh.session), cwd: sh.cwd }
}

/// The packet of the next request.
pub open spec fn request(sh: ShellView, cmd: u8, body: Seq<u8>) -> Seq<u8> {
    issued(sh.session, cmd, body).packet
}

/// A job that begins with a request, and waits in this stage.
pub open spec fn begins<E>(
    sh: ShellView,
    stage: StageView<E>,
    cmd: u8,
    body: Seq<u8>,
) -> (ShellView, JobView<E>) {
    (after_one(sh), JobView::Run(stage, ActionView::Send(request(sh, cmd, body))))
}

/// A step that sends a request, and waits in this stage.
pub open spec fn sends<E>(
    sh: ShellView,
    stage: StageView<E>,
    cmd: u8,
    body: Seq<u8>,
) -> StepView<E> {
    StepView {
        shell: after_one(sh),
        stage,
        action: ActionView::Send(request(sh, cmd, body)),
    }
}

/// A step that ends the command.
pub open spec fn finishes<E>(sh: ShellView, action: ActionView<E>) -> StepView<E> {
    StepView { shell: sh, stage: StageView::Over, action }
}

/// The reply to a request.
pub open spec fn reply_to<E>(id: u32, kind: u8, payload: Seq<u8>) -> EventView<E> {
    EventView::Reply(kind, numbered(id, payload))
}

/// The payload of a status.
pub open spec fn status(code: u32, m: Seq<char>, l: Seq<char>) -> Seq<u8> {
    be32(code) + str_field(m) + str_field(l)
}

/// The failure that a status stands for.
pub open spec fn refusal_of<E>(code: u32, m: Seq<char>, l: Seq<char>) -> FailureView<E> {
    FailureView::Protocol(
        if code <= 31 {
            ErrorView::Status(code, m, l)
        } else {
            ErrorView::Other(code, m, l)
        },
    )
}

/// A failure without a status of the server.
pub open spec fn own_failure<E>(message: Seq<char>) -> FailureView<E> {
    FailureView::Protocol(
        ErrorView::Io(IoErrorView { kind: IoErrorKind::InvalidInput, message }),
    )
}

// Paths.

/// An absolute path is what it is. Any other path is the working directory, a
/// slash unless one is there, and the path.
pub proof fn law_where_paths_lead(cwd: Seq<char>, path: Seq<char>)
    ensures
        path.len() > 0 && path[0] == '/' ==> resolved(cwd, path) == path,
        !(path.len() > 0 && path[0] == '/') && cwd.len() > 0 && cwd[cwd.len() - 1] == '/'
            ==> resolved(cwd, path) == cwd + path,
        !(path.len() > 0 && path[0] == '/') && !(cwd.len() > 0 && cwd[cwd.len() - 1] == '/')
            ==> resolved(cwd, path) == cwd + "/"@ + path,
{
}

// Commands of one request.

pub(crate) proof fn lemma_nothing_set()
    ensures
        encode_attributes(no_attributes()) == be32(0),
{
    reveal(bit_if);
    law_attributes_layout(no_attributes(), 0);
    assert(encode_attributes(no_attributes()) =~= be32(0));
}

proof fn lemma_mode_set(mode: u32)
    ensures
        encode_attributes(AttributesView { permissions: Some(mode), ..no_attributes() }) == be32(4)
            + be32(mode),
{
    let a = AttributesView { permissions: Some(mode), ..no_attributes() };
    reveal(bit_if);
    law_attributes_layout(a, 4);
    assert(encode_attributes(a) =~= be32(4) + be32(mode));
}

/// `mkdir`, `rmdir` and `rm` send one request for the path as seen from the
/// working directory.
pub proof fn law_commands_on_one_path<E>(sh: ShellView, path: Seq<char>, name: Option<Seq<char>>)
    ensures
        ({
            let at = str_field(resolved(sh.cwd, path));
            let wait = StageView::<E>::Status { id: sh.session.next_id };
            &&& job_of::<E>(sh, CommandView::Mkdir(path), name) == begins(
                sh,
                wait,
                14,
                at + be32(0),
            )
            &&& job_of::<E>(sh, CommandView::Rmdir(path), name) == begins(sh, wait, 15, at)
            &&& job_of::<E>(sh, CommandView::Rm(path), name) == begins(sh, wait, 13, at)
        }),
{
    lemma_nothing_set();
}

/// `rm` of a relative path removes the file in the working directory, and of an
/// absolute path that file.
pub proof fn law_rm_removes_what_was_named<E>(sh: ShellView, path: Seq<char>)
    ensures
        is_absolute(path) ==> job_of::<E>(sh, CommandView::Rm(path), None).1 == JobView::<E>::Run(
            StageView::Status { id: sh.session.next_id },
            ActionView::Send(issued(sh.session, 13, str_field(path)).packet),
        ),
        !is_absolute(path) && !(sh.cwd.len() > 0 && sh.cwd.last() == '/') ==> job_of::<E>(
            sh,
            CommandView::Rm(path),
            None,
        ).1 == JobView::<E>::Run(
            StageView::Status { id: sh.session.next_id },
            ActionView::Send(issued(sh.session, 13, str_field(sh.cwd + "/"@ + path)).packet),
        ),
{
}

/// `rename` sends the path as it is and then the path as it is to be, both as
/// seen from the working directory, and asks to overwrite.
pub proof fn law_rename_sends_both_paths<E>(
    sh: ShellView,
    from: Seq<char>,
    to: Seq<char>,
    name: Option<Seq<char>>,
)
    ensures
        job_of::<E>(sh, CommandView::Rename(from, to), name) == begins(
            sh,
            StageView::<E>::Status { id: sh.session.next_id },
            18,
            str_field(resolved(sh.cwd, from)) + str_field(resolved(sh.cwd, to)) + be32(7),
        ),
{
    assert(2u32 | 4u32 | 1u32 == 7u32) by (bit_vector);
}

/// A symbolic link is sent as the link, seen from the working directory, and
/// then its target, as it was given; a hard link as the link and the target,
/// both seen from the working directory, and a zero.
pub proof fn law_links_send_link_and_target<E>(
    sh: ShellView,
    target: Seq<char>,
    link: Seq<char>,
    name: Option<Seq<char>>,
)
    ensures
        ({
            let wait = StageView::<E>::Status { id: sh.session.next_id };
            let at = str_field(resolved(sh.cwd, link));
            let soft = begins(sh, wait, 20, at + str_field(target));
            &&& job_of::<E>(sh, CommandView::Symlink(target, link), name) == soft
            &&& job_of::<E>(sh, CommandView::Ln(target, link, true), name) == soft
            &&& job_of::<E>(sh, CommandView::Ln(target, link, false), name) == begins(
                sh,
                wait,
                21,
                at + str_field(resolved(sh.cwd, target)) + seq![0u8],
            )
        }),
{
}

/// `chmod` sends the path and permissions only: the number that the mode stands
/// for in octal. A mode that is no such number is refused without a request.
pub proof fn law_chmod_sends_the_mode<E>(
    sh: ShellView,
    mode: Seq<char>,
    path: Seq<char>,
    name: Option<Seq<char>>,
)
    ensures
        parse_octal(mode) is Some ==> job_of::<E>(sh, CommandView::Chmod(mode, path), name)
            == begins(
            sh,
            StageView::<E>::Status { id: sh.session.next_id },
            9,
            str_field(resolved(sh.cwd, path)) + (be32(4) + be32(parse_octal(mode)->0)),
        ),
        parse_octal(mode) is None ==> job_of::<E>(sh, CommandView::Chmod(mode, path), name) == (
            sh,
            JobView::<E>::Run(
                StageView::Over,
                ActionView::Fail(
                    own_failure("invalid mode '"@ + mode + "': "@ + octal_error_text(mode)),
                ),
            ),
        ),
{
    if let Some(m) = parse_octal(mode) {
        lemma_mode_set(m);
    }
}

/// The status that answers the request ends the command: success says nothing,
/// anything else is the failure of its code.
pub proof fn law_status_ends_the_command<E>(
    sh: ShellView,
    id: u32,
    code: u32,
    m: Seq<char>,
    l: Seq<char>,
)
    requires
        text_fits(m),
        text_fits(l),
    ensures
        next_step(sh, StageView::<E>::Status { id }, reply_to(id, 101, status(code, m, l)))
            == finishes::<E>(
            sh,
            if code == 0 {
                ActionView::Done(seq![])
            } else {
                ActionView::Fail(refusal_of(code, m, l))
            },
        ),
{
    reveal(next_step);
    law_reply_is_matched_by_id(id, id, status(code, m, l));
    law_status_layout(code, m, l, seq![]);
    assert(status(code, m, l) + seq![] =~= status(code, m, l));
}

// What can go wrong.

/// Whether a stage waits for the reply to this request.
pub open spec fn awaits<E>(stage: StageView<E>, id: u32) -> bool {
    match stage {
        StageView::Status { id: i } => i == id,
        StageView::CdResolve { id: i } => i == id,
        StageView::CdCheck { id: i, .. } => i == id,
        StageView::Stat { id: i, .. } => i == id,
        StageView::LsStat { id: i, .. } => i == id,
        StageView::LsOpen { id: i, .. } => i == id,
        StageView::LsRead { id: i, .. } => i == id,
        StageView::LsClose { id: i, .. } => i == id,
        StageView::LsQuit { id: i, .. } => i == id,
        StageView::GetOpen { id: i, .. } => i == id,
        StageView::GetRead { id: i, .. } => i == id,
        StageView::GetClose { id: i, .. } => i == id,
        StageView::PutOpen { id: i, .. } => i == id,
        StageView::PutWrite { id: i, .. } => i == id,
        StageView::PutClose { id: i, .. } => i == id,
        _ => false,
    }
}

/// The reply to another request ends any command: the server cannot be
/// understood any more.
pub proof fn law_replies_of_others_end_the_command<E>(
    sh: ShellView,
    stage: StageView<E>,
    id: u32,
    other: u32,
    kind: u8,
    payload: Seq<u8>,
)
    requires
        awaits(stage, id),
        other != id,
    ensures
        next_step(sh, stage, reply_to(other, kind, payload)) == finishes::<E>(
            sh,
            ActionView::Abort(Breach::RequestId),
        ),
{
    reveal(next_step);
    law_reply_is_matched_by_id(id, other, payload);
}

/// Whether a stage holds no handle that is still to be closed, nor waits for
/// the closing of one.
pub open spec fn holds_nothing<E>(stage: StageView<E>) -> bool {
    match stage {
        StageView::Status { .. } => true,
        StageView::CdResolve { .. } => true,
        StageView::CdCheck { .. } => true,
        StageView::Stat { .. } => true,
        StageView::LsStat { .. } => true,
        StageView::LsOpen { .. } => true,
        StageView::LsClose { .. } => true,
        StageView::GetOpen { .. } => true,
        StageView::PutSource { .. } => true,
        StageView::PutOpen { .. } => true,
        _ => false,
    }
}

/// What could not be done ends a command that holds nothing open, and is its
/// failure.
pub proof fn law_what_fails_outside_is_reported<E>(sh: ShellView, stage: StageView<E>, e: E)
    requires
        holds_nothing(stage),
    ensures
        next_step(sh, stage, EventView::Failed(e)) == finishes::<E>(
            sh,
            ActionView::Fail(FailureView::Outside(e)),
        ),
{
    reveal(next_step);
}

#[verifier::spinoff_prover]
pub(crate) proof fn lemma_hear_a_refusal<E>(id: u32, code: u32, m: Seq<char>, l: Seq<char>)
    requires
        code != 0,
        text_fits(m),
        text_fits(l),
    ensures
        ({
            let event = reply_to::<E>(id, 101, status(code, m, l));
            let f = refusal_of::<E>(code, m, l);
            &&& hear_status(id, event) == Heard::<(), _>::Failure(f)
            &&& hear_name(id, event) == Heard::<Seq<char>, _>::Failure(f)
            &&& hear_handle(id, event) == Heard::<Seq<u8>, _>::Failure(f)
            &&& hear_attrs(id, event) == Heard::<AttributesView, _>::Failure(f)
            &&& hear_data(id, event) == Heard::<Seq<u8>, _>::Failure(f)
            &&& hear_listing(id, event) == Heard::<
                Seq<(Seq<char>, Seq<char>, AttributesView)>,
                _,
            >::Failure(f)
        }),
{
    law_reply_is_matched_by_id(id, id, status(code, m, l));
    law_status_layout(code, m, l, seq![]);
    law_refusal_reaches_the_caller(code, m, l, seq![]);
    assert(status(code, m, l) + seq![] =~= status(code, m, l));
}

/// A refusal by the server ends a command that waits for a value and holds
/// nothing open, and is its failure.
#[verifier::spinoff_prover]
pub proof fn law_refusals_are_reported<E>(
    sh: ShellView,
    stage: StageView<E>,
    id: u32,
    code: u32,
    m: Seq<char>,
    l: Seq<char>,
)
    requires
        awaits(stage, id),
        holds_nothing(stage),
        code != 0,
        text_fits(m),
        text_fits(l),
    ensures
        next_step(sh, stage, reply_to(id, 101, status(code, m, l))) == finishes::<E>(
            sh,
            ActionView::Fail(refusal_of(code, m, l)),
        ),
{
    lemma_hear_a_refusal::<E>(id, code, m, l);
    reveal(next_step);
}

/// The kind of reply that answers the request of a stage that holds nothing.
pub open spec fn due_kind<E>(stage: StageView<E>) -> u8 {
    match stage {
        StageView::CdResolve { .. } => 104,
        StageView::CdCheck { .. } => 105,
        StageView::Stat { .. } => 105,
        StageView::LsStat { .. } => 105,
        StageView::LsOpen { .. } => 102,
        StageView::GetOpen { .. } => 102,
        StageView::PutOpen { .. } => 102,
        _ => 101,
    }
}

/// A reply of a kind that was not asked for, and one that is too short, is the
/// failure of a command that holds nothing open.
#[verifier::spinoff_prover]
pub proof fn law_unfit_replies_are_reported<E>(
    sh: ShellView,
    stage: StageView<E>,
    id: u32,
    kind: u8,
    payload: Seq<u8>,
    short: Seq<u8>,
)
    requires
        awaits(stage, id),
        holds_nothing(stage),
        kind != 101,
        kind != due_kind(stage),
        short.len() < 4,
    ensures
        next_step(sh, stage, reply_to(id, kind, payload)) == finishes::<E>(
            sh,
            ActionView::Fail(other_failure("Unexpected response: "@ + decimal(kind as nat))),
        ),
        next_step(sh, stage, EventView::Reply(kind, short)) == finishes::<E>(
            sh,
            ActionView::Fail(other_failure("response too short to contain request id"@)),
        ),
{
    reveal(next_step);
    law_reply_is_matched_by_id(id, id, payload);
}

/// A failure of no particular kind.
pub open spec fn other_failure<E>(message: Seq<char>) -> FailureView<E> {
    FailureView::Protocol(ErrorView::Io(IoErrorView { kind: IoErrorKind::Other, message }))
}

/// Success where a value is due ends any command: the server cannot be
/// understood any more.
#[verifier::spinoff_prover]
pub proof fn law_success_is_no_value<E>(
    sh: ShellView,
    stage: StageView<E>,
    id: u32,
    m: Seq<char>,
    l: Seq<char>,
)
    requires
        awaits(stage, id),
        due_kind(stage) != 101 || stage is LsRead || stage is GetRead,
        text_fits(m),
        text_fits(l),
    ensures
        next_step(sh, stage, reply_to(id, 101, status(0, m, l))) == finishes::<E>(
            sh,
            ActionView::Abort(Breach::OkStatus),
        ),
{
    reveal(next_step);
    law_reply_is_matched_by_id(id, id, status(0, m, l));
    law_status_layout(0, m, l, seq![]);
    assert(status(0, m, l) + seq![] =~= status(0, m, l));
}

/// Whether a stage waits for the local file.
pub open spec fn works_locally<E>(stage: StageView<E>) -> bool {
    match stage {
        StageView::GetCreate { .. } => true,
        StageView::GetWrite { .. } => true,
        StageView::PutSource { .. } => true,
        _ => false,
    }
}

/// A stage waits for what it has asked for, and is not moved by anything else: a
/// reply, word that the local file is ready, or its bytes.
pub proof fn law_stages_wait_for_what_they_asked_for<E>(
    sh: ShellView,
    stage: StageView<E>,
    id: u32,
    kind: u8,
    bytes: Seq<u8>,
)
    ensures
        ({
            let still = StepView::<E> { shell: sh, stage, action: ActionView::Wait };
            &&& awaits(stage, id) ==> next_step(sh, stage, EventView::Ready) == still && next_step(
                sh,
                stage,
                EventView::Bytes(bytes),
            ) == still
            &&& works_locally(stage) ==> next_step(sh, stage, EventView::Reply(kind, bytes))
                == still && next_step(sh, stage, EventView::Bytes(bytes)) == still
            &&& stage is PutRead ==> next_step(sh, stage, EventView::Reply(kind, bytes)) == still
                && next_step(sh, stage, EventView::Ready) == still
        }),
{
    reveal(next_step);
}

// `cd`.

/// `cd` asks the server for the absolute path of the one it was given, as seen
/// from the working directory, or of the root.
pub proof fn law_cd_asks_for_the_path<E>(sh: ShellView, path: Seq<char>, name: Option<Seq<char>>)
    ensures
        job_of::<E>(sh, CommandView::Cd(Some(path)), name) == begins(
            sh,
            StageView::<E>::CdResolve { id: sh.session.next_id },
            16,
            str_field(resolved(sh.cwd, path)),
        ),
        job_of::<E>(sh, CommandView::Cd(None), name) == begins(
            sh,
            StageView::<E>::CdResolve { id: sh.session.next_id },
            16,
            str_field("/"@),
        ),
{
    law_path_resolution_layout(resolved(sh.cwd, path), 0, seq![]);
    law_path_resolution_layout("/"@, 0, seq![]);
}

/// `cd` then asks what the path is that the server named.
pub proof fn law_cd_asks_what_it_is<E>(
    sh: ShellView,
    id: u32,
    path: Seq<char>,
    a: AttributesView,
)
    requires
        name_comes_back((path, a)),
    ensures
        next_step(
            sh,
            StageView::<E>::CdResolve { id },
            reply_to(id, 104, be32(1) + (str_field(path) + encode_attributes(a))),
        ) == sends::<E>(
            sh,
            StageView::CdCheck { id: sh.session.next_id, path },
            17,
            str_field(path) + be32(0),
        ),
{
    reveal(next_step);
    let payload = be32(1) + (str_field(path) + encode_attributes(a));
    law_reply_is_matched_by_id(id, id, payload);
    law_name_in_a_reply(path, a, seq![]);
    assert(payload + seq![] =~= payload);
}

/// If it is a directory, the shell is there from now on, and says nothing;
/// otherwise it stays where it was, and the failure names the path.
pub proof fn law_cd_goes_to_directories_only<E>(
    sh: ShellView,
    id: u32,
    path: Seq<char>,
    a: AttributesView,
)
    requires
        comes_back(a),
    ensures
        next_step(
            sh,
            StageView::<E>::CdCheck { id, path },
            reply_to(id, 105, encode_attributes(a)),
        ) == (if is_directory(a) {
            finishes::<E>(
                ShellView { session: sh.session, cwd: path },
                ActionView::Done(seq![]),
            )
        } else {
            finishes::<E>(
                sh,
                ActionView::Fail(FailureView::Protocol(ErrorView::Status(19, seq![], path))),
            )
        }),
{
    reveal(next_step);
    lemma_hear_attributes::<E>(id, a);
}

pub(crate) proof fn lemma_hear_attributes<E>(id: u32, a: AttributesView)
    requires
        comes_back(a),
    ensures
        hear_attrs(id, reply_to::<E>(id, 105, encode_attributes(a)))
            == Heard::<_, FailureView<E>>::Value(a),
{
    law_reply_is_matched_by_id(id, id, encode_attributes(a));
    law_attributes_reach_the_caller(a, seq![]);
    assert(encode_attributes(a) + seq![] =~= encode_attributes(a));
}

pub(crate) proof fn lemma_hear_a_handle<E>(id: u32, handle: Seq<u8>)
    requires
        handle.len() <= u32::MAX,
    ensures
        hear_handle(id, reply_to::<E>(id, 102, bytes_field(handle)))
            == Heard::<_, FailureView<E>>::Value(handle),
{
    law_reply_is_matched_by_id(id, id, bytes_field(handle));
    law_bytes_reach_the_caller(handle, seq![]);
    assert(bytes_field(handle) + seq![] =~= bytes_field(handle));
}

// `stat`.

/// `stat` asks for the attributes of the path as seen from the working
/// directory, and shows them under that path.
pub proof fn law_stat_shows_the_attributes<E>(
    sh: ShellView,
    path: Seq<char>,
    name: Option<Seq<char>>,
    sh2: ShellView,
    id: u32,
    at: Seq<char>,
    a: AttributesView,
)
    requires
        comes_back(a),
    ensures
        job_of::<E>(sh, CommandView::Stat(path), name) == begins(
            sh,
            StageView::<E>::Stat { id: sh.session.next_id, path: resolved(sh.cwd, path) },
            17,
            str_field(resolved(sh.cwd, path)) + be32(0),
        ),
        next_step(
            sh2,
            StageView::<E>::Stat { id, path: at },
            reply_to(id, 105, encode_attributes(a)),
        ) == finishes::<E>(sh2, ActionView::Done(attr_lines(at, a))),
{
    reveal(next_step);
    lemma_hear_attributes::<E>(id, a);
}

// What needs no server.

/// Commands that need no server leave the shell as it is.
pub proof fn law_commands_without_a_server<E>(
    sh: ShellView,
    path: Option<Seq<char>>,
    word: Seq<char>,
    e: ErrorView,
    name: Option<Seq<char>>,
)
    ensures
        job_of::<E>(sh, CommandView::Empty, name) == (sh, JobView::<E>::Say(seq![])),
        job_of::<E>(sh, CommandView::Quit, name) == (sh, JobView::<E>::Quit),
        job_of::<E>(sh, CommandView::Help, name) == (sh, JobView::<E>::Say(seq![HELP@])),
        job_of::<E>(sh, CommandView::Pwd, name) == (
            sh,
            JobView::<E>::Say(seq!["Remote working directory: "@ + sh.cwd]),
        ),
        job_of::<E>(sh, CommandView::Lpwd, name) == (sh, JobView::<E>::Lpwd),
        job_of::<E>(sh, CommandView::Lcd(path), name) == (sh, JobView::<E>::Lcd(path)),
        job_of::<E>(sh, CommandView::Lls(path), name) == (sh, JobView::<E>::Lls(path)),
        job_of::<E>(sh, CommandView::Unknown(word), name) == (
            sh,
            JobView::<E>::Complain("unknown command: "@ + word + " (try 'help')"@),
        ),
        job_of::<E>(sh, CommandView::Malformed(word), name) == (
            sh,
            JobView::<E>::Complain("parse error: "@ + word),
        ),
        job_of::<E>(sh, CommandView::Misused(e), name) == (sh, JobView::<E>::Refuse(e)),
{
}

} // verus!
