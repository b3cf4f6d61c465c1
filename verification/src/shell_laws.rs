//! What holds of every run of a shell command.

use vstd::prelude::*;

use crate::attribute_laws::pair_fits;
use crate::attributes::AttributesView;
use crate::constants::{
    SSH_FXP_CLOSE, SSH_FXP_DATA, SSH_FXP_NAME, SSH_FXP_STATUS, SSH_FXP_WRITE, SSH_FX_EOF,
    SSH_FX_OK,
};
use crate::error::ErrorView;
use crate::listing::{is_directory, listing_lines};
use crate::path::{can_be_found, law_last_name_stands_last, plain_path};
use crate::protocol::{numbered, successor};
use crate::reply::{readdir_answer, Breach};
use crate::reply_laws::{
    entry_comes_back, law_bytes_reach_the_caller, law_entries_reach_the_caller,
    law_refusal_reaches_the_caller, law_status_round_trip, listing_bytes, status_bytes,
};
use crate::stage::{
    hear_attrs, hear_data, hear_listing, hear_status, ActionView, EventView, FailureView, Heard,
    StageView,
};
use crate::steps::{
    asks, get_close, get_open, get_read, get_start, ls_read, ls_start, moved, next_id,
    next_step, put_close, put_read, put_source, put_start, resolved, transfer_line, ShellView,
    StepView,
};
use crate::sync::{advanced, after_requests, issued, law_reply_is_matched_by_id};
use crate::wire::{be64, bytes_field, text_fits};

verus! {

// Paths.

/// Whether a path begins at the root.
pub open spec fn is_absolute(path: Seq<char>) -> bool {
    path.len() > 0 && path.first() == '/'
}

/// An absolute path is taken as it is. From an absolute working directory any
/// path becomes absolute, and to resolve it again changes nothing.
pub proof fn law_paths_become_absolute(cwd: Seq<char>, path: Seq<char>, cwd2: Seq<char>)
    ensures
        is_absolute(path) ==> resolved(cwd, path) == path,
        is_absolute(cwd) ==> is_absolute(resolved(cwd, path)),
        is_absolute(cwd) ==> resolved(cwd2, resolved(cwd, path)) == resolved(cwd, path),
{
}

// Every step.

/// A step that answers nothing that was asked for changes nothing.
pub proof fn law_waiting_changes_nothing<E>(
    sh: ShellView,
    stage: StageView<E>,
    event: EventView<E>,
)
    requires
        next_step(sh, stage, event).action == ActionView::<E>::Wait,
    ensures
        next_step(sh, stage, event).shell == sh,
        next_step(sh, stage, event).stage == stage,
{
    reveal(next_step);
}

/// A step sends one request or none: the shell counts those that are sent, and
/// the handshake stays as it was.
pub proof fn law_steps_count_requests<E>(
    sh: ShellView,
    stage: StageView<E>,
    event: EventView<E>,
)
    ensures
        next_step(
            sh,
            stage,
            event,
        ).shell.session == (if next_step(sh, stage, event).action is Send {
            advanced(sh.session)
        } else {
            sh.session
        }),
{
    reveal(next_step);
}

/// The working directory changes in the last step of `cd` only, when the
/// server has said that the path is a directory, and then to that path.
pub proof fn law_only_cd_changes_directory<E>(
    sh: ShellView,
    stage: StageView<E>,
    event: EventView<E>,
)
    ensures
        match stage {
            StageView::CdCheck { id, path } => match hear_attrs(id, event) {
                Heard::Value(a) => next_step(sh, stage, event).shell.cwd == (if is_directory(a) {
                    path
                } else {
                    sh.cwd
                }),
                _ => next_step(sh, stage, event).shell.cwd == sh.cwd,
            },
            _ => next_step(sh, stage, event).shell.cwd == sh.cwd,
        },
{
    reveal(next_step);
}

/// A command that is over stays over.
pub proof fn law_over_is_over<E>(sh: ShellView, event: EventView<E>)
    ensures
        next_step(sh, StageView::Over, event) == (StepView {
            shell: sh,
            stage: StageView::<E>::Over,
            action: ActionView::<E>::Wait,
        }),
{
    reveal(next_step);
}

/// The handle that a stage holds open.
pub open spec fn open_handle<E>(stage: StageView<E>) -> Option<Seq<u8>> {
    match stage {
        StageView::LsRead { id, dir, entries, long } => Some(dir),
        StageView::GetCreate { file, local } => Some(file),
        StageView::GetRead { id, file, local, offset } => Some(file),
        StageView::GetWrite { file, local, offset, count } => Some(file),
        StageView::PutRead { file, remote, offset } => Some(file),
        StageView::PutWrite { id, file, remote, offset, count } => Some(file),
        _ => None,
    }
}

/// Whatever happens, a command holds its handle open or closes it, unless the
/// server can no longer be understood.
pub proof fn law_handles_are_closed<E>(sh: ShellView, stage: StageView<E>, event: EventView<E>)
    requires
        open_handle(stage) is Some,
    ensures
        ({
            let step = next_step(sh, stage, event);
            let handle = open_handle(stage)->0;
            ||| open_handle(step.stage) == Some(handle)
            ||| step.action == ActionView::<E>::Send(
                issued(sh.session, SSH_FXP_CLOSE, bytes_field(handle)).packet,
            )
            ||| step.action is Abort
        }),
{
    reveal(next_step);
}

// Whole runs.

/// Where events lead, one after the other.
pub open spec fn run<E>(step: StepView<E>, events: Seq<EventView<E>>) -> StepView<E>
    decreases events.len(),
{
    if events.len() == 0 {
        step
    } else {
        run(next_step(step.shell, step.stage, events[0]), events.drop_first())
    }
}

/// The actions on the way, the first one included.
pub open spec fn actions<E>(step: StepView<E>, events: Seq<EventView<E>>) -> Seq<ActionView<E>>
    decreases events.len(),
{
    if events.len() == 0 {
        seq![step.action]
    } else {
        seq![step.action] + actions(
            next_step(step.shell, step.stage, events[0]),
            events.drop_first(),
        )
    }
}

/// The bytes that an action writes to the local file.
pub open spec fn wrote<E>(action: ActionView<E>) -> Seq<u8> {
    match action {
        ActionView::Write(bytes) => bytes,
        _ => seq![],
    }
}

/// The bytes that actions write to the local file.
pub open spec fn written<E>(actions: Seq<ActionView<E>>) -> Seq<u8>
    decreases actions.len(),
{
    if actions.len() == 0 {
        seq![]
    } else {
        wrote(actions[0]) + written(actions.drop_first())
    }
}

/// Chunks of bytes as one.
pub open spec fn joined(chunks: Seq<Seq<u8>>) -> Seq<u8>
    decreases chunks.len(),
{
    if chunks.len() == 0 {
        seq![]
    } else {
        chunks[0] + joined(chunks.drop_first())
    }
}

/// Whether a chunk can be sent: it is not empty, and its length can be
/// announced.
pub open spec fn chunk_fits(chunk: Seq<u8>) -> bool {
    0 < chunk.len() <= u32::MAX
}

pub(crate) proof fn lemma_run_two<E>(
    step: StepView<E>,
    a: EventView<E>,
    b: EventView<E>,
    rest: Seq<EventView<E>>,
)
    ensures
        ({
            let one = next_step(step.shell, step.stage, a);
            let two = next_step(one.shell, one.stage, b);
            &&& run(step, seq![a, b] + rest) == run(two, rest)
            &&& actions(step, seq![a, b] + rest) == seq![step.action, one.action] + actions(
                two,
                rest,
            )
        }),
{
    let events = seq![a, b] + rest;
    let one = next_step(step.shell, step.stage, a);
    let two = next_step(one.shell, one.stage, b);
    let tail = events.drop_first();
    assert(events[0] == a);
    assert(tail[0] == b);
    assert(tail.drop_first() =~= rest);
    assert(run(step, events) == run(one, tail));
    assert(run(one, tail) == run(two, rest));
    assert(actions(step, events) == seq![step.action] + actions(one, tail));
    assert(actions(one, tail) == seq![one.action] + actions(two, rest));
    assert(actions(step, events) =~= seq![step.action, one.action] + actions(two, rest));
}

proof fn lemma_written_two<E>(a: ActionView<E>, b: ActionView<E>, rest: Seq<ActionView<E>>)
    ensures
        written(seq![a, b] + rest) == wrote(a) + (wrote(b) + written(rest)),
{
    let all = seq![a, b] + rest;
    let tail = all.drop_first();
    assert(all[0] == a);
    assert(tail[0] == b);
    assert(tail.drop_first() =~= rest);
    assert(written(tail) == wrote(b) + written(rest));
}

// `get`.

/// What happens while a file is fetched in these chunks: the server answers
/// each request for bytes with the next chunk, and each is written.
pub open spec fn fetch_events<E>(id: u32, chunks: Seq<Seq<u8>>) -> Seq<EventView<E>>
    decreases chunks.len(),
{
    if chunks.len() == 0 {
        seq![]
    } else {
        seq![
            EventView::Reply(SSH_FXP_DATA, numbered(id, bytes_field(chunks[0]))),
            EventView::Ready,
        ] + fetch_events(successor(id), chunks.drop_first())
    }
}

/// A shell that has sent so many requests more.
pub open spec fn later(sh: ShellView, n: nat) -> ShellView {
    ShellView { session: after_requests(sh.session, n), cwd: sh.cwd }
}

pub(crate) proof fn lemma_later(sh: ShellView, n: nat)
    ensures
        later(later(sh, 1), n) == later(sh, n + 1),
        later(sh, 0) == sh,
        later(sh, 1) == (ShellView { session: advanced(sh.session), cwd: sh.cwd }),
    decreases n,
{
    reveal_with_fuel(after_requests, 2);
    if n > 0 {
        lemma_later(sh, (n - 1) as nat);
    }
}

#[verifier::spinoff_prover]
pub(crate) proof fn lemma_hear_chunk<E>(id: u32, chunk: Seq<u8>)
    requires
        chunk_fits(chunk),
    ensures
        hear_data(id, EventView::<E>::Reply(SSH_FXP_DATA, numbered(id, bytes_field(chunk))))
            == Heard::<_, FailureView<E>>::Value(chunk),
{
    law_reply_is_matched_by_id(id, id, bytes_field(chunk));
    law_bytes_reach_the_caller(chunk, seq![]);
    assert(bytes_field(chunk) + seq![] =~= bytes_field(chunk));
}

pub(crate) proof fn lemma_chunk_is_written<E>(
    sh: ShellView,
    id: u32,
    file: Seq<u8>,
    local: Seq<char>,
    offset: u64,
    event: EventView<E>,
    chunk: Seq<u8>,
)
    requires
        hear_data(id, event) == Heard::<_, FailureView<E>>::Value(chunk),
        chunk.len() > 0,
    ensures
        ({
            let one = next_step(sh, StageView::GetRead { id, file, local, offset }, event);
            &&& one.shell == sh
            &&& one.action == ActionView::<E>::Write(chunk)
            &&& next_step(one.shell, one.stage, EventView::Ready) == get_read::<E>(
                sh,
                file,
                local,
                moved(offset, chunk.len() as u64),
            )
        }),
{
    reveal(next_step);
}

#[verifier::spinoff_prover]
proof fn lemma_one_chunk_in<E>(
    sh: ShellView,
    file: Seq<u8>,
    local: Seq<char>,
    offset: u64,
    chunk: Seq<u8>,
)
    requires
        chunk_fits(chunk),
    ensures
        ({
            let step = get_read::<E>(sh, file, local, offset);
            let one = next_step(
                step.shell,
                step.stage,
                EventView::Reply(SSH_FXP_DATA, numbered(next_id(sh), bytes_field(chunk))),
            );
            let two = next_step(one.shell, one.stage, EventView::Ready);
            &&& one.action == ActionView::<E>::Write(chunk)
            &&& two == get_read::<E>(later(sh, 1), file, local, moved(offset, chunk.len() as u64))
        }),
{
    lemma_later(sh, 0);
    lemma_hear_chunk::<E>(next_id(sh), chunk);
    lemma_chunk_is_written(
        later(sh, 1),
        next_id(sh),
        file,
        local,
        offset,
        EventView::<E>::Reply(SSH_FXP_DATA, numbered(next_id(sh), bytes_field(chunk))),
        chunk,
    );
}

pub(crate) proof fn lemma_moved(offset: u64, n: nat)
    requires
        offset + n <= u64::MAX,
    ensures
        moved(offset, n as u64) == (offset + n) as u64,
{
}

#[verifier::spinoff_prover]
pub(crate) proof fn lemma_one_chunk_on<E>(
    sh: ShellView,
    file: Seq<u8>,
    local: Seq<char>,
    offset: u64,
    chunk: Seq<u8>,
    reply: EventView<E>,
)
    requires
        chunk_fits(chunk),
        offset + chunk.len() <= u64::MAX,
        reply == EventView::<E>::Reply(SSH_FXP_DATA, numbered(next_id(sh), bytes_field(chunk))),
    ensures
        ({
            let step = get_read::<E>(sh, file, local, offset);
            let one = next_step(step.shell, step.stage, reply);
            &&& one.action == ActionView::<E>::Write(chunk)
            &&& next_step(one.shell, one.stage, EventView::Ready) == get_read::<E>(
                later(sh, 1),
                file,
                local,
                (offset + chunk.len()) as u64,
            )
        }),
{
    lemma_moved(offset, chunk.len());
    let at = (offset + chunk.len()) as u64;
    let step = get_read::<E>(sh, file, local, offset);
    let one = next_step(step.shell, step.stage, reply);
    let two = next_step(one.shell, one.stage, EventView::Ready);
    assert(one.action == ActionView::<E>::Write(chunk) && two == get_read::<E>(
        later(sh, 1),
        file,
        local,
        moved(offset, chunk.len() as u64),
    )) by {
        lemma_one_chunk_in::<E>(sh, file, local, offset, chunk);
    }
    assert(moved(offset, chunk.len() as u64) == at);
}

proof fn lemma_fetch_on<E>(
    step: StepView<E>,
    a: EventView<E>,
    b: EventView<E>,
    rest: Seq<EventView<E>>,
    next: StepView<E>,
    chunk: Seq<u8>,
)
    requires
        step.action is Send,
        next_step(step.shell, step.stage, a).action == ActionView::<E>::Write(chunk),
        next_step(
            next_step(step.shell, step.stage, a).shell,
            next_step(step.shell, step.stage, a).stage,
            b,
        ) == next,
    ensures
        run(step, seq![a, b] + rest) == run(next, rest),
        written(actions(step, seq![a, b] + rest)) == chunk + written(actions(next, rest)),
{
    lemma_run_two(step, a, b, rest);
    lemma_written_two(
        step.action,
        next_step(step.shell, step.stage, a).action,
        actions(next, rest),
    );
    assert(seq![] + (chunk + written(actions(next, rest))) =~= chunk + written(
        actions(next, rest),
    ));
}

pub(crate) proof fn lemma_nothing_on<E>(step: StepView<E>)
    ensures
        run(step, seq![]) == step,
        actions(step, seq![]) == seq![step.action],
        written(seq![step.action]) == wrote(step.action),
        sent(seq![step.action]) == packet_of(step.action),
{
    let all = seq![step.action];
    assert(all.drop_first() =~= seq![]);
    assert(written(all.drop_first()) =~= seq![]);
    assert(sent(all.drop_first()) =~= seq![]);
    assert(written(all) =~= wrote(step.action));
    assert(sent(all) =~= packet_of(step.action));
}

/// The bytes that `get` writes to the local file are those that the server
/// sent, in their order. Each request asks for the bytes behind those that
/// have come, and the last one for those behind them all.
#[verifier::spinoff_prover]
pub proof fn law_get_writes_what_was_sent<E>(
    sh: ShellView,
    file: Seq<u8>,
    local: Seq<char>,
    offset: u64,
    chunks: Seq<Seq<u8>>,
)
    requires
        forall|i: int| 0 <= i < chunks.len() ==> chunk_fits(#[trigger] chunks[i]),
        offset + joined(chunks).len() <= u64::MAX,
    ensures
        run(get_read::<E>(sh, file, local, offset), fetch_events(next_id(sh), chunks))
            == get_read::<E>(
            later(sh, chunks.len()),
            file,
            local,
            (offset + joined(chunks).len()) as u64,
        ),
        written(
            actions(get_read::<E>(sh, file, local, offset), fetch_events(next_id(sh), chunks)),
        ) == joined(chunks),
    decreases chunks.len(),
{
    let step = get_read::<E>(sh, file, local, offset);
    lemma_later(sh, 0);
    if chunks.len() == 0 {
        assert(fetch_events::<E>(next_id(sh), chunks) =~= seq![]);
        lemma_nothing_on(step);
        assert(joined(chunks) =~= seq![]);
    } else {
        let chunk = chunks[0];
        let more = chunks.drop_first();
        let sh1 = later(sh, 1);
        let offset1 = (offset + chunk.len()) as u64;
        assert forall|i: int| 0 <= i < more.len() implies chunk_fits(#[trigger] more[i]) by {
            assert(more[i] == chunks[i + 1]);
        }
        assert(chunk_fits(chunk));
        assert(joined(chunks) == chunk + joined(more));
        let reply = EventView::<E>::Reply(
            SSH_FXP_DATA,
            numbered(next_id(sh), bytes_field(chunk)),
        );
        let rest = fetch_events::<E>(next_id(sh1), more);
        let next = get_read::<E>(sh1, file, local, offset1);
        let events = seq![reply, EventView::<E>::Ready] + rest;
        lemma_one_chunk_on::<E>(sh, file, local, offset, chunk, reply);
        lemma_fetch_on(step, reply, EventView::<E>::Ready, rest, next, chunk);
        assert(fetch_events::<E>(next_id(sh), chunks) == events);
        law_get_writes_what_was_sent::<E>(sh1, file, local, offset1, more);
        lemma_later(sh, more.len());
    }
}

/// When the server says that there is no more, `get` closes the file. Then,
/// whatever the server answers, it reports how many bytes have come.
#[verifier::spinoff_prover]
pub proof fn law_get_ends_with_a_report<E>(
    sh: ShellView,
    file: Seq<u8>,
    local: Seq<char>,
    offset: u64,
    message: Seq<char>,
    lang: Seq<char>,
    kind: u8,
    payload: Seq<u8>,
)
    requires
        text_fits(message),
        text_fits(lang),
    ensures
        ({
            let step = get_read::<E>(sh, file, local, offset);
            let end = EventView::<E>::Reply(
                SSH_FXP_STATUS,
                numbered(next_id(sh), status_bytes(SSH_FX_EOF, message, lang)),
            );
            let closing = next_step(step.shell, step.stage, end);
            let reply = EventView::<E>::Reply(kind, numbered(next_id(step.shell), payload));
            &&& closing == get_close::<E>(step.shell, file, local, Ok(offset))
            &&& next_step(closing.shell, closing.stage, reply).action == ActionView::<E>::Done(
                seq![transfer_line("Fetched"@, local, offset)],
            )
        }),
{
    let s = status_bytes(SSH_FX_EOF, message, lang);
    let step = get_read::<E>(sh, file, local, offset);
    law_reply_is_matched_by_id(next_id(sh), next_id(sh), s);
    law_refusal_reaches_the_caller(SSH_FX_EOF, message, lang, seq![]);
    assert(s + seq![] =~= s);
    law_reply_is_matched_by_id(next_id(step.shell), next_id(step.shell), payload);
    reveal(next_step);
}

// `put`.

/// What happens while a file is sent in these chunks: each is read, and the
/// server acknowledges, with a message and its language, that it has written
/// it.
pub open spec fn send_events<E>(
    id: u32,
    chunks: Seq<Seq<u8>>,
    words: Seq<(Seq<char>, Seq<char>)>,
) -> Seq<EventView<E>>
    decreases chunks.len(),
{
    if chunks.len() == 0 {
        seq![]
    } else {
        seq![
            EventView::Bytes(chunks[0]),
            EventView::Reply(SSH_FXP_STATUS, numbered(id, success(words[0]))),
        ] + send_events(successor(id), chunks.drop_first(), words.drop_first())
    }
}

/// The bytes of a status of success with a message and its language.
pub open spec fn success(words: (Seq<char>, Seq<char>)) -> Seq<u8> {
    status_bytes(SSH_FX_OK, words.0, words.1)
}

/// The packets of the requests that write these chunks, one behind the other.
pub open spec fn write_packets(
    sh: ShellView,
    file: Seq<u8>,
    offset: u64,
    chunks: Seq<Seq<u8>>,
) -> Seq<Seq<u8>>
    decreases chunks.len(),
{
    if chunks.len() == 0 {
        seq![]
    } else {
        seq![
            issued(
                sh.session,
                SSH_FXP_WRITE,
                bytes_field(file) + be64(offset) + bytes_field(chunks[0]),
            ).packet,
        ] + write_packets(
            later(sh, 1),
            file,
            (offset + chunks[0].len()) as u64,
            chunks.drop_first(),
        )
    }
}

/// The packet that an action sends.
pub open spec fn packet_of<E>(action: ActionView<E>) -> Seq<Seq<u8>> {
    match action {
        ActionView::Send(bytes) => seq![bytes],
        _ => seq![],
    }
}

/// The packets that actions send.
pub open spec fn sent<E>(actions: Seq<ActionView<E>>) -> Seq<Seq<u8>>
    decreases actions.len(),
{
    if actions.len() == 0 {
        seq![]
    } else {
        packet_of(actions[0]) + sent(actions.drop_first())
    }
}

pub(crate) proof fn lemma_sent_two<E>(a: ActionView<E>, b: ActionView<E>, rest: Seq<ActionView<E>>)
    ensures
        sent(seq![a, b] + rest) == packet_of(a) + (packet_of(b) + sent(rest)),
{
    let all = seq![a, b] + rest;
    let tail = all.drop_first();
    assert(all[0] == a);
    assert(tail[0] == b);
    assert(tail.drop_first() =~= rest);
    assert(sent(tail) == packet_of(b) + sent(rest));
}

pub(crate) proof fn lemma_hear_success<E>(id: u32, words: (Seq<char>, Seq<char>))
    requires
        pair_fits(words),
    ensures
        hear_status(id, EventView::<E>::Reply(SSH_FXP_STATUS, numbered(id, success(words))))
            == Heard::<_, FailureView<E>>::Value(()),
{
    law_status_round_trip(SSH_FX_OK, words.0, words.1, seq![]);
    assert(success(words) + seq![] =~= success(words));
    law_reply_is_matched_by_id(id, id, success(words));
}

proof fn lemma_chunk_is_sent<E>(
    sh: ShellView,
    file: Seq<u8>,
    remote: Seq<char>,
    offset: u64,
    chunk: Seq<u8>,
    event: EventView<E>,
)
    requires
        hear_status(next_id(sh), event) == Heard::<_, FailureView<E>>::Value(()),
        chunk.len() > 0,
    ensures
        ({
            let step = put_read::<E>(sh, file, remote, offset);
            let one = next_step(step.shell, step.stage, EventView::Bytes(chunk));
            &&& one.action == ActionView::<E>::Send(
                issued(
                    sh.session,
                    SSH_FXP_WRITE,
                    bytes_field(file) + be64(offset) + bytes_field(chunk),
                ).packet,
            )
            &&& next_step(one.shell, one.stage, event) == put_read::<E>(
                ShellView { session: advanced(sh.session), cwd: sh.cwd },
                file,
                remote,
                moved(offset, chunk.len() as u64),
            )
        }),
{
    reveal(next_step);
}

#[verifier::spinoff_prover]
pub(crate) proof fn lemma_one_chunk_out<E>(
    sh: ShellView,
    file: Seq<u8>,
    remote: Seq<char>,
    offset: u64,
    chunk: Seq<u8>,
    words: (Seq<char>, Seq<char>),
)
    requires
        chunk.len() > 0,
        pair_fits(words),
    ensures
        ({
            let step = put_read::<E>(sh, file, remote, offset);
            let one = next_step(step.shell, step.stage, EventView::Bytes(chunk));
            let two = next_step(
                one.shell,
                one.stage,
                EventView::Reply(SSH_FXP_STATUS, numbered(next_id(sh), success(words))),
            );
            &&& one.action == ActionView::<E>::Send(
                issued(
                    sh.session,
                    SSH_FXP_WRITE,
                    bytes_field(file) + be64(offset) + bytes_field(chunk),
                ).packet,
            )
            &&& two == put_read::<E>(later(sh, 1), file, remote, moved(offset, chunk.len() as u64))
        }),
{
    lemma_later(sh, 0);
    lemma_hear_success::<E>(next_id(sh), words);
    lemma_chunk_is_sent(
        sh,
        file,
        remote,
        offset,
        chunk,
        EventView::<E>::Reply(SSH_FXP_STATUS, numbered(next_id(sh), success(words))),
    );
}

proof fn lemma_send_on<E>(
    step: StepView<E>,
    a: EventView<E>,
    b: EventView<E>,
    rest: Seq<EventView<E>>,
    next: StepView<E>,
    packet: Seq<u8>,
)
    requires
        step.action !is Send,
        next_step(step.shell, step.stage, a).action == ActionView::<E>::Send(packet),
        next_step(
            next_step(step.shell, step.stage, a).shell,
            next_step(step.shell, step.stage, a).stage,
            b,
        ) == next,
    ensures
        run(step, seq![a, b] + rest) == run(next, rest),
        sent(actions(step, seq![a, b] + rest)) == seq![packet] + sent(actions(next, rest)),
{
    lemma_run_two(step, a, b, rest);
    lemma_sent_two(
        step.action,
        next_step(step.shell, step.stage, a).action,
        actions(next, rest),
    );
    assert(seq![] + (seq![packet] + sent(actions(next, rest))) =~= seq![packet] + sent(
        actions(next, rest),
    ));
}

/// `put` sends the bytes of the local file in their order, each request for
/// the place behind the bytes that have been sent before, whatever message the
/// server acknowledges them with.
#[verifier::spinoff_prover]
pub proof fn law_put_sends_what_was_read<E>(
    sh: ShellView,
    file: Seq<u8>,
    remote: Seq<char>,
    offset: u64,
    chunks: Seq<Seq<u8>>,
    words: Seq<(Seq<char>, Seq<char>)>,
)
    requires
        forall|i: int| 0 <= i < chunks.len() ==> (#[trigger] chunks[i]).len() > 0,
        words.len() == chunks.len(),
        forall|i: int| 0 <= i < words.len() ==> pair_fits(#[trigger] words[i]),
        offset + joined(chunks).len() <= u64::MAX,
    ensures
        run(
            put_read::<E>(sh, file, remote, offset),
            send_events(next_id(sh), chunks, words),
        ) == put_read::<E>(
            later(sh, chunks.len()),
            file,
            remote,
            (offset + joined(chunks).len()) as u64,
        ),
        sent(
            actions(
                put_read::<E>(sh, file, remote, offset),
                send_events(next_id(sh), chunks, words),
            ),
        ) == write_packets(sh, file, offset, chunks),
    decreases chunks.len(),
{
    let step = put_read::<E>(sh, file, remote, offset);
    lemma_later(sh, 0);
    if chunks.len() == 0 {
        assert(send_events::<E>(next_id(sh), chunks, words) =~= seq![]);
        lemma_nothing_on(step);
        assert(joined(chunks) =~= seq![]);
        assert(write_packets(sh, file, offset, chunks) =~= seq![]);
    } else {
        let chunk = chunks[0];
        let more = chunks.drop_first();
        let sh1 = later(sh, 1);
        let offset1 = (offset + chunk.len()) as u64;
        assert forall|i: int| 0 <= i < more.len() implies (#[trigger] more[i]).len() > 0 by {
            assert(more[i] == chunks[i + 1]);
        }
        let more_words = words.drop_first();
        assert forall|i: int| 0 <= i < more_words.len() implies pair_fits(
            #[trigger] more_words[i],
        ) by {
            assert(more_words[i] == words[i + 1]);
        }
        assert(pair_fits(words[0]));
        assert(chunk.len() > 0);
        assert(joined(chunks) == chunk + joined(more));
        lemma_moved(offset, chunk.len());
        lemma_one_chunk_out::<E>(sh, file, remote, offset, chunk, words[0]);
        lemma_send_on(
            step,
            EventView::<E>::Bytes(chunk),
            EventView::<E>::Reply(SSH_FXP_STATUS, numbered(next_id(sh), success(words[0]))),
            send_events::<E>(next_id(sh1), more, more_words),
            put_read::<E>(sh1, file, remote, offset1),
            issued(
                sh.session,
                SSH_FXP_WRITE,
                bytes_field(file) + be64(offset) + bytes_field(chunk),
            ).packet,
        );
        law_put_sends_what_was_read::<E>(sh1, file, remote, offset1, more, more_words);
        lemma_later(sh, more.len());
    }
}

/// At the end of the local file `put` closes the remote one. Then, whatever
/// the server answers, it reports how many bytes have been sent.
pub proof fn law_put_ends_with_a_report<E>(
    sh: ShellView,
    file: Seq<u8>,
    remote: Seq<char>,
    offset: u64,
    kind: u8,
    payload: Seq<u8>,
)
    ensures
        ({
            let step = put_read::<E>(sh, file, remote, offset);
            let closing = next_step(step.shell, step.stage, EventView::Bytes(seq![]));
            let reply = EventView::<E>::Reply(kind, numbered(next_id(sh), payload));
            &&& closing == put_close::<E>(sh, file, remote, Ok(offset))
            &&& next_step(closing.shell, closing.stage, reply).action == ActionView::<E>::Done(
                seq![transfer_line("Uploaded"@, remote, offset)],
            )
        }),
{
    law_reply_is_matched_by_id(next_id(sh), next_id(sh), payload);
    reveal(next_step);
}

// `ls`.

/// What happens while a directory is read in these batches: the server answers
/// each request with the next batch.
pub open spec fn batch_events<E>(
    id: u32,
    batches: Seq<Seq<(Seq<char>, Seq<char>, AttributesView)>>,
) -> Seq<EventView<E>>
    decreases batches.len(),
{
    if batches.len() == 0 {
        seq![]
    } else {
        seq![EventView::Reply(SSH_FXP_NAME, numbered(id, listing_bytes(batches[0])))]
            + batch_events(successor(id), batches.drop_first())
    }
}

/// Batches of entries as one.
pub open spec fn gathered_entries(
    batches: Seq<Seq<(Seq<char>, Seq<char>, AttributesView)>>,
) -> Seq<(Seq<char>, Seq<char>, AttributesView)>
    decreases batches.len(),
{
    if batches.len() == 0 {
        seq![]
    } else {
        batches[0] + gathered_entries(batches.drop_first())
    }
}

/// Whether a batch can be sent.
pub open spec fn batch_fits(batch: Seq<(Seq<char>, Seq<char>, AttributesView)>) -> bool {
    &&& batch.len() <= u32::MAX
    &&& forall|i: int| 0 <= i < batch.len() ==> entry_comes_back(#[trigger] batch[i])
}

#[verifier::spinoff_prover]
pub(crate) proof fn lemma_hear_batch<E>(id: u32, batch: Seq<(Seq<char>, Seq<char>, AttributesView)>)
    requires
        batch_fits(batch),
    ensures
        hear_listing(id, EventView::<E>::Reply(SSH_FXP_NAME, numbered(id, listing_bytes(batch))))
            == Heard::<_, FailureView<E>>::Value(batch),
{
    law_reply_is_matched_by_id(id, id, listing_bytes(batch));
    assert(readdir_answer(SSH_FXP_NAME, listing_bytes(batch)) == Ok::<_, Breach>(
        Ok::<_, ErrorView>(batch),
    )) by {
        law_entries_reach_the_caller(batch, seq![]);
        assert(listing_bytes(batch) + seq![] =~= listing_bytes(batch));
    }
}

proof fn lemma_batch_is_kept<E>(
    sh: ShellView,
    id: u32,
    dir: Seq<u8>,
    entries: Seq<(Seq<char>, Seq<char>, AttributesView)>,
    long: bool,
    event: EventView<E>,
    batch: Seq<(Seq<char>, Seq<char>, AttributesView)>,
)
    requires
        hear_listing(id, event) == Heard::<_, FailureView<E>>::Value(batch),
    ensures
        next_step(sh, StageView::LsRead { id, dir, entries, long }, event) == ls_read::<E>(
            sh,
            dir,
            entries + batch,
            long,
        ),
{
    reveal(next_step);
}

proof fn lemma_one_batch<E>(
    sh: ShellView,
    dir: Seq<u8>,
    entries: Seq<(Seq<char>, Seq<char>, AttributesView)>,
    long: bool,
    batch: Seq<(Seq<char>, Seq<char>, AttributesView)>,
)
    requires
        batch_fits(batch),
    ensures
        ({
            let step = ls_read::<E>(sh, dir, entries, long);
            next_step(
                step.shell,
                step.stage,
                EventView::Reply(SSH_FXP_NAME, numbered(next_id(sh), listing_bytes(batch))),
            ) == ls_read::<E>(later(sh, 1), dir, entries + batch, long)
        }),
{
    lemma_later(sh, 0);
    lemma_hear_batch::<E>(next_id(sh), batch);
    lemma_batch_is_kept(
        later(sh, 1),
        next_id(sh),
        dir,
        entries,
        long,
        EventView::<E>::Reply(SSH_FXP_NAME, numbered(next_id(sh), listing_bytes(batch))),
        batch,
    );
}

/// `ls` gathers all entries that the server sends, in their order.
pub proof fn law_ls_gathers_all_entries<E>(
    sh: ShellView,
    dir: Seq<u8>,
    entries: Seq<(Seq<char>, Seq<char>, AttributesView)>,
    long: bool,
    batches: Seq<Seq<(Seq<char>, Seq<char>, AttributesView)>>,
)
    requires
        forall|i: int| 0 <= i < batches.len() ==> batch_fits(#[trigger] batches[i]),
    ensures
        run(ls_read::<E>(sh, dir, entries, long), batch_events(next_id(sh), batches))
            == ls_read::<E>(
            later(sh, batches.len()),
            dir,
            entries + gathered_entries(batches),
            long,
        ),
    decreases batches.len(),
{
    let step = ls_read::<E>(sh, dir, entries, long);
    lemma_later(sh, 0);
    if batches.len() == 0 {
        assert(entries + gathered_entries(batches) =~= entries);
    } else {
        let batch = batches[0];
        let more = batches.drop_first();
        let sh1 = later(sh, 1);
        let events = batch_events::<E>(next_id(sh), batches);
        let rest = batch_events::<E>(next_id(sh1), more);
        assert forall|i: int| 0 <= i < more.len() implies batch_fits(#[trigger] more[i]) by {
            assert(more[i] == batches[i + 1]);
        }
        assert(batch_fits(batch));
        lemma_one_batch::<E>(sh, dir, entries, long, batch);
        assert(events.drop_first() =~= rest);
        assert(events[0] == EventView::<E>::Reply(
            SSH_FXP_NAME,
            numbered(next_id(sh), listing_bytes(batch)),
        ));
        assert(run(step, events) == run(ls_read::<E>(sh1, dir, entries + batch, long), rest));
        law_ls_gathers_all_entries::<E>(sh1, dir, entries + batch, long, more);
        lemma_later(sh, more.len());
        assert((entries + batch) + gathered_entries(more) =~= entries + gathered_entries(batches));
    }
}

/// When the server says that there are no more entries, `ls` closes the
/// directory, and when that is acknowledged, with whatever message, it prints
/// the listing.
#[verifier::spinoff_prover]
pub proof fn law_ls_ends_with_the_listing<E>(
    sh: ShellView,
    dir: Seq<u8>,
    entries: Seq<(Seq<char>, Seq<char>, AttributesView)>,
    long: bool,
    message: Seq<char>,
    lang: Seq<char>,
    words: (Seq<char>, Seq<char>),
)
    requires
        text_fits(message),
        text_fits(lang),
        pair_fits(words),
    ensures
        ({
            let step = ls_read::<E>(sh, dir, entries, long);
            let end = EventView::<E>::Reply(
                SSH_FXP_STATUS,
                numbered(next_id(sh), status_bytes(SSH_FX_EOF, message, lang)),
            );
            let closing = next_step(step.shell, step.stage, end);
            let reply = EventView::<E>::Reply(
                SSH_FXP_STATUS,
                numbered(next_id(step.shell), success(words)),
            );
            &&& closing.action == ActionView::<E>::Send(
                issued(step.shell.session, SSH_FXP_CLOSE, bytes_field(dir)).packet,
            )
            &&& next_step(closing.shell, closing.stage, reply).action == ActionView::<E>::Done(
                listing_lines(entries, long),
            )
        }),
{
    let s = status_bytes(SSH_FX_EOF, message, lang);
    let step = ls_read::<E>(sh, dir, entries, long);
    law_reply_is_matched_by_id(next_id(sh), next_id(sh), s);
    law_refusal_reaches_the_caller(SSH_FX_EOF, message, lang, seq![]);
    assert(s + seq![] =~= s);
    lemma_hear_success::<E>(next_id(step.shell), words);
    reveal(next_step);
}

/// A file goes by the text behind the last slash of its path: `get` writes to a
/// local file of that name, `put` to a remote one, and `ls` shows it.
pub proof fn law_files_keep_their_names<E>(
    sh: ShellView,
    dir: Seq<char>,
    n: Seq<char>,
    found: Option<Seq<char>>,
    long: bool,
)
    requires
        n.len() > 0,
        !n.contains('/'),
        n != "."@,
        n != ".."@,
        plain_path(dir + "/"@ + n),
        is_absolute(dir + "/"@ + n),
        can_be_found(dir + "/"@ + n, found),
    ensures
        ({
            let path = dir + "/"@ + n;
            &&& get_start::<E>(sh, path, None, found) == get_open::<E>(sh, path, n)
            &&& put_start::<E>(sh, path, None, found) == put_source::<E>(sh, path, n)
            &&& ls_start::<E>(sh, path, found, long).stage == StageView::<E>::LsStat {
                id: next_id(sh),
                path,
                name: n,
                long,
            }
        }),
{
    law_last_name_stands_last(dir, n);
}

/// A transfer that has failed reports its failure once the file is closed,
/// however closing went.
pub proof fn law_failed_transfer_reports_its_failure<E>(
    sh: ShellView,
    id: u32,
    path: Seq<char>,
    failure: FailureView<E>,
    kind: u8,
    payload: Seq<u8>,
)
    ensures
        ({
            let reply = EventView::<E>::Reply(kind, numbered(id, payload));
            &&& next_step(
                sh,
                StageView::GetClose { id, local: path, result: Err(failure) },
                reply,
            ).action == ActionView::Fail(failure)
            &&& next_step(
                sh,
                StageView::PutClose { id, remote: path, result: Err(failure) },
                reply,
            ).action == ActionView::Fail(failure)
            &&& next_step(sh, StageView::LsQuit { id, failure }, reply).action == ActionView::Fail(
                failure,
            )
        }),
{
    law_reply_is_matched_by_id(id, id, payload);
    reveal(next_step);
}

} // verus!
