//! What `ls`, `get` and `put` send from their first request to their last, and
//! what comes of it.

use vstd::prelude::*;

use crate::attribute_laws::{comes_back, pair_fits};
use crate::attributes::{encode_attributes, AttributesView};
use crate::command::{last_operand, wants_long, CommandView};
use crate::listing::{is_directory, listing_lines, long_line};
use crate::packet_laws::{
    after_one, begins, finishes, law_cd_asks_for_the_path, law_commands_on_one_path,
    lemma_hear_a_handle, lemma_hear_a_refusal, lemma_hear_attributes, lemma_nothing_set,
    own_failure, refusal_of, reply_to, request, sends, status,
};
use crate::path::{last_name, plain_path};
use crate::protocol::{numbered, packet};
use crate::reply_laws::{law_bytes_reach_the_caller, listing_bytes};
use crate::shell_laws::{
    actions, batch_fits, chunk_fits, fetch_events, is_absolute, joined, later,
    law_get_writes_what_was_sent, law_paths_become_absolute, law_put_sends_what_was_read,
    lemma_chunk_is_written, lemma_hear_batch, lemma_hear_chunk, lemma_hear_success, lemma_later,
    lemma_moved, lemma_nothing_on, lemma_one_chunk_on, lemma_one_chunk_out, lemma_run_two,
    lemma_sent_two, packet_of, send_events, sent, write_packets, written,
};
use crate::stage::{hear_data, hear_status, ActionView, EventView, FailureView, Heard, StageView};
use crate::steps::{
    get_read, job_of, moved, name_fits, next_step, put_read, resolved, write_flags, JobView,
    ShellView, StepView,
};
use crate::sync::{issued, law_reply_is_matched_by_id, SessionView};
use crate::text::decimal;
use crate::wire::{be32, be64, bytes_field, law_be64_round_trip, str_field, text_fits};

verus! {

// `ls`.

/// `ls` asks what the path is: the last one that it was given, as seen from the
/// working directory, or the working directory itself.
pub proof fn law_ls_asks_what_it_is<E>(
    sh: ShellView,
    args: Seq<Seq<char>>,
    name: Option<Seq<char>>,
)
    ensures
        ({
            let path = if last_operand(args) is Some {
                resolved(sh.cwd, last_operand(args)->0)
            } else {
                sh.cwd
            };
            job_of::<E>(sh, CommandView::Ls(args), name) == begins(
                sh,
                StageView::<E>::LsStat {
                    id: sh.session.next_id,
                    path,
                    name: if name is Some {
                        name->0
                    } else {
                        path
                    },
                    long: wants_long(args),
                },
                17,
                str_field(path) + be32(0),
            )
        }),
{
}

/// A directory is opened; of a file the name is shown, or the long line.
pub proof fn law_ls_of_files_and_directories<E>(
    sh: ShellView,
    id: u32,
    path: Seq<char>,
    name: Seq<char>,
    long: bool,
    a: AttributesView,
)
    requires
        comes_back(a),
    ensures
        next_step(
            sh,
            StageView::<E>::LsStat { id, path, name, long },
            reply_to(id, 105, encode_attributes(a)),
        ) == (if is_directory(a) {
            sends::<E>(
                sh,
                StageView::LsOpen { id: sh.session.next_id, long },
                11,
                str_field(path),
            )
        } else if long {
            finishes::<E>(sh, ActionView::Done(seq![long_line(path, a)]))
        } else {
            finishes::<E>(sh, ActionView::Done(seq![name]))
        }),
{
    reveal(next_step);
    lemma_hear_attributes::<E>(id, a);
}

/// An open directory is read, and read again after every batch of entries,
/// which is kept behind those that have come before.
pub proof fn law_ls_reads_on<E>(
    sh: ShellView,
    id: u32,
    dir: Seq<u8>,
    entries: Seq<(Seq<char>, Seq<char>, AttributesView)>,
    batch: Seq<(Seq<char>, Seq<char>, AttributesView)>,
    long: bool,
)
    requires
        dir.len() <= u32::MAX,
        batch_fits(batch),
    ensures
        next_step(sh, StageView::<E>::LsOpen { id, long }, reply_to(id, 102, bytes_field(dir)))
            == sends::<E>(
            sh,
            StageView::LsRead { id: sh.session.next_id, dir, entries: seq![], long },
            12,
            bytes_field(dir),
        ),
        next_step(
            sh,
            StageView::<E>::LsRead { id, dir, entries, long },
            reply_to(id, 104, listing_bytes(batch)),
        ) == sends::<E>(
            sh,
            StageView::LsRead { id: sh.session.next_id, dir, entries: entries + batch, long },
            12,
            bytes_field(dir),
        ),
{
    reveal(next_step);
    lemma_hear_a_handle::<E>(id, dir);
    lemma_hear_batch::<E>(id, batch);
}

/// When there are no more entries the directory is closed, and then all that
/// have come are shown. When reading fails it is closed too, and then that
/// failure is told, whatever the server says of the closing.
#[verifier::spinoff_prover]
pub proof fn law_ls_closes_and_ends<E>(
    sh: ShellView,
    id: u32,
    dir: Seq<u8>,
    entries: Seq<(Seq<char>, Seq<char>, AttributesView)>,
    long: bool,
    code: u32,
    m: Seq<char>,
    l: Seq<char>,
    e: E,
    failure: FailureView<E>,
    kind: u8,
    payload: Seq<u8>,
)
    requires
        code != 0,
        text_fits(m),
        text_fits(l),
    ensures
        next_step(
            sh,
            StageView::<E>::LsRead { id, dir, entries, long },
            reply_to(id, 101, status(code, m, l)),
        ) == sends::<E>(
            sh,
            if code == 1 {
                StageView::LsClose { id: sh.session.next_id, entries, long }
            } else {
                StageView::LsQuit { id: sh.session.next_id, failure: refusal_of(code, m, l) }
            },
            4,
            bytes_field(dir),
        ),
        next_step(sh, StageView::<E>::LsRead { id, dir, entries, long }, EventView::Failed(e))
            == sends::<E>(
            sh,
            StageView::LsQuit { id: sh.session.next_id, failure: FailureView::Outside(e) },
            4,
            bytes_field(dir),
        ),
        next_step(
            sh,
            StageView::<E>::LsClose { id, entries, long },
            reply_to(id, 101, status(0, m, l)),
        ) == finishes::<E>(sh, ActionView::Done(listing_lines(entries, long))),
        next_step(sh, StageView::<E>::LsQuit { id, failure }, reply_to(id, kind, payload))
            == finishes::<E>(sh, ActionView::Fail(failure)),
        next_step(sh, StageView::<E>::LsQuit { id, failure }, EventView::Failed(e)) == finishes::<
            E,
        >(sh, ActionView::Fail(failure)),
{
    lemma_hear_a_refusal::<E>(id, code, m, l);
    assert(hear_status(id, reply_to::<E>(id, 101, status(0, m, l))) == Heard::<
        _,
        FailureView<E>,
    >::Value(())) by {
        lemma_hear_success::<E>(id, (m, l));
    }
    law_reply_is_matched_by_id(id, id, payload);
    reveal(next_step);
}

// `get`.

/// `get` opens the remote file, as seen from the working directory, for
/// reading. The local file is the one that was given, or one of the name that
/// was found, or of the whole path.
pub proof fn law_get_opens_the_remote_file<E>(
    sh: ShellView,
    remote: Seq<char>,
    local: Option<Seq<char>>,
    name: Option<Seq<char>>,
)
    ensures
        job_of::<E>(sh, CommandView::Get(remote, local), name) == begins(
            sh,
            StageView::<E>::GetOpen {
                id: sh.session.next_id,
                local: if local is Some {
                    local->0
                } else if name is Some {
                    name->0
                } else {
                    resolved(sh.cwd, remote)
                },
            },
            3,
            str_field(resolved(sh.cwd, remote)) + be32(1) + be32(0),
        ),
{
    lemma_nothing_set();
    assert(0u32 | 1u32 == 1u32) by (bit_vector);
}

/// With the remote file open the local one is created; with both open the first
/// bytes are asked for.
pub proof fn law_get_creates_and_reads<E>(
    sh: ShellView,
    id: u32,
    file: Seq<u8>,
    local: Seq<char>,
)
    requires
        file.len() <= u32::MAX,
    ensures
        next_step(sh, StageView::<E>::GetOpen { id, local }, reply_to(id, 102, bytes_field(file)))
            == (StepView::<E> {
            shell: sh,
            stage: StageView::GetCreate { file, local },
            action: ActionView::Create(local),
        }),
        next_step(sh, StageView::<E>::GetCreate { file, local }, EventView::Ready) == sends::<E>(
            sh,
            StageView::GetRead { id: sh.session.next_id, file, local, offset: 0 },
            5,
            bytes_field(file) + be64(0) + be32(32768),
        ),
{
    reveal(next_step);
    lemma_hear_a_handle::<E>(id, file);
}

/// Bytes that come are written as they are. When they have been written, those
/// behind them are asked for: at the sum of where they stood and how many they
/// were.
#[verifier::spinoff_prover]
pub proof fn law_get_asks_for_what_is_next<E>(
    sh: ShellView,
    id: u32,
    file: Seq<u8>,
    local: Seq<char>,
    offset: u64,
    data: Seq<u8>,
)
    requires
        0 < data.len() <= u32::MAX,
        offset + data.len() <= u64::MAX,
    ensures
        ({
            let one = next_step(
                sh,
                StageView::<E>::GetRead { id, file, local, offset },
                reply_to(id, 103, bytes_field(data)),
            );
            &&& one.shell == sh
            &&& one.action == ActionView::<E>::Write(data)
            &&& next_step(one.shell, one.stage, EventView::Ready) == sends::<E>(
                sh,
                StageView::GetRead {
                    id: sh.session.next_id,
                    file,
                    local,
                    offset: (offset + data.len()) as u64,
                },
                5,
                bytes_field(file) + be64((offset + data.len()) as u64) + be32(32768),
            )
        }),
{
    let event = reply_to::<E>(id, 103, bytes_field(data));
    let one = next_step(sh, StageView::<E>::GetRead { id, file, local, offset }, event);
    let at = (offset + data.len()) as u64;
    assert(one.shell == sh && one.action == ActionView::<E>::Write(data) && next_step(
        one.shell,
        one.stage,
        EventView::Ready,
    ) == get_read::<E>(sh, file, local, at)) by {
        lemma_hear_chunk::<E>(id, data);
        lemma_chunk_is_written(sh, id, file, local, offset, event, data);
        lemma_moved(offset, data.len());
    }
}

/// No bytes, or the end of the file, end the transfer well; another status, or
/// a local file that cannot be created or written, ends it badly. Either way
/// the remote file is closed.
#[verifier::spinoff_prover]
pub proof fn law_get_closes_the_remote_file<E>(
    sh: ShellView,
    id: u32,
    file: Seq<u8>,
    local: Seq<char>,
    offset: u64,
    count: u64,
    code: u32,
    m: Seq<char>,
    l: Seq<char>,
    e: E,
)
    requires
        code != 0,
        text_fits(m),
        text_fits(l),
    ensures
        ({
            let reading = StageView::<E>::GetRead { id, file, local, offset };
            let closed = |result: Result<u64, FailureView<E>>|
                sends::<E>(
                    sh,
                    StageView::GetClose { id: sh.session.next_id, local, result },
                    4,
                    bytes_field(file),
                );
            &&& next_step(sh, reading, reply_to(id, 103, be32(0))) == closed(Ok(offset))
            &&& next_step(sh, reading, reply_to(id, 101, status(code, m, l))) == closed(
                if code == 1 {
                    Ok(offset)
                } else {
                    Err(refusal_of(code, m, l))
                },
            )
            &&& next_step(sh, reading, EventView::Failed(e)) == closed(
                Err(FailureView::Outside(e)),
            )
            &&& next_step(sh, StageView::<E>::GetCreate { file, local }, EventView::Failed(e))
                == closed(Err(FailureView::Outside(e)))
            &&& next_step(
                sh,
                StageView::<E>::GetWrite { file, local, offset, count },
                EventView::Failed(e),
            ) == closed(Err(FailureView::Outside(e)))
        }),
{
    assert(hear_data(id, reply_to::<E>(id, 103, be32(0))) == Heard::<_, FailureView<E>>::Value(
        Seq::<u8>::empty(),
    )) by {
        let none = Seq::<u8>::empty();
        law_reply_is_matched_by_id(id, id, be32(0));
        law_bytes_reach_the_caller(none, none);
        assert(bytes_field(none) + none =~= be32(0));
    }
    lemma_hear_a_refusal::<E>(id, code, m, l);
    reveal(next_step);
}

/// Whatever the server says of the closing, the transfer is reported: what was
/// moved, or why not all of it.
pub proof fn law_transfers_are_reported<E>(
    sh: ShellView,
    id: u32,
    path: Seq<char>,
    n: u64,
    failure: FailureView<E>,
    kind: u8,
    payload: Seq<u8>,
    e: E,
)
    ensures
        ({
            let closed = reply_to::<E>(id, kind, payload);
            let fetched = finishes::<E>(
                sh,
                ActionView::Done(
                    seq!["Fetched"@ + " "@ + path + " ("@ + decimal(n as nat) + " bytes)"@],
                ),
            );
            let uploaded = finishes::<E>(
                sh,
                ActionView::Done(
                    seq!["Uploaded"@ + " "@ + path + " ("@ + decimal(n as nat) + " bytes)"@],
                ),
            );
            let got = StageView::<E>::GetClose { id, local: path, result: Ok(n) };
            let not_got = StageView::<E>::GetClose { id, local: path, result: Err(failure) };
            let sent_all = StageView::<E>::PutClose { id, remote: path, result: Ok(n) };
            let not_sent = StageView::<E>::PutClose { id, remote: path, result: Err(failure) };
            let failed = finishes::<E>(sh, ActionView::Fail(failure));
            &&& next_step(sh, got, closed) == fetched
            &&& next_step(sh, got, EventView::Failed(e)) == fetched
            &&& next_step(sh, not_got, closed) == failed
            &&& next_step(sh, not_got, EventView::Failed(e)) == failed
            &&& next_step(sh, sent_all, closed) == uploaded
            &&& next_step(sh, sent_all, EventView::Failed(e)) == uploaded
            &&& next_step(sh, not_sent, closed) == failed
            &&& next_step(sh, not_sent, EventView::Failed(e)) == failed
        }),
{
    reveal(next_step);
    law_reply_is_matched_by_id(id, id, payload);
}

/// The packet that asks for bytes of a file at a place.
pub open spec fn read_request(c: SessionView, file: Seq<u8>, at: u64) -> Seq<u8> {
    issued(c, 5, bytes_field(file) + be64(at) + be32(32768)).packet
}

proof fn lemma_taken(chunks: Seq<Seq<u8>>, i: int)
    requires
        0 < i <= chunks.len(),
    ensures
        joined(chunks.take(i)) == chunks[0] + joined(chunks.drop_first().take(i - 1)),
        joined(chunks.take(i)).len() <= joined(chunks).len(),
        joined(chunks.take(0)) == Seq::<u8>::empty(),
    decreases chunks.len(),
{
    let t = chunks.take(i);
    assert(t.drop_first() =~= chunks.drop_first().take(i - 1));
    assert(chunks.take(0) =~= seq![]);
    if i > 1 {
        lemma_taken(chunks.drop_first(), i - 1);
    } else {
        assert(chunks.drop_first().take(0) =~= seq![]);
        assert(joined(chunks.drop_first().take(0)) =~= seq![]);
    }
}

proof fn lemma_asks_on<E>(
    step: StepView<E>,
    a: EventView<E>,
    b: EventView<E>,
    rest: Seq<EventView<E>>,
    next: StepView<E>,
    packet: Seq<u8>,
)
    requires
        step.action == ActionView::<E>::Send(packet),
        next_step(step.shell, step.stage, a).action !is Send,
        next_step(
            next_step(step.shell, step.stage, a).shell,
            next_step(step.shell, step.stage, a).stage,
            b,
        ) == next,
    ensures
        sent(actions(step, seq![a, b] + rest)) == seq![packet] + sent(actions(next, rest)),
{
    lemma_run_two(step, a, b, rest);
    lemma_sent_two(
        step.action,
        next_step(step.shell, step.stage, a).action,
        actions(next, rest),
    );
    assert(seq![packet] + (seq![] + sent(actions(next, rest))) =~= seq![packet] + sent(
        actions(next, rest),
    ));
}

#[verifier::spinoff_prover]
proof fn lemma_asks_in_turn<E>(
    sh: ShellView,
    file: Seq<u8>,
    local: Seq<char>,
    offset: u64,
    chunks: Seq<Seq<u8>>,
)
    requires
        chunks.len() > 0,
        chunk_fits(chunks[0]),
        offset + chunks[0].len() <= u64::MAX,
    ensures
        sent(
            actions(
                get_read::<E>(sh, file, local, offset),
                fetch_events(sh.session.next_id, chunks),
            ),
        ) == seq![read_request(sh.session, file, offset)] + sent(
            actions(
                get_read::<E>(later(sh, 1), file, local, (offset + chunks[0].len()) as u64),
                fetch_events(later(sh, 1).session.next_id, chunks.drop_first()),
            ),
        ),
{
    let reply = EventView::<E>::Reply(103, numbered(sh.session.next_id, bytes_field(chunks[0])));
    let rest = fetch_events::<E>(later(sh, 1).session.next_id, chunks.drop_first());
    let step = get_read::<E>(sh, file, local, offset);
    let next = get_read::<E>(later(sh, 1), file, local, (offset + chunks[0].len()) as u64);
    let packet = read_request(sh.session, file, offset);
    lemma_one_chunk_on(sh, file, local, offset, chunks[0], reply);
    assert(fetch_events::<E>(sh.session.next_id, chunks) == seq![reply, EventView::<E>::Ready]
        + rest) by {
        lemma_later(sh, 0);
    }
    assert(step.action == ActionView::<E>::Send(packet));
    lemma_asks_on(step, reply, EventView::<E>::Ready, rest, next, packet);
}

#[verifier::spinoff_prover]
proof fn lemma_asks_for_every_byte<E>(
    sh: ShellView,
    file: Seq<u8>,
    local: Seq<char>,
    offset: u64,
    chunks: Seq<Seq<u8>>,
    i: int,
)
    requires
        forall|i: int| 0 <= i < chunks.len() ==> chunk_fits(#[trigger] chunks[i]),
        offset + joined(chunks).len() <= u64::MAX,
        0 <= i <= chunks.len(),
    ensures
        ({
            let asked = sent(
                actions(
                    get_read::<E>(sh, file, local, offset),
                    fetch_events(sh.session.next_id, chunks),
                ),
            );
            &&& asked.len() == chunks.len() + 1
            &&& asked[i] == read_request(
                later(sh, i as nat).session,
                file,
                (offset + joined(chunks.take(i)).len()) as u64,
            )
        }),
    decreases chunks.len(),
{
    lemma_later(sh, 0);
    if chunks.len() == 0 {
        assert(fetch_events::<E>(sh.session.next_id, chunks) =~= seq![]);
        lemma_nothing_on(get_read::<E>(sh, file, local, offset));
        assert(chunks.take(0) =~= seq![]);
        assert(joined(chunks.take(0)).len() == 0);
    } else {
        let chunk = chunks[0];
        let more = chunks.drop_first();
        assert(chunk_fits(chunk));
        assert forall|i: int| 0 <= i < more.len() implies chunk_fits(#[trigger] more[i]) by {
            assert(more[i] == chunks[i + 1]);
        }
        assert(joined(chunks) == chunk + joined(more));
        let offset1 = (offset + chunk.len()) as u64;
        lemma_asks_in_turn::<E>(sh, file, local, offset, chunks);
        if i == 0 {
            lemma_asks_for_every_byte::<E>(later(sh, 1), file, local, offset1, more, 0);
            assert(chunks.take(0) =~= seq![]);
            assert(joined(chunks.take(0)).len() == 0);
        } else {
            lemma_asks_for_every_byte::<E>(later(sh, 1), file, local, offset1, more, i - 1);
            lemma_taken(chunks, i);
            lemma_later(sh, (i - 1) as nat);
        }
    }
}

/// While a file is fetched, every request asks for the bytes behind all those
/// that have come before it, and the last one for those behind them all.
pub proof fn law_get_asks_for_every_byte_once<E>(
    sh: ShellView,
    file: Seq<u8>,
    local: Seq<char>,
    chunks: Seq<Seq<u8>>,
    i: int,
)
    requires
        forall|i: int| 0 <= i < chunks.len() ==> chunk_fits(#[trigger] chunks[i]),
        joined(chunks).len() <= u64::MAX,
        0 <= i <= chunks.len(),
    ensures
        ({
            let start = next_step(sh, StageView::<E>::GetCreate { file, local }, EventView::Ready);
            let asked = sent(actions(start, fetch_events(sh.session.next_id, chunks)));
            &&& asked.len() == chunks.len() + 1
            &&& asked[i] == issued(
                later(sh, i as nat).session,
                5,
                bytes_field(file) + be64(joined(chunks.take(i)).len() as u64) + be32(32768),
            ).packet
        }),
{
    assert(next_step(sh, StageView::<E>::GetCreate { file, local }, EventView::Ready)
        == get_read::<E>(sh, file, local, 0)) by {
        reveal(next_step);
    }
    lemma_asks_for_every_byte::<E>(sh, file, local, 0, chunks, i);
}

proof fn lemma_place_can_be_read(c: SessionView, file: Seq<u8>, a: u64, b: u64)
    requires
        read_request(c, file, a) == read_request(c, file, b),
    ensures
        a == b,
{
    reveal(packet);
    let x = read_request(c, file, a);
    let y = read_request(c, file, b);
    let from: int = 9 + bytes_field(file).len() as int;
    assert(x.subrange(from, from + 8) =~= be64(a));
    assert(y.subrange(from, from + 8) =~= be64(b));
    law_be64_round_trip(a, seq![]);
    law_be64_round_trip(b, seq![]);
}

proof fn lemma_pieces_make_the_whole(content: Seq<u8>, chunks: Seq<Seq<u8>>, at: int)
    requires
        0 <= at <= content.len(),
        forall|i: int|
            0 <= i < chunks.len() ==> at + joined(chunks.take(i)).len() + (
            #[trigger] chunks[i]).len() <= content.len() && chunks[i] == content.subrange(
                at + joined(chunks.take(i)).len(),
                at + joined(chunks.take(i)).len() + chunks[i].len(),
            ),
    ensures
        at + joined(chunks).len() <= content.len(),
        joined(chunks) == content.subrange(at, at + joined(chunks).len()),
    decreases chunks.len(),
{
    if chunks.len() == 0 {
        assert(joined(chunks) =~= content.subrange(at, at));
    } else {
        let more = chunks.drop_first();
        let at1 = at + chunks[0].len();
        assert(chunks.take(0) =~= seq![]);
        assert(joined(chunks.take(0)).len() == 0);
        assert(chunks[0] == content.subrange(at, at1));
        assert forall|i: int| 0 <= i < more.len() implies at1 + joined(more.take(i)).len() + (
        #[trigger] more[i]).len() <= content.len() && more[i] == content.subrange(
            at1 + joined(more.take(i)).len(),
            at1 + joined(more.take(i)).len() + more[i].len(),
        ) by {
            assert(more[i] == chunks[i + 1]);
            lemma_taken(chunks, i + 1);
        }
        lemma_pieces_make_the_whole(content, more, at1);
        assert(joined(chunks) =~= content.subrange(at, at + joined(chunks).len()));
    }
}

/// `get` copies the file. Let a server answer every request with bytes of the
/// file that begin at the place which stands in the request, as many as it
/// likes: what is written to the local file is the file from its beginning.
pub proof fn law_get_copies_the_file<E>(
    sh: ShellView,
    file: Seq<u8>,
    local: Seq<char>,
    content: Seq<u8>,
    chunks: Seq<Seq<u8>>,
    places: Seq<u64>,
)
    requires
        content.len() <= u64::MAX,
        joined(chunks).len() <= u64::MAX,
        places.len() == chunks.len(),
        forall|i: int| 0 <= i < chunks.len() ==> chunk_fits(#[trigger] chunks[i]),
        ({
            let start = next_step(sh, StageView::<E>::GetCreate { file, local }, EventView::Ready);
            let asked = sent(actions(start, fetch_events(sh.session.next_id, chunks)));
            forall|i: int|
                0 <= i < chunks.len() ==> asked[i] == read_request(
                    later(sh, i as nat).session,
                    file,
                    #[trigger] places[i],
                )
        }),
        forall|i: int|
            0 <= i < chunks.len() ==> #[trigger] places[i] + chunks[i].len() <= content.len()
                && chunks[i] == content.subrange(
                places[i] as int,
                places[i] + chunks[i].len(),
            ),
    ensures
        ({
            let start = next_step(sh, StageView::<E>::GetCreate { file, local }, EventView::Ready);
            written(actions(start, fetch_events(sh.session.next_id, chunks))) == content.take(
                joined(chunks).len() as int,
            )
        }),
        joined(chunks).len() <= content.len(),
{
    let start = next_step(sh, StageView::<E>::GetCreate { file, local }, EventView::Ready);
    assert(start == get_read::<E>(sh, file, local, 0)) by {
        reveal(next_step);
    }
    law_get_writes_what_was_sent::<E>(sh, file, local, 0, chunks);
    let asked = sent(actions(start, fetch_events::<E>(sh.session.next_id, chunks)));
    assert forall|i: int| 0 <= i < chunks.len() implies 0 + joined(chunks.take(i)).len() + (
    #[trigger] chunks[i]).len() <= content.len() && chunks[i] == content.subrange(
        0int + joined(chunks.take(i)).len(),
        0int + joined(chunks.take(i)).len() + chunks[i].len(),
    ) by {
        let at = joined(chunks.take(i)).len() as u64;
        law_get_asks_for_every_byte_once::<E>(sh, file, local, chunks, i);
        if i > 0 {
            lemma_taken(chunks, i);
        } else {
            assert(chunks.take(0) =~= seq![]);
        }
        assert(asked[i] == read_request(later(sh, i as nat).session, file, at));
        assert(asked[i] == read_request(later(sh, i as nat).session, file, places[i]));
        lemma_place_can_be_read(later(sh, i as nat).session, file, at, places[i]);
    }
    lemma_pieces_make_the_whole(content, chunks, 0);
    assert(content.subrange(0, joined(chunks).len() as int) =~= content.take(
        joined(chunks).len() as int,
    ));
}

// `put`.

/// `put` first opens the local file. The remote path is the one that was given,
/// or the name that was found; without either there is nothing to write to.
pub proof fn law_put_opens_the_local_file<E>(
    sh: ShellView,
    local: Seq<char>,
    remote: Seq<char>,
    name: Option<Seq<char>>,
)
    ensures
        ({
            let opens = (
                sh,
                JobView::<E>::Run(
                    StageView::PutSource { remote: resolved(sh.cwd, remote) },
                    ActionView::Open(local),
                ),
            );
            &&& job_of::<E>(sh, CommandView::Put(local, Some(remote)), name) == opens
            &&& job_of::<E>(sh, CommandView::Put(local, None), Some(remote)) == opens
        }),
        job_of::<E>(sh, CommandView::Put(local, None), None) == (
            sh,
            JobView::<E>::Run(
                StageView::Over,
                ActionView::Fail(own_failure("cannot derive remote name from local path"@)),
            ),
        ),
{
}

proof fn lemma_flags_to_write()
    ensures
        write_flags() == 0x1a,
{
    assert(0u32 | 2u32 == 2u32) by (bit_vector);
    assert(2u32 | 8u32 == 10u32) by (bit_vector);
    assert(10u32 | 0x10u32 == 0x1au32) by (bit_vector);
}

/// With the local file open, the remote one is opened for writing, created if it
/// is not there and emptied if it is.
pub proof fn law_put_opens_the_remote_file<E>(sh: ShellView, remote: Seq<char>)
    ensures
        next_step(sh, StageView::<E>::PutSource { remote }, EventView::Ready) == sends::<E>(
            sh,
            StageView::PutOpen { id: sh.session.next_id, remote },
            3,
            str_field(remote) + be32(0x1a) + be32(0),
        ),
{
    reveal(next_step);
    lemma_nothing_set();
    lemma_flags_to_write();
}

/// The step that a job begins with.
pub open spec fn first_step<E>(job: (ShellView, JobView<E>)) -> StepView<E> {
    match job.1 {
        JobView::Run(stage, action) => StepView { shell: job.0, stage, action },
        _ => finishes(job.0, ActionView::Wait),
    }
}

/// The first request of `put`: the file that is opened on the server is the one
/// that an absolute remote path names, and for any other path the one of that
/// path in the working directory.
pub proof fn law_put_writes_where_it_was_told<E>(
    sh: ShellView,
    local: Seq<char>,
    remote: Seq<char>,
    name: Option<Seq<char>>,
)
    ensures
        ({
            let start = first_step(
                job_of::<E>(sh, CommandView::Put(local, Some(remote)), name),
            );
            let asked = sent(actions(start, seq![EventView::<E>::Ready]));
            let opens = |path: Seq<char>|
                seq![issued(sh.session, 3, str_field(path) + be32(0x1a) + be32(0)).packet];
            if remote.len() > 0 && remote[0] == '/' {
                asked == opens(remote)
            } else if sh.cwd.len() > 0 && sh.cwd[sh.cwd.len() - 1] == '/' {
                asked == opens(sh.cwd + remote)
            } else {
                asked == opens(sh.cwd + "/"@ + remote)
            }
        }),
{
    let start = first_step(job_of::<E>(sh, CommandView::Put(local, Some(remote)), name));
    law_put_opens_the_local_file::<E>(sh, local, remote, name);
    law_put_opens_the_remote_file::<E>(sh, resolved(sh.cwd, remote));
    lemma_one_event(start, EventView::<E>::Ready);
}

proof fn lemma_one_event<E>(step: StepView<E>, event: EventView<E>)
    ensures
        sent(actions(step, seq![event])) == packet_of(step.action) + packet_of(
            next_step(step.shell, step.stage, event).action,
        ),
{
    let events = seq![event];
    let next = next_step(step.shell, step.stage, event);
    assert(events.drop_first() =~= seq![]);
    lemma_nothing_on(next);
    let all = seq![step.action] + seq![next.action];
    assert(all.drop_first() =~= seq![next.action]);
    assert(actions(step, events) == all);
}

/// With both files open the first bytes are read; bytes that were read are sent
/// to the place behind those before them, and when the server has taken them the
/// next ones are read.
#[verifier::spinoff_prover]
pub proof fn law_put_sends_what_is_next<E>(
    sh: ShellView,
    id: u32,
    file: Seq<u8>,
    remote: Seq<char>,
    offset: u64,
    data: Seq<u8>,
    m: Seq<char>,
    l: Seq<char>,
)
    requires
        file.len() <= u32::MAX,
        data.len() > 0,
        offset + data.len() <= u64::MAX,
        text_fits(m),
        text_fits(l),
    ensures
        next_step(sh, StageView::<E>::PutOpen { id, remote }, reply_to(id, 102, bytes_field(file)))
            == (StepView::<E> {
            shell: sh,
            stage: StageView::PutRead { file, remote, offset: 0 },
            action: ActionView::Read(32768),
        }),
        ({
            let one = next_step(
                sh,
                StageView::<E>::PutRead { file, remote, offset },
                EventView::Bytes(data),
            );
            &&& one.shell == after_one(sh)
            &&& one.action == ActionView::<E>::Send(
                issued(sh.session, 6, bytes_field(file) + be64(offset) + bytes_field(data)).packet,
            )
            &&& next_step(
                one.shell,
                one.stage,
                reply_to(sh.session.next_id, 101, status(0, m, l)),
            ) == (StepView::<E> {
                shell: after_one(sh),
                stage: StageView::PutRead {
                    file,
                    remote,
                    offset: (offset + data.len()) as u64,
                },
                action: ActionView::Read(32768),
            })
        }),
{
    assert(next_step(
        sh,
        StageView::<E>::PutOpen { id, remote },
        reply_to(id, 102, bytes_field(file)),
    ) == put_read::<E>(sh, file, remote, 0)) by {
        reveal(next_step);
        lemma_hear_a_handle::<E>(id, file);
    }
    lemma_later(sh, 0);
    lemma_one_chunk_out::<E>(sh, file, remote, offset, data, (m, l));
    lemma_moved(offset, data.len());
    assert(next_step(
        sh,
        StageView::<E>::PutRead { file, remote, offset },
        EventView::Bytes(data),
    ).shell == after_one(sh)) by {
        reveal(next_step);
    }
}

/// At the end of the local file the transfer ends well; what cannot be read, or
/// is refused by the server, ends it badly. Either way the remote file is
/// closed.
#[verifier::spinoff_prover]
pub proof fn law_put_closes_the_remote_file<E>(
    sh: ShellView,
    id: u32,
    file: Seq<u8>,
    remote: Seq<char>,
    offset: u64,
    count: u64,
    code: u32,
    m: Seq<char>,
    l: Seq<char>,
    e: E,
)
    requires
        code != 0,
        text_fits(m),
        text_fits(l),
    ensures
        ({
            let reading = StageView::<E>::PutRead { file, remote, offset };
            let writing = StageView::<E>::PutWrite { id, file, remote, offset, count };
            let closed = |result: Result<u64, FailureView<E>>|
                sends::<E>(
                    sh,
                    StageView::PutClose { id: sh.session.next_id, remote, result },
                    4,
                    bytes_field(file),
                );
            &&& next_step(sh, reading, EventView::Bytes(seq![])) == closed(Ok(offset))
            &&& next_step(sh, reading, EventView::Failed(e)) == closed(
                Err(FailureView::Outside(e)),
            )
            &&& next_step(sh, writing, reply_to(id, 101, status(code, m, l))) == closed(
                Err(refusal_of(code, m, l)),
            )
            &&& next_step(sh, writing, EventView::Failed(e)) == closed(
                Err(FailureView::Outside(e)),
            )
        }),
{
    lemma_hear_a_refusal::<E>(id, code, m, l);
    reveal(next_step);
}

proof fn lemma_writes_in_turn(
    sh: ShellView,
    file: Seq<u8>,
    offset: u64,
    chunks: Seq<Seq<u8>>,
    i: int,
)
    requires
        offset + joined(chunks).len() <= u64::MAX,
        0 <= i < chunks.len(),
    ensures
        write_packets(sh, file, offset, chunks).len() == chunks.len(),
        write_packets(sh, file, offset, chunks)[i] == issued(
            later(sh, i as nat).session,
            6,
            bytes_field(file) + be64((offset + joined(chunks.take(i)).len()) as u64) + bytes_field(
                chunks[i],
            ),
        ).packet,
    decreases chunks.len(),
{
    let chunk = chunks[0];
    let more = chunks.drop_first();
    let offset1 = (offset + chunk.len()) as u64;
    assert(joined(chunks) == chunk + joined(more));
    lemma_later(sh, 0);
    assert(chunks.take(0) =~= seq![]);
    assert(joined(chunks.take(0)).len() == 0);
    if more.len() > 0 {
        lemma_writes_in_turn(later(sh, 1), file, offset1, more, if i > 0 { i - 1 } else { 0 });
    } else {
        assert(write_packets(later(sh, 1), file, offset1, more) =~= seq![]);
    }
    if i > 0 {
        lemma_taken(chunks, i);
        lemma_later(sh, (i - 1) as nat);
        assert(more[i - 1] == chunks[i]);
    }
}

proof fn lemma_piece_of_the_whole(chunks: Seq<Seq<u8>>, i: int)
    requires
        0 <= i < chunks.len(),
    ensures
        ({
            let at: int = joined(chunks.take(i)).len() as int;
            &&& at + chunks[i].len() <= joined(chunks).len()
            &&& joined(chunks).subrange(at, at + chunks[i].len()) == chunks[i]
        }),
    decreases chunks.len(),
{
    let more = chunks.drop_first();
    assert(chunks.take(0) =~= seq![]);
    assert(joined(chunks.take(0)).len() == 0);
    if i == 0 {
        assert(joined(chunks).subrange(0, chunks[0].len() as int) =~= chunks[0]);
    } else {
        lemma_piece_of_the_whole(more, i - 1);
        lemma_taken(chunks, i);
        let at: int = joined(more.take(i - 1)).len() as int;
        let n: int = chunks[0].len() as int;
        assert(more[i - 1] == chunks[i]);
        assert(joined(chunks).subrange(n + at, n + at + chunks[i].len()) =~= joined(
            more,
        ).subrange(at, at + chunks[i].len()));
    }
}

/// `put` copies the file. Let the local file be read in any pieces: each request
/// to write carries, for the place that stands in it, the bytes that the local
/// file has at that place, and the places follow each other from the beginning
/// of the file to its end.
pub proof fn law_put_copies_the_file<E>(
    sh: ShellView,
    file: Seq<u8>,
    remote: Seq<char>,
    content: Seq<u8>,
    chunks: Seq<Seq<u8>>,
    words: Seq<(Seq<char>, Seq<char>)>,
    i: int,
)
    requires
        content.len() <= u64::MAX,
        joined(chunks) == content,
        forall|i: int| 0 <= i < chunks.len() ==> (#[trigger] chunks[i]).len() > 0,
        words.len() == chunks.len(),
        forall|i: int| 0 <= i < words.len() ==> pair_fits(#[trigger] words[i]),
        0 <= i < chunks.len(),
    ensures
        ({
            let start = StepView::<E> {
                shell: sh,
                stage: StageView::PutRead { file, remote, offset: 0 },
                action: ActionView::Read(32768),
            };
            let asked = sent(actions(start, send_events(sh.session.next_id, chunks, words)));
            let at = joined(chunks.take(i)).len();
            let until = joined(chunks.take(i + 1)).len();
            &&& asked.len() == chunks.len()
            &&& asked[i] == issued(
                later(sh, i as nat).session,
                6,
                bytes_field(file) + be64(at as u64) + bytes_field(
                    content.subrange(at as int, until as int),
                ),
            ).packet
            &&& i == 0 ==> at == 0
            &&& at < until <= content.len()
            &&& i + 1 == chunks.len() ==> until == content.len()
        }),
{
    law_put_sends_what_was_read::<E>(sh, file, remote, 0, chunks, words);
    lemma_writes_in_turn(sh, file, 0, chunks, i);
    lemma_piece_of_the_whole(chunks, i);
    lemma_one_piece_more(chunks, i);
    assert(chunks.take(chunks.len() as int) =~= chunks);
    assert(chunks.take(0) =~= seq![]);
    assert(joined(chunks.take(0)).len() == 0);
}

proof fn lemma_one_piece_more(chunks: Seq<Seq<u8>>, i: int)
    requires
        0 <= i < chunks.len(),
    ensures
        joined(chunks.take(i + 1)).len() == joined(chunks.take(i)).len() + chunks[i].len(),
    decreases chunks.len(),
{
    let more = chunks.drop_first();
    lemma_taken(chunks, i + 1);
    if i == 0 {
        assert(more.take(0) =~= seq![]);
        assert(joined(more.take(0)).len() == 0);
    } else {
        lemma_one_piece_more(more, i - 1);
        lemma_taken(chunks, i);
        assert(more[i - 1] == chunks[i]);
    }
}

// Names.

/// The name that a transfer or a listing goes by is the last component of the
/// path that it is about: of the remote path as the server is asked for it, or
/// of the local path of a file that is sent. Where two paths were given no name
/// is looked for.
pub proof fn law_names_come_from_paths(
    sh: ShellView,
    path: Seq<char>,
    other: Seq<char>,
    args: Seq<Seq<char>>,
    name: Option<Seq<char>>,
)
    ensures
        plain_path(resolved(sh.cwd, path)) && name_fits(sh, CommandView::Get(path, None), name)
            ==> name == last_name(resolved(sh.cwd, path)),
        plain_path(path) && name_fits(sh, CommandView::Put(path, None), name) ==> name
            == last_name(path),
        last_operand(args) == Some(path) && plain_path(resolved(sh.cwd, path)) && name_fits(
            sh,
            CommandView::Ls(args),
            name,
        ) ==> name == last_name(resolved(sh.cwd, path)),
        last_operand(args) is None && plain_path(sh.cwd) && name_fits(
            sh,
            CommandView::Ls(args),
            name,
        ) ==> name == last_name(sh.cwd),
        name_fits(sh, CommandView::Get(path, Some(other)), name) ==> name is None,
        name_fits(sh, CommandView::Put(path, Some(other)), name) ==> name is None,
{
}

// Every command.

/// The first packet that a job sends, if it begins with one.
pub open spec fn first_packet<E>(job: (ShellView, JobView<E>)) -> Option<Seq<u8>> {
    match job.1 {
        JobView::Run(_, ActionView::Send(bytes)) => Some(bytes),
        _ => None,
    }
}

/// Whether a packet asks for something of an absolute path: the path stands
/// first in its body.
pub open spec fn is_about<E>(
    sh: ShellView,
    job: (ShellView, JobView<E>),
    cmd: u8,
    path: Seq<char>,
    more: Seq<u8>,
) -> bool {
    is_absolute(path) && first_packet(job) == Some(
        issued(sh.session, cmd, str_field(path) + more).packet,
    )
}

/// From an absolute working directory every path that a command sends to the
/// server to act on is absolute, whatever path was given.
pub proof fn law_paths_that_are_sent_are_absolute<E>(
    sh: ShellView,
    path: Seq<char>,
    other: Seq<char>,
    name: Option<Seq<char>>,
)
    requires
        is_absolute(sh.cwd),
    ensures
        exists|p: Seq<char>| #[trigger]
            is_about(sh, job_of::<E>(sh, CommandView::Rm(path), name), 13, p, seq![]),
        exists|p: Seq<char>| #[trigger]
            is_about(sh, job_of::<E>(sh, CommandView::Rmdir(path), name), 15, p, seq![]),
        exists|p: Seq<char>| #[trigger]
            is_about(sh, job_of::<E>(sh, CommandView::Mkdir(path), name), 14, p, be32(0)),
        exists|p: Seq<char>| #[trigger]
            is_about(sh, job_of::<E>(sh, CommandView::Stat(path), name), 17, p, be32(0)),
        exists|p: Seq<char>| #[trigger]
            is_about(sh, job_of::<E>(sh, CommandView::Cd(Some(path)), name), 16, p, seq![]),
        exists|p: Seq<char>| #[trigger]
            is_about(
                sh,
                job_of::<E>(sh, CommandView::Get(path, Some(other)), name),
                3,
                p,
                be32(1) + be32(0),
            ),
        job_of::<E>(sh, CommandView::Put(other, Some(path)), name).1 matches JobView::Run(
            StageView::PutSource { remote },
            _,
        ) && is_absolute(remote),
{
    let p = resolved(sh.cwd, path);
    law_paths_become_absolute(sh.cwd, path, sh.cwd);
    law_commands_on_one_path::<E>(sh, path, name);
    law_cd_asks_for_the_path::<E>(sh, path, name);
    law_get_opens_the_remote_file::<E>(sh, path, Some(other), name);
    assert(str_field(p) + seq![] =~= str_field(p));
    assert(str_field(p) + (be32(1) + be32(0)) =~= str_field(p) + be32(1) + be32(0));
    assert(is_about(sh, job_of::<E>(sh, CommandView::Rm(path), name), 13, p, seq![]));
    assert(is_about(sh, job_of::<E>(sh, CommandView::Rmdir(path), name), 15, p, seq![]));
    assert(is_about(sh, job_of::<E>(sh, CommandView::Mkdir(path), name), 14, p, be32(0)));
    assert(is_about(sh, job_of::<E>(sh, CommandView::Stat(path), name), 17, p, be32(0)));
    assert(is_about(sh, job_of::<E>(sh, CommandView::Cd(Some(path)), name), 16, p, seq![]));
    assert(is_about(
        sh,
        job_of::<E>(sh, CommandView::Get(path, Some(other)), name),
        3,
        p,
        be32(1) + be32(0),
    ));
}

} // verus!
