//! What holds of every exchange, whatever the external process does.
use vstd::prelude::*;
use crate::exchange::{
    answers, beginning, expects, finished, next, outcome, received, received_line, reply_to,
    sending, ActionModel,
    AfterExitModel, AfterSpawn, EventModel, PhaseModel, Situation,
};
use crate::lines::{complete_lines, partial_line, without_returns};
use crate::mutate::{describes_parts, new_bytes};
use crate::mutator::{killed, one_more_reply, spawned, successor, Error, MutatorModel, Process};
use crate::protocol::{
    id_text, law_request_is_one_line, law_request_reads_back, request_line, split_line,
};
use crate::reader::Output;
use crate::time::saturating_sum;

verus! {

/// The situation after these events, in an exchange that a mutator began with these fields.
pub open spec fn run(m: MutatorModel, fields: Seq<Seq<u8>>, events: Seq<EventModel>) -> Situation
    decreases events.len(),
{
    if events.len() == 0 {
        beginning(m, fields)
    } else {
        let s = run(m, fields, events.drop_last());
        next(s.mutator, s.exchange, events.last())
    }
}

/// The phase that event `i` comes in.
pub open spec fn phase_at(
    m: MutatorModel,
    fields: Seq<Seq<u8>>,
    events: Seq<EventModel>,
    i: int,
) -> PhaseModel {
    run(m, fields, events.take(i)).exchange.phase
}

/// Whether every event is an answer to the action before it.
pub open spec fn is_run(m: MutatorModel, fields: Seq<Seq<u8>>, events: Seq<EventModel>) -> bool {
    forall|i: int|
        0 <= i < events.len() ==> expects(phase_at(m, fields, events, i), #[trigger] events[i])
}

pub proof fn lemma_run_prefix(m: MutatorModel, fields: Seq<Seq<u8>>, events: Seq<EventModel>)
    requires
        is_run(m, fields, events),
        events.len() > 0,
    ensures
        is_run(m, fields, events.drop_last()),
        expects(run(m, fields, events.drop_last()).exchange.phase, events.last()),
        forall|i: int|
            0 <= i < events.len() ==> #[trigger] phase_at(m, fields, events.drop_last(), i)
                == phase_at(m, fields, events, i),
{
    let front = events.drop_last();
    assert forall|i: int| 0 <= i < events.len() implies #[trigger] phase_at(m, fields, front, i)
        == phase_at(m, fields, events, i) by {
        assert(front.take(i) =~= events.take(i));
    }
    assert forall|i: int| 0 <= i < front.len() implies expects(
        phase_at(m, fields, front, i),
        #[trigger] front[i],
    ) by {
        assert(front[i] == events[i]);
        assert(phase_at(m, fields, front, i) == phase_at(m, fields, events, i));
    }
    assert(events.take(events.len() - 1) =~= front);
    assert(expects(phase_at(m, fields, events, events.len() - 1), events[events.len() - 1]));
}

/// An exchange changes neither the settings of the mutator nor the fields it was begun with.
pub proof fn law_settings_are_kept(
    m: MutatorModel,
    fields: Seq<Seq<u8>>,
    events: Seq<EventModel>,
)
    ensures
        ({
            let s = run(m, fields, events);
            &&& s.exchange.fields == fields
            &&& s.mutator == (MutatorModel {
                process: s.mutator.process,
                spawn_count: s.mutator.spawn_count,
                next_id: s.mutator.next_id,
                ..m
            })
        }),
    decreases events.len(),
{
    if events.len() > 0 {
        law_settings_are_kept(m, fields, events.drop_last());
    }
}

/// Whether a phase comes before the request is sent.
pub open spec fn before_request(phase: PhaseModel) -> bool {
    match phase {
        PhaseModel::Spawning(AfterSpawn::Drain) => true,
        PhaseModel::Spawning(AfterSpawn::Request) => true,
        PhaseModel::Draining(_) => true,
        PhaseModel::Exiting(AfterExitModel::Request) => true,
        _ => false,
    }
}

/// The id of the request that a phase is about, if it holds one.
pub open spec fn id_of(phase: PhaseModel) -> Option<u64> {
    match phase {
        PhaseModel::Spawning(AfterSpawn::Retry(id)) => Some(id),
        PhaseModel::Exiting(AfterExitModel::Decide { id, .. }) => Some(id),
        PhaseModel::Awaiting { id, .. } => Some(id),
        _ => None,
    }
}

/// Every request of an exchange has the id that was next when the exchange began, and carries the
/// fields of the exchange. An exchange uses up that one id, or, if it fails before it has sent
/// anything, none. Hence, the requests of successive exchanges have consecutive ids.
pub proof fn law_one_id_per_exchange(
    m: MutatorModel,
    fields: Seq<Seq<u8>>,
    events: Seq<EventModel>,
)
    requires
        is_run(m, fields, events),
    ensures
        ({
            let s = run(m, fields, events);
            &&& before_request(s.exchange.phase) ==> s.mutator.next_id == m.next_id
            &&& s.exchange.phase !is Finished && !before_request(s.exchange.phase)
                ==> s.mutator.next_id == successor(m.next_id)
            &&& id_of(s.exchange.phase) matches Some(id) ==> id == m.next_id
            &&& s.action matches ActionModel::Send { request, .. } ==> request == request_line(
                m.next_id,
                fields,
            )
            &&& s.action matches ActionModel::Finish(Ok(_)) ==> s.mutator.next_id == successor(
                m.next_id,
            )
            &&& s.mutator.next_id == m.next_id || s.mutator.next_id == successor(m.next_id)
        }),
    decreases events.len(),
{
    if events.len() > 0 {
        lemma_run_prefix(m, fields, events);
        law_one_id_per_exchange(m, fields, events.drop_last());
        law_settings_are_kept(m, fields, events.drop_last());
    }
}

/// How many processes were spawned in these events.
pub open spec fn spawns(events: Seq<EventModel>) -> nat
    decreases events.len(),
{
    if events.len() == 0 {
        0
    } else {
        spawns(events.drop_last()) + if events.last() is Spawned {
            1nat
        } else {
            0nat
        }
    }
}

/// The mutator counts every process that is spawned, and nothing else.
pub proof fn law_spawns_are_counted(
    m: MutatorModel,
    fields: Seq<Seq<u8>>,
    events: Seq<EventModel>,
)
    requires
        is_run(m, fields, events),
    ensures
        run(m, fields, events).mutator.spawn_count == m.spawn_count + spawns(events),
    decreases events.len(),
{
    if events.len() > 0 {
        lemma_run_prefix(m, fields, events);
        law_spawns_are_counted(m, fields, events.drop_last());
    }
}

/// How often a request has been sent, up to and including the last action.
pub open spec fn sends(m: MutatorModel, fields: Seq<Seq<u8>>, events: Seq<EventModel>) -> nat
    decreases events.len(),
{
    (if events.len() == 0 {
        0
    } else {
        sends(m, fields, events.drop_last())
    }) + if run(m, fields, events).action is Send {
        1nat
    } else {
        0nat
    }
}

/// How often a request has been sent when a phase is reached: `None` if that is not fixed.
pub open spec fn sent_by(phase: PhaseModel) -> Option<nat> {
    match phase {
        PhaseModel::Spawning(AfterSpawn::Retry(_)) => Some(1),
        PhaseModel::Exiting(AfterExitModel::Decide { retried, .. }) => Some(
            if retried {
                2
            } else {
                1
            },
        ),
        PhaseModel::Awaiting { retried, .. } => Some(
            if retried {
                2
            } else {
                1
            },
        ),
        _ => if before_request(phase) {
            Some(0)
        } else {
            None
        },
    }
}

/// A request is sent at most twice, so an exchange retries at most once.
pub proof fn law_one_retry_at_most(
    m: MutatorModel,
    fields: Seq<Seq<u8>>,
    events: Seq<EventModel>,
)
    requires
        is_run(m, fields, events),
    ensures
        sends(m, fields, events) <= 2,
        sent_by(run(m, fields, events).exchange.phase) matches Some(n) ==> sends(m, fields, events)
            == n,
    decreases events.len(),
{
    if events.len() > 0 {
        lemma_run_prefix(m, fields, events);
        law_one_retry_at_most(m, fields, events.drop_last());
    }
}

/// Whether event `i` is a line on stdout that answers the request of the exchange, with this
/// payload.
pub open spec fn answered_at(
    m: MutatorModel,
    fields: Seq<Seq<u8>>,
    events: Seq<EventModel>,
    i: int,
    payload: Option<Seq<u8>>,
) -> bool {
    &&& 0 <= i < events.len()
    &&& phase_at(m, fields, events, i) is Awaiting
    &&& received_line(events[i]) matches Some(line)
    &&& answers(line, m.next_id)
    &&& split_line(line).1 == payload
}

/// Whether some event answers the request of the exchange with this payload.
pub open spec fn answered(
    m: MutatorModel,
    fields: Seq<Seq<u8>>,
    events: Seq<EventModel>,
    payload: Option<Seq<u8>>,
) -> bool {
    exists|i: int| answered_at(m, fields, events, i, payload)
}

/// The payload that a phase has yet to deliver, if any.
pub open spec fn payload_of(phase: PhaseModel) -> Option<Option<Seq<u8>>> {
    match phase {
        PhaseModel::Checking { payload, .. } => Some(payload),
        PhaseModel::Exiting(AfterExitModel::Deliver { payload }) => Some(payload),
        PhaseModel::Killing { payload } => Some(payload),
        _ => None,
    }
}

/// Whether some event answers the request of the exchange with these fields.
pub open spec fn answered_with(
    m: MutatorModel,
    fields: Seq<Seq<u8>>,
    events: Seq<EventModel>,
    reply: Seq<Seq<u8>>,
) -> bool {
    exists|payload: Option<Seq<u8>>|
        #[trigger] answered(m, fields, events, payload) && outcome(fields, payload) == Some(reply)
}

/// The fields that an exchange returns come from a line that the process wrote after this very
/// request had been sent to it, and that carries the id of this request: a stale reply is never
/// applied. They are never the fields that were sent.
pub proof fn law_replies_answer_the_request(
    m: MutatorModel,
    fields: Seq<Seq<u8>>,
    events: Seq<EventModel>,
)
    requires
        is_run(m, fields, events),
    ensures
        ({
            let s = run(m, fields, events);
            &&& payload_of(s.exchange.phase) matches Some(payload) ==> answered(
                m,
                fields,
                events,
                payload,
            )
            &&& s.action matches ActionModel::Finish(Ok(Some(reply))) ==> reply != fields
                && answered_with(m, fields, events, reply)
        }),
    decreases events.len(),
{
    if events.len() > 0 {
        let front = events.drop_last();
        lemma_run_prefix(m, fields, events);
        law_replies_answer_the_request(m, fields, front);
        law_one_id_per_exchange(m, fields, front);
        law_settings_are_kept(m, fields, front);
        let before = run(m, fields, front);
        let after = run(m, fields, events);
        let event = events.last();
        if let Some(payload) = payload_of(before.exchange.phase) {
            let i = choose|i: int| answered_at(m, fields, front, i, payload);
            assert(front[i] == events[i]);
            assert(phase_at(m, fields, front, i) == phase_at(m, fields, events, i));
            assert(answered_at(m, fields, events, i, payload));
            assert(answered(m, fields, events, payload));
        } else if let Some(payload) = payload_of(after.exchange.phase) {
            assert(before.exchange.phase is Awaiting);
            assert(events.take(events.len() - 1) =~= front);
            assert(answered_at(m, fields, events, events.len() - 1, payload));
        }
    }
}

/// Whether event `i` is a line on stderr that the process wrote after the request had been sent.
pub open spec fn complained_at(
    m: MutatorModel,
    fields: Seq<Seq<u8>>,
    events: Seq<EventModel>,
    i: int,
) -> bool {
    &&& 0 <= i < events.len()
    &&& received(events[i]) matches Some(Output::Stderr(_))
    &&& phase_at(m, fields, events, i) is Awaiting || phase_at(m, fields, events, i) is Checking
}

/// Whether the exchange is bound to end without any fields.
pub open spec fn without_reply(s: Situation) -> bool {
    match s.exchange.phase {
        PhaseModel::Checking { pending, .. } => pending.kill_for_stderr && s.action is Poll,
        PhaseModel::Spawning(AfterSpawn::Skip) => s.action is Spawn,
        PhaseModel::Finished => s.action == ActionModel::Finish(Ok(None)) || (
        s.action matches ActionModel::Finish(Err(_))),
        _ => false,
    }
}

proof fn lemma_complaint(s: Situation, event: EventModel)
    requires
        s.mutator.kill_on_stderr,
        s.mutator.process is Some,
        s.exchange.phase is Awaiting || s.exchange.phase is Checking,
        expects(s.exchange.phase, event),
        received(event) matches Some(Output::Stderr(_)),
    ensures
        without_reply(next(s.mutator, s.exchange, event)),
{
}

proof fn lemma_without_reply_step(s: Situation, event: EventModel)
    requires
        s.mutator.kill_on_stderr,
        without_reply(s),
        expects(s.exchange.phase, event),
    ensures
        without_reply(next(s.mutator, s.exchange, event)),
{
}

/// If the process has to be killed for output on stderr, then an exchange in which it wrote any
/// after the request had been sent returns no fields.
pub proof fn law_stderr_prevents_replies(
    m: MutatorModel,
    fields: Seq<Seq<u8>>,
    events: Seq<EventModel>,
    i: int,
)
    requires
        is_run(m, fields, events),
        m.kill_on_stderr,
        complained_at(m, fields, events, i),
    ensures
        without_reply(run(m, fields, events)),
    decreases events.len(),
{
    let front = events.drop_last();
    let s = run(m, fields, front);
    lemma_run_prefix(m, fields, events);
    law_settings_are_kept(m, fields, front);
    if i < front.len() {
        assert(front[i] == events[i]);
        assert(phase_at(m, fields, front, i) == phase_at(m, fields, events, i));
        law_stderr_prevents_replies(m, fields, front, i);
        lemma_without_reply_step(s, events.last());
    } else {
        assert(events.take(i) =~= front);
        law_process_after_exchange(m, fields, front);
        lemma_complaint(s, events.last());
    }
}

/// A reply with a wrong id, a timeout, and (if the process has to be killed for it) output on
/// stderr all end the same way, whatever the exchange was about: the process is respawned, and
/// there is no reply.
pub proof fn law_bad_replies_respawn(s: Situation, event: EventModel, spawn: EventModel)
    requires
        s.exchange.phase matches PhaseModel::Awaiting { id, .. } && (reply_to(
            s.mutator,
            id,
            event,
        ) matches Some(reply) && reply !is Payload && reply !is Exited),
        expects(PhaseModel::Spawning(AfterSpawn::Skip), spawn),
    ensures
        ({
            let killed = next(s.mutator, s.exchange, event);
            let end = next(killed.mutator, killed.exchange, spawn);
            &&& killed.action is Spawn
            &&& killed.mutator.process is None
            &&& spawn is Spawned ==> end.action == ActionModel::Finish(Ok(None))
                && end.mutator.process is Some && end.mutator.spawn_count == s.mutator.spawn_count
                + 1
            &&& spawn matches EventModel::SpawnFailed(err) ==> end.action == ActionModel::Finish(
                Err(err),
            ) && end.mutator.process is None
        }),
{
}

/// An exchange fails only if no process could be spawned, and then leaves none. Any other exchange
/// leaves a running process, unless the process has exited after its reply.
pub proof fn law_process_after_exchange(
    m: MutatorModel,
    fields: Seq<Seq<u8>>,
    events: Seq<EventModel>,
)
    requires
        is_run(m, fields, events),
    ensures
        ({
            let s = run(m, fields, events);
            &&& s.exchange.phase is Finished <==> s.action is Finish
            &&& s.action matches ActionModel::Finish(Err(_)) ==> s.mutator.process is None
                && events.last() is SpawnFailed
            &&& s.action matches ActionModel::Finish(Ok(_)) ==> s.mutator.process is Some
                || events.last() is Killed
            &&& s.exchange.phase is Spawning || s.exchange.phase is Killing
                ==> s.mutator.process is None
            &&& s.exchange.phase is Draining || s.exchange.phase is Exiting || s.exchange.phase
                is Awaiting || s.exchange.phase is Checking ==> s.mutator.process is Some
        }),
    decreases events.len(),
{
    if events.len() > 0 {
        lemma_run_prefix(m, fields, events);
        law_process_after_exchange(m, fields, events.drop_last());
    }
}

/// A request line is cut into exactly one line, with nothing left over.
proof fn lemma_lines_of_request(id: u64, fields: Seq<Seq<u8>>)
    ensures
        complete_lines(request_line(id, fields)) == seq![request_line(id, fields).drop_last()],
        partial_line(request_line(id, fields)).len() == 0,
{
    let line = request_line(id, fields);
    law_request_is_one_line(id, fields);
    let p = line.len() - 1;
    assert(line.skip(p + 1) =~= Seq::<u8>::empty());
    assert(line.take(p) =~= line.drop_last());
    let body = line.drop_last();
    if body.len() > 0 {
        assert(body.last() == line[body.len() - 1]);
    }
    assert(without_returns(body) == body);
    assert(complete_lines(Seq::<u8>::empty()) =~= Seq::<Seq<u8>>::empty());
    assert(complete_lines(line) =~= seq![body]);
    assert(partial_line(Seq::<u8>::empty()) == Seq::<u8>::empty());
    assert(partial_line(line) == partial_line(line.skip(p + 1)));
}

/// A process that writes its reply in the format of the requests is understood: the line arrives
/// as one line, it answers the request with that id and no other, and its fields are returned,
/// unless they are those of the request.
pub proof fn law_replies_are_understood(id: u64, fields: Seq<Seq<u8>>, reply: Seq<Seq<u8>>)
    ensures
        ({
            let line = request_line(id, reply).drop_last();
            &&& complete_lines(request_line(id, reply)) == seq![line]
            &&& partial_line(request_line(id, reply)).len() == 0
            &&& forall|other: u64| #[trigger] answers(line, other) <==> other == id
            &&& outcome(fields, split_line(line).1) == if reply == fields {
                None
            } else {
                Some(reply)
            }
        }),
{
    lemma_lines_of_request(id, reply);
    law_request_reads_back(id, reply);
}

/// A process that is running, and answers the request with other fields, changes nothing but the
/// counters, and its fields are returned.
pub proof fn law_good_replies_are_returned(
    m: MutatorModel,
    fields: Seq<Seq<u8>>,
    reply: Seq<Seq<u8>>,
)
    requires
        m.process is Some,
        reply != fields,
    ensures
        ({
            let line = request_line(m.next_id, reply).drop_last();
            let events = seq![
                EventModel::NoOutput,
                EventModel::Output(Output::Stdout(line)),
                EventModel::NoOutput,
            ];
            &&& is_run(m, fields, events)
            &&& run(m, fields, events) == finished(
                one_more_reply(MutatorModel { next_id: successor(m.next_id), ..m }),
                fields,
                Ok(Some(reply)),
            )
            &&& run(m, fields, events).action == ActionModel::Finish(Ok(Some(reply)))
            &&& run(m, fields, events).mutator.spawn_count == m.spawn_count
        }),
{
    let line = request_line(m.next_id, reply).drop_last();
    let e0 = EventModel::NoOutput;
    let e1 = EventModel::Output(Output::Stdout(line));
    let events = seq![e0, e1, e0];
    law_replies_are_understood(m.next_id, fields, reply);
    assert(answers(line, m.next_id));
    let r0 = run(m, fields, Seq::<EventModel>::empty());
    assert(r0 == beginning(m, fields));
    assert(seq![e0].drop_last() =~= Seq::<EventModel>::empty());
    let r1 = run(m, fields, seq![e0]);
    assert(r1 == next(r0.mutator, r0.exchange, e0));
    assert(seq![e0, e1].drop_last() =~= seq![e0]);
    let r2 = run(m, fields, seq![e0, e1]);
    assert(r2 == next(r1.mutator, r1.exchange, e1));
    assert(events.drop_last() =~= seq![e0, e1]);
    assert(events.take(0) =~= Seq::<EventModel>::empty());
    assert(events.take(1) =~= seq![e0]);
    assert(events.take(2) =~= seq![e0, e1]);
}

/// A reply that consists of the id only means "no mutation": whatever was sent, it holds no new
/// bytes and no new parts.
pub proof fn law_id_alone_is_no_mutation(
    id: u64,
    fields: Seq<Seq<u8>>,
    keys: Seq<Seq<u8>>,
    max_size: nat,
)
    ensures
        answers(id_text(id as nat), id),
        outcome(fields, split_line(id_text(id as nat)).1) matches Some(reply) ==> new_bytes(
            reply,
            max_size,
        ) is None && !describes_parts(reply, keys, max_size),
{
    let none = Seq::<Seq<u8>>::empty();
    law_replies_are_understood(id, fields, none);
    assert(request_line(id, none).drop_last() =~= id_text(id as nat));
}

/// If no process can be spawned, the exchange ends with the reason, and nothing of the mutator
/// changes: it is left without a process, with the counters and settings that it had.
pub proof fn law_failed_spawn_changes_nothing(
    m: MutatorModel,
    fields: Seq<Seq<u8>>,
    events: Seq<EventModel>,
    err: Error,
)
    requires
        is_run(m, fields, events),
        events.len() > 0,
        events.last() == EventModel::SpawnFailed(err),
    ensures
        ({
            let before = run(m, fields, events.drop_last());
            &&& before.mutator.process is None
            &&& run(m, fields, events) == finished(before.mutator, fields, Err(err))
            &&& run(m, fields, events).mutator == before.mutator
            &&& run(m, fields, events).action == ActionModel::Finish(Err(err))
        }),
{
    lemma_run_prefix(m, fields, events);
    law_settings_are_kept(m, fields, events.drop_last());
    law_process_after_exchange(m, fields, events.drop_last());
}

/// A process that cleanly exited, after it had answered earlier requests, gets replaced by a new
/// one, and the same request is sent to that, with the startup timeout on top. So programs that
/// answer exactly one request are supported.
pub proof fn law_clean_exit_is_retried(s: Situation, gone: EventModel, pid: u32)
    requires
        s.exchange.phase matches PhaseModel::Awaiting { retried, .. } && !retried,
        s.mutator.process matches Some(process) && process.replies > 0,
        gone == EventModel::Disconnected || received(gone) == Some(Output::StdoutClosed),
    ensures
        s.exchange.phase matches PhaseModel::Awaiting { id, .. } && ({
            let waiting = next(s.mutator, s.exchange, gone);
            let killed = next(
                waiting.mutator,
                waiting.exchange,
                EventModel::ExitStatus(Some(true)),
            );
            let again = next(killed.mutator, killed.exchange, EventModel::Spawned(pid));
            &&& waiting.action is AwaitExit
            &&& killed.action is Spawn
            &&& again == sending(spawned(s.mutator, pid), s.exchange.fields, id, true)
            &&& again.action == ActionModel::Send {
                request: request_line(id, s.exchange.fields),
                timeout: saturating_sum(s.mutator.timeout, s.mutator.startup_timeout),
            }
            &&& again.exchange.phase == PhaseModel::Awaiting { id, retried: true }
            &&& again.exchange.fields == s.exchange.fields
            &&& again.mutator.process == Some(Process { pid, replies: 0 })
            &&& again.mutator.spawn_count == s.mutator.spawn_count + 1
            &&& again.mutator.next_id == s.mutator.next_id
        }),
{
}

/// A process that exited in any other way while a reply was due gets replaced by a new one, and
/// there is no reply: if it crashed, if its exit status is not known, if it never answered
/// anything, or if the request was a retry.
pub proof fn law_other_exits_are_skipped(
    s: Situation,
    gone: EventModel,
    status: Option<bool>,
    pid: u32,
)
    requires
        s.exchange.phase is Awaiting,
        gone == EventModel::Disconnected || received(gone) == Some(Output::StdoutClosed),
        s.mutator.process is Some,
        status != Some(true) || s.mutator.process->0.replies == 0
            || s.exchange.phase->Awaiting_retried,
    ensures
        ({
            let waiting = next(s.mutator, s.exchange, gone);
            let killed = next(waiting.mutator, waiting.exchange, EventModel::ExitStatus(status));
            let end = next(killed.mutator, killed.exchange, EventModel::Spawned(pid));
            &&& waiting.action is AwaitExit
            &&& killed.action is Spawn
            &&& end == finished(spawned(s.mutator, pid), s.exchange.fields, Ok(None))
            &&& end.action == ActionModel::Finish(Ok(None))
            &&& end.mutator.process == Some(Process { pid, replies: 0 })
            &&& end.mutator.spawn_count == s.mutator.spawn_count + 1
            &&& end.mutator.next_id == s.mutator.next_id
        }),
{
}

/// A process that exited right after its reply still has its reply counted. Then there is no
/// process, so that one is spawned for the next exchange.
pub proof fn law_exit_after_reply_is_accepted(
    s: Situation,
    gone: EventModel,
    status: Option<bool>,
)
    requires
        s.exchange.phase matches PhaseModel::Checking { pending, .. } && !pending.kill_for_stderr,
        gone == EventModel::Disconnected || gone == EventModel::Output(Output::StdoutClosed),
    ensures
        s.exchange.phase matches PhaseModel::Checking { payload, .. } && ({
            let waiting = next(s.mutator, s.exchange, gone);
            let dead = next(waiting.mutator, waiting.exchange, EventModel::ExitStatus(status));
            let end = next(dead.mutator, dead.exchange, EventModel::Killed);
            &&& waiting.action is AwaitExit
            &&& dead.action is Kill
            &&& end == finished(
                killed(s.mutator),
                s.exchange.fields,
                Ok(outcome(s.exchange.fields, payload)),
            )
            &&& end.action == ActionModel::Finish(Ok(outcome(s.exchange.fields, payload)))
            &&& end.mutator == (MutatorModel { process: None, ..s.mutator })
            &&& forall|fields: Seq<Seq<u8>>| #[trigger]
                beginning(end.mutator, fields).action is Spawn
        }),
{
}

/// Whether event `i` is a line on stderr that was left over from before the exchange.
pub open spec fn left_over_at(
    m: MutatorModel,
    fields: Seq<Seq<u8>>,
    events: Seq<EventModel>,
    i: int,
) -> bool {
    &&& 0 <= i < events.len()
    &&& events[i] matches EventModel::Output(Output::Stderr(_))
    &&& phase_at(m, fields, events, i) is Draining
}

/// Whether the process that is running is going to be replaced before the request is sent.
pub open spec fn condemned(phase: PhaseModel) -> bool {
    match phase {
        PhaseModel::Draining(pending) => pending.kill_for_stderr,
        PhaseModel::Exiting(AfterExitModel::Request) => true,
        PhaseModel::Spawning(AfterSpawn::Request) => true,
        _ => false,
    }
}

/// A process that is going to be replaced stays so until a new one is spawned, or cannot be.
proof fn lemma_condemned_step(s: Situation, event: EventModel)
    requires
        s.mutator.kill_on_stderr,
        condemned(s.exchange.phase),
        expects(s.exchange.phase, event),
    ensures
        ({
            let after = next(s.mutator, s.exchange, event);
            ||| condemned(after.exchange.phase)
            ||| event is Spawned
            ||| after.action matches ActionModel::Finish(Err(_))
        }),
{
}

/// If the process has to be killed for output on stderr, and some is found before the request has
/// been sent, then the request goes to a process that was spawned after that.
pub proof fn law_leftover_stderr_respawns(
    m: MutatorModel,
    fields: Seq<Seq<u8>>,
    events: Seq<EventModel>,
    i: int,
)
    requires
        is_run(m, fields, events),
        m.kill_on_stderr,
        left_over_at(m, fields, events, i),
    ensures
        ({
            let s = run(m, fields, events);
            ||| spawns(events) > spawns(events.take(i))
            ||| condemned(s.exchange.phase)
            ||| s.action matches ActionModel::Finish(Err(_))
        }),
    decreases events.len(),
{
    let front = events.drop_last();
    let s = run(m, fields, front);
    lemma_run_prefix(m, fields, events);
    law_settings_are_kept(m, fields, front);
    law_process_after_exchange(m, fields, front);
    if i < front.len() {
        assert(front[i] == events[i]);
        assert(phase_at(m, fields, front, i) == phase_at(m, fields, events, i));
        assert(front.take(i) =~= events.take(i));
        law_leftover_stderr_respawns(m, fields, front, i);
        if condemned(s.exchange.phase) {
            lemma_condemned_step(s, events.last());
            lemma_spawns_grow(front, i);
        }
    } else {
        assert(events.take(i) =~= front);
    }
}

proof fn lemma_spawns_grow(events: Seq<EventModel>, i: int)
    requires
        0 <= i <= events.len(),
    ensures
        spawns(events.take(i)) <= spawns(events),
    decreases events.len(),
{
    if i < events.len() {
        lemma_spawns_grow(events.drop_last(), i);
        assert(events.drop_last().take(i) =~= events.take(i));
    } else {
        assert(events.take(i) =~= events);
    }
}

/// The timeout of a request is always honored: whatever is received when it is over ends the wait,
/// also a line on stderr that would not end it otherwise.
pub proof fn law_timeouts_are_honored(s: Situation, event: EventModel)
    requires
        s.exchange.phase is Awaiting,
        event is TimedOut || event is Overdue,
    ensures
        next(s.mutator, s.exchange, event).exchange.phase !is Awaiting,
        next(s.mutator, s.exchange, event).action !is Receive,
{
}

/// The timeout that goes with a request is the regular one, with the startup timeout on top if the
/// process has not answered anything yet; that is so after every spawn.
pub proof fn law_fresh_processes_get_more_time(
    m: MutatorModel,
    fields: Seq<Seq<u8>>,
    events: Seq<EventModel>,
)
    requires
        is_run(m, fields, events),
    ensures
        run(m, fields, events).action matches ActionModel::Send { timeout, .. } ==> ({
            let s = run(m, fields, events);
            &&& s.mutator.process matches Some(process) && timeout == if process.replies == 0 {
                saturating_sum(m.timeout, m.startup_timeout)
            } else {
                m.timeout
            }
            &&& events.last() is Spawned ==> timeout == saturating_sum(
                m.timeout,
                m.startup_timeout,
            )
        }),
    decreases events.len(),
{
    if events.len() > 0 {
        lemma_run_prefix(m, fields, events);
        law_settings_are_kept(m, fields, events.drop_last());
        law_process_after_exchange(m, fields, events.drop_last());
        law_process_after_exchange(m, fields, events);
    }
}

/// Whether an event is an output line that concerns nobody: one on stderr, if the process does not
/// have to be killed for it and a request is not overdue, or one on stdout that nobody asked for.
pub open spec fn is_noise(kill_on_stderr: bool, phase: PhaseModel, event: EventModel) -> bool {
    match event {
        EventModel::Output(Output::Stderr(_)) => !kill_on_stderr,
        EventModel::Output(Output::Stdout(_)) => phase is Draining || phase is Checking,
        _ => false,
    }
}

/// The events of a run, without the noise.
pub open spec fn without_noise(
    m: MutatorModel,
    fields: Seq<Seq<u8>>,
    events: Seq<EventModel>,
) -> Seq<EventModel>
    decreases events.len(),
{
    if events.len() == 0 {
        events
    } else {
        let front = without_noise(m, fields, events.drop_last());
        if is_noise(
            m.kill_on_stderr,
            run(m, fields, events.drop_last()).exchange.phase,
            events.last(),
        ) {
            front
        } else {
            front.push(events.last())
        }
    }
}

/// The events, without the lines on stderr that are not overdue.
pub open spec fn without_stderr(events: Seq<EventModel>) -> Seq<EventModel>
    decreases events.len(),
{
    if events.len() == 0 {
        events
    } else if events.last() matches EventModel::Output(Output::Stderr(_)) {
        without_stderr(events.drop_last())
    } else {
        without_stderr(events.drop_last()).push(events.last())
    }
}

/// If the process does not have to be killed for output on stderr, none is ever held against it.
proof fn lemma_nothing_held_against(
    m: MutatorModel,
    fields: Seq<Seq<u8>>,
    events: Seq<EventModel>,
)
    requires
        is_run(m, fields, events),
    ensures
        !m.kill_on_stderr ==> match run(m, fields, events).exchange.phase {
            PhaseModel::Draining(pending) => !pending.kill_for_stderr,
            PhaseModel::Checking { pending, .. } => !pending.kill_for_stderr,
            _ => true,
        },
    decreases events.len(),
{
    if events.len() > 0 {
        lemma_run_prefix(m, fields, events);
        law_settings_are_kept(m, fields, events.drop_last());
        lemma_nothing_held_against(m, fields, events.drop_last());
    }
}

/// Noise changes neither the mutator nor the exchange.
proof fn lemma_noise_step(
    m: MutatorModel,
    fields: Seq<Seq<u8>>,
    events: Seq<EventModel>,
    event: EventModel,
)
    requires
        is_run(m, fields, events),
        is_noise(m.kill_on_stderr, run(m, fields, events).exchange.phase, event),
        expects(run(m, fields, events).exchange.phase, event),
    ensures
        ({
            let s = run(m, fields, events);
            let after = next(s.mutator, s.exchange, event);
            after.mutator == s.mutator && after.exchange == s.exchange
        }),
{
    law_settings_are_kept(m, fields, events);
    lemma_nothing_held_against(m, fields, events);
    law_process_after_exchange(m, fields, events);
}

proof fn lemma_run_push(
    m: MutatorModel,
    fields: Seq<Seq<u8>>,
    events: Seq<EventModel>,
    event: EventModel,
)
    requires
        is_run(m, fields, events),
        expects(run(m, fields, events).exchange.phase, event),
    ensures
        is_run(m, fields, events.push(event)),
        ({
            let s = run(m, fields, events);
            run(m, fields, events.push(event)) == next(s.mutator, s.exchange, event)
        }),
{
    let all = events.push(event);
    assert(all.drop_last() =~= events);
    assert forall|i: int| 0 <= i < all.len() implies expects(
        phase_at(m, fields, all, i),
        #[trigger] all[i],
    ) by {
        if i < events.len() {
            assert(all[i] == events[i]);
            assert(all.take(i) =~= events.take(i));
            assert(expects(phase_at(m, fields, events, i), events[i]));
        } else {
            assert(all.take(i) =~= events);
        }
    }
}

/// Output that concerns nobody never changes the course of an exchange: the same events without any
/// noise are a run as well, and it leads to the same mutator and the same exchange. It ends with the
/// same action, unless the last event is noise itself.
pub proof fn law_noise_changes_nothing(
    m: MutatorModel,
    fields: Seq<Seq<u8>>,
    events: Seq<EventModel>,
)
    requires
        is_run(m, fields, events),
    ensures
        ({
            let s = run(m, fields, events);
            let quiet = run(m, fields, without_noise(m, fields, events));
            &&& is_run(m, fields, without_noise(m, fields, events))
            &&& quiet.mutator == s.mutator
            &&& quiet.exchange == s.exchange
            &&& events.len() > 0 && !is_noise(
                m.kill_on_stderr,
                run(m, fields, events.drop_last()).exchange.phase,
                events.last(),
            ) ==> quiet.action == s.action
        }),
    decreases events.len(),
{
    if events.len() > 0 {
        let front = events.drop_last();
        lemma_run_prefix(m, fields, events);
        law_noise_changes_nothing(m, fields, front);
        if is_noise(m.kill_on_stderr, run(m, fields, front).exchange.phase, events.last()) {
            lemma_noise_step(m, fields, front, events.last());
        } else {
            lemma_run_push(m, fields, without_noise(m, fields, front), events.last());
        }
    }
}

/// If the process does not have to be killed for output on stderr, that output is only logged:
/// without all lines on stderr that are not overdue, an exchange takes the same course, and ends with
/// the same result, the same process and the same counters.
pub proof fn law_stderr_is_only_logged(
    m: MutatorModel,
    fields: Seq<Seq<u8>>,
    events: Seq<EventModel>,
)
    requires
        is_run(m, fields, events),
        !m.kill_on_stderr,
    ensures
        ({
            let s = run(m, fields, events);
            let quiet = run(m, fields, without_stderr(events));
            &&& is_run(m, fields, without_stderr(events))
            &&& quiet.mutator == s.mutator
            &&& quiet.exchange == s.exchange
            &&& s.action is Finish ==> quiet.action == s.action
        }),
    decreases events.len(),
{
    if events.len() > 0 {
        let front = events.drop_last();
        let last = events.last();
        lemma_run_prefix(m, fields, events);
        law_stderr_is_only_logged(m, fields, front);
        law_process_after_exchange(m, fields, events);
        law_process_after_exchange(m, fields, front);
        if last matches EventModel::Output(Output::Stderr(_)) {
            lemma_noise_step(m, fields, front, last);
        } else {
            lemma_run_push(m, fields, without_stderr(front), last);
        }
    }
}

/// Whether the process wrote to stderr, and has to be killed for it, after event `i`.
pub open spec fn complained_after(m: MutatorModel, events: Seq<EventModel>, i: int) -> bool {
    m.kill_on_stderr && exists|j: int|
        i < j < events.len() && (#[trigger] events[j] matches EventModel::Output(Output::Stderr(_)))
}

/// Once the request has been answered, nothing but output on stderr for which the process has to be
/// killed can keep the exchange from returning the fields of the answer, and no other process is
/// spawned: neither more output nor the end of the process changes that.
pub proof fn law_answers_are_returned(
    m: MutatorModel,
    fields: Seq<Seq<u8>>,
    events: Seq<EventModel>,
    i: int,
    payload: Option<Seq<u8>>,
)
    requires
        is_run(m, fields, events),
        answered_at(m, fields, events, i, payload),
        !complained_after(m, events, i),
    ensures
        ({
            let s = run(m, fields, events);
            &&& s.mutator.spawn_count == run(m, fields, events.take(i)).mutator.spawn_count
            &&& s.mutator.next_id == successor(m.next_id)
            &&& s.action matches ActionModel::Finish(result) ==> result == Ok::<
                Option<Seq<Seq<u8>>>,
                Error,
            >(outcome(fields, payload))
            &&& s.action !is Finish ==> payload_of(s.exchange.phase) == Some(payload)
            &&& s.exchange.phase matches PhaseModel::Checking { pending, .. }
                ==> !pending.kill_for_stderr
        }),
    decreases events.len(),
{
    let front = events.drop_last();
    let last = events.last();
    lemma_run_prefix(m, fields, events);
    law_settings_are_kept(m, fields, front);
    law_process_after_exchange(m, fields, front);
    law_process_after_exchange(m, fields, events);
    law_one_id_per_exchange(m, fields, front);
    if i < front.len() {
        assert(front[i] == events[i]);
        assert(phase_at(m, fields, front, i) == phase_at(m, fields, events, i));
        assert(front.take(i) =~= events.take(i));
        if complained_after(m, front, i) {
            let j = choose|j: int|
                i < j < front.len() && (#[trigger] front[j] matches EventModel::Output(
                    Output::Stderr(_),
                ));
            assert(events[j] == front[j]);
        }
        law_answers_are_returned(m, fields, front, i, payload);
        assert(events[events.len() - 1] == last);
    } else {
        assert(events.take(i) =~= front);
    }
}

/// Whether an event is a line on stdout.
pub open spec fn is_stdout_line(event: EventModel) -> bool {
    ||| event matches EventModel::Output(Output::Stdout(_))
    ||| event matches EventModel::Overdue(Output::Stdout(_))
}

/// How many lines the process that is running after these events has written to stdout while a reply
/// was awaited, if the one before them had written `before`.
pub open spec fn heard(
    m: MutatorModel,
    fields: Seq<Seq<u8>>,
    events: Seq<EventModel>,
    before: nat,
) -> nat
    decreases events.len(),
{
    if events.len() == 0 {
        before
    } else if events.last() is Spawned {
        0
    } else {
        heard(m, fields, events.drop_last(), before) + if run(
            m,
            fields,
            events.drop_last(),
        ).exchange.phase is Awaiting && is_stdout_line(events.last()) {
            1nat
        } else {
            0nat
        }
    }
}

proof fn lemma_replies_are_heard(
    m: MutatorModel,
    fields: Seq<Seq<u8>>,
    events: Seq<EventModel>,
    before: nat,
)
    requires
        is_run(m, fields, events),
        m.process matches Some(process) ==> process.replies == before,
        before + events.len() <= usize::MAX,
    ensures
        heard(m, fields, events, before) <= before + events.len(),
        run(m, fields, events).mutator.process matches Some(process) ==> process.replies == heard(
            m,
            fields,
            events,
            before,
        ),
    decreases events.len(),
{
    if events.len() > 0 {
        lemma_run_prefix(m, fields, events);
        lemma_replies_are_heard(m, fields, events.drop_last(), before);
        law_process_after_exchange(m, fields, events.drop_last());
    }
}

/// One exchange: the fields that it was begun with, and its events.
pub struct Round {
    pub fields: Seq<Seq<u8>>,
    pub events: Seq<EventModel>,
}

/// The mutator after these exchanges, one after the other.
pub open spec fn after_rounds(m: MutatorModel, rounds: Seq<Round>) -> MutatorModel
    decreases rounds.len(),
{
    if rounds.len() == 0 {
        m
    } else {
        run(
            after_rounds(m, rounds.drop_last()),
            rounds.last().fields,
            rounds.last().events,
        ).mutator
    }
}

/// Whether every exchange is a run.
pub open spec fn are_runs(m: MutatorModel, rounds: Seq<Round>) -> bool
    decreases rounds.len(),
{
    rounds.len() > 0 ==> are_runs(m, rounds.drop_last()) && is_run(
        after_rounds(m, rounds.drop_last()),
        rounds.last().fields,
        rounds.last().events,
    )
}

/// How many events there are in these exchanges.
pub open spec fn events_in(rounds: Seq<Round>) -> nat
    decreases rounds.len(),
{
    if rounds.len() == 0 {
        0
    } else {
        events_in(rounds.drop_last()) + rounds.last().events.len()
    }
}

/// How many lines the process that is running after these exchanges has written to stdout while a
/// reply was awaited, in any of them, if the one before them had written `before`.
pub open spec fn heard_in_rounds(m: MutatorModel, rounds: Seq<Round>, before: nat) -> nat
    decreases rounds.len(),
{
    if rounds.len() == 0 {
        before
    } else {
        heard(
            after_rounds(m, rounds.drop_last()),
            rounds.last().fields,
            rounds.last().events,
            heard_in_rounds(m, rounds.drop_last(), before),
        )
    }
}

/// However many exchanges there are, the count of replies is the number of lines that the running
/// process has written to stdout while a reply was awaited, since it was spawned.
pub proof fn law_replies_are_counted(m: MutatorModel, rounds: Seq<Round>, before: nat)
    requires
        are_runs(m, rounds),
        m.process matches Some(process) ==> process.replies == before,
        before + events_in(rounds) <= usize::MAX,
    ensures
        heard_in_rounds(m, rounds, before) <= before + events_in(rounds),
        after_rounds(m, rounds).process matches Some(process) ==> process.replies
            == heard_in_rounds(m, rounds, before),
    decreases rounds.len(),
{
    if rounds.len() > 0 {
        let front = rounds.drop_last();
        law_replies_are_counted(m, front, before);
        lemma_replies_are_heard(
            after_rounds(m, front),
            rounds.last().fields,
            rounds.last().events,
            heard_in_rounds(m, front, before),
        );
    }
}

proof fn lemma_settings_in_rounds(m: MutatorModel, rounds: Seq<Round>)
    ensures
        after_rounds(m, rounds).timeout == m.timeout,
        after_rounds(m, rounds).startup_timeout == m.startup_timeout,
    decreases rounds.len(),
{
    if rounds.len() > 0 {
        let front = rounds.drop_last();
        lemma_settings_in_rounds(m, front);
        law_settings_are_kept(after_rounds(m, front), rounds.last().fields, rounds.last().events);
    }
}

/// The startup timeout is only for the first request to a fresh process. Once the process has written
/// any line in answer to a request, in this exchange or an earlier one, every later request to it
/// gets exactly the regular timeout; until then, it gets both timeouts together.
pub proof fn law_startup_timeout_is_for_fresh_processes(
    m: MutatorModel,
    rounds: Seq<Round>,
    fields: Seq<Seq<u8>>,
    events: Seq<EventModel>,
    before: nat,
)
    requires
        are_runs(m, rounds),
        is_run(after_rounds(m, rounds), fields, events),
        m.process matches Some(process) ==> process.replies == before,
        before + events_in(rounds) + events.len() <= usize::MAX,
    ensures
        run(after_rounds(m, rounds), fields, events).action matches ActionModel::Send {
            timeout,
            ..
        } ==> timeout == if heard(
            after_rounds(m, rounds),
            fields,
            events,
            heard_in_rounds(m, rounds, before),
        ) == 0 {
            saturating_sum(m.timeout, m.startup_timeout)
        } else {
            m.timeout
        },
{
    let n = after_rounds(m, rounds);
    law_replies_are_counted(m, rounds, before);
    lemma_replies_are_heard(n, fields, events, heard_in_rounds(m, rounds, before));
    law_fresh_processes_get_more_time(n, fields, events);
    lemma_settings_in_rounds(m, rounds);
}

} // verus!
