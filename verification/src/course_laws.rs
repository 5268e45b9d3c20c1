//! What each thing that the external process does leads to, in every exchange.
use vstd::prelude::*;
use crate::exchange::{
    beginning, counted, next, outcome, reply_to, ActionModel, EventModel, ExchangeModel, Pending,
    PhaseModel, ReplyModel, Situation,
};
use crate::exchange_laws::{
    is_run, is_stdout_line, law_one_retry_at_most, lemma_run_prefix, run, sends, sent_by,
};
use crate::mutator::{
    fresh_mutator, full_args, killed, one_more_reply, spawned, successor, timeout_now,
    MutatorModel, Process,
};
use crate::protocol::{parsed_id, request_line, split_line};
use crate::reader::Output;
use crate::time::saturating_sum;

verus! {

/// A mutator starts with the program and the arguments that it was given, a fresh process, one second
/// for each request and five more for the first, no requests sent, and stderr ignored.
pub proof fn law_fresh_mutator(program: Seq<u8>, args: Seq<Seq<u8>>, pid: u32)
    ensures
        ({
            let m = fresh_mutator(program, args, pid);
            &&& m.program == program
            &&& m.args == args
            &&& m.process == Some(Process { pid, replies: 0 })
            &&& m.spawn_count == 1
            &&& m.next_id == 0
            &&& !m.kill_on_stderr
            &&& m.timeout == 1_000_000_000
            &&& m.startup_timeout == 5_000_000_000
            &&& timeout_now(m) == 6_000_000_000
        }),
{
}

/// The program gets all arguments of the user, unchanged and in order, and after them one more, which
/// is the switch.
pub proof fn law_switch_comes_last(args: Seq<Seq<u8>>)
    ensures
        full_args(args).len() == args.len() + 1,
        forall|i: int| 0 <= i < args.len() ==> #[trigger] full_args(args)[i] == args[i],
        full_args(args).last() == vstd::utf8::encode_utf8("--mutator"@),
{
}

/// Spawning, killing and counting touch the process and the count of spawns, and nothing else.
pub proof fn law_processes_are_tracked(m: MutatorModel, pid: u32)
    ensures
        killed(m) == (MutatorModel { process: None, ..m }),
        spawned(m, pid).process == Some(Process { pid, replies: 0 }),
        spawned(m, pid).spawn_count == m.spawn_count + 1,
        spawned(m, pid) == (MutatorModel {
            process: spawned(m, pid).process,
            spawn_count: spawned(m, pid).spawn_count,
            ..m
        }),
        one_more_reply(m) == (MutatorModel { process: one_more_reply(m).process, ..m }),
        m.process is None ==> one_more_reply(m).process is None,
{
}

/// Counting one more reply makes the count exactly one greater, for the same process. So it is never
/// zero again.
pub proof fn law_one_more_reply_is_one_more(m: MutatorModel)
    requires
        m.process matches Some(process) && process.replies < usize::MAX,
    ensures
        one_more_reply(m).process matches Some(after) && m.process matches Some(before)
            && after.replies == before.replies + 1 && after.pid == before.pid && after.replies > 0,
        timeout_now(one_more_reply(m)) == m.timeout,
{
}

/// The timeout of a request is the regular one, or, for a process that has not answered anything, the
/// sum of both timeouts.
pub proof fn law_timeout_now(m: MutatorModel)
    ensures
        m.process is None ==> timeout_now(m) == m.timeout,
        m.process matches Some(process) && process.replies > 0 ==> timeout_now(m) == m.timeout,
        m.process matches Some(process) && process.replies == 0 ==> timeout_now(m)
            == saturating_sum(m.timeout, m.startup_timeout),
{
}

/// Ids count up by one, and start again at zero after the largest.
pub proof fn law_ids_count_up(id: u64)
    ensures
        successor(id) as int == (id as int + 1) % 0x1_0000_0000_0000_0000,
        successor(id) != id,
{
}

/// Two spans of time add up, as long as the sum is not longer than the longest span.
pub proof fn law_spans_add_up(a: nat, b: nat)
    ensures
        saturating_sum(a, b) == saturating_sum(b, a),
        a + b <= 18_446_744_073_709_551_615_999_999_999 ==> saturating_sum(a, b) == a + b,
        a + b > 18_446_744_073_709_551_615_999_999_999 ==> saturating_sum(a, b)
            == 18_446_744_073_709_551_615_999_999_999,
{
}

/// The situation in which the request of an exchange has just been sent for the first time, to a
/// process that has not answered anything yet.
pub open spec fn sent_to_fresh_process(
    m: MutatorModel,
    fields: Seq<Seq<u8>>,
    pid: u32,
    s: Situation,
) -> bool {
    &&& s.mutator == (MutatorModel {
        process: Some(Process { pid, replies: 0 }),
        spawn_count: m.spawn_count + 1,
        next_id: successor(m.next_id),
        ..m
    })
    &&& s.exchange == (ExchangeModel {
        fields,
        phase: PhaseModel::Awaiting { id: m.next_id, retried: false },
    })
    &&& s.action == ActionModel::Send {
        request: request_line(m.next_id, fields),
        timeout: saturating_sum(m.timeout, m.startup_timeout),
    }
}

/// The situation in which an exchange has ended without fields, and a new process has been spawned.
pub open spec fn skipped_and_respawned(before: Situation, pid: u32, s: Situation) -> bool {
    &&& s.mutator == (MutatorModel {
        process: Some(Process { pid, replies: 0 }),
        spawn_count: before.mutator.spawn_count + 1,
        ..before.mutator
    })
    &&& s.exchange == (ExchangeModel {
        fields: before.exchange.fields,
        phase: PhaseModel::Finished,
    })
    &&& s.action == ActionModel::Finish(Ok(None))
}

/// If no process is running when an exchange begins, one is spawned first, and gets the request.
pub proof fn law_missing_process_is_spawned(m: MutatorModel, fields: Seq<Seq<u8>>, pid: u32)
    requires
        m.process is None,
    ensures
        ({
            let s = beginning(m, fields);
            let running = next(s.mutator, s.exchange, EventModel::Spawned(pid));
            &&& s.mutator == m
            &&& s.action is Spawn
            &&& running.action is Poll
            &&& sent_to_fresh_process(
                m,
                fields,
                pid,
                next(running.mutator, running.exchange, EventModel::NoOutput),
            )
        }),
{
}

/// If the process has exited, or is to be killed for output on stderr, before the request is sent,
/// it is replaced by a new one, which gets the request.
pub proof fn law_request_goes_to_a_healthy_process(
    s: Situation,
    gone: EventModel,
    status: Option<bool>,
    pid: u32,
)
    requires
        s.exchange.phase matches PhaseModel::Draining(pending) && !pending.exited,
        gone == EventModel::Disconnected || gone == EventModel::Output(Output::StdoutClosed),
    ensures
        ({
            let waiting = next(s.mutator, s.exchange, gone);
            let dead = next(waiting.mutator, waiting.exchange, EventModel::ExitStatus(status));
            &&& waiting.action is AwaitExit
            &&& dead.action is Spawn
            &&& dead.mutator.process is None
            &&& sent_to_fresh_process(
                s.mutator,
                s.exchange.fields,
                pid,
                next(dead.mutator, dead.exchange, EventModel::Spawned(pid)),
            )
        }),
        s.exchange.phase matches PhaseModel::Draining(pending) && pending.kill_for_stderr ==> ({
            let dead = next(s.mutator, s.exchange, EventModel::NoOutput);
            &&& dead.action is Spawn
            &&& dead.mutator.process is None
            &&& sent_to_fresh_process(
                s.mutator,
                s.exchange.fields,
                pid,
                next(dead.mutator, dead.exchange, EventModel::Spawned(pid)),
            )
        }),
{
}

/// If the process is running and nothing speaks against it, it gets the request, with the id that is
/// next; only that id is used up.
pub proof fn law_running_process_gets_the_request(s: Situation)
    requires
        s.exchange.phase matches PhaseModel::Draining(pending) && !pending.exited
            && !pending.kill_for_stderr,
    ensures
        ({
            let sent = next(s.mutator, s.exchange, EventModel::NoOutput);
            &&& sent.mutator == (MutatorModel {
                next_id: successor(s.mutator.next_id),
                ..s.mutator
            })
            &&& sent.exchange == (ExchangeModel {
                fields: s.exchange.fields,
                phase: PhaseModel::Awaiting { id: s.mutator.next_id, retried: false },
            })
            &&& sent.action == ActionModel::Send {
                request: request_line(s.mutator.next_id, s.exchange.fields),
                timeout: timeout_now(s.mutator),
            }
        }),
{
}

/// Whether an event is a line on stderr, overdue or not.
pub open spec fn is_stderr_line(event: EventModel) -> bool {
    ||| event matches EventModel::Output(Output::Stderr(_))
    ||| event matches EventModel::Overdue(Output::Stderr(_))
}

/// A timeout, output on stderr for which the process has to be killed, and a line on stdout that does
/// not start with the id of the request: for each of them the process is replaced, and the exchange
/// ends without fields.
pub proof fn law_failed_waits_are_skipped(s: Situation, event: EventModel, pid: u32)
    requires
        s.mutator.process is Some,
        s.exchange.phase is Awaiting,
        ({
            ||| event is TimedOut
            ||| is_stderr_line(event) && (s.mutator.kill_on_stderr || event is Overdue)
            ||| event matches EventModel::Output(Output::Stdout(line)) && parsed_id(
                split_line(line).0,
            ) != Some(s.exchange.phase->Awaiting_id)
            ||| event matches EventModel::Overdue(Output::Stdout(line)) && parsed_id(
                split_line(line).0,
            ) != Some(s.exchange.phase->Awaiting_id)
        }),
    ensures
        ({
            let dead = next(s.mutator, s.exchange, event);
            &&& dead.action is Spawn
            &&& dead.mutator.process is None
            &&& skipped_and_respawned(
                s,
                pid,
                next(dead.mutator, dead.exchange, EventModel::Spawned(pid)),
            )
        }),
{
}

/// A line on stdout that starts with the id of the request, overdue or not, is the reply: it is
/// counted, and the rest of the line is kept.
pub proof fn law_replies_are_taken(s: Situation, event: EventModel, line: Seq<u8>)
    requires
        s.mutator.process matches Some(process) && process.replies < usize::MAX,
        s.exchange.phase is Awaiting,
        event == EventModel::Output(Output::Stdout(line)) || event == EventModel::Overdue(
            Output::Stdout(line),
        ),
        parsed_id(split_line(line).0) == Some(s.exchange.phase->Awaiting_id),
    ensures
        ({
            let taken = next(s.mutator, s.exchange, event);
            &&& taken.action is Poll
            &&& taken.mutator.process matches Some(process) && s.mutator.process matches Some(
                before,
            ) && process.replies == before.replies + 1 && process.pid == before.pid
            &&& taken.mutator == (MutatorModel { process: taken.mutator.process, ..s.mutator })
            &&& taken.exchange.fields == s.exchange.fields
            &&& taken.exchange.phase == PhaseModel::Checking {
                payload: split_line(line).1,
                pending: Pending { kill_for_stderr: false, exited: false },
            }
        }),
{
}

/// After a reply, output on stderr for which the process has to be killed gets it replaced, and the
/// exchange ends without fields. Without such output the exchange ends with the fields of the reply,
/// and the process stays.
pub proof fn law_replies_are_checked(s: Situation, end: EventModel, pid: u32)
    requires
        s.exchange.phase matches PhaseModel::Checking { pending, .. } && !pending.exited,
        end == EventModel::NoOutput || end == EventModel::Disconnected || end
            == EventModel::Output(Output::StdoutClosed),
    ensures
        s.exchange.phase matches PhaseModel::Checking { payload, pending } && ({
            let after = next(s.mutator, s.exchange, end);
            &&& pending.kill_for_stderr ==> after.action is Spawn && after.mutator.process is None
                && skipped_and_respawned(
                s,
                pid,
                next(after.mutator, after.exchange, EventModel::Spawned(pid)),
            )
            &&& !pending.kill_for_stderr && end == EventModel::NoOutput ==> after.action
                == ActionModel::Finish(Ok(outcome(s.exchange.fields, payload))) && after.mutator
                == s.mutator
        }),
{
}

/// While output is drained, before the request is sent and after the reply, a line on stderr counts
/// exactly if the process has to be killed for it, a line on stdout never does, and draining goes on.
pub proof fn law_draining_goes_on(s: Situation, line: Seq<u8>)
    requires
        s.exchange.phase is Draining || s.exchange.phase is Checking,
    ensures
        ({
            let stdout = next(s.mutator, s.exchange, EventModel::Output(Output::Stdout(line)));
            &&& stdout.action is Poll
            &&& stdout.mutator == s.mutator
            &&& stdout.exchange == s.exchange
        }),
        ({
            let stderr = next(s.mutator, s.exchange, EventModel::Output(Output::Stderr(line)));
            &&& stderr.action is Poll
            &&& stderr.mutator == s.mutator
            &&& stderr.exchange.fields == s.exchange.fields
            &&& s.exchange.phase matches PhaseModel::Draining(before) ==> (
            stderr.exchange.phase matches PhaseModel::Draining(after) && after.exited
                == before.exited && after.kill_for_stderr == s.mutator.kill_on_stderr)
            &&& s.exchange.phase matches PhaseModel::Checking { payload, pending: before } ==> (
            stderr.exchange.phase matches PhaseModel::Checking { payload: kept, pending: after }
                && kept == payload && after.exited == before.exited && after.kill_for_stderr
                == s.mutator.kill_on_stderr)
        }),
{
}

/// An exchange that did not fail has sent its request.
pub proof fn law_the_request_is_sent(
    m: MutatorModel,
    fields: Seq<Seq<u8>>,
    events: Seq<EventModel>,
)
    requires
        is_run(m, fields, events),
    ensures
        run(m, fields, events).action matches ActionModel::Finish(Ok(_)) ==> sends(
            m,
            fields,
            events,
        ) >= 1,
        sent_by(run(m, fields, events).exchange.phase) is None && !(run(
            m,
            fields,
            events,
        ).action matches ActionModel::Finish(Err(_))) ==> sends(m, fields, events) >= 1,
    decreases events.len(),
{
    law_one_retry_at_most(m, fields, events);
    if events.len() > 0 {
        lemma_run_prefix(m, fields, events);
        law_the_request_is_sent(m, fields, events.drop_last());
        law_one_retry_at_most(m, fields, events.drop_last());
    }
}

/// An exchange with a running process begins by looking for leftovers, and changes nothing.
pub proof fn law_exchange_begins(m: MutatorModel, fields: Seq<Seq<u8>>)
    requires
        m.process is Some,
    ensures
        beginning(m, fields).mutator == m,
        beginning(m, fields).exchange == (ExchangeModel {
            fields,
            phase: PhaseModel::Draining(Pending { kill_for_stderr: false, exited: false }),
        }),
        beginning(m, fields).action is Poll,
{
}

/// What an event means for a request. Without a process, there is none to reply. A line on stdout is
/// the reply exactly if it starts with the id, and is kept as it is if it does not. The wait goes on
/// exactly after a line on stderr that is in time and does not get the process killed.
pub proof fn law_replies(m: MutatorModel, id: u64, event: EventModel)
    ensures
        m.process is None ==> reply_to(m, id, event) == Some(ReplyModel::Exited),
        m.process is Some ==> {
            &&& reply_to(m, id, event) is None <==> (event matches EventModel::Output(
                Output::Stderr(_),
            )) && !m.kill_on_stderr
            &&& reply_to(m, id, event) == Some(ReplyModel::Stderr) <==> is_stderr_line(event)
                && m.kill_on_stderr
            &&& reply_to(m, id, event) == Some(ReplyModel::Timeout) <==> event is TimedOut || (
            event is Overdue && is_stderr_line(event) && !m.kill_on_stderr)
            &&& forall|line: Seq<u8>| #[trigger]
                reply_to(m, id, event) == Some(ReplyModel::WrongId(line)) <==> (event
                    == EventModel::Output(Output::Stdout(line)) || event == EventModel::Overdue(
                    Output::Stdout(line),
                )) && parsed_id(split_line(line).0) != Some(id)
            &&& forall|line: Seq<u8>|
                (event == EventModel::Output(Output::Stdout(line)) || event == EventModel::Overdue(
                    Output::Stdout(line),
                )) && parsed_id(#[trigger] split_line(line).0) == Some(id) ==> reply_to(m, id, event)
                    == Some(ReplyModel::Payload(split_line(line).1))
            &&& event is Disconnected || event == EventModel::Output(Output::StdoutClosed) || event
                == EventModel::Overdue(Output::StdoutClosed) ==> reply_to(m, id, event) == Some(
                ReplyModel::Exited,
            )
        },
{
}

/// A line on stdout that comes in the wait for a reply counts as a reply, whatever it says, and
/// nothing else does.
pub proof fn law_lines_count_as_replies(m: MutatorModel, event: EventModel)
    ensures
        counted(m, event) == if is_stdout_line(event) {
            one_more_reply(m)
        } else {
            m
        },
{
}

} // verus!
