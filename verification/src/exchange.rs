//! One request/reply exchange with the external process.
//!
//! An exchange is a sequence of steps. The surrounding program performs the [`Action`] of each step
//! and hands back the [`Event`] that came of it, until the action is [`Action::Finish`].
//!
//! If the program does not answer within the timeout, crashes, or exits, it is killed (if needed)
//! and respawned, and there is no reply. Programs that answer exactly one request and exit
//! afterwards are transparently respawned before the next request.
use vstd::prelude::*;
use crate::bytes::{same_fields, slice_views, views};
use crate::mutator::{
    killed, one_more_reply, spawned, successor, timeout_now, Error, ExternalProcessMutator,
    MutatorModel,
};
use crate::protocol::{
    decode_fields, decoded_payload, encode_request, fields_fit, parse_id, parsed_id, request_line,
    split_id, split_line,
};
use crate::reader::{Output, ProcessEvent};
use crate::time::Duration;

verus! {

/// What the surrounding program has to do next.
#[derive(Debug, PartialEq, Eq)]
pub enum Action {
    /// Kill the running process, if there is one, and spawn a new one.
    /// The answer is [`Event::Spawned`] or [`Event::SpawnFailed`].
    Spawn,
    /// Look for output of the process, without waiting for it.
    /// The answer is [`Event::Output`], [`Event::Disconnected`] or [`Event::NoOutput`].
    Poll,
    /// Wait briefly for the process to exit. The answer is [`Event::ExitStatus`].
    AwaitExit,
    /// Send the request, and wait for output of the process until the timeout is over.
    /// The answer is [`Event::Output`] or, if the timeout is over, [`Event::Overdue`];
    /// [`Event::Disconnected`] (also if the request cannot be sent); or [`Event::TimedOut`].
    Send { request: Vec<u8>, timeout: Duration },
    /// Go on waiting for output of the process, until the timeout of the request is over.
    /// The answers are those to [`Action::Send`].
    Receive,
    /// Kill the process. The answer is [`Event::Killed`].
    Kill,
    /// The exchange is over: the fields of the reply, or `None` if the mutation has to be skipped.
    Finish(Result<Option<Vec<Vec<u8>>>, Error>),
}

/// What an [`Action`] asks for.
pub enum ActionModel {
    Spawn,
    Poll,
    AwaitExit,
    Send { request: Seq<u8>, timeout: nat },
    Receive,
    Kill,
    Finish(Result<Option<Seq<Seq<u8>>>, Error>),
}

impl View for Action {
    type V = ActionModel;

    open spec fn view(&self) -> ActionModel {
        match self {
            Action::Spawn => ActionModel::Spawn,
            Action::Poll => ActionModel::Poll,
            Action::AwaitExit => ActionModel::AwaitExit,
            Action::Send { request, timeout } => ActionModel::Send {
                request: request@,
                timeout: timeout@,
            },
            Action::Receive => ActionModel::Receive,
            Action::Kill => ActionModel::Kill,
            Action::Finish(Ok(Some(fields))) => ActionModel::Finish(Ok(Some(views(fields@)))),
            Action::Finish(Ok(None)) => ActionModel::Finish(Ok(None)),
            Action::Finish(Err(err)) => ActionModel::Finish(Err(*err)),
        }
    }
}

/// What came of an [`Action`].
#[derive(Debug)]
pub enum Event {
    /// A new process is running, with this process id.
    Spawned(u32),
    /// No new process could be spawned.
    SpawnFailed(Error),
    /// The process wrote something, or closed its `stdout`.
    Output(ProcessEvent),
    /// Like [`Event::Output`], but the timeout of the request was already over when the output was
    /// looked for.
    Overdue(ProcessEvent),
    /// The pipes to the process are gone.
    Disconnected,
    /// There is no output right now.
    NoOutput,
    /// There was no output until the timeout.
    TimedOut,
    /// Whether the process exited with success, or `None` if its exit status is not known.
    ExitStatus(Option<bool>),
    /// The process is killed.
    Killed,
}

/// What an [`Event`] says.
pub enum EventModel {
    Spawned(u32),
    SpawnFailed(Error),
    Output(Output),
    Overdue(Output),
    Disconnected,
    NoOutput,
    TimedOut,
    ExitStatus(Option<bool>),
    Killed,
}

impl View for Event {
    type V = EventModel;

    open spec fn view(&self) -> EventModel {
        match self {
            Event::Spawned(pid) => EventModel::Spawned(*pid),
            Event::SpawnFailed(err) => EventModel::SpawnFailed(*err),
            Event::Output(output) => EventModel::Output(output@),
            Event::Overdue(output) => EventModel::Overdue(output@),
            Event::Disconnected => EventModel::Disconnected,
            Event::NoOutput => EventModel::NoOutput,
            Event::TimedOut => EventModel::TimedOut,
            Event::ExitStatus(status) => EventModel::ExitStatus(*status),
            Event::Killed => EventModel::Killed,
        }
    }
}

/// The result of waiting for the reply of the external process.
#[derive(Debug)]
pub enum Reply {
    /// We received a reply with the expected id, and (if there was any) the rest of the line.
    Payload(Option<Vec<u8>>),
    /// We received a line on stdout without the expected id.
    WrongId(Vec<u8>),
    /// The process did not answer in time.
    Timeout,
    /// The process exited or closed its stdout.
    Exited,
    /// The process wrote to stderr, and we are configured to kill it in this case.
    Stderr,
}

/// What a [`Reply`] says.
pub enum ReplyModel {
    Payload(Option<Seq<u8>>),
    WrongId(Seq<u8>),
    Timeout,
    Exited,
    Stderr,
}

/// The contents of the rest of a line, if there is any.
pub open spec fn view_rest(payload: Option<Vec<u8>>) -> Option<Seq<u8>> {
    match payload {
        Some(text) => Some(text@),
        None => None,
    }
}

impl View for Reply {
    type V = ReplyModel;

    open spec fn view(&self) -> ReplyModel {
        match self {
            Reply::Payload(payload) => ReplyModel::Payload(view_rest(*payload)),
            Reply::WrongId(line) => ReplyModel::WrongId(line@),
            Reply::Timeout => ReplyModel::Timeout,
            Reply::Exited => ReplyModel::Exited,
            Reply::Stderr => ReplyModel::Stderr,
        }
    }
}

/// The things we found when draining all pending events.
#[derive(Clone, Copy, Debug, PartialEq, Eq, Structural)]
pub struct Pending {
    /// Anything was written to stderr, and the process has to be killed for it.
    pub kill_for_stderr: bool,
    /// The process exited or closed its stdout.
    pub exited: bool,
}

/// What happens after a process has been spawned.
#[derive(Clone, Copy, Debug, PartialEq, Eq, Structural)]
pub enum AfterSpawn {
    /// Its output is drained.
    Drain,
    /// A new request is sent.
    Request,
    /// The request with this id is sent again.
    Retry(u64),
    /// There is no reply.
    Skip,
}

/// What happens after a process has exited.
#[derive(Debug)]
pub enum AfterExit {
    /// A new process gets a new request.
    Request,
    /// It had been sent the request with this id: whether to retry has to be decided.
    Decide { id: u64, retried: bool, replies: usize },
    /// It had answered, the reply still counts.
    Deliver { payload: Option<Vec<u8>> },
}

/// What an [`AfterExit`] says.
pub enum AfterExitModel {
    Request,
    Decide { id: u64, retried: bool, replies: usize },
    Deliver { payload: Option<Seq<u8>> },
}

impl View for AfterExit {
    type V = AfterExitModel;

    open spec fn view(&self) -> AfterExitModel {
        match self {
            AfterExit::Request => AfterExitModel::Request,
            AfterExit::Decide { id, retried, replies } => AfterExitModel::Decide {
                id: *id,
                retried: *retried,
                replies: *replies,
            },
            AfterExit::Deliver { payload } => AfterExitModel::Deliver {
                payload: view_rest(*payload),
            },
        }
    }
}

/// What the exchange is waiting for.
#[derive(Debug)]
enum Phase {
    Spawning(AfterSpawn),
    Draining(Pending),
    Exiting(AfterExit),
    Awaiting { id: u64, retried: bool },
    Checking { payload: Option<Vec<u8>>, pending: Pending },
    Killing { payload: Option<Vec<u8>> },
    Finished,
}

/// What an exchange is waiting for.
pub enum PhaseModel {
    /// For a new process.
    Spawning(AfterSpawn),
    /// For leftovers from previous rounds, before the request is sent.
    Draining(Pending),
    /// For the exit status of the process.
    Exiting(AfterExitModel),
    /// For the reply to the request with this id.
    Awaiting { id: u64, retried: bool },
    /// For stderr output that arrived together with the reply.
    Checking { payload: Option<Seq<u8>>, pending: Pending },
    /// For the end of a process that has answered.
    Killing { payload: Option<Seq<u8>> },
    /// For nothing any more.
    Finished,
}

impl View for Phase {
    type V = PhaseModel;

    closed spec fn view(&self) -> PhaseModel {
        match self {
            Phase::Spawning(after) => PhaseModel::Spawning(*after),
            Phase::Draining(pending) => PhaseModel::Draining(*pending),
            Phase::Exiting(after) => PhaseModel::Exiting(after@),
            Phase::Awaiting { id, retried } => PhaseModel::Awaiting { id: *id, retried: *retried },
            Phase::Checking { payload, pending } => PhaseModel::Checking {
                payload: view_rest(*payload),
                pending: *pending,
            },
            Phase::Killing { payload } => PhaseModel::Killing { payload: view_rest(*payload) },
            Phase::Finished => PhaseModel::Finished,
        }
    }
}

/// An exchange that has begun.
#[derive(Debug)]
pub struct Exchange {
    fields: Vec<Vec<u8>>,
    phase: Phase,
}

/// What an [`Exchange`] holds: the fields of the request, and what it is waiting for.
pub struct ExchangeModel {
    pub fields: Seq<Seq<u8>>,
    pub phase: PhaseModel,
}

impl View for Exchange {
    type V = ExchangeModel;

    closed spec fn view(&self) -> ExchangeModel {
        ExchangeModel { fields: views(self.fields@), phase: self.phase@ }
    }
}

/// Nothing found yet.
pub open spec fn no_pending() -> Pending {
    Pending { kill_for_stderr: false, exited: false }
}

/// What is found after one more event of draining. Lines on stdout are discarded, nobody asked for
/// them; lines on stderr count if the process has to be killed for them.
pub open spec fn drained(pending: Pending, event: EventModel, kill_on_stderr: bool) -> Pending {
    match event {
        EventModel::Output(Output::Stderr(_)) => Pending {
            kill_for_stderr: kill_on_stderr,
            ..pending
        },
        EventModel::Output(Output::StdoutClosed) => Pending { exited: true, ..pending },
        EventModel::Disconnected => Pending { exited: true, ..pending },
        _ => pending,
    }
}

/// Whether there is nothing more to drain after this event.
pub open spec fn drain_ends(event: EventModel) -> bool {
    !(event matches EventModel::Output(Output::Stdout(_)))
        && !(event matches EventModel::Output(Output::Stderr(_)))
}

/// Whether `line` is a reply to the request with this id.
pub open spec fn answers(line: Seq<u8>, id: u64) -> bool {
    parsed_id(split_line(line).0) == Some(id)
}

/// The output that came of the wait for a reply, if any did.
pub open spec fn received(event: EventModel) -> Option<Output> {
    match event {
        EventModel::Output(output) => Some(output),
        EventModel::Overdue(output) => Some(output),
        _ => None,
    }
}

/// The line on stdout that came of the wait for a reply, if one did.
pub open spec fn received_line(event: EventModel) -> Option<Seq<u8>> {
    match received(event) {
        Some(Output::Stdout(line)) => Some(line),
        _ => None,
    }
}

/// What an event means for the request with this id, or `None` if the wait goes on. A line on stderr
/// that does not get the process killed ends the wait only if the timeout is over; a reply that comes
/// after it is not waited for. Without a process there is nothing to wait for.
pub open spec fn reply_to(m: MutatorModel, id: u64, event: EventModel) -> Option<ReplyModel> {
    if m.process is None {
        Some(ReplyModel::Exited)
    } else {
        match received(event) {
            Some(Output::Stdout(line)) => if answers(line, id) {
                Some(ReplyModel::Payload(split_line(line).1))
            } else {
                Some(ReplyModel::WrongId(line))
            },
            Some(Output::Stderr(_)) => if m.kill_on_stderr {
                Some(ReplyModel::Stderr)
            } else if event is Overdue {
                Some(ReplyModel::Timeout)
            } else {
                None
            },
            Some(Output::StdoutClosed) => Some(ReplyModel::Exited),
            None => if event is TimedOut {
                Some(ReplyModel::Timeout)
            } else {
                Some(ReplyModel::Exited)
            },
        }
    }
}

/// The mutator after an event in the wait for a reply: every line on stdout counts as a reply.
pub open spec fn counted(m: MutatorModel, event: EventModel) -> MutatorModel {
    if received_line(event) is Some {
        one_more_reply(m)
    } else {
        m
    }
}

/// What the caller gets for a reply: its decoded fields, unless they are not valid hex, or the same
/// as those of the request.
pub open spec fn outcome(fields: Seq<Seq<u8>>, payload: Option<Seq<u8>>) -> Option<Seq<Seq<u8>>> {
    match decoded_payload(payload) {
        Ok(reply) => if reply == fields {
            None
        } else {
            Some(reply)
        },
        Err(_) => None,
    }
}

/// The state of the mutator and of the exchange, and the action to perform.
pub struct Situation {
    pub mutator: MutatorModel,
    pub exchange: ExchangeModel,
    pub action: ActionModel,
}

/// The situation with this mutator, phase and action.
pub open spec fn at(
    m: MutatorModel,
    fields: Seq<Seq<u8>>,
    phase: PhaseModel,
    action: ActionModel,
) -> Situation {
    Situation { mutator: m, exchange: ExchangeModel { fields, phase }, action }
}

/// The process is killed, if it is still running, and a new one is spawned.
pub open spec fn respawning(m: MutatorModel, fields: Seq<Seq<u8>>, after: AfterSpawn) -> Situation {
    at(killed(m), fields, PhaseModel::Spawning(after), ActionModel::Spawn)
}

/// The request with this id is sent.
pub open spec fn sending(
    m: MutatorModel,
    fields: Seq<Seq<u8>>,
    id: u64,
    retried: bool,
) -> Situation {
    at(
        m,
        fields,
        PhaseModel::Awaiting { id, retried },
        ActionModel::Send { request: request_line(id, fields), timeout: timeout_now(m) },
    )
}

/// A request with a fresh id is sent.
pub open spec fn requesting(m: MutatorModel, fields: Seq<Seq<u8>>) -> Situation {
    sending(
        MutatorModel { next_id: successor(m.next_id), ..m },
        fields,
        m.next_id,
        false,
    )
}

/// The exchange is over.
pub open spec fn finished(
    m: MutatorModel,
    fields: Seq<Seq<u8>>,
    result: Result<Option<Seq<Seq<u8>>>, Error>,
) -> Situation {
    at(m, fields, PhaseModel::Finished, ActionModel::Finish(result))
}

/// How an exchange begins: with a running process, whose leftovers are drained first.
pub open spec fn beginning(m: MutatorModel, fields: Seq<Seq<u8>>) -> Situation {
    if m.process is None {
        respawning(m, fields, AfterSpawn::Drain)
    } else {
        at(m, fields, PhaseModel::Draining(no_pending()), ActionModel::Poll)
    }
}

/// What comes after a new process has been spawned.
pub open spec fn after_spawn(
    m: MutatorModel,
    fields: Seq<Seq<u8>>,
    after: AfterSpawn,
    event: EventModel,
) -> Situation {
    match event {
        EventModel::Spawned(pid) => match after {
            AfterSpawn::Drain => at(
                spawned(m, pid),
                fields,
                PhaseModel::Draining(no_pending()),
                ActionModel::Poll,
            ),
            AfterSpawn::Request => requesting(spawned(m, pid), fields),
            AfterSpawn::Retry(id) => sending(spawned(m, pid), fields, id, true),
            AfterSpawn::Skip => finished(spawned(m, pid), fields, Ok(None)),
        },
        EventModel::SpawnFailed(err) => finished(m, fields, Err(err)),
        _ => finished(m, fields, Err(Error::IllegalState)),
    }
}

/// What comes after an event of draining, before the request is sent.
pub open spec fn after_drain(
    m: MutatorModel,
    fields: Seq<Seq<u8>>,
    pending: Pending,
    event: EventModel,
) -> Situation {
    let found = drained(pending, event, m.kill_on_stderr);
    if !drain_ends(event) {
        at(m, fields, PhaseModel::Draining(found), ActionModel::Poll)
    } else if found.exited {
        at(m, fields, PhaseModel::Exiting(AfterExitModel::Request), ActionModel::AwaitExit)
    } else if found.kill_for_stderr {
        respawning(m, fields, AfterSpawn::Request)
    } else {
        requesting(m, fields)
    }
}

/// What comes after the wait for the exit status. A process that cleanly exited after serving
/// earlier requests most likely did so before it even read the request: that is retried once.
pub open spec fn after_exit(
    m: MutatorModel,
    fields: Seq<Seq<u8>>,
    after: AfterExitModel,
    event: EventModel,
) -> Situation {
    match after {
        AfterExitModel::Request => respawning(m, fields, AfterSpawn::Request),
        AfterExitModel::Decide { id, retried, replies } => respawning(
            m,
            fields,
            if event == EventModel::ExitStatus(Some(true)) && replies > 0 && !retried {
                AfterSpawn::Retry(id)
            } else {
                AfterSpawn::Skip
            },
        ),
        AfterExitModel::Deliver { payload } => at(
            killed(m),
            fields,
            PhaseModel::Killing { payload },
            ActionModel::Kill,
        ),
    }
}

/// What comes after an event in the wait for the reply.
pub open spec fn after_wait(
    m: MutatorModel,
    fields: Seq<Seq<u8>>,
    id: u64,
    retried: bool,
    event: EventModel,
) -> Situation {
    let n = counted(m, event);
    match reply_to(m, id, event) {
        None => at(n, fields, PhaseModel::Awaiting { id, retried }, ActionModel::Receive),
        Some(ReplyModel::Payload(payload)) => at(
            n,
            fields,
            PhaseModel::Checking { payload, pending: no_pending() },
            ActionModel::Poll,
        ),
        Some(ReplyModel::Exited) => at(
            n,
            fields,
            PhaseModel::Exiting(
                AfterExitModel::Decide {
                    id,
                    retried,
                    replies: match m.process {
                        Some(process) => process.replies,
                        None => 0,
                    },
                },
            ),
            ActionModel::AwaitExit,
        ),
        Some(_) => respawning(n, fields, AfterSpawn::Skip),
    }
}

/// What comes after an event of draining, after a valid reply.
pub open spec fn after_check(
    m: MutatorModel,
    fields: Seq<Seq<u8>>,
    payload: Option<Seq<u8>>,
    pending: Pending,
    event: EventModel,
) -> Situation {
    let found = drained(pending, event, m.kill_on_stderr);
    if !drain_ends(event) {
        at(m, fields, PhaseModel::Checking { payload, pending: found }, ActionModel::Poll)
    } else if found.kill_for_stderr {
        respawning(m, fields, AfterSpawn::Skip)
    } else if found.exited {
        at(
            m,
            fields,
            PhaseModel::Exiting(AfterExitModel::Deliver { payload }),
            ActionModel::AwaitExit,
        )
    } else {
        finished(m, fields, Ok(outcome(fields, payload)))
    }
}

/// The situation after an event.
pub open spec fn next(m: MutatorModel, x: ExchangeModel, event: EventModel) -> Situation {
    match x.phase {
        PhaseModel::Spawning(after) => after_spawn(m, x.fields, after, event),
        PhaseModel::Draining(pending) => after_drain(m, x.fields, pending, event),
        PhaseModel::Exiting(after) => after_exit(m, x.fields, after, event),
        PhaseModel::Awaiting { id, retried } => after_wait(m, x.fields, id, retried, event),
        PhaseModel::Checking { payload, pending } => after_check(
            m,
            x.fields,
            payload,
            pending,
            event,
        ),
        PhaseModel::Killing { payload } => finished(m, x.fields, Ok(outcome(x.fields, payload))),
        PhaseModel::Finished => finished(m, x.fields, Ok(None)),
    }
}

/// Whether an event is an answer to what the exchange is waiting for.
pub open spec fn expects(phase: PhaseModel, event: EventModel) -> bool {
    match phase {
        PhaseModel::Spawning(_) => event is Spawned || event is SpawnFailed,
        PhaseModel::Draining(_) => event is Output || event is Disconnected || event is NoOutput,
        PhaseModel::Exiting(_) => event is ExitStatus,
        PhaseModel::Awaiting { .. } => event is Output || event is Overdue || event is Disconnected
            || event is TimedOut,
        PhaseModel::Checking { .. } => event is Output || event is Disconnected || event
            is NoOutput,
        PhaseModel::Killing { .. } => event is Killed,
        PhaseModel::Finished => false,
    }
}

/// Whether an action is what an exchange in this phase asks for. So the action tells which events
/// answer it.
pub open spec fn asks_for(phase: PhaseModel, action: ActionModel) -> bool {
    match action {
        ActionModel::Spawn => phase is Spawning,
        ActionModel::Poll => phase is Draining || phase is Checking,
        ActionModel::AwaitExit => phase is Exiting,
        ActionModel::Send { .. } => phase is Awaiting,
        ActionModel::Receive => phase is Awaiting,
        ActionModel::Kill => phase is Killing,
        ActionModel::Finish(_) => phase is Finished,
    }
}

/// Whether a phase goes with a running process.
pub open spec fn has_process(phase: PhaseModel) -> bool {
    match phase {
        PhaseModel::Draining(_) => true,
        PhaseModel::Exiting(_) => true,
        PhaseModel::Awaiting { .. } => true,
        PhaseModel::Checking { .. } => true,
        _ => false,
    }
}

/// Whether an exchange and its mutator belong together: the fields can be sent, and the mutator has
/// a process exactly where the exchange counts on one.
pub open spec fn exchange_wf(m: MutatorModel, x: ExchangeModel) -> bool {
    &&& fields_fit(x.fields)
    &&& x.phase !is Finished ==> (has_process(x.phase) <==> m.process is Some)
}

/// Whether one more reply of the running process, if there is one, can be counted.
pub open spec fn can_count_reply(m: MutatorModel) -> bool {
    m.process matches Some(process) ==> process.replies < usize::MAX
}

/// Whether the counters can count this event.
pub open spec fn countable(m: MutatorModel, phase: PhaseModel, event: EventModel) -> bool {
    &&& event is Spawned ==> m.spawn_count < usize::MAX
    &&& phase is Awaiting && received_line(event) is Some ==> can_count_reply(m)
}

/// The slices of the fields.
fn field_slices(fields: &Vec<Vec<u8>>) -> (slices: Vec<&[u8]>)
    ensures
        slice_views(slices@) == views(fields@),
{
    let mut slices: Vec<&[u8]> = Vec::new();
    let mut i: usize = 0;
    while i < fields.len()
        invariant
            i <= fields@.len(),
            slices@.len() == i,
            forall|j: int| 0 <= j < i ==> slice_views(slices@)[j] == views(fields@)[j],
        decreases fields@.len() - i,
    {
        slices.push(fields[i].as_slice());
        i += 1;
    }
    assert(slice_views(slices@) =~= views(fields@));
    slices
}

/// What the caller gets for a reply with this payload: `None` if it is not valid hex, or the same as
/// the request.
pub fn reply_fields(fields: &Vec<Vec<u8>>, payload: &Option<Vec<u8>>) -> (reply: Option<
    Vec<Vec<u8>>,
>)
    ensures
        match reply {
            Some(reply) => outcome(views(fields@), view_rest(*payload)) == Some(views(reply@)),
            None => outcome(views(fields@), view_rest(*payload)) is None,
        },
{
    let text: Option<&[u8]> = match payload {
        Some(text) => Some(text.as_slice()),
        None => None,
    };
    match decode_fields(text) {
        Ok(reply) => {
            if same_fields(&reply, fields) {
                None
            } else {
                Some(reply)
            }
        },
        Err(_) => None,
    }
}

impl ExternalProcessMutator {
    /// Begins an exchange: the `fields` are sent hex-encoded, after a fresh request id.
    pub fn begin_exchange(&self, fields: Vec<Vec<u8>>) -> (begun: (Exchange, Action))
        requires
            fields_fit(views(fields@)),
        ensures
            beginning(self@, views(fields@)) == (Situation {
                mutator: self@,
                exchange: begun.0@,
                action: begun.1@,
            }),
            exchange_wf(self@, begun.0@),
            asks_for(begun.0@.phase, begun.1@),
    {
        if self.pid().is_none() {
            (
                Exchange { fields, phase: Phase::Spawning(AfterSpawn::Drain) },
                Action::Spawn,
            )
        } else {
            (
                Exchange {
                    fields,
                    phase: Phase::Draining(Pending { kill_for_stderr: false, exited: false }),
                },
                Action::Poll,
            )
        }
    }

    /// Handles one event of draining. Returns whether there is nothing more to drain.
    pub fn drain_pending(&self, pending: &mut Pending, event: &Event) -> (ends: bool)
        ensures
            *final(pending) == drained(*old(pending), event@, self@.kill_on_stderr),
            ends == drain_ends(event@),
    {
        match event {
            Event::Output(ProcessEvent::Stdout(_)) => false,
            Event::Output(ProcessEvent::Stderr(_)) => {
                pending.kill_for_stderr = self.kill_on_stderr();
                false
            },
            Event::Output(ProcessEvent::StdoutClosed) => {
                pending.exited = true;
                true
            },
            Event::Disconnected => {
                pending.exited = true;
                true
            },
            _ => true,
        }
    }

    /// Handles one event in the wait for the reply to the request with this `id`. Returns `None` if
    /// the wait goes on, which it never does when the timeout is over.
    ///
    /// Checks that the reply carries the request's `id`, and returns the rest of the line.
    pub fn roundtrip(&mut self, id: u64, event: Event) -> (reply: Option<Reply>)
        requires
            received_line(event@) is Some ==> can_count_reply(old(self)@),
        ensures
            final(self)@ == counted(old(self)@, event@),
            match reply {
                Some(reply) => reply_to(old(self)@, id, event@) == Some(reply@),
                None => reply_to(old(self)@, id, event@) is None,
            },
    {
        if self.pid().is_none() {
            return Some(Reply::Exited);
        }
        let (output, overdue): (ProcessEvent, bool) = match event {
            Event::Output(output) => (output, false),
            Event::Overdue(output) => (output, true),
            Event::TimedOut => {
                return Some(Reply::Timeout);
            },
            _ => {
                return Some(Reply::Exited);
            },
        };
        match output {
            ProcessEvent::Stdout(line) => {
                self.record_reply();
                let (reply_id, payload) = split_id(line.as_slice());
                if parse_id(reply_id) == Some(id) {
                    let rest: Option<Vec<u8>> = match payload {
                        Some(text) => Some(vstd::slice::slice_to_vec(text)),
                        None => None,
                    };
                    Some(Reply::Payload(rest))
                } else {
                    Some(Reply::WrongId(line))
                }
            },
            ProcessEvent::Stderr(_) => {
                if self.kill_on_stderr() {
                    Some(Reply::Stderr)
                } else if overdue {
                    Some(Reply::Timeout)
                } else {
                    None
                }
            },
            ProcessEvent::StdoutClosed => Some(Reply::Exited),
        }
    }

    /// Takes the event that came of the last action, and returns the next action.
    pub fn exchange(&mut self, exchange: &mut Exchange, event: Event) -> (action: Action)
        requires
            exchange_wf(old(self)@, old(exchange)@),
            expects(old(exchange)@.phase, event@),
            countable(old(self)@, old(exchange)@.phase, event@),
        ensures
            next(old(self)@, old(exchange)@, event@) == (Situation {
                mutator: final(self)@,
                exchange: final(exchange)@,
                action: action@,
            }),
            exchange_wf(final(self)@, final(exchange)@),
            asks_for(final(exchange)@.phase, action@),
    {
        let mut phase: Phase = Phase::Finished;
        core::mem::swap(&mut phase, &mut exchange.phase);
        match phase {
            Phase::Spawning(after) => self.spawn(exchange, after, event),
            Phase::Draining(pending) => {
                let mut found: Pending = pending;
                if !self.drain_pending(&mut found, &event) {
                    exchange.phase = Phase::Draining(found);
                    Action::Poll
                } else if found.exited {
                    exchange.phase = Phase::Exiting(AfterExit::Request);
                    Action::AwaitExit
                } else if found.kill_for_stderr {
                    self.respawn(exchange, AfterSpawn::Request)
                } else {
                    self.send_request(exchange)
                }
            },
            Phase::Exiting(after) => self.respawn_after_exit(exchange, after, event),
            Phase::Awaiting { id, retried } => {
                let replies: usize = self.replies();
                match self.roundtrip(id, event) {
                    None => {
                        exchange.phase = Phase::Awaiting { id, retried };
                        Action::Receive
                    },
                    Some(Reply::Payload(payload)) => {
                        exchange.phase = Phase::Checking {
                            payload,
                            pending: Pending { kill_for_stderr: false, exited: false },
                        };
                        Action::Poll
                    },
                    Some(Reply::Exited) => {
                        exchange.phase = Phase::Exiting(
                            AfterExit::Decide { id, retried, replies },
                        );
                        Action::AwaitExit
                    },
                    Some(_) => self.respawn(exchange, AfterSpawn::Skip),
                }
            },
            Phase::Checking { payload, pending } => {
                let mut found: Pending = pending;
                if !self.drain_pending(&mut found, &event) {
                    exchange.phase = Phase::Checking { payload, pending: found };
                    Action::Poll
                } else if found.kill_for_stderr {
                    self.respawn(exchange, AfterSpawn::Skip)
                } else if found.exited {
                    exchange.phase = Phase::Exiting(AfterExit::Deliver { payload });
                    Action::AwaitExit
                } else {
                    Action::Finish(Ok(reply_fields(&exchange.fields, &payload)))
                }
            },
            Phase::Killing { payload } => Action::Finish(
                Ok(reply_fields(&exchange.fields, &payload)),
            ),
            Phase::Finished => Action::Finish(Ok(None)),
        }
    }

    /// Goes on after a new process has been spawned, or could not be.
    fn spawn(&mut self, exchange: &mut Exchange, after: AfterSpawn, event: Event) -> (action: Action)
        requires
            fields_fit(old(exchange)@.fields),
            old(exchange)@.phase is Finished,
            old(self)@.process is None,
            event@ is Spawned || event@ is SpawnFailed,
            event@ is Spawned ==> old(self)@.spawn_count < usize::MAX,
        ensures
            after_spawn(old(self)@, old(exchange)@.fields, after, event@) == (Situation {
                mutator: final(self)@,
                exchange: final(exchange)@,
                action: action@,
            }),
            exchange_wf(final(self)@, final(exchange)@),
    {
        let pid: u32 = match event {
            Event::Spawned(pid) => pid,
            Event::SpawnFailed(err) => {
                return Action::Finish(Err(err));
            },
            _ => {
                return Action::Finish(Err(Error::IllegalState));
            },
        };
        self.record_spawn(pid);
        match after {
            AfterSpawn::Drain => {
                exchange.phase = Phase::Draining(Pending { kill_for_stderr: false, exited: false });
                Action::Poll
            },
            AfterSpawn::Request => self.send_request(exchange),
            AfterSpawn::Retry(id) => self.send(exchange, id, true),
            AfterSpawn::Skip => Action::Finish(Ok(None)),
        }
    }

    /// Kills the running process and spawns a new one.
    fn respawn(&mut self, exchange: &mut Exchange, after: AfterSpawn) -> (action: Action)
        requires
            fields_fit(old(exchange)@.fields),
        ensures
            respawning(old(self)@, old(exchange)@.fields, after) == (Situation {
                mutator: final(self)@,
                exchange: final(exchange)@,
                action: action@,
            }),
            exchange_wf(final(self)@, final(exchange)@),
    {
        self.record_kill();
        exchange.phase = Phase::Spawning(after);
        Action::Spawn
    }

    /// Goes on after the process exited (or closed its stdout), knowing whether it exited cleanly.
    fn respawn_after_exit(&mut self, exchange: &mut Exchange, after: AfterExit, event: Event) -> (action:
        Action)
        requires
            fields_fit(old(exchange)@.fields),
            event@ is ExitStatus,
        ensures
            after_exit(old(self)@, old(exchange)@.fields, after@, event@) == (Situation {
                mutator: final(self)@,
                exchange: final(exchange)@,
                action: action@,
            }),
            exchange_wf(final(self)@, final(exchange)@),
    {
        let clean: bool = match event {
            Event::ExitStatus(Some(success)) => success,
            _ => false,
        };
        match after {
            AfterExit::Request => self.respawn(exchange, AfterSpawn::Request),
            AfterExit::Decide { id, retried, replies } => {
                if clean && replies > 0 && !retried {
                    self.respawn(exchange, AfterSpawn::Retry(id))
                } else {
                    self.respawn(exchange, AfterSpawn::Skip)
                }
            },
            AfterExit::Deliver { payload } => {
                self.record_kill();
                exchange.phase = Phase::Killing { payload };
                Action::Kill
            },
        }
    }

    /// Sends a request with a fresh id.
    fn send_request(&mut self, exchange: &mut Exchange) -> (action: Action)
        requires
            fields_fit(old(exchange)@.fields),
            old(self)@.process is Some,
        ensures
            requesting(old(self)@, old(exchange)@.fields) == (Situation {
                mutator: final(self)@,
                exchange: final(exchange)@,
                action: action@,
            }),
            exchange_wf(final(self)@, final(exchange)@),
    {
        let id: u64 = self.take_id();
        self.send(exchange, id, false)
    }

    /// Sends the request with this id.
    fn send(&self, exchange: &mut Exchange, id: u64, retried: bool) -> (action: Action)
        requires
            fields_fit(old(exchange)@.fields),
            self@.process is Some,
        ensures
            sending(self@, old(exchange)@.fields, id, retried) == (Situation {
                mutator: self@,
                exchange: final(exchange)@,
                action: action@,
            }),
            exchange_wf(self@, final(exchange)@),
    {
        let slices: Vec<&[u8]> = field_slices(&exchange.fields);
        let request: Vec<u8> = encode_request(id, slices.as_slice());
        exchange.phase = Phase::Awaiting { id, retried };
        Action::Send { request, timeout: self.effective_timeout() }
    }
}

/// The view of an action says what it asks for, with everything that is in it.
pub proof fn law_action_views(action: Action)
    ensures
        action is Spawn ==> action@ == ActionModel::Spawn,
        action is Poll ==> action@ == ActionModel::Poll,
        action is AwaitExit ==> action@ == ActionModel::AwaitExit,
        action is Receive ==> action@ == ActionModel::Receive,
        action is Kill ==> action@ == ActionModel::Kill,
        action matches Action::Send { request, timeout } ==> action@ == (ActionModel::Send {
            request: request@,
            timeout: timeout@,
        }),
        action matches Action::Finish(Ok(Some(fields))) ==> action@ == ActionModel::Finish(
            Ok(Some(views(fields@))),
        ),
        action == Action::Finish(Ok(None)) ==> action@ == ActionModel::Finish(Ok(None)),
        action matches Action::Finish(Err(err)) ==> action@ == ActionModel::Finish(Err(err)),
{
}

/// The view of an event says what happened, with everything that is in it.
pub proof fn law_event_views(event: Event)
    ensures
        event matches Event::Spawned(pid) ==> event@ == EventModel::Spawned(pid),
        event matches Event::SpawnFailed(err) ==> event@ == EventModel::SpawnFailed(err),
        event matches Event::Output(output) ==> event@ == EventModel::Output(output@),
        event matches Event::Overdue(output) ==> event@ == EventModel::Overdue(output@),
        event is Disconnected ==> event@ == EventModel::Disconnected,
        event is NoOutput ==> event@ == EventModel::NoOutput,
        event is TimedOut ==> event@ == EventModel::TimedOut,
        event matches Event::ExitStatus(status) ==> event@ == EventModel::ExitStatus(status),
        event is Killed ==> event@ == EventModel::Killed,
{
}

/// The view of a reply says what it is, with the whole payload or line.
pub proof fn law_reply_views(reply: Reply)
    ensures
        reply matches Reply::Payload(Some(text)) ==> reply@ == ReplyModel::Payload(Some(text@)),
        reply == Reply::Payload(None) ==> reply@ == ReplyModel::Payload(None),
        reply matches Reply::WrongId(line) ==> reply@ == ReplyModel::WrongId(line@),
        reply is Timeout ==> reply@ == ReplyModel::Timeout,
        reply is Exited ==> reply@ == ReplyModel::Exited,
        reply is Stderr ==> reply@ == ReplyModel::Stderr,
{
}

} // verus!
