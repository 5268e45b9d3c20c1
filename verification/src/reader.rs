//! Turning what the external program writes to its two output pipes into events.
//!
//! Both pipes are read by one loop, and `stderr` is always drained first. What is read from `stdout`
//! is held until `stderr` has been found empty after that. Hence, anything the program wrote to
//! `stderr` *before* it wrote its reply to `stdout` is delivered before the reply (see
//! [`law_stderr_comes_first`]).
use vstd::prelude::*;
use crate::bytes::{split_on, views};
use crate::lines::{
    chunk_lines, complete_lines, law_lines_across_chunks, nonempty_lines, partial_line, take_lines,
};
use crate::protocol::NEWLINE;

verus! {

/// Something that the external program wrote.
#[derive(Debug, PartialEq, Eq)]
pub enum ProcessEvent {
    /// A line (without the line terminator) was received on `stdout`.
    Stdout(Vec<u8>),
    /// A line (without the line terminator) was received on `stderr`.
    Stderr(Vec<u8>),
    /// `stdout` got closed (usually, the process exited).
    StdoutClosed,
}

/// What a [`ProcessEvent`] says.
pub enum Output {
    Stdout(Seq<u8>),
    Stderr(Seq<u8>),
    StdoutClosed,
}

impl View for ProcessEvent {
    type V = Output;

    open spec fn view(&self) -> Output {
        match self {
            ProcessEvent::Stdout(line) => Output::Stdout(line@),
            ProcessEvent::Stderr(line) => Output::Stderr(line@),
            ProcessEvent::StdoutClosed => Output::StdoutClosed,
        }
    }
}

/// What a list of events says.
pub open spec fn outputs(events: Seq<ProcessEvent>) -> Seq<Output> {
    Seq::new(events.len(), |i: int| events[i]@)
}

/// The events for `lines` on `stdout`.
pub open spec fn stdout_lines(lines: Seq<Seq<u8>>) -> Seq<Output> {
    Seq::new(lines.len(), |i: int| Output::Stdout(lines[i]))
}

/// The events for `lines` on `stderr`.
pub open spec fn stderr_lines(lines: Seq<Seq<u8>>) -> Seq<Output> {
    Seq::new(lines.len(), |i: int| Output::Stderr(lines[i]))
}

/// The result of one attempt to read from a pipe.
#[derive(Debug)]
pub enum ReadResult {
    /// The attempt was interrupted, and can be made again.
    Interrupted,
    /// The attempt failed.
    Failed,
    /// These bytes were read. If there are none, the pipe is closed.
    Read(Vec<u8>),
}

/// What a [`ReadResult`] says.
pub enum Reading {
    Interrupted,
    Failed,
    Read(Seq<u8>),
}

impl View for ReadResult {
    type V = Reading;

    open spec fn view(&self) -> Reading {
        match self {
            ReadResult::Interrupted => Reading::Interrupted,
            ReadResult::Failed => Reading::Failed,
            ReadResult::Read(chunk) => Reading::Read(chunk@),
        }
    }
}

/// The pipe to read from next.
#[derive(Clone, Copy, Debug, PartialEq, Eq, Structural)]
pub enum NextRead {
    Stderr,
    Stdout,
    /// Nothing can be read, the pipes have to be polled again.
    Nothing,
}

/// The state of the loop that reads both output pipes.
#[derive(Debug)]
pub struct OutputReader {
    stdout_buf: Vec<u8>,
    held: Vec<ProcessEvent>,
    stdout_open: bool,
    stderr_open: bool,
}

/// The state of an [`OutputReader`].
pub struct ReaderState {
    /// The line on `stdout` that is not complete yet.
    pub partial: Seq<u8>,
    /// The events from `stdout` that are not forwarded yet: `stderr` has to be looked at first.
    pub held: Seq<Output>,
    pub stdout_open: bool,
    pub stderr_open: bool,
}

impl View for OutputReader {
    type V = ReaderState;

    closed spec fn view(&self) -> ReaderState {
        ReaderState {
            partial: self.stdout_buf@,
            held: outputs(self.held@),
            stdout_open: self.stdout_open,
            stderr_open: self.stderr_open,
        }
    }
}

/// What reading from `stdout` does: complete lines are held, a partial one is kept. When the pipe
/// ends, a final line without terminator still counts as a line, and the end is held after it.
pub open spec fn after_stdout(s: ReaderState, read: Reading) -> ReaderState {
    match read {
        Reading::Interrupted => s,
        Reading::Read(chunk) if chunk.len() > 0 => ReaderState {
            partial: partial_line(s.partial + chunk),
            held: s.held + stdout_lines(complete_lines(s.partial + chunk)),
            ..s
        },
        _ => ReaderState {
            partial: Seq::empty(),
            held: s.held + if s.partial.len() > 0 {
                seq![Output::Stdout(s.partial), Output::StdoutClosed]
            } else {
                seq![Output::StdoutClosed]
            },
            stdout_open: false,
            ..s
        },
    }
}

/// The lines to report for a chunk that was read from `stderr`: all that are not empty, including
/// partial ones. If all of them are empty, one empty line stands for the chunk, so that no output
/// goes unnoticed.
pub open spec fn reported_lines(chunk: Seq<u8>) -> Seq<Seq<u8>> {
    let lines = nonempty_lines(split_on(chunk, NEWLINE));
    if lines.len() == 0 {
        seq![Seq::empty()]
    } else {
        lines
    }
}

/// What reading from `stderr` does: everything is forwarded right away.
pub open spec fn after_stderr(s: ReaderState, read: Reading) -> (ReaderState, Seq<Output>) {
    match read {
        Reading::Interrupted => (s, Seq::empty()),
        Reading::Read(chunk) if chunk.len() > 0 => (s, stderr_lines(reported_lines(chunk))),
        _ => (ReaderState { stderr_open: false, ..s }, Seq::empty()),
    }
}

/// What happens to the events from `stdout` when the pipes have been polled: they are forwarded if
/// there is nothing on `stderr`, and held otherwise (under a steady flow on `stderr`, for as long as
/// that lasts).
pub open spec fn after_poll(s: ReaderState, stderr_ready: bool) -> (ReaderState, Seq<Output>) {
    if s.stderr_open && stderr_ready {
        (s, Seq::empty())
    } else {
        (ReaderState { held: Seq::empty(), ..s }, s.held)
    }
}

/// What is read from next, given which pipes are readable or closed: `stdout` only if there is
/// nothing on `stderr`.
pub open spec fn next_pipe(s: ReaderState, stderr_ready: bool, stdout_ready: bool) -> NextRead {
    if s.stderr_open && stderr_ready {
        NextRead::Stderr
    } else if s.stdout_open && stdout_ready {
        NextRead::Stdout
    } else {
        NextRead::Nothing
    }
}

impl OutputReader {
    /// A reader of two open pipes, from which nothing has been read yet.
    pub fn new() -> (reader: Self)
        ensures
            reader@ == (ReaderState {
                partial: Seq::empty(),
                held: Seq::empty(),
                stdout_open: true,
                stderr_open: true,
            }),
    {
        let reader = OutputReader {
            stdout_buf: Vec::new(),
            held: Vec::new(),
            stdout_open: true,
            stderr_open: true,
        };
        assert(reader@.held =~= Seq::empty());
        reader
    }

    /// Whether any pipe is still open, or any event is held. The loop ends when none is.
    pub fn running(&self) -> (running: bool)
        ensures
            running == (self@.stdout_open || self@.stderr_open || self@.held.len() > 0),
    {
        self.stdout_open || self.stderr_open || self.held.len() > 0
    }

    /// Whether polling may wait for output. It must not while events are held: the program may not
    /// write anything before they are forwarded.
    pub fn poll_waits(&self) -> (waits: bool)
        ensures
            waits == (self@.held.len() == 0),
    {
        self.held.len() == 0
    }

    /// Whether `stdout` has to be polled. A closed pipe would report a hangup forever.
    pub fn polls_stdout(&self) -> (polls: bool)
        ensures
            polls == self@.stdout_open,
    {
        self.stdout_open
    }

    /// Whether `stderr` has to be polled.
    pub fn polls_stderr(&self) -> (polls: bool)
        ensures
            polls == self@.stderr_open,
    {
        self.stderr_open
    }

    /// Takes the result of polling `stderr`, and returns the events to forward: those that are
    /// held, if there is nothing on `stderr`.
    pub fn polled(&mut self, stderr_ready: bool) -> (events: Vec<ProcessEvent>)
        ensures
            (final(self)@, outputs(events@)) == after_poll(old(self)@, stderr_ready),
    {
        let mut events: Vec<ProcessEvent> = Vec::new();
        assert(outputs(events@) =~= Seq::empty());
        if !(self.stderr_open && stderr_ready) {
            core::mem::swap(&mut events, &mut self.held);
        }
        events
    }

    /// Chooses what to read from, given which pipes are readable or closed: `stdout` only if there
    /// is nothing on `stderr`.
    pub fn next_read(&self, stderr_ready: bool, stdout_ready: bool) -> (next: NextRead)
        ensures
            next == next_pipe(self@, stderr_ready, stdout_ready),
    {
        if self.stderr_open && stderr_ready {
            NextRead::Stderr
        } else if self.stdout_open && stdout_ready {
            NextRead::Stdout
        } else {
            NextRead::Nothing
        }
    }

    /// Takes the result of reading from `stderr`, and returns the events to forward.
    pub fn stderr_read(&mut self, read: ReadResult) -> (events: Vec<ProcessEvent>)
        ensures
            (final(self)@, outputs(events@)) == after_stderr(old(self)@, read@),
    {
        let mut events: Vec<ProcessEvent> = Vec::new();
        assert(outputs(events@) =~= Seq::empty());
        match read {
            ReadResult::Interrupted => {},
            ReadResult::Failed => {
                self.stderr_open = false;
            },
            ReadResult::Read(chunk) => {
                if chunk.len() == 0 {
                    self.stderr_open = false;
                } else {
                    let mut lines: Vec<Vec<u8>> = chunk_lines(chunk.as_slice());
                    if lines.len() == 0 {
                        assert(views(lines@) =~= Seq::empty());
                        let blank: Vec<u8> = Vec::new();
                        assert(blank@ =~= Seq::empty());
                        lines.push(blank);
                        assert(views(lines@) =~= seq![Seq::<u8>::empty()]);
                    }
                    let ghost all = views(lines@);
                    let mut i: usize = 0;
                    while i < lines.len()
                        invariant
                            i <= lines@.len(),
                            lines@.len() == all.len(),
                            forall|j: int| i <= j < all.len() ==> #[trigger] lines@[j]@ == all[j],
                            outputs(events@) == stderr_lines(all.take(i as int)),
                        decreases lines@.len() - i,
                    {
                        let mut line: Vec<u8> = Vec::new();
                        core::mem::swap(&mut line, &mut lines[i]);
                        let ghost before = outputs(events@);
                        events.push(ProcessEvent::Stderr(line));
                        assert(outputs(events@) =~= before.push(Output::Stderr(all[i as int])));
                        assert(stderr_lines(all.take(i + 1)) =~= before.push(
                            Output::Stderr(all[i as int]),
                        ));
                        i += 1;
                    }
                    assert(all.take(i as int) =~= all);
                }
            },
        }
        events
    }

    /// Takes the result of reading from `stdout`. The events that come of it are held until
    /// [`Self::polled`] returns them.
    pub fn stdout_read(&mut self, read: ReadResult)
        ensures
            final(self)@ == after_stdout(old(self)@, read@),
    {
        let closed: bool = match &read {
            ReadResult::Interrupted => {
                return;
            },
            ReadResult::Failed => true,
            ReadResult::Read(chunk) => chunk.len() == 0,
        };
        let ghost held = outputs(self.held@);
        if closed {
            self.stdout_open = false;
            let ghost partial = self.stdout_buf@;
            if self.stdout_buf.len() > 0 {
                let mut last: Vec<u8> = Vec::new();
                core::mem::swap(&mut last, &mut self.stdout_buf);
                self.held.push(ProcessEvent::Stdout(last));
                assert(outputs(self.held@) =~= held.push(Output::Stdout(partial)));
            }
            assert(self.stdout_buf@ =~= Seq::empty());
            let ghost before = outputs(self.held@);
            self.held.push(ProcessEvent::StdoutClosed);
            assert(outputs(self.held@) =~= before.push(Output::StdoutClosed));
            assert(self@.held =~= after_stdout(old(self)@, read@).held);
        } else if let ReadResult::Read(chunk) = &read {
            let ghost buffered = self.stdout_buf@;
            self.stdout_buf.extend_from_slice(chunk.as_slice());
            assert(self.stdout_buf@ =~= buffered + chunk@);
            let mut lines: Vec<Vec<u8>> = take_lines(&mut self.stdout_buf);
            let ghost all = views(lines@);
            let ghost taken = *self;
            let mut i: usize = 0;
            assert(outputs(self.held@) =~= held + stdout_lines(all.take(0)));
            while i < lines.len()
                invariant
                    i <= lines@.len(),
                    lines@.len() == all.len(),
                    forall|j: int| i <= j < all.len() ==> #[trigger] lines@[j]@ == all[j],
                    *self == (OutputReader { held: self.held, ..taken }),
                    outputs(self.held@) == held + stdout_lines(all.take(i as int)),
                decreases lines@.len() - i,
            {
                let mut line: Vec<u8> = Vec::new();
                core::mem::swap(&mut line, &mut lines[i]);
                let ghost before = outputs(self.held@);
                self.held.push(ProcessEvent::Stdout(line));
                assert(outputs(self.held@) =~= before.push(Output::Stdout(all[i as int])));
                assert(held + stdout_lines(all.take(i + 1)) =~= before.push(
                    Output::Stdout(all[i as int]),
                ));
                i += 1;
            }
            assert(all.take(i as int) =~= all);
        }
    }
}

/// Whatever is read from `stderr`, be it only a line terminator, is reported.
pub proof fn law_anything_on_stderr_is_reported(s: ReaderState, chunk: Seq<u8>)
    requires
        chunk.len() > 0,
    ensures
        after_stderr(s, Reading::Read(chunk)).0 == s,
        after_stderr(s, Reading::Read(chunk)).1.len() > 0,
        forall|i: int|
            0 <= i < after_stderr(s, Reading::Read(chunk)).1.len() ==> #[trigger] after_stderr(
                s,
                Reading::Read(chunk),
            ).1[i] is Stderr,
{
}

/// Something that happens to the pipes.
pub enum PipeStep {
    /// The program writes to `stderr`.
    WriteStderr(Seq<u8>),
    /// The program writes to `stdout`.
    WriteStdout(Seq<u8>),
    /// The program closes `stderr` (usually, it exits).
    EndStderr,
    /// The program closes `stdout` (usually, it exits).
    EndStdout,
    /// The reader finds out whether there is anything on `stderr`, be it the end of the pipe.
    Poll,
    /// The reader goes on with what it found out, and chooses the pipe to read from. What it found
    /// out about `stdout` decides nothing but that choice.
    Choose { stdout_ready: bool },
    /// The reader reads from the chosen pipe.
    Read(Reading),
}

/// The pipes and their reader.
pub struct Pipes {
    pub reader: ReaderState,
    /// What was written to `stderr`, and not read yet.
    pub stderr: Seq<u8>,
    /// What was written to `stdout`, and not read yet.
    pub stdout: Seq<u8>,
    /// Whether the program has closed `stderr`.
    pub stderr_ended: bool,
    /// Whether the program has closed `stdout`.
    pub stdout_ended: bool,
    /// How many bytes were read from `stderr`, and so forwarded.
    pub stderr_read: nat,
    /// The bytes that were read from `stdout`.
    pub stdout_read: Seq<u8>,
    /// Whether there was anything on `stderr` when it was polled, if it was since the last read.
    pub stderr_ready: Option<bool>,
    /// The pipe to read from.
    pub chosen: NextRead,
    /// The events that were forwarded.
    pub forwarded: Seq<Output>,
}

/// The bytes that a read took from the pipe.
pub open spec fn bytes_read(read: Reading) -> Seq<u8> {
    match read {
        Reading::Read(chunk) => chunk,
        _ => Seq::empty(),
    }
}

/// The pipes after a step.
pub open spec fn after_step(p: Pipes, step: PipeStep) -> Pipes {
    match step {
        PipeStep::WriteStderr(bytes) => Pipes { stderr: p.stderr + bytes, ..p },
        PipeStep::WriteStdout(bytes) => Pipes { stdout: p.stdout + bytes, ..p },
        PipeStep::EndStderr => Pipes { stderr_ended: true, ..p },
        PipeStep::EndStdout => Pipes { stdout_ended: true, ..p },
        PipeStep::Poll => Pipes {
            stderr_ready: Some(p.stderr.len() > 0 || p.stderr_ended),
            ..p
        },
        PipeStep::Choose { stdout_ready } => {
            let ready = p.stderr_ready == Some(true);
            let (reader, events) = after_poll(p.reader, ready);
            Pipes {
                reader,
                stderr_ready: None,
                chosen: next_pipe(p.reader, ready, stdout_ready),
                forwarded: p.forwarded + events,
                ..p
            }
        },
        PipeStep::Read(read) => match p.chosen {
            NextRead::Stderr => {
                let (reader, events) = after_stderr(p.reader, read);
                Pipes {
                    reader,
                    stderr: p.stderr.skip(bytes_read(read).len() as int),
                    stderr_read: p.stderr_read + bytes_read(read).len(),
                    stderr_ready: None,
                    chosen: NextRead::Nothing,
                    forwarded: p.forwarded + events,
                    ..p
                }
            },
            NextRead::Stdout => Pipes {
                reader: after_stdout(p.reader, read),
                stdout: p.stdout.skip(bytes_read(read).len() as int),
                stdout_read: p.stdout_read + bytes_read(read),
                stderr_ready: None,
                chosen: NextRead::Nothing,
                ..p
            },
            NextRead::Nothing => p,
        },
    }
}

/// Whether a read can give this on a pipe that holds `unread`: the bytes are the first of those, and
/// there are none only if the program has closed the pipe and all of them have been read.
pub open spec fn can_read(unread: Seq<u8>, ended: bool, read: Reading) -> bool {
    match read {
        Reading::Interrupted => true,
        Reading::Read(chunk) => chunk.is_prefix_of(unread) && (chunk.len() == 0 ==> ended
            && unread.len() == 0),
        Reading::Failed => false,
    }
}

/// Whether a step can happen, as long as no read fails. Nothing is written to a pipe that has ended,
/// and the reader goes on only after it has polled the pipes since its last read.
pub open spec fn possible(p: Pipes, step: PipeStep) -> bool {
    match step {
        PipeStep::WriteStderr(_) => !p.stderr_ended,
        PipeStep::WriteStdout(_) => !p.stdout_ended,
        PipeStep::EndStderr => true,
        PipeStep::EndStdout => true,
        PipeStep::Poll => true,
        PipeStep::Choose { .. } => p.stderr_ready is Some,
        PipeStep::Read(read) => match p.chosen {
            NextRead::Stderr => can_read(p.stderr, p.stderr_ended, read),
            NextRead::Stdout => can_read(p.stdout, p.stdout_ended, read),
            NextRead::Nothing => true,
        },
    }
}

/// The pipes after all `steps`.
pub open spec fn after_steps(p: Pipes, steps: Seq<PipeStep>) -> Pipes
    decreases steps.len(),
{
    if steps.len() == 0 {
        p
    } else {
        after_step(after_steps(p, steps.drop_last()), steps.last())
    }
}

/// Whether all `steps` can happen, one after the other.
pub open spec fn all_possible(p: Pipes, steps: Seq<PipeStep>) -> bool
    decreases steps.len(),
{
    steps.len() > 0 ==> all_possible(p, steps.drop_last()) && possible(
        after_steps(p, steps.drop_last()),
        steps.last(),
    )
}

/// Whether the state of the pipes is a possible one: the reader takes a pipe for closed only if the
/// program has closed it and everything has been read, and never reads from such a pipe.
pub open spec fn pipes_wf(p: Pipes) -> bool {
    &&& !p.reader.stderr_open ==> p.stderr_ended && p.stderr.len() == 0
    &&& !p.reader.stdout_open ==> p.stdout_ended && p.stdout.len() == 0
    &&& p.chosen == NextRead::Stderr ==> p.reader.stderr_open
    &&& p.chosen == NextRead::Stdout ==> p.reader.stdout_open
}

/// Those of the `events` that come from `stdout`, in order.
pub open spec fn from_stdout(events: Seq<Output>) -> Seq<Output>
    decreases events.len(),
{
    if events.len() == 0 {
        Seq::empty()
    } else if events.last() is Stderr {
        from_stdout(events.drop_last())
    } else {
        from_stdout(events.drop_last()).push(events.last())
    }
}

proof fn lemma_from_stdout(a: Seq<Output>, b: Seq<Output>)
    ensures
        from_stdout(a + b) == from_stdout(a) + from_stdout(b),
        from_stdout(b).len() <= b.len(),
        (forall|i: int| 0 <= i < b.len() ==> #[trigger] b[i] is Stderr) ==> from_stdout(b).len()
            == 0,
        (forall|i: int| 0 <= i < b.len() ==> #[trigger] b[i] !is Stderr) ==> from_stdout(b) == b,
    decreases b.len(),
{
    if b.len() == 0 {
        assert(a + b =~= a);
        assert(from_stdout(a) + from_stdout(b) =~= from_stdout(a));
    } else {
        let front = b.drop_last();
        lemma_from_stdout(a, front);
        assert((a + b).drop_last() =~= a + front);
        assert(forall|i: int| 0 <= i < front.len() ==> front[i] == #[trigger] b[i]);
        assert(from_stdout(a + b) =~= from_stdout(a) + from_stdout(b));
        assert(front.push(b.last()) =~= b);
    }
}

/// Every step keeps the state of the pipes a possible one.
proof fn lemma_pipes_wf(p: Pipes, steps: Seq<PipeStep>)
    requires
        pipes_wf(p),
        all_possible(p, steps),
    ensures
        pipes_wf(after_steps(p, steps)),
    decreases steps.len(),
{
    if steps.len() > 0 {
        lemma_pipes_wf(p, steps.drop_last());
    }
}

/// Anything the program wrote to `stderr` *before* it wrote its reply to `stdout` is delivered before
/// the reply. Take any moment `p`: whatever happens after it, no event from `stdout` that was not
/// read before that moment is forwarded until all that was on `stderr` at that moment has been read,
/// which is when it is forwarded.
pub proof fn law_stderr_comes_first(p: Pipes, steps: Seq<PipeStep>)
    requires
        pipes_wf(p),
        all_possible(p, steps),
    ensures
        ({
            let q = after_steps(p, steps);
            &&& pipes_wf(q)
            &&& q.stderr_read < p.stderr_read + p.stderr.len() ==> from_stdout(q.forwarded).len()
                <= from_stdout(p.forwarded).len() + p.reader.held.len()
        }),
{
    lemma_pipes_wf(p, steps);
    lemma_stderr_comes_first(p, steps);
}

/// As long as not all that was on `stderr` has been read, what is read from `stdout` stays held: a
/// poll that finds nothing on `stderr` was made before that moment, and nothing has been read since.
proof fn lemma_stderr_comes_first(p: Pipes, steps: Seq<PipeStep>)
    requires
        pipes_wf(p),
        all_possible(p, steps),
    ensures
        ({
            let q = after_steps(p, steps);
            &&& q.stderr_read + q.stderr.len() >= p.stderr_read + p.stderr.len()
            &&& q.stderr_read < p.stderr_read + p.stderr.len() ==> {
                &&& from_stdout(q.forwarded).len() <= from_stdout(p.forwarded).len()
                    + p.reader.held.len()
                &&& q.stderr_ready == Some(false) ==> from_stdout(q.forwarded).len()
                    + q.reader.held.len() <= from_stdout(p.forwarded).len() + p.reader.held.len()
            }
        }),
    decreases steps.len(),
{
    if steps.len() > 0 {
        let front = steps.drop_last();
        lemma_pipes_wf(p, front);
        lemma_stderr_comes_first(p, front);
        let q = after_steps(p, front);
        let r = after_step(q, steps.last());
        match steps.last() {
            PipeStep::Choose { .. } => {
                let ready = q.stderr_ready == Some(true);
                lemma_from_stdout(q.forwarded, after_poll(q.reader, ready).1);
                assert(!ready ==> q.stderr_ready == Some(false));
            },
            PipeStep::Read(read) => {
                lemma_from_stdout(q.forwarded, after_stderr(q.reader, read).1);
                assert(from_stdout(r.forwarded).len() == from_stdout(q.forwarded).len());
            },
            _ => {},
        }
    }
}

/// Everything that is written to `stdout` in these steps, in order.
pub open spec fn written_to_stdout(steps: Seq<PipeStep>) -> Seq<u8>
    decreases steps.len(),
{
    if steps.len() == 0 {
        Seq::empty()
    } else {
        match steps.last() {
            PipeStep::WriteStdout(bytes) => written_to_stdout(steps.drop_last()) + bytes,
            _ => written_to_stdout(steps.drop_last()),
        }
    }
}

/// Whether nothing has happened yet: both pipes are open and empty, and nothing has been read.
pub open spec fn just_spawned(p: Pipes) -> bool {
    &&& p.reader == (ReaderState {
        partial: Seq::empty(),
        held: Seq::empty(),
        stdout_open: true,
        stderr_open: true,
    })
    &&& p.stderr.len() == 0
    &&& p.stdout.len() == 0
    &&& !p.stderr_ended
    &&& !p.stdout_ended
    &&& p.stderr_read == 0
    &&& p.stdout_read.len() == 0
    &&& p.stderr_ready is None
    &&& p.chosen == NextRead::Nothing
    &&& p.forwarded.len() == 0
}

/// The events for all of `text` on `stdout`, after which the pipe is closed: its complete lines, then
/// the rest as one more line, if there is any, and then the end.
pub open spec fn events_of_all(text: Seq<u8>) -> Seq<Output> {
    stdout_lines(complete_lines(text)) + if partial_line(text).len() > 0 {
        seq![Output::Stdout(partial_line(text)), Output::StdoutClosed]
    } else {
        seq![Output::StdoutClosed]
    }
}

/// Which events come from `stdout` depends only on what was written there, not on the chunks in which
/// it is read, on the polls between the reads, or on anything on `stderr`. Whatever happens to the
/// pipes, the events that were forwarded and then those that are held are the complete lines of the
/// bytes that were read, in order. Once the end of `stdout` has been read, these bytes are all that
/// was written, a final line without terminator counts as a line, and the end is reported exactly
/// once, after everything else.
pub proof fn law_stdout_is_cut_into_lines(p: Pipes, steps: Seq<PipeStep>)
    requires
        just_spawned(p),
        all_possible(p, steps),
    ensures
        ({
            let q = after_steps(p, steps);
            let events = from_stdout(q.forwarded) + q.reader.held;
            &&& q.stdout_read + q.stdout == written_to_stdout(steps)
            &&& q.reader.stdout_open ==> events == stdout_lines(complete_lines(q.stdout_read))
                && q.reader.partial == partial_line(q.stdout_read)
            &&& !q.reader.stdout_open ==> events == events_of_all(written_to_stdout(steps))
            &&& !q.reader.stdout_open && q.reader.held.len() == 0 ==> from_stdout(q.forwarded)
                == events_of_all(written_to_stdout(steps))
        }),
{
    lemma_stdout_run(p, steps);
    let q = after_steps(p, steps);
    if q.reader.held.len() == 0 {
        assert(from_stdout(q.forwarded) + q.reader.held =~= from_stdout(q.forwarded));
    }
}

/// The events from `stdout` so far, and what is known of the bytes they come from.
spec fn stdout_invariant(q: Pipes, written: Seq<u8>) -> bool {
    let events = from_stdout(q.forwarded) + q.reader.held;
    &&& pipes_wf(q)
    &&& q.stdout_read + q.stdout == written
    &&& forall|i: int| 0 <= i < q.reader.held.len() ==> #[trigger] q.reader.held[i] !is Stderr
    &&& q.reader.stdout_open ==> events == stdout_lines(complete_lines(q.stdout_read))
        && q.reader.partial == partial_line(q.stdout_read)
    &&& !q.reader.stdout_open ==> events == events_of_all(written)
}

proof fn lemma_stdout_run(p: Pipes, steps: Seq<PipeStep>)
    requires
        just_spawned(p),
        all_possible(p, steps),
    ensures
        stdout_invariant(after_steps(p, steps), written_to_stdout(steps)),
    decreases steps.len(),
{
    if steps.len() == 0 {
        assert(p.stdout_read + p.stdout =~= Seq::empty());
        assert(p.reader.partial =~= partial_line(p.stdout_read));
        assert(from_stdout(p.forwarded) + p.reader.held =~= stdout_lines(
            complete_lines(p.stdout_read),
        ));
    } else {
        let front = steps.drop_last();
        lemma_stdout_run(p, front);
        let q = after_steps(p, front);
        match steps.last() {
            PipeStep::Choose { .. } => {
                lemma_choose_keeps_stdout(q, steps.last(), written_to_stdout(front));
            },
            PipeStep::Read(read) => {
                if q.chosen == NextRead::Stdout {
                    lemma_read_stdout(q, read, written_to_stdout(front));
                } else if q.chosen == NextRead::Stderr {
                    lemma_from_stdout(q.forwarded, after_stderr(q.reader, read).1);
                    let r = after_step(q, steps.last());
                    assert(from_stdout(r.forwarded) =~= from_stdout(q.forwarded));
                }
            },
            PipeStep::WriteStdout(bytes) => {
                assert(q.stdout_read + (q.stdout + bytes) =~= written_to_stdout(front) + bytes);
            },
            _ => {},
        }
    }
}

proof fn lemma_choose_keeps_stdout(q: Pipes, step: PipeStep, written: Seq<u8>)
    requires
        step is Choose,
        stdout_invariant(q, written),
        possible(q, step),
    ensures
        stdout_invariant(after_step(q, step), written),
{
    let (reader, events) = after_poll(q.reader, q.stderr_ready == Some(true));
    let r = after_step(q, step);
    lemma_from_stdout(q.forwarded, events);
    assert(from_stdout(events) + reader.held =~= q.reader.held);
    assert(from_stdout(r.forwarded) + r.reader.held =~= from_stdout(q.forwarded) + q.reader.held);
}

proof fn lemma_read_stdout(q: Pipes, read: Reading, written: Seq<u8>)
    requires
        q.chosen == NextRead::Stdout,
        stdout_invariant(q, written),
        possible(q, PipeStep::Read(read)),
    ensures
        stdout_invariant(after_step(q, PipeStep::Read(read)), written),
{
    let r = after_step(q, PipeStep::Read(read));
    let done = from_stdout(q.forwarded);
    let chunk = bytes_read(read);
    assert(r.stdout_read + r.stdout =~= q.stdout_read + q.stdout) by {
        assert(chunk + q.stdout.skip(chunk.len() as int) =~= q.stdout);
    }
    if chunk.len() > 0 {
        law_lines_across_chunks(q.stdout_read, chunk);
        let more = complete_lines(partial_line(q.stdout_read) + chunk);
        let lines = complete_lines(q.stdout_read);
        assert(done + (q.reader.held + stdout_lines(more)) =~= done + q.reader.held + stdout_lines(
            more,
        ));
        assert(stdout_lines(lines) + stdout_lines(more) =~= stdout_lines(lines + more));
    } else {
        assert(r.stdout_read =~= q.stdout_read);
        if read is Read {
            assert(q.stdout_read =~= written);
            assert(done + r.reader.held =~= events_of_all(written));
        }
    }
}

/// When both pipes are closed, one more poll forwards all events that are held, whatever it finds,
/// and then the reader has nothing more to do.
pub proof fn law_reader_comes_to_an_end(s: ReaderState, stderr_ready: bool)
    requires
        !s.stdout_open,
        !s.stderr_open,
    ensures
        after_poll(s, stderr_ready).1 == s.held,
        after_poll(s, stderr_ready).0.held.len() == 0,
        !after_poll(s, stderr_ready).0.stdout_open,
        !after_poll(s, stderr_ready).0.stderr_open,
{
}

/// The view of an event says which pipe it is about, and holds the whole line.
pub proof fn law_event_views(event: ProcessEvent, events: Seq<ProcessEvent>, i: int)
    ensures
        event matches ProcessEvent::Stdout(line) ==> event@ == Output::Stdout(line@),
        event matches ProcessEvent::Stderr(line) ==> event@ == Output::Stderr(line@),
        event is StdoutClosed ==> event@ == Output::StdoutClosed,
        outputs(events).len() == events.len(),
        0 <= i < events.len() ==> outputs(events)[i] == events[i]@,
{
}

/// The view of a read holds all bytes that were read.
pub proof fn law_read_views(read: ReadResult)
    ensures
        read is Interrupted ==> read@ == Reading::Interrupted,
        read is Failed ==> read@ == Reading::Failed,
        read matches ReadResult::Read(chunk) ==> read@ == Reading::Read(chunk@),
{
}

} // verus!
