//! The external mutator: how it is set up, and what is known of the running process.
use vstd::prelude::*;
use vstd::utf8::encode_utf8;
use crate::bytes::views;
use crate::time::{saturating_sum, Duration};

verus! {

/// The command line switch that is appended to the arguments of the external mutator process,
/// so it can tell that it's running as mutator for the fuzzer.
pub const EXTERNAL_MUTATOR_SWITCH: &'static str = "--mutator";

/// The default timeout for a single mutation roundtrip to the external process, in seconds.
pub const DEFAULT_EXTERNAL_MUTATOR_TIMEOUT_SECS: u64 = 1;

/// The default additional time a freshly spawned process gets to answer its first request
/// (for example, for interpreter startup), in seconds.
pub const DEFAULT_EXTERNAL_MUTATOR_STARTUP_TIMEOUT_SECS: u64 = 5;

/// How long to wait for the process to exit on its own (after closing its stdin)
/// when the mutator is dropped, before killing it, in milliseconds.
pub const SHUTDOWN_GRACE_PERIOD_MILLIS: u64 = 200;

/// How long to wait for the exit status of a process that closed its stdout, in milliseconds.
pub const EXIT_STATUS_WAIT_MILLIS: u64 = 100;

/// Why the external process could not be started.
#[derive(Clone, Copy, Debug, PartialEq, Eq, Structural)]
pub enum Error {
    /// The operating system refused, with this code.
    Os(i32),
    /// The process is running, but its pipes are not there.
    IllegalState,
}

/// A running instance of the external process.
#[derive(Clone, Copy, Debug, PartialEq, Eq, Structural)]
pub struct Process {
    /// The process id.
    pub pid: u32,
    /// The number of replies this instance sent so far.
    pub replies: usize,
}

/// Forwards every mutation to an external program.
#[derive(Debug)]
pub struct ExternalProcessMutator {
    name: String,
    program: Vec<u8>,
    args: Vec<Vec<u8>>,
    timeout: Duration,
    startup_timeout: Duration,
    kill_on_stderr: bool,
    process: Option<Process>,
    spawn_count: usize,
    next_id: u64,
}

/// What an [`ExternalProcessMutator`] holds. Timeouts are in nanoseconds.
pub struct MutatorModel {
    pub name: Seq<char>,
    pub program: Seq<u8>,
    pub args: Seq<Seq<u8>>,
    pub timeout: nat,
    pub startup_timeout: nat,
    pub kill_on_stderr: bool,
    /// The running process, if any.
    pub process: Option<Process>,
    /// How often the process has been spawned so far.
    pub spawn_count: nat,
    /// The id of the next request.
    pub next_id: u64,
}

impl View for ExternalProcessMutator {
    type V = MutatorModel;

    closed spec fn view(&self) -> MutatorModel {
        MutatorModel {
            name: self.name@,
            program: self.program@,
            args: views(self.args@),
            timeout: self.timeout@,
            startup_timeout: self.startup_timeout@,
            kill_on_stderr: self.kill_on_stderr,
            process: self.process,
            spawn_count: self.spawn_count as nat,
            next_id: self.next_id,
        }
    }
}

/// The arguments to start the program with: the user's own, and then the switch.
pub open spec fn full_args(args: Seq<Seq<u8>>) -> Seq<Seq<u8>> {
    args.push(encode_utf8(EXTERNAL_MUTATOR_SWITCH@))
}

/// A mutator with the default settings whose process has just been spawned for the first time.
pub open spec fn fresh_mutator(program: Seq<u8>, args: Seq<Seq<u8>>, pid: u32) -> MutatorModel {
    MutatorModel {
        name: "ExternalProcessMutator"@,
        program,
        args,
        timeout: 1_000_000_000,
        startup_timeout: 5_000_000_000,
        kill_on_stderr: false,
        process: Some(Process { pid, replies: 0 }),
        spawn_count: 1,
        next_id: 0,
    }
}

/// No process is running any more.
pub open spec fn killed(m: MutatorModel) -> MutatorModel {
    MutatorModel { process: None, ..m }
}

/// A new process is running, which has not answered anything yet.
pub open spec fn spawned(m: MutatorModel, pid: u32) -> MutatorModel {
    MutatorModel {
        process: Some(Process { pid, replies: 0 }),
        spawn_count: m.spawn_count + 1,
        ..m
    }
}

/// The timeout for the next request: a process that has not answered anything yet gets the startup
/// timeout on top.
pub open spec fn timeout_now(m: MutatorModel) -> nat {
    match m.process {
        Some(process) if process.replies == 0 => saturating_sum(m.timeout, m.startup_timeout),
        _ => m.timeout,
    }
}

/// The arguments to start the external program with: `args`, followed by the switch.
pub fn command_args(args: &Vec<Vec<u8>>) -> (all: Vec<Vec<u8>>)
    ensures
        views(all@) == full_args(views(args@)),
{
    let mut all: Vec<Vec<u8>> = Vec::new();
    let mut i: usize = 0;
    while i < args.len()
        invariant
            i <= args@.len(),
            all@.len() == i,
            forall|j: int| 0 <= j < i ==> views(all@)[j] == views(args@)[j],
        decreases args@.len() - i,
    {
        all.push(vstd::slice::slice_to_vec(args[i].as_slice()));
        i += 1;
    }
    all.push(vstd::slice::slice_to_vec(EXTERNAL_MUTATOR_SWITCH.as_bytes()));
    assert(views(all@) =~= full_args(views(args@)));
    all
}

impl ExternalProcessMutator {
    /// Creates a new mutator for the external `program` with the given `args`, from the outcome of
    /// spawning it (with [`command_args`]): the process id, or the reason why it could not be
    /// spawned, which is returned.
    ///
    /// It uses the default timeouts, and ignores output on stderr by default.
    pub fn new(program: Vec<u8>, args: Vec<Vec<u8>>, spawn: Result<u32, Error>) -> (mutator: Result<
        Self,
        Error,
    >)
        ensures
            match mutator {
                Ok(m) => spawn matches Ok(pid) && m@ == fresh_mutator(program@, views(args@), pid),
                Err(err) => spawn == Err::<u32, Error>(err),
            },
    {
        let mut mutator = ExternalProcessMutator {
            name: "ExternalProcessMutator".to_owned(),
            program,
            args,
            timeout: Duration::from_secs(DEFAULT_EXTERNAL_MUTATOR_TIMEOUT_SECS),
            startup_timeout: Duration::from_secs(DEFAULT_EXTERNAL_MUTATOR_STARTUP_TIMEOUT_SECS),
            kill_on_stderr: false,
            process: None,
            spawn_count: 0,
            next_id: 0,
        };
        match spawn {
            Ok(pid) => {
                mutator.record_spawn(pid);
                Ok(mutator)
            },
            Err(err) => Err(err),
        }
    }

    /// Sets the timeout for a single mutation roundtrip (sending the input and receiving the
    /// result).
    #[must_use]
    pub fn with_timeout(self, timeout: Duration) -> (mutator: Self)
        ensures
            mutator@ == (MutatorModel { timeout: timeout@, ..self@ }),
    {
        ExternalProcessMutator { timeout, ..self }
    }

    /// Sets the additional time a freshly (re)spawned process gets to answer its *first* request.
    ///
    /// This avoids endless respawn loops if the program's startup (e.g., of an interpreter)
    /// takes longer than the regular [`Self::timeout`].
    #[must_use]
    pub fn with_startup_timeout(self, startup_timeout: Duration) -> (mutator: Self)
        ensures
            mutator@ == (MutatorModel { startup_timeout: startup_timeout@, ..self@ }),
    {
        ExternalProcessMutator { startup_timeout, ..self }
    }

    /// Sets whether the process should be killed and respawned if it writes anything to stderr.
    #[must_use]
    pub fn with_kill_on_stderr(self, kill_on_stderr: bool) -> (mutator: Self)
        ensures
            mutator@ == (MutatorModel { kill_on_stderr, ..self@ }),
    {
        ExternalProcessMutator { kill_on_stderr, ..self }
    }

    /// Sets a custom name for this mutator.
    #[must_use]
    pub fn with_name(self, name: String) -> (mutator: Self)
        ensures
            mutator@ == (MutatorModel { name: name@, ..self@ }),
    {
        ExternalProcessMutator { name, ..self }
    }

    /// The name of this mutator.
    pub fn name(&self) -> (name: &String)
        ensures
            name@ == self@.name,
    {
        &self.name
    }

    /// The timeout for a single mutation roundtrip.
    #[must_use]
    pub fn timeout(&self) -> (timeout: Duration)
        ensures
            timeout@ == self@.timeout,
    {
        self.timeout
    }

    /// Sets the timeout for a single mutation roundtrip.
    pub fn set_timeout(&mut self, timeout: Duration)
        ensures
            final(self)@ == (MutatorModel { timeout: timeout@, ..old(self)@ }),
    {
        self.timeout = timeout;
    }

    /// The additional time a freshly (re)spawned process gets to answer its first request.
    #[must_use]
    pub fn startup_timeout(&self) -> (timeout: Duration)
        ensures
            timeout@ == self@.startup_timeout,
    {
        self.startup_timeout
    }

    /// Sets the additional time a freshly (re)spawned process gets to answer its first request.
    pub fn set_startup_timeout(&mut self, startup_timeout: Duration)
        ensures
            final(self)@ == (MutatorModel { startup_timeout: startup_timeout@, ..old(self)@ }),
    {
        self.startup_timeout = startup_timeout;
    }

    /// If the process gets killed and respawned whenever it writes anything to stderr.
    #[must_use]
    pub fn kill_on_stderr(&self) -> (kill: bool)
        ensures
            kill == self@.kill_on_stderr,
    {
        self.kill_on_stderr
    }

    /// Sets if the process gets killed and respawned whenever it writes anything to stderr.
    pub fn set_kill_on_stderr(&mut self, kill_on_stderr: bool)
        ensures
            final(self)@ == (MutatorModel { kill_on_stderr, ..old(self)@ }),
    {
        self.kill_on_stderr = kill_on_stderr;
    }

    /// How often the external process has been spawned so far (including the initial spawn).
    #[must_use]
    pub fn spawn_count(&self) -> (count: usize)
        ensures
            count == self@.spawn_count,
    {
        self.spawn_count
    }

    /// The process id of the currently running external process, if any.
    #[must_use]
    pub fn pid(&self) -> (pid: Option<u32>)
        ensures
            pid == match self@.process {
                Some(process) => Some(process.pid),
                None => None,
            },
    {
        match &self.process {
            Some(process) => Some(process.pid),
            None => None,
        }
    }

    /// The number of replies that the running process sent so far, 0 if none is running.
    pub fn replies(&self) -> (replies: usize)
        ensures
            replies == match self@.process {
                Some(process) => process.replies,
                None => 0,
            },
    {
        match &self.process {
            Some(process) => process.replies,
            None => 0,
        }
    }

    /// The external program.
    pub fn program(&self) -> (program: &[u8])
        ensures
            program@ == self@.program,
    {
        self.program.as_slice()
    }

    /// The arguments to start the external program with, including the switch.
    pub fn args(&self) -> (args: Vec<Vec<u8>>)
        ensures
            views(args@) == full_args(self@.args),
    {
        command_args(&self.args)
    }

    /// The timeout for the next request, including the startup timeout for fresh processes.
    pub fn effective_timeout(&self) -> (timeout: Duration)
        ensures
            timeout@ == timeout_now(self@),
    {
        match &self.process {
            Some(process) => {
                if process.replies == 0 {
                    self.timeout.saturating_add(self.startup_timeout)
                } else {
                    self.timeout
                }
            },
            None => self.timeout,
        }
    }

    /// Checks if the mutated bytes of a (part of an) input exceed the max size.
    pub fn exceeds_max_size(&self, len: usize, max_size: usize) -> (exceeds: bool)
        ensures
            exceeds == (len > max_size),
    {
        len > max_size
    }

    /// The process is gone (it was killed and reaped).
    pub(crate) fn record_kill(&mut self)
        ensures
            final(self)@ == killed(old(self)@),
    {
        self.process = None;
    }

    /// A new process is running.
    pub(crate) fn record_spawn(&mut self, pid: u32)
        requires
            old(self)@.spawn_count < usize::MAX,
        ensures
            final(self)@ == spawned(old(self)@, pid),
    {
        self.process = Some(Process { pid, replies: 0 });
        self.spawn_count = self.spawn_count + 1;
    }

    /// The running process sent one more reply.
    pub(crate) fn record_reply(&mut self)
        requires
            old(self)@.process matches Some(process) && process.replies < usize::MAX,
        ensures
            final(self)@ == one_more_reply(old(self)@),
    {
        match self.process {
            Some(process) => {
                self.process = Some(Process { pid: process.pid, replies: process.replies + 1 });
            },
            None => {},
        }
    }

    /// Takes the id for a new request.
    pub(crate) fn take_id(&mut self) -> (id: u64)
        ensures
            id == old(self)@.next_id,
            final(self)@ == (MutatorModel { next_id: successor(old(self)@.next_id), ..old(self)@ }),
    {
        let id: u64 = self.next_id;
        self.next_id = if id == u64::MAX { 0 } else { id + 1 };
        id
    }
}

/// The running process has sent one more reply.
pub open spec fn one_more_reply(m: MutatorModel) -> MutatorModel {
    match m.process {
        Some(process) => MutatorModel {
            process: Some(Process { pid: process.pid, replies: (process.replies + 1) as usize }),
            ..m
        },
        None => m,
    }
}

/// The id after `id`. The ids start again at 0 when they are used up.
pub open spec fn successor(id: u64) -> u64 {
    if id == u64::MAX {
        0
    } else {
        (id + 1) as u64
    }
}

} // verus!
