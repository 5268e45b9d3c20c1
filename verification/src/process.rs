//! The end of an external process.
use vstd::prelude::*;

verus! {

/// What has been done to end a process.
#[derive(Debug)]
pub struct Reaper {
    reaped: bool,
}

/// What is to be done to end a process.
#[derive(Clone, Copy, Debug, PartialEq, Eq, Structural)]
pub enum KillStep {
    /// Nothing (more).
    Done,
    /// Look whether the process has exited on its own.
    CheckExit,
    /// Kill the process and reap it.
    KillAndReap,
}

impl View for Reaper {
    type V = bool;

    /// Whether the process has been reaped, or is about to be.
    closed spec fn view(&self) -> bool {
        self.reaped
    }
}

/// How ending a process begins, given whether it has been reaped already.
pub open spec fn first_step(reaped: bool) -> KillStep {
    if reaped {
        KillStep::Done
    } else {
        KillStep::CheckExit
    }
}

/// How ending a process goes on, given whether it has exited on its own.
pub open spec fn second_step(exited: bool) -> KillStep {
    if exited {
        KillStep::Done
    } else {
        KillStep::KillAndReap
    }
}

impl Reaper {
    /// For a process that has just been spawned.
    pub fn new() -> (reaper: Self)
        ensures
            !reaper@,
    {
        Reaper { reaped: false }
    }

    /// Begins to kill (if it's still running) and reap the process. Can safely be called multiple
    /// times: only the first call has anything to do.
    pub fn kill(&mut self) -> (step: KillStep)
        ensures
            final(self)@,
            step == if old(self)@ {
                KillStep::Done
            } else {
                KillStep::CheckExit
            },
            step == first_step(old(self)@),
    {
        if self.reaped {
            return KillStep::Done;
        }
        self.reaped = true;
        KillStep::CheckExit
    }

    /// Goes on when it is known whether the process has exited on its own.
    pub fn checked(&self, exited: bool) -> (step: KillStep)
        ensures
            step == if exited {
                KillStep::Done
            } else {
                KillStep::KillAndReap
            },
            step == second_step(exited),
    {
        if exited {
            KillStep::Done
        } else {
            KillStep::KillAndReap
        }
    }
}

/// What is known of a process.
#[derive(Clone, Copy, Debug, PartialEq, Eq, Structural)]
pub enum ExitCheck {
    /// It has exited; the value says whether with success.
    Exited(bool),
    /// It is still running.
    Running,
    /// That could not be found out.
    Failed,
}

/// What is to be done in the wait for a process to exit.
#[derive(Clone, Copy, Debug, PartialEq, Eq, Structural)]
pub enum WaitStep {
    /// Sleep briefly, and check again.
    Sleep,
    /// The wait is over, with this exit status, or without one.
    Return(Option<bool>),
}

/// What is to be done in one round of waiting for a process to exit.
pub open spec fn wait_step(check: ExitCheck, before_deadline: bool) -> WaitStep {
    match check {
        ExitCheck::Exited(success) => WaitStep::Return(Some(success)),
        ExitCheck::Running => if before_deadline {
            WaitStep::Sleep
        } else {
            WaitStep::Return(None)
        },
        ExitCheck::Failed => WaitStep::Return(None),
    }
}

/// One round of waiting for a process to exit, for as long as the deadline is not over.
pub fn wait_timeout(check: ExitCheck, before_deadline: bool) -> (step: WaitStep)
    ensures
        step == match check {
            ExitCheck::Exited(success) => WaitStep::Return(Some(success)),
            ExitCheck::Running => if before_deadline {
                WaitStep::Sleep
            } else {
                WaitStep::Return(None)
            },
            ExitCheck::Failed => WaitStep::Return(None),
        },
        step == wait_step(check, before_deadline),
{
    match check {
        ExitCheck::Exited(success) => WaitStep::Return(Some(success)),
        ExitCheck::Running => {
            if before_deadline {
                WaitStep::Sleep
            } else {
                WaitStep::Return(None)
            }
        },
        ExitCheck::Failed => WaitStep::Return(None),
    }
}

/// A process is killed exactly if it has not been reaped before and has not exited on its own; then
/// and only then it is looked at at all. So ending it a second time does nothing.
pub proof fn law_processes_are_killed_once(reaped: bool, exited: bool)
    ensures
        first_step(reaped) != KillStep::KillAndReap,
        first_step(reaped) == KillStep::CheckExit <==> !reaped,
        second_step(exited) != KillStep::CheckExit,
        second_step(exited) == KillStep::KillAndReap <==> !exited,
{
}

/// The wait goes on exactly as long as the process is known to be running and the deadline is not
/// over. It returns the exit status of a process that has exited, even after the deadline, and none
/// in any other case.
pub proof fn law_waits_for_exit(check: ExitCheck, before_deadline: bool)
    ensures
        wait_step(check, before_deadline) == WaitStep::Sleep <==> check == ExitCheck::Running
            && before_deadline,
        forall|success: bool| #[trigger]
            wait_step(check, before_deadline) == WaitStep::Return(Some(success)) <==> check
                == ExitCheck::Exited(success),
{
}

} // verus!
