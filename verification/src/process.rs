//! One spawned process and the stream endpoints it owns. A handle is
//! created in the spawned state, moves to exited exactly once — waiting on
//! an already exited handle is a contract violation, not a recoverable
//! error — and its owned pipe ends can be released in every state, so an
//! abandoned handle never leaves endpoints open.

use vstd::prelude::*;
use crate::command::{Classification, ExitStatus, spec_classify};

verus! {

/// Where a handle stands: running, or exited exactly once.
#[derive(PartialEq, Eq, Structural, Clone, Copy, Debug)]
pub enum HandleState {
    Spawned,
    Exited(ExitStatus),
}

/// One spawned process: its identifier, its state, and whether it still
/// owns open pipe endpoints.
pub struct ProcessHandle {
    pub pid: u64,
    pub state: HandleState,
    pub pipe_ends_open: bool,
}

impl ProcessHandle {
    /// The handle a successful spawn produces: running, owning its pipe
    /// ends when a pipe sink was attached.
    pub fn from_spawn(pid: u64, owns_pipe: bool) -> (r: ProcessHandle)
        ensures
            r.pid == pid,
            r.state == HandleState::Spawned,
            r.pipe_ends_open == owns_pipe,
    {
        ProcessHandle { pid, state: HandleState::Spawned, pipe_ends_open: owns_pipe }
    }

    /// The wait finished: the handle moves to exited, exactly once — a
    /// handle that already exited may not be waited on again.
    pub fn record_exit(&mut self, st: ExitStatus)
        requires
            old(self).state == HandleState::Spawned,
        ensures
            final(self).state == HandleState::Exited(st),
            final(self).pid == old(self).pid,
            final(self).pipe_ends_open == old(self).pipe_ends_open,
    {
        self.state = HandleState::Exited(st);
    }

    /// Release the owned pipe endpoints; reachable in every state, so an
    /// abandoned handle can always be cleaned.
    pub fn release_pipes(&mut self)
        ensures
            !final(self).pipe_ends_open,
            final(self).state == old(self).state,
            final(self).pid == old(self).pid,
    {
        self.pipe_ends_open = false;
    }

    /// The status an exited handle carries.
    pub fn status(&self) -> (r: ExitStatus)
        requires
            self.state matches HandleState::Exited(_),
        ensures
            self.state == HandleState::Exited(r),
    {
        match self.state {
            HandleState::Exited(st) => st,
            HandleState::Spawned => vstd::pervasive::unreached(),
        }
    }

    /// The classification of an exited handle: exactly the class of its
    /// exit status.
    pub fn classification(&self) -> (r: Classification)
        requires
            self.state matches HandleState::Exited(_),
        ensures
            self.state matches HandleState::Exited(st) && r == spec_classify(st),
    {
        crate::command::classify(self.status())
    }
}

} // verus!
