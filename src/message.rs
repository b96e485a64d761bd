use vstd::prelude::*;

verus! {

/// What the worker tells the interactive loop once a command line is dealt with.
#[derive(Debug, Clone, Copy, PartialEq, Eq, Structural)]
pub enum ShellMsg {
    /// Prompt again; the payload is the current exit code.
    Continue(i32),
    /// Leave the interactive loop with this exit code.
    Quit(i32),
}

/// A child-state change, as reported by one non-blocking wait for any child.
#[derive(Debug, Clone, Copy, PartialEq, Eq, Structural)]
pub enum WaitEvent {
    /// The process exited with the given status.
    Exited(i32, i32),
    /// The process was killed by the given signal number; the flag tells whether it dumped core.
    Signaled(i32, u8, bool),
    /// The process was stopped.
    Stopped(i32),
    /// The process was resumed.
    Continued(i32),
}

impl WaitEvent {
    pub open spec fn pid(self) -> i32 {
        match self {
            WaitEvent::Exited(p, _) => p,
            WaitEvent::Signaled(p, _, _) => p,
            WaitEvent::Stopped(p) => p,
            WaitEvent::Continued(p) => p,
        }
    }
}

} // verus!
