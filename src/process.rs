use vstd::prelude::*;

verus! {

/// Run state of one tracked process.
#[derive(Debug, Clone, Copy, PartialEq, Eq, Structural)]
pub enum ProcState {
    Run,
    Stop,
}

/// Per-process record: its run state and the process group it belongs to.
#[derive(Debug, Clone, Copy, PartialEq, Eq, Structural)]
pub struct ProcInfo {
    pub state: ProcState,
    pub pgid: i32,
}

} // verus!
