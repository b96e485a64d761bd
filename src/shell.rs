use vstd::prelude::*;
use vstd::string::StringExecFns;

verus! {

/// The interactive shell's settings: where its line history is kept.
pub struct Shell {
    pub logfile: String,
}

impl Shell {
    /// A shell whose history lives in `logfile`.
    pub fn new(logfile: &str) -> (r: Shell)
        ensures
            r.logfile@ == logfile@,
    {
        Shell { logfile: String::from_str(logfile) }
    }
}

} // verus!
