use vstd::prelude::*;

pub mod cleanup;
pub mod command;
pub mod job;
pub mod laws;
pub mod message;
pub mod number;
pub mod process;
pub mod shell;
pub mod worker;

verus! {

} // verus!
