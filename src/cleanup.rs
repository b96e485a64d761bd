use vstd::prelude::*;

verus! {

/// The pipe descriptors of a spawn that still have to be closed. Taking them
/// hands each out once and leaves none behind, so that every exit path of the
/// spawn closes each descriptor exactly once.
pub struct CleanUp {
    fds: Vec<i32>,
}

/// The descriptors present among `input` and `output`, in that order.
pub open spec fn present(input: Option<i32>, output: Option<i32>) -> Seq<i32> {
    let a = match input {
        Some(fd) => seq![fd],
        None => Seq::empty(),
    };
    match output {
        Some(fd) => a.push(fd),
        None => a,
    }
}

impl CleanUp {
    /// The descriptors not yet handed out.
    pub closed spec fn pending(&self) -> Seq<i32> {
        self.fds@
    }

    /// Guards the read end `input` and the write end `output` of a pipe, where present.
    pub fn new(input: Option<i32>, output: Option<i32>) -> (r: CleanUp)
        ensures
            r.pending() == present(input, output),
    {
        let mut fds: Vec<i32> = Vec::new();
        if let Some(fd) = input {
            fds.push(fd);
        }
        if let Some(fd) = output {
            fds.push(fd);
        }
        proof {
            assert(fds@ =~= present(input, output));
        }
        CleanUp { fds }
    }

    /// Hands out every pending descriptor; none is pending afterwards.
    pub fn take(&mut self) -> (r: Vec<i32>)
        ensures
            r@ == old(self).pending(),
            final(self).pending().len() == 0,
    {
        let mut out: Vec<i32> = Vec::new();
        std::mem::swap(&mut out, &mut self.fds);
        out
    }
}

} // verus!
