use vstd::prelude::*;
use vstd::string::StrSliceExecFns;
use vstd::string::StringExecFns;
use crate::command::{parse_cmd, views, Command, no_blank_stage, parses_to};
use crate::job::{
    all_stopped, is_group_stop, is_smallest_free, id_limit, used, Worker, WorkerModel, place,
    fresh_members, JobModel, slot_view,
};
use crate::message::ShellMsg;
use crate::number::{parse_i32, parse_usize, i32_of, usize_of};

verus! {

/// A condition that the worker reports to the user in place of doing the work.
pub enum Notice {
    /// Some stage of the command line holds no word.
    BlankCommand,
    /// `exit` was refused because jobs are still tracked.
    JobsRemain,
    /// The argument of `exit` is not an `i32`.
    InvalidExitArg(String),
    /// `fg` was given no job id.
    FgUsage,
    /// The argument of `fg` names no tracked job.
    FgNotFound(String),
    /// The pipeline has more than two stages.
    TooManyStages,
    /// No job id is left.
    NoJobId,
}

/// One line of the `jobs` listing.
pub struct JobStatus {
    pub id: usize,
    pub stopped: bool,
    pub line: String,
}

/// What the caller has to do for one command line.
pub enum Action {
    /// Print the notice, if any, and hand the reply to the interactive loop.
    Reply(Option<Notice>, ShellMsg),
    /// Print the listing and hand the reply to the interactive loop.
    ListJobs(Vec<JobStatus>, ShellMsg),
    /// Job `id`, group `pgid`, started by `line`, is now foreground: give it the
    /// terminal and send its whole group the continue signal. The reply comes
    /// when the job terminates or stops.
    Resume(usize, i32, String),
    /// Change the working directory to the path, or to the home directory when
    /// there is none; then report the outcome with `finish_cd`.
    ChangeDir(Option<String>),
    /// Spawn the stages as job `id`; then register it with `finish_spawn`, or
    /// report a failure with `spawn_failed`.
    Spawn(usize, Vec<Command>),
}

/// Why a pipeline was not spawned.
#[derive(Debug, Clone, Copy, PartialEq, Eq, Structural)]
pub enum SpawnError {
    TooManyStages,
    NoJobId,
}

/// Some job is tracked.
pub open spec fn has_jobs(jobs: Seq<Option<JobModel>>) -> bool {
    exists|s: int| used(jobs, s)
}

/// The `jobs` listing of a table, in ascending job id.
pub open spec fn listing(jobs: Seq<Option<JobModel>>) -> Seq<(usize, bool, Seq<char>)>
    decreases jobs.len(),
{
    if jobs.len() == 0 {
        Seq::empty()
    } else {
        let rest = listing(jobs.drop_last());
        match jobs.last() {
            Some(j) => rest.push(((jobs.len() - 1) as usize, all_stopped(j.members), j.line)),
            None => rest,
        }
    }
}

pub open spec fn status_views(v: Seq<JobStatus>) -> Seq<(usize, bool, Seq<char>)> {
    v.map_values(|e: JobStatus| (e.id, e.stopped, e.line@))
}

/// `m` with the exit code set to `code`.
pub open spec fn with_code(m: WorkerModel, code: i32) -> WorkerModel {
    WorkerModel { exit_val: code, ..m }
}

/// The outcome of `exit` with the words `args`, from state `m`.
pub open spec fn exit_outcome(m: WorkerModel, args: Seq<Seq<char>>, m2: WorkerModel, r: Action) -> bool {
    if has_jobs(m.jobs) {
        m2 == with_code(m, 1) && r matches Action::Reply(Some(Notice::JobsRemain), ShellMsg::Continue(1))
    } else if args.len() >= 2 {
        match i32_of(args[1]) {
            Some(n) => m2 == m && (r matches Action::Reply(None, ShellMsg::Quit(q)) && q == n),
            None => m2 == with_code(m, 1) && (r matches Action::Reply(
                Some(Notice::InvalidExitArg(a)),
                ShellMsg::Continue(1),
            ) && a@ == args[1]),
        }
    } else {
        m2 == m && (r matches Action::Reply(None, ShellMsg::Quit(q)) && q == m.exit_val)
    }
}

/// The outcome of `jobs`.
pub open spec fn jobs_outcome(m: WorkerModel, m2: WorkerModel, r: Action) -> bool {
    m2 == with_code(m, 0) && (r matches Action::ListJobs(v, ShellMsg::Continue(0)) && status_views(
        v@,
    ) == listing(m.jobs))
}

/// The outcome of `fg` with the words `args`.
pub open spec fn fg_outcome(m: WorkerModel, args: Seq<Seq<char>>, m2: WorkerModel, r: Action) -> bool {
    if args.len() < 2 {
        m2 == with_code(m, 1) && r matches Action::Reply(Some(Notice::FgUsage), ShellMsg::Continue(1))
    } else if fg_target(m, args[1]) >= 0 {
        let n = fg_target(m, args[1]);
        let j = m.jobs[n].unwrap();
        m2 == WorkerModel { exit_val: 1, fg: Some(j.pgid), ..m } && (r matches Action::Resume(
            id,
            g,
            l,
        ) && id == n && g == j.pgid && l@ == j.line)
    } else {
        m2 == with_code(m, 1) && (r matches Action::Reply(
            Some(Notice::FgNotFound(a)),
            ShellMsg::Continue(1),
        ) && a@ == args[1])
    }
}

/// The tracked job that the argument of `fg` names, or -1.
pub open spec fn fg_target(m: WorkerModel, arg: Seq<char>) -> int {
    match usize_of(arg) {
        Some(n) => if used(m.jobs, n as int) { n as int } else { -1 },
        None => -1,
    }
}

/// The outcome of `cd` with the words `args`: nothing changes until the
/// directory change has been tried.
pub open spec fn cd_outcome(m: WorkerModel, args: Seq<Seq<char>>, m2: WorkerModel, r: Action) -> bool {
    m2 == m && if args.len() >= 2 {
        (r matches Action::ChangeDir(Some(p)) && p@ == args[1])
    } else {
        r matches Action::ChangeDir(None)
    }
}

/// Whether `a` and `b` hold the same text.
fn same_text(a: &str, b: &str) -> (r: bool)
    ensures
        r == (a@ == b@),
{
    let n = a.unicode_len();
    if n != b.unicode_len() {
        return false;
    }
    let mut i: usize = 0;
    while i < n
        invariant
            n == a@.len() == b@.len(),
            i <= n,
            forall|k: int| 0 <= k < i ==> a@[k] == b@[k],
        decreases n - i,
    {
        if a.get_char(i) != b.get_char(i) {
            return false;
        }
        i = i + 1;
    }
    assert(a@ =~= b@);
    true
}

impl Worker {
    /// Whether any job is tracked.
    fn any_job(&self) -> (r: bool)
        ensures
            r == has_jobs(self@.jobs),
    {
        let mut i: usize = 0;
        while i < self.jobs.len()
            invariant
                i <= self.jobs@.len(),
                self@.jobs.len() == self.jobs@.len(),
                forall|k: int| 0 <= k < i ==> !used(self@.jobs, k),
            decreases self.jobs@.len() - i,
        {
            assert(self@.jobs[i as int] == slot_view(self.jobs@[i as int]));
            if self.jobs[i].is_some() {
                assert(used(self@.jobs, i as int));
                return true;
            }
            i = i + 1;
        }
        false
    }

    /// `exit [code]`: refused while jobs are tracked; otherwise quits with the
    /// given code, or with the last exit code when none is given.
    pub fn run_exit(&mut self, args: &Vec<String>) -> (r: Action)
        requires
            old(self).wf(),
        ensures
            final(self).wf(),
            exit_outcome(old(self)@, views(args@), final(self)@, r),
    {
        if self.any_job() {
            self.exit_val = 1;
            return Action::Reply(Some(Notice::JobsRemain), ShellMsg::Continue(1));
        }
        if args.len() >= 2 {
            match parse_i32(args[1].as_str()) {
                Some(n) => Action::Reply(None, ShellMsg::Quit(n)),
                None => {
                    self.exit_val = 1;
                    Action::Reply(Some(Notice::InvalidExitArg(args[1].clone())), ShellMsg::Continue(1))
                },
            }
        } else {
            Action::Reply(None, ShellMsg::Quit(self.exit_val))
        }
    }

    /// `jobs`: lists every tracked job with its derived state; exit code 0.
    pub fn run_jobs(&mut self) -> (r: Action)
        requires
            old(self).wf(),
        ensures
            final(self).wf(),
            jobs_outcome(old(self)@, final(self)@, r),
    {
        let mut out: Vec<JobStatus> = Vec::new();
        let mut i: usize = 0;
        while i < self.jobs.len()
            invariant
                i <= self.jobs@.len(),
                self@.jobs.len() == self.jobs@.len(),
                status_views(out@) == listing(self@.jobs.subrange(0, i as int)),
            decreases self.jobs@.len() - i,
        {
            let ghost sub = self@.jobs.subrange(0, i as int + 1);
            let ghost before = out@;
            proof {
                assert(sub.drop_last() =~= self@.jobs.subrange(0, i as int));
                assert(sub.last() == slot_view(self.jobs@[i as int]));
            }
            match &self.jobs[i] {
                Some(j) => {
                    let stopped = is_group_stop(&j.members);
                    out.push(JobStatus { id: i, stopped, line: j.line.clone() });
                    proof {
                        assert(status_views(out@) =~= status_views(before).push((i, stopped, j.line@)));
                    }
                },
                None => {},
            }
            i = i + 1;
        }
        proof {
            assert(self@.jobs.subrange(0, self@.jobs.len() as int) =~= self@.jobs);
        }
        self.exit_val = 0;
        Action::ListJobs(out, ShellMsg::Continue(0))
    }

    /// `fg <job-id>`: makes the named job foreground; a missing or unknown id
    /// is reported. The exit code is 1 until the job reports back.
    pub fn run_fg(&mut self, args: &Vec<String>) -> (r: Action)
        requires
            old(self).wf(),
        ensures
            final(self).wf(),
            fg_outcome(old(self)@, views(args@), final(self)@, r),
    {
        self.exit_val = 1;
        if args.len() < 2 {
            return Action::Reply(Some(Notice::FgUsage), ShellMsg::Continue(1));
        }
        if let Some(n) = parse_usize(args[1].as_str()) {
            if n < self.jobs.len() {
                assert(self@.jobs[n as int] == slot_view(self.jobs@[n as int]));
                match &self.jobs[n] {
                    Some(j) => {
                        let pgid = j.pgid;
                        let line = j.line.clone();
                        self.fg = Some(pgid);
                        assert(used(self@.jobs, n as int));
                        return Action::Resume(n, pgid, line);
                    },
                    None => {},
                }
            }
        }
        Action::Reply(Some(Notice::FgNotFound(args[1].clone())), ShellMsg::Continue(1))
    }

    /// `cd [path]`: names the directory to change to; the state is untouched
    /// until `finish_cd`.
    pub fn run_cd(&self, args: &Vec<String>) -> (r: Action)
        ensures
            cd_outcome(self@, views(args@), self@, r),
    {
        if args.len() >= 2 {
            Action::ChangeDir(Some(args[1].clone()))
        } else {
            Action::ChangeDir(None)
        }
    }

    /// Records whether the directory change of `cd` succeeded: exit code 0 or 1.
    pub fn finish_cd(&mut self, ok: bool) -> (r: ShellMsg)
        requires
            old(self).wf(),
        ensures
            final(self).wf(),
            final(self)@ == with_code(old(self)@, if ok { 0 } else { 1 }),
            r == ShellMsg::Continue(final(self)@.exit_val),
    {
        self.exit_val = if ok { 0 } else { 1 };
        ShellMsg::Continue(self.exit_val)
    }

    /// Runs `cmd` as a built-in, or returns `None` when it names none.
    pub fn built_in_cmd(&mut self, cmd: &Command) -> (r: Option<Action>)
        requires
            old(self).wf(),
        ensures
            final(self).wf(),
            r is None <==> !is_built_in(cmd.filename@),
            r is None ==> final(self)@ == old(self)@,
            r matches Some(a) ==> built_in_outcome(cmd.filename@, old(self)@, views(cmd.args@), final(self)@, a),
    {
        let name = cmd.filename.as_str();
        proof {
            reveal_strlit("exit");
            reveal_strlit("jobs");
            reveal_strlit("fg");
            reveal_strlit("cd");
        }
        if same_text(name, "exit") {
            Some(self.run_exit(&cmd.args))
        } else if same_text(name, "jobs") {
            Some(self.run_jobs())
        } else if same_text(name, "fg") {
            Some(self.run_fg(&cmd.args))
        } else if same_text(name, "cd") {
            Some(self.run_cd(&cmd.args))
        } else {
            None
        }
    }

    /// Decides whether the pipeline `cmds` can be spawned, and under which job id.
    pub fn spawn_child(&self, cmds: &Vec<Command>) -> (r: Result<usize, SpawnError>)
        requires
            self.wf(),
        ensures
            cmds@.len() > 2 ==> r == Err::<usize, SpawnError>(SpawnError::TooManyStages),
            cmds@.len() <= 2 ==> (r matches Ok(id) ==> is_smallest_free(self@.jobs, id as int)),
            cmds@.len() <= 2 ==> (r is Err <==> forall|k: int| 0 <= k < id_limit() ==> used(self@.jobs, k)),
            r matches Err(e) ==> (e == SpawnError::NoJobId <==> cmds@.len() <= 2),
    {
        if cmds.len() > 2 {
            return Err(SpawnError::TooManyStages);
        }
        match self.get_new_job_id() {
            Some(id) => Ok(id),
            None => Err(SpawnError::NoJobId),
        }
    }

    /// Registers the spawned pipeline as job `job_id`: its group is that of the
    /// first pid, every pid is recorded running, and the group becomes foreground.
    pub fn finish_spawn(&mut self, job_id: usize, pids: &Vec<i32>, line: &str)
        requires
            old(self).wf(),
            is_smallest_free(old(self)@.jobs, job_id as int),
            1 <= pids@.len() <= 2,
        ensures
            final(self).wf(),
            final(self)@ == spawned(old(self)@, job_id as int, pids@, line@),
    {
        let pgid = pids[0];
        let ghost m = self@;
        proof {
            if job_id > m.jobs.len() {
                assert(used(m.jobs, m.jobs.len() as int));
            }
        }
        self.insert_job(job_id, pgid, pids, line);
        self.fg = Some(pgid);
        proof {
            let t = place(m.jobs, job_id as int, JobModel { pgid, line: line@, members: fresh_members(pids@, pgid) });
            assert(t[job_id as int] is Some);
            assert(used(self@.jobs, job_id as int));
            assert(self@.jobs[job_id as int].unwrap().pgid == pgid);
        }
    }

    /// Records a failed spawn: nothing is registered and the exit code is 1.
    pub fn spawn_failed(&mut self) -> (r: ShellMsg)
        requires
            old(self).wf(),
        ensures
            final(self).wf(),
            final(self)@ == with_code(old(self)@, 1),
            r == ShellMsg::Continue(1),
    {
        self.exit_val = 1;
        ShellMsg::Continue(1)
    }

    /// Handles one parsed command line: a single stage that names a built-in
    /// runs it, anything else is prepared for spawning.
    pub fn run_cmd(&mut self, cmds: Vec<Command>) -> (r: Action)
        requires
            old(self).wf(),
            cmds@.len() >= 1,
        ensures
            final(self).wf(),
            cmds@.len() == 1 && is_built_in(cmds@[0].filename@) ==> built_in_outcome(
                cmds@[0].filename@,
                old(self)@,
                views(cmds@[0].args@),
                final(self)@,
                r,
            ),
            !(cmds@.len() == 1 && is_built_in(cmds@[0].filename@)) ==> spawn_outcome(
                old(self)@,
                cmds@,
                final(self)@,
                r,
            ),
    {
        if cmds.len() == 1 {
            if let Some(a) = self.built_in_cmd(&cmds[0]) {
                return a;
            }
        }
        let ghost m = self@;
        match self.spawn_child(&cmds) {
            Ok(id) => Action::Spawn(id, cmds),
            Err(SpawnError::TooManyStages) => Action::Reply(Some(Notice::TooManyStages), ShellMsg::Continue(self.exit_val)),
            Err(SpawnError::NoJobId) => Action::Reply(Some(Notice::NoJobId), ShellMsg::Continue(self.exit_val)),
        }
    }

    /// Handles one command line from the interactive loop.
    pub fn process_line(&mut self, line: &str) -> (r: Action)
        requires
            old(self).wf(),
        ensures
            final(self).wf(),
            !no_blank_stage(line@) ==> final(self)@ == with_code(old(self)@, 1) && (r matches Action::Reply(
                Some(Notice::BlankCommand),
                ShellMsg::Continue(1),
            )),
            no_blank_stage(line@) ==> exists|cmds: Seq<Command>| #[trigger] parses_to(line@, cmds) && cmds.len() >= 1 && {
                ||| (cmds.len() == 1 && is_built_in(cmds[0].filename@) && built_in_outcome(
                    cmds[0].filename@,
                    old(self)@,
                    views(cmds[0].args@),
                    final(self)@,
                    r,
                ))
                ||| (!(cmds.len() == 1 && is_built_in(cmds[0].filename@)) && spawn_outcome(old(self)@, cmds, final(self)@, r))
            },
    {
        match parse_cmd(line) {
            Ok(cmds) => {
                let ghost c = cmds@;
                let r = self.run_cmd(cmds);
                assert(parses_to(line@, c));
                r
            },
            Err(_) => {
                self.exit_val = 1;
                Action::Reply(Some(Notice::BlankCommand), ShellMsg::Continue(1))
            },
        }
    }
}

/// The worker's state once the pipeline `pids`, started by `line`, is registered as job `id`.
pub open spec fn spawned(m: WorkerModel, id: int, pids: Seq<i32>, line: Seq<char>) -> WorkerModel {
    WorkerModel {
        jobs: place(m.jobs, id, JobModel { pgid: pids[0], line, members: fresh_members(pids, pids[0]) }),
        fg: Some(pids[0]),
        ..m
    }
}

/// `name` is one of the built-in commands.
pub open spec fn is_built_in(name: Seq<char>) -> bool {
    name == "exit"@ || name == "jobs"@ || name == "fg"@ || name == "cd"@
}

/// The outcome of the built-in `name`.
pub open spec fn built_in_outcome(name: Seq<char>, m: WorkerModel, args: Seq<Seq<char>>, m2: WorkerModel, r: Action) -> bool {
    if name == "exit"@ {
        exit_outcome(m, args, m2, r)
    } else if name == "jobs"@ {
        jobs_outcome(m, m2, r)
    } else if name == "fg"@ {
        fg_outcome(m, args, m2, r)
    } else {
        cd_outcome(m, args, m2, r)
    }
}

/// The outcome of a pipeline that names no built-in: refused without any
/// change when it is too long or no job id is left, else handed out for
/// spawning under the smallest free job id.
pub open spec fn spawn_outcome(m: WorkerModel, cmds: Seq<Command>, m2: WorkerModel, r: Action) -> bool {
    &&& m2 == m
    &&& if cmds.len() > 2 {
        r matches Action::Reply(Some(Notice::TooManyStages), ShellMsg::Continue(c)) && c == m.exit_val
    } else if forall|k: int| 0 <= k < id_limit() ==> used(m.jobs, k) {
        r matches Action::Reply(Some(Notice::NoJobId), ShellMsg::Continue(c)) && c == m.exit_val
    } else {
        r matches Action::Spawn(id, v) && is_smallest_free(m.jobs, id as int) && v@ == cmds
    }
}

} // verus!
