use vstd::prelude::*;
use vstd::string::StringExecFns;
use crate::message::{ShellMsg, WaitEvent};
use crate::process::{ProcInfo, ProcState};

verus! {

/// One tracked job: its process group, the command line it came from, and
/// the member processes of the group with their records.
pub struct Job {
    pub pgid: i32,
    pub line: String,
    pub members: Vec<(i32, ProcInfo)>,
}

/// A job as a mathematical value.
pub struct JobModel {
    pub pgid: i32,
    pub line: Seq<char>,
    pub members: Seq<(i32, ProcInfo)>,
}

impl Job {
    pub open spec fn view(&self) -> JobModel {
        JobModel { pgid: self.pgid, line: self.line@, members: self.members@ }
    }
}

pub open spec fn slot_view(o: Option<Job>) -> Option<JobModel> {
    match o {
        Some(j) => Some(j@),
        None => None,
    }
}

/// The job table, indexed by job id; `None` marks a free id.
pub open spec fn table_view(jobs: Seq<Option<Job>>) -> Seq<Option<JobModel>> {
    jobs.map_values(|o: Option<Job>| slot_view(o))
}

/// The whole state of the job-control worker.
pub struct Worker {
    pub exit_val: i32,
    pub fg: Option<i32>,
    pub jobs: Vec<Option<Job>>,
    pub shell_pgid: i32,
}

/// The worker's state as a mathematical value.
pub struct WorkerModel {
    pub exit_val: i32,
    pub fg: Option<i32>,
    pub jobs: Seq<Option<JobModel>>,
    pub shell_pgid: i32,
}

impl Worker {
    pub open spec fn view(&self) -> WorkerModel {
        WorkerModel {
            exit_val: self.exit_val,
            fg: self.fg,
            jobs: table_view(self.jobs@),
            shell_pgid: self.shell_pgid,
        }
    }

    pub open spec fn wf(&self) -> bool {
        model_wf(self@)
    }
}

/// Job id `id` is in use.
pub open spec fn used(jobs: Seq<Option<JobModel>>, id: int) -> bool {
    0 <= id < jobs.len() && jobs[id] is Some
}

/// Job ids are drawn from `0 .. id_limit()`.
pub open spec fn id_limit() -> int {
    usize::MAX - 1
}

/// `id` is the smallest job id not in use.
pub open spec fn is_smallest_free(jobs: Seq<Option<JobModel>>, id: int) -> bool {
    &&& 0 <= id < id_limit()
    &&& !used(jobs, id)
    &&& forall|k: int| 0 <= k < id ==> used(jobs, k)
}

/// Every member process of the group is stopped.
pub open spec fn all_stopped(members: Seq<(i32, ProcInfo)>) -> bool {
    forall|k: int| 0 <= k < members.len() ==> (#[trigger] members[k]).1.state == ProcState::Stop
}

/// The group `pgid` belongs to a live job.
pub open spec fn live_group(jobs: Seq<Option<JobModel>>, pgid: i32) -> bool {
    exists|s: int| used(jobs, s) && (#[trigger] jobs[s]).unwrap().pgid == pgid
}

pub open spec fn job_wf(j: JobModel) -> bool {
    &&& j.members.len() > 0
    &&& forall|k: int| 0 <= k < j.members.len() ==> (#[trigger] j.members[k]).1.pgid == j.pgid
}

/// The table's invariants: a job lives exactly while its group has members,
/// every member record names the job's group, and a foreground group is live.
pub open spec fn model_wf(m: WorkerModel) -> bool {
    &&& m.jobs.len() <= id_limit()
    &&& forall|s: int| used(m.jobs, s) ==> job_wf(#[trigger] m.jobs[s].unwrap())
    &&& (m.fg matches Some(g) ==> live_group(m.jobs, g))
}

/// Position of the first member record of `pid` at or after `from`, or -1.
pub open spec fn idx_of(members: Seq<(i32, ProcInfo)>, pid: i32, from: int) -> int
    decreases members.len() - from,
{
    if from < 0 || from >= members.len() {
        -1
    } else if members[from].0 == pid {
        from
    } else {
        idx_of(members, pid, from + 1)
    }
}

/// First job id at or after `from` whose group holds `pid`, or -1.
pub open spec fn slot_of(jobs: Seq<Option<JobModel>>, pid: i32, from: int) -> int
    decreases jobs.len() - from,
{
    if from < 0 || from >= jobs.len() {
        -1
    } else if jobs[from] is Some && idx_of(jobs[from].unwrap().members, pid, 0) >= 0 {
        from
    } else {
        slot_of(jobs, pid, from + 1)
    }
}

/// How a job ended its run in the foreground, or ended altogether.
#[derive(Debug, Clone, Copy, PartialEq, Eq, Structural)]
pub enum ReportKind {
    Terminated,
    Stopped,
}

/// The effects that a state change asks of the caller: a status line to print,
/// whether the terminal goes back to the shell's own group, and a reply to the
/// interactive loop.
pub struct Reaction {
    pub report: Option<(usize, ReportKind, String)>,
    pub restore_tty: bool,
    pub reply: Option<ShellMsg>,
}

/// The outcome of a member change on the job in slot `s`, now `j`.
pub open spec fn settle(m: WorkerModel, s: int, j: JobModel) -> (WorkerModel, Option<ShellMsg>, Option<ReportKind>) {
    let is_fg = m.fg == Some(j.pgid);
    if j.members.len() == 0 {
        (
            WorkerModel { jobs: m.jobs.update(s, None), fg: if is_fg { None } else { m.fg }, ..m },
            if is_fg { Some(ShellMsg::Continue(m.exit_val)) } else { None },
            Some(ReportKind::Terminated),
        )
    } else if is_fg && all_stopped(j.members) {
        (
            WorkerModel { jobs: m.jobs.update(s, Some(j)), fg: None, ..m },
            Some(ShellMsg::Continue(m.exit_val)),
            Some(ReportKind::Stopped),
        )
    } else {
        (WorkerModel { jobs: m.jobs.update(s, Some(j)), ..m }, None, None)
    }
}

/// The exit code recorded for an event.
pub open spec fn code_after(m: WorkerModel, ev: WaitEvent) -> i32 {
    match ev {
        WaitEvent::Exited(_, c) => c,
        WaitEvent::Signaled(_, sig, _) => (128 + sig) as i32,
        _ => m.exit_val,
    }
}

/// The job `j` after the event, which concerns its member at `k`.
pub open spec fn apply_member(j: JobModel, k: int, ev: WaitEvent) -> JobModel {
    let (pid, info) = j.members[k];
    match ev {
        WaitEvent::Stopped(_) => JobModel {
            members: j.members.update(k, (pid, ProcInfo { state: ProcState::Stop, ..info })),
            ..j
        },
        WaitEvent::Continued(_) => JobModel {
            members: j.members.update(k, (pid, ProcInfo { state: ProcState::Run, ..info })),
            ..j
        },
        _ => JobModel { members: j.members.remove(k), ..j },
    }
}

/// The worker's new state, its reply and its status report after one event.
pub open spec fn reap(m: WorkerModel, ev: WaitEvent) -> (WorkerModel, Option<ShellMsg>, Option<ReportKind>) {
    let s = slot_of(m.jobs, ev.pid(), 0);
    if s < 0 {
        (m, None, None)
    } else {
        let j = m.jobs[s].unwrap();
        let j2 = apply_member(j, idx_of(j.members, ev.pid(), 0), ev);
        if ev is Continued {
            (WorkerModel { jobs: m.jobs.update(s, Some(j2)), ..m }, None, None)
        } else {
            settle(WorkerModel { exit_val: code_after(m, ev), ..m }, s, j2)
        }
    }
}


pub proof fn lemma_idx_of(members: Seq<(i32, ProcInfo)>, pid: i32, from: int)
    ensures
        idx_of(members, pid, from) == -1 || (from <= idx_of(members, pid, from) < members.len()
            && members[idx_of(members, pid, from)].0 == pid),
    decreases members.len() - from,
{
    if 0 <= from < members.len() && members[from].0 != pid {
        lemma_idx_of(members, pid, from + 1);
    }
}

pub proof fn lemma_slot_of(jobs: Seq<Option<JobModel>>, pid: i32, from: int)
    ensures
        slot_of(jobs, pid, from) == -1 || (from <= slot_of(jobs, pid, from) < jobs.len() && used(
            jobs,
            slot_of(jobs, pid, from),
        ) && idx_of(jobs[slot_of(jobs, pid, from)].unwrap().members, pid, 0) >= 0),
    decreases jobs.len() - from,
{
    if 0 <= from < jobs.len() && !(jobs[from] is Some && idx_of(
        jobs[from].unwrap().members,
        pid,
        0,
    ) >= 0) {
        lemma_slot_of(jobs, pid, from + 1);
    }
}

/// Replacing a job's slot keeps a group live when the slot keeps its group,
/// or never held that group.
pub proof fn lemma_live_after_update(
    jobs: Seq<Option<JobModel>>,
    s: int,
    new: Option<JobModel>,
    g: i32,
)
    requires
        live_group(jobs, g),
        used(jobs, s),
        new matches Some(n) ==> n.pgid == jobs[s].unwrap().pgid,
        new is None ==> jobs[s].unwrap().pgid != g,
    ensures
        live_group(jobs.update(s, new), g),
{
    let t = choose|t: int| used(jobs, t) && (#[trigger] jobs[t]).unwrap().pgid == g;
    if t == s {
        assert(jobs.update(s, new)[s] == new);
    } else {
        assert(jobs.update(s, new)[t] == jobs[t]);
    }
}

/// Every member process of the group is stopped.
pub fn is_group_stop(members: &Vec<(i32, ProcInfo)>) -> (r: bool)
    ensures
        r == all_stopped(members@),
{
    let mut i: usize = 0;
    while i < members.len()
        invariant
            i <= members@.len(),
            forall|k: int| 0 <= k < i ==> (#[trigger] members@[k]).1.state == ProcState::Stop,
        decreases members@.len() - i,
    {
        if members[i].1.state == ProcState::Run {
            return false;
        }
        i = i + 1;
    }
    true
}

fn find_member(members: &Vec<(i32, ProcInfo)>, pid: i32) -> (r: Option<usize>)
    ensures
        r matches Some(k) ==> k == idx_of(members@, pid, 0),
        r is None ==> idx_of(members@, pid, 0) == -1,
{
    let mut i: usize = 0;
    while i < members.len()
        invariant
            i <= members@.len(),
            idx_of(members@, pid, 0) == idx_of(members@, pid, i as int),
        decreases members@.len() - i,
    {
        if members[i].0 == pid {
            return Some(i);
        }
        i = i + 1;
    }
    None
}

impl Worker {
    /// A worker with no jobs, exit code 0, and the shell's own group `shell_pgid`.
    pub fn new(shell_pgid: i32) -> (r: Worker)
        ensures
            r.wf(),
            r@.exit_val == 0,
            r@.fg is None,
            r@.jobs.len() == 0,
            r@.shell_pgid == shell_pgid,
    {
        let w = Worker { exit_val: 0, fg: None, jobs: Vec::new(), shell_pgid };
        assert(w@.jobs =~= Seq::<Option<JobModel>>::empty());
        w
    }

    /// Id of the first job whose group holds `pid`.
    fn find_job(&self, pid: i32) -> (r: Option<usize>)
        ensures
            r matches Some(s) ==> s == slot_of(self@.jobs, pid, 0),
            r is None ==> slot_of(self@.jobs, pid, 0) == -1,
    {
        let mut i: usize = 0;
        while i < self.jobs.len()
            invariant
                i <= self.jobs@.len(),
                self@.jobs.len() == self.jobs@.len(),
                slot_of(self@.jobs, pid, 0) == slot_of(self@.jobs, pid, i as int),
            decreases self.jobs@.len() - i,
        {
            assert(self@.jobs[i as int] == slot_view(self.jobs@[i as int]));
            match &self.jobs[i] {
                Some(j) => {
                    if find_member(&j.members, pid).is_some() {
                        return Some(i);
                    }
                },
                None => {},
            }
            i = i + 1;
        }
        None
    }

    /// Puts `job`, whose member set has just changed, back in slot `s`, or drops
    /// it when no member is left; hands the terminal back to the shell when the
    /// foreground job has terminated or fully stopped.
    fn manage_job(&mut self, s: usize, job: Job) -> (r: Reaction)
        requires
            s < old(self).jobs@.len(),
            old(self).jobs@[s as int] is None,
            forall|k: int| 0 <= k < job.members@.len() ==> (#[trigger] job.members@[k]).1.pgid == job.pgid,
            old(self).jobs@.len() <= id_limit(),
            forall|t: int| t != s && used(old(self)@.jobs, t) ==> job_wf(#[trigger] old(self)@.jobs[t].unwrap()),
            old(self)@.fg matches Some(g) ==> (live_group(old(self)@.jobs.update(s as int, Some(job@)), g)),
        ensures
            final(self).wf(),
            (final(self)@, r.reply, reaction_kind(r)) == settle(old(self)@, s as int, job@),
            r.restore_tty == r.reply is Some,
            r.report matches Some(rep) ==> rep.0 == s && rep.2@ == job@.line,
    {
        let ghost m = old(self)@;
        let ghost jm = job@;
        let is_fg = match self.fg {
            Some(g) => g == job.pgid,
            None => false,
        };
        proof {
            assert(m.jobs.update(s as int, Some(jm)).update(s as int, None) =~= m.jobs.update(s as int, None));
            assert(used(m.jobs.update(s as int, Some(jm)), s as int));
        }
        if job.members.len() == 0 {
            let line = job.line;
            self.jobs.set(s, None);
            proof {
                assert(table_view(self.jobs@) =~= m.jobs.update(s as int, None));
                if let Some(g) = self.fg {
                    if !is_fg {
                        lemma_live_after_update(m.jobs.update(s as int, Some(jm)), s as int, None, g);
                    }
                }
            }
            if is_fg {
                self.fg = None;
                Reaction {
                    report: Some((s, ReportKind::Terminated, line)),
                    restore_tty: true,
                    reply: Some(ShellMsg::Continue(self.exit_val)),
                }
            } else {
                Reaction { report: Some((s, ReportKind::Terminated, line)), restore_tty: false, reply: None }
            }
        } else if is_fg && is_group_stop(&job.members) {
            let line = job.line.clone();
            self.jobs.set(s, Some(job));
            self.fg = None;
            proof {
                assert(table_view(self.jobs@) =~= m.jobs.update(s as int, Some(jm)));
            }
            Reaction {
                report: Some((s, ReportKind::Stopped, line)),
                restore_tty: true,
                reply: Some(ShellMsg::Continue(self.exit_val)),
            }
        } else {
            self.jobs.set(s, Some(job));
            proof {
                assert(table_view(self.jobs@) =~= m.jobs.update(s as int, Some(jm)));
            }
            Reaction { report: None, restore_tty: false, reply: None }
        }
    }
}

impl Worker {
    /// Applies one reported child-state change to the job table: an exit or a
    /// kill records the exit code and drops the process from its group, a stop
    /// or a resume updates its record. A pid that no job holds changes nothing.
    pub fn wait_child(&mut self, ev: WaitEvent) -> (r: Reaction)
        requires
            old(self).wf(),
        ensures
            final(self).wf(),
            (final(self)@, r.reply, reaction_kind(r)) == reap(old(self)@, ev),
            r.restore_tty == r.reply is Some,
            r.report matches Some(rep) ==> used(old(self)@.jobs, rep.0 as int) && rep.2@
                == old(self)@.jobs[rep.0 as int].unwrap().line,
    {
        let ghost m = self@;
        let pid = match ev {
            WaitEvent::Exited(p, _) => p,
            WaitEvent::Signaled(p, _, _) => p,
            WaitEvent::Stopped(p) => p,
            WaitEvent::Continued(p) => p,
        };
        let s = match self.find_job(pid) {
            Some(s) => s,
            None => {
                return Reaction { report: None, restore_tty: false, reply: None };
            },
        };
        proof {
            lemma_slot_of(m.jobs, pid, 0);
        }
        let slot = self.jobs.remove(s);
        self.jobs.insert(s, None);
        let ghost jm = m.jobs[s as int].unwrap();
        proof {
            assert(table_view(self.jobs@) =~= m.jobs.update(s as int, None));
            assert(slot_view(slot) == m.jobs[s as int]);
        }
        let mut job = slot.unwrap();
        let k = find_member(&job.members, pid).unwrap();
        proof {
            lemma_idx_of(jm.members, pid, 0);
        }
        let info = job.members[k].1;
        match ev {
            WaitEvent::Continued(_) => {
                job.members.set(k, (pid, ProcInfo { state: ProcState::Run, ..info }));
                proof {
                    assert(job@.members =~= apply_member(jm, k as int, ev).members);
                    assert(m.jobs.update(s as int, None).update(s as int, Some(job@)) =~= m.jobs.update(s as int, Some(job@)));
                }
                self.jobs.set(s, Some(job));
                proof {
                    assert(table_view(self.jobs@) =~= m.jobs.update(s as int, Some(apply_member(jm, k as int, ev))));
                    if let Some(g) = self.fg {
                        lemma_live_after_update(m.jobs, s as int, Some(apply_member(jm, k as int, ev)), g);
                    }
                }
                return Reaction { report: None, restore_tty: false, reply: None };
            },
            WaitEvent::Stopped(_) => {
                job.members.set(k, (pid, ProcInfo { state: ProcState::Stop, ..info }));
            },
            WaitEvent::Exited(_, code) => {
                self.exit_val = code;
                job.members.remove(k);
            },
            WaitEvent::Signaled(_, sig, _) => {
                self.exit_val = 128 + sig as i32;
                job.members.remove(k);
            },
        }
        proof {
            let j2 = apply_member(jm, k as int, ev);
            assert(job@.members =~= j2.members);
            assert(job@ == j2);
            assert(m.jobs.update(s as int, None).update(s as int, Some(j2)) =~= m.jobs.update(s as int, Some(j2)));
            if let Some(g) = self.fg {
                if j2.members.len() > 0 || jm.pgid != g {
                    lemma_live_after_update(m.jobs, s as int, Some(j2), g);
                } else {
                    assert(used(m.jobs.update(s as int, Some(j2)), s as int));
                    assert(m.jobs.update(s as int, Some(j2))[s as int].unwrap().pgid == g);
                }
            }
            assert forall|t: int| t != s && used(self@.jobs, t) implies job_wf(#[trigger] self@.jobs[t].unwrap()) by {
                assert(self@.jobs[t] == m.jobs[t]);
            }
            assert forall|i: int| 0 <= i < job.members@.len() implies (#[trigger] job.members@[i]).1.pgid == job.pgid by {
                if ev is Stopped {
                    if i != k { assert(job.members@[i] == jm.members[i]); }
                } else {
                    if i < k { assert(job.members@[i] == jm.members[i]); }
                    else { assert(job.members@[i] == jm.members[i + 1]); }
                }
            }
        }
        proof {
            let j2 = apply_member(jm, k as int, ev);
            let m1 = WorkerModel { exit_val: code_after(m, ev), ..m };
            assert(m.jobs.update(s as int, None).update(s as int, None) =~= m.jobs.update(s as int, None));
            assert(self@ == WorkerModel { jobs: m.jobs.update(s as int, None), ..m1 });
            assert(settle(self@, s as int, j2) == settle(m1, s as int, j2));
        }
        self.manage_job(s, job)
    }
}

/// The member records of a freshly spawned group: every pid running, in `pgid`.
pub open spec fn fresh_members(pids: Seq<i32>, pgid: i32) -> Seq<(i32, ProcInfo)> {
    pids.map_values(|p: i32| (p, ProcInfo { state: ProcState::Run, pgid }))
}

/// The table with job `id` set to `j`, growing it by one when `id` is its length.
pub open spec fn place(jobs: Seq<Option<JobModel>>, id: int, j: JobModel) -> Seq<Option<JobModel>> {
    if id < jobs.len() {
        jobs.update(id, Some(j))
    } else {
        jobs.push(Some(j))
    }
}

impl Worker {
    /// The smallest job id not in use, if one is left below `id_limit()`.
    pub fn get_new_job_id(&self) -> (r: Option<usize>)
        requires
            self.wf(),
        ensures
            r matches Some(id) ==> is_smallest_free(self@.jobs, id as int),
            r is None ==> forall|k: int| 0 <= k < id_limit() ==> used(self@.jobs, k),
    {
        let mut i: usize = 0;
        while i < self.jobs.len()
            invariant
                i <= self.jobs@.len(),
                self@.jobs.len() == self.jobs@.len(),
                self.wf(),
                forall|k: int| 0 <= k < i ==> used(self@.jobs, k),
            decreases self.jobs@.len() - i,
        {
            assert(self@.jobs[i as int] == slot_view(self.jobs@[i as int]));
            if self.jobs[i].is_none() {
                return Some(i);
            }
            i = i + 1;
        }
        if i < usize::MAX - 1 {
            Some(i)
        } else {
            None
        }
    }

    /// Registers job `job_id` for the group `pgid` made of `pids`, all running,
    /// under the command line `line`.
    pub fn insert_job(&mut self, job_id: usize, pgid: i32, pids: &Vec<i32>, line: &str)
        requires
            old(self).wf(),
            is_smallest_free(old(self)@.jobs, job_id as int),
            pids@.len() > 0,
        ensures
            final(self).wf(),
            final(self)@ == (WorkerModel {
                jobs: place(
                    old(self)@.jobs,
                    job_id as int,
                    JobModel { pgid, line: line@, members: fresh_members(pids@, pgid) },
                ),
                ..old(self)@
            }),
    {
        let mut members: Vec<(i32, ProcInfo)> = Vec::new();
        let mut i: usize = 0;
        while i < pids.len()
            invariant
                i <= pids@.len(),
                members@ == fresh_members(pids@.subrange(0, i as int), pgid),
            decreases pids@.len() - i,
        {
            let ghost before = members@;
            members.push((pids[i], ProcInfo { state: ProcState::Run, pgid }));
            proof {
                assert(fresh_members(pids@.subrange(0, i as int + 1), pgid) =~= before.push(
                    (pids@[i as int], ProcInfo { state: ProcState::Run, pgid }),
                ));
            }
            i = i + 1;
        }
        proof {
            assert(pids@.subrange(0, pids@.len() as int) =~= pids@);
        }
        let job = Job { pgid, line: String::from_str(line), members };
        let ghost m = self@;
        let ghost jm = job@;
        if job_id < self.jobs.len() {
            self.jobs.set(job_id, Some(job));
            proof {
                assert(table_view(self.jobs@) =~= m.jobs.update(job_id as int, Some(jm)));
            }
        } else {
            self.jobs.push(Some(job));
            proof {
                assert(table_view(self.jobs@) =~= m.jobs.push(Some(jm)));
            }
        }
        proof {
            let t = place(m.jobs, job_id as int, jm);
            assert(job_wf(jm));
            assert forall|s: int| used(t, s) implies job_wf(#[trigger] t[s].unwrap()) by {
                if s != job_id {
                    assert(t[s] == m.jobs[s]);
                }
            }
            if let Some(g) = m.fg {
                let w = choose|w: int| used(m.jobs, w) && (#[trigger] m.jobs[w]).unwrap().pgid == g;
                assert(t[w] == m.jobs[w]);
            }
        }
    }
}

/// The kind of status line a reaction carries, if any.
pub open spec fn reaction_kind(r: Reaction) -> Option<ReportKind> {
    match r.report {
        Some(rep) => Some(rep.1),
        None => None,
    }
}

} // verus!
