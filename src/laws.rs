use vstd::prelude::*;
use crate::command::Command;
use crate::job::{
    all_stopped, apply_member, code_after, fresh_members, idx_of, is_smallest_free,
    lemma_slot_of, model_wf, place, reap, settle, slot_of, used, JobModel, WorkerModel,
    ReportKind,
};
use crate::message::{ShellMsg, WaitEvent};
use crate::number::i32_of;
use crate::worker::{exit_outcome, fg_outcome, has_jobs, spawn_outcome, spawned, Action, Notice};

verus! {

/// A pid that no job holds: the event changes nothing, sends no reply and
/// reports nothing.
pub proof fn lemma_unknown_pid_is_noop(m: WorkerModel, ev: WaitEvent)
    requires
        slot_of(m.jobs, ev.pid(), 0) == -1,
    ensures
        reap(m, ev) == (m, Option::<ShellMsg>::None, Option::<ReportKind>::None),
{
}

/// A reply to the interactive loop comes only when the foreground job ended
/// or stopped: it carries the current exit code, and no group is foreground
/// afterwards. When the event leaves the foreground job without members, or
/// with every member stopped, that reply is sent.
pub proof fn lemma_foreground_handback(m: WorkerModel, ev: WaitEvent)
    requires
        model_wf(m),
    ensures
        ({
            let (m2, reply, _) = reap(m, ev);
            &&& reply matches Some(msg) ==> msg == ShellMsg::Continue(m2.exit_val) && m2.fg is None
                && m.fg is Some
            &&& ({
                let s = slot_of(m.jobs, ev.pid(), 0);
                (s >= 0 && !(ev is Continued) && m.fg == Some(m.jobs[s].unwrap().pgid) && (!used(
                    m2.jobs,
                    s,
                ) || all_stopped(m2.jobs[s].unwrap().members))) ==> reply is Some
            })
        }),
{
    let s = slot_of(m.jobs, ev.pid(), 0);
    lemma_slot_of(m.jobs, ev.pid(), 0);
    if s >= 0 && !(ev is Continued) {
        let j = m.jobs[s].unwrap();
        let j2 = apply_member(j, idx_of(j.members, ev.pid(), 0), ev);
        let m1 = WorkerModel { exit_val: code_after(m, ev), ..m };
        let r = settle(m1, s, j2);
        if j2.members.len() != 0 {
            assert(r.0.jobs[s] == Some(j2));
        }
    }
}

/// `exit` while any job is tracked never quits: it sets exit code 1 and
/// replies "continue".
pub proof fn lemma_exit_refused_with_jobs(m: WorkerModel, args: Seq<Seq<char>>, m2: WorkerModel, r: Action)
    requires
        has_jobs(m.jobs),
        exit_outcome(m, args, m2, r),
    ensures
        m2.exit_val == 1,
        r matches Action::Reply(_, ShellMsg::Continue(1)),
{
}

/// `exit` with no job tracked quits with its argument, read as an `i32`, or
/// with the last exit code when it has none.
pub proof fn lemma_exit_quits_without_jobs(m: WorkerModel, args: Seq<Seq<char>>, m2: WorkerModel, r: Action)
    requires
        !has_jobs(m.jobs),
        exit_outcome(m, args, m2, r),
        args.len() < 2 || i32_of(args[1]) is Some,
    ensures
        m2 == m,
        r matches Action::Reply(None, ShellMsg::Quit(q)) && q == if args.len() < 2 {
            m.exit_val
        } else {
            i32_of(args[1]).unwrap()
        },
{
}

/// A pipeline of three or more stages is refused and registers nothing.
pub proof fn lemma_long_pipeline_refused(m: WorkerModel, cmds: Seq<Command>, m2: WorkerModel, r: Action)
    requires
        cmds.len() > 2,
        spawn_outcome(m, cmds, m2, r),
    ensures
        m2 == m,
        r matches Action::Reply(Some(Notice::TooManyStages), _),
{
}

/// `fg` with an argument that names no tracked job sets exit code 1 and leaves
/// the foreground designation as it was.
pub proof fn lemma_fg_unknown_keeps_foreground(m: WorkerModel, args: Seq<Seq<char>>, m2: WorkerModel, r: Action)
    requires
        args.len() >= 2,
        forall|n: usize| #![trigger used(m.jobs, n as int)] crate::number::usize_of(args[1]) == Some(n) ==> !used(m.jobs, n as int),
        fg_outcome(m, args, m2, r),
    ensures
        m2.exit_val == 1,
        m2.fg == m.fg,
        m2.jobs == m.jobs,
        r matches Action::Reply(Some(Notice::FgNotFound(_)), ShellMsg::Continue(1)),
{
}

/// No job at or after `from` holds `pid` when the search finds none.
pub proof fn lemma_slot_of_none(jobs: Seq<Option<JobModel>>, pid: i32, from: int, t: int)
    requires
        0 <= from <= t < jobs.len(),
        slot_of(jobs, pid, from) == -1,
    ensures
        !(jobs[t] is Some && idx_of(jobs[t].unwrap().members, pid, 0) >= 0),
    decreases t - from,
{
    if from < t {
        lemma_slot_of_none(jobs, pid, from + 1, t);
    }
}

/// The search finds slot `s` when it holds `pid` and no slot from `from` before it does.
pub proof fn lemma_slot_of_at(jobs: Seq<Option<JobModel>>, pid: i32, from: int, s: int)
    requires
        0 <= from <= s < jobs.len(),
        jobs[s] is Some && idx_of(jobs[s].unwrap().members, pid, 0) >= 0,
        forall|t: int| from <= t < s ==> !(#[trigger] jobs[t] is Some && idx_of(jobs[t].unwrap().members, pid, 0) >= 0),
    ensures
        slot_of(jobs, pid, from) == s,
    decreases s - from,
{
    if from < s {
        lemma_slot_of_at(jobs, pid, from + 1, s);
    }
}

/// A two-stage pipeline registers one job with two running process records;
/// once both stages have exited the job is gone, the recorded exit code is
/// that of the stage that exited last, and the interactive loop gets its reply.
pub proof fn lemma_two_stage_lifecycle(
    m: WorkerModel,
    id: int,
    p1: i32,
    p2: i32,
    line: Seq<char>,
    c1: i32,
    c2: i32,
)
    requires
        model_wf(m),
        is_smallest_free(m.jobs, id),
        p1 != p2,
        slot_of(m.jobs, p1, 0) == -1,
        slot_of(m.jobs, p2, 0) == -1,
    ensures
        ({
            let m1 = spawned(m, id, seq![p1, p2], line);
            let (m2, r2, _) = reap(m1, WaitEvent::Exited(p1, c1));
            let (m3, r3, _) = reap(m2, WaitEvent::Exited(p2, c2));
            &&& used(m1.jobs, id)
            &&& m1.jobs[id].unwrap().members.len() == 2
            &&& r2 is None
            &&& used(m2.jobs, id)
            &&& !used(m3.jobs, id)
            &&& m3.exit_val == c2
            &&& r3 == Some(ShellMsg::Continue(c2))
        }),
{
    let pids = seq![p1, p2];
    let m1 = spawned(m, id, pids, line);
    let jm = JobModel { pgid: p1, line, members: fresh_members(pids, p1) };
    if id > m.jobs.len() {
        assert(used(m.jobs, m.jobs.len() as int));
    }
    assert(m1.jobs == place(m.jobs, id, jm));
    assert(m1.jobs[id] == Some(jm));
    assert forall|t: int| 0 <= t < id implies m1.jobs[t] == m.jobs[t] by {}
    assert(jm.members[0].0 == p1);
    assert(jm.members[1].0 == p2);
    assert(idx_of(jm.members, p1, 0) == 0);
    assert(idx_of(jm.members, p2, 1) == 1);
    assert(idx_of(jm.members, p2, 0) == 1);
    assert forall|t: int| 0 <= t < id implies !(#[trigger] m1.jobs[t] is Some && idx_of(m1.jobs[t].unwrap().members, p1, 0) >= 0) by {
        lemma_slot_of_none(m.jobs, p1, 0, t);
    }
    lemma_slot_of_at(m1.jobs, p1, 0, id);
    let ev1 = WaitEvent::Exited(p1, c1);
    let j2 = apply_member(jm, 0, ev1);
    assert(j2.members =~= seq![(p2, crate::process::ProcInfo { state: crate::process::ProcState::Run, pgid: p1 })]);
    assert(j2.members[0].1.state == crate::process::ProcState::Run);
    assert(!all_stopped(j2.members));
    let m2 = reap(m1, ev1).0;
    assert(m2.jobs == m1.jobs.update(id, Some(j2)));
    assert(m2.fg == Some(p1));
    assert(idx_of(j2.members, p2, 0) == 0);
    assert forall|t: int| 0 <= t < id implies !(#[trigger] m2.jobs[t] is Some && idx_of(m2.jobs[t].unwrap().members, p2, 0) >= 0) by {
        lemma_slot_of_none(m.jobs, p2, 0, t);
        assert(m2.jobs[t] == m.jobs[t]);
    }
    lemma_slot_of_at(m2.jobs, p2, 0, id);
    let ev2 = WaitEvent::Exited(p2, c2);
    let j3 = apply_member(j2, 0, ev2);
    assert(j3.members.len() == 0);
}

} // verus!
