use zerosh::cleanup::CleanUp;
use zerosh::job::ReportKind;
use zerosh::message::{ShellMsg, WaitEvent};
use zerosh::shell::Shell;
use zerosh::worker::{Action, Notice};
use zerosh::job::Worker;

fn spawn(w: &mut Worker, line: &str, pids: Vec<i32>) -> usize {
    match w.process_line(line) {
        Action::Spawn(id, cmds) => {
            assert_eq!(cmds.len(), pids.len());
            w.finish_spawn(id, &pids, line);
            id
        }
        _ => panic!("expected a spawn"),
    }
}

fn reply_of(a: Action) -> ShellMsg {
    match a {
        Action::Reply(_, m) => m,
        Action::ListJobs(_, m) => m,
        _ => panic!("expected a reply"),
    }
}

#[test]
fn job_ids_are_smallest_free() {
    let mut w = Worker::new(10);
    assert_eq!(spawn(&mut w, "sleep 1", vec![100]), 0);
    assert_eq!(spawn(&mut w, "sleep 2", vec![200]), 1);
    assert_eq!(spawn(&mut w, "sleep 3", vec![300]), 2);
    w.wait_child(WaitEvent::Exited(200, 0));
    assert_eq!(w.get_new_job_id(), Some(1));
    assert_eq!(spawn(&mut w, "sleep 4", vec![400]), 1);
    assert_eq!(w.get_new_job_id(), Some(3));
}

#[test]
fn derived_state_follows_members() {
    let mut w = Worker::new(10);
    spawn(&mut w, "a | b", vec![100, 101]);
    w.wait_child(WaitEvent::Stopped(100));
    let list = match w.run_jobs() {
        Action::ListJobs(v, m) => {
            assert_eq!(m, ShellMsg::Continue(0));
            v
        }
        _ => panic!("expected a listing"),
    };
    assert_eq!(list.len(), 1);
    assert_eq!(list[0].id, 0);
    assert!(!list[0].stopped);
    assert_eq!(list[0].line, "a | b");
    let r = w.wait_child(WaitEvent::Stopped(101));
    assert_eq!(r.reply, Some(ShellMsg::Continue(0)));
    match w.run_jobs() {
        Action::ListJobs(v, _) => assert!(v[0].stopped),
        _ => panic!("expected a listing"),
    }
    w.wait_child(WaitEvent::Continued(100));
    match w.run_jobs() {
        Action::ListJobs(v, _) => assert!(!v[0].stopped),
        _ => panic!("expected a listing"),
    }
}

#[test]
fn foreground_stop_hands_terminal_back() {
    let mut w = Worker::new(10);
    spawn(&mut w, "vim", vec![100]);
    assert_eq!(w.fg, Some(100));
    let r = w.wait_child(WaitEvent::Stopped(100));
    assert!(r.restore_tty);
    assert_eq!(r.reply, Some(ShellMsg::Continue(0)));
    let (id, kind, line) = r.report.unwrap();
    assert_eq!(id, 0);
    assert_eq!(kind, ReportKind::Stopped);
    assert_eq!(line, "vim");
    assert_eq!(w.fg, None);
}

#[test]
fn background_stop_is_silent() {
    let mut w = Worker::new(10);
    spawn(&mut w, "vim", vec![100]);
    w.wait_child(WaitEvent::Stopped(100));
    let r = w.wait_child(WaitEvent::Exited(100, 0));
    assert_eq!(r.reply, None);
    assert!(!r.restore_tty);
    assert_eq!(r.report.unwrap().1, ReportKind::Terminated);
}

#[test]
fn signaled_child_records_128_plus_signal() {
    let mut w = Worker::new(10);
    spawn(&mut w, "sleep 9", vec![100]);
    let r = w.wait_child(WaitEvent::Signaled(100, 9, false));
    assert_eq!(r.reply, Some(ShellMsg::Continue(137)));
    assert_eq!(w.exit_val, 137);
    assert_eq!(w.get_new_job_id(), Some(0));
}

#[test]
fn exit_with_jobs_is_refused() {
    let mut w = Worker::new(10);
    spawn(&mut w, "sleep 9", vec![100]);
    let a = w.process_line("exit 7");
    assert!(matches!(a, Action::Reply(Some(Notice::JobsRemain), ShellMsg::Continue(1))));
    assert_eq!(w.exit_val, 1);
}

#[test]
fn exit_seven_quits_with_seven() {
    let mut w = Worker::new(10);
    assert_eq!(reply_of(w.process_line("exit 7")), ShellMsg::Quit(7));
}

#[test]
fn exit_without_argument_reuses_last_code() {
    let mut w = Worker::new(10);
    spawn(&mut w, "false", vec![100]);
    w.wait_child(WaitEvent::Exited(100, 3));
    assert_eq!(reply_of(w.process_line("exit")), ShellMsg::Quit(3));
}

#[test]
fn exit_with_bad_argument_continues() {
    let mut w = Worker::new(10);
    match w.process_line("exit seven") {
        Action::Reply(Some(Notice::InvalidExitArg(s)), ShellMsg::Continue(1)) => assert_eq!(s, "seven"),
        _ => panic!("expected a refusal"),
    }
    assert_eq!(w.exit_val, 1);
}

#[test]
fn three_stage_pipeline_is_rejected() {
    let mut w = Worker::new(10);
    let a = w.process_line("a | b | c");
    assert!(matches!(a, Action::Reply(Some(Notice::TooManyStages), ShellMsg::Continue(0))));
    assert_eq!(w.get_new_job_id(), Some(0));
    assert!(w.jobs.is_empty());
}

#[test]
fn two_stage_pipeline_lifecycle() {
    let mut w = Worker::new(10);
    let id = spawn(&mut w, "yes | head", vec![100, 101]);
    assert_eq!(id, 0);
    assert_eq!(w.jobs[0].as_ref().unwrap().members.len(), 2);
    assert_eq!(w.jobs[0].as_ref().unwrap().pgid, 100);
    let r1 = w.wait_child(WaitEvent::Exited(101, 0));
    assert_eq!(r1.reply, None);
    assert!(w.jobs[0].is_some());
    let r2 = w.wait_child(WaitEvent::Exited(100, 4));
    assert_eq!(r2.reply, Some(ShellMsg::Continue(4)));
    assert!(r2.restore_tty);
    assert!(w.jobs[0].is_none());
    assert_eq!(w.exit_val, 4);
}

#[test]
fn fg_unknown_id_is_not_found() {
    let mut w = Worker::new(10);
    spawn(&mut w, "sleep 9", vec![100]);
    w.wait_child(WaitEvent::Stopped(100));
    assert_eq!(w.fg, None);
    match w.process_line("fg 5") {
        Action::Reply(Some(Notice::FgNotFound(s)), ShellMsg::Continue(1)) => assert_eq!(s, "5"),
        _ => panic!("expected not found"),
    }
    assert_eq!(w.fg, None);
    assert_eq!(w.exit_val, 1);
    assert!(matches!(w.process_line("fg"), Action::Reply(Some(Notice::FgUsage), ShellMsg::Continue(1))));
}

#[test]
fn fg_known_id_resumes_job() {
    let mut w = Worker::new(10);
    spawn(&mut w, "sleep 9", vec![100]);
    w.wait_child(WaitEvent::Stopped(100));
    match w.process_line("fg 0") {
        Action::Resume(id, pgid, line) => {
            assert_eq!(id, 0);
            assert_eq!(pgid, 100);
            assert_eq!(line, "sleep 9");
        }
        _ => panic!("expected a resume"),
    }
    assert_eq!(w.fg, Some(100));
}

#[test]
fn unknown_pid_is_noop() {
    let mut w = Worker::new(10);
    spawn(&mut w, "sleep 9", vec![100]);
    let r = w.wait_child(WaitEvent::Exited(555, 9));
    assert!(r.reply.is_none() && r.report.is_none() && !r.restore_tty);
    assert_eq!(w.exit_val, 0);
    assert_eq!(w.fg, Some(100));
    let r = w.wait_child(WaitEvent::Stopped(556));
    assert!(r.reply.is_none());
}

#[test]
fn blank_line_sets_exit_code_one() {
    let mut w = Worker::new(10);
    assert!(matches!(w.process_line("ls | "), Action::Reply(Some(Notice::BlankCommand), ShellMsg::Continue(1))));
    assert_eq!(w.exit_val, 1);
}

#[test]
fn cd_names_target_and_records_outcome() {
    let mut w = Worker::new(10);
    match w.process_line("cd /tmp") {
        Action::ChangeDir(Some(p)) => assert_eq!(p, "/tmp"),
        _ => panic!("expected a directory change"),
    }
    assert!(matches!(w.process_line("cd"), Action::ChangeDir(None)));
    assert_eq!(w.finish_cd(false), ShellMsg::Continue(1));
    assert_eq!(w.finish_cd(true), ShellMsg::Continue(0));
}

#[test]
fn spawn_failure_sets_exit_code_one() {
    let mut w = Worker::new(10);
    assert_eq!(w.spawn_failed(), ShellMsg::Continue(1));
    assert_eq!(w.exit_val, 1);
}

#[test]
fn cleanup_hands_out_descriptors_once() {
    let mut c = CleanUp::new(Some(3), Some(4));
    assert_eq!(c.take(), vec![3, 4]);
    assert!(c.take().is_empty());
    let mut d = CleanUp::new(None, None);
    assert!(d.take().is_empty());
}

#[test]
fn shell_keeps_logfile() {
    let s = Shell::new("hist.txt");
    assert_eq!(s.logfile, "hist.txt");
}
