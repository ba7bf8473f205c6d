use fpm::{
    change_restarts, decide_start, session_header, ControlAction, exit_signal, start_outcome, ControlSignal, KillStep, Outcome,
    ProcessState, ProcessStatus, RestartMode, StartDecision, POLL_ATTEMPTS,
};

fn words(s: &str) -> Vec<String> {
    s.split('/').map(|w| w.to_string()).collect()
}

fn running(pid: u32) -> ProcessState {
    ProcessState::new(ProcessStatus::Started, 0, Some(pid), false)
}

#[test]
fn on_error_clean_exit_is_not_respawned() {
    let sig = exit_signal(Some(RestartMode::OnError), true);
    assert_eq!(sig, ControlSignal::Stop);
    let mut s = running(7);
    assert!(!(s.control_step(sig, false, false) == ControlAction::Respawn));
    assert_eq!(s.status, ProcessStatus::Paused);
}

#[test]
fn on_error_failed_exit_is_respawned() {
    let sig = exit_signal(Some(RestartMode::OnError), false);
    assert_eq!(sig, ControlSignal::Restart);
    let mut s = running(7);
    assert!((s.control_step(sig, false, false) == ControlAction::Respawn));
    assert_eq!(s, running(7));
}

#[test]
fn always_respawns_every_exit() {
    assert_eq!(exit_signal(Some(RestartMode::Always), true), ControlSignal::Restart);
    assert_eq!(exit_signal(Some(RestartMode::Always), false), ControlSignal::Restart);
    assert_eq!(exit_signal(None, true), ControlSignal::Restart);
}

#[test]
fn never_settles_paused() {
    for clean in [true, false] {
        let sig = exit_signal(Some(RestartMode::Never), clean);
        assert_eq!(sig, ControlSignal::Stop);
        let mut s = running(9);
        assert!(!(s.control_step(sig, false, false) == ControlAction::Respawn));
        assert_eq!(s.status, ProcessStatus::Paused);
        assert_eq!(s.uid, None);
    }
}

#[test]
fn scenario_on_error_exit_one_keeps_respawning() {
    let mut s = ProcessState::default();
    s.begin_run();
    for pid in 100..105u32 {
        assert!(!s.should_skip_run(false));
        s.record_spawn(Some(pid));
        assert_eq!(s.status, ProcessStatus::Started);
        let sig = exit_signal(Some(RestartMode::OnError), false);
        assert!((s.control_step(sig, false, false) == ControlAction::Respawn));
    }
}

#[test]
fn scenario_on_error_exit_zero_settles() {
    let mut s = ProcessState::default();
    s.begin_run();
    s.record_spawn(Some(200));
    let sig = exit_signal(Some(RestartMode::OnError), true);
    assert!(!(s.control_step(sig, false, false) == ControlAction::Respawn));
    assert_eq!(s.status, ProcessStatus::Paused);
    assert_eq!(s.uid, None);
}

fn run_kill(s: &mut ProcessState, outcomes: &[bool]) -> (KillStep, usize) {
    let mut step = s.begin_kill();
    let mut used = 0;
    while step != KillStep::Finished {
        let out = outcomes.get(used).copied().unwrap_or(true);
        step = s.advance_kill(step, out);
        used += 1;
    }
    (step, used)
}

#[test]
fn graceful_stop_of_cooperative_child() {
    let mut s = running(42);
    assert_eq!(s.begin_stop(), ControlSignal::Stop);
    assert_eq!(s.status, ProcessStatus::Pausing);
    // delivered, alive, alive, gone
    let (_, used) = run_kill(&mut s, &[true, true, true, false]);
    assert_eq!(used, 4);
    assert_eq!(s.status, ProcessStatus::Paused);
    assert!(s.should_stop);
}

#[test]
fn uncooperative_child_is_force_killed() {
    let mut s = running(43);
    s.begin_stop();
    let mut step = s.begin_kill();
    assert_eq!(step, KillStep::Terminate(43));
    step = s.advance_kill(step, true);
    let mut probes = 0;
    while let KillStep::Probe { .. } = step {
        step = s.advance_kill(step, true);
        probes += 1;
    }
    assert_eq!(probes, POLL_ATTEMPTS);
    assert_eq!(step, KillStep::ForceKill(43));
    assert_eq!(s.status, ProcessStatus::Pausing);
    step = s.advance_kill(step, true);
    assert_eq!(step, KillStep::Finished);
    assert_eq!(s.status, ProcessStatus::Paused);
}

#[test]
fn undelivered_termination_escalates() {
    let mut s = running(44);
    let step = s.begin_kill();
    assert_eq!(s.advance_kill(step, false), KillStep::ForceKill(44));
}

#[test]
fn kill_without_child_is_immediate() {
    let mut s = ProcessState::new(ProcessStatus::Pausing, 0, None, true);
    assert_eq!(s.begin_kill(), KillStep::Finished);
    assert_eq!(s.status, ProcessStatus::Paused);
    assert_eq!(s.uid, None);
    assert!(s.should_stop);
}

#[test]
fn stop_of_never_started_process_pauses() {
    let mut s = ProcessState::default();
    s.begin_stop();
    assert_eq!(s.begin_kill(), KillStep::Finished);
    assert_eq!(s.status, ProcessStatus::Paused);
    assert!(s.should_stop);
}

#[test]
fn second_stop_after_pid_cleared_pauses() {
    let mut s = running(52);
    s.begin_stop();
    run_kill(&mut s, &[true, false]);
    // the controller handles the stop signal and clears the pid
    assert_eq!(s.control_step(ControlSignal::Stop, false, true), ControlAction::End);
    assert_eq!(s.uid, None);
    let after_first = s;
    s.begin_stop();
    assert_eq!(s.status, ProcessStatus::Pausing);
    let (_, used) = run_kill(&mut s, &[]);
    assert_eq!(used, 0);
    assert_eq!(s, after_first);
    assert_eq!(s.status, ProcessStatus::Paused);
}

#[test]
fn signal_with_live_child_kills_first() {
    let mut s = running(53);
    assert_eq!(s.control_step(ControlSignal::Stop, true, false), ControlAction::KillFirst);
    assert_eq!(s, running(53));
    assert_eq!(s.control_step(ControlSignal::Stop, true, true), ControlAction::End);
    assert_eq!(s.status, ProcessStatus::Paused);
    let mut t = running(54);
    assert_eq!(t.control_step(ControlSignal::Restart, true, false), ControlAction::KillFirst);
    assert_eq!(t.control_step(ControlSignal::Restart, false, false), ControlAction::Respawn);
}

#[test]
fn session_header_text() {
    assert_eq!(session_header(&"12:30:05".to_string()), "=====STARTED ON 12:30:05=====");
}

#[test]
fn second_stop_is_harmless() {
    let mut s = running(50);
    s.begin_stop();
    run_kill(&mut s, &[true, false]);
    let after_first = s;
    assert_eq!(s.begin_stop(), ControlSignal::Stop);
    run_kill(&mut s, &[false]);
    assert_eq!(s, after_first);
    assert_eq!(Outcome::Stopped.response().to_string(), "success The process is stopped");
}

#[test]
fn restart_clears_stop_flag() {
    let mut s = running(51);
    s.begin_stop();
    assert_eq!(s.finish_restart(), ControlSignal::Restart);
    assert!(!s.should_stop);
    assert_eq!(s.status, ProcessStatus::Pausing);
}

#[test]
fn spawn_failure_marks_error() {
    let mut s = ProcessState::default();
    s.begin_run();
    assert_eq!(s.spawn_failed(), ControlAction::End);
    assert_eq!(s.status, ProcessStatus::Error);
    assert_eq!(s.uid, None);
    assert!(s.should_skip_run(false));
}

#[test]
fn running_process_is_not_started_again() {
    let s = running(60);
    assert_eq!(decide_start(&s, true), StartDecision::AlreadyStarted);
    assert!(s.should_skip_run(true));
    assert_eq!(
        start_outcome(decide_start(&s, true)).response().to_string(),
        "error Process already started"
    );
    assert_eq!(decide_start(&s, false), StartDecision::Launch);
    assert_eq!(decide_start(&ProcessState::default(), true), StartDecision::Launch);
}

#[test]
fn stopped_flag_guards_run() {
    let mut s = ProcessState::default();
    s.should_stop = true;
    assert!(s.should_skip_run(false));
    assert!(!ProcessState::default().should_skip_run(true));
}

#[test]
fn watch_change_restarts_unless_log_file() {
    let log = Some(words("logs/out.log"));
    assert!(change_restarts(&log, &words("/srv/app/src/main.js")));
    assert!(!change_restarts(&log, &words("/srv/app/logs/out.log")));
    assert!(change_restarts(&log, &words("/srv/app/out.log")));
    assert!(change_restarts(&None, &words("/srv/app/logs/out.log")));
}
