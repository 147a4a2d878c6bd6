use mcwrap::session::{
    classify, history_start, input_line, is_running, pump_step, require_running, shutdown_line,
    start_plan, status_of, stop_step, PumpAction, PumpEvent, RecordState, ServerState,
    SessionError, SessionMode, SessionStatus, StartStep, StopAction, STOP_POLLS,
};

fn record(pid: i32, shared: bool) -> ServerState {
    ServerState {
        pid,
        pty_master: if shared { Some(b"/home/u/.mcwrap/3023056c0ed0/pty.sock".to_vec()) } else { None },
        started_at: 1_700_000_000,
        server_dir: b"/srv/game".to_vec(),
    }
}

#[test]
fn start_refused_while_live() {
    let state = classify(Some(record(4242, true)), true);
    assert!(matches!(state, RecordState::Running(_)));
    assert_eq!(start_plan(&state), Err(SessionError::AlreadyRunning));
}

#[test]
fn start_after_stale_record_clears_storage_first() {
    let state = classify(Some(record(4242, true)), false);
    assert!(matches!(state, RecordState::Stale(_)));
    let steps = start_plan(&state).unwrap();
    assert_eq!(
        steps,
        vec![StartStep::ClearStorage, StartStep::CreateStorage, StartStep::Launch, StartStep::WriteRecord]
    );
}

#[test]
fn start_without_record_proceeds() {
    let state = classify(None, true);
    assert!(matches!(state, RecordState::Absent));
    assert_eq!(start_plan(&state).unwrap()[0], StartStep::ClearStorage);
}

#[test]
fn probe_of_missing_record_is_absent() {
    assert!(matches!(is_running(None), RecordState::Absent));
}

#[test]
fn probe_of_dead_process_is_stale() {
    match is_running(Some(record(i32::MAX, true))) {
        RecordState::Stale(s) => assert_eq!(s.pid, i32::MAX),
        _ => panic!("expected a stale record"),
    }
}

#[test]
fn operations_need_a_live_session() {
    assert!(matches!(require_running(RecordState::Absent), Err(SessionError::NotRunning)));
    assert!(matches!(
        require_running(RecordState::Stale(record(7, false))),
        Err(SessionError::NotRunning)
    ));
    assert_eq!(require_running(RecordState::Running(record(7, false))).unwrap().pid, 7);
}

#[test]
fn stop_graceful_within_ceiling() {
    assert_eq!(stop_step(0, true), StopAction::Wait);
    assert_eq!(stop_step(1, true), StopAction::Wait);
    assert_eq!(stop_step(2, false), StopAction::Stopped);
}

#[test]
fn stop_forced_after_ceiling() {
    let mut probe: u32 = 0;
    loop {
        match stop_step(probe, true) {
            StopAction::Wait => probe += 1,
            other => {
                assert_eq!(other, StopAction::ForceKill);
                break;
            }
        }
    }
    assert_eq!(probe, STOP_POLLS - 1);
    assert_eq!(stop_step(STOP_POLLS - 1, false), StopAction::Stopped);
}

#[test]
fn status_reports_pid_and_mode() {
    assert_eq!(
        status_of(&RecordState::Running(record(4242, true))),
        SessionStatus::Running { pid: 4242, mode: SessionMode::Shared }
    );
    assert_eq!(
        status_of(&RecordState::Running(record(9, false))),
        SessionStatus::Running { pid: 9, mode: SessionMode::Pipe }
    );
    assert_eq!(status_of(&RecordState::Stale(record(9, false))), SessionStatus::NotRunning);
    assert_eq!(status_of(&RecordState::Absent), SessionStatus::NotRunning);
}

#[test]
fn send_and_stop_lines() {
    assert_eq!(input_line(b"list"), b"list\n".to_vec());
    assert_eq!(input_line(b""), b"\n".to_vec());
    assert_eq!(shutdown_line(), b"stop\n".to_vec());
}

#[test]
fn pump_decisions() {
    assert_eq!(pump_step(&PumpEvent::ChildExited), PumpAction::Shutdown);
    assert_eq!(pump_step(&PumpEvent::EndOfStream), PumpAction::Shutdown);
    assert_eq!(pump_step(&PumpEvent::ReadFailed), PumpAction::Shutdown);
    assert_eq!(pump_step(&PumpEvent::Output(0)), PumpAction::Shutdown);
    assert_eq!(pump_step(&PumpEvent::Output(12)), PumpAction::Forward);
    assert_eq!(pump_step(&PumpEvent::NotReady), PumpAction::Idle);
}

#[test]
fn history_window() {
    assert_eq!(history_start(100, 30), 70);
    assert_eq!(history_start(10, 30), 0);
    assert_eq!(history_start(30, 30), 0);
}

#[test]
fn lifecycle_example_for_one_target() {
    // No record: the start proceeds.
    let steps = start_plan(&classify(None, false)).unwrap();
    assert_eq!(steps[0], StartStep::ClearStorage);
    // The written record names the shared endpoint; a live probe reports it running.
    let live = classify(Some(record(4242, true)), true);
    assert_eq!(status_of(&live), SessionStatus::Running { pid: 4242, mode: SessionMode::Shared });
    // Sending a line writes it with a newline; the transcript shows it without the prompt.
    assert_eq!(input_line(b"list"), b"list\n".to_vec());
    assert_eq!(mcwrap::sanitize::filter_for_log(b"> list\r\n"), b"list\n".to_vec());
    // Stop: the child exits within the ceiling, the record goes, status reports none.
    assert_eq!(stop_step(3, false), StopAction::Stopped);
    assert_eq!(status_of(&classify(None, false)), SessionStatus::NotRunning);
}
