use solver_log::supervisor::{
    advance, build_command, finish_run, kill_command, settle_cancel, CancelEvent, CommandLine,
    ExitReport, RunAction, RunEvent, RunState, SupervisorError,
};

fn command(program: &str, args: &[&str]) -> CommandLine {
    CommandLine { program: program.to_string(), args: args.iter().map(|a| a.to_string()).collect() }
}

#[test]
fn command_is_prefix_then_script_then_arguments() {
    let cmd = build_command("uv run  python", "model.py", " --time 10\t--gap 0.1 ");
    assert_eq!(
        cmd,
        Ok(command("uv", &["run", "python", "model.py", "--time", "10", "--gap", "0.1"]))
    );
}

#[test]
fn command_with_a_single_word_prefix() {
    assert_eq!(build_command("python", "a b.py", ""), Ok(command("python", &["a b.py"])));
}

#[test]
fn script_path_is_one_argument() {
    let cmd = build_command(" py ", "C:\\my models\\run.py", "x").unwrap();
    assert_eq!(cmd.args, vec!["C:\\my models\\run.py", "x"]);
}

#[test]
fn empty_prefix_is_refused() {
    assert_eq!(build_command("", "s.py", "a"), Err(SupervisorError::EmptyCommand));
    assert_eq!(build_command(" \t\n", "s.py", "a"), Err(SupervisorError::EmptyCommand));
}

#[test]
fn kill_command_names_the_process() {
    assert_eq!(kill_command(4321), command("taskkill", &["/PID", "4321", "/F", "/T"]));
    assert_eq!(kill_command(0), command("taskkill", &["/PID", "0", "/F", "/T"]));
    assert_eq!(
        kill_command(u32::MAX),
        command("taskkill", &["/PID", "4294967295", "/F", "/T"])
    );
}

#[test]
fn successful_run_yields_sanitized_output() {
    let exit = ExitReport { success: true, code: Some(0) };
    assert_eq!(finish_run(&exit, "1 2 3\n", ""), Ok("1 2 3".to_string()));
    assert_eq!(
        finish_run(&exit, "Academic license\nresult\n", "warnings\n"),
        Ok("result".to_string())
    );
}

#[test]
fn failed_run_yields_code_and_stderr() {
    let exit = ExitReport { success: false, code: Some(2) };
    let err = finish_run(&exit, "partial\n", "boom\n").unwrap_err();
    assert_eq!(err, SupervisorError::ProcessFailure { code: Some(2), stderr: "boom\n".to_string() });
    let message = err.message();
    assert_eq!(message, "Exit Code: 2\nboom\n");
    assert!(message.contains("Exit Code: 2"));
    assert!(message.contains("boom"));
}

#[test]
fn failure_without_a_code() {
    let exit = ExitReport { success: false, code: None };
    let err = finish_run(&exit, "", "killed").unwrap_err();
    assert_eq!(err.message(), "Exit Code: None\nkilled");
}

#[test]
fn negative_and_extreme_codes() {
    for code in [-1, 1, 255, i32::MAX, i32::MIN, -1073741819] {
        let err = SupervisorError::ProcessFailure { code: Some(code), stderr: String::new() };
        assert_eq!(err.message(), format!("Exit Code: {}\n", code));
    }
}

#[test]
fn error_messages() {
    assert_eq!(SupervisorError::EmptyCommand.message(), "Command prefix is empty");
    assert_eq!(
        SupervisorError::SpawnError("No such file".to_string()).message(),
        "コマンド起動エラー: No such file\n(設定のCommand Prefixを確認してください)"
    );
    assert_eq!(SupervisorError::WaitError("interrupted".to_string()).message(), "interrupted");
    assert_eq!(SupervisorError::CancelFailure("no taskkill".to_string()).message(), "no taskkill");
}

fn requested(prefix: &str, script: &str, args: &str) -> RunEvent {
    RunEvent::Requested {
        command_prefix: prefix.to_string(),
        script_path: script.to_string(),
        arg_string: args.to_string(),
    }
}

#[test]
fn run_goes_from_request_to_outcome() {
    let (state, action) = advance(RunState::Idle, requested("python -u", "m.py", "1 2"));
    assert_eq!(state, RunState::Starting);
    assert_eq!(action, RunAction::Spawn(command("python", &["-u", "m.py", "1", "2"])));
    let (state, action) = advance(state, RunEvent::Spawned { pid: 77 });
    assert_eq!(state, RunState::Running { pid: 77 });
    assert_eq!(action, RunAction::PublishAndWait { pid: 77 });
    let exited = RunEvent::Exited {
        exit: ExitReport { success: true, code: Some(0) },
        stdout: "1 2 3\n".to_string(),
        stderr: String::new(),
    };
    let (state, action) = advance(state, exited);
    assert_eq!(state, RunState::Finished);
    assert_eq!(action, RunAction::Finish(Ok("1 2 3".to_string())));
}

#[test]
fn run_with_empty_prefix_ends_at_once() {
    let (state, action) = advance(RunState::Idle, requested("  ", "m.py", ""));
    assert_eq!(state, RunState::Finished);
    assert_eq!(action, RunAction::Finish(Err(SupervisorError::EmptyCommand)));
}

#[test]
fn failed_start_and_failed_wait_end_the_run() {
    let (state, action) =
        advance(RunState::Starting, RunEvent::SpawnFailed { cause: "not found".to_string() });
    assert_eq!(state, RunState::Finished);
    assert_eq!(
        action,
        RunAction::Finish(Err(SupervisorError::SpawnError("not found".to_string())))
    );
    let (state, action) =
        advance(RunState::Running { pid: 5 }, RunEvent::WaitFailed { cause: "EINTR".to_string() });
    assert_eq!(state, RunState::Finished);
    assert_eq!(action, RunAction::Finish(Err(SupervisorError::WaitError("EINTR".to_string()))));
}

#[test]
fn failed_process_ends_the_run_with_its_error() {
    let exited = RunEvent::Exited {
        exit: ExitReport { success: false, code: Some(2) },
        stdout: "out\n".to_string(),
        stderr: "boom".to_string(),
    };
    let (state, action) = advance(RunState::Running { pid: 9 }, exited);
    assert_eq!(state, RunState::Finished);
    let RunAction::Finish(Err(err)) = action else { panic!("no failure") };
    assert!(err.message().contains("Exit Code: 2"));
    assert!(err.message().contains("boom"));
}

#[test]
fn events_out_of_place_are_ignored() {
    let states =
        [RunState::Idle, RunState::Starting, RunState::Running { pid: 1 }, RunState::Finished];
    for state in states {
        let events = [
            requested("p", "s", "a"),
            RunEvent::Spawned { pid: 2 },
            RunEvent::SpawnFailed { cause: "c".to_string() },
            RunEvent::Exited {
                exit: ExitReport { success: true, code: Some(0) },
                stdout: String::new(),
                stderr: String::new(),
            },
            RunEvent::WaitFailed { cause: "c".to_string() },
        ];
        for (i, event) in events.into_iter().enumerate() {
            let fits = match state {
                RunState::Idle => i == 0,
                RunState::Starting => i == 1 || i == 2,
                RunState::Running { .. } => i == 3 || i == 4,
                RunState::Finished => false,
            };
            let (next, action) = advance(state, event);
            if !fits {
                assert_eq!(next, state);
                assert_eq!(action, RunAction::Ignore);
            } else {
                assert_ne!(action, RunAction::Ignore);
            }
            if matches!(action, RunAction::PublishAndWait { .. }) {
                assert_eq!(state, RunState::Starting);
                assert_eq!(next, RunState::Running { pid: 2 });
            }
        }
    }
}

#[test]
fn cancel_that_ended_the_process_succeeds() {
    let event = CancelEvent::Ended {
        exit: ExitReport { success: true, code: Some(0) },
        stderr: String::new(),
    };
    assert_eq!(settle_cancel(event), Ok(()));
    let event = CancelEvent::Ended {
        exit: ExitReport { success: true, code: Some(0) },
        stderr: "warning".to_string(),
    };
    assert_eq!(settle_cancel(event), Ok(()));
}

#[test]
fn cancel_of_a_vanished_process_is_a_reported_failure() {
    let event = CancelEvent::Ended {
        exit: ExitReport { success: false, code: Some(128) },
        stderr: "ERROR: The process \"4321\" not found.\n".to_string(),
    };
    let err = settle_cancel(event).unwrap_err();
    assert_eq!(
        err,
        SupervisorError::CancelFailure(
            "Exit Code: 128\nERROR: The process \"4321\" not found.\n".to_string()
        )
    );
    assert_eq!(err.message(), "Exit Code: 128\nERROR: The process \"4321\" not found.\n");
}

#[test]
fn cancel_ended_by_a_signal_is_a_failure() {
    let event =
        CancelEvent::Ended { exit: ExitReport { success: false, code: None }, stderr: String::new() };
    assert_eq!(
        settle_cancel(event),
        Err(SupervisorError::CancelFailure("Exit Code: None\n".to_string()))
    );
}

#[test]
fn cancel_whose_tool_could_not_start_is_a_failure() {
    let event = CancelEvent::LaunchFailed { cause: "program not found".to_string() };
    assert_eq!(
        settle_cancel(event),
        Err(SupervisorError::CancelFailure("program not found".to_string()))
    );
}

#[test]
fn failed_cancel_leaves_the_run_running() {
    let state = RunState::Running { pid: 4321 };
    let event = CancelEvent::Ended {
        exit: ExitReport { success: false, code: Some(128) },
        stderr: String::new(),
    };
    assert!(settle_cancel(event).is_err());
    let exited = RunEvent::Exited {
        exit: ExitReport { success: true, code: Some(0) },
        stdout: "done\n".to_string(),
        stderr: String::new(),
    };
    let (next, action) = advance(state, exited);
    assert_eq!(next, RunState::Finished);
    assert_eq!(action, RunAction::Finish(Ok("done".to_string())));
}
