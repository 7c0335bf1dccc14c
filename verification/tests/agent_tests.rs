use nexus_vmm::agent::{
    command_line, CommandLine, ExecAction, ExecError, ExecEvent, ExecPhase, ExecSession,
    ExecStage, ExecSyncRequest, ExecSyncResponse, REQUEST_BUFFER_LEN,
};
use nexus_vmm::frame::{encode_frame, OutputStream};

fn words(list: &[&str]) -> Vec<String> {
    list.iter().map(|s| s.to_string()).collect()
}

fn started() -> ExecSession {
    let (session, first) = ExecSession::start();
    assert_eq!(first, ExecAction::Read(1024));
    assert_eq!(REQUEST_BUFFER_LEN, 1024);
    assert_eq!(session.phase(), ExecPhase::AwaitingRequest);
    session
}

fn spawned(cmd: &[&str]) -> ExecSession {
    let mut s = started();
    assert_eq!(s.step(ExecEvent::RequestRead(30)), ExecAction::Parse(30));
    let action = s.step(ExecEvent::RequestParsed(ExecSyncRequest { command: words(cmd) }));
    assert!(matches!(action, ExecAction::Spawn(_)));
    assert_eq!(s.step(ExecEvent::Spawned), ExecAction::ReceiveOutput);
    s
}

#[test]
fn command_line_splits_program_and_args() {
    let req = ExecSyncRequest { command: words(&["ls", "-l", "/tmp"]) };
    assert_eq!(
        command_line(&req),
        Ok(CommandLine { program: "ls".to_string(), args: words(&["-l", "/tmp"]) })
    );
    let req = ExecSyncRequest { command: words(&["hostname"]) };
    assert_eq!(
        command_line(&req),
        Ok(CommandLine { program: "hostname".to_string(), args: vec![] })
    );
}

#[test]
fn command_line_refuses_empty_command() {
    let req = ExecSyncRequest { command: vec![] };
    assert_eq!(command_line(&req), Err(ExecError::EmptyCommand));
}

#[test]
fn closed_connection_ends_quietly() {
    let mut s = started();
    assert_eq!(s.step(ExecEvent::RequestRead(0)), ExecAction::Finish(Ok(())));
    assert!(s.is_finished());
}

#[test]
fn full_exchange() {
    let mut s = started();
    assert_eq!(s.step(ExecEvent::RequestRead(26)), ExecAction::Parse(26));
    assert_eq!(
        s.step(ExecEvent::RequestParsed(ExecSyncRequest { command: words(&["hostname"]) })),
        ExecAction::Spawn(CommandLine { program: "hostname".to_string(), args: vec![] })
    );
    assert_eq!(s.step(ExecEvent::Spawned), ExecAction::ReceiveOutput);
    assert_eq!(
        s.step(ExecEvent::Output(OutputStream::Stdout, b"guest\n".to_vec())),
        ExecAction::Write(vec![1, 0, 0, 0, 6, b'g', b'u', b'e', b's', b't', b'\n'])
    );
    assert_eq!(s.step(ExecEvent::Written), ExecAction::ReceiveOutput);
    assert_eq!(
        s.step(ExecEvent::Output(OutputStream::Stderr, b"w".to_vec())),
        ExecAction::Write(vec![2, 0, 0, 0, 1, b'w'])
    );
    assert_eq!(s.step(ExecEvent::Written), ExecAction::ReceiveOutput);
    assert_eq!(s.step(ExecEvent::OutputClosed), ExecAction::WaitForExit);
    assert_eq!(
        s.step(ExecEvent::Exited { code: Some(0), signal: None }),
        ExecAction::SendReport(vec![3, 0, 0, 0, 4, 0, 0, 0, 0])
    );
    assert_eq!(s.step(ExecEvent::ReportSent), ExecAction::Flush);
    assert_eq!(s.step(ExecEvent::Flushed), ExecAction::Finish(Ok(())));
    assert!(s.is_finished());
}

#[test]
fn killed_command_reports_its_signal() {
    let mut s = spawned(&["sleep", "100"]);
    assert_eq!(s.step(ExecEvent::OutputClosed), ExecAction::WaitForExit);
    assert_eq!(
        s.step(ExecEvent::Exited { code: None, signal: Some(9) }),
        ExecAction::SendReport(vec![4, 0, 0, 0, 4, 0, 0, 0, 9])
    );
}

#[test]
fn status_without_code_or_signal_sends_no_report() {
    let mut s = spawned(&["true"]);
    s.step(ExecEvent::OutputClosed);
    assert_eq!(s.step(ExecEvent::Exited { code: None, signal: None }), ExecAction::Flush);
    assert_eq!(s.step(ExecEvent::Flushed), ExecAction::Finish(Ok(())));
}

#[test]
fn malformed_request_is_invalid_data() {
    let mut s = started();
    s.step(ExecEvent::RequestRead(3));
    assert_eq!(
        s.step(ExecEvent::ParseFailed("expected value".to_string())),
        ExecAction::Finish(Err(ExecError::InvalidRequest("expected value".to_string())))
    );
}

#[test]
fn empty_command_is_refused_and_nothing_runs() {
    let mut s = started();
    s.step(ExecEvent::RequestRead(14));
    assert_eq!(
        s.step(ExecEvent::RequestParsed(ExecSyncRequest { command: vec![] })),
        ExecAction::Finish(Err(ExecError::EmptyCommand))
    );
    assert_eq!(s.step(ExecEvent::Spawned), ExecAction::Ignore);
}

#[test]
fn io_failures_end_the_session_with_their_stage() {
    let mut s = started();
    assert_eq!(s.step(ExecEvent::ReadFailed), ExecAction::Finish(Err(ExecError::Io(ExecStage::Read))));

    let mut s = started();
    s.step(ExecEvent::RequestRead(20));
    s.step(ExecEvent::RequestParsed(ExecSyncRequest { command: words(&["nope"]) }));
    assert_eq!(s.step(ExecEvent::SpawnFailed), ExecAction::Finish(Err(ExecError::Io(ExecStage::Spawn))));

    let mut s = spawned(&["yes"]);
    s.step(ExecEvent::Output(OutputStream::Stdout, b"y\n".to_vec()));
    assert_eq!(s.step(ExecEvent::WriteFailed), ExecAction::Finish(Err(ExecError::Io(ExecStage::Write))));

    let mut s = spawned(&["yes"]);
    s.step(ExecEvent::OutputClosed);
    assert_eq!(s.step(ExecEvent::WaitFailed), ExecAction::Finish(Err(ExecError::Io(ExecStage::Wait))));
}

#[test]
fn no_report_after_failed_write() {
    let mut s = spawned(&["yes"]);
    s.step(ExecEvent::Output(OutputStream::Stdout, b"y\n".to_vec()));
    s.step(ExecEvent::WriteFailed);
    assert_eq!(s.step(ExecEvent::OutputClosed), ExecAction::Ignore);
    assert_eq!(s.step(ExecEvent::Exited { code: Some(0), signal: None }), ExecAction::Ignore);
    assert!(s.is_finished());
}

#[test]
fn exit_is_not_awaited_before_output_closes() {
    let mut s = spawned(&["cat"]);
    assert_eq!(s.step(ExecEvent::Exited { code: Some(0), signal: None }), ExecAction::Ignore);
    assert_eq!(s.phase(), ExecPhase::Streaming);
    assert_eq!(
        s.step(ExecEvent::Output(OutputStream::Stdout, b"late".to_vec())),
        ExecAction::Write(encode_frame(1, b"late"))
    );
}

#[test]
fn no_output_after_report() {
    let mut s = spawned(&["echo"]);
    s.step(ExecEvent::OutputClosed);
    s.step(ExecEvent::Exited { code: Some(0), signal: None });
    assert_eq!(s.step(ExecEvent::Output(OutputStream::Stdout, b"x".to_vec())), ExecAction::Ignore);
}

#[test]
fn finished_session_ignores_everything() {
    let mut s = started();
    s.step(ExecEvent::RequestRead(0));
    assert_eq!(s.step(ExecEvent::RequestRead(5)), ExecAction::Ignore);
    assert_eq!(s.step(ExecEvent::Spawned), ExecAction::Ignore);
    assert_eq!(s.step(ExecEvent::Flushed), ExecAction::Ignore);
    assert!(s.is_finished());
}

#[test]
fn only_one_command_per_connection() {
    let mut s = spawned(&["a"]);
    assert_eq!(
        s.step(ExecEvent::RequestParsed(ExecSyncRequest { command: words(&["b"]) })),
        ExecAction::Ignore
    );
}

#[test]
fn response_struct_holds_its_fields() {
    let r = ExecSyncResponse { stdout: "o".to_string(), stderr: "e".to_string(), exit_code: 3 };
    assert_eq!(r.exit_code, 3);
    assert_eq!(r.clone(), r);
}
