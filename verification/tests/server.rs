use vim_matlab::host::HostConstants;
use vim_matlab::pump::{
    on_input, on_output, read_count, InputAction, InputEvent, OutputAction, OutputEvent,
};
use vim_matlab::server::{on_server_event, ServerAction, ServerEvent};
use vim_matlab::supervisor::{
    cleanup, notice, signal_notice, CleanupStep, ShutdownCause, SignalSources, SignalWait,
    WatchedSignal,
};

fn after(event: ServerEvent<&'static str>) -> ServerAction<&'static str> {
    on_server_event(event)
}

#[test]
fn a_stale_socket_file_is_removed_before_binding() {
    assert!(matches!(
        after(ServerEvent::Started { stale: true }),
        ServerAction::RemoveStale
    ));
    assert!(matches!(after(ServerEvent::Removed), ServerAction::Bind));
    assert!(matches!(
        after(ServerEvent::Started { stale: false }),
        ServerAction::Bind
    ));
    assert!(matches!(after(ServerEvent::Bound), ServerAction::AwaitClient));
}

#[test]
fn a_client_can_end_the_server() {
    assert!(matches!(after(ServerEvent::Connected), ServerAction::Serve));
    assert!(matches!(
        after(ServerEvent::Disconnected(Ok(true))),
        ServerAction::Finish(Ok(()))
    ));
}

#[test]
fn the_server_goes_on_when_a_client_leaves() {
    // The server goes on when a client leaves; that no other client can be
    // accepted is an error.
    assert!(matches!(
        after(ServerEvent::Disconnected(Ok(false))),
        ServerAction::AwaitClient
    ));
    assert!(matches!(
        after(ServerEvent::AcceptFailed("done")),
        ServerAction::Finish(Err("done"))
    ));
}

#[test]
fn the_server_stops_on_request() {
    assert!(matches!(
        after(ServerEvent::ShutdownRequested),
        ServerAction::Finish(Ok(()))
    ));
}

#[test]
fn server_errors_are_passed_on() {
    for event in [
        ServerEvent::RemoveFailed("reason"),
        ServerEvent::BindFailed("reason"),
        ServerEvent::AcceptFailed("reason"),
        ServerEvent::Disconnected(Err("reason")),
    ] {
        assert!(matches!(after(event), ServerAction::Finish(Err("reason"))));
    }
}

#[test]
fn a_successful_read_counts() {
    let host = HostConstants::current();
    assert_eq!(read_count(&host, 5, None), Some(5));
    // A leftover error code means nothing when the call succeeded.
    assert_eq!(read_count(&host, 5, Some(libc::EIO)), Some(5));
}

#[test]
fn a_read_of_nothing_is_the_end() {
    assert_eq!(read_count(&HostConstants::current(), 0, None), Some(0));
}

#[test]
fn an_input_error_is_the_end() {
    let host = HostConstants::current();
    assert_eq!(read_count(&host, -1, Some(libc::EIO)), Some(0));
}

#[test]
fn test_raw_read_error() {
    let host = HostConstants::current();
    assert_eq!(read_count(&host, -1, Some(libc::EBADF)), None);
    assert_eq!(read_count(&host, -1, None), None);
}

/// Forwards output that is read in the given portions, and gives what was
/// written, the number of flushes, and whether an exit was announced.
fn forward_output(portions: Vec<Vec<u8>>) -> (Vec<u8>, usize, bool) {
    let mut portions = portions.into_iter();
    let mut written = vec![];
    let mut flushes = 0;
    let mut action = OutputAction::AwaitReadable;
    loop {
        let event = match action {
            OutputAction::AwaitReadable => OutputEvent::Readable,
            OutputAction::Read => match portions.next() {
                Some(portion) => OutputEvent::Data(portion),
                None => OutputEvent::ReadFailed,
            },
            OutputAction::Write(bytes) => {
                written.extend(bytes);
                OutputEvent::Written
            }
            OutputAction::Flush => {
                flushes += 1;
                OutputEvent::Flushed
            }
            OutputAction::AnnounceExit => return (written, flushes, true),
            OutputAction::Stop => return (written, flushes, false),
        };
        action = on_output(event);
    }
}

#[test]
fn test_forward_pty_to_stdout_eof() {
    assert_eq!(forward_output(vec![vec![]]), (vec![], 0, true));
}

#[test]
fn test_forward_pty_to_stdout_data() {
    let (written, flushes, announced) =
        forward_output(vec![b"test ".to_vec(), b"data".to_vec(), vec![]]);
    assert_eq!(written, b"test data");
    assert_eq!(flushes, 2);
    assert!(announced);
}

#[test]
fn nothing_is_flushed_or_read_after_a_failed_write() {
    let action = on_output(OutputEvent::Data(b"lost".to_vec()));
    assert!(matches!(action, OutputAction::Write(bytes) if bytes == b"lost"));
    assert!(matches!(
        on_output(OutputEvent::WriteFailed),
        OutputAction::Stop
    ));
}

#[test]
fn output_stops_at_a_failure_without_an_announcement() {
    assert_eq!(
        forward_output(vec![b"a".to_vec()]),
        (b"a".to_vec(), 1, false)
    );
    assert!(matches!(
        on_output(OutputEvent::NotReadable),
        OutputAction::Stop
    ));
    assert!(matches!(
        on_output(OutputEvent::WriteFailed),
        OutputAction::Stop
    ));
    assert!(matches!(
        on_output(OutputEvent::WouldBlock),
        OutputAction::AwaitReadable
    ));
}

#[test]
fn test_forward_stdin_to_pty_read_error() {
    assert!(matches!(on_input(InputEvent::ReadFailed), InputAction::Stop));
}

#[test]
fn test_forward_stdin_to_pty_write_error() {
    assert!(matches!(
        on_input(InputEvent::WriteFailed),
        InputAction::Stop
    ));
}

#[test]
fn test_forward_stdin_to_pty_data() {
    match on_input(InputEvent::Data(b"to pty".to_vec())) {
        InputAction::Write(bytes) => assert_eq!(bytes, b"to pty"),
        _ => panic!(),
    }
    assert!(matches!(on_input(InputEvent::Written), InputAction::Read));
    assert!(matches!(
        on_input(InputEvent::Data(vec![])),
        InputAction::Stop
    ));
}

#[test]
fn no_signal_is_waited_for() {
    let sources = SignalSources { interrupt: false, terminate: false };
    assert_eq!(sources.wait(), SignalWait::Never);
}

#[test]
fn an_interrupt_is_waited_for() {
    let sources = SignalSources { interrupt: true, terminate: false };
    assert_eq!(
        sources.wait(),
        SignalWait::Only(WatchedSignal::Interrupt)
    );
    assert_eq!(
        signal_notice(WatchedSignal::Interrupt),
        "[server] caught SIGINT"
    );
}

#[test]
fn a_termination_is_waited_for() {
    let sources = SignalSources { interrupt: false, terminate: true };
    assert_eq!(
        sources.wait(),
        SignalWait::Only(WatchedSignal::Terminate)
    );
    assert_eq!(
        signal_notice(WatchedSignal::Terminate),
        "[server] caught SIGTERM"
    );
}

#[test]
fn either_signal_is_waited_for() {
    let sources = SignalSources { interrupt: true, terminate: true };
    assert_eq!(sources.wait(), SignalWait::Either);
}

#[test]
fn the_socket_is_removed_on_all_exit_paths() {
    for cause in [
        ShutdownCause::ServerEnded,
        ShutdownCause::MatlabExited,
        ShutdownCause::SignalCaught,
        ShutdownCause::Requested,
    ] {
        assert_eq!(
            cleanup(cause),
            [
                CleanupStep::StopServer,
                CleanupStep::StopTasks,
                CleanupStep::KillSession,
                CleanupStep::RemoveSocket,
            ]
        );
    }
}

#[test]
fn notices_of_the_cause() {
    assert_eq!(notice(ShutdownCause::ServerEnded), None);
    assert_eq!(
        notice(ShutdownCause::MatlabExited),
        Some("[server] MATLAB exited, shutting down")
    );
    assert_eq!(
        notice(ShutdownCause::SignalCaught),
        Some("[server] signal received, shutting down")
    );
    assert_eq!(
        notice(ShutdownCause::Requested),
        Some("[server] external shutdown received")
    );
}
