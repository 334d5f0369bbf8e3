use nix::fcntl::OFlag;
use vim_matlab::host::HostConstants;
use vim_matlab::spawn::{
    on_spawn, rejection, zero_position, ChildStep, LaunchErrorKind, SpawnAction, SpawnEvent,
    WindowSize,
};

fn after(cmd: &str, event: SpawnEvent<&'static str>) -> SpawnAction<&'static str> {
    on_spawn(&HostConstants::current(), cmd, event)
}

#[test]
fn test_spawn_rejects_null_byte() {
    // The command is rejected before fork() is ever called.
    match after("echo\0hello", SpawnEvent::PtyOpened { slave: 5 }) {
        SpawnAction::RejectCommand { position } => {
            assert_eq!(position, 4);
            let error = rejection(position);
            assert_eq!(error.kind, LaunchErrorKind::InvalidInput);
            assert_eq!(
                error.message,
                "matlab_cmd contains a null byte: nul byte found in provided data at position: 4"
            );
        }
        _ => panic!(),
    }
}

#[test]
fn test_pty_window_size() {
    match after("cat", SpawnEvent::Begun) {
        SpawnAction::OpenPty(size) => assert_eq!(
            size,
            WindowSize { rows: 24, cols: 80, xpixel: 0, ypixel: 0 }
        ),
        _ => panic!(),
    }
}

#[test]
fn test_master_fd_is_nonblocking() {
    match after("cat", SpawnEvent::FlagsRead(libc::O_RDWR | libc::O_APPEND)) {
        SpawnAction::SetFlags(flags) => {
            let oflags = OFlag::from_bits_truncate(flags);
            assert!(oflags.contains(OFlag::O_NONBLOCK));
            assert!(oflags.contains(OFlag::O_APPEND));
            assert!(oflags.contains(OFlag::O_RDWR));
        }
        _ => panic!(),
    }
}

#[test]
fn flags_are_those_of_nix() {
    for flags in [0, 2, -1, 0x8000, 0o4002, i32::MAX, i32::MIN, libc::O_CLOEXEC] {
        let mut expected = OFlag::from_bits_truncate(flags);
        expected.insert(OFlag::O_NONBLOCK);
        match after("cat", SpawnEvent::FlagsRead(flags)) {
            SpawnAction::SetFlags(set) => assert_eq!(set, expected.bits()),
            _ => panic!(),
        }
    }
}

#[test]
fn the_child_runs_the_command_in_a_shell() {
    match after("matlab -nosplash", SpawnEvent::PtyOpened { slave: 7 }) {
        SpawnAction::Fork { argv, child, close } => {
            assert_eq!(close, 7);
            assert_eq!(argv, ["/bin/bash", "-c", "matlab -nosplash"]);
            assert_eq!(
                child,
                [
                    ChildStep::CloseMaster,
                    ChildStep::NewSession,
                    ChildStep::ControllingTerminal(7),
                    ChildStep::Duplicate { from: 7, onto: 0 },
                    ChildStep::Duplicate { from: 7, onto: 1 },
                    ChildStep::Duplicate { from: 7, onto: 2 },
                    ChildStep::Close(7),
                    ChildStep::Execute,
                    ChildStep::ReportFailure,
                    ChildStep::Exit(127),
                ]
            );
        }
        _ => panic!(),
    }
}

#[test]
fn a_standard_stream_is_not_closed() {
    match after("cat", SpawnEvent::PtyOpened { slave: 2 }) {
        SpawnAction::Fork { child, .. } => {
            assert_eq!(child.len(), 9);
            assert!(!child.contains(&ChildStep::Close(2)));
        }
        _ => panic!(),
    }
}

#[test]
fn a_launch_from_begin_to_end() {
    assert!(matches!(
        after("cat", SpawnEvent::Forked),
        SpawnAction::AwaitExec
    ));
    assert!(matches!(
        after("cat", SpawnEvent::Executed),
        SpawnAction::ReadFlags
    ));
    assert!(matches!(
        after("cat", SpawnEvent::FlagsSet),
        SpawnAction::Ready
    ));
}

#[test]
fn launch_errors_are_passed_on() {
    for event in [
        SpawnEvent::PtyFailed("reason"),
        SpawnEvent::ForkFailed("reason"),
        SpawnEvent::ExecFailed("reason"),
        SpawnEvent::FlagsUnread("reason"),
        SpawnEvent::FlagsUnset("reason"),
    ] {
        assert!(matches!(after("cat", event), SpawnAction::Fail("reason")));
    }
}

#[test]
fn positions_of_zero_bytes() {
    assert_eq!(zero_position("cat"), None);
    assert_eq!(zero_position(""), None);
    assert_eq!(zero_position("\0"), Some(0));
    assert_eq!(zero_position("a\0b\0"), Some(1));
    assert_eq!(zero_position("\u{e9}\0"), Some(2));
}
