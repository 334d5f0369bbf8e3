use std::io;
use std::sync::Mutex;

use tokio::io::{AsyncBufReadExt, BufReader};
use vim_matlab::client::{on_incoming, outcome, perform, removes_socket, ClientAction, Incoming};
use vim_matlab::delivery::{write_count, PendingWrite};
use vim_matlab::log::{preview, raw_line};
use vim_matlab::matlab::{Matlab, MatlabActions, ProcessSignal, SignalRequest};
use vim_matlab::server::{on_server_event, ServerAction, ServerEvent};

struct MockMatlab {
    codes: Mutex<Vec<String>>,
    sigints: Mutex<usize>,
    sigterms: Mutex<usize>,
}

impl MockMatlab {
    fn new() -> Self {
        MockMatlab {
            codes: Mutex::new(vec![]),
            sigints: Mutex::new(0),
            sigterms: Mutex::new(0),
        }
    }
}

impl MatlabActions for MockMatlab {
    fn send_code(&self, code: &str) -> io::Result<()> {
        self.codes.lock().unwrap().push(code.to_string());
        Ok(())
    }
    fn send_sigint(&self) {
        *self.sigints.lock().unwrap() += 1;
    }
    fn send_sigterm(&self) {
        *self.sigterms.lock().unwrap() += 1;
    }
}

struct ErrorMatlab;

impl MatlabActions for ErrorMatlab {
    fn send_code(&self, _code: &str) -> io::Result<()> {
        Err(io::Error::new(io::ErrorKind::Other, "send error"))
    }
    fn send_sigint(&self) {}
    fn send_sigterm(&self) {}
}

/// Serves a client that sends `bytes` and closes the connection. Gives the
/// result of the connection, the errors for the log, and how often the socket
/// file was to be removed.
fn handle_client(bytes: &[u8], matlab: &impl MatlabActions) -> (io::Result<bool>, usize, usize) {
    let runtime = tokio::runtime::Builder::new_current_thread().build().unwrap();
    runtime.block_on(async {
        let mut lines = BufReader::new(bytes).lines();
        let mut failures = 0;
        let mut removals = 0;
        loop {
            let incoming = match lines.next_line().await {
                Ok(Some(line)) => Incoming::Line(line),
                Ok(None) => Incoming::End,
                Err(e) => Incoming::Failed(e),
            };
            let action = on_incoming(incoming);
            if perform(&action, matlab).is_err() {
                failures += 1;
            }
            if removes_socket(&action) {
                removals += 1;
            }
            if let Some(result) = outcome(action) {
                return (result, failures, removals);
            }
        }
    })
}

#[test]
fn test_handle_client_run_code() {
    let mock = MockMatlab::new();
    let (result, failures, removals) = handle_client(b"x = 1\ny = 2\n", &mock);
    assert!(!result.unwrap());
    assert_eq!(mock.codes.lock().unwrap().as_slice(), &["x = 1", "y = 2"]);
    assert_eq!((failures, removals), (0, 0));
}

#[test]
fn test_handle_client_long_code() {
    let mock = MockMatlab::new();
    let long_code = "a".repeat(100);
    let (result, _, _) = handle_client(format!("{}\n", long_code).as_bytes(), &mock);
    assert!(result.is_ok());
    assert_eq!(mock.codes.lock().unwrap()[0], long_code);
}

#[test]
fn test_handle_client_cancel() {
    let mock = MockMatlab::new();
    let (result, _, _) = handle_client(b"cancel\n", &mock);
    assert!(result.is_ok());
    assert_eq!(*mock.sigints.lock().unwrap(), 1);
}

#[test]
fn test_handle_client_kill() {
    let mock = MockMatlab::new();
    let (result, _, removals) = handle_client(b"kill\n", &mock);
    assert!(result.unwrap());
    assert_eq!(*mock.sigterms.lock().unwrap(), 1);
    assert_eq!(removals, 1);
}

#[test]
fn test_handle_client_send_error() {
    // Should not return error, just log it
    let (result, failures, _) = handle_client(b"x = 1\n", &ErrorMatlab);
    assert!(result.is_ok());
    assert_eq!(failures, 1);
}

/// Runs a server that is given these clients one after another, and after
/// them an error. Gives its result and how often the socket file was to be
/// removed.
fn run_with_listener(
    clients: Vec<&[u8]>,
    shutdown: bool,
    matlab: &impl MatlabActions,
) -> (io::Result<()>, usize) {
    let mut clients = clients.into_iter();
    let mut removals = 0;
    let mut client: &[u8] = b"";
    let mut action = ServerAction::AwaitClient;
    loop {
        let event = match action {
            ServerAction::AwaitClient => match clients.next() {
                Some(bytes) => {
                    client = bytes;
                    ServerEvent::Connected
                }
                None if shutdown => ServerEvent::ShutdownRequested,
                None => {
                    ServerEvent::AcceptFailed(io::Error::new(io::ErrorKind::Other, "done"))
                }
            },
            ServerAction::Serve => {
                let (result, _, removed) = handle_client(client, matlab);
                removals += removed;
                ServerEvent::Disconnected(result)
            }
            ServerAction::Finish(result) => return (result, removals),
            ServerAction::RemoveStale | ServerAction::Bind => panic!(),
        };
        action = on_server_event(event);
    }
}

#[test]
fn test_run_with_listener_kill() {
    let mock = MockMatlab::new();
    let (result, removals) = run_with_listener(vec![b"kill\n"], false, &mock);
    assert!(result.is_ok());
    assert_eq!(*mock.sigterms.lock().unwrap(), 1);
    assert_eq!(removals, 1);
}

#[test]
fn test_run_with_listener_client_disconnect() {
    // Client connects but sends nothing; the second accept fails.
    let mock = MockMatlab::new();
    let (result, removals) = run_with_listener(vec![b""], false, &mock);
    assert!(result.is_err());
    assert_eq!(removals, 0);
}

#[test]
fn test_run_with_listener_shutdown() {
    let mock = MockMatlab::new();
    let (result, _) = run_with_listener(vec![], true, &mock);
    assert!(result.is_ok());
}

#[test]
fn clients_are_served_one_after_another() {
    let mock = MockMatlab::new();
    let clients: Vec<&[u8]> = vec![b"a\nb\n", b"cancel\n", b"", b"c", b"d\nkill\ne\n", b"f\n"];
    let (result, removals) = run_with_listener(clients, false, &mock);
    assert!(result.is_ok());
    assert_eq!(mock.codes.lock().unwrap().as_slice(), &["a", "b", "c", "d"]);
    assert_eq!(*mock.sigints.lock().unwrap(), 1);
    assert_eq!(*mock.sigterms.lock().unwrap(), 1);
    assert_eq!(removals, 1);
}

#[test]
fn an_unreadable_line_stops_the_server() {
    let mock = MockMatlab::new();
    let (result, removals) = run_with_listener(vec![b"\xff\n", b"a\n"], false, &mock);
    assert_eq!(result.unwrap_err().kind(), io::ErrorKind::InvalidData);
    assert!(mock.codes.lock().unwrap().is_empty());
    assert_eq!(removals, 0);
}

#[test]
fn nothing_is_done_after_kill() {
    let mock = MockMatlab::new();
    let (result, _, removals) =
        handle_client(b"a\ncancel\n  b  \n\tkill \nc\ncancel\nkill\n", &mock);
    assert!(result.unwrap());
    assert_eq!(mock.codes.lock().unwrap().as_slice(), &["a", "b"]);
    assert_eq!(*mock.sigints.lock().unwrap(), 1);
    assert_eq!(*mock.sigterms.lock().unwrap(), 1);
    assert_eq!(removals, 1);
}

#[test]
fn only_kill_removes_the_socket() {
    let line = |text: &str| on_incoming::<()>(Incoming::Line(text.to_string()));
    assert!(removes_socket(&line(" kill ")));
    assert!(!removes_socket(&line("cancel")));
    assert!(!removes_socket(&line("kill it")));
    assert!(!removes_socket(&on_incoming::<()>(Incoming::End)));
    assert!(!removes_socket(&on_incoming(Incoming::Failed(()))));
}

#[test]
fn an_unreadable_line_is_an_error() {
    let mock = MockMatlab::new();
    let (result, _, _) = handle_client(b"a\n\xff\xfe\nb\n", &mock);
    assert_eq!(result.unwrap_err().kind(), io::ErrorKind::InvalidData);
    assert_eq!(mock.codes.lock().unwrap().as_slice(), &["a"]);
}

#[test]
fn a_carriage_return_is_no_part_of_the_code() {
    let mock = MockMatlab::new();
    handle_client(b"x\r\n\r\nlast", &mock).0.unwrap();
    assert_eq!(mock.codes.lock().unwrap().as_slice(), &["x", "", "last"]);
}

#[test]
fn code_and_preview_of_an_action() {
    let line = format!("  {}  ", "b".repeat(81));
    match on_incoming::<()>(Incoming::Line(line)) {
        ClientAction::Run { code, preview } => {
            assert_eq!(code, "b".repeat(81));
            assert_eq!(preview, format!("{}...", "b".repeat(80)));
        }
        _ => panic!(),
    }
}

#[test]
fn preview_counts_bytes_and_shows_characters() {
    assert_eq!(preview(&"a".repeat(80)), "a".repeat(80));
    assert_eq!(preview(&"a".repeat(81)), format!("{}...", "a".repeat(80)));
    // 41 characters, 82 bytes
    let accents = "\u{e9}".repeat(41);
    assert_eq!(preview(&accents), format!("{}...", accents));
    let many = "\u{e9}".repeat(100);
    assert_eq!(preview(&many), format!("{}...", "\u{e9}".repeat(80)));
    assert_eq!(preview(""), "");
}

#[test]
fn test_log_raw_macro() {
    assert_eq!(raw_line(&format!("test log: {}", 123)), "\rtest log: 123");
}

/// Delivers pending bytes by writes that take at most `step` bytes each.
fn deliver(mut pending: PendingWrite, step: usize) -> Vec<u8> {
    let mut out = vec![];
    while let Some(chunk) = pending.chunk() {
        let n = std::cmp::min(step, chunk.len());
        out.extend_from_slice(&chunk[..n]);
        pending.accept(n);
    }
    out
}

#[test]
fn test_send_code_empty_string() {
    // Empty string sends only "\n".
    assert_eq!(deliver(PendingWrite::of_code(""), 4096), b"\n");
}

#[test]
fn test_send_code_unicode() {
    // Multi-byte UTF-8 must be written completely, also when the writes cut
    // a character in two.
    for step in 1..8 {
        let bytes = deliver(PendingWrite::of_code("caf\u{e9}"), step);
        assert_eq!(String::from_utf8(bytes).unwrap(), "caf\u{e9}\n");
    }
}

#[test]
fn a_write_that_takes_nothing_changes_nothing() {
    let mut pending = PendingWrite::new(b"world".to_vec());
    pending.accept(0);
    assert_eq!(pending.chunk().unwrap(), b"world");
    pending.accept(2);
    assert_eq!(pending.chunk().unwrap(), b"rld");
    pending.accept(3);
    assert!(pending.chunk().is_none());
    assert!(PendingWrite::new(vec![]).chunk().is_none());
}

#[test]
fn test_raw_write_all_error() {
    assert_eq!(write_count(-1), None);
    assert_eq!(write_count(0), Some(0));
    assert_eq!(write_count(5), Some(5));
}

#[test]
fn test_child_pid_is_positive() {
    assert_eq!(Matlab::new(4711).child_pid(), 4711);
    assert!(Matlab::new(i32::MAX).child_pid() > 0);
}

#[test]
fn signals_for_the_process_and_its_group() {
    let matlab = Matlab::new(4711);
    assert_eq!(
        matlab.interrupt(),
        SignalRequest { pid: 4711, signal: ProcessSignal::Interrupt }
    );
    assert_eq!(
        matlab.terminate(),
        SignalRequest { pid: 4711, signal: ProcessSignal::Terminate }
    );
    assert_eq!(
        matlab.kill_session(),
        SignalRequest { pid: -4711, signal: ProcessSignal::Terminate }
    );
    assert_eq!(Matlab::new(i32::MAX).kill_session().pid, -i32::MAX);
}
