//! Launching MATLAB in a pseudo-terminal.

use crate::host::HostConstants;
use crate::text::decimal_text;
use vstd::prelude::*;
use vstd::string::*;

verus! {

use crate::text::{ascii_bytes_are_characters, decimal};
use vstd::utf8::encode_utf8;

/// The size of a terminal.
#[derive(Debug, Clone, Copy, PartialEq, Eq, Structural)]
pub struct WindowSize {
    pub rows: u16,
    pub cols: u16,
    pub xpixel: u16,
    pub ypixel: u16,
}

/// A step of the child process before it becomes MATLAB.
#[derive(Debug, Clone, Copy, PartialEq, Eq, Structural)]
pub enum ChildStep {
    /// Close the master side of the pseudo-terminal.
    CloseMaster,
    /// Start a session.
    NewSession,
    /// Make this descriptor the controlling terminal of the session.
    ControllingTerminal(i32),
    /// Make the descriptor `onto` a copy of the descriptor `from`.
    Duplicate { from: i32, onto: i32 },
    /// Close this descriptor.
    Close(i32),
    /// Become the program that is to be run.
    Execute,
    /// Tell the parent why the program could not be run.
    ReportFailure,
    /// Exit with this status, since the program could not be run.
    Exit(i32),
}

/// What came of an action while MATLAB is launched.
pub enum SpawnEvent<E> {
    /// The launch begins.
    Begun,
    /// A pseudo-terminal was opened; this is the descriptor of its slave side.
    PtyOpened { slave: i32 },
    /// No pseudo-terminal could be opened.
    PtyFailed(E),
    /// The process was forked, and this is the parent.
    Forked,
    /// The process could not be forked.
    ForkFailed(E),
    /// The child has become the program.
    Executed,
    /// The child could not become the program, and told why.
    ExecFailed(E),
    /// The status flags of the master side were read.
    FlagsRead(i32),
    /// They could not be read.
    FlagsUnread(E),
    /// They were set.
    FlagsSet,
    /// They could not be set.
    FlagsUnset(E),
}

/// An action while MATLAB is launched.
pub enum SpawnAction<E> {
    /// Open a pseudo-terminal of this size.
    OpenPty(WindowSize),
    /// Fork. The child goes through `child`, where [`ChildStep::Execute`] runs
    /// the program `argv[0]` with the arguments `argv`. The parent closes the
    /// descriptor `close`.
    Fork { argv: Vec<String>, child: Vec<ChildStep>, close: i32 },
    /// Wait until the child has become the program or told that it could not.
    AwaitExec,
    /// Read the status flags of the master side.
    ReadFlags,
    /// Set the status flags of the master side.
    SetFlags(i32),
    /// MATLAB is launched.
    Ready,
    /// The command has a zero byte at this position and cannot be run.
    RejectCommand { position: usize },
    /// Give up with this error.
    Fail(E),
}

/// The mathematical content of a [`SpawnAction`].
pub enum SpawnActionView<E> {
    OpenPty(WindowSize),
    Fork { argv: Seq<Seq<char>>, child: Seq<ChildStep>, close: i32 },
    AwaitExec,
    ReadFlags,
    SetFlags(i32),
    Ready,
    RejectCommand { position: int },
    Fail(E),
}

impl<E> View for SpawnAction<E> {
    type V = SpawnActionView<E>;

    open spec fn view(&self) -> SpawnActionView<E> {
        match *self {
            SpawnAction::OpenPty(size) => SpawnActionView::OpenPty(size),
            SpawnAction::Fork { argv, child, close } => SpawnActionView::Fork {
                argv: argv@.map_values(|arg: String| arg@),
                child: child@,
                close,
            },
            SpawnAction::AwaitExec => SpawnActionView::AwaitExec,
            SpawnAction::ReadFlags => SpawnActionView::ReadFlags,
            SpawnAction::SetFlags(flags) => SpawnActionView::SetFlags(flags),
            SpawnAction::Ready => SpawnActionView::Ready,
            SpawnAction::RejectCommand { position } => SpawnActionView::RejectCommand {
                position: position as int,
            },
            SpawnAction::Fail(e) => SpawnActionView::Fail(e),
        }
    }
}

/// The size of the pseudo-terminal. MATLAB may hang without one.
pub open spec fn terminal_size() -> WindowSize {
    WindowSize { rows: 24, cols: 80, xpixel: 0, ypixel: 0 }
}

/// The argument vector that runs a command in a shell, so that the command is
/// looked up in `PATH` and may use what the shell offers.
pub open spec fn shell_argv(cmd: Seq<char>) -> Seq<Seq<char>> {
    seq!["/bin/bash"@, "-c"@, cmd]
}

/// The steps of the child, given the descriptor of the slave side: it leaves
/// the master side to its parent, and makes the slave side its controlling
/// terminal and its standard input, output and error. What follows
/// [`ChildStep::Execute`] is reached only where the program cannot be run.
pub open spec fn child_steps(slave: i32) -> Seq<ChildStep> {
    seq![
        ChildStep::CloseMaster,
        ChildStep::NewSession,
        ChildStep::ControllingTerminal(slave),
        ChildStep::Duplicate { from: slave, onto: 0 },
        ChildStep::Duplicate { from: slave, onto: 1 },
        ChildStep::Duplicate { from: slave, onto: 2 },
    ] + (if slave > 2 {
        seq![ChildStep::Close(slave)]
    } else {
        seq![]
    }) + seq![ChildStep::Execute, ChildStep::ReportFailure, ChildStep::Exit(127)]
}

/// Status flags with the flag for non-blocking operation, and without flags
/// that have no name.
pub open spec fn nonblocking(host: HostConstants, flags: i32) -> i32 {
    (flags & host.known_flags) | host.nonblock
}

/// Whether the first zero byte of a command is at this position.
pub open spec fn first_zero(cmd: Seq<char>, position: int) -> bool {
    &&& 0 <= position < encode_utf8(cmd).len()
    &&& encode_utf8(cmd)[position] == 0
    &&& forall|i: int| 0 <= i < position ==> #[trigger] encode_utf8(cmd)[i] != 0
}

/// Whether an action follows an event while `cmd` is launched.
pub open spec fn spawn_reaction<E>(
    host: HostConstants,
    cmd: Seq<char>,
    event: SpawnEvent<E>,
    action: SpawnActionView<E>,
) -> bool {
    match event {
        SpawnEvent::Begun => action == SpawnActionView::<E>::OpenPty(terminal_size()),
        SpawnEvent::PtyOpened { slave } => match action {
            SpawnActionView::RejectCommand { position } => first_zero(cmd, position),
            SpawnActionView::Fork { argv, child, close } => {
                &&& forall|i: int| !first_zero(cmd, i)
                &&& argv == shell_argv(cmd)
                &&& child == child_steps(slave)
                &&& close == slave
            },
            _ => false,
        },
        SpawnEvent::PtyFailed(e) => action == SpawnActionView::Fail(e),
        SpawnEvent::Forked => action == SpawnActionView::<E>::AwaitExec,
        SpawnEvent::ForkFailed(e) => action == SpawnActionView::Fail(e),
        SpawnEvent::Executed => action == SpawnActionView::<E>::ReadFlags,
        SpawnEvent::ExecFailed(e) => action == SpawnActionView::Fail(e),
        SpawnEvent::FlagsRead(flags) => action == SpawnActionView::<E>::SetFlags(
            nonblocking(host, flags),
        ),
        SpawnEvent::FlagsUnread(e) => action == SpawnActionView::Fail(e),
        SpawnEvent::FlagsSet => action == SpawnActionView::<E>::Ready,
        SpawnEvent::FlagsUnset(e) => action == SpawnActionView::Fail(e),
    }
}

/// Finds the first zero byte of a command.
pub fn zero_position(cmd: &str) -> (res: Option<usize>)
    ensures
        match res {
            Some(position) => first_zero(cmd@, position as int),
            None => forall|i: int| !first_zero(cmd@, i),
        },
        res is None ==> forall|i: int|
            0 <= i < encode_utf8(cmd@).len() ==> #[trigger] encode_utf8(cmd@)[i] != 0,
        res matches Some(position) ==> {
            &&& position < encode_utf8(cmd@).len()
            &&& encode_utf8(cmd@)[position as int] == 0
            &&& forall|i: int| 0 <= i < position ==> #[trigger] encode_utf8(cmd@)[i] != 0
        },
{
    let bytes = cmd.as_bytes();
    let mut i: usize = 0;
    while i < bytes.len()
        invariant
            bytes@ == encode_utf8(cmd@),
            i <= bytes.len(),
            forall|k: int| 0 <= k < i ==> #[trigger] encode_utf8(cmd@)[k] != 0,
        decreases bytes.len() - i,
    {
        if bytes[i] == 0 {
            return Some(i);
        }
        i = i + 1;
    }
    None
}

/// The kind of an error of the launch itself.
#[derive(Debug, Clone, Copy, PartialEq, Eq, Structural)]
pub enum LaunchErrorKind {
    /// The command itself is at fault.
    InvalidInput,
}

/// The error that is given for a command that is rejected.
#[derive(Debug)]
pub struct Rejection {
    pub kind: LaunchErrorKind,
    pub message: String,
}

/// The error for a command that has its first zero byte at this position.
pub fn rejection(position: usize) -> (res: Rejection)
    ensures
        res.kind == LaunchErrorKind::InvalidInput,
        res.message@
            == "matlab_cmd contains a null byte: nul byte found in provided data at position: "@
            + decimal(position as nat),
{
    let mut message =
        "matlab_cmd contains a null byte: nul byte found in provided data at position: ".to_owned();
    let number = decimal_text(position as u64);
    message.append(number.as_str());
    Rejection { kind: LaunchErrorKind::InvalidInput, message }
}

/// Lists the steps of the child. The list is made before the process is
/// forked, since the child must not allocate.
fn plan_child(slave: i32) -> (res: Vec<ChildStep>)
    ensures
        res@ == child_steps(slave),
{
    let mut steps: Vec<ChildStep> = Vec::new();
    steps.push(ChildStep::CloseMaster);
    steps.push(ChildStep::NewSession);
    steps.push(ChildStep::ControllingTerminal(slave));
    steps.push(ChildStep::Duplicate { from: slave, onto: 0 });
    steps.push(ChildStep::Duplicate { from: slave, onto: 1 });
    steps.push(ChildStep::Duplicate { from: slave, onto: 2 });
    if slave > 2 {
        steps.push(ChildStep::Close(slave));
    }
    steps.push(ChildStep::Execute);
    steps.push(ChildStep::ReportFailure);
    steps.push(ChildStep::Exit(127));
    assert(steps@ == child_steps(slave));
    steps
}

/// Decides how the launch of `cmd` goes on.
pub fn on_spawn<E>(host: &HostConstants, cmd: &str, event: SpawnEvent<E>) -> (res: SpawnAction<E>)
    ensures
        spawn_reaction(*host, cmd@, event, res@),
        res is OpenPty <==> event is Begun,
        res matches SpawnAction::OpenPty(size) ==> size.rows == 24 && size.cols == 80 && size.xpixel
            == 0 && size.ypixel == 0,
        res is Fork <==> event is PtyOpened && !cmd@.contains('\0'),
        res matches SpawnAction::Fork { argv, child, close } ==> {
            &&& event == (SpawnEvent::<E>::PtyOpened { slave: close })
            &&& argv@.len() == 3
            &&& argv@[0]@ == "/bin/bash"@
            &&& argv@[1]@ == "-c"@
            &&& argv@[2]@ == cmd@
            &&& child@.len() == (if close > 2 {
                10int
            } else {
                9
            })
            &&& child@[0] is CloseMaster
            &&& child@[1] is NewSession
            &&& child@[2] == ChildStep::ControllingTerminal(close)
            &&& child@[3] == (ChildStep::Duplicate { from: close, onto: 0 })
            &&& child@[4] == (ChildStep::Duplicate { from: close, onto: 1 })
            &&& child@[5] == (ChildStep::Duplicate { from: close, onto: 2 })
            &&& close > 2 ==> child@[6] == ChildStep::Close(close)
            &&& child@[child@.len() - 3] is Execute
            &&& child@[child@.len() - 2] is ReportFailure
            &&& child@[child@.len() - 1] == ChildStep::Exit(127)
        },
        res is RejectCommand <==> event is PtyOpened && cmd@.contains('\0'),
        res matches SpawnAction::RejectCommand { position } ==> {
            &&& position < encode_utf8(cmd@).len()
            &&& encode_utf8(cmd@)[position as int] == 0
            &&& forall|i: int| 0 <= i < position ==> #[trigger] encode_utf8(cmd@)[i] != 0
        },
        res is AwaitExec <==> event is Forked,
        res is ReadFlags <==> event is Executed,
        res is SetFlags <==> event is FlagsRead,
        res matches SpawnAction::SetFlags(new) ==> (event matches SpawnEvent::FlagsRead(flags)
            && new == (flags & host.known_flags) | host.nonblock),
        res is Ready <==> event is FlagsSet,
        res matches SpawnAction::Fail(e) ==> {
            ||| event == SpawnEvent::PtyFailed(e)
            ||| event == SpawnEvent::ForkFailed(e)
            ||| event == SpawnEvent::ExecFailed(e)
            ||| event == SpawnEvent::FlagsUnread(e)
            ||| event == SpawnEvent::FlagsUnset(e)
        },
{
    proof {
        rejected_means_null_character(cmd@);
    }
    match event {
        SpawnEvent::Begun => SpawnAction::OpenPty(
            WindowSize { rows: 24, cols: 80, xpixel: 0, ypixel: 0 },
        ),
        SpawnEvent::PtyOpened { slave } => match zero_position(cmd) {
            Some(position) => SpawnAction::RejectCommand { position },
            None => {
                let mut argv: Vec<String> = Vec::new();
                argv.push("/bin/bash".to_owned());
                argv.push("-c".to_owned());
                argv.push(cmd.to_owned());
                assert(argv@.map_values(|arg: String| arg@) == shell_argv(cmd@));
                SpawnAction::Fork { argv, child: plan_child(slave), close: slave }
            },
        },
        SpawnEvent::PtyFailed(e) => SpawnAction::Fail(e),
        SpawnEvent::Forked => SpawnAction::AwaitExec,
        SpawnEvent::ForkFailed(e) => SpawnAction::Fail(e),
        SpawnEvent::Executed => SpawnAction::ReadFlags,
        SpawnEvent::ExecFailed(e) => SpawnAction::Fail(e),
        SpawnEvent::FlagsRead(flags) => SpawnAction::SetFlags(
            (flags & host.known_flags) | host.nonblock,
        ),
        SpawnEvent::FlagsUnread(e) => SpawnAction::Fail(e),
        SpawnEvent::FlagsSet => SpawnAction::Ready,
        SpawnEvent::FlagsUnset(e) => SpawnAction::Fail(e),
    }
}

/// Whether an event can come of an action.
pub open spec fn spawn_can_follow<E>(action: SpawnActionView<E>, event: SpawnEvent<E>) -> bool {
    match action {
        SpawnActionView::OpenPty(_) => event is PtyOpened || event is PtyFailed,
        SpawnActionView::Fork { .. } => event is Forked || event is ForkFailed,
        SpawnActionView::AwaitExec => event is Executed || event is ExecFailed,
        SpawnActionView::ReadFlags => event is FlagsRead || event is FlagsUnread,
        SpawnActionView::SetFlags(_) => event is FlagsSet || event is FlagsUnset,
        SpawnActionView::Ready => false,
        SpawnActionView::RejectCommand { .. } => false,
        SpawnActionView::Fail(_) => false,
    }
}

/// Whether a launch of `cmd` can go through these events and actions.
pub open spec fn launch_history<E>(
    host: HostConstants,
    cmd: Seq<char>,
    events: Seq<SpawnEvent<E>>,
    actions: Seq<SpawnActionView<E>>,
) -> bool {
    &&& events.len() == actions.len()
    &&& events.len() > 0 ==> events[0] is Begun
    &&& forall|i: int|
        0 <= i < events.len() ==> spawn_reaction(host, cmd, #[trigger] events[i], actions[i])
    &&& forall|i: int|
        0 < i < events.len() ==> spawn_can_follow(actions[i - 1], #[trigger] events[i])
}

/// The stages of a launch, in the order in which they are reached.
pub open spec fn stage<E>(event: SpawnEvent<E>) -> int {
    match event {
        SpawnEvent::Begun => 0,
        SpawnEvent::PtyOpened { .. } => 1,
        SpawnEvent::PtyFailed(_) => 1,
        SpawnEvent::Forked => 2,
        SpawnEvent::ForkFailed(_) => 2,
        SpawnEvent::Executed => 3,
        SpawnEvent::ExecFailed(_) => 3,
        SpawnEvent::FlagsRead(_) => 4,
        SpawnEvent::FlagsUnread(_) => 4,
        SpawnEvent::FlagsSet => 5,
        SpawnEvent::FlagsUnset(_) => 5,
    }
}

/// A launch goes through its stages one by one.
proof fn stages_come_in_order<E>(
    host: HostConstants,
    cmd: Seq<char>,
    events: Seq<SpawnEvent<E>>,
    actions: Seq<SpawnActionView<E>>,
    i: int,
)
    requires
        launch_history(host, cmd, events, actions),
        0 <= i < events.len(),
    ensures
        stage(events[i]) == i,
    decreases i,
{
    if i > 0 {
        stages_come_in_order(host, cmd, events, actions, i - 1);
        assert(spawn_can_follow(actions[i - 1], events[i]));
        assert(spawn_reaction(host, cmd, events[i - 1], actions[i - 1]));
    }
}

/// When MATLAB is launched, a pseudo-terminal of the right size was opened, the
/// child was forked with the shell and its steps for that terminal, the parent
/// has closed the slave side, the child has become the shell, and the master
/// side was made non-blocking.
pub proof fn launched_means_set_up<E>(
    host: HostConstants,
    cmd: Seq<char>,
    events: Seq<SpawnEvent<E>>,
    actions: Seq<SpawnActionView<E>>,
)
    requires
        launch_history(host, cmd, events, actions),
        actions.len() > 0,
        actions.last() is Ready,
    ensures
        actions.len() == 6,
        actions[0] == SpawnActionView::<E>::OpenPty(terminal_size()),
        events[1] matches SpawnEvent::PtyOpened { slave } && actions[1]
            == (SpawnActionView::<E>::Fork {
            argv: shell_argv(cmd),
            child: child_steps(slave),
            close: slave,
        }),
        events[2] is Forked && actions[2] is AwaitExec,
        events[3] is Executed && actions[3] is ReadFlags,
        events[4] matches SpawnEvent::FlagsRead(flags) && actions[4]
            == SpawnActionView::<E>::SetFlags(nonblocking(host, flags)),
        events[5] is FlagsSet,
{
    let n = events.len() - 1;
    assert(spawn_reaction(host, cmd, events[n], actions[n]));
    stages_come_in_order(host, cmd, events, actions, n);
    assert(n == 5);
    assert forall|i: int| 0 <= i < 6 implies stage(#[trigger] events[i]) == i && spawn_reaction(
        host,
        cmd,
        events[i],
        actions[i],
    ) && (i > 0 ==> spawn_can_follow(actions[i - 1], events[i])) by {
        stages_come_in_order(host, cmd, events, actions, i);
    }
    assert(stage(events[0]) == 0);
    assert(stage(events[1]) == 1);
    assert(stage(events[2]) == 2);
    assert(stage(events[3]) == 3);
    assert(stage(events[4]) == 4);
}

/// The error that an event carries.
pub open spec fn launch_failure<E>(event: SpawnEvent<E>) -> Option<E> {
    match event {
        SpawnEvent::PtyFailed(e) => Some(e),
        SpawnEvent::ForkFailed(e) => Some(e),
        SpawnEvent::ExecFailed(e) => Some(e),
        SpawnEvent::FlagsUnread(e) => Some(e),
        SpawnEvent::FlagsUnset(e) => Some(e),
        _ => None,
    }
}

/// A launch fails exactly when the pseudo-terminal cannot be opened, the fork or
/// the exec fails, or the flags cannot be read or set, with the error of what
/// failed; and it goes no further then. In particular MATLAB is never taken for
/// launched after that.
pub proof fn a_failure_ends_the_launch<E>(
    host: HostConstants,
    cmd: Seq<char>,
    events: Seq<SpawnEvent<E>>,
    actions: Seq<SpawnActionView<E>>,
    i: int,
)
    requires
        launch_history(host, cmd, events, actions),
        0 <= i < events.len(),
    ensures
        forall|e: E|
            actions[i] == SpawnActionView::Fail(e) <==> launch_failure(events[i]) == Some(e),
        launch_failure(events[i]) is Some ==> i == events.len() - 1 && !(actions.last() is Ready),
{
    assert(spawn_reaction(host, cmd, events[i], actions[i]));
    if i < events.len() - 1 {
        assert(spawn_can_follow(actions[i], events[i + 1]));
    }
}

/// A command with a zero byte is rejected before anything is forked.
pub proof fn zero_byte_prevents_the_fork<E>(
    host: HostConstants,
    cmd: Seq<char>,
    position: int,
    events: Seq<SpawnEvent<E>>,
    actions: Seq<SpawnActionView<E>>,
    i: int,
)
    requires
        first_zero(cmd, position),
        launch_history(host, cmd, events, actions),
        0 <= i < actions.len(),
    ensures
        !(actions[i] is Fork) && !(actions[i] is Ready),
        actions[i] matches SpawnActionView::RejectCommand { position: at } ==> at == position,
        i <= 1,
{
    stages_come_in_order(host, cmd, events, actions, i);
    assert(spawn_reaction(host, cmd, events[i], actions[i]));
    if i >= 2 {
        stages_come_in_order(host, cmd, events, actions, 1);
        assert(spawn_reaction(host, cmd, events[1], actions[1]));
        assert(spawn_can_follow(actions[1], events[2]));
    }
    if let SpawnActionView::RejectCommand { position: at } = actions[i] {
        if at < position {
            assert(encode_utf8(cmd)[at] != 0);
        } else if position < at {
            assert(encode_utf8(cmd)[position] != 0);
        }
    }
}

/// The commands that are rejected are those with a null character.
pub proof fn rejected_means_null_character(cmd: Seq<char>)
    ensures
        (exists|position: int| first_zero(cmd, position)) <==> cmd.contains('\0'),
{
    let bytes = encode_utf8(cmd);
    ascii_bytes_are_characters(cmd, 0);
    if bytes.contains(0) {
        let i = choose|i: int| 0 <= i < bytes.len() && bytes[i] == 0;
        earliest_zero(cmd, i);
    }
    if exists|position: int| first_zero(cmd, position) {
        let i = choose|i: int| first_zero(cmd, i);
        assert(bytes[i] == 0);
    }
}

/// Where there is a zero byte, there is a first one.
proof fn earliest_zero(cmd: Seq<char>, i: int)
    requires
        0 <= i < encode_utf8(cmd).len(),
        encode_utf8(cmd)[i] == 0,
    ensures
        exists|position: int| first_zero(cmd, position),
    decreases i,
{
    if !first_zero(cmd, i) {
        let j = choose|j: int| 0 <= j < i && encode_utf8(cmd)[j] == 0;
        earliest_zero(cmd, j);
    }
}

/// The non-blocking flag is set, and every flag that has a name is kept.
pub proof fn nonblocking_adds_one_flag(host: HostConstants, flags: i32)
    ensures
        nonblocking(host, flags) & host.nonblock == host.nonblock,
        nonblocking(host, flags) & (flags & host.known_flags) == flags & host.known_flags,
        nonblocking(host, flags) & !host.nonblock == (flags & host.known_flags) & !host.nonblock,
{
    let known = host.known_flags;
    let nonblock = host.nonblock;
    assert(((flags & known) | nonblock) & nonblock == nonblock) by (bit_vector);
    assert(((flags & known) | nonblock) & (flags & known) == flags & known) by (bit_vector);
    assert(((flags & known) | nonblock) & !nonblock == (flags & known) & !nonblock) by (bit_vector);
}

/// In the child each standard stream becomes the slave side of the
/// pseudo-terminal, and no standard stream is closed after that; then the
/// program is run, and where it cannot be, the parent is told before the exit.
pub proof fn child_talks_to_the_terminal(slave: i32, stream: i32)
    requires
        0 <= stream <= 2,
    ensures
        child_steps(slave)[3 + stream] == (ChildStep::Duplicate { from: slave, onto: stream }),
        forall|i: int|
            0 <= i < child_steps(slave).len() ==> #[trigger] child_steps(slave)[i]
                != ChildStep::Close(stream),
        child_steps(slave)[child_steps(slave).len() - 3] == ChildStep::Execute,
        child_steps(slave)[child_steps(slave).len() - 2] == ChildStep::ReportFailure,
        child_steps(slave).last() == ChildStep::Exit(127),
{
}

/// The child does nothing beyond that: first it closes the master side, starts
/// a session and takes the slave side for its terminal, and after the standard
/// streams are set up it closes the slave side, unless that is one of them.
pub proof fn child_does_nothing_else(slave: i32)
    ensures
        child_steps(slave)[0] is CloseMaster,
        child_steps(slave)[1] is NewSession,
        child_steps(slave)[2] == ChildStep::ControllingTerminal(slave),
        slave <= 2 ==> child_steps(slave).len() == 9,
        slave > 2 ==> child_steps(slave).len() == 10 && child_steps(slave)[6] == ChildStep::Close(
            slave,
        ),
{
}

/// A command without a null character goes to the shell whole: whatever its
/// length, the program that is run has three arguments, of which the last is
/// the command, character for character.
pub proof fn shell_gets_the_whole_command<E>(
    host: HostConstants,
    cmd: Seq<char>,
    slave: i32,
    action: SpawnActionView<E>,
)
    requires
        !cmd.contains('\0'),
        spawn_reaction(host, cmd, SpawnEvent::PtyOpened { slave }, action),
    ensures
        action matches SpawnActionView::Fork { argv, close, .. } && {
            &&& argv.len() == 3
            &&& argv[0] == "/bin/bash"@
            &&& argv[1] == "-c"@
            &&& argv[2].len() == cmd.len()
            &&& forall|i: int| 0 <= i < cmd.len() ==> #[trigger] argv[2][i] == cmd[i]
            &&& close == slave
        },
{
    rejected_means_null_character(cmd);
}

/// Different commands are never run in the same way.
pub proof fn shell_tells_commands_apart(a: Seq<char>, b: Seq<char>)
    requires
        shell_argv(a) == shell_argv(b),
    ensures
        a == b,
{
    assert(shell_argv(a)[2] == shell_argv(b)[2]);
}

/// The pseudo-terminal has 24 rows of 80 characters, and no size in pixels.
pub proof fn terminal_has_the_usual_size()
    ensures
        terminal_size().rows == 24 && terminal_size().cols == 80,
        terminal_size().xpixel == 0 && terminal_size().ypixel == 0,
{
}

} // verus!
