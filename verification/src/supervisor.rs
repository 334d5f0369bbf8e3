//! When the program ends, and what it does then.

use vstd::prelude::*;

verus! {

/// Why the program ends.
#[derive(Debug, Clone, Copy, PartialEq, Eq, Structural)]
pub enum ShutdownCause {
    /// The socket server has ended, with or without an error.
    ServerEnded,
    /// The forwarding of MATLAB's output has ended.
    MatlabExited,
    /// A signal was caught.
    SignalCaught,
    /// The shutdown was requested from outside.
    Requested,
}

/// A step of the cleanup.
#[derive(Debug, Clone, Copy, PartialEq, Eq, Structural)]
pub enum CleanupStep {
    /// Tell the socket server to stop.
    StopServer,
    /// Stop the forwarding and the watch for signals.
    StopTasks,
    /// End MATLAB and all processes of its group.
    KillSession,
    /// Remove the socket file.
    RemoveSocket,
}

/// What is done before the program ends, in this order.
pub open spec fn cleanup_steps() -> Seq<CleanupStep> {
    seq![
        CleanupStep::StopServer,
        CleanupStep::StopTasks,
        CleanupStep::KillSession,
        CleanupStep::RemoveSocket,
    ]
}

/// What to do before the program ends. It does not depend on the cause: on
/// every path MATLAB is ended and the socket file removed.
pub fn cleanup(_cause: ShutdownCause) -> (res: Vec<CleanupStep>)
    ensures
        res@ == cleanup_steps(),
        res@.len() == 4,
        res@[0] is StopServer && res@[1] is StopTasks && res@[2] is KillSession
            && res@[3] is RemoveSocket,
{
    let mut steps: Vec<CleanupStep> = Vec::new();
    steps.push(CleanupStep::StopServer);
    steps.push(CleanupStep::StopTasks);
    steps.push(CleanupStep::KillSession);
    steps.push(CleanupStep::RemoveSocket);
    assert(steps@ == cleanup_steps());
    steps
}

/// What the log says of the cause; nothing of a server that has ended, which
/// has said so itself.
pub open spec fn cause_notice(cause: ShutdownCause) -> Option<Seq<char>> {
    match cause {
        ShutdownCause::ServerEnded => None,
        ShutdownCause::MatlabExited => Some("[server] MATLAB exited, shutting down"@),
        ShutdownCause::SignalCaught => Some("[server] signal received, shutting down"@),
        ShutdownCause::Requested => Some("[server] external shutdown received"@),
    }
}

/// The log message for the cause of a shutdown.
pub fn notice(cause: ShutdownCause) -> (res: Option<&'static str>)
    ensures
        match res {
            Some(text) => cause_notice(cause) == Some(text@),
            None => cause_notice(cause) is None,
        },
        res is None <==> cause is ServerEnded,
        cause is MatlabExited ==> (res matches Some(text) && text@
            == "[server] MATLAB exited, shutting down"@),
        cause is SignalCaught ==> (res matches Some(text) && text@
            == "[server] signal received, shutting down"@),
        cause is Requested ==> (res matches Some(text) && text@
            == "[server] external shutdown received"@),
{
    match cause {
        ShutdownCause::ServerEnded => None,
        ShutdownCause::MatlabExited => Some("[server] MATLAB exited, shutting down"),
        ShutdownCause::SignalCaught => Some("[server] signal received, shutting down"),
        ShutdownCause::Requested => Some("[server] external shutdown received"),
    }
}

/// The signals that can be watched for.
#[derive(Debug, Clone, Copy, PartialEq, Eq, Structural)]
pub enum WatchedSignal {
    Interrupt,
    Terminate,
}

/// Which signals a handler could be installed for.
#[derive(Debug, Clone, Copy, PartialEq, Eq, Structural)]
pub struct SignalSources {
    pub interrupt: bool,
    pub terminate: bool,
}

/// What to wait for.
#[derive(Debug, Clone, Copy, PartialEq, Eq, Structural)]
pub enum SignalWait {
    /// For either signal, whichever comes first.
    Either,
    /// For this signal only.
    Only(WatchedSignal),
    /// For nothing: no signal will ever come.
    Never,
}

impl SignalSources {
    /// Whether a signal can be caught.
    pub open spec fn has(self, signal: WatchedSignal) -> bool {
        match signal {
            WatchedSignal::Interrupt => self.interrupt,
            WatchedSignal::Terminate => self.terminate,
        }
    }

    /// What the watch for signals waits for: whatever can be caught.
    pub fn wait(&self) -> (res: SignalWait)
        ensures
            forall|signal: WatchedSignal| res.admits(signal) == self.has(signal),
            res is Either <==> self.interrupt && self.terminate,
            res == SignalWait::Only(WatchedSignal::Interrupt) <==> self.interrupt
                && !self.terminate,
            res == SignalWait::Only(WatchedSignal::Terminate) <==> !self.interrupt
                && self.terminate,
            res is Never <==> !self.interrupt && !self.terminate,
    {
        if self.interrupt {
            if self.terminate {
                SignalWait::Either
            } else {
                SignalWait::Only(WatchedSignal::Interrupt)
            }
        } else if self.terminate {
            SignalWait::Only(WatchedSignal::Terminate)
        } else {
            SignalWait::Never
        }
    }
}

impl SignalWait {
    /// Whether the wait can be over with this signal.
    pub open spec fn admits(self, signal: WatchedSignal) -> bool {
        match self {
            SignalWait::Either => true,
            SignalWait::Only(only) => signal == only,
            SignalWait::Never => false,
        }
    }
}

/// What the log says of a signal.
pub open spec fn signal_message(signal: WatchedSignal) -> Seq<char> {
    match signal {
        WatchedSignal::Interrupt => "[server] caught SIGINT"@,
        WatchedSignal::Terminate => "[server] caught SIGTERM"@,
    }
}

/// The log message for a signal that was caught.
pub fn signal_notice(signal: WatchedSignal) -> (res: &'static str)
    ensures
        res@ == signal_message(signal),
        signal is Interrupt ==> res@ == "[server] caught SIGINT"@,
        signal is Terminate ==> res@ == "[server] caught SIGTERM"@,
{
    match signal {
        WatchedSignal::Interrupt => "[server] caught SIGINT",
        WatchedSignal::Terminate => "[server] caught SIGTERM",
    }
}

/// On every exit path MATLAB's process group is ended once and the socket file
/// removed once, in this order, after the server and all tasks were stopped.
pub proof fn cleanup_is_complete()
    ensures
        cleanup_steps().len() == 4,
        cleanup_steps()[0] is StopServer && cleanup_steps()[1] is StopTasks
            && cleanup_steps()[2] is KillSession && cleanup_steps()[3] is RemoveSocket,
        cleanup_steps().no_duplicates(),
        forall|step: CleanupStep| cleanup_steps().contains(step),
        forall|i: int|
            #![trigger cleanup_steps()[i]]
            0 <= i < cleanup_steps().len() ==> (cleanup_steps()[i] == CleanupStep::RemoveSocket <==> i
                == cleanup_steps().len() - 1),
{
    assert forall|step: CleanupStep| cleanup_steps().contains(step) by {
        let steps = cleanup_steps();
        assert(steps[0] == CleanupStep::StopServer);
        assert(steps[1] == CleanupStep::StopTasks);
        assert(steps[2] == CleanupStep::KillSession);
        assert(steps[3] == CleanupStep::RemoveSocket);
    }
}

} // verus!
