//! The MATLAB process: what can be asked of it, and which signals that takes.

use vstd::prelude::*;

verus! {

/// An error of an input or output operation, carried through as it is.
#[verifier::external_type_specification]
#[verifier::external_body]
pub struct ExIoError(std::io::Error);

/// Interface for MATLAB process actions.
pub trait MatlabActions {
    /// Gives `code` to MATLAB as a line of interactive input.
    fn send_code(&self, code: &str) -> std::io::Result<()>;

    /// Interrupts what MATLAB is doing.
    fn send_sigint(&self);

    /// Asks MATLAB to terminate.
    fn send_sigterm(&self);
}

/// One turn at MATLAB: the right to ask one thing of it. Whatever is done with a
/// turn uses it up, so whoever is given a turn and nothing else asks at most one
/// thing, and asks it once.
pub trait Turn: Sized {
    /// What the turn is a turn at.
    type At: MatlabActions;

    /// The MATLAB process that the turn is a turn at.
    spec fn at(self) -> Self::At;

    /// Uses the turn to give `code` to MATLAB.
    fn send_code(self, code: &str) -> (res: std::io::Result<()>)
        ensures
            call_ensures(<Self::At as MatlabActions>::send_code, (&self.at(), code), res),
    ;

    /// Uses the turn to interrupt what MATLAB is doing.
    fn send_sigint(self)
        ensures
            call_ensures(<Self::At as MatlabActions>::send_sigint, (&self.at(),), ()),
    ;

    /// Uses the turn to ask MATLAB to terminate.
    fn send_sigterm(self)
        ensures
            call_ensures(<Self::At as MatlabActions>::send_sigterm, (&self.at(),), ()),
    ;

    /// Lets the turn pass: nothing is asked of MATLAB.
    fn pass(self);
}

impl<M: MatlabActions> Turn for &M {
    type At = M;

    open spec fn at(self) -> M {
        *self
    }

    fn send_code(self, code: &str) -> (res: std::io::Result<()>) {
        M::send_code(self, code)
    }

    fn send_sigint(self) {
        M::send_sigint(self)
    }

    fn send_sigterm(self) {
        M::send_sigterm(self)
    }

    fn pass(self) {
    }
}

/// A signal that is sent to MATLAB.
#[derive(Debug, Clone, Copy, PartialEq, Eq, Structural)]
pub enum ProcessSignal {
    /// SIGINT, as Ctrl-C sends it.
    Interrupt,
    /// SIGTERM, for a graceful shutdown.
    Terminate,
}

/// The arguments of a `kill` call. A negative `pid` addresses the process
/// group of that number.
#[derive(Debug, Clone, Copy, PartialEq, Eq, Structural)]
pub struct SignalRequest {
    pub pid: i32,
    pub signal: ProcessSignal,
}

/// A MATLAB process, known by the number of the child that runs it.
#[derive(Debug)]
pub struct Matlab {
    child_pid: i32,
}

impl Matlab {
    #[verifier::type_invariant]
    closed spec fn wf(self) -> bool {
        self.child_pid > 0
    }

    /// The number of the child process.
    pub closed spec fn pid(self) -> int {
        self.child_pid as int
    }

    /// The MATLAB process that runs in the given child. The child leads a
    /// session and a process group of its own, of the same number.
    pub fn new(child_pid: i32) -> (res: Self)
        requires
            child_pid > 0,
        ensures
            res.pid() == child_pid,
    {
        Matlab { child_pid }
    }

    /// The PID of the child process.
    pub fn child_pid(&self) -> (res: i32)
        ensures
            res == self.pid(),
            res > 0,
    {
        proof {
            use_type_invariant(self);
        }
        self.child_pid
    }

    /// How to interrupt MATLAB (equivalent to Ctrl-C).
    pub fn interrupt(&self) -> (res: SignalRequest)
        ensures
            res.pid == self.pid(),
            res.signal == ProcessSignal::Interrupt,
    {
        SignalRequest { pid: self.child_pid, signal: ProcessSignal::Interrupt }
    }

    /// How to ask MATLAB for a graceful shutdown.
    pub fn terminate(&self) -> (res: SignalRequest)
        ensures
            res.pid == self.pid(),
            res.signal == ProcessSignal::Terminate,
    {
        SignalRequest { pid: self.child_pid, signal: ProcessSignal::Terminate }
    }

    /// How to end the whole process group of the child, so that the processes
    /// that MATLAB has left in the background end with it.
    pub fn kill_session(&self) -> (res: SignalRequest)
        ensures
            res.pid == -self.pid(),
            res.pid < 0,
            res.signal == ProcessSignal::Terminate,
    {
        proof {
            use_type_invariant(self);
        }
        SignalRequest { pid: -self.child_pid, signal: ProcessSignal::Terminate }
    }
}

} // verus!
