//! Forwarding between the terminal and the pseudo-terminal of MATLAB.
//!
//! Each direction is a loop that performs an action and hands back what came
//! of it; the functions here decide on the next action.

use crate::host::HostConstants;
use vstd::prelude::*;

verus! {

/// The number of bytes that a `read` call gave, or `None` where it failed. An
/// EIO error counts as the end of the input: it is what reading from a
/// pseudo-terminal gives once the other side is closed.
pub open spec fn bytes_read(host: HostConstants, n: int, os_error: Option<i32>) -> Option<int> {
    if n >= 0 {
        Some(n)
    } else if os_error == Some(host.eio) {
        Some(0)
    } else {
        None
    }
}

/// Interprets the return value of a `read` call, and the error code of the
/// operating system where the call failed.
pub fn read_count(host: &HostConstants, n: isize, os_error: Option<i32>) -> (res: Option<usize>)
    ensures
        match res {
            Some(count) => bytes_read(*host, n as int, os_error) == Some(count as int),
            None => bytes_read(*host, n as int, os_error) is None,
        },
        n >= 0 ==> res == Some(n as usize),
        n < 0 && os_error == Some(host.eio) ==> res == Some(0usize),
        n < 0 && os_error != Some(host.eio) ==> res is None,
{
    if n >= 0 {
        Some(n as usize)
    } else {
        match os_error {
            Some(code) => if code == host.eio {
                Some(0)
            } else {
                None
            },
            None => None,
        }
    }
}

/// A call that gave a number has read that many bytes, however many they are
/// and whatever error code was left behind. A call that failed with EIO is at
/// the end of the input, and one that failed with anything else is a failure.
pub proof fn a_read_gives_what_it_counts(host: HostConstants, n: int, os_error: Option<i32>)
    ensures
        bytes_read(host, n, os_error) is None <==> n < 0 && os_error != Some(host.eio),
        bytes_read(host, n, os_error) matches Some(count) ==> count == n || (n < 0 && count == 0),
{
}

/// What came of an action while MATLAB's output is forwarded.
pub enum OutputEvent {
    /// There is something to read.
    Readable,
    /// Waiting for something to read failed.
    NotReadable,
    /// These bytes were read; none at the end of the output.
    Data(Vec<u8>),
    /// There was nothing to read after all.
    WouldBlock,
    /// Reading failed.
    ReadFailed,
    /// The bytes were written to the standard output.
    Written,
    /// They could not be written.
    WriteFailed,
    /// The standard output was flushed, or that was tried.
    Flushed,
}

/// An action while MATLAB's output is forwarded.
pub enum OutputAction {
    /// Wait until there is something to read.
    AwaitReadable,
    /// Read.
    Read,
    /// Take note that everything ready was read, and write these bytes to the
    /// standard output.
    Write(Vec<u8>),
    /// Flush the standard output.
    Flush,
    /// Announce that MATLAB has exited, and stop.
    AnnounceExit,
    /// Stop.
    Stop,
}

/// The action that follows an event.
pub open spec fn output_reaction(event: OutputEvent) -> OutputAction {
    match event {
        OutputEvent::Readable => OutputAction::Read,
        OutputEvent::NotReadable => OutputAction::Stop,
        OutputEvent::Data(bytes) => if bytes@.len() == 0 {
            OutputAction::AnnounceExit
        } else {
            OutputAction::Write(bytes)
        },
        OutputEvent::WouldBlock => OutputAction::AwaitReadable,
        OutputEvent::ReadFailed => OutputAction::Stop,
        OutputEvent::Written => OutputAction::Flush,
        OutputEvent::WriteFailed => OutputAction::Stop,
        OutputEvent::Flushed => OutputAction::AwaitReadable,
    }
}

/// Decides how the forwarding of MATLAB's output goes on.
pub fn on_output(event: OutputEvent) -> (res: OutputAction)
    ensures
        res == output_reaction(event),
        res is Read <==> event is Readable,
        res is Write <==> (event matches OutputEvent::Data(bytes) && bytes@.len() > 0),
        res matches OutputAction::Write(out) ==> (event matches OutputEvent::Data(bytes) && out@
            == bytes@),
        res is Flush <==> event is Written,
        res is AwaitReadable <==> event is WouldBlock || event is Flushed,
        res is AnnounceExit <==> (event matches OutputEvent::Data(bytes) && bytes@.len() == 0),
        res is Stop <==> event is NotReadable || event is ReadFailed || event is WriteFailed,
{
    match event {
        OutputEvent::Readable => OutputAction::Read,
        OutputEvent::NotReadable => OutputAction::Stop,
        OutputEvent::Data(bytes) => if bytes.len() == 0 {
            OutputAction::AnnounceExit
        } else {
            OutputAction::Write(bytes)
        },
        OutputEvent::WouldBlock => OutputAction::AwaitReadable,
        OutputEvent::ReadFailed => OutputAction::Stop,
        OutputEvent::Written => OutputAction::Flush,
        OutputEvent::WriteFailed => OutputAction::Stop,
        OutputEvent::Flushed => OutputAction::AwaitReadable,
    }
}

/// Bytes are written exactly when some were read, and then just these bytes.
/// What else is done depends on the kind of the event alone: a write that
/// succeeded is followed by a flush, a flush or a false alarm by the next wait,
/// and a failure, whichever it is, ends the forwarding without an announcement.
pub proof fn what_follows_on_output(event: OutputEvent)
    ensures
        output_reaction(event) is Read <==> event is Readable,
        output_reaction(event) is Write <==> (event matches OutputEvent::Data(bytes) && bytes@.len()
            > 0),
        output_reaction(event) matches OutputAction::Write(bytes) ==> event == OutputEvent::Data(
            bytes,
        ),
        output_reaction(event) is Flush <==> event is Written,
        output_reaction(event) is AwaitReadable <==> event is WouldBlock || event is Flushed,
        output_reaction(event) is AnnounceExit <==> (event matches OutputEvent::Data(bytes)
            && bytes@.len() == 0),
        output_reaction(event) is Stop <==> event is NotReadable || event is ReadFailed
            || event is WriteFailed,
{
}

/// Whether an event can come of an action.
pub open spec fn output_can_follow(action: OutputAction, event: OutputEvent) -> bool {
    match action {
        OutputAction::AwaitReadable => event is Readable || event is NotReadable,
        OutputAction::Read => event is Data || event is WouldBlock || event is ReadFailed,
        OutputAction::Write(_) => event is Written || event is WriteFailed,
        OutputAction::Flush => event is Flushed,
        OutputAction::AnnounceExit => false,
        OutputAction::Stop => false,
    }
}

/// Whether events can follow one another while MATLAB's output is forwarded,
/// which starts by waiting for something to read.
pub open spec fn output_history(events: Seq<OutputEvent>) -> bool {
    forall|i: int|
        0 <= i < events.len() ==> output_can_follow(
            if i == 0 {
                OutputAction::AwaitReadable
            } else {
                output_reaction(events[i - 1])
            },
            #[trigger] events[i],
        )
}

/// All bytes that were read over a series of events.
pub open spec fn output_read(events: Seq<OutputEvent>) -> Seq<u8>
    decreases events.len(),
{
    if events.len() == 0 {
        Seq::empty()
    } else {
        output_read(events.drop_last()) + match events.last() {
            OutputEvent::Data(bytes) => bytes@,
            _ => Seq::empty(),
        }
    }
}

/// All bytes whose write has succeeded over a series of events.
pub open spec fn output_written(events: Seq<OutputEvent>) -> Seq<u8>
    decreases events.len(),
{
    if events.len() == 0 {
        Seq::empty()
    } else {
        output_written(events.drop_last()) + (if events.last() is Written {
            output_handed_on(events.drop_last())
        } else {
            Seq::empty()
        })
    }
}

/// The bytes that the reaction to the last event hands on to be written.
pub open spec fn output_handed_on(events: Seq<OutputEvent>) -> Seq<u8> {
    if events.len() == 0 {
        Seq::empty()
    } else {
        match output_reaction(events.last()) {
            OutputAction::Write(bytes) => bytes@,
            _ => Seq::empty(),
        }
    }
}

/// The bytes that were read and are not known to be written: those that are
/// being written, or whose write has failed.
pub open spec fn output_outstanding(events: Seq<OutputEvent>) -> Seq<u8> {
    if events.len() == 0 {
        Seq::empty()
    } else if events.last() is WriteFailed {
        output_handed_on(events.drop_last())
    } else {
        output_handed_on(events)
    }
}

/// What is written to the standard output is what was read from MATLAB, byte
/// for byte and in order. Only what was read last can be missing: while it is
/// being written, and for good where its write has failed.
pub proof fn output_is_copied(events: Seq<OutputEvent>)
    requires
        output_history(events),
    ensures
        output_read(events) == output_written(events) + output_outstanding(events),
        events.len() > 0 && !(events.last() is Data) && !(events.last() is WriteFailed)
            ==> output_written(events) == output_read(events),
    decreases events.len(),
{
    if events.len() > 0 {
        let before = events.drop_last();
        let n = events.len() - 1;
        assert forall|i: int| 0 <= i < before.len() implies output_can_follow(
            if i == 0 {
                OutputAction::AwaitReadable
            } else {
                output_reaction(before[i - 1])
            },
            #[trigger] before[i],
        ) by {
            assert(before[i] == events[i]);
        }
        output_is_copied(before);
        assert(output_can_follow(
            if n == 0 {
                OutputAction::AwaitReadable
            } else {
                output_reaction(events[n - 1])
            },
            events[n],
        ));
        if n > 0 {
            assert(before.last() == events[n - 1]);
        }
    }
}

/// The exit of MATLAB is announced when the end of its output is read and at
/// no other time, and at most once: nothing happens after it.
pub proof fn exit_is_announced_at_the_end(events: Seq<OutputEvent>, i: int)
    requires
        output_history(events),
        0 <= i < events.len(),
    ensures
        output_reaction(events[i]) is AnnounceExit <==> (events[i] matches OutputEvent::Data(bytes)
            && bytes@.len() == 0),
        output_reaction(events[i]) is AnnounceExit ==> i == events.len() - 1,
        output_reaction(events[i]) is Stop ==> i == events.len() - 1,
{
    if i < events.len() - 1 {
        assert(output_can_follow(output_reaction(events[i]), events[i + 1]));
    }
}

/// Output is read only after waiting for it, and what was written is flushed
/// before anything else is read.
pub proof fn output_is_flushed_before_the_next_read(events: Seq<OutputEvent>, i: int)
    requires
        output_history(events),
        0 <= i < events.len(),
        events[i] is Written,
    ensures
        i + 1 < events.len() ==> events[i + 1] is Flushed,
        i > 0 && events[i - 1] is Data,
        i > 1 && events[i - 2] is Readable,
{
    assert(output_can_follow(output_reaction(events[i - 1]), events[i]));
    assert(output_can_follow(output_reaction(events[i - 2]), events[i - 1]));
    if i + 1 < events.len() {
        assert(output_can_follow(output_reaction(events[i]), events[i + 1]));
    }
}

/// What came of an action while the terminal's input is forwarded.
pub enum InputEvent {
    /// These bytes were read; none at the end of the input.
    Data(Vec<u8>),
    /// Reading failed.
    ReadFailed,
    /// All of the bytes were written to the pseudo-terminal.
    Written,
    /// They could not be written.
    WriteFailed,
}

/// An action while the terminal's input is forwarded.
pub enum InputAction {
    /// Read.
    Read,
    /// Write all of these bytes to the pseudo-terminal.
    Write(Vec<u8>),
    /// Stop.
    Stop,
}

/// The action that follows an event.
pub open spec fn input_reaction(event: InputEvent) -> InputAction {
    match event {
        InputEvent::Data(bytes) => if bytes@.len() == 0 {
            InputAction::Stop
        } else {
            InputAction::Write(bytes)
        },
        InputEvent::ReadFailed => InputAction::Stop,
        InputEvent::Written => InputAction::Read,
        InputEvent::WriteFailed => InputAction::Stop,
    }
}

/// Decides how the forwarding of the terminal's input goes on.
pub fn on_input(event: InputEvent) -> (res: InputAction)
    ensures
        res == input_reaction(event),
        res is Write <==> (event matches InputEvent::Data(bytes) && bytes@.len() > 0),
        res matches InputAction::Write(out) ==> (event matches InputEvent::Data(bytes) && out@
            == bytes@),
        res is Read <==> event is Written,
        res is Stop <==> event is ReadFailed || event is WriteFailed || (event matches
            InputEvent::Data(bytes) && bytes@.len() == 0),
{
    match event {
        InputEvent::Data(bytes) => if bytes.len() == 0 {
            InputAction::Stop
        } else {
            InputAction::Write(bytes)
        },
        InputEvent::ReadFailed => InputAction::Stop,
        InputEvent::Written => InputAction::Read,
        InputEvent::WriteFailed => InputAction::Stop,
    }
}

/// Bytes are written exactly when some were read, and then just these bytes;
/// the next reading waits for the write to succeed; and everything else, the
/// end of the input or a failure, ends the forwarding.
pub proof fn what_follows_on_input(event: InputEvent)
    ensures
        input_reaction(event) is Write <==> (event matches InputEvent::Data(bytes) && bytes@.len()
            > 0),
        input_reaction(event) matches InputAction::Write(bytes) ==> event == InputEvent::Data(
            bytes,
        ),
        input_reaction(event) is Read <==> event is Written,
        input_reaction(event) is Stop <==> event is ReadFailed || event is WriteFailed || (
        event matches InputEvent::Data(bytes) && bytes@.len() == 0),
{
}

/// Whether an event can come of an action.
pub open spec fn input_can_follow(action: InputAction, event: InputEvent) -> bool {
    match action {
        InputAction::Read => event is Data || event is ReadFailed,
        InputAction::Write(_) => event is Written || event is WriteFailed,
        InputAction::Stop => false,
    }
}

/// Whether events can follow one another while the terminal's input is
/// forwarded, which starts by reading.
pub open spec fn input_history(events: Seq<InputEvent>) -> bool {
    forall|i: int|
        0 <= i < events.len() ==> input_can_follow(
            if i == 0 {
                InputAction::Read
            } else {
                input_reaction(events[i - 1])
            },
            #[trigger] events[i],
        )
}

/// All bytes that were read over a series of events.
pub open spec fn input_read(events: Seq<InputEvent>) -> Seq<u8>
    decreases events.len(),
{
    if events.len() == 0 {
        Seq::empty()
    } else {
        input_read(events.drop_last()) + match events.last() {
            InputEvent::Data(bytes) => bytes@,
            _ => Seq::empty(),
        }
    }
}

/// All bytes whose write has succeeded over a series of events.
pub open spec fn input_written(events: Seq<InputEvent>) -> Seq<u8>
    decreases events.len(),
{
    if events.len() == 0 {
        Seq::empty()
    } else {
        input_written(events.drop_last()) + (if events.last() is Written {
            input_handed_on(events.drop_last())
        } else {
            Seq::empty()
        })
    }
}

/// The bytes that the reaction to the last event hands on to be written.
pub open spec fn input_handed_on(events: Seq<InputEvent>) -> Seq<u8> {
    if events.len() == 0 {
        Seq::empty()
    } else {
        match input_reaction(events.last()) {
            InputAction::Write(bytes) => bytes@,
            _ => Seq::empty(),
        }
    }
}

/// The bytes that were read and are not known to be written: those that are
/// being written, or whose write has failed.
pub open spec fn input_outstanding(events: Seq<InputEvent>) -> Seq<u8> {
    if events.len() == 0 {
        Seq::empty()
    } else if events.last() is WriteFailed {
        input_handed_on(events.drop_last())
    } else {
        input_handed_on(events)
    }
}

/// What MATLAB is given is what was read from the terminal, byte for byte
/// and in order. Only what was read last can be missing: while it is being
/// written, and for good where its write has failed.
pub proof fn input_is_copied(events: Seq<InputEvent>)
    requires
        input_history(events),
    ensures
        input_read(events) == input_written(events) + input_outstanding(events),
        events.len() > 0 && !(events.last() is Data) && !(events.last() is WriteFailed)
            ==> input_written(events) == input_read(events),
    decreases events.len(),
{
    if events.len() > 0 {
        let before = events.drop_last();
        let n = events.len() - 1;
        assert forall|i: int| 0 <= i < before.len() implies input_can_follow(
            if i == 0 {
                InputAction::Read
            } else {
                input_reaction(before[i - 1])
            },
            #[trigger] before[i],
        ) by {
            assert(before[i] == events[i]);
        }
        input_is_copied(before);
        assert(input_can_follow(
            if n == 0 {
                InputAction::Read
            } else {
                input_reaction(events[n - 1])
            },
            events[n],
        ));
        if n > 0 {
            assert(before.last() == events[n - 1]);
        }
    }
}

/// The forwarding of input ends at the end of the input or at the first
/// failure, and nothing happens after that.
pub proof fn input_ends_at_the_first_failure(events: Seq<InputEvent>, i: int)
    requires
        input_history(events),
        0 <= i < events.len(),
    ensures
        input_reaction(events[i]) is Stop <==> (events[i] is ReadFailed || events[i] is WriteFailed
            || (events[i] matches InputEvent::Data(bytes) && bytes@.len() == 0)),
        input_reaction(events[i]) is Stop ==> i == events.len() - 1,
{
    if i < events.len() - 1 {
        assert(input_can_follow(input_reaction(events[i]), events[i + 1]));
    }
}

} // verus!
