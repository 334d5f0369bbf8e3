//! One client connection: what is done about each line that the client sends.

use crate::log::preview;
use crate::matlab::{MatlabActions, Turn};
use crate::protocol::{parse_message, Command};
use vstd::prelude::*;

verus! {

use crate::delivery::input_line;
use crate::log::shown;
use crate::protocol::{meaning, CommandView};
use crate::text::{
    all_white_space, ascii_bytes_are_characters, is_white_space, trimmed, trimmed_is_the_middle,
};
use vstd::utf8::encode_utf8;

/// What reading the next line of a connection gave.
pub enum Incoming<E> {
    /// A line, without its line end.
    Line(String),
    /// The client has closed the connection.
    End,
    /// The line could not be read.
    Failed(E),
}

/// What to do about it.
pub enum ClientAction<E> {
    /// Send SIGINT to MATLAB and read on.
    Interrupt,
    /// Send the code to MATLAB and read on, whether or not MATLAB took it.
    Run { code: String, preview: String },
    /// Send SIGTERM to MATLAB, remove the socket file and stop the server.
    Terminate,
    /// Leave this client and wait for the next one.
    Close,
    /// Stop the server with this error.
    Abort(E),
}

/// The mathematical content of an [`Incoming`].
pub enum IncomingView<E> {
    Line(Seq<char>),
    End,
    Failed(E),
}

/// The mathematical content of a [`ClientAction`].
pub enum ClientActionView<E> {
    Interrupt,
    Run { code: Seq<char>, preview: Seq<char> },
    Terminate,
    Close,
    Abort(E),
}

impl<E> View for Incoming<E> {
    type V = IncomingView<E>;

    open spec fn view(&self) -> IncomingView<E> {
        match *self {
            Incoming::Line(line) => IncomingView::Line(line@),
            Incoming::End => IncomingView::End,
            Incoming::Failed(e) => IncomingView::Failed(e),
        }
    }
}

impl<E> View for ClientAction<E> {
    type V = ClientActionView<E>;

    open spec fn view(&self) -> ClientActionView<E> {
        match *self {
            ClientAction::Interrupt => ClientActionView::Interrupt,
            ClientAction::Run { code, preview } => ClientActionView::Run {
                code: code@,
                preview: preview@,
            },
            ClientAction::Terminate => ClientActionView::Terminate,
            ClientAction::Close => ClientActionView::Close,
            ClientAction::Abort(e) => ClientActionView::Abort(e),
        }
    }
}

/// The action that answers what was read.
pub open spec fn answer<E>(incoming: IncomingView<E>) -> ClientActionView<E> {
    match incoming {
        IncomingView::Line(line) => match meaning(line) {
            CommandView::Cancel => ClientActionView::Interrupt,
            CommandView::Kill => ClientActionView::Terminate,
            CommandView::RunCode(code) => ClientActionView::Run { code, preview: shown(code) },
        },
        IncomingView::End => ClientActionView::Close,
        IncomingView::Failed(e) => ClientActionView::Abort(e),
    }
}

/// How the connection ends with an action: whether the server is to stop, or
/// the error that stops it. `None` where the connection goes on.
pub open spec fn ending<E>(action: ClientActionView<E>) -> Option<Result<bool, E>> {
    match action {
        ClientActionView::Interrupt => None,
        ClientActionView::Run { .. } => None,
        ClientActionView::Terminate => Some(Ok(true)),
        ClientActionView::Close => Some(Ok(false)),
        ClientActionView::Abort(e) => Some(Err(e)),
    }
}

/// Decides what to do about what was read from the client.
pub fn on_incoming<E>(incoming: Incoming<E>) -> (res: ClientAction<E>)
    ensures
        res@ == answer(incoming@),
        res is Close <==> incoming is End,
        res is Abort <==> incoming is Failed,
        res matches ClientAction::Abort(e) ==> incoming == Incoming::Failed(e),
        incoming matches Incoming::Line(line) ==> (res is Interrupt <==> exists|
            before: Seq<char>,
            after: Seq<char>,
        |
            (forall|i: int| 0 <= i < before.len() ==> is_white_space(#[trigger] before[i])) && (
            forall|i: int| 0 <= i < after.len() ==> is_white_space(#[trigger] after[i])) && line@
                == #[trigger] (before + "cancel"@ + after)),
        incoming matches Incoming::Line(line) ==> (res is Terminate <==> exists|
            before: Seq<char>,
            after: Seq<char>,
        |
            (forall|i: int| 0 <= i < before.len() ==> is_white_space(#[trigger] before[i])) && (
            forall|i: int| 0 <= i < after.len() ==> is_white_space(#[trigger] after[i])) && line@
                == #[trigger] (before + "kill"@ + after)),
        res matches ClientAction::Run { code, preview } ==> (incoming matches Incoming::Line(line)
            && {
            &&& exists|before: Seq<char>, after: Seq<char>|
                (forall|i: int| 0 <= i < before.len() ==> is_white_space(#[trigger] before[i])) && (
                forall|i: int| 0 <= i < after.len() ==> is_white_space(#[trigger] after[i])) && line@
                    == #[trigger] (before + code@ + after)
            &&& code@.len() > 0 ==> !is_white_space(code@[0]) && !is_white_space(
                code@[code@.len() - 1],
            )
            &&& encode_utf8(code@).len() <= 80 ==> preview@ == code@
            &&& encode_utf8(code@).len() > 80 && code@.len() <= 80 ==> preview@ == code@ + "..."@
            &&& encode_utf8(code@).len() > 80 && code@.len() > 80 ==> preview@ == code@.subrange(
                0,
                80,
            ) + "..."@
        }),
{
    match incoming {
        Incoming::Line(line) => match parse_message(line.as_str()) {
            Command::Cancel => ClientAction::Interrupt,
            Command::Kill => ClientAction::Terminate,
            Command::RunCode(code) => {
                let preview = preview(code.as_str());
                ClientAction::Run { code, preview }
            },
        },
        Incoming::End => ClientAction::Close,
        Incoming::Failed(e) => ClientAction::Abort(e),
    }
}

/// Does to MATLAB what the action asks for. An error that MATLAB's side gives
/// back is for the log; it does not end the connection.
///
/// All that is done to MATLAB is done by way of one turn, which is used up by the
/// one call that the action asks for, or passed where it asks for none.
pub fn perform<E, M: Turn>(action: &ClientAction<E>, matlab: M) -> (res: Result<
    (),
    std::io::Error,
>)
    ensures
        action is Interrupt ==> call_ensures(M::send_sigint, (matlab,), ()),
        action is Interrupt ==> call_ensures(
            <M::At as MatlabActions>::send_sigint,
            (&matlab.at(),),
            (),
        ),
        action is Terminate ==> call_ensures(M::send_sigterm, (matlab,), ()),
        action is Terminate ==> call_ensures(
            <M::At as MatlabActions>::send_sigterm,
            (&matlab.at(),),
            (),
        ),
        action matches ClientAction::Run { code, .. } ==> exists|text: &str|
            text@ == code@ && #[trigger] call_ensures(M::send_code, (matlab, text), res),
        action matches ClientAction::Run { code, .. } ==> exists|text: &str|
            text@ == code@ && #[trigger] call_ensures(
                <M::At as MatlabActions>::send_code,
                (&matlab.at(), text),
                res,
            ),
        action is Close || action is Abort ==> call_ensures(M::pass, (matlab,), ()),
        !(action is Run) ==> res is Ok,
{
    match action {
        ClientAction::Interrupt => {
            matlab.send_sigint();
            Ok(())
        },
        ClientAction::Terminate => {
            matlab.send_sigterm();
            Ok(())
        },
        ClientAction::Run { code, .. } => matlab.send_code(code.as_str()),
        ClientAction::Close => {
            matlab.pass();
            Ok(())
        },
        ClientAction::Abort(_) => {
            matlab.pass();
            Ok(())
        },
    }
}

/// Tells how the connection ends with an action, or that it goes on.
pub fn outcome<E>(action: ClientAction<E>) -> (res: Option<Result<bool, E>>)
    ensures
        res == ending(action@),
        res is None <==> action is Interrupt || action is Run,
        res matches Some(Ok(stop)) ==> (stop <==> action is Terminate) && (!stop
            <==> action is Close),
        res matches Some(Err(e)) ==> action == ClientAction::Abort(e),
{
    match action {
        ClientAction::Interrupt => None,
        ClientAction::Run { .. } => None,
        ClientAction::Terminate => Some(Ok(true)),
        ClientAction::Close => Some(Ok(false)),
        ClientAction::Abort(e) => Some(Err(e)),
    }
}

/// Whether an action includes the removal of the socket file.
pub open spec fn removal<E>(action: ClientActionView<E>) -> bool {
    action is Terminate
}

/// Tells whether the socket file is to be removed with an action.
pub fn removes_socket<E>(action: &ClientAction<E>) -> (res: bool)
    ensures
        res == removal(action@),
        res == (action is Terminate),
{
    match action {
        ClientAction::Terminate => true,
        _ => false,
    }
}

/// The actions of a connection on which `incoming` is read: one for each
/// reading, up to the first that ends the connection.
pub open spec fn conversation<E>(incoming: Seq<IncomingView<E>>) -> Seq<ClientActionView<E>>
    decreases incoming.len(),
{
    if incoming.len() == 0 {
        Seq::empty()
    } else {
        let action = answer(incoming[0]);
        if ending(action) is Some {
            seq![action]
        } else {
            seq![action] + conversation(incoming.drop_first())
        }
    }
}

/// Whether a reading is a line that keeps the connection open.
pub open spec fn keeps_open<E>(incoming: IncomingView<E>) -> bool {
    incoming matches IncomingView::Line(line) && meaning(line) != CommandView::Kill
}

/// Whether a reading is a line with the given command.
pub open spec fn is_command<E>(incoming: IncomingView<E>, command: CommandView) -> bool {
    incoming matches IncomingView::Line(line) && meaning(line) == command
}

/// The number of readings up to and with the first that ends the connection.
pub open spec fn reach<E>(incoming: Seq<IncomingView<E>>) -> nat
    decreases incoming.len(),
{
    if incoming.len() == 0 {
        0
    } else if keeps_open(incoming[0]) {
        1 + reach(incoming.drop_first())
    } else {
        1
    }
}

/// Every reading is answered in turn, up to and with the first that is not an
/// ordinary line; after that one nothing is answered.
pub proof fn readings_are_answered_in_turn<E>(incoming: Seq<IncomingView<E>>)
    ensures
        conversation(incoming) == incoming.take(reach(incoming) as int).map_values(
            |reading: IncomingView<E>| answer(reading),
        ),
        reach(incoming) <= incoming.len(),
        forall|i: int| 0 <= i < reach(incoming) - 1 ==> keeps_open(#[trigger] incoming[i]),
        reach(incoming) < incoming.len() ==> reach(incoming) > 0 && !keeps_open(
            incoming[reach(incoming) - 1],
        ),
    decreases incoming.len(),
{
    let answers = |reading: IncomingView<E>| answer(reading);
    if incoming.len() > 0 {
        let rest = incoming.drop_first();
        readings_are_answered_in_turn(rest);
        if keeps_open(incoming[0]) {
            let n = reach(rest) as int;
            assert(incoming.take(n + 1).map_values(answers) == seq![answer(incoming[0])]
                + rest.take(n).map_values(answers));
            assert forall|i: int| 0 <= i < reach(incoming) - 1 implies keeps_open(
                #[trigger] incoming[i],
            ) by {
                if i > 0 {
                    assert(incoming[i] == rest[i - 1]);
                }
            }
            if n > 0 {
                assert(incoming[n] == rest[n - 1]);
            } else {
                assert(rest.len() == 0);
            }
        } else {
            assert(incoming.take(1).map_values(answers) == seq![answer(incoming[0])]);
        }
    } else {
        assert(incoming.take(0).map_values(answers) == Seq::<ClientActionView<E>>::empty());
    }
}

/// A connection stops the server exactly when the reading that ends it is a
/// `kill`; it goes back to waiting for clients exactly when the client has
/// closed it; and it gives up the server with an error exactly when a reading
/// failed, with that error.
pub proof fn what_ends_a_connection<E>(incoming: Seq<IncomingView<E>>)
    requires
        reach(incoming) > 0,
    ensures
        conversation(incoming).len() == reach(incoming),
        ending(conversation(incoming).last()) == Some(Ok::<bool, E>(true)) <==> is_command(
            incoming[reach(incoming) - 1],
            CommandView::Kill,
        ),
        ending(conversation(incoming).last()) == Some(Ok::<bool, E>(false)) <==> incoming[reach(
            incoming,
        ) - 1] == IncomingView::<E>::End,
        forall|e: E|
            ending(conversation(incoming).last()) == Some(Err::<bool, E>(e)) <==> incoming[reach(
                incoming,
            ) - 1] == IncomingView::Failed(e),
{
    readings_are_answered_in_turn(incoming);
}

/// The first `kill` ends the connection and stops the server, and no earlier
/// line does.
pub proof fn kill_stops_the_server<E>(incoming: Seq<IncomingView<E>>, k: int)
    requires
        0 <= k < incoming.len(),
        forall|i: int| 0 <= i < k ==> keeps_open(#[trigger] incoming[i]),
        is_command(incoming[k], CommandView::Kill),
    ensures
        conversation(incoming).len() == k + 1,
        conversation(incoming).last() == ClientActionView::<E>::Terminate,
        forall|i: int|
            0 <= i < k ==> ending(#[trigger] conversation(incoming)[i]) is None
                && !(conversation(incoming)[i] is Terminate),
{
    readings_are_answered_in_turn(incoming);
    let n = reach(incoming);
    if n > k + 1 {
        assert(keeps_open(incoming[k]));
    }
    if n < k + 1 {
        assert(keeps_open(incoming[n - 1]));
    }
    assert forall|i: int| 0 <= i < k implies ending(#[trigger] conversation(incoming)[i]) is None
        && !(conversation(incoming)[i] is Terminate) by {
        assert(keeps_open(incoming[i]));
    }
}

/// The last action of a connection removes the socket file exactly when the
/// connection stops the server without an error, and no earlier action does.
pub proof fn socket_is_removed_at_the_end<E>(incoming: Seq<IncomingView<E>>, i: int)
    requires
        0 <= i < conversation(incoming).len(),
    ensures
        removal(conversation(incoming)[i]) <==> i == conversation(incoming).len() - 1 && ending(
            conversation(incoming).last(),
        ) == Some(Ok::<bool, E>(true)),
{
    readings_are_answered_in_turn(incoming);
    if i < conversation(incoming).len() - 1 {
        assert(keeps_open(incoming[i]));
    }
}

/// The bytes that a series of actions hands on to be written to MATLAB.
pub open spec fn handed_on<E>(actions: Seq<ClientActionView<E>>) -> Seq<u8>
    decreases actions.len(),
{
    if actions.len() == 0 {
        Seq::empty()
    } else {
        let rest = handed_on(actions.drop_first());
        match actions[0] {
            ClientActionView::Run { code, .. } => input_line(code) + rest,
            _ => rest,
        }
    }
}

/// The bytes that have reached MATLAB over a series of actions, where of what
/// the i-th action hands on the first `taken[i]` bytes could be written.
pub open spec fn matlab_input<E>(actions: Seq<ClientActionView<E>>, taken: Seq<nat>) -> Seq<u8>
    decreases actions.len(),
{
    if actions.len() == 0 {
        Seq::empty()
    } else {
        let rest = matlab_input(actions.drop_first(), taken.drop_first());
        match actions[0] {
            ClientActionView::Run { code, .. } => input_line(code).take(taken[0] as int) + rest,
            _ => rest,
        }
    }
}

/// Whether every piece of code could be written to its end.
pub open spec fn all_taken<E>(actions: Seq<ClientActionView<E>>, taken: Seq<nat>) -> bool {
    &&& taken.len() == actions.len()
    &&& forall|i: int|
        0 <= i < actions.len() ==> (#[trigger] actions[i] matches ClientActionView::Run {
            code,
            ..
        } ==> taken[i] == input_line(code).len())
}

/// The code that a series of readings asks for, each piece as a line of input.
pub open spec fn requested_input<E>(incoming: Seq<IncomingView<E>>) -> Seq<u8>
    decreases incoming.len(),
{
    if incoming.len() == 0 {
        Seq::empty()
    } else {
        let rest = requested_input(incoming.drop_first());
        match incoming[0] {
            IncomingView::Line(line) => match meaning(line) {
                CommandView::RunCode(code) => input_line(code) + rest,
                _ => rest,
            },
            _ => rest,
        }
    }
}

/// The code of the lines up to the end of the connection is handed on to be
/// written to MATLAB, all of it and in the order in which the client sent it,
/// and nothing else is.
pub proof fn code_is_handed_on_in_order<E>(incoming: Seq<IncomingView<E>>)
    ensures
        handed_on(conversation(incoming)) == requested_input(
            incoming.take(reach(incoming) as int),
        ),
    decreases incoming.len(),
{
    let actions = conversation(incoming);
    let heard = incoming.take(reach(incoming) as int);
    readings_are_answered_in_turn(incoming);
    if incoming.len() > 0 {
        let rest = incoming.drop_first();
        assert(heard[0] == incoming[0]);
        assert(actions[0] == answer(incoming[0]));
        if keeps_open(incoming[0]) {
            code_is_handed_on_in_order(rest);
            readings_are_answered_in_turn(rest);
            assert(actions.drop_first() == conversation(rest));
            assert(heard.drop_first() == rest.take(reach(rest) as int));
        } else {
            assert(actions.drop_first() == Seq::<ClientActionView<E>>::empty());
            assert(heard.drop_first() == Seq::<IncomingView<E>>::empty());
            assert(handed_on(actions.drop_first()) == Seq::<u8>::empty());
            assert(requested_input(heard.drop_first()) == Seq::<u8>::empty());
        }
    }
}

/// Where every piece of code could be written, MATLAB is given the code of the
/// lines up to the end of the connection, all of it and in the order in which
/// the client sent it, and nothing else.
pub proof fn matlab_reads_what_was_sent<E>(incoming: Seq<IncomingView<E>>, taken: Seq<nat>)
    requires
        all_taken(conversation(incoming), taken),
    ensures
        matlab_input(conversation(incoming), taken) == requested_input(
            incoming.take(reach(incoming) as int),
        ),
{
    code_is_handed_on_in_order(incoming);
    what_is_taken_arrives(conversation(incoming), taken);
}

/// Where everything could be written, what was handed on has arrived.
proof fn what_is_taken_arrives<E>(actions: Seq<ClientActionView<E>>, taken: Seq<nat>)
    requires
        all_taken(actions, taken),
    ensures
        matlab_input(actions, taken) == handed_on(actions),
    decreases actions.len(),
{
    if actions.len() > 0 {
        let rest = actions.drop_first();
        assert forall|i: int| 0 <= i < rest.len() implies (#[trigger] rest[
            i
        ] matches ClientActionView::Run { code, .. } ==> taken.drop_first()[i] == input_line(
            code,
        ).len()) by {
            assert(rest[i] == actions[i + 1]);
        }
        what_is_taken_arrives(rest, taken.drop_first());
        if let ClientActionView::Run { code, .. } = actions[0] {
            assert(input_line(code).take(taken[0] as int) == input_line(code));
        }
    }
}

/// As many interrupts are sent as `cancel` lines come before the end of the
/// connection.
pub proof fn each_cancel_interrupts_once<E>(incoming: Seq<IncomingView<E>>)
    ensures
        conversation(incoming).filter(|action: ClientActionView<E>| action is Interrupt).len()
            == incoming.take(reach(incoming) as int).filter(
            |reading: IncomingView<E>| is_command(reading, CommandView::Cancel),
        ).len(),
    decreases incoming.len(),
{
    let interrupts = |action: ClientActionView<E>| action is Interrupt;
    let cancels = |reading: IncomingView<E>| is_command(reading, CommandView::Cancel);
    readings_are_answered_in_turn(incoming);
    same_count(
        incoming.take(reach(incoming) as int),
        conversation(incoming),
        cancels,
        interrupts,
    );
}

/// Two sequences have as many members that satisfy their predicate, where the
/// predicates agree place by place.
proof fn same_count<A, B>(
    a: Seq<A>,
    b: Seq<B>,
    in_a: spec_fn(A) -> bool,
    in_b: spec_fn(B) -> bool,
)
    requires
        a.len() == b.len(),
        forall|i: int| 0 <= i < a.len() ==> in_a(#[trigger] a[i]) == in_b(b[i]),
    ensures
        a.filter(in_a).len() == b.filter(in_b).len(),
    decreases a.len(),
{
    reveal(Seq::filter);
    if a.len() > 0 {
        same_count(a.drop_last(), b.drop_last(), in_a, in_b);
        assert(in_a(a.last()) == in_b(b.last()));
    }
}

/// A line without a line feed in it gives MATLAB one line to read: the only
/// line feed is the one that ends the code.
pub proof fn one_message_is_one_line_of_input(line: Seq<char>, code: Seq<char>)
    requires
        !line.contains('\n'),
        meaning(line) == CommandView::RunCode(code),
    ensures
        input_line(code).last() == 0x0a,
        forall|i: int|
            0 <= i < input_line(code).len() - 1 ==> #[trigger] input_line(code)[i] != 0x0a,
{
    trimmed_is_the_middle(line);
    let (before, after) = choose|before: Seq<char>, after: Seq<char>|
        all_white_space(before) && all_white_space(after) && line == #[trigger] (before + trimmed(
            line,
        ) + after);
    if code.contains('\n') {
        let i = choose|i: int| 0 <= i < code.len() && code[i] == '\n';
        assert(line[before.len() + i] == '\n');
    }
    ascii_bytes_are_characters(code, 0x0a);
    assert forall|i: int| 0 <= i < input_line(code).len() - 1 implies #[trigger] input_line(code)[i]
        != 0x0a by {
        assert(input_line(code)[i] == encode_utf8(code)[i]);
    }
}

} // verus!
