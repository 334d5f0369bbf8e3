//! The socket server: from a stale socket file to the end of the last client.

use vstd::prelude::*;

verus! {

use crate::client::{
    code_is_handed_on_in_order, conversation, ending, handed_on, is_command, keeps_open,
    kill_stops_the_server, reach, requested_input, ClientActionView, IncomingView,
};
use crate::protocol::CommandView;

/// What came of an action of the server.
pub enum ServerEvent<E> {
    /// The server was started; `stale` tells whether a file is in the place of
    /// its socket.
    Started { stale: bool },
    /// The file was removed.
    Removed,
    /// The file could not be removed.
    RemoveFailed(E),
    /// The socket is bound.
    Bound,
    /// The socket could not be bound.
    BindFailed(E),
    /// A client has connected.
    Connected,
    /// No connection could be accepted.
    AcceptFailed(E),
    /// The connection is over: with `true` the client has asked for the end of
    /// the server, with `false` it has left, with an error it was lost.
    Disconnected(Result<bool, E>),
    /// The server was told to shut down while it waited for a client.
    ShutdownRequested,
}

/// An action of the server.
pub enum ServerAction<E> {
    /// Remove the file in the place of the socket.
    RemoveStale,
    /// Bind the socket.
    Bind,
    /// Wait for a client or for a request to shut down.
    AwaitClient,
    /// Serve the client until its connection is over.
    Serve,
    /// Stop with this result.
    Finish(Result<(), E>),
}

/// The action that follows an event.
pub open spec fn server_reaction<E>(event: ServerEvent<E>) -> ServerAction<E> {
    match event {
        ServerEvent::Started { stale } => if stale {
            ServerAction::RemoveStale
        } else {
            ServerAction::Bind
        },
        ServerEvent::Removed => ServerAction::Bind,
        ServerEvent::RemoveFailed(e) => ServerAction::Finish(Err(e)),
        ServerEvent::Bound => ServerAction::AwaitClient,
        ServerEvent::BindFailed(e) => ServerAction::Finish(Err(e)),
        ServerEvent::Connected => ServerAction::Serve,
        ServerEvent::AcceptFailed(e) => ServerAction::Finish(Err(e)),
        ServerEvent::Disconnected(Ok(stop)) => if stop {
            ServerAction::Finish(Ok(()))
        } else {
            ServerAction::AwaitClient
        },
        ServerEvent::Disconnected(Err(e)) => ServerAction::Finish(Err(e)),
        ServerEvent::ShutdownRequested => ServerAction::Finish(Ok(())),
    }
}

/// Decides how the server goes on.
pub fn on_server_event<E>(event: ServerEvent<E>) -> (res: ServerAction<E>)
    ensures
        res == server_reaction(event),
        res is RemoveStale <==> (event matches ServerEvent::Started { stale } && stale),
        res is Bind <==> event is Removed || (event matches ServerEvent::Started { stale }
            && !stale),
        res is AwaitClient <==> event is Bound || (event matches ServerEvent::Disconnected(end)
            && (end matches Ok(stop) && !stop)),
        res is Serve <==> event is Connected,
        (res matches ServerAction::Finish(end) && end is Ok) <==> event is ShutdownRequested || (
        event matches ServerEvent::Disconnected(left) && (left matches Ok(stop) && stop)),
        (res matches ServerAction::Finish(end) && end is Err) <==> event is RemoveFailed
            || event is BindFailed || event is AcceptFailed || (event matches
            ServerEvent::Disconnected(left) && left is Err),
        res matches ServerAction::Finish(Err(e)) ==> {
            ||| event == ServerEvent::RemoveFailed(e)
            ||| event == ServerEvent::BindFailed(e)
            ||| event == ServerEvent::AcceptFailed(e)
            ||| event == ServerEvent::<E>::Disconnected(Err(e))
        },
{
    match event {
        ServerEvent::Started { stale } => if stale {
            ServerAction::RemoveStale
        } else {
            ServerAction::Bind
        },
        ServerEvent::Removed => ServerAction::Bind,
        ServerEvent::RemoveFailed(e) => ServerAction::Finish(Err(e)),
        ServerEvent::Bound => ServerAction::AwaitClient,
        ServerEvent::BindFailed(e) => ServerAction::Finish(Err(e)),
        ServerEvent::Connected => ServerAction::Serve,
        ServerEvent::AcceptFailed(e) => ServerAction::Finish(Err(e)),
        ServerEvent::Disconnected(Ok(stop)) => if stop {
            ServerAction::Finish(Ok(()))
        } else {
            ServerAction::AwaitClient
        },
        ServerEvent::Disconnected(Err(e)) => ServerAction::Finish(Err(e)),
        ServerEvent::ShutdownRequested => ServerAction::Finish(Ok(())),
    }
}

/// What the server does next is a matter of the last event alone. A file in
/// the place of the socket is removed, and only then; the socket is bound once
/// no file is in its place; a client is served exactly when it has connected; a
/// client that has left makes room for the next; and an error that is handed on
/// is the one that came up.
pub proof fn what_follows_in_the_server<E>(event: ServerEvent<E>)
    ensures
        server_reaction(event) is RemoveStale <==> (event matches ServerEvent::Started { stale }
            && stale),
        server_reaction(event) is Bind <==> event is Removed || (event matches
            ServerEvent::Started { stale } && !stale),
        server_reaction(event) is AwaitClient <==> event is Bound || (event matches
            ServerEvent::Disconnected(end) && (end matches Ok(stop) && !stop)),
        server_reaction(event) is Serve <==> event is Connected,
        (server_reaction(event) matches ServerAction::Finish(end) && end is Ok)
            <==> event is ShutdownRequested || (event matches ServerEvent::Disconnected(left) && (
        left matches Ok(stop) && stop)),
        server_reaction(event) matches ServerAction::Finish(Err(e)) ==> {
            ||| event == ServerEvent::RemoveFailed(e)
            ||| event == ServerEvent::BindFailed(e)
            ||| event == ServerEvent::AcceptFailed(e)
            ||| event == ServerEvent::<E>::Disconnected(Err(e))
        },
{
}

/// Whether an event can come of an action.
pub open spec fn server_can_follow<E>(action: ServerAction<E>, event: ServerEvent<E>) -> bool {
    match action {
        ServerAction::RemoveStale => event is Removed || event is RemoveFailed,
        ServerAction::Bind => event is Bound || event is BindFailed,
        ServerAction::AwaitClient => event is Connected || event is AcceptFailed
            || event is ShutdownRequested,
        ServerAction::Serve => event is Disconnected,
        ServerAction::Finish(_) => false,
    }
}

/// Whether events can follow one another in a server, from its start on. A
/// server that is given a bound socket starts by waiting for a client.
pub open spec fn server_history<E>(events: Seq<ServerEvent<E>>) -> bool {
    &&& events.len() > 0 ==> events[0] is Started || server_can_follow(
        ServerAction::AwaitClient,
        events[0],
    )
    &&& forall|i: int|
        0 < i < events.len() ==> server_can_follow(
            server_reaction(events[i - 1]),
            #[trigger] events[i],
        )
}

/// The error that an event carries.
pub open spec fn server_failure<E>(event: ServerEvent<E>) -> Option<E> {
    match event {
        ServerEvent::RemoveFailed(e) => Some(e),
        ServerEvent::BindFailed(e) => Some(e),
        ServerEvent::AcceptFailed(e) => Some(e),
        ServerEvent::Disconnected(Err(e)) => Some(e),
        _ => None,
    }
}

/// The server stops without an error exactly when a client has asked for its
/// end or a shutdown was requested, and with an error exactly when one came
/// up, with that error; and once it has stopped, nothing happens any more.
pub proof fn what_stops_the_server<E>(events: Seq<ServerEvent<E>>, i: int)
    requires
        server_history(events),
        0 <= i < events.len(),
    ensures
        server_reaction(events[i]) == ServerAction::<E>::Finish(Ok(())) <==> (events[i]
            == ServerEvent::<E>::Disconnected(Ok(true)) || events[i] is ShutdownRequested),
        forall|e: E|
            server_reaction(events[i]) == ServerAction::<E>::Finish(Err(e)) <==> server_failure(
                events[i],
            ) == Some(e),
        server_reaction(events[i]) is Finish ==> i == events.len() - 1,
{
    if i < events.len() - 1 {
        assert(server_can_follow(server_reaction(events[i]), events[i + 1]));
    }
}

/// A client that leaves does not stop the server: it waits for the next one.
pub proof fn clients_come_and_go<E>(events: Seq<ServerEvent<E>>, i: int)
    requires
        server_history(events),
        0 <= i < events.len() - 1,
        events[i] == ServerEvent::<E>::Disconnected(Ok(false)),
    ensures
        events[i + 1] is Connected || events[i + 1] is AcceptFailed || events[i
            + 1] is ShutdownRequested,
{
    assert(server_can_follow(server_reaction(events[i]), events[i + 1]));
}

/// A server that binds its socket itself has bound it before it waits for a
/// client, and where there was a file in the socket's place, that file was
/// removed before.
pub proof fn clients_come_after_binding<E>(events: Seq<ServerEvent<E>>, i: int)
    requires
        server_history(events),
        events[0] is Started,
        0 <= i < events.len(),
        server_reaction(events[i]) is AwaitClient || server_reaction(events[i]) is Serve,
    ensures
        exists|b: int|
            0 < b <= i && #[trigger] events[b] is Bound && (events[0] == ServerEvent::<E>::Started {
                stale: true,
            } ==> b == 2 && events[1] is Removed),
    decreases i,
{
    if i > 0 {
        assert(server_can_follow(server_reaction(events[i - 1]), events[i]));
    }
    if events[i] is Bound {
        if i > 1 {
            assert(server_can_follow(server_reaction(events[i - 2]), events[i - 1]));
        }
        if events[i - 1] is Removed {
            assert(server_reaction(events[i - 2]) is RemoveStale);
            if i > 2 {
                assert(server_can_follow(server_reaction(events[i - 3]), events[i - 2]));
            }
        }
    } else {
        clients_come_after_binding(events, i - 1);
    }
}

/// A client whose lines hold a `kill` stops the server, without an error,
/// whatever it would have sent after that.
pub proof fn kill_finishes_the_server<E>(incoming: Seq<IncomingView<E>>, k: int)
    requires
        0 <= k < incoming.len(),
        forall|i: int| 0 <= i < k ==> keeps_open(#[trigger] incoming[i]),
        is_command(incoming[k], CommandView::Kill),
    ensures
        ending(conversation(incoming).last()) matches Some(result) && server_reaction(
            ServerEvent::Disconnected(result),
        ) == ServerAction::<E>::Finish(Ok(())),
{
    kill_stops_the_server(incoming, k);
}

/// Whether the server waits for the next client after a connection with these
/// actions.
pub open spec fn goes_on<E>(talk: Seq<ClientActionView<E>>) -> bool {
    talk.len() > 0 && (ending(talk.last()) matches Some(result) && server_reaction(
        ServerEvent::Disconnected(result),
    ) is AwaitClient)
}

/// The actions of a server that is given these clients, one after another.
pub open spec fn service<E>(clients: Seq<Seq<IncomingView<E>>>) -> Seq<ClientActionView<E>>
    decreases clients.len(),
{
    if clients.len() == 0 {
        Seq::empty()
    } else {
        let talk = conversation(clients[0]);
        if goes_on(talk) {
            talk + service(clients.drop_first())
        } else {
            talk
        }
    }
}

/// The number of clients up to and with the first after which the server does
/// not wait for another.
pub open spec fn served<E>(clients: Seq<Seq<IncomingView<E>>>) -> nat
    decreases clients.len(),
{
    if clients.len() == 0 {
        0
    } else if goes_on(conversation(clients[0])) {
        1 + served(clients.drop_first())
    } else {
        1
    }
}

/// Clients are served one after another, up to and with the first that stops
/// the server or does not come to an end: what the server does is what it does
/// for each of them in turn, and the code that each of them has sent is handed
/// on to be written to MATLAB, one client's after the other's, and nothing else.
pub proof fn clients_are_served_in_turn<E>(clients: Seq<Seq<IncomingView<E>>>)
    ensures
        served(clients) <= clients.len(),
        forall|i: int|
            0 <= i < served(clients) - 1 ==> goes_on(conversation(#[trigger] clients[i])),
        served(clients) < clients.len() ==> served(clients) > 0 && !goes_on(
            conversation(clients[served(clients) - 1]),
        ),
        service(clients) == clients.take(served(clients) as int).map_values(
            |incoming: Seq<IncomingView<E>>| conversation(incoming),
        ).flatten(),
        handed_on(service(clients)) == clients.take(served(clients) as int).map_values(
            |incoming: Seq<IncomingView<E>>|
                requested_input(incoming.take(reach(incoming) as int)),
        ).flatten(),
    decreases clients.len(),
{
    let talks = |incoming: Seq<IncomingView<E>>| conversation(incoming);
    let inputs = |incoming: Seq<IncomingView<E>>|
        requested_input(incoming.take(reach(incoming) as int));
    let heard = clients.take(served(clients) as int);
    if clients.len() == 0 {
        assert(heard.map_values(talks).len() == 0);
        assert(heard.map_values(inputs).len() == 0);
    } else {
        let rest = clients.drop_first();
        let talk = conversation(clients[0]);
        clients_are_served_in_turn(rest);
        code_is_handed_on_in_order(clients[0]);
        assert(heard[0] == clients[0]);
        assert(heard.map_values(talks)[0] == talk);
        assert(heard.map_values(inputs)[0] == handed_on(talk));
        let later = if goes_on(talk) {
            rest.take(served(rest) as int)
        } else {
            Seq::empty()
        };
        assert(heard.drop_first() == later);
        assert(heard.map_values(talks).drop_first() == later.map_values(talks));
        assert(heard.map_values(inputs).drop_first() == later.map_values(inputs));
        if goes_on(talk) {
            input_of_parts(talk, service(rest));
            assert forall|i: int| 0 <= i < served(clients) - 1 implies goes_on(
                conversation(#[trigger] clients[i]),
            ) by {
                if i > 0 {
                    assert(clients[i] == rest[i - 1]);
                }
            }
            if served(rest) > 0 {
                assert(clients[served(rest) as int] == rest[served(rest) - 1]);
            }
        } else {
            assert(later.map_values(talks).flatten() == Seq::<ClientActionView<E>>::empty());
            assert(later.map_values(inputs).flatten() == Seq::<u8>::empty());
        }
    }
}

/// What two series of actions hand on.
proof fn input_of_parts<E>(a: Seq<ClientActionView<E>>, b: Seq<ClientActionView<E>>)
    ensures
        handed_on(a + b) == handed_on(a) + handed_on(b),
    decreases a.len(),
{
    if a.len() == 0 {
        assert(a + b == b);
        assert(handed_on(a) + handed_on(b) == handed_on(b));
    } else {
        assert((a + b).drop_first() == a.drop_first() + b);
        input_of_parts(a.drop_first(), b);
        assert((a + b)[0] == a[0]);
        assert(handed_on(a + b) == handed_on(a) + handed_on(b));
    }
}

/// After a client that stops the server, be it by a `kill` or by an error, no
/// other client is served.
pub proof fn no_client_after_the_end<E>(clients: Seq<Seq<IncomingView<E>>>, k: int)
    requires
        0 <= k < clients.len(),
        !goes_on(conversation(clients[k])),
    ensures
        service(clients) == service(clients.take(k + 1)),
    decreases clients.len(),
{
    let first = clients.take(k + 1);
    assert(first[0] == clients[0]);
    if k > 0 && goes_on(conversation(clients[0])) {
        no_client_after_the_end(clients.drop_first(), k - 1);
        assert(first.drop_first() == clients.drop_first().take(k));
    }
}

} // verus!
