//! The server's side: one counter per open connection.
//!
//! The server is a state machine. Its state is a table from connection to
//! counter; [`Server::handle`] takes one event of the transport and returns
//! what to do about it. The program around it receives the events and sends
//! the replies.

use std::collections::HashMap;
use vstd::prelude::*;
use crate::message::{ClientMessage, DecodeError, ServerMessage};

verus! {

broadcast use vstd::std_specs::hash::group_hash_axioms;

/// The handle by which the transport names one peer session.
pub type ConnectionId = u64;

/// What the server keeps for one open connection.
#[derive(Clone, Copy, Debug, PartialEq, Eq, Structural)]
pub struct ConnectionState {
    /// The number of pings received on the connection.
    pub count: u64,
}

/// The model of the server's state: the counter of each open connection.
pub type Table = Map<ConnectionId, ConnectionState>;

/// What the transport reports to the server.
#[derive(Debug)]
pub enum ServerEvent {
    /// An outgoing connection attempt has ended, successfully or not. A
    /// server makes none; the event is ignored.
    Connected(ConnectionId, bool),
    /// A peer has connected. Connectionless transports never report this.
    Accepted(ConnectionId),
    /// A peer has sent one framed message.
    Message(ConnectionId, Vec<u8>),
    /// A peer has disconnected.
    Disconnected(ConnectionId),
}

/// What the server does about an event.
#[derive(Clone, Copy, Debug, PartialEq, Eq, Structural)]
pub enum ServerAction {
    /// Nothing.
    Nothing,
    /// Note that `id` has joined; `total` connections are now open.
    Welcome { id: ConnectionId, total: usize },
    /// Send `message` to `to`.
    Reply { to: ConnectionId, message: ServerMessage },
    /// Note that `id` has left; `total` connections remain open.
    Farewell { id: ConnectionId, total: usize },
}

/// Why the server cannot go on after an event.
#[derive(Clone, Copy, Debug, PartialEq, Eq, Structural)]
pub enum ServerError {
    /// A peer sent bytes that are no client message.
    Malformed(DecodeError),
    /// The transport reported the end of a connection that was never open.
    UnknownConnection(ConnectionId),
    /// The counter of the connection cannot count one more ping.
    CounterExhausted(ConnectionId),
}

/// The server: the table of open connections.
///
/// Any table is a valid state, so the table is there to be read; it is
/// [`Server::handle`] that keeps it in step with the transport.
pub struct Server {
    /// The counter of each open connection.
    pub clients: HashMap<ConnectionId, ConnectionState>,
}

impl View for Server {
    type V = Table;

    open spec fn view(&self) -> Table {
        self.clients@
    }
}

impl Server {
    /// What handling `event` makes of `table`, and what is to be done.
    ///
    /// An event that is refused leaves the table as it was.
    pub open spec fn step(table: Table, event: ServerEvent) -> (Table, Result<
        ServerAction,
        ServerError,
    >) {
        match event {
            ServerEvent::Connected(_, _) => (table, Ok(ServerAction::Nothing)),
            ServerEvent::Accepted(id) => {
                let next = table.insert(id, ConnectionState { count: 0 });
                (next, Ok(ServerAction::Welcome { id, total: next.len() as usize }))
            },
            ServerEvent::Message(id, data) => match ClientMessage::from_wire(data@) {
                Err(error) => (table, Err(ServerError::Malformed(error))),
                Ok(ClientMessage::Ping) => {
                    if !table.contains_key(id) {
                        (table, Ok(ServerAction::Reply { to: id, message: ServerMessage::UnknownPong }))
                    } else if table[id].count == u64::MAX {
                        (table, Err(ServerError::CounterExhausted(id)))
                    } else {
                        let count = (table[id].count + 1) as u64;
                        (
                            table.insert(id, ConnectionState { count }),
                            Ok(ServerAction::Reply { to: id, message: ServerMessage::Pong(count) }),
                        )
                    }
                },
            },
            ServerEvent::Disconnected(id) => {
                if table.contains_key(id) {
                    let next = table.remove(id);
                    (next, Ok(ServerAction::Farewell { id, total: next.len() as usize }))
                } else {
                    (table, Err(ServerError::UnknownConnection(id)))
                }
            },
        }
    }

    /// A server with no open connection.
    pub fn new() -> (server: Server)
        ensures
            server@ == Table::empty(),
    {
        Server { clients: HashMap::new() }
    }

    /// The counter of `id`, if that connection is open.
    pub fn count_of(&self, id: ConnectionId) -> (count: Option<u64>)
        ensures
            count == if self@.contains_key(id) {
                Some(self@[id].count)
            } else {
                None
            },
    {
        match self.clients.get(&id) {
            Some(state) => Some(state.count),
            None => None,
        }
    }

    /// Handles one event: updates the table and says what is to be done.
    pub fn handle(&mut self, event: ServerEvent) -> (result: Result<ServerAction, ServerError>)
        ensures
            (final(self)@, result) == Server::step(old(self)@, event),
    {
        match event {
            ServerEvent::Connected(_, _) => Ok(ServerAction::Nothing),
            ServerEvent::Accepted(id) => {
                self.clients.insert(id, ConnectionState { count: 0 });
                Ok(ServerAction::Welcome { id, total: self.clients.len() })
            },
            ServerEvent::Message(id, data) => match ClientMessage::decode(data.as_slice()) {
                Err(error) => Err(ServerError::Malformed(error)),
                Ok(ClientMessage::Ping) => {
                    let known = match self.clients.get(&id) {
                        Some(state) => Some(state.count),
                        None => None,
                    };
                    match known {
                        None => Ok(
                            ServerAction::Reply { to: id, message: ServerMessage::UnknownPong },
                        ),
                        Some(count) => {
                            if count == u64::MAX {
                                Err(ServerError::CounterExhausted(id))
                            } else {
                                let count = count + 1;
                                self.clients.insert(id, ConnectionState { count });
                                Ok(
                                    ServerAction::Reply {
                                        to: id,
                                        message: ServerMessage::Pong(count),
                                    },
                                )
                            }
                        },
                    }
                },
            },
            ServerEvent::Disconnected(id) => {
                match self.clients.remove(&id) {
                    Some(_) => Ok(ServerAction::Farewell { id, total: self.clients.len() }),
                    None => Err(ServerError::UnknownConnection(id)),
                }
            },
        }
    }
}

impl ServerEvent {
    /// The connection that the event is about.
    pub open spec fn connection(self) -> ConnectionId {
        match self {
            ServerEvent::Connected(id, _) => id,
            ServerEvent::Accepted(id) => id,
            ServerEvent::Message(id, _) => id,
            ServerEvent::Disconnected(id) => id,
        }
    }

    /// Whether the event reports that `id` has connected.
    pub open spec fn accepts(self, id: ConnectionId) -> bool {
        self matches ServerEvent::Accepted(who) && who == id
    }

    /// Whether the event reports that `id` has disconnected.
    pub open spec fn ends(self, id: ConnectionId) -> bool {
        self matches ServerEvent::Disconnected(who) && who == id
    }

    /// Whether the event is a well-formed ping sent by `id`.
    pub open spec fn is_ping_from(self, id: ConnectionId) -> bool {
        self matches ServerEvent::Message(who, data) && who == id && ClientMessage::from_wire(
            data@,
        ) is Ok
    }
}

/// The table that handling `events` in order makes of `table`.
pub open spec fn table_after(table: Table, events: Seq<ServerEvent>) -> Table
    decreases events.len(),
{
    if events.len() == 0 {
        table
    } else {
        Server::step(table_after(table, events.drop_last()), events.last()).0
    }
}

/// What is to be done about the last of `events`, once those before it have
/// been handled in order from `table`.
pub open spec fn outcome_of_last(table: Table, events: Seq<ServerEvent>) -> Result<
    ServerAction,
    ServerError,
>
    recommends
        events.len() > 0,
{
    Server::step(table_after(table, events.drop_last()), events.last()).1
}

/// The number of well-formed pings that `id` sends in `events`.
pub open spec fn pings_from(events: Seq<ServerEvent>, id: ConnectionId) -> nat
    decreases events.len(),
{
    if events.len() == 0 {
        0
    } else if events.last().is_ping_from(id) {
        pings_from(events.drop_last(), id) + 1
    } else {
        pings_from(events.drop_last(), id)
    }
}

/// Whether `events` leave `id` connected: they accept it, and do not end it
/// afterwards.
pub open spec fn is_open_after(events: Seq<ServerEvent>, id: ConnectionId) -> bool {
    exists|i: int|
        0 <= i < events.len() && (#[trigger] events[i]).accepts(id) && forall|j: int|
            i < j < events.len() ==> !(#[trigger] events[j]).ends(id)
}

/// An event about one connection leaves every other connection's entry as it
/// was: present or absent, and with the same counter.
pub proof fn lemma_untouched_by_others(table: Table, event: ServerEvent, id: ConnectionId)
    requires
        event.connection() != id,
    ensures
        Server::step(table, event).0.contains_key(id) == table.contains_key(id),
        table.contains_key(id) ==> Server::step(table, event).0[id] == table[id],
{
}

/// While a connection stays open, its counter grows by exactly the number of
/// well-formed pings it sends, whatever else the server handles in between.
pub proof fn lemma_count_follows_pings(table: Table, events: Seq<ServerEvent>, id: ConnectionId)
    requires
        table.contains_key(id),
        forall|i: int|
            0 <= i < events.len() ==> !(#[trigger] events[i]).accepts(id) && !events[i].ends(id),
        table[id].count + pings_from(events, id) <= u64::MAX,
    ensures
        table_after(table, events).contains_key(id),
        table_after(table, events)[id].count == table[id].count + pings_from(events, id),
    decreases events.len(),
{
    if events.len() > 0 {
        lemma_count_follows_pings(table, events.drop_last(), id);
    }
}

/// From the moment a connection is accepted, the reply to its n-th
/// well-formed ping carries the count n. Neither the table at the time of
/// the accept nor the events of other connections in between change that.
pub proof fn lemma_nth_ping_gets_n(table: Table, id: ConnectionId, events: Seq<ServerEvent>)
    requires
        events.len() > 0,
        events.last().is_ping_from(id),
        forall|i: int|
            0 <= i < events.len() ==> !(#[trigger] events[i]).accepts(id) && !events[i].ends(id),
        pings_from(events, id) <= u64::MAX,
    ensures
        outcome_of_last(Server::step(table, ServerEvent::Accepted(id)).0, events) == Ok::<
            ServerAction,
            ServerError,
        >(
            ServerAction::Reply {
                to: id,
                message: ServerMessage::Pong(pings_from(events, id) as u64),
            },
        ),
{
    let accepted = Server::step(table, ServerEvent::Accepted(id)).0;
    lemma_count_follows_pings(accepted, events.drop_last(), id);
}

/// When one connected client sends pings and nothing else happens, the n-th
/// reply carries the count n: counting starts at 1.
pub proof fn lemma_pings_of_one_client(table: Table, id: ConnectionId, pings: Seq<ServerEvent>)
    requires
        pings.len() > 0,
        pings.len() <= u64::MAX,
        forall|i: int| 0 <= i < pings.len() ==> (#[trigger] pings[i]).is_ping_from(id),
    ensures
        outcome_of_last(Server::step(table, ServerEvent::Accepted(id)).0, pings) == Ok::<
            ServerAction,
            ServerError,
        >(ServerAction::Reply { to: id, message: ServerMessage::Pong(pings.len() as u64) }),
{
    lemma_all_pings_count(pings, id);
    lemma_nth_ping_gets_n(table, id, pings);
}

/// Where every event is a well-formed ping of `id`, there are as many pings
/// as events.
proof fn lemma_all_pings_count(pings: Seq<ServerEvent>, id: ConnectionId)
    requires
        forall|i: int| 0 <= i < pings.len() ==> (#[trigger] pings[i]).is_ping_from(id),
    ensures
        pings_from(pings, id) == pings.len(),
    decreases pings.len(),
{
    if pings.len() > 0 {
        lemma_all_pings_count(pings.drop_last(), id);
    }
}

/// A well-formed ping of a connection that the table does not hold is
/// answered with `UnknownPong`, and creates no entry.
pub proof fn lemma_unknown_sender_gets_unknown_pong(
    table: Table,
    id: ConnectionId,
    ping: ServerEvent,
)
    requires
        !table.contains_key(id),
        ping.is_ping_from(id),
    ensures
        Server::step(table, ping) == (
            table,
            Ok::<ServerAction, ServerError>(
                ServerAction::Reply { to: id, message: ServerMessage::UnknownPong },
            ),
        ),
{
}

/// A disconnect removes the connection's entry and no other. Should the
/// transport accept the same identifier again, its first ping is answered
/// with the count 1, whatever the earlier counter had reached.
pub proof fn lemma_disconnect_forgets(table: Table, id: ConnectionId, ping: ServerEvent)
    requires
        table.contains_key(id),
        ping.is_ping_from(id),
    ensures
        ({
            let gone = Server::step(table, ServerEvent::Disconnected(id)).0;
            let back = Server::step(gone, ServerEvent::Accepted(id)).0;
            &&& gone == table.remove(id)
            &&& !gone.contains_key(id)
            &&& Server::step(back, ping).1 == Ok::<ServerAction, ServerError>(
                ServerAction::Reply { to: id, message: ServerMessage::Pong(1) },
            )
        }),
{
}

/// After any events, the table holds a connection exactly if it held it
/// before and no event ended it, or some event accepted it and none ended it
/// afterwards.
pub proof fn lemma_keys_follow_lifecycle(table: Table, events: Seq<ServerEvent>, id: ConnectionId)
    ensures
        table_after(table, events).contains_key(id) <==> is_open_after(events, id) || (
        table.contains_key(id) && forall|j: int|
            0 <= j < events.len() ==> !(#[trigger] events[j]).ends(id)),
    decreases events.len(),
{
    if events.len() > 0 {
        let before = events.drop_last();
        let last = events.last();
        lemma_keys_follow_lifecycle(table, before, id);
        assert(forall|i: int| 0 <= i < before.len() ==> before[i] == events[i]);
        if last.accepts(id) {
            assert(events[events.len() - 1].accepts(id));
        } else if last.ends(id) {
            assert(events[events.len() - 1].ends(id));
        } else {
            assert(!events[events.len() - 1].ends(id));
            if is_open_after(before, id) {
                let i = choose|i: int|
                    0 <= i < before.len() && (#[trigger] before[i]).accepts(id) && forall|j: int|
                        i < j < before.len() ==> !(#[trigger] before[j]).ends(id);
                assert(events[i].accepts(id));
            }
            if is_open_after(events, id) {
                let i = choose|i: int|
                    0 <= i < events.len() && (#[trigger] events[i]).accepts(id) && forall|j: int|
                        i < j < events.len() ==> !(#[trigger] events[j]).ends(id);
                assert(before[i].accepts(id));
            }
        }
    }
}

/// The table of a server that started empty holds exactly the connections
/// that have been accepted and not disconnected since.
pub proof fn lemma_keys_are_open_connections(events: Seq<ServerEvent>)
    ensures
        forall|id: ConnectionId|
            table_after(Table::empty(), events).contains_key(id) <==> is_open_after(events, id),
{
    assert forall|id: ConnectionId|
        table_after(Table::empty(), events).contains_key(id) <==> is_open_after(events, id) by {
        lemma_keys_follow_lifecycle(Table::empty(), events, id);
    }
}

} // verus!
