use ping_pong::message::{ClientMessage, DecodeError, ServerMessage};
use ping_pong::server::{ConnectionState, Server, ServerAction, ServerError, ServerEvent};

fn ping(from: u64) -> ServerEvent {
    ServerEvent::Message(from, ClientMessage::Ping.encode())
}

fn pong(to: u64, count: u64) -> Result<ServerAction, ServerError> {
    Ok(ServerAction::Reply { to, message: ServerMessage::Pong(count) })
}

fn unknown_pong(to: u64) -> Result<ServerAction, ServerError> {
    Ok(ServerAction::Reply { to, message: ServerMessage::UnknownPong })
}

#[test]
fn new_server_has_no_connection() {
    let server = Server::new();
    assert!(server.clients.is_empty());
    assert_eq!(server.count_of(1), None);
}

#[test]
fn accept_creates_a_zero_counter() {
    let mut server = Server::new();
    assert_eq!(
        server.handle(ServerEvent::Accepted(7)),
        Ok(ServerAction::Welcome { id: 7, total: 1 })
    );
    assert_eq!(server.count_of(7), Some(0));
    assert_eq!(server.clients.get(&7), Some(&ConnectionState { count: 0 }));
    assert_eq!(
        server.handle(ServerEvent::Accepted(9)),
        Ok(ServerAction::Welcome { id: 9, total: 2 })
    );
    assert_eq!(server.clients.len(), 2);
}

#[test]
fn nth_ping_is_answered_with_n() {
    let mut server = Server::new();
    server.handle(ServerEvent::Accepted(1)).unwrap();
    for n in 1..=100u64 {
        assert_eq!(server.handle(ping(1)), pong(1, n));
        assert_eq!(server.count_of(1), Some(n));
    }
}

#[test]
fn first_ping_is_answered_with_one_not_zero() {
    let mut server = Server::new();
    server.handle(ServerEvent::Accepted(3)).unwrap();
    assert_eq!(server.handle(ping(3)), pong(3, 1));
}

#[test]
fn second_client_starts_at_one() {
    let mut server = Server::new();
    server.handle(ServerEvent::Accepted(1)).unwrap();
    assert_eq!(server.handle(ping(1)), pong(1, 1));
    assert_eq!(server.handle(ping(1)), pong(1, 2));
    assert_eq!(server.handle(ping(1)), pong(1, 3));
    server.handle(ServerEvent::Accepted(2)).unwrap();
    assert_eq!(server.handle(ping(2)), pong(2, 1));
    assert_eq!(server.count_of(1), Some(3));
}

#[test]
fn counters_of_two_clients_do_not_mix() {
    let mut server = Server::new();
    server.handle(ServerEvent::Accepted(10)).unwrap();
    server.handle(ServerEvent::Accepted(20)).unwrap();
    assert_eq!(server.handle(ping(10)), pong(10, 1));
    assert_eq!(server.handle(ping(20)), pong(20, 1));
    assert_eq!(server.handle(ping(20)), pong(20, 2));
    assert_eq!(server.handle(ping(10)), pong(10, 2));
    assert_eq!(server.handle(ping(20)), pong(20, 3));
    assert_eq!(server.handle(ServerEvent::Disconnected(20)), Ok(ServerAction::Farewell { id: 20, total: 1 }));
    assert_eq!(server.handle(ping(10)), pong(10, 3));
    assert_eq!(server.count_of(10), Some(3));
    assert_eq!(server.count_of(20), None);
}

#[test]
fn ping_without_accept_gets_unknown_pong() {
    let mut server = Server::new();
    assert_eq!(server.handle(ping(5)), unknown_pong(5));
    assert_eq!(server.handle(ping(5)), unknown_pong(5));
    assert!(server.clients.is_empty());
    server.handle(ServerEvent::Accepted(6)).unwrap();
    server.handle(ping(6)).unwrap();
    assert_eq!(server.handle(ping(5)), unknown_pong(5));
    assert_eq!(server.count_of(5), None);
    assert_eq!(server.count_of(6), Some(1));
}

#[test]
fn disconnect_removes_the_entry() {
    let mut server = Server::new();
    server.handle(ServerEvent::Accepted(1)).unwrap();
    server.handle(ServerEvent::Accepted(2)).unwrap();
    server.handle(ping(1)).unwrap();
    assert_eq!(
        server.handle(ServerEvent::Disconnected(1)),
        Ok(ServerAction::Farewell { id: 1, total: 1 })
    );
    assert_eq!(server.count_of(1), None);
    assert!(!server.clients.contains_key(&1));
    assert_eq!(server.count_of(2), Some(0));
    assert_eq!(server.handle(ping(1)), unknown_pong(1));
}

#[test]
fn reconnect_under_the_same_id_starts_at_one() {
    let mut server = Server::new();
    server.handle(ServerEvent::Accepted(4)).unwrap();
    for _ in 0..5 {
        server.handle(ping(4)).unwrap();
    }
    assert_eq!(server.count_of(4), Some(5));
    server.handle(ServerEvent::Disconnected(4)).unwrap();
    assert_eq!(
        server.handle(ServerEvent::Accepted(4)),
        Ok(ServerAction::Welcome { id: 4, total: 1 })
    );
    assert_eq!(server.handle(ping(4)), pong(4, 1));
}

#[test]
fn accept_of_an_open_connection_resets_its_counter() {
    let mut server = Server::new();
    server.handle(ServerEvent::Accepted(4)).unwrap();
    server.handle(ping(4)).unwrap();
    assert_eq!(
        server.handle(ServerEvent::Accepted(4)),
        Ok(ServerAction::Welcome { id: 4, total: 1 })
    );
    assert_eq!(server.count_of(4), Some(0));
}

#[test]
fn disconnect_of_an_unknown_connection_is_an_error() {
    let mut server = Server::new();
    assert_eq!(
        server.handle(ServerEvent::Disconnected(8)),
        Err(ServerError::UnknownConnection(8))
    );
    server.handle(ServerEvent::Accepted(9)).unwrap();
    assert_eq!(
        server.handle(ServerEvent::Disconnected(8)),
        Err(ServerError::UnknownConnection(8))
    );
    assert_eq!(server.count_of(9), Some(0));
    server.handle(ServerEvent::Disconnected(9)).unwrap();
    assert_eq!(
        server.handle(ServerEvent::Disconnected(9)),
        Err(ServerError::UnknownConnection(9))
    );
}

#[test]
fn malformed_message_is_an_error_and_counts_nothing() {
    let mut server = Server::new();
    server.handle(ServerEvent::Accepted(1)).unwrap();
    assert_eq!(
        server.handle(ServerEvent::Message(1, vec![])),
        Err(ServerError::Malformed(DecodeError::Truncated))
    );
    assert_eq!(
        server.handle(ServerEvent::Message(1, vec![0, 0])),
        Err(ServerError::Malformed(DecodeError::Truncated))
    );
    assert_eq!(
        server.handle(ServerEvent::Message(1, vec![1, 0, 0, 0])),
        Err(ServerError::Malformed(DecodeError::UnknownVariant(1)))
    );
    assert_eq!(
        server.handle(ServerEvent::Message(2, vec![3, 0, 0, 0])),
        Err(ServerError::Malformed(DecodeError::UnknownVariant(3)))
    );
    assert_eq!(server.count_of(1), Some(0));
    assert_eq!(server.handle(ping(1)), pong(1, 1));
}

#[test]
fn ping_with_trailing_bytes_still_counts() {
    let mut server = Server::new();
    server.handle(ServerEvent::Accepted(1)).unwrap();
    assert_eq!(
        server.handle(ServerEvent::Message(1, vec![0, 0, 0, 0, 1, 2, 3])),
        pong(1, 1)
    );
}

#[test]
fn connected_event_changes_nothing() {
    let mut server = Server::new();
    server.handle(ServerEvent::Accepted(1)).unwrap();
    server.handle(ping(1)).unwrap();
    assert_eq!(server.handle(ServerEvent::Connected(1, true)), Ok(ServerAction::Nothing));
    assert_eq!(server.handle(ServerEvent::Connected(2, false)), Ok(ServerAction::Nothing));
    assert_eq!(server.clients.len(), 1);
    assert_eq!(server.count_of(1), Some(1));
    assert_eq!(server.count_of(2), None);
}

#[test]
fn full_counter_refuses_one_more_ping() {
    let mut server = Server::new();
    server.clients.insert(1, ConnectionState { count: u64::MAX - 1 });
    assert_eq!(server.handle(ping(1)), pong(1, u64::MAX));
    assert_eq!(server.handle(ping(1)), Err(ServerError::CounterExhausted(1)));
    assert_eq!(server.count_of(1), Some(u64::MAX));
    assert_eq!(server.handle(ping(2)), unknown_pong(2));
}

#[test]
fn keys_are_the_open_connections() {
    let mut server = Server::new();
    let events = [
        ServerEvent::Accepted(1),
        ServerEvent::Accepted(2),
        ping(1),
        ServerEvent::Accepted(3),
        ServerEvent::Disconnected(2),
        ping(4),
        ServerEvent::Accepted(2),
        ServerEvent::Disconnected(1),
    ];
    for event in events {
        server.handle(event).unwrap();
    }
    let mut keys: Vec<u64> = server.clients.keys().copied().collect();
    keys.sort();
    assert_eq!(keys, vec![2, 3]);
}
