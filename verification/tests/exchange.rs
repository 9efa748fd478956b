use ping_pong::client::{on_event, ClientAction, ClientEvent};
use ping_pong::message::ServerMessage;
use ping_pong::server::{Server, ServerAction, ServerEvent};

/// One turn of the timer: the client's ping goes to the server, the server's
/// reply goes back, and the client says what it would show.
fn greet(server: &mut Server, id: u64) -> (ServerMessage, ServerMessage) {
    let request = match on_event(ClientEvent::Greet).unwrap() {
        ClientAction::Send { message, again_in_secs } => {
            assert_eq!(again_in_secs, 1);
            message.encode()
        }
        other => panic!("the timer made the client {:?}", other),
    };
    let sent = match server.handle(ServerEvent::Message(id, request)).unwrap() {
        ServerAction::Reply { to, message } => {
            assert_eq!(to, id);
            message
        }
        other => panic!("the ping made the server {:?}", other),
    };
    let shown = match on_event(ClientEvent::Message(sent.encode())).unwrap() {
        ClientAction::Report(message) => message,
        other => panic!("the reply made the client {:?}", other),
    };
    (sent, shown)
}

#[test]
fn three_pings_are_counted_one_two_three() {
    let mut server = Server::new();
    assert_eq!(
        server.handle(ServerEvent::Accepted(1)),
        Ok(ServerAction::Welcome { id: 1, total: 1 })
    );
    assert_eq!(on_event(ClientEvent::Connected(true)), Ok(ClientAction::StartGreeting));
    let mut server_log = Vec::new();
    let mut client_log = Vec::new();
    for _ in 0..3 {
        let (sent, shown) = greet(&mut server, 1);
        server_log.push(sent);
        client_log.push(shown);
    }
    let expected = vec![
        ServerMessage::Pong(1),
        ServerMessage::Pong(2),
        ServerMessage::Pong(3),
    ];
    assert_eq!(server_log, expected);
    assert_eq!(client_log, expected);
}

#[test]
fn connectionless_client_is_answered_without_a_count() {
    let mut server = Server::new();
    for _ in 0..3 {
        let (sent, shown) = greet(&mut server, 77);
        assert_eq!(sent, ServerMessage::UnknownPong);
        assert_eq!(shown, ServerMessage::UnknownPong);
    }
    assert!(server.clients.is_empty());
}

#[test]
fn two_clients_in_turn_each_count_from_one() {
    let mut server = Server::new();
    server.handle(ServerEvent::Accepted(1)).unwrap();
    assert_eq!(greet(&mut server, 1).1, ServerMessage::Pong(1));
    assert_eq!(greet(&mut server, 1).1, ServerMessage::Pong(2));
    server.handle(ServerEvent::Accepted(2)).unwrap();
    assert_eq!(greet(&mut server, 2).1, ServerMessage::Pong(1));
    assert_eq!(greet(&mut server, 1).1, ServerMessage::Pong(3));
    server.handle(ServerEvent::Disconnected(1)).unwrap();
    server.handle(ServerEvent::Accepted(1)).unwrap();
    assert_eq!(greet(&mut server, 1).1, ServerMessage::Pong(1));
    assert_eq!(greet(&mut server, 2).1, ServerMessage::Pong(2));
}
