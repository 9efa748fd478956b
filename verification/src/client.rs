//! The client's side: greet the server once a second, report what it answers.
//!
//! The client keeps no state of its own. [`on_event`] takes one event of the
//! transport or of the timer and returns what to do about it; the program
//! around it connects, sends, sleeps and prints.

use vstd::prelude::*;
use crate::message::{ClientMessage, DecodeError, ServerMessage};

verus! {

/// The time between two pings, in seconds.
pub const GREET_PERIOD_SECS: u64 = 1;

/// What the transport or the timer reports to the client.
#[derive(Debug)]
pub enum ClientEvent {
    /// The connection attempt has ended; `true` if the connection stands.
    Connected(bool),
    /// The server has sent one framed message.
    Message(Vec<u8>),
    /// The server has disconnected.
    Disconnected,
    /// The timer has fired: it is time to greet the server.
    Greet,
}

/// Why the client stops.
#[derive(Clone, Copy, Debug, PartialEq, Eq, Structural)]
pub enum StopReason {
    /// The connection could not be made.
    ConnectionFailed,
    /// The server has closed the connection.
    ServerGone,
}

/// What the client does about an event.
#[derive(Clone, Copy, Debug, PartialEq, Eq, Structural)]
pub enum ClientAction {
    /// Let the timer fire at once, for the first greeting.
    StartGreeting,
    /// Send `message` to the server, and let the timer fire again in
    /// `again_in_secs` seconds.
    Send { message: ClientMessage, again_in_secs: u64 },
    /// Show the server's answer.
    Report(ServerMessage),
    /// Leave the event loop.
    Stop(StopReason),
}

/// What is to be done about `event`, or why the server's bytes are no message.
pub open spec fn reaction(event: ClientEvent) -> Result<ClientAction, DecodeError> {
    match event {
        ClientEvent::Connected(true) => Ok(ClientAction::StartGreeting),
        ClientEvent::Connected(false) => Ok(ClientAction::Stop(StopReason::ConnectionFailed)),
        ClientEvent::Message(data) => match ServerMessage::from_wire(data@) {
            Ok(message) => Ok(ClientAction::Report(message)),
            Err(error) => Err(error),
        },
        ClientEvent::Disconnected => Ok(ClientAction::Stop(StopReason::ServerGone)),
        ClientEvent::Greet => Ok(
            ClientAction::Send { message: ClientMessage::Ping, again_in_secs: GREET_PERIOD_SECS },
        ),
    }
}

/// Handles one event.
pub fn on_event(event: ClientEvent) -> (result: Result<ClientAction, DecodeError>)
    ensures
        result == reaction(event),
{
    match event {
        ClientEvent::Connected(established) => {
            if established {
                Ok(ClientAction::StartGreeting)
            } else {
                Ok(ClientAction::Stop(StopReason::ConnectionFailed))
            }
        },
        ClientEvent::Message(data) => match ServerMessage::decode(data.as_slice()) {
            Ok(message) => Ok(ClientAction::Report(message)),
            Err(error) => Err(error),
        },
        ClientEvent::Disconnected => Ok(ClientAction::Stop(StopReason::ServerGone)),
        ClientEvent::Greet => Ok(
            ClientAction::Send { message: ClientMessage::Ping, again_in_secs: GREET_PERIOD_SECS },
        ),
    }
}

} // verus!
