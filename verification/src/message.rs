//! The two message kinds and their wire form.
//!
//! A message travels as its variant's index, a `u32`, followed by the
//! variant's payload, both fixed-width little-endian. Bytes after a complete
//! message are ignored by the reader.

use vstd::prelude::*;
use vstd::slice::slice_subrange;
use crate::wire::{
    deserialize_u32, deserialize_u64, le_bytes, le_value, lemma_le_bound_of_words,
    lemma_le_bytes_len, lemma_le_round_trip, serialize_u32, serialize_u64,
};

verus! {

/// What a client sends.
#[derive(Clone, Copy, Debug, PartialEq, Eq, Structural)]
pub enum ClientMessage {
    /// A request to be counted and answered.
    Ping,
}

/// What the server answers.
#[derive(Clone, Copy, Debug, PartialEq, Eq, Structural)]
pub enum ServerMessage {
    /// The answer to a ping of a known connection, with the number of pings
    /// that connection has sent so far, this one included.
    Pong(u64),
    /// The answer to a ping whose sender the server keeps no state for.
    UnknownPong,
}

/// Why bytes are not a message.
#[derive(Clone, Copy, Debug, PartialEq, Eq, Structural)]
pub enum DecodeError {
    /// The bytes end before the message does.
    Truncated,
    /// The variant index names no variant of the message type.
    UnknownVariant(u32),
}

/// The width of a variant index on the wire.
pub const TAG_WIDTH: usize = 4;

/// The width of a counter on the wire.
pub const COUNT_WIDTH: usize = 8;

impl ClientMessage {
    /// The index of the variant.
    pub open spec fn tag(self) -> u32 {
        0
    }

    /// The bytes that stand for the message.
    pub open spec fn wire_bytes(self) -> Seq<u8> {
        le_bytes(self.tag() as nat, TAG_WIDTH as nat)
    }

    /// The message that `bytes` begin with, or why they begin with none.
    pub open spec fn from_wire(bytes: Seq<u8>) -> Result<ClientMessage, DecodeError> {
        if bytes.len() < TAG_WIDTH {
            Err(DecodeError::Truncated)
        } else {
            let tag = le_value(bytes.take(TAG_WIDTH as int));
            if tag == 0 {
                Ok(ClientMessage::Ping)
            } else {
                Err(DecodeError::UnknownVariant(tag as u32))
            }
        }
    }

    /// Writes the message out.
    pub fn encode(&self) -> (data: Vec<u8>)
        ensures
            data@ == self.wire_bytes(),
            ClientMessage::from_wire(data@) == Ok::<ClientMessage, DecodeError>(*self),
    {
        proof {
            lemma_client_round_trip(*self);
        }
        serialize_u32(0).unwrap()
    }

    /// Reads a message from the front of `bytes`.
    pub fn decode(bytes: &[u8]) -> (result: Result<ClientMessage, DecodeError>)
        ensures
            result == ClientMessage::from_wire(bytes@),
    {
        match deserialize_u32(bytes) {
            Err(_) => Err(DecodeError::Truncated),
            Ok(tag) => {
                if tag == 0 {
                    Ok(ClientMessage::Ping)
                } else {
                    Err(DecodeError::UnknownVariant(tag))
                }
            },
        }
    }
}

impl ServerMessage {
    /// The index of the variant.
    pub open spec fn tag(self) -> u32 {
        match self {
            ServerMessage::Pong(_) => 0,
            ServerMessage::UnknownPong => 1,
        }
    }

    /// The bytes that stand for the message.
    pub open spec fn wire_bytes(self) -> Seq<u8> {
        match self {
            ServerMessage::Pong(count) => le_bytes(self.tag() as nat, TAG_WIDTH as nat) + le_bytes(
                count as nat,
                COUNT_WIDTH as nat,
            ),
            ServerMessage::UnknownPong => le_bytes(self.tag() as nat, TAG_WIDTH as nat),
        }
    }

    /// The message that `bytes` begin with, or why they begin with none.
    pub open spec fn from_wire(bytes: Seq<u8>) -> Result<ServerMessage, DecodeError> {
        if bytes.len() < TAG_WIDTH {
            Err(DecodeError::Truncated)
        } else {
            let tag = le_value(bytes.take(TAG_WIDTH as int));
            if tag == 0 {
                if bytes.len() < TAG_WIDTH + COUNT_WIDTH {
                    Err(DecodeError::Truncated)
                } else {
                    Ok(
                        ServerMessage::Pong(
                            le_value(
                                bytes.subrange(TAG_WIDTH as int, TAG_WIDTH + COUNT_WIDTH),
                            ) as u64,
                        ),
                    )
                }
            } else if tag == 1 {
                Ok(ServerMessage::UnknownPong)
            } else {
                Err(DecodeError::UnknownVariant(tag as u32))
            }
        }
    }

    /// Writes the message out.
    pub fn encode(&self) -> (data: Vec<u8>)
        ensures
            data@ == self.wire_bytes(),
            ServerMessage::from_wire(data@) == Ok::<ServerMessage, DecodeError>(*self),
    {
        proof {
            lemma_server_round_trip(*self);
        }
        match self {
            ServerMessage::Pong(count) => {
                let mut data = serialize_u32(0).unwrap();
                let mut payload = serialize_u64(*count).unwrap();
                data.append(&mut payload);
                data
            },
            ServerMessage::UnknownPong => serialize_u32(1).unwrap(),
        }
    }

    /// Reads a message from the front of `bytes`.
    pub fn decode(bytes: &[u8]) -> (result: Result<ServerMessage, DecodeError>)
        ensures
            result == ServerMessage::from_wire(bytes@),
    {
        match deserialize_u32(bytes) {
            Err(_) => Err(DecodeError::Truncated),
            Ok(tag) => {
                if tag == 0 {
                    let payload = slice_subrange(bytes, TAG_WIDTH, bytes.len());
                    assert(payload@.len() >= COUNT_WIDTH ==> payload@.take(COUNT_WIDTH as int)
                        =~= bytes@.subrange(TAG_WIDTH as int, TAG_WIDTH + COUNT_WIDTH));
                    match deserialize_u64(payload) {
                        Err(_) => Err(DecodeError::Truncated),
                        Ok(count) => Ok(ServerMessage::Pong(count)),
                    }
                } else if tag == 1 {
                    Ok(ServerMessage::UnknownPong)
                } else {
                    Err(DecodeError::UnknownVariant(tag))
                }
            },
        }
    }
}

/// Every client message is read back from its own bytes.
pub proof fn lemma_client_round_trip(message: ClientMessage)
    ensures
        ClientMessage::from_wire(message.wire_bytes()) == Ok::<ClientMessage, DecodeError>(message),
{
    lemma_le_bytes_len(0, 4);
    lemma_le_bound_of_words();
    lemma_le_round_trip(0, 4);
    assert(message.wire_bytes().take(4) =~= message.wire_bytes());
}

/// Every server message is read back from its own bytes.
pub proof fn lemma_server_round_trip(message: ServerMessage)
    ensures
        ServerMessage::from_wire(message.wire_bytes()) == Ok::<ServerMessage, DecodeError>(message),
{
    let bytes = message.wire_bytes();
    let tag = le_bytes(message.tag() as nat, 4);
    lemma_le_bytes_len(message.tag() as nat, 4);
    lemma_le_bound_of_words();
    lemma_le_round_trip(message.tag() as nat, 4);
    assert(bytes.take(4) =~= tag);
    match message {
        ServerMessage::Pong(count) => {
            let payload = le_bytes(count as nat, 8);
            lemma_le_bytes_len(count as nat, 8);
            lemma_le_round_trip(count as nat, 8);
            assert(bytes.subrange(4, 12) =~= payload);
        },
        ServerMessage::UnknownPong => {},
    }
}

} // verus!
