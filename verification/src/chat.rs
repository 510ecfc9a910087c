//! Data model of the chat hub: committed messages, inbound action payloads,
//! and the events that are broadcast to every connected session.

use vstd::prelude::*;

verus! {

/// A committed chat message. `id` and `time` are assigned by the message
/// store at commit time; `email` and `username` are captured from the
/// authenticated identity of the committing session, never from the client
/// payload. `time` is a UTC instant in microseconds since the Unix epoch.
#[derive(Debug, Clone, PartialEq)]
pub struct ChatMessage {
    pub id: i32,
    pub email: String,
    pub username: String,
    pub message: String,
    pub time: i64,
}

impl ChatMessage {
    /// An exact copy, provably equal to `self`.
    pub fn duplicate(&self) -> (r: Self)
        ensures
            r == *self,
    {
        ChatMessage {
            id: self.id,
            email: self.email.clone(),
            username: self.username.clone(),
            message: self.message.clone(),
            time: self.time,
        }
    }
}

/// Payload of a `new_message` action: the message body supplied by the client.
#[derive(Debug, Clone, PartialEq)]
pub struct NewMessage {
    pub message: String,
}

/// Payload of a `delete_message` action: the id of the message to delete.
#[derive(Debug, Clone, PartialEq)]
pub struct DeleteMessageRequest {
    pub id: i32,
}

/// An event published on the broadcast bus after a successful commit.
#[derive(Debug, Clone, PartialEq)]
pub enum OutgoingMessage {
    NewMessage(ChatMessage),
    Delete { message_id: i32 },
}

impl OutgoingMessage {
    /// An exact copy, provably equal to `self`.
    pub fn duplicate(&self) -> (r: Self)
        ensures
            r == *self,
    {
        match self {
            OutgoingMessage::NewMessage(m) => OutgoingMessage::NewMessage(m.duplicate()),
            OutgoingMessage::Delete { message_id } => OutgoingMessage::Delete {
                message_id: *message_id,
            },
        }
    }
}

} // verus!
