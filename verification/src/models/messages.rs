//! Messages of the JSON session stream.

use crate::models::api::SerializedColabDoc;
use vstd::prelude::*;
use vstd::string::*;

verus! {

/// A client asks for the document.
#[derive(Debug)]
pub struct LoadMessage {
    pub user: String,
    pub peer: String,
}

/// A batch of operations from a client.
#[derive(Debug, Clone)]
pub struct UpdateMessage {
    pub delta: Vec<u8>,
    pub user: String,
    pub peer: String,
}

/// A keep-alive from a client.
#[derive(Debug)]
pub struct PingMessage {
    pub user: String,
    pub peer: String,
}

/// The document handed to a client that asked for it.
#[derive(Debug)]
pub struct InitMessage {
    pub colab_doc: SerializedColabDoc,
}

/// The answer to a keep-alive, with the server's time.
#[derive(Debug, Clone)]
pub struct PongMessage {
    pub date: String,
}

/// What a client may send.
#[derive(Debug)]
pub enum ReceivedMessage {
    Load(LoadMessage),
    Update(UpdateMessage),
    Ping(PingMessage),
}

/// An update on its way to the other connections of a room.
#[derive(Debug, Clone)]
pub struct BroadcastUpdateMessage {
    pub sender_id: String,
    pub update: UpdateMessage,
}

/// What the server may send.
#[derive(Debug)]
pub enum SendMessage {
    Init(InitMessage),
    Update(UpdateMessage),
    Pong(PongMessage),
}

/// Whether a broadcast is to be delivered to the connection `connection_id`:
/// to every connection but the one that sent it.
pub fn delivers_to(msg: &BroadcastUpdateMessage, connection_id: &str) -> (r: bool)
    ensures
        r == (msg.sender_id@ != connection_id@),
{
    !crate::text::str_eq(msg.sender_id.as_str(), connection_id)
}

/// The answer to a client that asks for the document `document_id`: the
/// document under its identifier as name and identifier, with its snapshot.
pub fn handle_load_message(load_msg: &LoadMessage, document_id: &str, snapshot: Vec<u8>) -> (r:
    SendMessage)
    ensures
        r matches SendMessage::Init(m) && m.colab_doc.name@ == document_id@ && m.colab_doc.id@
            == document_id@ && m.colab_doc.loro_doc == snapshot,
{
    SendMessage::Init(
        InitMessage {
            colab_doc: SerializedColabDoc {
                name: String::from_str(document_id),
                id: String::from_str(document_id),
                loro_doc: snapshot,
            },
        },
    )
}

/// The answer to a keep-alive, sent at `date`.
pub fn handle_ping_message(ping_msg: &PingMessage, date: String) -> (r: SendMessage)
    ensures
        r matches SendMessage::Pong(m) && m.date == date,
{
    SendMessage::Pong(PongMessage { date })
}

/// An update of the connection `connection_id` on its way to the others.
pub fn handle_update_message(update_msg: UpdateMessage, connection_id: &str) -> (r:
    BroadcastUpdateMessage)
    ensures
        r.sender_id@ == connection_id@,
        r.update == update_msg,
{
    BroadcastUpdateMessage { sender_id: String::from_str(connection_id), update: update_msg }
}

} // verus!
