//! Rows of the table of messages.

use vstd::prelude::*;
use crate::util::clone_bytes;

verus! {

/// What a stored message is.
#[derive(Clone, Copy, Debug, PartialEq, Eq, Structural)]
pub enum GroupMessageKind {
    /// What a member wrote.
    Application,
    /// A record of members that came or went.
    MembershipChange,
}

/// Whether a message has reached the network.
#[derive(Clone, Copy, Debug, PartialEq, Eq, Structural)]
pub enum DeliveryStatus {
    Unpublished,
    Published,
    Failed,
}

/// A message as the store knows it.
#[derive(Debug, PartialEq, Eq)]
pub struct StoredGroupMessage {
    pub id: Vec<u8>,
    pub group_id: Vec<u8>,
    pub decrypted_message_bytes: Vec<u8>,
    pub sent_at_ns: i64,
    pub kind: GroupMessageKind,
    pub sender_installation_id: Vec<u8>,
    pub sender_inbox_id: String,
    pub delivery_status: DeliveryStatus,
}

/// The mathematical value of a message row.
pub struct MessageRow {
    pub id: Seq<u8>,
    pub group_id: Seq<u8>,
    pub decrypted_message_bytes: Seq<u8>,
    pub sent_at_ns: i64,
    pub kind: GroupMessageKind,
    pub sender_installation_id: Seq<u8>,
    pub sender_inbox_id: Seq<char>,
    pub delivery_status: DeliveryStatus,
}

impl View for StoredGroupMessage {
    type V = MessageRow;

    open spec fn view(&self) -> MessageRow {
        MessageRow {
            id: self.id@,
            group_id: self.group_id@,
            decrypted_message_bytes: self.decrypted_message_bytes@,
            sent_at_ns: self.sent_at_ns,
            kind: self.kind,
            sender_installation_id: self.sender_installation_id@,
            sender_inbox_id: self.sender_inbox_id@,
            delivery_status: self.delivery_status,
        }
    }
}

impl Clone for StoredGroupMessage {
    fn clone(&self) -> (copy: Self)
        ensures
            copy@ == self@,
    {
        StoredGroupMessage {
            id: clone_bytes(&self.id),
            group_id: clone_bytes(&self.group_id),
            decrypted_message_bytes: clone_bytes(&self.decrypted_message_bytes),
            sent_at_ns: self.sent_at_ns,
            kind: self.kind,
            sender_installation_id: clone_bytes(&self.sender_installation_id),
            sender_inbox_id: self.sender_inbox_id.clone(),
            delivery_status: self.delivery_status,
        }
    }
}

} // verus!
