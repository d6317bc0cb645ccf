//! What the key store keeps for a conversation topic.

use vstd::prelude::*;
use crate::text_map::TextMap;

verus! {

/// The context of an invitation: the conversation it is for, and what the
/// inviter said about it.
#[derive(Debug, PartialEq, Eq)]
pub struct InvitationContext {
    pub conversation_id: String,
    pub metadata: TextMap<String>,
}

/// The key of a topic, with the context of the invitation that opened the
/// topic, if any, and the time, in nanoseconds since the epoch in UTC, at
/// which the topic was created.
#[derive(Debug, PartialEq, Eq)]
pub struct TopicData {
    pub key: Vec<u8>,
    pub context: Option<InvitationContext>,
    pub created: u64,
}

impl InvitationContext {
    /// The context of an invitation to a conversation, with nothing said
    /// about it yet.
    pub fn new(conversation_id: String) -> (c: Self)
        ensures
            c.conversation_id == conversation_id,
            c.metadata@ == Map::<Seq<char>, Seq<char>>::empty(),
    {
        InvitationContext { conversation_id, metadata: TextMap::new() }
    }
}

impl TopicData {
    /// The data of a topic from its parts.
    pub fn new(key: Vec<u8>, context: Option<InvitationContext>, created: u64) -> (t: Self)
        ensures
            t.key == key,
            t.context == context,
            t.created == created,
    {
        TopicData { key, context, created }
    }
}

} // verus!
