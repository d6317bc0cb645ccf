//! The metadata of a group that never changes: what the group is for and
//! who created it.

use vstd::prelude::*;

verus! {

/// What sort of conversation a group is.
#[derive(Clone, Copy, Debug, PartialEq, Eq, Structural)]
pub enum ConversationType {
    Group,
    Dm,
    Sync,
}

/// The immutable metadata of a group.
#[derive(Debug, PartialEq, Eq)]
pub struct GroupMetadata {
    pub conversation_type: ConversationType,
    pub creator_account_address: String,
    pub creator_inbox_id: String,
}

/// The mathematical value of a group's immutable metadata.
pub struct GroupMetadataView {
    pub conversation_type: ConversationType,
    pub creator_account_address: Seq<char>,
    pub creator_inbox_id: Seq<char>,
}

impl View for GroupMetadata {
    type V = GroupMetadataView;

    open spec fn view(&self) -> GroupMetadataView {
        GroupMetadataView {
            conversation_type: self.conversation_type,
            creator_account_address: self.creator_account_address@,
            creator_inbox_id: self.creator_inbox_id@,
        }
    }
}

impl Clone for GroupMetadata {
    fn clone(&self) -> (copy: Self)
        ensures
            copy@ == self@,
    {
        GroupMetadata {
            conversation_type: self.conversation_type,
            creator_account_address: self.creator_account_address.clone(),
            creator_inbox_id: self.creator_inbox_id.clone(),
        }
    }
}

impl GroupMetadata {
    /// The metadata from its parts.
    pub fn new(
        conversation_type: ConversationType,
        creator_account_address: String,
        creator_inbox_id: String,
    ) -> (m: GroupMetadata)
        ensures
            m.conversation_type == conversation_type,
            m.creator_account_address == creator_account_address,
            m.creator_inbox_id == creator_inbox_id,
    {
        GroupMetadata { conversation_type, creator_account_address, creator_inbox_id }
    }
}

} // verus!
