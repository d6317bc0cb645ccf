//! Rows of the table of groups.

use vstd::prelude::*;
use crate::util::clone_bytes;

verus! {

/// Whether the user has taken up membership of a group.
#[derive(Clone, Copy, Debug, PartialEq, Eq, Structural)]
pub enum GroupMembershipState {
    /// The user created the group or accepted the invitation.
    Allowed,
    /// The user turned the invitation down.
    Rejected,
    /// The user was added and has not answered yet.
    Pending,
}

/// What a group is for.
#[derive(Clone, Copy, Debug, PartialEq, Eq, Structural)]
pub enum Purpose {
    /// Messages between people.
    Conversation,
    /// History shared between the installations of one user.
    Sync,
}

/// One group as the store knows it.
#[derive(Debug, PartialEq, Eq)]
pub struct StoredGroup {
    pub id: Vec<u8>,
    pub created_at_ns: i64,
    pub membership_state: GroupMembershipState,
    pub installations_last_checked: i64,
    pub purpose: Purpose,
    pub added_by_inbox_id: String,
}

/// The mathematical value of a group row.
pub struct GroupRow {
    pub id: Seq<u8>,
    pub created_at_ns: i64,
    pub membership_state: GroupMembershipState,
    pub installations_last_checked: i64,
    pub purpose: Purpose,
    pub added_by_inbox_id: Seq<char>,
}

impl View for StoredGroup {
    type V = GroupRow;

    open spec fn view(&self) -> GroupRow {
        GroupRow {
            id: self.id@,
            created_at_ns: self.created_at_ns,
            membership_state: self.membership_state,
            installations_last_checked: self.installations_last_checked,
            purpose: self.purpose,
            added_by_inbox_id: self.added_by_inbox_id@,
        }
    }
}

impl Clone for StoredGroup {
    fn clone(&self) -> (copy: Self)
        ensures
            copy@ == self@,
    {
        StoredGroup {
            id: clone_bytes(&self.id),
            created_at_ns: self.created_at_ns,
            membership_state: self.membership_state,
            installations_last_checked: self.installations_last_checked,
            purpose: self.purpose,
            added_by_inbox_id: self.added_by_inbox_id.clone(),
        }
    }
}

impl StoredGroup {
    /// The row of a conversation group.
    pub fn new(
        id: Vec<u8>,
        created_at_ns: i64,
        membership_state: GroupMembershipState,
        added_by_inbox_id: String,
    ) -> (g: StoredGroup)
        ensures
            g@ == (GroupRow {
                id: id@,
                created_at_ns,
                membership_state,
                installations_last_checked: 0,
                purpose: Purpose::Conversation,
                added_by_inbox_id: added_by_inbox_id@,
            }),
    {
        StoredGroup {
            id,
            created_at_ns,
            membership_state,
            installations_last_checked: 0,
            purpose: Purpose::Conversation,
            added_by_inbox_id,
        }
    }

    /// The row of a sync group, which nobody was added to by another.
    pub fn new_sync_group(
        id: Vec<u8>,
        created_at_ns: i64,
        membership_state: GroupMembershipState,
    ) -> (g: StoredGroup)
        ensures
            g@ == (GroupRow {
                id: id@,
                created_at_ns,
                membership_state,
                installations_last_checked: 0,
                purpose: Purpose::Sync,
                added_by_inbox_id: Seq::<char>::empty(),
            }),
    {
        StoredGroup {
            id,
            created_at_ns,
            membership_state,
            installations_last_checked: 0,
            purpose: Purpose::Sync,
            added_by_inbox_id: String::new(),
        }
    }
}

} // verus!
