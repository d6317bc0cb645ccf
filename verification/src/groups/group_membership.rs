//! The inboxes of a group, each with the latest sequence number of its
//! identity log that the group has taken note of.

use vstd::prelude::*;
use crate::text_map::TextMap;

verus! {

/// Which inboxes are in a group.
#[derive(Debug, PartialEq, Eq)]
pub struct GroupMembership {
    pub members: TextMap<u64>,
}

impl View for GroupMembership {
    type V = Map<Seq<char>, u64>;

    open spec fn view(&self) -> Map<Seq<char>, u64> {
        self.members@
    }
}

impl Clone for GroupMembership {
    fn clone(&self) -> (copy: Self)
        ensures
            copy@ == self@,
            copy.inbox_ids() == self.inbox_ids(),
    {
        GroupMembership { members: self.members.copy() }
    }
}

impl GroupMembership {
    /// The inboxes in the order in which they first came.
    pub open spec fn inbox_ids(&self) -> Seq<Seq<char>> {
        self.members.keys()
    }

    /// A membership without inboxes.
    pub fn new() -> (m: GroupMembership)
        ensures
            m@ == Map::<Seq<char>, u64>::empty(),
            m.inbox_ids() == Seq::<Seq<char>>::empty(),
    {
        GroupMembership { members: TextMap::new() }
    }

    /// The membership with the inbox at the given sequence number.
    pub fn add(self, inbox_id: String, sequence_id: u64) -> (m: GroupMembership)
        ensures
            m@ == self@.insert(inbox_id@, sequence_id),
            self@.contains_key(inbox_id@) ==> m.inbox_ids() == self.inbox_ids(),
            !self@.contains_key(inbox_id@) ==> m.inbox_ids() == self.inbox_ids().push(inbox_id@),
    {
        GroupMembership { members: self.members.insert(inbox_id, sequence_id) }
    }

    /// The membership without the inbox.
    pub fn remove(self, inbox_id: &String) -> (m: GroupMembership)
        ensures
            m@ == self@.remove(inbox_id@),
            m.inbox_ids() == crate::text_map::without_text(self.inbox_ids(), inbox_id@),
    {
        GroupMembership { members: self.members.remove(inbox_id) }
    }

    /// The sequence number noted for the inbox, if it is in the group.
    pub fn get(&self, inbox_id: &String) -> (sequence_id: Option<u64>)
        ensures
            sequence_id is Some <==> self@.contains_key(inbox_id@),
            sequence_id is Some ==> sequence_id.unwrap() == self@[inbox_id@],
    {
        match self.members.get(inbox_id) {
            Some(s) => Some(*s),
            None => None,
        }
    }

    /// Whether the inbox is in the group.
    pub fn contains(&self, inbox_id: &String) -> (has: bool)
        ensures
            has == self@.contains_key(inbox_id@),
    {
        self.members.contains_key(inbox_id)
    }

    /// How many inboxes are in the group. The inboxes in the order in which
    /// they came are the inboxes of the group, each once.
    pub fn len(&self) -> (n: usize)
        ensures
            n == self.inbox_ids().len(),
            self@.dom().finite(),
            n == self@.len(),
            self.inbox_ids().no_duplicates(),
            forall|inbox_id: Seq<char>|
                self@.contains_key(inbox_id) <==> self.inbox_ids().contains(inbox_id),
    {
        self.members.len()
    }
}

} // verus!
