//! Members of an inbox and the identifiers they are known by.

use vstd::prelude::*;
use crate::util::{bytes_eq, clone_bytes, text_eq};

verus! {

/// What sort of principal a member is.
#[derive(Clone, Copy, Debug, PartialEq, Eq, Structural)]
pub enum MemberKind {
    Installation,
    Address,
}

/// The mathematical value of a member identifier.
pub enum MemberId {
    Address(Seq<char>),
    Installation(Seq<u8>),
}

impl MemberId {
    /// The kind that an identifier of this shape names.
    pub open spec fn kind(self) -> MemberKind {
        match self {
            MemberId::Address(_) => MemberKind::Address,
            MemberId::Installation(_) => MemberKind::Installation,
        }
    }
}

/// Identifies a member: a blockchain account address or an installation key.
#[derive(Debug, PartialEq, Eq)]
pub enum MemberIdentifier {
    Address(String),
    Installation(Vec<u8>),
}

impl View for MemberIdentifier {
    type V = MemberId;

    open spec fn view(&self) -> MemberId {
        match self {
            MemberIdentifier::Address(a) => MemberId::Address(a@),
            MemberIdentifier::Installation(k) => MemberId::Installation(k@),
        }
    }
}

impl Clone for MemberIdentifier {
    fn clone(&self) -> (copy: Self)
        ensures
            copy@ == self@,
    {
        match self {
            MemberIdentifier::Address(a) => MemberIdentifier::Address(a.clone()),
            MemberIdentifier::Installation(k) => MemberIdentifier::Installation(clone_bytes(k)),
        }
    }
}

impl MemberIdentifier {
    /// The kind of principal that this identifier names.
    pub fn kind(&self) -> (k: MemberKind)
        ensures
            k == self@.kind(),
    {
        match self {
            MemberIdentifier::Address(_) => MemberKind::Address,
            MemberIdentifier::Installation(_) => MemberKind::Installation,
        }
    }

    /// Whether two identifiers name the same principal.
    pub fn same_as(&self, other: &MemberIdentifier) -> (same: bool)
        ensures
            same == (self@ == other@),
    {
        match (self, other) {
            (MemberIdentifier::Address(a), MemberIdentifier::Address(b)) => text_eq(a, b),
            (MemberIdentifier::Installation(a), MemberIdentifier::Installation(b)) => bytes_eq(a, b),
            _ => false,
        }
    }
}

/// The mathematical value of a member record.
pub struct MemberView {
    pub identifier: MemberId,
    pub added_by_entity: Option<MemberId>,
    pub client_timestamp_ns: u64,
}

/// The view of an optional identifier.
pub open spec fn opt_id_view(id: Option<MemberIdentifier>) -> Option<MemberId> {
    match id {
        Some(i) => Some(i@),
        None => None,
    }
}

/// One member of an inbox, with the member that added it and the time the
/// client gave for the addition.
#[derive(Debug, PartialEq, Eq)]
pub struct Member {
    pub identifier: MemberIdentifier,
    pub added_by_entity: Option<MemberIdentifier>,
    pub client_timestamp_ns: u64,
}

impl View for Member {
    type V = MemberView;

    open spec fn view(&self) -> MemberView {
        MemberView {
            identifier: self.identifier@,
            added_by_entity: opt_id_view(self.added_by_entity),
            client_timestamp_ns: self.client_timestamp_ns,
        }
    }
}

impl Clone for Member {
    fn clone(&self) -> (copy: Self)
        ensures
            copy@ == self@,
    {
        let added_by = match &self.added_by_entity {
            Some(p) => Some(p.clone()),
            None => None,
        };
        Member {
            identifier: self.identifier.clone(),
            added_by_entity: added_by,
            client_timestamp_ns: self.client_timestamp_ns,
        }
    }
}

impl Member {
    /// A member record from its parts.
    pub fn new(
        identifier: MemberIdentifier,
        added_by_entity: Option<MemberIdentifier>,
        client_timestamp_ns: u64,
    ) -> (m: Member)
        ensures
            m.identifier == identifier,
            m.added_by_entity == added_by_entity,
            m.client_timestamp_ns == client_timestamp_ns,
    {
        Member { identifier, added_by_entity, client_timestamp_ns }
    }

    /// The kind of principal that this member is.
    pub fn kind(&self) -> (k: MemberKind)
        ensures
            k == self@.identifier.kind(),
    {
        self.identifier.kind()
    }
}

} // verus!
