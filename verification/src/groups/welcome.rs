//! Joining a group through a welcome.

use vstd::prelude::*;
use vstd::utf8::{decode_utf8, valid_utf8};
use crate::associations::state::AssociationState;
use crate::client::XmtpMlsLocalContext;
use crate::groups::errors::{GroupError, GroupMetadataError};
use crate::groups::group_metadata::ConversationType;
use crate::groups::state::{extract_group_metadata, GroupState, GroupStateView};
use crate::groups::MlsGroup;
use crate::identity::{owning_address, Identity};
use crate::storage::group::{GroupMembershipState, GroupRow, Purpose, StoredGroup};
use crate::storage::store::{
    cursors_monotone, group_row, insert_or_ignore, mls_group_of, store_well_formed, StoreView,
};
use crate::util::clone_bytes;

verus! {

/// A welcome after the MLS layer has opened it: the group as the new member
/// finds it, and who sent the welcome.
#[derive(Debug, PartialEq, Eq)]
pub struct DecryptedWelcome {
    /// The state of the group at the time of the welcome.
    pub group: GroupState,
    /// The identity bytes of the sender's credential.
    pub sender_credential_identity: Vec<u8>,
    /// The key that the sender signs with.
    pub sender_signature_key: Vec<u8>,
}

/// The row under which a group is stored when it is joined: a conversation
/// waits for the user's answer and notes who added the user; a sync group
/// is allowed at once.
pub open spec fn joined_row(
    group: GroupStateView,
    conversation_type: ConversationType,
    added_by_inbox_id: Seq<char>,
    now_ns: i64,
) -> GroupRow {
    match conversation_type {
        ConversationType::Sync => GroupRow {
            id: group.group_id,
            created_at_ns: now_ns,
            membership_state: GroupMembershipState::Allowed,
            installations_last_checked: 0,
            purpose: Purpose::Sync,
            added_by_inbox_id: Seq::<char>::empty(),
        },
        _ => GroupRow {
            id: group.group_id,
            created_at_ns: now_ns,
            membership_state: GroupMembershipState::Pending,
            installations_last_checked: 0,
            purpose: Purpose::Conversation,
            added_by_inbox_id,
        },
    }
}

/// Whether `after` is the store that `before` becomes when a group is
/// joined: the state of the group is kept, in place of any state kept for
/// it before, and the row of the group is added unless there is one
/// already.
pub open spec fn joined_in(
    before: StoreView,
    after: StoreView,
    group: GroupStateView,
    row: GroupRow,
) -> bool {
    &&& after.groups == insert_or_ignore(before.groups, row)
    &&& mls_group_of(after.mls_groups, group.group_id) == Some(group)
    &&& forall|other: Seq<u8>|
        other != group.group_id ==> #[trigger] mls_group_of(after.mls_groups, other)
            == mls_group_of(before.mls_groups, other)
    &&& after == (StoreView { groups: after.groups, mls_groups: after.mls_groups, ..before })
}

impl MlsGroup {
    /// Takes up a group from an opened welcome. The state of the group is
    /// kept in any case; a row for the group is added only where there is
    /// none yet, so a welcome that comes twice leaves one group. A group
    /// that does not carry its immutable metadata is refused, and nothing
    /// changes then.
    pub fn create_from_welcome(
        context: &mut XmtpMlsLocalContext,
        group: GroupState,
        added_by_inbox_id: String,
        now_ns: i64,
    ) -> (r: Result<Self, GroupError>)
        ensures
            final(context).identity == old(context).identity,
            store_well_formed(final(context).store@),
            cursors_monotone(old(context).store@, final(context).store@),
            match r {
                Ok(g) => {
                    &&& group@.extensions.immutable_metadata is Some
                    &&& joined_in(
                        old(context).store@,
                        final(context).store@,
                        group@,
                        joined_row(
                            group@,
                            group@.extensions.immutable_metadata.unwrap().conversation_type,
                            added_by_inbox_id@,
                            now_ns,
                        ),
                    )
                    &&& g.group_id@ == group@.group_id
                    &&& g.created_at_ns == group_row(
                        final(context).store@.groups,
                        group@.group_id,
                    ).created_at_ns
                },
                Err(e) => {
                    &&& group@.extensions.immutable_metadata is None
                    &&& final(context).store@ == old(context).store@
                    &&& e == GroupError::GroupMetadata(GroupMetadataError::MissingExtension)
                },
            },
    {
        context.store.check();
        let metadata = match extract_group_metadata(&group) {
            Ok(m) => m,
            Err(e) => {
                return Err(GroupError::GroupMetadata(e));
            },
        };
        let group_id = clone_bytes(&group.group_id);
        let to_store = match metadata.conversation_type {
            ConversationType::Group | ConversationType::Dm => StoredGroup::new(
                clone_bytes(&group_id),
                now_ns,
                GroupMembershipState::Pending,
                added_by_inbox_id,
            ),
            ConversationType::Sync => StoredGroup::new_sync_group(
                clone_bytes(&group_id),
                now_ns,
                GroupMembershipState::Allowed,
            ),
        };
        context.store.save_mls_group(group);
        let stored_group = context.store.insert_or_ignore_group(to_store);
        Ok(MlsGroup::new(stored_group.id, stored_group.created_at_ns))
    }

    /// Takes up a group from a welcome that the MLS layer has opened. The
    /// sender's credential has to name the inbox that the given association
    /// state is of, and the sender's key has to be the key of an
    /// installation of that inbox that an account address added. The group
    /// is stored as added by that inbox.
    pub fn create_from_encrypted_welcome(
        context: &mut XmtpMlsLocalContext,
        welcome: DecryptedWelcome,
        sender_state: &AssociationState,
        now_ns: i64,
    ) -> (r: Result<Self, GroupError>)
        ensures
            final(context).identity == old(context).identity,
            store_well_formed(final(context).store@),
            cursors_monotone(old(context).store@, final(context).store@),
            match r {
                Ok(g) => {
                    &&& sender_is_valid(welcome, sender_state@)
                    &&& welcome.group@.extensions.immutable_metadata is Some
                    &&& joined_in(
                        old(context).store@,
                        final(context).store@,
                        welcome.group@,
                        joined_row(
                            welcome.group@,
                            welcome.group@.extensions.immutable_metadata.unwrap().conversation_type,
                            sender_state@.inbox_id,
                            now_ns,
                        ),
                    )
                    &&& g.group_id@ == welcome.group@.group_id
                    &&& g.created_at_ns == group_row(
                        final(context).store@.groups,
                        welcome.group@.group_id,
                    ).created_at_ns
                },
                Err(GroupError::Identity(_)) => {
                    &&& !sender_is_valid(welcome, sender_state@)
                    &&& final(context).store@ == old(context).store@
                },
                Err(GroupError::GroupMetadata(_)) => {
                    &&& sender_is_valid(welcome, sender_state@)
                    &&& welcome.group@.extensions.immutable_metadata is None
                    &&& final(context).store@ == old(context).store@
                },
                Err(_) => false,
            },
    {
        context.store.check();
        match Identity::get_validated_account_address(
            sender_state,
            &welcome.sender_credential_identity,
            &welcome.sender_signature_key,
        ) {
            Ok(_) => {},
            Err(e) => {
                return Err(GroupError::Identity(e));
            },
        }
        let added_by = sender_state.inbox_id().clone();
        match Self::create_from_welcome(context, welcome.group, added_by, now_ns) {
            Ok(g) => Ok(g),
            Err(_) => Err(GroupError::GroupMetadata(GroupMetadataError::MissingExtension)),
        }
    }
}

/// Whether the sender of a welcome is who the credential says: the
/// credential names the inbox of the association state, and the key is
/// that of an installation of the inbox that an account address added.
pub open spec fn sender_is_valid(
    welcome: DecryptedWelcome,
    sender_state: crate::associations::state::StateView,
) -> bool {
    &&& valid_utf8(welcome.sender_credential_identity@)
    &&& decode_utf8(welcome.sender_credential_identity@) == sender_state.inbox_id
    &&& owning_address(sender_state, welcome.sender_signature_key@) is Some
}

/// A welcome as it comes from the network and is opened: the number that
/// the server gave it, and what the MLS layer found in it, or nothing where
/// it could not be opened.
#[derive(Debug, PartialEq, Eq)]
pub struct WelcomeEnvelope {
    pub id: u64,
    pub created_ns: u64,
    pub welcome: Option<DecryptedWelcome>,
}

} // verus!
