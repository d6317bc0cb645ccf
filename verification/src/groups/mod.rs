//! Groups: their metadata, their permissions, their membership, and the
//! state machine that commits drive.

pub mod commit;
pub mod config;
pub mod errors;
pub mod extensions;
pub mod group_membership;
pub mod group_metadata;
pub mod group_mutable_metadata;
pub mod group_permissions;
pub mod intents;
pub mod publish;
pub mod state;
pub mod sync;
pub mod welcome;

use vstd::prelude::*;
use crate::client::XmtpMlsLocalContext;
use crate::groups::config::{
    build_group_config, build_mutable_metadata_extension_default,
    build_mutable_permissions_extension, build_protected_metadata_extension,
    build_starting_group_membership_extension, lemma_starting_extensions, required_capabilities,
    starting_extensions,
};
use crate::groups::errors::GroupError;
use crate::groups::extensions::{Extension, ExtensionsView};
use crate::groups::group_metadata::{ConversationType, GroupMetadata, GroupMetadataView};
use crate::groups::group_mutable_metadata::{
    default_metadata, group_name_key, GroupMutableMetadata, GroupMutableMetadataError,
    MetadataField,
};
use crate::groups::group_permissions::{GroupMutablePermissions, PolicySet, PreconfiguredPolicies};
use crate::groups::state::{
    extract_group_metadata, extract_group_mutable_metadata, extract_group_permissions, GroupState,
    GroupStateView,
};
use crate::storage::group::{GroupMembershipState, GroupRow, Purpose, StoredGroup};
use crate::storage::group_message::{DeliveryStatus, GroupMessageKind, StoredGroupMessage};
use crate::storage::identity_update::{latest_sequence_id, lemma_latest_sequence_id_not_negative};
use crate::storage::store::{
    cursors_monotone, group_row, has_group, message_filter, message_views, mls_group_of,
    store_well_formed, StoreView,
};
use crate::util::{clone_bytes, effective_limit, first_matching, text_views};

verus! {

/// The state of a group that the store of a context keeps.
pub open spec fn shared_state(context: XmtpMlsLocalContext, group_id: Seq<u8>) -> Option<
    GroupStateView,
> {
    mls_group_of(context.store@.mls_groups, group_id)
}

/// The mutable metadata of a group that the store of a context keeps.
pub open spec fn shared_metadata(context: XmtpMlsLocalContext, group_id: Seq<u8>) -> Option<
    crate::groups::group_mutable_metadata::MutableMetadataView,
> {
    match shared_state(context, group_id) {
        Some(s) => s.extensions.mutable_metadata,
        None => None,
    }
}

/// The sequence number of the inbox's identity log that the store of a
/// context knows of.
pub open spec fn known_sequence_id(context: XmtpMlsLocalContext) -> u64 {
    latest_sequence_id(context.store@.identity_updates, context.identity.inbox_id@) as u64
}

/// What a group carries when it is created by the identity of a context
/// for a purpose and under a set of rules.
pub open spec fn starting_group_extensions(
    context: XmtpMlsLocalContext,
    purpose: Purpose,
    policies: PolicySet,
) -> ExtensionsView {
    ExtensionsView {
        immutable_metadata: Some(
            GroupMetadataView {
                conversation_type: match purpose {
                    Purpose::Conversation => ConversationType::Group,
                    Purpose::Sync => ConversationType::Sync,
                },
                creator_account_address: context.identity.account_address@,
                creator_inbox_id: context.identity.inbox_id@,
            },
        ),
        mutable_metadata: Some(default_metadata(context.identity.inbox_id@)),
        group_membership: Some(
            Map::<Seq<char>, u64>::empty().insert(
                context.identity.inbox_id@,
                known_sequence_id(context),
            ),
        ),
        member_order: seq![context.identity.inbox_id@],
        mutable_permissions: Some(GroupMutablePermissions { policies }),
        required_capabilities: Some(required_capabilities()),
    }
}

/// The state of a group that was just created.
pub open spec fn starting_group_state(
    context: XmtpMlsLocalContext,
    group_id: Seq<u8>,
    purpose: Purpose,
    policies: PolicySet,
) -> GroupStateView {
    GroupStateView {
        group_id,
        epoch: 0,
        extensions: starting_group_extensions(context, purpose, policies),
        is_active: true,
    }
}

/// The rules that a group is created with: those of the preset given, and
/// of the preset for all members where none is given.
pub open spec fn chosen_policies(permissions: Option<PreconfiguredPolicies>) -> PolicySet {
    match permissions {
        Some(p) => p.policies(),
        None => PreconfiguredPolicies::AllMembers.policies(),
    }
}

/// The store after a group was created in it: the row of the group is
/// added and the state of the group is kept; nothing else changes.
pub open spec fn created_in(
    before: StoreView,
    after: StoreView,
    row: GroupRow,
    state: GroupStateView,
) -> bool {
    &&& after.groups == before.groups.push(row)
    &&& mls_group_of(after.mls_groups, row.id) == Some(state)
    &&& forall|other: Seq<u8>|
        other != row.id ==> #[trigger] mls_group_of(after.mls_groups, other) == mls_group_of(
            before.mls_groups,
            other,
        )
    &&& after.intents == before.intents
    &&& after.next_intent_id == before.next_intent_id
    &&& after.messages == before.messages
    &&& after.cursors == before.cursors
    &&& after.identity_updates == before.identity_updates
}

/// A handle on a group: its id and the time it was created. What the group
/// holds is kept in the store of the client, and every operation takes the
/// client's context.
#[derive(Debug, PartialEq, Eq)]
pub struct MlsGroup {
    pub group_id: Vec<u8>,
    pub created_at_ns: i64,
}

impl Clone for MlsGroup {
    fn clone(&self) -> (copy: Self)
        ensures
            copy.group_id@ == self.group_id@,
            copy.created_at_ns == self.created_at_ns,
    {
        MlsGroup { group_id: crate::util::clone_bytes(&self.group_id), created_at_ns: self.created_at_ns }
    }
}

impl MlsGroup {
    /// A handle on the group with the given id. Whether the store knows the
    /// group is not looked into.
    pub fn new(group_id: Vec<u8>, created_at_ns: i64) -> (g: Self)
        ensures
            g.group_id == group_id,
            g.created_at_ns == created_at_ns,
    {
        MlsGroup { group_id, created_at_ns }
    }

    /// The state of the group that the store keeps.
    pub fn load_mls_group(&self, context: &XmtpMlsLocalContext) -> (r: Result<GroupState, GroupError>)
        ensures
            match r {
                Ok(g) => shared_state(*context, self.group_id@) == Some(g@),
                Err(e) => shared_state(*context, self.group_id@) is None && e
                    == GroupError::GroupNotFound,
            },
    {
        match context.store.load_mls_group(&self.group_id) {
            Some(g) => Ok(g),
            None => Err(GroupError::GroupNotFound),
        }
    }

    /// Creates a group of the given purpose and keeps it in the store. The
    /// id of the group and the time are given by the caller. A group whose id
    /// the store has a row for already is refused, and nothing changes then.
    fn create_with_purpose(
        context: &mut XmtpMlsLocalContext,
        membership_state: GroupMembershipState,
        policies: PolicySet,
        purpose: Purpose,
        group_id: Vec<u8>,
        created_at_ns: i64,
    ) -> (r: Result<Self, GroupError>)
        ensures
            final(context).identity == old(context).identity,
            store_well_formed(final(context).store@),
            cursors_monotone(old(context).store@, final(context).store@),
            match r {
                Ok(g) => {
                    &&& !has_group(old(context).store@.groups, group_id@)
                    &&& g.group_id@ == group_id@
                    &&& g.created_at_ns == created_at_ns
                    &&& created_in(
                        old(context).store@,
                        final(context).store@,
                        GroupRow {
                            id: group_id@,
                            created_at_ns,
                            membership_state,
                            installations_last_checked: 0,
                            purpose,
                            added_by_inbox_id: match purpose {
                                Purpose::Conversation => old(context).identity.inbox_id@,
                                Purpose::Sync => Seq::<char>::empty(),
                            },
                        },
                        starting_group_state(*old(context), group_id@, purpose, policies),
                    )
                },
                Err(e) => {
                    &&& has_group(old(context).store@.groups, group_id@)
                    &&& final(context).store@ == old(context).store@
                    &&& e is Storage
                },
            },
    {
        context.store.check();
        let protected_metadata = build_protected_metadata_extension(&context.identity, purpose);
        let mutable_metadata = build_mutable_metadata_extension_default(&context.identity);
        let latest = context.store.get_latest_sequence_id(context.identity.inbox_id());
        proof {
            lemma_latest_sequence_id_not_negative(
                context.store@.identity_updates,
                context.identity.inbox_id@,
            );
        }
        let group_membership = build_starting_group_membership_extension(
            context.identity.inbox_id().clone(),
            latest as u64,
        );
        let mutable_permissions = build_mutable_permissions_extension(policies);
        proof {
            assert forall|required: Extension| required is RequiredCapabilities implies
                #[trigger] starting_extensions(
                protected_metadata,
                mutable_metadata,
                group_membership,
                mutable_permissions,
                required,
            ) is Some by {
                lemma_starting_extensions(
                    protected_metadata,
                    mutable_metadata,
                    group_membership,
                    mutable_permissions,
                    required,
                );
            }
        }
        let group_config = match build_group_config(
            protected_metadata,
            mutable_metadata,
            group_membership,
            mutable_permissions,
        ) {
            Ok(c) => c,
            Err(e) => {
                proof {
                    let any: crate::groups::extensions::RequiredCapabilitiesExtension = arbitrary();
                    let witness = Extension::RequiredCapabilities(any);
                    assert(starting_extensions(
                        protected_metadata,
                        mutable_metadata,
                        group_membership,
                        mutable_permissions,
                        witness,
                    ) is Some);
                }
                return Err(e);
            },
        };
        proof {
            let required = choose|required: Extension|
                {
                    &&& required matches Extension::RequiredCapabilities(c) && c@
                        == required_capabilities()
                    &&& #[trigger] starting_extensions(
                        protected_metadata,
                        mutable_metadata,
                        group_membership,
                        mutable_permissions,
                        required,
                    ) == Some(group_config.group_context_extensions@)
                };
            lemma_starting_extensions(
                protected_metadata,
                mutable_metadata,
                group_membership,
                mutable_permissions,
                required,
            );
        }
        let state = GroupState::new(clone_bytes(&group_id), group_config.group_context_extensions);
        assert(state@ == starting_group_state(*context, group_id@, purpose, policies));
        let stored_group = match purpose {
            Purpose::Conversation => StoredGroup::new(
                clone_bytes(&group_id),
                created_at_ns,
                membership_state,
                context.identity.inbox_id().clone(),
            ),
            Purpose::Sync => StoredGroup::new_sync_group(
                clone_bytes(&group_id),
                created_at_ns,
                membership_state,
            ),
        };
        match context.store.insert_group(stored_group) {
            Ok(_) => {},
            Err(e) => {
                return Err(GroupError::Storage(e));
            },
        }
        context.store.save_mls_group(state);
        Ok(MlsGroup::new(group_id, created_at_ns))
    }

    /// Creates a conversation group and keeps it in the store: the creator
    /// is its only member, its only admin and its only super admin, its
    /// name and description are the default ones, and its rules are those
    /// of the preset given (all members where none is given). The id of the
    /// group and the time are given by the caller. A group whose id the
    /// store has a row for already is refused, and nothing changes then.
    pub fn create_and_insert(
        context: &mut XmtpMlsLocalContext,
        membership_state: GroupMembershipState,
        permissions: Option<PreconfiguredPolicies>,
        group_id: Vec<u8>,
        created_at_ns: i64,
    ) -> (r: Result<Self, GroupError>)
        ensures
            final(context).identity == old(context).identity,
            store_well_formed(final(context).store@),
            cursors_monotone(old(context).store@, final(context).store@),
            match r {
                Ok(g) => {
                    &&& !has_group(old(context).store@.groups, group_id@)
                    &&& g.group_id@ == group_id@
                    &&& g.created_at_ns == created_at_ns
                    &&& created_in(
                        old(context).store@,
                        final(context).store@,
                        GroupRow {
                            id: group_id@,
                            created_at_ns,
                            membership_state,
                            installations_last_checked: 0,
                            purpose: Purpose::Conversation,
                            added_by_inbox_id: old(context).identity.inbox_id@,
                        },
                        starting_group_state(
                            *old(context),
                            group_id@,
                            Purpose::Conversation,
                            chosen_policies(permissions),
                        ),
                    )
                },
                Err(e) => {
                    &&& has_group(old(context).store@.groups, group_id@)
                    &&& final(context).store@ == old(context).store@
                    &&& e is Storage
                },
            },
    {
        let policies = match permissions {
            Some(p) => p.to_policy_set(),
            None => PreconfiguredPolicies::default().to_policy_set(),
        };
        Self::create_with_purpose(
            context,
            membership_state,
            policies,
            Purpose::Conversation,
            group_id,
            created_at_ns,
        )
    }

    /// Creates the sync group of the installation and keeps it in the store,
    /// allowed from the start, under the rules for all members. A group
    /// whose id the store has a row for already is refused.
    pub fn create_and_insert_sync_group(
        context: &mut XmtpMlsLocalContext,
        group_id: Vec<u8>,
        created_at_ns: i64,
    ) -> (r: Result<Self, GroupError>)
        ensures
            final(context).identity == old(context).identity,
            store_well_formed(final(context).store@),
            cursors_monotone(old(context).store@, final(context).store@),
            match r {
                Ok(g) => {
                    &&& !has_group(old(context).store@.groups, group_id@)
                    &&& g.group_id@ == group_id@
                    &&& g.created_at_ns == created_at_ns
                    &&& created_in(
                        old(context).store@,
                        final(context).store@,
                        GroupRow {
                            id: group_id@,
                            created_at_ns,
                            membership_state: GroupMembershipState::Allowed,
                            installations_last_checked: 0,
                            purpose: Purpose::Sync,
                            added_by_inbox_id: Seq::<char>::empty(),
                        },
                        starting_group_state(
                            *old(context),
                            group_id@,
                            Purpose::Sync,
                            PreconfiguredPolicies::AllMembers.policies(),
                        ),
                    )
                },
                Err(e) => {
                    &&& has_group(old(context).store@.groups, group_id@)
                    &&& final(context).store@ == old(context).store@
                    &&& e is Storage
                },
            },
    {
        Self::create_with_purpose(
            context,
            GroupMembershipState::Allowed,
            PreconfiguredPolicies::default().to_policy_set(),
            Purpose::Sync,
            group_id,
            created_at_ns,
        )
    }

    /// The stored messages of the group that pass the filters, in the order
    /// in which they were stored, and no more of them than the limit
    /// allows.
    pub fn find_messages(
        &self,
        context: &XmtpMlsLocalContext,
        kind: Option<GroupMessageKind>,
        sent_before_ns: Option<i64>,
        sent_after_ns: Option<i64>,
        delivery_status: Option<DeliveryStatus>,
        limit: Option<i64>,
    ) -> (r: Result<Vec<StoredGroupMessage>, GroupError>)
        ensures
            r is Ok,
            message_views(r.unwrap()@) == first_matching(
                context.store@.messages,
                message_filter(
                    self.group_id@,
                    sent_after_ns,
                    sent_before_ns,
                    kind,
                    delivery_status,
                ),
                effective_limit(limit, context.store@.messages.len()),
            ),
    {
        Ok(
            context.store.get_group_messages(
                &self.group_id,
                sent_after_ns,
                sent_before_ns,
                kind,
                delivery_status,
                limit,
            ),
        )
    }

    /// The immutable metadata of the group.
    pub fn metadata(&self, context: &XmtpMlsLocalContext) -> (r: Result<GroupMetadata, GroupError>)
        ensures
            match r {
                Ok(m) => shared_state(*context, self.group_id@) is Some && shared_state(
                    *context,
                    self.group_id@,
                ).unwrap().extensions.immutable_metadata == Some(m@),
                Err(GroupError::GroupNotFound) => shared_state(*context, self.group_id@) is None,
                Err(GroupError::GroupMetadata(_)) => shared_state(*context, self.group_id@) is Some
                    && shared_state(
                    *context,
                    self.group_id@,
                ).unwrap().extensions.immutable_metadata is None,
                Err(_) => false,
            },
    {
        let mls_group = match self.load_mls_group(context) {
            Ok(g) => g,
            Err(e) => {
                return Err(GroupError::GroupNotFound);
            },
        };
        match extract_group_metadata(&mls_group) {
            Ok(m) => Ok(m),
            Err(e) => Err(GroupError::GroupMetadata(e)),
        }
    }

    /// The mutable metadata of the group.
    pub fn mutable_metadata(&self, context: &XmtpMlsLocalContext) -> (r: Result<
        GroupMutableMetadata,
        GroupError,
    >)
        ensures
            match r {
                Ok(m) => shared_state(*context, self.group_id@) is Some && shared_state(
                    *context,
                    self.group_id@,
                ).unwrap().extensions.mutable_metadata == Some(m@),
                Err(GroupError::GroupNotFound) => shared_state(*context, self.group_id@) is None,
                Err(GroupError::GroupMutableMetadata(_)) => shared_state(*context, self.group_id@)
                    is Some && shared_state(
                    *context,
                    self.group_id@,
                ).unwrap().extensions.mutable_metadata is None,
                Err(_) => false,
            },
    {
        let mls_group = match self.load_mls_group(context) {
            Ok(g) => g,
            Err(e) => {
                return Err(GroupError::GroupNotFound);
            },
        };
        match extract_group_mutable_metadata(&mls_group) {
            Ok(m) => Ok(m),
            Err(e) => Err(GroupError::GroupMutableMetadata(e)),
        }
    }

    /// The rules of the group.
    pub fn permissions(&self, context: &XmtpMlsLocalContext) -> (r: Result<
        GroupMutablePermissions,
        GroupError,
    >)
        ensures
            match r {
                Ok(p) => shared_state(*context, self.group_id@) is Some && shared_state(
                    *context,
                    self.group_id@,
                ).unwrap().extensions.mutable_permissions == Some(p),
                Err(GroupError::GroupNotFound) => shared_state(*context, self.group_id@) is None,
                Err(GroupError::GroupMutablePermissions(_)) => shared_state(
                    *context,
                    self.group_id@,
                ) is Some && shared_state(
                    *context,
                    self.group_id@,
                ).unwrap().extensions.mutable_permissions is None,
                Err(_) => false,
            },
    {
        let mls_group = match self.load_mls_group(context) {
            Ok(g) => g,
            Err(e) => {
                return Err(GroupError::GroupNotFound);
            },
        };
        match extract_group_permissions(&mls_group) {
            Ok(p) => Ok(p),
            Err(e) => Err(GroupError::GroupMutablePermissions(e)),
        }
    }

    /// The name of the group. A group whose metadata hold no name is
    /// reported as lacking the extension.
    pub fn group_name(&self, context: &XmtpMlsLocalContext) -> (r: Result<String, GroupError>)
        ensures
            match r {
                Ok(name) => {
                    &&& shared_metadata(*context, self.group_id@) is Some
                    &&& shared_metadata(*context, self.group_id@).unwrap().attributes.contains_key(
                        group_name_key(),
                    )
                    &&& shared_metadata(
                        *context,
                        self.group_id@,
                    ).unwrap().attributes[group_name_key()] == name@
                },
                Err(GroupError::GroupNotFound) => shared_state(*context, self.group_id@) is None,
                Err(GroupError::GroupMutableMetadata(_)) => {
                    &&& shared_state(*context, self.group_id@) is Some
                    &&& match shared_state(
                        *context,
                        self.group_id@,
                    ).unwrap().extensions.mutable_metadata {
                        Some(m) => !m.attributes.contains_key(group_name_key()),
                        None => true,
                    }
                },
                Err(_) => false,
            },
    {
        let mutable_metadata = match self.mutable_metadata(context) {
            Ok(m) => m,
            Err(e) => {
                return Err(e);
            },
        };
        match mutable_metadata.attributes.get(&MetadataField::GroupName.to_string()) {
            Some(group_name) => Ok(group_name.clone()),
            None => Err(
                GroupError::GroupMutableMetadata(GroupMutableMetadataError::MissingExtension),
            ),
        }
    }

    /// The admins of the group.
    pub fn admin_list(&self, context: &XmtpMlsLocalContext) -> (r: Result<Vec<String>, GroupError>)
        ensures
            match r {
                Ok(list) => shared_metadata(*context, self.group_id@) is Some && shared_metadata(
                    *context,
                    self.group_id@,
                ).unwrap().admin_list == text_views(list@),
                Err(GroupError::GroupNotFound) => shared_state(*context, self.group_id@) is None,
                Err(GroupError::GroupMutableMetadata(_)) => shared_state(*context, self.group_id@)
                    is Some && shared_state(
                    *context,
                    self.group_id@,
                ).unwrap().extensions.mutable_metadata is None,
                Err(_) => false,
            },
    {
        match self.mutable_metadata(context) {
            Ok(m) => Ok(m.admin_list),
            Err(e) => Err(e),
        }
    }

    /// The super admins of the group.
    pub fn super_admin_list(&self, context: &XmtpMlsLocalContext) -> (r: Result<
        Vec<String>,
        GroupError,
    >)
        ensures
            match r {
                Ok(list) => shared_metadata(*context, self.group_id@) is Some && shared_metadata(
                    *context,
                    self.group_id@,
                ).unwrap().super_admin_list == text_views(list@),
                Err(GroupError::GroupNotFound) => shared_state(*context, self.group_id@) is None,
                Err(GroupError::GroupMutableMetadata(_)) => shared_state(*context, self.group_id@)
                    is Some && shared_state(
                    *context,
                    self.group_id@,
                ).unwrap().extensions.mutable_metadata is None,
                Err(_) => false,
            },
    {
        match self.mutable_metadata(context) {
            Ok(m) => Ok(m.super_admin_list),
            Err(e) => Err(e),
        }
    }

    /// The inbox of the member who added this installation to the group, as
    /// the row of the group has it.
    pub fn added_by_address(&self, context: &XmtpMlsLocalContext) -> (r: Result<String, GroupError>)
        ensures
            match r {
                Ok(inbox_id) => has_group(context.store@.groups, self.group_id@) && inbox_id@
                    == group_row(context.store@.groups, self.group_id@).added_by_inbox_id,
                Err(e) => !has_group(context.store@.groups, self.group_id@) && e
                    == GroupError::GroupNotFound,
            },
    {
        match context.store.find_group(&self.group_id) {
            Some(group) => Ok(group.added_by_inbox_id),
            None => Err(GroupError::GroupNotFound),
        }
    }

    /// Whether this installation is still a member of the group.
    pub fn is_active(&self, context: &XmtpMlsLocalContext) -> (r: Result<bool, GroupError>)
        ensures
            match r {
                Ok(active) => shared_state(*context, self.group_id@) is Some && active
                    == shared_state(*context, self.group_id@).unwrap().is_active,
                Err(e) => shared_state(*context, self.group_id@) is None && e
                    == GroupError::GroupNotFound,
            },
    {
        match self.load_mls_group(context) {
            Ok(g) => Ok(g.is_active),
            Err(e) => Err(GroupError::GroupNotFound),
        }
    }
}

} // verus!
