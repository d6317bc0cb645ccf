//! Commits: what they ask for, who may ask for it, and what they do to the
//! state that the members of a group share.

use vstd::prelude::*;
use crate::groups::errors::CommitValidationError;
use crate::groups::extensions::{Extensions, ExtensionsView};
use crate::groups::group_membership::GroupMembership;
use crate::groups::group_mutable_metadata::{
    after_admin_list_update, GroupMutableMetadata, MutableMetadataView,
};
use crate::groups::group_permissions::{Mutation, Role};
use crate::groups::intents::AdminListActionType;
use crate::text_map::without_text;
use crate::util::text_views;

verus! {

/// What a commit does to a group.
#[derive(Debug, PartialEq, Eq)]
pub enum CommitContent {
    /// Takes inboxes into the group.
    AddMembers { inbox_ids: Vec<String> },
    /// Puts inboxes out of the group.
    RemoveMembers { inbox_ids: Vec<String> },
    /// Sets an attribute of the mutable metadata.
    UpdateMetadata { field_name: String, field_value: String },
    /// Changes the lists of admins.
    UpdateAdminList { action_type: AdminListActionType, inbox_id: String },
    /// Takes further installations of inboxes of the group into it.
    AddInstallations { installation_ids: Vec<Vec<u8>> },
    /// Puts installations out of the group; their inboxes stay.
    RemoveInstallations { installation_ids: Vec<Vec<u8>> },
    /// Renews the key of the sender's leaf and changes nothing else.
    KeyUpdate,
}

/// The mathematical value of what a commit does.
pub enum CommitView {
    AddInstallations { installation_ids: Seq<Seq<u8>> },
    RemoveInstallations { installation_ids: Seq<Seq<u8>> },
    AddMembers { inbox_ids: Seq<Seq<char>> },
    RemoveMembers { inbox_ids: Seq<Seq<char>> },
    UpdateMetadata { field_name: Seq<char>, field_value: Seq<char> },
    UpdateAdminList { action_type: AdminListActionType, inbox_id: Seq<char> },
    KeyUpdate,
}

impl View for CommitContent {
    type V = CommitView;

    open spec fn view(&self) -> CommitView {
        match self {
            CommitContent::AddMembers { inbox_ids } => CommitView::AddMembers {
                inbox_ids: text_views(inbox_ids@),
            },
            CommitContent::RemoveMembers { inbox_ids } => CommitView::RemoveMembers {
                inbox_ids: text_views(inbox_ids@),
            },
            CommitContent::UpdateMetadata { field_name, field_value } => CommitView::UpdateMetadata {
                field_name: field_name@,
                field_value: field_value@,
            },
            CommitContent::UpdateAdminList { action_type, inbox_id } => CommitView::UpdateAdminList {
                action_type: *action_type,
                inbox_id: inbox_id@,
            },
            CommitContent::AddInstallations { installation_ids } => CommitView::AddInstallations {
                installation_ids: crate::util::bytes_views(installation_ids@),
            },
            CommitContent::RemoveInstallations { installation_ids } => CommitView::RemoveInstallations {
                installation_ids: crate::util::bytes_views(installation_ids@),
            },
            CommitContent::KeyUpdate => CommitView::KeyUpdate,
        }
    }
}

impl CommitView {
    /// The sort of change that the rules of a group speak of, where the
    /// commit is one. A key update is open to every member.
    pub open spec fn mutation(self) -> Option<Mutation> {
        match self {
            CommitView::AddMembers { .. } => Some(Mutation::AddMember),
            CommitView::RemoveMembers { .. } => Some(Mutation::RemoveMember),
            CommitView::UpdateMetadata { .. } => Some(Mutation::UpdateMetadata),
            CommitView::UpdateAdminList { action_type, .. } => Some(
                match action_type {
                    AdminListActionType::AddAdmin => Mutation::AddAdmin,
                    AdminListActionType::RemoveAdmin => Mutation::RemoveAdmin,
                    AdminListActionType::AddSuperAdmin => Mutation::AddSuperAdmin,
                    AdminListActionType::RemoveSuperAdmin => Mutation::RemoveSuperAdmin,
                },
            ),
            CommitView::AddInstallations { .. } => Some(Mutation::AddMember),
            CommitView::RemoveInstallations { .. } => Some(Mutation::RemoveMember),
            CommitView::KeyUpdate => None,
        }
    }
}

/// The membership of a group, as a map and as the order in which the
/// inboxes came.
pub struct MembershipView {
    pub members: Map<Seq<char>, u64>,
    pub order: Seq<Seq<char>>,
}

/// The membership with one inbox more. An inbox that is in already stays as
/// it is; a new one comes last, with no sequence number noted yet.
pub open spec fn with_member(m: MembershipView, inbox_id: Seq<char>) -> MembershipView {
    if m.members.contains_key(inbox_id) {
        m
    } else {
        MembershipView { members: m.members.insert(inbox_id, 0), order: m.order.push(inbox_id) }
    }
}

/// The membership without one inbox.
pub open spec fn without_member(m: MembershipView, inbox_id: Seq<char>) -> MembershipView {
    MembershipView { members: m.members.remove(inbox_id), order: without_text(m.order, inbox_id) }
}

/// The membership with all inboxes of a list, taken in one after the other.
pub open spec fn with_members(m: MembershipView, inbox_ids: Seq<Seq<char>>) -> MembershipView
    decreases inbox_ids.len(),
{
    if inbox_ids.len() == 0 {
        m
    } else {
        with_member(with_members(m, inbox_ids.drop_last()), inbox_ids.last())
    }
}

/// The membership without the inboxes of a list.
pub open spec fn without_members(m: MembershipView, inbox_ids: Seq<Seq<char>>) -> MembershipView
    decreases inbox_ids.len(),
{
    if inbox_ids.len() == 0 {
        m
    } else {
        without_member(without_members(m, inbox_ids.drop_last()), inbox_ids.last())
    }
}

/// The standing of an inbox in a group: super admin before admin before
/// member, and nothing for an inbox that is not in the group.
pub open spec fn role_of(
    metadata: MutableMetadataView,
    members: Map<Seq<char>, u64>,
    inbox_id: Seq<char>,
) -> Option<Role> {
    if !members.contains_key(inbox_id) {
        None
    } else if metadata.super_admin_list.contains(inbox_id) {
        Some(Role::SuperAdmin)
    } else if metadata.admin_list.contains(inbox_id) {
        Some(Role::Admin)
    } else {
        Some(Role::Member)
    }
}

/// Whether every inbox of the list is the given one.
pub open spec fn only_inbox(inbox_ids: Seq<Seq<char>>, inbox_id: Seq<char>) -> bool {
    forall|i: int| 0 <= i < inbox_ids.len() ==> #[trigger] inbox_ids[i] == inbox_id
}

/// Whether a commit would take an inbox into a sync group that is not the
/// inbox of its creator: a sync group is for the installations of one user.
pub open spec fn opens_sync_group(extensions: ExtensionsView, commit: CommitView) -> bool {
    match (extensions.immutable_metadata, commit) {
        (Some(metadata), CommitView::AddMembers { inbox_ids }) => metadata.conversation_type
            == crate::groups::group_metadata::ConversationType::Sync && !only_inbox(
            inbox_ids,
            metadata.creator_inbox_id,
        ),
        _ => false,
    }
}

/// What a group carries after a commit by `actor`, or the reason for which
/// the commit is not accepted. The group has to carry its metadata, its
/// membership and its rules; the actor has to be in the group; the rules
/// have to let a member of the actor's standing make the change; and a
/// sync group takes in no inbox but that of its creator.
/// Installations that come or go leave what the group carries as it is:
/// the membership is kept by inbox.
pub open spec fn apply_commit(
    extensions: ExtensionsView,
    actor: Seq<char>,
    commit: CommitView,
) -> Result<ExtensionsView, CommitValidationError> {
    if extensions.mutable_metadata is None || extensions.group_membership is None
        || extensions.mutable_permissions is None {
        Err(CommitValidationError::MissingExtension)
    } else {
        let metadata = extensions.mutable_metadata.unwrap();
        let members = extensions.group_membership.unwrap();
        let policies = extensions.mutable_permissions.unwrap().policies;
        match role_of(metadata, members, actor) {
            None => Err(CommitValidationError::ActorNotMember),
            Some(role) => if commit.mutation() is Some && !policies.permits(
                commit.mutation().unwrap(),
                role,
            ) {
                Err(CommitValidationError::InsufficientPermissions)
            } else if opens_sync_group(extensions, commit) {
                Err(CommitValidationError::InsufficientPermissions)
            } else {
                let membership = MembershipView { members, order: extensions.member_order };
                Ok(
                    match commit {
                        CommitView::AddMembers { inbox_ids } => {
                            let after = with_members(membership, inbox_ids);
                            ExtensionsView {
                                group_membership: Some(after.members),
                                member_order: after.order,
                                ..extensions
                            }
                        },
                        CommitView::RemoveMembers { inbox_ids } => {
                            let after = without_members(membership, inbox_ids);
                            ExtensionsView {
                                group_membership: Some(after.members),
                                member_order: after.order,
                                ..extensions
                            }
                        },
                        CommitView::UpdateMetadata { field_name, field_value } => ExtensionsView {
                            mutable_metadata: Some(
                                MutableMetadataView {
                                    attributes: metadata.attributes.insert(field_name, field_value),
                                    ..metadata
                                },
                            ),
                            ..extensions
                        },
                        CommitView::UpdateAdminList { action_type, inbox_id } => ExtensionsView {
                            mutable_metadata: Some(
                                after_admin_list_update(metadata, action_type, inbox_id),
                            ),
                            ..extensions
                        },
                        CommitView::AddInstallations { .. } => extensions,
                        CommitView::RemoveInstallations { .. } => extensions,
                        CommitView::KeyUpdate => extensions,
                    },
                )
            },
        }
    }
}

/// The view of a membership as a map with its order.
pub open spec fn membership_view(m: GroupMembership) -> MembershipView {
    MembershipView { members: m@, order: m.inbox_ids() }
}

/// The membership with all inboxes of the list.
pub fn add_all_members(membership: GroupMembership, inbox_ids: &Vec<String>) -> (after:
    GroupMembership)
    ensures
        membership_view(after) == with_members(membership_view(membership), text_views(inbox_ids@)),
{
    let ghost start = membership_view(membership);
    let ghost all = text_views(inbox_ids@);
    let mut current = membership;
    let mut i: usize = 0;
    assert(all.subrange(0, 0) =~= Seq::<Seq<char>>::empty());
    while i < inbox_ids.len()
        invariant
            all == text_views(inbox_ids@),
            0 <= i <= inbox_ids@.len(),
            membership_view(current) == with_members(start, all.subrange(0, i as int)),
        decreases inbox_ids@.len() - i,
    {
        proof {
            assert(all.subrange(0, i + 1).drop_last() =~= all.subrange(0, i as int));
            assert(all.subrange(0, i + 1).last() == inbox_ids@[i as int]@);
        }
        if !current.contains(&inbox_ids[i]) {
            current = current.add(inbox_ids[i].clone(), 0);
        }
        i += 1;
    }
    assert(all.subrange(0, i as int) =~= all);
    current
}

/// The membership without the inboxes of the list.
pub fn remove_all_members(membership: GroupMembership, inbox_ids: &Vec<String>) -> (after:
    GroupMembership)
    ensures
        membership_view(after) == without_members(
            membership_view(membership),
            text_views(inbox_ids@),
        ),
{
    let ghost start = membership_view(membership);
    let ghost all = text_views(inbox_ids@);
    let mut current = membership;
    let mut i: usize = 0;
    assert(all.subrange(0, 0) =~= Seq::<Seq<char>>::empty());
    while i < inbox_ids.len()
        invariant
            all == text_views(inbox_ids@),
            0 <= i <= inbox_ids@.len(),
            membership_view(current) == without_members(start, all.subrange(0, i as int)),
        decreases inbox_ids@.len() - i,
    {
        proof {
            assert(all.subrange(0, i + 1).drop_last() =~= all.subrange(0, i as int));
            assert(all.subrange(0, i + 1).last() == inbox_ids@[i as int]@);
        }
        current = current.remove(&inbox_ids[i]);
        i += 1;
    }
    assert(all.subrange(0, i as int) =~= all);
    current
}

/// The standing of an inbox in a group.
pub fn role_in(
    metadata: &GroupMutableMetadata,
    membership: &GroupMembership,
    inbox_id: &String,
) -> (role: Option<Role>)
    ensures
        role == role_of(metadata@, membership@, inbox_id@),
{
    if !membership.contains(inbox_id) {
        None
    } else if metadata.is_super_admin(inbox_id) {
        Some(Role::SuperAdmin)
    } else if metadata.is_admin(inbox_id) {
        Some(Role::Admin)
    } else {
        Some(Role::Member)
    }
}

impl CommitContent {
    /// The sort of change that the rules of a group speak of, where the
    /// commit is one.
    pub fn mutation(&self) -> (m: Option<Mutation>)
        ensures
            m == self@.mutation(),
    {
        match self {
            CommitContent::AddMembers { .. } => Some(Mutation::AddMember),
            CommitContent::RemoveMembers { .. } => Some(Mutation::RemoveMember),
            CommitContent::UpdateMetadata { .. } => Some(Mutation::UpdateMetadata),
            CommitContent::UpdateAdminList { action_type, .. } => Some(
                match action_type {
                    AdminListActionType::AddAdmin => Mutation::AddAdmin,
                    AdminListActionType::RemoveAdmin => Mutation::RemoveAdmin,
                    AdminListActionType::AddSuperAdmin => Mutation::AddSuperAdmin,
                    AdminListActionType::RemoveSuperAdmin => Mutation::RemoveSuperAdmin,
                },
            ),
            CommitContent::AddInstallations { .. } => Some(Mutation::AddMember),
            CommitContent::RemoveInstallations { .. } => Some(Mutation::RemoveMember),
            CommitContent::KeyUpdate => None,
        }
    }
}

/// Whether a commit would take an inbox into a sync group that is not the
/// inbox of its creator.
fn would_open_sync_group(extensions: &Extensions, commit: &CommitContent) -> (opens: bool)
    ensures
        opens == opens_sync_group(extensions@, commit@),
{
    let metadata = match &extensions.immutable_metadata {
        Some(m) => m,
        None => {
            return false;
        },
    };
    let inbox_ids = match commit {
        CommitContent::AddMembers { inbox_ids } => inbox_ids,
        _ => {
            return false;
        },
    };
    match metadata.conversation_type {
        crate::groups::group_metadata::ConversationType::Sync => {},
        _ => {
            return false;
        },
    }
    let ghost ids = text_views(inbox_ids@);
    let mut i: usize = 0;
    while i < inbox_ids.len()
        invariant
            ids == text_views(inbox_ids@),
            extensions@.immutable_metadata == Some(metadata@),
            metadata.conversation_type == crate::groups::group_metadata::ConversationType::Sync,
            commit@ == (CommitView::AddMembers { inbox_ids: ids }),
            0 <= i <= inbox_ids@.len(),
            forall|k: int| 0 <= k < i ==> #[trigger] ids[k] == metadata.creator_inbox_id@,
        decreases inbox_ids@.len() - i,
    {
        assert(ids[i as int] == inbox_ids@[i as int]@);
        if !crate::util::text_eq(&inbox_ids[i], &metadata.creator_inbox_id) {
            assert(ids[i as int] != metadata.creator_inbox_id@);
            assert(!only_inbox(ids, metadata.creator_inbox_id@));
            return true;
        }
        i += 1;
    }
    assert(only_inbox(ids, metadata.creator_inbox_id@));
    false
}

/// What a group carries after a commit by `actor`, or the reason for which
/// the commit is not accepted.
pub fn validate_and_apply(extensions: &Extensions, actor: &String, commit: &CommitContent) -> (r:
    Result<Extensions, CommitValidationError>)
    ensures
        match r {
            Ok(after) => apply_commit(extensions@, actor@, commit@) == Ok::<
                ExtensionsView,
                CommitValidationError,
            >(after@),
            Err(e) => apply_commit(extensions@, actor@, commit@) == Err::<
                ExtensionsView,
                CommitValidationError,
            >(e),
        },
{
    let metadata = match &extensions.mutable_metadata {
        Some(m) => m,
        None => {
            return Err(CommitValidationError::MissingExtension);
        },
    };
    let membership = match &extensions.group_membership {
        Some(m) => m,
        None => {
            return Err(CommitValidationError::MissingExtension);
        },
    };
    let permissions = match &extensions.mutable_permissions {
        Some(p) => p,
        None => {
            return Err(CommitValidationError::MissingExtension);
        },
    };
    let role = match role_in(metadata, membership, actor) {
        Some(r) => r,
        None => {
            return Err(CommitValidationError::ActorNotMember);
        },
    };
    match commit.mutation() {
        Some(m) => {
            if !permissions.policies.evaluate(m, role) {
                return Err(CommitValidationError::InsufficientPermissions);
            }
        },
        None => {},
    }
    if would_open_sync_group(extensions, commit) {
        return Err(CommitValidationError::InsufficientPermissions);
    }
    let mut after = extensions.clone();
    match commit {
        CommitContent::AddMembers { inbox_ids } => {
            let grown = add_all_members(membership.clone(), inbox_ids);
            after.group_membership = Some(grown);
        },
        CommitContent::RemoveMembers { inbox_ids } => {
            let shrunk = remove_all_members(membership.clone(), inbox_ids);
            after.group_membership = Some(shrunk);
        },
        CommitContent::UpdateMetadata { field_name, field_value } => {
            let changed = metadata.clone().with_attribute(field_name.clone(), field_value.clone());
            after.mutable_metadata = Some(changed);
        },
        CommitContent::UpdateAdminList { action_type, inbox_id } => {
            let changed = metadata.clone().with_admin_list_update(*action_type, inbox_id.clone());
            after.mutable_metadata = Some(changed);
        },
        CommitContent::AddInstallations { .. } => {},
        CommitContent::RemoveInstallations { .. } => {},
        CommitContent::KeyUpdate => {},
    }
    Ok(after)
}

} // verus!
