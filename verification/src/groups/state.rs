//! The state of a group that every member shares: its epoch and what its
//! context carries.

use vstd::prelude::*;
use crate::groups::errors::GroupMetadataError;
use crate::groups::extensions::{Extensions, ExtensionsView};
use crate::groups::group_membership::GroupMembership;
use crate::groups::group_metadata::GroupMetadata;
use crate::groups::group_mutable_metadata::{GroupMutableMetadata, GroupMutableMetadataError};
use crate::groups::group_permissions::{GroupMutablePermissions, GroupMutablePermissionsError};
use crate::util::clone_bytes;

verus! {

/// A group as the MLS layer holds it.
#[derive(Debug, PartialEq, Eq)]
pub struct GroupState {
    pub group_id: Vec<u8>,
    pub epoch: u64,
    pub extensions: Extensions,
    pub is_active: bool,
}

/// The mathematical value of a group's state.
pub struct GroupStateView {
    pub group_id: Seq<u8>,
    pub epoch: u64,
    pub extensions: ExtensionsView,
    pub is_active: bool,
}

impl View for GroupState {
    type V = GroupStateView;

    open spec fn view(&self) -> GroupStateView {
        GroupStateView {
            group_id: self.group_id@,
            epoch: self.epoch,
            extensions: self.extensions@,
            is_active: self.is_active,
        }
    }
}

impl Clone for GroupState {
    fn clone(&self) -> (copy: Self)
        ensures
            copy@ == self@,
    {
        GroupState {
            group_id: clone_bytes(&self.group_id),
            epoch: self.epoch,
            extensions: self.extensions.clone(),
            is_active: self.is_active,
        }
    }
}

impl GroupState {
    /// A group in its first epoch, with the creator active in it.
    pub fn new(group_id: Vec<u8>, extensions: Extensions) -> (g: GroupState)
        ensures
            g@ == (GroupStateView {
                group_id: group_id@,
                epoch: 0,
                extensions: extensions@,
                is_active: true,
            }),
    {
        GroupState { group_id, epoch: 0, extensions, is_active: true }
    }

    /// What the group carries.
    pub fn extensions(&self) -> (e: &Extensions)
        ensures
            e@ == self@.extensions,
    {
        &self.extensions
    }
}

/// The immutable metadata that a group carries.
pub fn extract_group_metadata(group: &GroupState) -> (r: Result<GroupMetadata, GroupMetadataError>)
    ensures
        match r {
            Ok(m) => group@.extensions.immutable_metadata == Some(m@),
            Err(_) => group@.extensions.immutable_metadata is None,
        },
{
    match &group.extensions.immutable_metadata {
        Some(m) => Ok(m.clone()),
        None => Err(GroupMetadataError::MissingExtension),
    }
}

/// The mutable metadata that a group carries.
pub fn extract_group_mutable_metadata(group: &GroupState) -> (r: Result<
    GroupMutableMetadata,
    GroupMutableMetadataError,
>)
    ensures
        match r {
            Ok(m) => group@.extensions.mutable_metadata == Some(m@),
            Err(_) => group@.extensions.mutable_metadata is None,
        },
{
    match &group.extensions.mutable_metadata {
        Some(m) => Ok(m.clone()),
        None => Err(GroupMutableMetadataError::MissingExtension),
    }
}

/// The permissions that a group carries.
pub fn extract_group_permissions(group: &GroupState) -> (r: Result<
    GroupMutablePermissions,
    GroupMutablePermissionsError,
>)
    ensures
        match r {
            Ok(p) => group@.extensions.mutable_permissions == Some(p),
            Err(_) => group@.extensions.mutable_permissions is None,
        },
{
    match group.extensions.mutable_permissions {
        Some(p) => Ok(p),
        None => Err(GroupMutablePermissionsError::MissingExtension),
    }
}

/// The membership that a group carries.
pub fn extract_group_membership(group: &GroupState) -> (r: Option<GroupMembership>)
    ensures
        match r {
            Some(m) => group@.extensions.group_membership == Some(m@) && m.inbox_ids()
                == group@.extensions.member_order,
            None => group@.extensions.group_membership is None,
        },
{
    match &group.extensions.group_membership {
        Some(m) => Some(m.clone()),
        None => None,
    }
}

} // verus!
