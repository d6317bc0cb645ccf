//! What can go wrong with a group, and which of those faults are worth
//! another attempt.

use vstd::prelude::*;
use crate::groups::extensions::InvalidExtensionError;
use crate::groups::group_mutable_metadata::GroupMutableMetadataError;
use crate::groups::group_permissions::GroupMutablePermissionsError;
use crate::identity::IdentityError;
use crate::storage::errors::{
    AddMembersError, NewGroupError, RemoveMembersError, SelfUpdateError, StorageError, WelcomeError,
};

verus! {

/// Why the immutable metadata of a group could not be had.
#[derive(Clone, Copy, Debug, PartialEq, Eq, Structural)]
pub enum GroupMetadataError {
    /// The group carries no immutable metadata.
    MissingExtension,
}

/// Why a commit was not accepted.
#[derive(Clone, Copy, Debug, PartialEq, Eq, Structural)]
pub enum CommitValidationError {
    /// The one who made the commit is not in the group.
    ActorNotMember,
    /// The rules of the group do not let the actor make this change.
    InsufficientPermissions,
    /// The commit would leave the group without what it has to carry.
    MissingExtension,
}

/// Why a message from the network was not taken up.
#[derive(Debug, PartialEq, Eq)]
pub enum MessageProcessingError {
    /// The envelope is not past the cursor of its stream.
    AlreadyProcessed(u64),
    /// The sender is not who the credential says.
    InvalidSender { message_time_ns: u64, credential: Vec<u8> },
    /// The envelope does not hold what it should.
    InvalidPayload,
    Identity(IdentityError),
    /// An own commit was observed and nothing was staged for it.
    NoPendingCommit { message_epoch: u64, group_epoch: u64 },
    Storage(StorageError),
    /// The message is of a kind that is not handled.
    UnsupportedMessageType,
    CommitValidation(CommitValidationError),
    /// The message is of another epoch than the group can take.
    EpochIncrementNotAllowed,
    /// The message is of an epoch that the group has not come near yet: the
    /// commits in between have to be taken in first.
    FutureEpoch { message_epoch: u64, group_epoch: u64 },
    WelcomeProcessing(String),
    WrongCredentialType,
    Generic(String),
}

impl MessageProcessingError {
    /// Whether another attempt may succeed: only where the store says so.
    pub open spec fn retryable(&self) -> bool {
        match self {
            MessageProcessingError::Storage(s) => s.retryable(),
            _ => false,
        }
    }

    /// Whether another attempt may succeed.
    pub fn is_retryable(&self) -> (r: bool)
        ensures
            r == self.retryable(),
    {
        match self {
            MessageProcessingError::Storage(s) => s.is_retryable(),
            _ => false,
        }
    }
}

/// Why an operation on a group failed.
#[derive(Debug, PartialEq, Eq)]
pub enum GroupError {
    GroupNotFound,
    /// The group would grow past its limit.
    UserLimitExceeded,
    Storage(StorageError),
    AddMembers(AddMembersError),
    RemoveMembers(RemoveMembersError),
    GroupCreate(NewGroupError),
    SelfUpdate(SelfUpdateError),
    WelcomeError(WelcomeError),
    InvalidExtension(InvalidExtensionError),
    ReceiveError(MessageProcessingError),
    ReceiveErrors(Vec<MessageProcessingError>),
    Generic(String),
    /// Some of the keys are not keys of installations.
    InvalidPublicKeys(Vec<Vec<u8>>),
    CommitValidation(CommitValidationError),
    GroupMetadata(GroupMetadataError),
    GroupMutableMetadata(GroupMutableMetadataError),
    GroupMutablePermissions(GroupMutablePermissionsError),
    Sync(Vec<GroupError>),
    Identity(IdentityError),
    /// The payload of an intent cannot be read.
    Intent(crate::groups::intents::IntentError),
    /// The intent failed for good.
    IntentFailed,
    /// The intent was not settled within the rounds allowed.
    SyncRoundsExhausted,
}

impl GroupError {
    /// Whether another attempt may succeed: as the fault beneath says, for
    /// faults of the store, of receiving and of the group operations;
    /// nothing else passes.
    pub open spec fn retryable(&self) -> bool {
        match self {
            GroupError::Storage(storage) => storage.retryable(),
            GroupError::ReceiveError(msg) => msg.retryable(),
            GroupError::AddMembers(members) => members.retryable(),
            GroupError::RemoveMembers(members) => members.retryable(),
            GroupError::GroupCreate(group) => group.retryable(),
            GroupError::SelfUpdate(update) => update.retryable(),
            GroupError::WelcomeError(welcome) => welcome.retryable(),
            _ => false,
        }
    }

    /// Whether another attempt may succeed.
    pub fn is_retryable(&self) -> (r: bool)
        ensures
            r == self.retryable(),
    {
        match self {
            GroupError::Storage(storage) => storage.is_retryable(),
            GroupError::ReceiveError(msg) => msg.is_retryable(),
            GroupError::AddMembers(members) => members.is_retryable(),
            GroupError::RemoveMembers(members) => members.is_retryable(),
            GroupError::GroupCreate(group) => group.is_retryable(),
            GroupError::SelfUpdate(update) => update.is_retryable(),
            GroupError::WelcomeError(welcome) => welcome.is_retryable(),
            _ => false,
        }
    }
}

} // verus!
