//! The identity of an installation: its key, the inbox it belongs to, and
//! the check of a credential against an association state.

use vstd::prelude::*;
use vstd::utf8::{decode_utf8, valid_utf8};
use crate::associations::member::{MemberId, MemberIdentifier};
use crate::associations::state::AssociationState;
use crate::codec::text_of_bytes;
use crate::groups::group_metadata::{ConversationType, GroupMetadata};
use crate::storage::group::Purpose;
use crate::util::{clone_bytes, text_eq};

verus! {

/// Why an identity or a credential could not be used.
#[derive(Debug, PartialEq, Eq)]
pub enum IdentityError {
    /// The credential's identity is not a text.
    InvalidCredential,
    /// The credential names another inbox than the association state is of.
    InboxIdMismatch,
    /// The installation is not a member of the inbox named.
    InstallationIdNotFound(String),
    /// The installation was not added by an account address.
    NoOwningAddress,
}

/// A prompt for the wallet signatures that an unpublished inbox still needs.
#[derive(Debug, PartialEq, Eq)]
pub struct SignatureRequest {
    pub inbox_id: String,
    pub client_timestamp_ns: u64,
    pub signature_text: String,
}

impl Clone for SignatureRequest {
    fn clone(&self) -> (copy: Self)
        ensures
            copy.inbox_id@ == self.inbox_id@,
            copy.client_timestamp_ns == self.client_timestamp_ns,
            copy.signature_text@ == self.signature_text@,
    {
        SignatureRequest {
            inbox_id: self.inbox_id.clone(),
            client_timestamp_ns: self.client_timestamp_ns,
            signature_text: self.signature_text.clone(),
        }
    }
}

/// The identity of an installation.
#[derive(Debug, PartialEq, Eq)]
pub struct Identity {
    pub inbox_id: String,
    pub account_address: String,
    pub installation_public_key: Vec<u8>,
    pub signature_request: Option<SignatureRequest>,
}

/// The inbox that a credential names: its identity bytes read as a text.
pub fn parse_credential(credential_identity: &Vec<u8>) -> (inbox_id: Result<String, IdentityError>)
    ensures
        match inbox_id {
            Ok(id) => valid_utf8(credential_identity@) && id@ == decode_utf8(credential_identity@),
            Err(e) => !valid_utf8(credential_identity@) && e == IdentityError::InvalidCredential,
        },
{
    match text_of_bytes(clone_bytes(credential_identity)) {
        Some(id) => Ok(id),
        None => Err(IdentityError::InvalidCredential),
    }
}

/// The account address that owns an installation in an association state:
/// the address that added it.
pub open spec fn owning_address(
    state: crate::associations::state::StateView,
    installation_key: Seq<u8>,
) -> Option<Seq<char>> {
    let id = MemberId::Installation(installation_key);
    if state.members.contains_key(id) {
        match state.members[id].added_by_entity {
            Some(MemberId::Address(a)) => Some(a),
            _ => None,
        }
    } else {
        None
    }
}

impl Identity {
    /// An identity from its parts.
    pub fn new(
        inbox_id: String,
        account_address: String,
        installation_public_key: Vec<u8>,
        signature_request: Option<SignatureRequest>,
    ) -> (i: Identity)
        ensures
            i.inbox_id == inbox_id,
            i.account_address == account_address,
            i.installation_public_key == installation_public_key,
            i.signature_request == signature_request,
    {
        Identity { inbox_id, account_address, installation_public_key, signature_request }
    }

    /// The inbox that the installation belongs to.
    pub fn inbox_id(&self) -> (id: &String)
        ensures
            id@ == self.inbox_id@,
    {
        &self.inbox_id
    }

    /// The prompt for the signatures that are still needed, where the inbox
    /// has not been published yet.
    pub fn signature_request(&self) -> (request: Option<SignatureRequest>)
        ensures
            request is Some <==> self.signature_request is Some,
            request is Some ==> {
                &&& request.unwrap().inbox_id@ == self.signature_request.unwrap().inbox_id@
                &&& request.unwrap().client_timestamp_ns
                    == self.signature_request.unwrap().client_timestamp_ns
                &&& request.unwrap().signature_text@
                    == self.signature_request.unwrap().signature_text@
            },
    {
        match &self.signature_request {
            Some(r) => Some(r.clone()),
            None => None,
        }
    }

    /// The immutable metadata of a group that this identity creates for the
    /// given purpose.
    pub fn group_metadata_for(&self, purpose: Purpose) -> (m: GroupMetadata)
        ensures
            m@.conversation_type == (match purpose {
                Purpose::Conversation => ConversationType::Group,
                Purpose::Sync => ConversationType::Sync,
            }),
            m@.creator_account_address == self.account_address@,
            m@.creator_inbox_id == self.inbox_id@,
    {
        let conversation_type = match purpose {
            Purpose::Conversation => ConversationType::Group,
            Purpose::Sync => ConversationType::Sync,
        };
        GroupMetadata::new(conversation_type, self.account_address.clone(), self.inbox_id.clone())
    }

    /// The account address that owns the installation with the given key,
    /// according to the association state of the inbox that the credential
    /// names.
    pub fn get_validated_account_address(
        state: &AssociationState,
        credential_identity: &Vec<u8>,
        signature_pub_key: &Vec<u8>,
    ) -> (address: Result<String, IdentityError>)
        ensures
            match address {
                Ok(a) => {
                    &&& valid_utf8(credential_identity@)
                    &&& decode_utf8(credential_identity@) == state@.inbox_id
                    &&& owning_address(state@, signature_pub_key@) == Some(a@)
                },
                Err(IdentityError::InvalidCredential) => !valid_utf8(credential_identity@),
                Err(IdentityError::InboxIdMismatch) => {
                    &&& valid_utf8(credential_identity@)
                    &&& decode_utf8(credential_identity@) != state@.inbox_id
                },
                Err(IdentityError::InstallationIdNotFound(id)) => {
                    &&& valid_utf8(credential_identity@)
                    &&& id@ == state@.inbox_id
                    &&& decode_utf8(credential_identity@) == state@.inbox_id
                    &&& !state@.members.contains_key(MemberId::Installation(signature_pub_key@))
                },
                Err(IdentityError::NoOwningAddress) => {
                    &&& valid_utf8(credential_identity@)
                    &&& decode_utf8(credential_identity@) == state@.inbox_id
                    &&& state@.members.contains_key(MemberId::Installation(signature_pub_key@))
                    &&& owning_address(state@, signature_pub_key@) is None
                },
            },
    {
        let inbox_id = match parse_credential(credential_identity) {
            Ok(id) => id,
            Err(e) => {
                return Err(IdentityError::InvalidCredential);
            },
        };
        if !text_eq(&inbox_id, state.inbox_id()) {
            return Err(IdentityError::InboxIdMismatch);
        }
        let installation = MemberIdentifier::Installation(clone_bytes(signature_pub_key));
        match state.get(&installation) {
            None => Err(IdentityError::InstallationIdNotFound(inbox_id)),
            Some(member) => match member.added_by_entity {
                Some(MemberIdentifier::Address(a)) => Ok(a),
                _ => Err(IdentityError::NoOwningAddress),
            },
        }
    }
}

} // verus!
