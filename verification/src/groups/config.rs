//! How a group is set up: the extensions it starts with and the settings
//! of the MLS layer.

use vstd::prelude::*;
use crate::configuration::{
    GROUP_MEMBERSHIP_EXTENSION_ID, GROUP_PERMISSIONS_EXTENSION_ID, MAX_PAST_EPOCHS,
    MUTABLE_METADATA_EXTENSION_ID,
};
use crate::groups::errors::GroupError;
use crate::groups::extensions::{
    collect_extensions, with_extension, CredentialType, Extension, ExtensionType, Extensions,
    ExtensionsView, ProposalType, RequiredCapabilitiesExtension, RequiredCapabilitiesView,
};
use crate::groups::group_membership::GroupMembership;
use crate::groups::group_metadata::ConversationType;
use crate::groups::group_mutable_metadata::{
    after_admin_list_update, default_metadata, GroupMutableMetadata, GroupMutableMetadataError,
    MutableMetadataView,
};
use crate::groups::group_permissions::{GroupMutablePermissions, PolicySet};
use crate::groups::intents::UpdateAdminListIntentData;
use crate::groups::state::{extract_group_mutable_metadata, GroupState};
use crate::identity::Identity;
use crate::storage::group::Purpose;

verus! {

/// The ciphersuite of every group. Changing it parts the network.
#[derive(Clone, Copy, Debug, PartialEq, Eq, Structural)]
pub enum Ciphersuite {
    /// X25519, AES-128-GCM, SHA-256 and Ed25519.
    Mls128Dhkemx25519Aes128gcmSha256Ed25519,
}

/// Which wire formats a group takes and sends.
#[derive(Clone, Copy, Debug, PartialEq, Eq, Structural)]
pub enum WireFormatPolicy {
    /// Handshake messages are always encrypted.
    PureCiphertext,
    /// Handshake messages may come in plain text.
    MixedPlaintext,
}

impl Default for WireFormatPolicy {
    fn default() -> (p: Self)
        ensures
            p == WireFormatPolicy::PureCiphertext,
    {
        WireFormatPolicy::PureCiphertext
    }
}

/// What a member says it supports. A part left out stands for the default
/// of the MLS layer.
#[derive(Debug, PartialEq, Eq)]
pub struct Capabilities {
    pub extensions: Option<Vec<ExtensionType>>,
    pub proposals: Option<Vec<ProposalType>>,
    pub credentials: Option<Vec<CredentialType>>,
}

/// The settings with which a group is created.
#[derive(Debug, PartialEq, Eq)]
pub struct MlsGroupCreateConfig {
    pub group_context_extensions: Extensions,
    pub capabilities: Capabilities,
    pub ciphersuite: Ciphersuite,
    pub wire_format_policy: WireFormatPolicy,
    pub max_past_epochs: usize,
    pub use_ratchet_tree_extension: bool,
}

/// The settings with which a group is joined.
#[derive(Clone, Copy, Debug, PartialEq, Eq, Structural)]
pub struct MlsGroupJoinConfig {
    pub wire_format_policy: WireFormatPolicy,
    pub max_past_epochs: usize,
    pub use_ratchet_tree_extension: bool,
}

/// The extension types that every member of a group has to support: the
/// three extensions of this protocol, the immutable metadata, last-resort
/// key packages and the application id.
pub open spec fn required_extension_types() -> Seq<ExtensionType> {
    seq![
        ExtensionType::Unknown(GROUP_MEMBERSHIP_EXTENSION_ID),
        ExtensionType::Unknown(MUTABLE_METADATA_EXTENSION_ID),
        ExtensionType::Unknown(GROUP_PERMISSIONS_EXTENSION_ID),
        ExtensionType::ImmutableMetadata,
        ExtensionType::LastResort,
        ExtensionType::ApplicationId,
    ]
}

/// What every member of a group has to support.
pub open spec fn required_capabilities() -> RequiredCapabilitiesView {
    RequiredCapabilitiesView {
        extension_types: required_extension_types(),
        proposal_types: seq![ProposalType::GroupContextExtensions],
        credential_types: seq![CredentialType::Basic],
    }
}

/// The extension that holds what the group is for and who created it.
pub fn build_protected_metadata_extension(identity: &Identity, group_purpose: Purpose) -> (e:
    Extension)
    ensures
        e matches Extension::ImmutableMetadata(m) && {
            &&& m@.conversation_type == (match group_purpose {
                Purpose::Conversation => ConversationType::Group,
                Purpose::Sync => ConversationType::Sync,
            })
            &&& m@.creator_account_address == identity.account_address@
            &&& m@.creator_inbox_id == identity.inbox_id@
        },
{
    Extension::ImmutableMetadata(identity.group_metadata_for(group_purpose))
}

/// The extension that holds the rules of the group.
pub fn build_mutable_permissions_extension(policies: PolicySet) -> (e: Extension)
    ensures
        e == Extension::MutablePermissions(GroupMutablePermissions { policies }),
{
    Extension::MutablePermissions(GroupMutablePermissions::new(policies))
}

/// The extension that holds the mutable metadata of a new group: default
/// name and description, and the creator as only admin and super admin.
pub fn build_mutable_metadata_extension_default(identity: &Identity) -> (e: Extension)
    ensures
        e matches Extension::MutableMetadata(m) && m@ == default_metadata(identity.inbox_id@),
{
    Extension::MutableMetadata(GroupMutableMetadata::new_default(&identity.inbox_id))
}

/// The extension that holds the membership of a new group: its creator at
/// the given sequence number.
pub fn build_starting_group_membership_extension(inbox_id: String, sequence_id: u64) -> (e:
    Extension)
    ensures
        e matches Extension::GroupMembership(m) && {
            &&& m@ == Map::<Seq<char>, u64>::empty().insert(inbox_id@, sequence_id)
            &&& m.inbox_ids() == seq![inbox_id@]
        },
{
    let group_membership = GroupMembership::new();
    let group_membership = group_membership.add(inbox_id, sequence_id);
    assert(group_membership.inbox_ids() =~= seq![inbox_id@]);
    Extension::GroupMembership(group_membership)
}

/// The extensions of the group with one attribute of its mutable metadata
/// set. A group without mutable metadata is refused.
pub fn build_mutable_metadata_extensions(
    group: &GroupState,
    field_name: String,
    field_value: String,
) -> (r: Result<Extensions, GroupError>)
    ensures
        match r {
            Ok(e) => {
                &&& group@.extensions.mutable_metadata is Some
                &&& e@ == (ExtensionsView {
                    mutable_metadata: Some(
                        MutableMetadataView {
                            attributes: group@.extensions.mutable_metadata.unwrap().attributes.insert(
                                field_name@,
                                field_value@,
                            ),
                            ..group@.extensions.mutable_metadata.unwrap()
                        },
                    ),
                    ..group@.extensions
                })
            },
            Err(e) => {
                &&& group@.extensions.mutable_metadata is None
                &&& e == GroupError::GroupMutableMetadata(
                    GroupMutableMetadataError::MissingExtension,
                )
            },
        },
{
    let existing_metadata = match extract_group_mutable_metadata(group) {
        Ok(m) => m,
        Err(e) => {
            return Err(GroupError::GroupMutableMetadata(e));
        },
    };
    let new_mutable_metadata = existing_metadata.with_attribute(field_name, field_value);
    let extension = Extension::MutableMetadata(new_mutable_metadata);
    let mut extensions = group.extensions().clone();
    extensions.add_or_replace(extension);
    Ok(extensions)
}

/// The extensions of the group after a change to its lists of admins. A
/// group without mutable metadata is refused.
pub fn build_mutable_metadata_extensions_for_admin_lists_update(
    group: &GroupState,
    admin_lists_update: UpdateAdminListIntentData,
) -> (r: Result<Extensions, GroupError>)
    ensures
        match r {
            Ok(e) => {
                &&& group@.extensions.mutable_metadata is Some
                &&& e@ == (ExtensionsView {
                    mutable_metadata: Some(
                        after_admin_list_update(
                            group@.extensions.mutable_metadata.unwrap(),
                            admin_lists_update.action_type,
                            admin_lists_update.inbox_id@,
                        ),
                    ),
                    ..group@.extensions
                })
            },
            Err(e) => {
                &&& group@.extensions.mutable_metadata is None
                &&& e == GroupError::GroupMutableMetadata(
                    GroupMutableMetadataError::MissingExtension,
                )
            },
        },
{
    let existing_metadata = match extract_group_mutable_metadata(group) {
        Ok(m) => m,
        Err(e) => {
            return Err(GroupError::GroupMutableMetadata(e));
        },
    };
    let new_mutable_metadata = existing_metadata.with_admin_list_update(
        admin_lists_update.action_type,
        admin_lists_update.inbox_id,
    );
    let extension = Extension::MutableMetadata(new_mutable_metadata);
    let mut extensions = group.extensions().clone();
    extensions.add_or_replace(extension);
    Ok(extensions)
}

/// The extensions that a new group carries: the four given and the
/// required capabilities.
pub open spec fn starting_extensions(
    protected_metadata: Extension,
    mutable_metadata: Extension,
    group_membership: Extension,
    mutable_permissions: Extension,
    required: Extension,
) -> Option<ExtensionsView> {
    collect_extensions(
        seq![protected_metadata, mutable_metadata, group_membership, mutable_permissions, required],
    )
}

/// The settings of a new group. It carries the four extensions given and
/// the required capabilities, keeps the keys of three past epochs, sends
/// its ratchet tree along and uses the default wire format. Two
/// extensions of one type are refused.
pub fn build_group_config(
    protected_metadata_extension: Extension,
    mutable_metadata_extension: Extension,
    group_membership_extension: Extension,
    mutable_permission_extension: Extension,
) -> (r: Result<MlsGroupCreateConfig, GroupError>)
    ensures
        match r {
            Ok(config) => {
                &&& exists|required: Extension|
                    {
                        &&& required matches Extension::RequiredCapabilities(c) && c@
                            == required_capabilities()
                        &&& #[trigger] starting_extensions(
                            protected_metadata_extension,
                            mutable_metadata_extension,
                            group_membership_extension,
                            mutable_permission_extension,
                            required,
                        ) == Some(config.group_context_extensions@)
                    }
                &&& config.capabilities.extensions matches Some(list) && list@
                    == required_extension_types()
                &&& config.capabilities.proposals matches Some(list) && list@
                    == seq![ProposalType::GroupContextExtensions]
                &&& config.capabilities.credentials is None
                &&& config.ciphersuite == Ciphersuite::Mls128Dhkemx25519Aes128gcmSha256Ed25519
                &&& config.wire_format_policy == WireFormatPolicy::PureCiphertext
                &&& config.max_past_epochs == MAX_PAST_EPOCHS
                &&& config.use_ratchet_tree_extension
            },
            Err(e) => {
                &&& e == GroupError::InvalidExtension(
                    crate::groups::extensions::InvalidExtensionError::Duplicate,
                )
                &&& forall|required: Extension|
                    required is RequiredCapabilities ==> #[trigger] starting_extensions(
                        protected_metadata_extension,
                        mutable_metadata_extension,
                        group_membership_extension,
                        mutable_permission_extension,
                        required,
                    ) is None
            },
        },
{
    let mut required_extension_types: Vec<ExtensionType> = Vec::new();
    required_extension_types.push(ExtensionType::Unknown(GROUP_MEMBERSHIP_EXTENSION_ID));
    required_extension_types.push(ExtensionType::Unknown(MUTABLE_METADATA_EXTENSION_ID));
    required_extension_types.push(ExtensionType::Unknown(GROUP_PERMISSIONS_EXTENSION_ID));
    required_extension_types.push(ExtensionType::ImmutableMetadata);
    required_extension_types.push(ExtensionType::LastResort);
    required_extension_types.push(ExtensionType::ApplicationId);
    assert(required_extension_types@ =~= self::required_extension_types());

    let mut required_proposal_types: Vec<ProposalType> = Vec::new();
    required_proposal_types.push(ProposalType::GroupContextExtensions);
    assert(required_proposal_types@ =~= seq![ProposalType::GroupContextExtensions]);

    let mut credentials: Vec<CredentialType> = Vec::new();
    credentials.push(CredentialType::Basic);
    assert(credentials@ =~= seq![CredentialType::Basic]);

    let required_capabilities = Extension::RequiredCapabilities(
        RequiredCapabilitiesExtension::new(
            &required_extension_types,
            &required_proposal_types,
            &credentials,
        ),
    );
    let capabilities = Capabilities {
        extensions: Some(required_extension_types),
        proposals: Some(required_proposal_types),
        credentials: None,
    };

    let mut list: Vec<Extension> = Vec::new();
    list.push(protected_metadata_extension);
    list.push(mutable_metadata_extension);
    list.push(group_membership_extension);
    list.push(mutable_permission_extension);
    list.push(required_capabilities);
    assert(list@ =~= seq![
        protected_metadata_extension,
        mutable_metadata_extension,
        group_membership_extension,
        mutable_permission_extension,
        required_capabilities,
    ]);
    let extensions = match Extensions::from_vec(list) {
        Ok(e) => e,
        Err(e) => {
            proof {
                assert forall|required: Extension|
                    required is RequiredCapabilities implies #[trigger] starting_extensions(
                    protected_metadata_extension,
                    mutable_metadata_extension,
                    group_membership_extension,
                    mutable_permission_extension,
                    required,
                ) is None by {
                    lemma_refusal_whatever_is_required(
                        protected_metadata_extension,
                        mutable_metadata_extension,
                        group_membership_extension,
                        mutable_permission_extension,
                        required_capabilities,
                        required,
                    );
                }
            }
            return Err(GroupError::InvalidExtension(e));
        },
    };

    Ok(
        MlsGroupCreateConfig {
            group_context_extensions: extensions,
            capabilities,
            ciphersuite: Ciphersuite::Mls128Dhkemx25519Aes128gcmSha256Ed25519,
            wire_format_policy: WireFormatPolicy::default(),
            max_past_epochs: MAX_PAST_EPOCHS,
            use_ratchet_tree_extension: true,
        },
    )
}

/// Whether a list of extensions is refused does not depend on what the
/// required capabilities hold, only on the types in the list.
pub proof fn lemma_refusal_whatever_is_required(
    a: Extension,
    b: Extension,
    c: Extension,
    d: Extension,
    r1: Extension,
    r2: Extension,
)
    requires
        r1 is RequiredCapabilities,
        r2 is RequiredCapabilities,
        starting_extensions(a, b, c, d, r1) is None,
    ensures
        starting_extensions(a, b, c, d, r2) is None,
{
    let l1 = seq![a, b, c, d, r1];
    let l2 = seq![a, b, c, d, r2];
    let p4 = seq![a, b, c, d];
    let p3 = seq![a, b, c];
    let p2 = seq![a, b];
    let p1 = seq![a];
    assert(l1.drop_last() =~= p4);
    assert(l2.drop_last() =~= p4);
    assert(p4.drop_last() =~= p3);
    assert(p3.drop_last() =~= p2);
    assert(p2.drop_last() =~= p1);
    assert(p1.drop_last() =~= Seq::<Extension>::empty());
    assert(l1.last() == r1);
    assert(l2.last() == r2);
    reveal_with_fuel(collect_extensions, 6);
}

/// What a new group carries when it is given one extension of each of the
/// four types and the required capabilities.
pub proof fn lemma_starting_extensions(
    a: Extension,
    b: Extension,
    c: Extension,
    d: Extension,
    r: Extension,
)
    requires
        a is ImmutableMetadata,
        b is MutableMetadata,
        c is GroupMembership,
        d is MutablePermissions,
        r is RequiredCapabilities,
    ensures
        starting_extensions(a, b, c, d, r) == Some(
            with_extension(
                with_extension(
                    with_extension(
                        with_extension(
                            with_extension(crate::groups::extensions::no_extensions(), a),
                            b,
                        ),
                        c,
                    ),
                    d,
                ),
                r,
            ),
        ),
{
    let l = seq![a, b, c, d, r];
    let p4 = seq![a, b, c, d];
    let p3 = seq![a, b, c];
    let p2 = seq![a, b];
    let p1 = seq![a];
    assert(l.drop_last() =~= p4);
    assert(p4.drop_last() =~= p3);
    assert(p3.drop_last() =~= p2);
    assert(p2.drop_last() =~= p1);
    assert(p1.drop_last() =~= Seq::<Extension>::empty());
    reveal_with_fuel(collect_extensions, 6);
}

/// The settings with which a group is joined: the keys of three past epochs
/// are kept, the ratchet tree comes along, the wire format is the default.
pub fn build_group_join_config() -> (config: MlsGroupJoinConfig)
    ensures
        config == (MlsGroupJoinConfig {
            wire_format_policy: WireFormatPolicy::PureCiphertext,
            max_past_epochs: MAX_PAST_EPOCHS,
            use_ratchet_tree_extension: true,
        }),
{
    MlsGroupJoinConfig {
        wire_format_policy: WireFormatPolicy::default(),
        max_past_epochs: MAX_PAST_EPOCHS,
        use_ratchet_tree_extension: true,
    }
}

} // verus!
