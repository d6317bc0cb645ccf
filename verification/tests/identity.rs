use xmtp_core::associations::association_log::{
    Action, AddAssociation, CreateInbox, IdentityUpdate,
};
use xmtp_core::associations::get_state;
use xmtp_core::associations::member::{Member, MemberIdentifier, MemberKind};
use xmtp_core::associations::signature::{SignatureKind, VerifiedSignature};
use xmtp_core::associations::state::AssociationState;
use xmtp_core::client::{Client, Network};
use xmtp_core::groups::config::{
    build_group_config, build_group_join_config, build_mutable_metadata_extension_default,
    build_mutable_metadata_extensions, build_mutable_metadata_extensions_for_admin_lists_update,
    build_mutable_permissions_extension, build_protected_metadata_extension,
    build_starting_group_membership_extension, Ciphersuite, WireFormatPolicy,
};
use xmtp_core::groups::errors::{GroupError, MessageProcessingError};
use xmtp_core::groups::extensions::{
    CredentialType, Extension, ExtensionType, Extensions, InvalidExtensionError, ProposalType,
};
use xmtp_core::groups::group_membership::GroupMembership;
use xmtp_core::groups::group_metadata::ConversationType;
use xmtp_core::groups::group_mutable_metadata::{
    GroupMutableMetadata, GroupMutableMetadataError, MetadataField,
};
use xmtp_core::groups::group_permissions::{
    Mutation, Policy, PreconfiguredPolicies, Role,
};
use xmtp_core::groups::intents::{AdminListActionType, UpdateAdminListIntentData};
use xmtp_core::groups::state::GroupState;
use xmtp_core::identity::{parse_credential, Identity, IdentityError, SignatureRequest};
use xmtp_core::storage::errors::StorageError;
use xmtp_core::storage::group::Purpose;
use xmtp_core::storage::identity_update::StoredIdentityUpdate;
use xmtp_core::storage::store::EncryptedMessageStore;
use xmtp_core::text_map::TextMap;

fn identity() -> Identity {
    Identity::new("inbox-a".to_string(), "0xa".to_string(), vec![1; 32], None)
}

fn state_with_installation() -> AssociationState {
    let wallet = MemberIdentifier::Address("0xa".to_string());
    let installation = MemberIdentifier::Installation(vec![1; 32]);
    let second = MemberIdentifier::Address("0xb".to_string());
    let nested = MemberIdentifier::Installation(vec![2; 32]);
    let sig = |signer: &MemberIdentifier, kind, raw: &str| {
        VerifiedSignature::new(signer.clone(), kind, raw.as_bytes().to_vec())
    };
    let actions = vec![
        Action::CreateInbox(CreateInbox {
            nonce: 1,
            account_address: "0xa".to_string(),
            initial_address_signature: sig(&wallet, SignatureKind::Erc191, "s1"),
        }),
        Action::AddAssociation(AddAssociation {
            new_member_signature: sig(&installation, SignatureKind::InstallationKey, "s2"),
            new_member_identifier: installation.clone(),
            existing_member_signature: sig(&wallet, SignatureKind::Erc191, "s3"),
        }),
        Action::AddAssociation(AddAssociation {
            new_member_signature: sig(&second, SignatureKind::Erc191, "s4"),
            new_member_identifier: second,
            existing_member_signature: sig(&installation, SignatureKind::InstallationKey, "s5"),
        }),
        Action::AddAssociation(AddAssociation {
            new_member_signature: sig(&nested, SignatureKind::InstallationKey, "s6"),
            new_member_identifier: nested,
            existing_member_signature: sig(&wallet, SignatureKind::Erc191, "s7"),
        }),
    ];
    get_state(vec![IdentityUpdate::new(actions, "inbox-a".to_string(), 1)]).unwrap()
}

#[test]
fn credential_names_an_inbox() {
    assert_eq!(parse_credential(&b"inbox-a".to_vec()), Ok("inbox-a".to_string()));
    assert_eq!(parse_credential(&vec![0xC0, 0x80]), Err(IdentityError::InvalidCredential));
}

#[test]
fn validated_account_address_is_the_one_that_added_the_installation() {
    let state = state_with_installation();
    assert_eq!(
        Identity::get_validated_account_address(&state, &b"inbox-a".to_vec(), &vec![1; 32]),
        Ok("0xa".to_string())
    );
}

#[test]
fn validated_account_address_fails_in_each_way() {
    let state = state_with_installation();
    assert_eq!(
        Identity::get_validated_account_address(&state, &vec![0xFF], &vec![1; 32]),
        Err(IdentityError::InvalidCredential)
    );
    assert_eq!(
        Identity::get_validated_account_address(&state, &b"inbox-z".to_vec(), &vec![1; 32]),
        Err(IdentityError::InboxIdMismatch)
    );
    assert_eq!(
        Identity::get_validated_account_address(&state, &b"inbox-a".to_vec(), &vec![9; 32]),
        Err(IdentityError::InstallationIdNotFound("inbox-a".to_string()))
    );
}

#[test]
fn state_lists_its_members() {
    let state = state_with_installation();
    assert_eq!(state.member_count(), 4);
    assert_eq!(state.members().len(), 4);
    let addresses = state.members_by_kind(MemberKind::Address);
    assert_eq!(addresses.len(), 2);
    assert_eq!(addresses[0].identifier, MemberIdentifier::Address("0xa".to_string()));
    let by_wallet = state.members_by_parent(&MemberIdentifier::Address("0xa".to_string()));
    assert_eq!(by_wallet.len(), 2);
    assert_eq!(state.installation_ids(), vec![vec![1u8; 32], vec![2u8; 32]]);
    assert!(state.has_seen(&b"s5".to_vec()));
    assert!(!state.has_seen(&b"s9".to_vec()));
    assert_eq!(
        state.get(&MemberIdentifier::Address("0xb".to_string())),
        Some(Member::new(
            MemberIdentifier::Address("0xb".to_string()),
            Some(MemberIdentifier::Installation(vec![1; 32])),
            1
        ))
    );
}

#[test]
fn revoke_cascades_through_chains_of_additions() {
    let state = state_with_installation();
    let after = state.remove_cascade(&MemberIdentifier::Installation(vec![1; 32]));
    assert_eq!(after.member_count(), 2);
    assert!(after.get(&MemberIdentifier::Address("0xb".to_string())).is_none());
    assert!(after.get(&MemberIdentifier::Installation(vec![2; 32])).is_some());
    let after = state_with_installation().remove_cascade(&MemberIdentifier::Address("0xa".to_string()));
    assert_eq!(after.member_count(), 0);
    let after = state_with_installation().remove_cascade(&MemberIdentifier::Address("0xz".to_string()));
    assert_eq!(after.member_count(), 4);
}

#[test]
fn context_reports_identity_and_sequence() {
    let mut store = EncryptedMessageStore::new();
    store.insert_identity_update(StoredIdentityUpdate::new("inbox-a".to_string(), 4, 1, vec![]));
    let request = SignatureRequest {
        inbox_id: "inbox-a".to_string(),
        client_timestamp_ns: 3,
        signature_text: "sign me".to_string(),
    };
    let client = Client::new(
        Identity::new("inbox-a".to_string(), "0xa".to_string(), vec![1; 32], Some(request.clone())),
        store,
    );
    assert_eq!(client.installation_public_key(), vec![1; 32]);
    assert_eq!(client.inbox_id(), "inbox-a");
    assert_eq!(client.inbox_sequence_id(), Ok(4));
    assert_eq!(client.identity().account_address, "0xa");
    assert_eq!(client.context().installation_public_key(), vec![1; 32]);
    assert_eq!(client.context().inbox_id(), "inbox-a");
    assert_eq!(client.context().account_address(), "0xa");
    assert_eq!(client.context().inbox_sequence_id(), Ok(4));
    assert_eq!(client.context().signature_request(), Some(request));
    assert_eq!(client.store().get_latest_sequence_id(&"inbox-a".to_string()), 4);
    assert!(matches!(Network::default(), Network::Dev));
    let published = Client::new(identity(), EncryptedMessageStore::new());
    assert_eq!(published.context().signature_request(), None);
    assert_eq!(published.inbox_sequence_id(), Ok(0));
}

#[test]
fn group_is_created_at_the_sequence_number_known() {
    let mut store = EncryptedMessageStore::new();
    store.insert_identity_update(StoredIdentityUpdate::new("inbox-a".to_string(), 4, 1, vec![]));
    let mut client = Client::new(identity(), store);
    let group = client.create_group(None, vec![1], 10).unwrap();
    let state = group.load_mls_group(client.context()).unwrap();
    assert_eq!(state.extensions.group_membership.unwrap().get(&"inbox-a".to_string()), Some(4));
}

#[test]
fn policies_of_the_presets() {
    let all = PreconfiguredPolicies::AllMembers.to_policy_set();
    assert!(all.evaluate(Mutation::AddMember, Role::Member));
    assert!(!all.evaluate(Mutation::RemoveMember, Role::Member));
    assert!(all.evaluate(Mutation::RemoveMember, Role::Admin));
    assert!(all.evaluate(Mutation::UpdateMetadata, Role::Member));
    assert!(!all.evaluate(Mutation::AddAdmin, Role::Admin));
    assert!(all.evaluate(Mutation::AddAdmin, Role::SuperAdmin));
    let admins = PreconfiguredPolicies::AdminsOnly.to_policy_set();
    assert!(!admins.evaluate(Mutation::AddMember, Role::Member));
    assert!(admins.evaluate(Mutation::AddMember, Role::Admin));
    assert!(admins.evaluate(Mutation::AddMember, Role::SuperAdmin));
    assert!(!admins.evaluate(Mutation::UpdateMetadata, Role::Member));
    assert!(!admins.evaluate(Mutation::RemoveSuperAdmin, Role::Admin));
    assert!(admins.evaluate(Mutation::RemoveSuperAdmin, Role::SuperAdmin));
    assert_eq!(PreconfiguredPolicies::default(), PreconfiguredPolicies::AllMembers);
    assert!(Policy::Allow.evaluate(Role::Member));
    assert!(!Policy::Deny.evaluate(Role::SuperAdmin));
    assert!(!Policy::AllowIfSuperAdmin.evaluate(Role::Admin));
}

#[test]
fn default_metadata_names_the_creator() {
    let metadata = GroupMutableMetadata::new_default(&"inbox-a".to_string());
    assert_eq!(metadata.attributes.len(), 2);
    assert_eq!(
        metadata.attributes.get(&MetadataField::GroupName.to_string()),
        Some(&"New Group".to_string())
    );
    assert_eq!(MetadataField::GroupName.as_str(), "group_name");
    assert_eq!(MetadataField::Description.as_str(), "description");
    assert_eq!(metadata.admin_list, vec!["inbox-a".to_string()]);
    assert_eq!(metadata.super_admin_list, vec!["inbox-a".to_string()]);
    assert!(metadata.is_admin(&"inbox-a".to_string()));
    assert!(!metadata.is_super_admin(&"inbox-b".to_string()));
}

#[test]
fn admin_list_updates() {
    let b = "inbox-b".to_string();
    let metadata = GroupMutableMetadata::new_default(&"inbox-a".to_string());
    let metadata = metadata.with_admin_list_update(AdminListActionType::AddAdmin, b.clone());
    assert_eq!(metadata.admin_list, vec!["inbox-a".to_string(), b.clone()]);
    let metadata = metadata.with_admin_list_update(AdminListActionType::AddAdmin, b.clone());
    assert_eq!(metadata.admin_list, vec!["inbox-a".to_string(), b.clone()]);
    let metadata = metadata.with_admin_list_update(AdminListActionType::AddSuperAdmin, b.clone());
    assert_eq!(metadata.super_admin_list, vec!["inbox-a".to_string(), b.clone()]);
    let metadata = metadata.with_admin_list_update(AdminListActionType::RemoveAdmin, "inbox-a".to_string());
    assert_eq!(metadata.admin_list, vec![b.clone()]);
    assert_eq!(metadata.super_admin_list, vec!["inbox-a".to_string(), b.clone()]);
    let metadata = metadata.with_admin_list_update(AdminListActionType::RemoveSuperAdmin, b.clone());
    assert_eq!(metadata.super_admin_list, vec!["inbox-a".to_string()]);
    assert_eq!(metadata.admin_list, vec![b.clone()]);
    let metadata = metadata.with_admin_list_update(AdminListActionType::RemoveAdmin, "nobody".to_string());
    assert_eq!(metadata.admin_list, vec![b]);
    assert_eq!(metadata.attributes.len(), 2);
}

#[test]
fn text_map_keeps_order_and_replaces_in_place() {
    let map: TextMap<u64> = TextMap::new();
    let map = map.insert("a".to_string(), 1).insert("b".to_string(), 2).insert("a".to_string(), 3);
    assert_eq!(map.len(), 2);
    assert_eq!(map.get(&"a".to_string()), Some(&3));
    assert_eq!(map.key_at(0), "a");
    assert_eq!(map.value_at(1), &2);
    assert!(map.contains_key(&"b".to_string()));
    let copy = map.copy();
    let map = map.remove(&"a".to_string());
    assert_eq!(map.len(), 1);
    assert_eq!(map.key_at(0), "b");
    assert_eq!(map.get(&"a".to_string()), None);
    let map = map.remove(&"zz".to_string());
    assert_eq!(map.len(), 1);
    assert_eq!(copy.len(), 2);
}

#[test]
fn membership_adds_and_removes() {
    let m = GroupMembership::new().add("a".to_string(), 1).add("b".to_string(), 2);
    assert_eq!(m.len(), 2);
    assert_eq!(m.get(&"b".to_string()), Some(2));
    assert!(m.contains(&"a".to_string()));
    let m = m.add("a".to_string(), 5);
    assert_eq!(m.len(), 2);
    assert_eq!(m.get(&"a".to_string()), Some(5));
    let m = m.remove(&"a".to_string());
    assert_eq!(m.len(), 1);
    assert_eq!(m.get(&"a".to_string()), None);
}

#[test]
fn extensions_hold_one_of_each_type() {
    let metadata = || Extension::MutableMetadata(GroupMutableMetadata::new_default(&"a".to_string()));
    let membership = build_starting_group_membership_extension("a".to_string(), 3);
    assert_eq!(
        membership.extension_type(),
        ExtensionType::Unknown(xmtp_core::configuration::GROUP_MEMBERSHIP_EXTENSION_ID)
    );
    assert_eq!(
        metadata().extension_type(),
        ExtensionType::Unknown(xmtp_core::configuration::MUTABLE_METADATA_EXTENSION_ID)
    );
    let extensions = Extensions::from_vec(vec![metadata(), membership]).unwrap();
    assert!(extensions.contains(ExtensionType::Unknown(0xff00)));
    assert!(extensions.contains(ExtensionType::Unknown(0xff01)));
    assert!(!extensions.contains(ExtensionType::Unknown(0xff02)));
    assert!(!extensions.contains(ExtensionType::ImmutableMetadata));
    assert!(!extensions.contains(ExtensionType::LastResort));
    assert_eq!(
        Extensions::from_vec(vec![metadata(), metadata()]),
        Err(InvalidExtensionError::Duplicate)
    );
    assert_eq!(Extensions::from_vec(vec![]), Ok(Extensions::empty()));
    let mut extensions = Extensions::empty();
    extensions.add_or_replace(metadata());
    extensions.add_or_replace(Extension::MutableMetadata(GroupMutableMetadata::new_default(
        &"b".to_string(),
    )));
    assert_eq!(extensions.mutable_metadata.unwrap().admin_list, vec!["b".to_string()]);
}

#[test]
fn group_config_has_the_settings_of_the_protocol() {
    let id = identity();
    let config = build_group_config(
        build_protected_metadata_extension(&id, Purpose::Conversation),
        build_mutable_metadata_extension_default(&id),
        build_starting_group_membership_extension("inbox-a".to_string(), 0),
        build_mutable_permissions_extension(PreconfiguredPolicies::AdminsOnly.to_policy_set()),
    )
    .unwrap();
    assert_eq!(config.max_past_epochs, 3);
    assert!(config.use_ratchet_tree_extension);
    assert_eq!(config.wire_format_policy, WireFormatPolicy::PureCiphertext);
    assert_eq!(config.ciphersuite, Ciphersuite::Mls128Dhkemx25519Aes128gcmSha256Ed25519);
    let required = vec![
        ExtensionType::Unknown(0xff01),
        ExtensionType::Unknown(0xff00),
        ExtensionType::Unknown(0xff02),
        ExtensionType::ImmutableMetadata,
        ExtensionType::LastResort,
        ExtensionType::ApplicationId,
    ];
    assert_eq!(config.capabilities.extensions, Some(required.clone()));
    assert_eq!(config.capabilities.proposals, Some(vec![ProposalType::GroupContextExtensions]));
    assert_eq!(config.capabilities.credentials, None);
    let carried = config.group_context_extensions;
    let capabilities = carried.required_capabilities.unwrap();
    assert_eq!(capabilities.extension_types, required);
    assert_eq!(capabilities.proposal_types, vec![ProposalType::GroupContextExtensions]);
    assert_eq!(capabilities.credential_types, vec![CredentialType::Basic]);
    let metadata = carried.immutable_metadata.unwrap();
    assert_eq!(metadata.conversation_type, ConversationType::Group);
    assert_eq!(metadata.creator_account_address, "0xa");
    assert_eq!(
        carried.mutable_permissions.unwrap().policies,
        PreconfiguredPolicies::AdminsOnly.to_policy_set()
    );
    let join = build_group_join_config();
    assert_eq!(join.max_past_epochs, 3);
    assert!(join.use_ratchet_tree_extension);
    assert_eq!(join.wire_format_policy, WireFormatPolicy::default());
}

#[test]
fn group_config_with_two_extensions_of_one_type_is_refused() {
    let id = identity();
    let result = build_group_config(
        build_mutable_metadata_extension_default(&id),
        build_mutable_metadata_extension_default(&id),
        build_starting_group_membership_extension("inbox-a".to_string(), 0),
        build_mutable_permissions_extension(PreconfiguredPolicies::AllMembers.to_policy_set()),
    );
    assert_eq!(result, Err(GroupError::InvalidExtension(InvalidExtensionError::Duplicate)));
}

#[test]
fn sync_groups_are_marked_in_their_metadata() {
    match build_protected_metadata_extension(&identity(), Purpose::Sync) {
        Extension::ImmutableMetadata(m) => {
            assert_eq!(m.conversation_type, ConversationType::Sync);
            assert_eq!(m.creator_inbox_id, "inbox-a");
        }
        _ => panic!("expected immutable metadata"),
    }
}

#[test]
fn metadata_extensions_are_rebuilt_from_the_group() {
    let id = identity();
    let mut extensions = Extensions::empty();
    extensions.add_or_replace(build_mutable_metadata_extension_default(&id));
    extensions.add_or_replace(build_starting_group_membership_extension("inbox-a".to_string(), 0));
    let group = GroupState::new(vec![1], extensions);
    let renamed =
        build_mutable_metadata_extensions(&group, "group_name".to_string(), "N1".to_string()).unwrap();
    let metadata = renamed.mutable_metadata.unwrap();
    assert_eq!(metadata.attributes.get(&"group_name".to_string()), Some(&"N1".to_string()));
    assert_eq!(metadata.attributes.len(), 2);
    assert!(renamed.group_membership.is_some());
    let updated = build_mutable_metadata_extensions_for_admin_lists_update(
        &group,
        UpdateAdminListIntentData::new(AdminListActionType::AddAdmin, "inbox-b".to_string()),
    )
    .unwrap();
    assert_eq!(
        updated.mutable_metadata.unwrap().admin_list,
        vec!["inbox-a".to_string(), "inbox-b".to_string()]
    );
    let bare = GroupState::new(vec![2], Extensions::empty());
    assert_eq!(
        build_mutable_metadata_extensions(&bare, "a".to_string(), "b".to_string()),
        Err(GroupError::GroupMutableMetadata(GroupMutableMetadataError::MissingExtension))
    );
    assert_eq!(
        build_mutable_metadata_extensions_for_admin_lists_update(
            &bare,
            UpdateAdminListIntentData::new(AdminListActionType::RemoveAdmin, "x".to_string()),
        ),
        Err(GroupError::GroupMutableMetadata(GroupMutableMetadataError::MissingExtension))
    );
}

#[test]
fn group_errors_that_are_worth_another_attempt() {
    assert!(GroupError::Storage(StorageError::Pool("p".to_string())).is_retryable());
    assert!(!GroupError::Storage(StorageError::NotFound).is_retryable());
    assert!(GroupError::ReceiveError(MessageProcessingError::Storage(StorageError::Pool(
        "p".to_string()
    )))
    .is_retryable());
    assert!(!GroupError::ReceiveError(MessageProcessingError::InvalidPayload).is_retryable());
    assert!(!GroupError::UserLimitExceeded.is_retryable());
    assert!(!GroupError::GroupNotFound.is_retryable());
    assert!(!MessageProcessingError::AlreadyProcessed(3).is_retryable());
}

#[test]
fn installation_that_no_address_added_has_no_owner() {
    let state = state_with_installation().add(Member::new(
        MemberIdentifier::Installation(vec![3; 32]),
        None,
        5,
    ));
    assert_eq!(
        Identity::get_validated_account_address(&state, &b"inbox-a".to_vec(), &vec![3; 32]),
        Err(IdentityError::NoOwningAddress)
    );
}
