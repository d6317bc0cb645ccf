use xmtp_core::associations::association_log::{
    Action, AddAssociation, AssociationError, ChangeRecoveryAddress, CreateInbox, IdentityUpdate,
    RevokeAssociation,
};
use xmtp_core::associations::member::{MemberIdentifier, MemberKind};
use xmtp_core::associations::signature::{SignatureKind, VerifiedSignature};
use xmtp_core::associations::state::AssociationState;
use xmtp_core::associations::{apply_update, get_state};

fn address(name: &str) -> MemberIdentifier {
    MemberIdentifier::Address(name.to_string())
}

fn installation(key: &[u8]) -> MemberIdentifier {
    MemberIdentifier::Installation(key.to_vec())
}

fn create_action(account: &str, raw: &[u8]) -> Action {
    Action::CreateInbox(CreateInbox {
        nonce: 7,
        account_address: account.to_string(),
        initial_address_signature: VerifiedSignature::new(
            address(account),
            SignatureKind::Erc191,
            raw.to_vec(),
        ),
    })
}

fn add_action(
    existing: MemberIdentifier,
    existing_kind: SignatureKind,
    existing_raw: &[u8],
    new_member: MemberIdentifier,
    new_kind: SignatureKind,
    new_raw: &[u8],
) -> Action {
    Action::AddAssociation(AddAssociation {
        new_member_signature: VerifiedSignature::new(new_member.clone(), new_kind, new_raw.to_vec()),
        new_member_identifier: new_member,
        existing_member_signature: VerifiedSignature::new(
            existing,
            existing_kind,
            existing_raw.to_vec(),
        ),
    })
}

fn new_test_inbox() -> AssociationState {
    let update = IdentityUpdate::new(vec![create_action("0xwallet", b"sig-create")], "inbox".to_string(), 1);
    get_state(vec![update]).unwrap()
}

fn new_test_inbox_with_installation() -> AssociationState {
    let state = new_test_inbox();
    let update = IdentityUpdate::new(
        vec![add_action(
            address("0xwallet"),
            SignatureKind::Erc191,
            b"sig-add-x-existing",
            installation(b"install-x"),
            SignatureKind::InstallationKey,
            b"sig-add-x-new",
        )],
        "inbox".to_string(),
        2,
    );
    apply_update(state, update).unwrap()
}

#[test]
fn test_create_inbox() {
    let state = new_test_inbox();
    assert_eq!(state.members().len(), 1);
    let existing_entity = state.get(&address("0xwallet")).unwrap();
    assert!(existing_entity.identifier.eq(&address("0xwallet")));
    assert_eq!(existing_entity.added_by_entity, None);
    assert_eq!(state.recovery_address(), "0xwallet");
    assert_eq!(state.inbox_id(), "inbox");
}

#[test]
fn create_and_add_separately() {
    let state = new_test_inbox_with_installation();
    assert_eq!(state.members().len(), 2);
    let new_member = state.get(&installation(b"install-x")).unwrap();
    assert_eq!(new_member.added_by_entity, Some(address("0xwallet")));
    assert_eq!(new_member.client_timestamp_ns, 2);
}

#[test]
fn create_and_add_together() {
    let update = IdentityUpdate::new(
        vec![
            create_action("0xwallet", b"s1"),
            add_action(
                address("0xwallet"),
                SignatureKind::Erc191,
                b"s2",
                installation(b"install-x"),
                SignatureKind::InstallationKey,
                b"s3",
            ),
        ],
        "inbox".to_string(),
        5,
    );
    let state = get_state(vec![update]).unwrap();
    assert_eq!(state.members().len(), 2);
    assert_eq!(
        state.get(&installation(b"install-x")).unwrap().added_by_entity,
        Some(address("0xwallet"))
    );
}

#[test]
fn create_from_legacy_key() {
    let create = Action::CreateInbox(CreateInbox {
        nonce: 0,
        account_address: "0xlegacy".to_string(),
        initial_address_signature: VerifiedSignature::new(
            address("0xlegacy"),
            SignatureKind::LegacyDelegated,
            "0".as_bytes().to_vec(),
        ),
    });
    let state = get_state(vec![IdentityUpdate::new(vec![create], "inbox".to_string(), 1)]).unwrap();
    assert_eq!(state.members().len(), 1);

    let update = add_action(
        address("0xlegacy"),
        SignatureKind::LegacyDelegated,
        "0".as_bytes(),
        installation(b"install-x"),
        SignatureKind::InstallationKey,
        b"fresh",
    );
    let update_result = apply_update(state, IdentityUpdate::new(vec![update], "inbox".to_string(), 2));
    assert!(matches!(update_result, Err(AssociationError::Replay)));
}

#[test]
fn add_wallet_from_installation_key() {
    let state = new_test_inbox_with_installation();
    let installation_id = state
        .members_by_kind(MemberKind::Installation)
        .first()
        .cloned()
        .unwrap()
        .identifier;
    let update = add_action(
        installation_id,
        SignatureKind::InstallationKey,
        b"by-install",
        address("0xsecond"),
        SignatureKind::Erc191,
        b"by-second",
    );
    let new_state = apply_update(state, IdentityUpdate::new(vec![update], "inbox".to_string(), 3))
        .expect("expected update to succeed");
    assert_eq!(new_state.members().len(), 3);
}

#[test]
fn reject_invalid_signature_on_create() {
    let action = Action::CreateInbox(CreateInbox {
        nonce: 1,
        account_address: "0xwallet".to_string(),
        initial_address_signature: VerifiedSignature::new(
            address("0xsomebody-else"),
            SignatureKind::Erc191,
            b"bad".to_vec(),
        ),
    });
    let state_result = get_state(vec![IdentityUpdate::new(vec![action], "whatever".to_string(), 1)]);
    assert!(state_result.is_err());
    assert!(matches!(state_result, Err(AssociationError::MissingExistingMember)));
}

#[test]
fn reject_invalid_signature_on_update() {
    let with_bad_existing = add_action(
        address("0xstranger"),
        SignatureKind::Erc191,
        b"bad-existing",
        installation(b"install-x"),
        SignatureKind::InstallationKey,
        b"new",
    );
    let update_result = apply_update(
        new_test_inbox(),
        IdentityUpdate::new(vec![with_bad_existing], "inbox".to_string(), 2),
    );
    assert!(matches!(update_result, Err(AssociationError::MissingExistingMember)));

    let with_bad_new = Action::AddAssociation(AddAssociation {
        new_member_signature: VerifiedSignature::new(
            address("0xstranger"),
            SignatureKind::Erc191,
            b"bad-new".to_vec(),
        ),
        new_member_identifier: installation(b"install-x"),
        existing_member_signature: VerifiedSignature::new(
            address("0xwallet"),
            SignatureKind::Erc191,
            b"good-existing".to_vec(),
        ),
    });
    let update_result_2 = apply_update(
        new_test_inbox(),
        IdentityUpdate::new(vec![with_bad_new], "inbox".to_string(), 2),
    );
    assert!(matches!(update_result_2, Err(AssociationError::NewMemberIdSignatureMismatch)));
}

#[test]
fn reject_if_signer_not_existing_member() {
    let update = add_action(
        address("0xstranger"),
        SignatureKind::Erc191,
        b"s2",
        installation(b"install-x"),
        SignatureKind::InstallationKey,
        b"s3",
    );
    let state_result = get_state(vec![IdentityUpdate::new(
        vec![create_action("0xwallet", b"s1"), update],
        "inbox".to_string(),
        1,
    )]);
    assert!(matches!(state_result, Err(AssociationError::MissingExistingMember)));
}

#[test]
fn reject_if_installation_adding_installation() {
    let state = new_test_inbox_with_installation();
    let update = add_action(
        installation(b"install-x"),
        SignatureKind::InstallationKey,
        b"s-x",
        installation(b"install-y"),
        SignatureKind::InstallationKey,
        b"s-y",
    );
    let update_result = apply_update(state, IdentityUpdate::new(vec![update], "inbox".to_string(), 3));
    assert!(matches!(
        update_result,
        Err(AssociationError::MemberNotAllowed(MemberKind::Installation, MemberKind::Installation))
    ));
}

#[test]
fn revoke() {
    let state = new_test_inbox_with_installation();
    let update = Action::RevokeAssociation(RevokeAssociation {
        recovery_address_signature: VerifiedSignature::new(
            address("0xwallet"),
            SignatureKind::Erc191,
            b"revoke".to_vec(),
        ),
        revoked_member: installation(b"install-x"),
    });
    let new_state = apply_update(state, IdentityUpdate::new(vec![update], "inbox".to_string(), 3))
        .expect("expected update to succeed");
    assert!(new_state.get(&installation(b"install-x")).is_none());
    assert!(new_state.get(&address("0xwallet")).is_some());
}

#[test]
fn revoke_children() {
    let state = new_test_inbox_with_installation();
    let add_second = add_action(
        address("0xwallet"),
        SignatureKind::Erc191,
        b"add-y-existing",
        installation(b"install-y"),
        SignatureKind::InstallationKey,
        b"add-y-new",
    );
    let new_state = apply_update(state, IdentityUpdate::new(vec![add_second], "inbox".to_string(), 3))
        .expect("expected update to succeed");
    assert_eq!(new_state.members().len(), 3);

    let revocation = Action::RevokeAssociation(RevokeAssociation {
        recovery_address_signature: VerifiedSignature::new(
            address("0xwallet"),
            SignatureKind::Erc191,
            b"revoke-wallet".to_vec(),
        ),
        revoked_member: address("0xwallet"),
    });
    let new_state = apply_update(new_state, IdentityUpdate::new(vec![revocation], "inbox".to_string(), 4))
        .expect("expected update to succeed");
    assert_eq!(new_state.members().len(), 0);
}

#[test]
fn revoke_and_re_add() {
    let state = new_test_inbox();
    let add_second_wallet = add_action(
        address("0xwallet"),
        SignatureKind::Erc191,
        b"a1",
        address("0xsecond"),
        SignatureKind::Erc191,
        b"a2",
    );
    let revoke_second_wallet = Action::RevokeAssociation(RevokeAssociation {
        recovery_address_signature: VerifiedSignature::new(
            address("0xwallet"),
            SignatureKind::Erc191,
            b"r1".to_vec(),
        ),
        revoked_member: address("0xsecond"),
    });
    let state_after_remove = apply_update(
        state,
        IdentityUpdate::new(vec![add_second_wallet, revoke_second_wallet], "inbox".to_string(), 2),
    )
    .expect("expected update to succeed");
    assert_eq!(state_after_remove.members().len(), 1);

    let add_again = add_action(
        address("0xwallet"),
        SignatureKind::Erc191,
        b"a3",
        address("0xsecond"),
        SignatureKind::Erc191,
        b"a4",
    );
    let state_after_re_add = apply_update(
        state_after_remove,
        IdentityUpdate::new(vec![add_again], "inbox".to_string(), 3),
    )
    .expect("expected update to succeed");
    assert_eq!(state_after_re_add.members().len(), 2);
}

#[test]
fn change_recovery_address() {
    let state = new_test_inbox_with_installation();
    let update_recovery = Action::ChangeRecoveryAddress(ChangeRecoveryAddress {
        new_recovery_address: "0xnew-recovery".to_string(),
        recovery_address_signature: VerifiedSignature::new(
            address("0xwallet"),
            SignatureKind::Erc191,
            b"change".to_vec(),
        ),
    });
    let new_state = apply_update(state, IdentityUpdate::new(vec![update_recovery], "inbox".to_string(), 3))
        .expect("expected update to succeed");
    assert_eq!(new_state.recovery_address(), "0xnew-recovery");

    let attempted_revoke = Action::RevokeAssociation(RevokeAssociation {
        recovery_address_signature: VerifiedSignature::new(
            address("0xwallet"),
            SignatureKind::Erc191,
            b"revoke-by-old".to_vec(),
        ),
        revoked_member: address("0xwallet"),
    });
    let revoke_result = apply_update(
        new_state,
        IdentityUpdate::new(vec![attempted_revoke], "inbox".to_string(), 4),
    );
    assert!(revoke_result.is_err());
    assert!(matches!(revoke_result, Err(AssociationError::MissingExistingMember)));
}

#[test]
fn revoke_cascade() {
    // wallet W is the recovery address and has added the installations X and Y
    let wallet = address("0xwallet");
    let add = |key: &[u8], raw: &str| {
        add_action(
            address("0xwallet"),
            SignatureKind::Erc191,
            format!("{raw}-existing").as_bytes(),
            installation(key),
            SignatureKind::InstallationKey,
            format!("{raw}-new").as_bytes(),
        )
    };
    let state = get_state(vec![
        IdentityUpdate::new(vec![create_action("0xwallet", b"create")], "inbox".to_string(), 1),
        IdentityUpdate::new(vec![add(b"x", "x"), add(b"y", "y")], "inbox".to_string(), 2),
    ])
    .unwrap();
    assert_eq!(state.members().len(), 3);
    let revoke = Action::RevokeAssociation(RevokeAssociation {
        recovery_address_signature: VerifiedSignature::new(
            wallet.clone(),
            SignatureKind::Erc191,
            b"revoke".to_vec(),
        ),
        revoked_member: wallet,
    });
    let state = apply_update(state, IdentityUpdate::new(vec![revoke], "inbox".to_string(), 3)).unwrap();
    assert_eq!(state.members().len(), 0);
    assert_eq!(state.recovery_address(), "0xwallet");
}

#[test]
fn replayed_update_is_refused_whatever_else_it_holds() {
    let state = new_test_inbox_with_installation();
    // the signature of the creation is reused by an action that would fail for another reason too
    let update = add_action(
        address("0xstranger"),
        SignatureKind::Erc191,
        b"sig-create",
        installation(b"install-z"),
        SignatureKind::InstallationKey,
        b"fresh",
    );
    let result = apply_update(state, IdentityUpdate::new(vec![update], "inbox".to_string(), 9));
    assert!(matches!(result, Err(AssociationError::Replay)));
}

#[test]
fn update_for_another_inbox_is_refused() {
    let state = new_test_inbox();
    let update = add_action(
        address("0xwallet"),
        SignatureKind::Erc191,
        b"e",
        installation(b"install-z"),
        SignatureKind::InstallationKey,
        b"n",
    );
    let result = apply_update(state, IdentityUpdate::new(vec![update], "other".to_string(), 9));
    assert!(matches!(result, Err(AssociationError::WrongInboxId)));
}

#[test]
fn inbox_is_created_once_and_only_under_a_wallet_signature() {
    let twice = get_state(vec![
        IdentityUpdate::new(vec![create_action("0xwallet", b"s1")], "inbox".to_string(), 1),
        IdentityUpdate::new(vec![create_action("0xwallet", b"s2")], "inbox".to_string(), 2),
    ]);
    assert!(matches!(twice, Err(AssociationError::MultipleCreate)));
    let by_installation_key = Action::CreateInbox(CreateInbox {
        nonce: 1,
        account_address: "0xwallet".to_string(),
        initial_address_signature: VerifiedSignature::new(
            address("0xwallet"),
            SignatureKind::InstallationKey,
            b"s".to_vec(),
        ),
    });
    let result = get_state(vec![IdentityUpdate::new(vec![by_installation_key], "inbox".to_string(), 1)]);
    assert!(matches!(result, Err(AssociationError::SignatureVerification)));
    assert!(matches!(get_state(vec![]), Err(AssociationError::NotCreated)));
    let nothing = get_state(vec![IdentityUpdate::new(vec![], "inbox".to_string(), 1)]);
    assert!(matches!(nothing, Err(AssociationError::NotCreated)));
}

#[test]
fn get_state_is_apply_update_one_at_a_time() {
    let updates = || {
        vec![
            IdentityUpdate::new(vec![create_action("0xwallet", b"s1")], "inbox".to_string(), 1),
            IdentityUpdate::new(
                vec![add_action(
                    address("0xwallet"),
                    SignatureKind::Erc191,
                    b"s2",
                    installation(b"x"),
                    SignatureKind::InstallationKey,
                    b"s3",
                )],
                "inbox".to_string(),
                2,
            ),
            IdentityUpdate::new(
                vec![add_action(
                    installation(b"x"),
                    SignatureKind::InstallationKey,
                    b"s4",
                    address("0xsecond"),
                    SignatureKind::Erc191,
                    b"s5",
                )],
                "inbox".to_string(),
                3,
            ),
        ]
    };
    let all_at_once = get_state(updates()).unwrap();
    let mut log = updates();
    let mut state = get_state(vec![log.remove(0)]).unwrap();
    for update in log {
        state = apply_update(state, update).unwrap();
    }
    assert_eq!(state.members(), all_at_once.members());
    assert_eq!(state.recovery_address(), all_at_once.recovery_address());
    assert_eq!(state.inbox_id(), all_at_once.inbox_id());
    for raw in [b"s1", b"s2", b"s3", b"s4", b"s5"] {
        assert!(state.has_seen(&raw.to_vec()));
        assert!(all_at_once.has_seen(&raw.to_vec()));
    }
}
