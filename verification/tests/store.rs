use xmtp_core::storage::errors::{
    AddMembersError, ConnectionError, CreateCommitError, KeyPackageNewError, NewGroupError,
    RemoveMembersError, SelfUpdateError, StorageError, WelcomeError,
};
use xmtp_core::storage::group::{GroupMembershipState, Purpose, StoredGroup};
use xmtp_core::storage::group_intent::{
    IntentEvent, IntentKind, IntentState, NewGroupIntent, StoredGroupIntent,
};
use xmtp_core::storage::group_message::{DeliveryStatus, GroupMessageKind, StoredGroupMessage};
use xmtp_core::storage::identity_update::StoredIdentityUpdate;
use xmtp_core::storage::refresh_state::EntityKind;
use xmtp_core::storage::store::EncryptedMessageStore;

fn message(id: u8, group: u8, sent_at_ns: i64, kind: GroupMessageKind) -> StoredGroupMessage {
    StoredGroupMessage {
        id: vec![id],
        group_id: vec![group],
        decrypted_message_bytes: vec![id, id],
        sent_at_ns,
        kind,
        sender_installation_id: vec![9],
        sender_inbox_id: "inbox-a".to_string(),
        delivery_status: DeliveryStatus::Unpublished,
    }
}

#[test]
fn cursor_of_unknown_stream_is_zero() {
    let store = EncryptedMessageStore::new();
    assert_eq!(store.get_last_cursor_for_id(&vec![1], EntityKind::Group), 0);
}

#[test]
fn cursor_moves_forward_only() {
    let mut store = EncryptedMessageStore::new();
    assert!(store.update_cursor(&vec![1], EntityKind::Group, 5));
    assert_eq!(store.get_last_cursor_for_id(&vec![1], EntityKind::Group), 5);
    assert!(!store.update_cursor(&vec![1], EntityKind::Group, 5));
    assert!(!store.update_cursor(&vec![1], EntityKind::Group, 3));
    assert_eq!(store.get_last_cursor_for_id(&vec![1], EntityKind::Group), 5);
    assert!(store.update_cursor(&vec![1], EntityKind::Group, 6));
    assert_eq!(store.get_last_cursor_for_id(&vec![1], EntityKind::Group), 6);
}

#[test]
fn cursor_zero_is_never_an_update() {
    let mut store = EncryptedMessageStore::new();
    assert!(!store.update_cursor(&vec![1], EntityKind::Welcome, 0));
    assert_eq!(store.get_last_cursor_for_id(&vec![1], EntityKind::Welcome), 0);
}

#[test]
fn cursors_of_streams_are_apart() {
    let mut store = EncryptedMessageStore::new();
    assert!(store.update_cursor(&vec![1], EntityKind::Group, 5));
    assert!(store.update_cursor(&vec![1], EntityKind::Welcome, 2));
    assert!(store.update_cursor(&vec![2], EntityKind::Group, 9));
    assert!(store.update_cursor(&vec![1], EntityKind::Group, 7));
    assert_eq!(store.get_last_cursor_for_id(&vec![1], EntityKind::Group), 7);
    assert_eq!(store.get_last_cursor_for_id(&vec![1], EntityKind::Welcome), 2);
    assert_eq!(store.get_last_cursor_for_id(&vec![2], EntityKind::Group), 9);
    assert_eq!(store.get_last_cursor_for_id(&vec![1], EntityKind::IdentityUpdate), 0);
}

#[test]
fn group_row_is_stored_once() {
    let mut store = EncryptedMessageStore::new();
    let row = StoredGroup::new(vec![1], 10, GroupMembershipState::Pending, "inbox-a".to_string());
    assert_eq!(store.insert_group(row.clone()), Ok(()));
    assert!(matches!(store.insert_group(row.clone()), Err(StorageError::DieselResult(_))));
    assert_eq!(store.find_group(&vec![1]), Some(row));
    assert_eq!(store.find_group(&vec![2]), None);
}

#[test]
fn insert_or_ignore_keeps_the_first_row() {
    let mut store = EncryptedMessageStore::new();
    let first = StoredGroup::new(vec![1], 10, GroupMembershipState::Pending, "inbox-a".to_string());
    let second = StoredGroup::new(vec![1], 99, GroupMembershipState::Allowed, "inbox-z".to_string());
    assert_eq!(store.insert_or_ignore_group(first.clone()), first);
    assert_eq!(store.insert_or_ignore_group(second), first);
    assert_eq!(store.find_groups(None, None, None, None).len(), 1);
}

#[test]
fn sync_group_row_has_its_purpose() {
    let row = StoredGroup::new_sync_group(vec![1], 10, GroupMembershipState::Allowed);
    assert_eq!(row.purpose, Purpose::Sync);
    assert_eq!(row.added_by_inbox_id, "");
    assert_eq!(row.installations_last_checked, 0);
    let row = StoredGroup::new(vec![1], 10, GroupMembershipState::Allowed, "a".to_string());
    assert_eq!(row.purpose, Purpose::Conversation);
}

#[test]
fn find_groups_filters_and_limits() {
    let mut store = EncryptedMessageStore::new();
    for (id, at, state) in [
        (1u8, 10i64, GroupMembershipState::Allowed),
        (2, 20, GroupMembershipState::Pending),
        (3, 30, GroupMembershipState::Allowed),
        (4, 40, GroupMembershipState::Rejected),
    ] {
        store
            .insert_group(StoredGroup::new(vec![id], at, state, "inbox-a".to_string()))
            .unwrap();
    }
    let ids = |rows: Vec<StoredGroup>| rows.into_iter().map(|g| g.id[0]).collect::<Vec<u8>>();
    assert_eq!(ids(store.find_groups(None, None, None, None)), vec![1, 2, 3, 4]);
    assert_eq!(
        ids(store.find_groups(Some(vec![GroupMembershipState::Allowed]), None, None, None)),
        vec![1, 3]
    );
    assert_eq!(ids(store.find_groups(None, Some(10), None, None)), vec![2, 3, 4]);
    assert_eq!(ids(store.find_groups(None, None, Some(30), None)), vec![1, 2]);
    assert_eq!(ids(store.find_groups(None, Some(10), Some(40), Some(1))), vec![2]);
    assert_eq!(ids(store.find_groups(None, None, None, Some(0))), Vec::<u8>::new());
    assert_eq!(ids(store.find_groups(None, None, None, Some(-1))), vec![1, 2, 3, 4]);
    assert_eq!(ids(store.find_groups(None, None, None, Some(100))), vec![1, 2, 3, 4]);
    assert_eq!(ids(store.find_groups(Some(vec![]), None, None, None)), Vec::<u8>::new());
}

#[test]
fn intents_are_numbered_in_order() {
    let mut store = EncryptedMessageStore::new();
    let a = store
        .insert_group_intent(NewGroupIntent::new(IntentKind::SendMessage, vec![1], vec![7]))
        .unwrap();
    let b = store
        .insert_group_intent(NewGroupIntent::new(IntentKind::KeyUpdate, vec![2], vec![]))
        .unwrap();
    assert_eq!(a.id, 1);
    assert_eq!(b.id, 2);
    assert_eq!(a.state, IntentState::ToPublish);
    assert_eq!(a.publish_attempts, 0);
    assert_eq!(a.payload_hash, None);
    assert_eq!(a.data, vec![7]);
    assert_eq!(store.find_group_intent(2), Some(b));
    assert_eq!(store.find_group_intent(3), None);
}

#[test]
fn find_group_intents_is_first_come_first() {
    let mut store = EncryptedMessageStore::new();
    for (group, kind) in [
        (1u8, IntentKind::SendMessage),
        (2, IntentKind::SendMessage),
        (1, IntentKind::AddMembers),
        (1, IntentKind::KeyUpdate),
    ] {
        store.insert_group_intent(NewGroupIntent::new(kind, vec![group], vec![])).unwrap();
    }
    store.set_group_intent_published(3, vec![0xAA], None).unwrap();
    let ids = |rows: Vec<StoredGroupIntent>| rows.into_iter().map(|i| i.id).collect::<Vec<i32>>();
    assert_eq!(ids(store.find_group_intents(&vec![1], None, None)), vec![1, 3, 4]);
    assert_eq!(
        ids(store.find_group_intents(&vec![1], Some(vec![IntentState::ToPublish]), None)),
        vec![1, 4]
    );
    assert_eq!(
        ids(store.find_group_intents(
            &vec![1],
            Some(vec![IntentState::ToPublish, IntentState::Published]),
            Some(vec![IntentKind::AddMembers, IntentKind::KeyUpdate])
        )),
        vec![3, 4]
    );
    assert_eq!(ids(store.find_group_intents(&vec![9], None, None)), Vec::<i32>::new());
}

#[test]
fn intent_goes_from_to_publish_to_committed() {
    let mut store = EncryptedMessageStore::new();
    store.insert_group_intent(NewGroupIntent::new(IntentKind::AddMembers, vec![1], vec![])).unwrap();
    assert_eq!(store.set_group_intent_committed(1), Err(StorageError::NotFound));
    let published = store.set_group_intent_published(1, vec![0xAB], Some(vec![1, 2])).unwrap();
    assert_eq!(published.state, IntentState::Published);
    assert_eq!(published.payload_hash, Some(vec![0xAB]));
    assert_eq!(published.post_commit_data, Some(vec![1, 2]));
    assert_eq!(store.set_group_intent_published(1, vec![0xCD], None), Err(StorageError::NotFound));
    assert_eq!(store.find_group_intent_by_payload_hash(&vec![0xAB]).unwrap().id, 1);
    assert_eq!(store.find_group_intent_by_payload_hash(&vec![0xCD]), None);
    let committed = store.set_group_intent_committed(1).unwrap();
    assert_eq!(committed.state, IntentState::Committed);
    assert_eq!(store.set_group_intent_error(1), Err(StorageError::NotFound));
    assert_eq!(store.set_group_intent_to_publish(1), Err(StorageError::NotFound));
    assert_eq!(store.find_group_intent(1).unwrap().state, IntentState::Committed);
}

#[test]
fn intent_is_republished_until_its_attempts_are_used_up() {
    let mut store = EncryptedMessageStore::new();
    store.insert_group_intent(NewGroupIntent::new(IntentKind::AddMembers, vec![1], vec![])).unwrap();
    for attempt in 1..5 {
        store.set_group_intent_published(1, vec![attempt as u8], Some(vec![1])).unwrap();
        let back = store.set_group_intent_to_publish(1).unwrap();
        assert_eq!(back.state, IntentState::ToPublish);
        assert_eq!(back.publish_attempts, attempt);
        assert_eq!(back.payload_hash, None);
        assert_eq!(back.post_commit_data, None);
    }
    store.set_group_intent_published(1, vec![9], None).unwrap();
    let failed = store.set_group_intent_to_publish(1).unwrap();
    assert_eq!(failed.state, IntentState::Error);
    assert_eq!(failed.publish_attempts, 5);
    assert_eq!(store.set_group_intent_published(1, vec![10], None), Err(StorageError::NotFound));
}

#[test]
fn intent_can_fail_before_and_after_publishing() {
    let mut store = EncryptedMessageStore::new();
    store.insert_group_intent(NewGroupIntent::new(IntentKind::AddMembers, vec![1], vec![])).unwrap();
    store.insert_group_intent(NewGroupIntent::new(IntentKind::AddMembers, vec![1], vec![])).unwrap();
    assert_eq!(store.set_group_intent_error(1).unwrap().state, IntentState::Error);
    store.set_group_intent_published(2, vec![1], None).unwrap();
    assert_eq!(store.set_group_intent_error(2).unwrap().state, IntentState::Error);
    assert_eq!(store.set_group_intent_error(3), Err(StorageError::NotFound));
}

#[test]
fn intent_whose_change_is_in_effect_is_committed_at_once() {
    let mut store = EncryptedMessageStore::new();
    store.insert_group_intent(NewGroupIntent::new(IntentKind::AddMembers, vec![1], vec![])).unwrap();
    let settled = store.apply_intent_event(1, IntentEvent::AlreadyInEffect).unwrap();
    assert_eq!(settled.state, IntentState::Committed);
    assert_eq!(store.apply_intent_event(1, IntentEvent::AlreadyInEffect), Err(StorageError::NotFound));
}

#[test]
fn republish_touches_only_published_intents_of_the_group() {
    let mut store = EncryptedMessageStore::new();
    for group in [1u8, 1, 2, 1] {
        store
            .insert_group_intent(NewGroupIntent::new(IntentKind::AddMembers, vec![group], vec![]))
            .unwrap();
    }
    store.set_group_intent_published(1, vec![1], None).unwrap();
    store.set_group_intent_published(3, vec![3], None).unwrap();
    store.set_group_intent_published(4, vec![4], None).unwrap();
    store.set_group_intent_committed(4).unwrap();
    store.republish_published_intents(&vec![1]);
    assert_eq!(store.find_group_intent(1).unwrap().state, IntentState::ToPublish);
    assert_eq!(store.find_group_intent(1).unwrap().publish_attempts, 1);
    assert_eq!(store.find_group_intent(2).unwrap().state, IntentState::ToPublish);
    assert_eq!(store.find_group_intent(2).unwrap().publish_attempts, 0);
    assert_eq!(store.find_group_intent(3).unwrap().state, IntentState::Published);
    assert_eq!(store.find_group_intent(4).unwrap().state, IntentState::Committed);
}

#[test]
fn messages_are_stored_once_and_found_by_filters() {
    let mut store = EncryptedMessageStore::new();
    store.insert_group_message(message(1, 1, 10, GroupMessageKind::Application)).unwrap();
    store.insert_group_message(message(2, 1, 20, GroupMessageKind::MembershipChange)).unwrap();
    store.insert_group_message(message(3, 2, 30, GroupMessageKind::Application)).unwrap();
    store.insert_group_message(message(4, 1, 40, GroupMessageKind::Application)).unwrap();
    assert!(matches!(
        store.insert_group_message(message(1, 1, 10, GroupMessageKind::Application)),
        Err(StorageError::DieselResult(_))
    ));
    let ids =
        |rows: Vec<StoredGroupMessage>| rows.into_iter().map(|m| m.id[0]).collect::<Vec<u8>>();
    assert_eq!(ids(store.get_group_messages(&vec![1], None, None, None, None, None)), vec![1, 2, 4]);
    assert_eq!(
        ids(store.get_group_messages(
            &vec![1],
            None,
            None,
            Some(GroupMessageKind::Application),
            None,
            None
        )),
        vec![1, 4]
    );
    assert_eq!(
        ids(store.get_group_messages(&vec![1], Some(10), Some(40), None, None, None)),
        vec![2]
    );
    assert_eq!(ids(store.get_group_messages(&vec![1], None, None, None, None, Some(2))), vec![1, 2]);
    assert!(store.set_delivery_status_to_published(&vec![4], 44));
    assert!(!store.set_delivery_status_to_published(&vec![9], 44));
    assert_eq!(
        ids(store.get_group_messages(
            &vec![1],
            None,
            None,
            None,
            Some(DeliveryStatus::Published),
            None
        )),
        vec![4]
    );
    let row = store.get_group_message(&vec![4]).unwrap();
    assert_eq!(row.sent_at_ns, 44);
    assert_eq!(row.delivery_status, DeliveryStatus::Published);
    assert_eq!(store.get_group_message(&vec![9]), None);
}

#[test]
fn latest_sequence_id_is_the_highest_of_the_inbox() {
    let mut store = EncryptedMessageStore::new();
    assert_eq!(store.get_latest_sequence_id(&"inbox-a".to_string()), 0);
    store.insert_identity_update(StoredIdentityUpdate::new("inbox-a".to_string(), 3, 1, vec![]));
    store.insert_identity_update(StoredIdentityUpdate::new("inbox-b".to_string(), 9, 2, vec![]));
    store.insert_identity_update(StoredIdentityUpdate::new("inbox-a".to_string(), 2, 3, vec![]));
    store.insert_identity_update(StoredIdentityUpdate::new("inbox-c".to_string(), -5, 3, vec![]));
    assert_eq!(store.get_latest_sequence_id(&"inbox-a".to_string()), 3);
    assert_eq!(store.get_latest_sequence_id(&"inbox-b".to_string()), 9);
    assert_eq!(store.get_latest_sequence_id(&"inbox-c".to_string()), 0);
}

#[test]
fn storage_errors_that_are_worth_another_attempt() {
    assert!(StorageError::Pool("exhausted".to_string()).is_retryable());
    assert!(StorageError::DieselConnect(ConnectionError::BadConnection("x".to_string()))
        .is_retryable());
    assert!(!StorageError::DieselConnect(ConnectionError::InvalidConnectionUrl("x".to_string()))
        .is_retryable());
    assert!(!StorageError::DieselResult("x".to_string()).is_retryable());
    assert!(!StorageError::DbInit("wrong key".to_string()).is_retryable());
    assert!(!StorageError::NotFound.is_retryable());
    assert!(!StorageError::Lock("poisoned".to_string()).is_retryable());
}

#[test]
fn mls_errors_are_retryable_as_what_is_beneath() {
    let pool = || StorageError::Pool("p".to_string());
    assert!(KeyPackageNewError::StorageError.is_retryable());
    assert!(!KeyPackageNewError::Other.is_retryable());
    assert!(CreateCommitError::KeyStoreError(pool()).is_retryable());
    assert!(!CreateCommitError::KeyStoreError(StorageError::NotFound).is_retryable());
    assert!(CreateCommitError::KeyPackageGenerationError(KeyPackageNewError::StorageError)
        .is_retryable());
    assert!(!CreateCommitError::Other.is_retryable());
    assert!(AddMembersError::CreateCommitError(CreateCommitError::KeyStoreError(pool()))
        .is_retryable());
    assert!(!AddMembersError::Other.is_retryable());
    assert!(RemoveMembersError::CreateCommitError(CreateCommitError::KeyStoreError(pool()))
        .is_retryable());
    assert!(!RemoveMembersError::Other.is_retryable());
    assert!(NewGroupError::StorageError(pool()).is_retryable());
    assert!(!NewGroupError::Other.is_retryable());
    assert!(SelfUpdateError::StorageError(pool()).is_retryable());
    assert!(SelfUpdateError::CreateCommitError(CreateCommitError::KeyStoreError(pool()))
        .is_retryable());
    assert!(!SelfUpdateError::Other.is_retryable());
    assert!(WelcomeError::StorageError(pool()).is_retryable());
    assert!(!WelcomeError::Other.is_retryable());
}

#[test]
fn storage_error_messages() {
    assert_eq!(StorageError::NotFound.message(), "not found");
    assert_eq!(StorageError::Pool("p".to_string()).message(), "Pool error");
    assert_eq!(
        StorageError::DbInit("k".to_string()).message(),
        "Either incorrect encryptionkey or file is not a db"
    );
}
