use xmtp_core::associations::association_log::{
    Action, AddAssociation, CreateInbox, IdentityUpdate,
};
use xmtp_core::associations::get_state;
use xmtp_core::associations::member::MemberIdentifier;
use xmtp_core::associations::signature::{SignatureKind, VerifiedSignature};
use xmtp_core::associations::state::AssociationState;
use xmtp_core::client::{Client, ClientError};
use xmtp_core::groups::commit::CommitContent;
use xmtp_core::groups::errors::{
    CommitValidationError, GroupError, GroupMetadataError, MessageProcessingError,
};
use xmtp_core::groups::extensions::Extensions;
use xmtp_core::groups::group_mutable_metadata::GroupMutableMetadataError;
use xmtp_core::groups::state::GroupState;
use xmtp_core::groups::group_permissions::{GroupMutablePermissionsError, PreconfiguredPolicies};
use xmtp_core::groups::intents::AdminListActionType;
use xmtp_core::groups::publish::{message_id_preimage, PublishPlan, SyncStep};
use xmtp_core::groups::sync::{
    InboundApplication, InboundBody, InboundCommit, InboundEnvelope, MergedCommit, Processed,
};
use xmtp_core::groups::welcome::{DecryptedWelcome, WelcomeEnvelope};
use xmtp_core::groups::MlsGroup;
use xmtp_core::identity::{Identity, IdentityError};
use xmtp_core::proto::plaintext::PlaintextEnvelope;
use xmtp_core::storage::errors::StorageError;
use xmtp_core::storage::group::GroupMembershipState;
use xmtp_core::storage::group_intent::IntentState;
use xmtp_core::storage::group_message::{DeliveryStatus, GroupMessageKind};
use xmtp_core::storage::refresh_state::EntityKind;
use xmtp_core::storage::store::EncryptedMessageStore;

const GROUP: u8 = 0x61;

fn inbox(name: &str) -> String {
    format!("inbox-{name}")
}

fn installation_key(name: &str) -> Vec<u8> {
    vec![name.as_bytes()[0]; 32]
}

fn client(name: &str) -> Client {
    Client::new(
        Identity::new(inbox(name), format!("0x{name}"), installation_key(name), None),
        EncryptedMessageStore::new(),
    )
}

fn association_state(name: &str) -> AssociationState {
    let wallet = MemberIdentifier::Address(format!("0x{name}"));
    let installation = MemberIdentifier::Installation(installation_key(name));
    let create = Action::CreateInbox(CreateInbox {
        nonce: 1,
        account_address: format!("0x{name}"),
        initial_address_signature: VerifiedSignature::new(
            wallet.clone(),
            SignatureKind::Erc191,
            format!("create-{name}").into_bytes(),
        ),
    });
    let add = Action::AddAssociation(AddAssociation {
        new_member_signature: VerifiedSignature::new(
            installation.clone(),
            SignatureKind::InstallationKey,
            format!("new-{name}").into_bytes(),
        ),
        new_member_identifier: installation,
        existing_member_signature: VerifiedSignature::new(
            wallet,
            SignatureKind::Erc191,
            format!("existing-{name}").into_bytes(),
        ),
    });
    get_state(vec![IdentityUpdate::new(vec![create, add], inbox(name), 1)]).unwrap()
}

/// Stands for the hash that names messages: any function of the bytes does.
fn digest(bytes: &[u8]) -> Vec<u8> {
    let mut a: u64 = 1469598103934665603;
    for b in bytes {
        a ^= *b as u64;
        a = a.wrapping_mul(1099511628211);
    }
    a.to_be_bytes().to_vec()
}

fn copy_content(content: &CommitContent) -> CommitContent {
    match content {
        CommitContent::AddMembers { inbox_ids } => {
            CommitContent::AddMembers { inbox_ids: inbox_ids.clone() }
        }
        CommitContent::RemoveMembers { inbox_ids } => {
            CommitContent::RemoveMembers { inbox_ids: inbox_ids.clone() }
        }
        CommitContent::UpdateMetadata { field_name, field_value } => CommitContent::UpdateMetadata {
            field_name: field_name.clone(),
            field_value: field_value.clone(),
        },
        CommitContent::UpdateAdminList { action_type, inbox_id } => {
            CommitContent::UpdateAdminList { action_type: *action_type, inbox_id: inbox_id.clone() }
        }
        CommitContent::AddInstallations { installation_ids } => {
            CommitContent::AddInstallations { installation_ids: installation_ids.clone() }
        }
        CommitContent::RemoveInstallations { installation_ids } => {
            CommitContent::RemoveInstallations { installation_ids: installation_ids.clone() }
        }
        CommitContent::KeyUpdate => CommitContent::KeyUpdate,
    }
}

enum Sent {
    Commit { epoch: u64, content: CommitContent },
    Message { envelope: Vec<u8> },
}

/// One envelope on the stream of the group, as the server keeps it.
struct Wire {
    id: u64,
    sender: String,
    hash: Vec<u8>,
    sent: Sent,
}

/// The stream of one group.
struct Server {
    stream: Vec<Wire>,
}

impl Server {
    fn new() -> Server {
        Server { stream: Vec::new() }
    }

    fn append(&mut self, sender: &str, hash: Vec<u8>, sent: Sent) -> u64 {
        let id = self.stream.len() as u64 + 1;
        self.stream.push(Wire { id, sender: sender.to_string(), hash, sent });
        id
    }
}

fn envelope_of(wire: &Wire) -> InboundEnvelope {
    let body = match &wire.sent {
        Sent::Commit { epoch, content } => InboundBody::Commit(InboundCommit {
            actor_inbox_id: inbox(&wire.sender),
            epoch: *epoch,
            payload_hash: wire.hash.clone(),
            content: copy_content(content),
            actor_installation_id: installation_key(&wire.sender),
            message_id: digest(&wire.hash),
        }),
        Sent::Message { envelope } => {
            let opened = PlaintextEnvelope::decode(envelope).unwrap();
            InboundBody::Application(InboundApplication {
                sender_inbox_id: inbox(&wire.sender),
                sender_installation_id: installation_key(&wire.sender),
                message_id: digest(&message_id_preimage(
                    &vec![GROUP],
                    &opened.content,
                    &inbox(&wire.sender),
                    &opened.idempotency_key,
                )),
                payload_hash: wire.hash.clone(),
                envelope: envelope.clone(),
            })
        }
    };
    InboundEnvelope { id: wire.id, created_ns: 1000 + wire.id, body }
}

/// Plans the next intent of the peer and puts what is to be sent on the
/// stream. Gives the number of the envelope, if one was sent.
fn publish_next(
    name: &str,
    peer: &mut Client,
    group: &MlsGroup,
    server: &mut Server,
) -> Result<Option<u64>, GroupError> {
    match group.plan_next_publish(&mut peer.context)? {
        PublishPlan::Nothing => Ok(None),
        PublishPlan::Settled { .. } => Ok(None),
        PublishPlan::Commit { intent_id, epoch, content } => {
            let hash = format!("{name}-commit-{intent_id}-{epoch}").into_bytes();
            group
                .record_published(&mut peer.context, intent_id, hash.clone(), Some(b"welcomes".to_vec()))
                .unwrap();
            Ok(Some(server.append(name, hash, Sent::Commit { epoch, content })))
        }
        PublishPlan::Message { intent_id, envelope } => {
            let hash = format!("{name}-message-{intent_id}").into_bytes();
            group.record_published(&mut peer.context, intent_id, hash.clone(), None).unwrap();
            Ok(Some(server.append(name, hash, Sent::Message { envelope })))
        }
    }
}

/// Pulls the stream of the group past the peer's cursor and processes it.
fn sync(peer: &mut Client, group: &MlsGroup, server: &Server) -> Vec<MessageProcessingError> {
    let cursor = peer.context.store.get_last_cursor_for_id(&group.group_id, EntityKind::Group);
    let mut errors = Vec::new();
    for wire in server.stream.iter().filter(|w| w.id > cursor) {
        if let Err(e) = group.process_envelope(&mut peer.context, &envelope_of(wire)) {
            errors.push(e);
        }
    }
    errors
}

/// Hands the group to a peer as a welcome from `from`.
fn welcome(
    from_name: &str,
    from: &Client,
    group: &MlsGroup,
    to: &mut Client,
    welcome_id: u64,
) -> Result<MlsGroup, MessageProcessingError> {
    let state = group.load_mls_group(&from.context).unwrap();
    let envelope = WelcomeEnvelope {
        id: welcome_id,
        created_ns: 500,
        welcome: Some(DecryptedWelcome {
            group: state,
            sender_credential_identity: inbox(from_name).into_bytes(),
            sender_signature_key: installation_key(from_name),
        }),
    };
    to.process_welcome(envelope, &association_state(from_name), 2000)
}

/// A creates the group and adds B; both are in sync afterwards.
fn group_of_two(policies: Option<PreconfiguredPolicies>) -> (Client, Client, MlsGroup, MlsGroup, Server) {
    let mut a = client("a");
    let mut b = client("b");
    let mut server = Server::new();
    let group = a.create_group(policies, vec![GROUP], 100).unwrap();
    group.add_members(&mut a.context, vec![inbox("b")]).unwrap();
    publish_next("a", &mut a, &group, &mut server).unwrap();
    assert!(sync(&mut a, &group, &server).is_empty());
    let b_group = welcome("a", &a, &group, &mut b, 1).unwrap();
    sync(&mut b, &b_group, &server);
    (a, b, group, b_group, server)
}

fn send(name: &str, peer: &mut Client, group: &MlsGroup, server: &mut Server, text: &[u8], now: i64) {
    let key = now.to_string().into_bytes();
    let id = digest(&message_id_preimage(&group.group_id, &text.to_vec(), &inbox(name), &key));
    assert_eq!(group.send_message(&mut peer.context, &text.to_vec(), now, id.clone()), Ok(id));
    publish_next(name, peer, group, server).unwrap();
}

#[test]
fn test_find_groups() {
    let mut a = client("a");
    let group_1 = a.create_group(None, vec![1], 10).unwrap();
    let group_2 = a.create_group(None, vec![2], 20).unwrap();
    let groups = a.find_groups(None, None, None, None).unwrap();
    assert_eq!(groups.len(), 2);
    assert_eq!(groups[0].group_id, group_1.group_id);
    assert_eq!(groups[1].group_id, group_2.group_id);
    assert_eq!(a.group(vec![2]).unwrap(), group_2);
    assert_eq!(a.group(vec![3]), Err(ClientError::Storage(StorageError::NotFound)));
}

#[test]
fn create_group_twice_under_one_id_is_refused() {
    let mut a = client("a");
    a.create_group(None, vec![1], 10).unwrap();
    assert!(matches!(a.create_group(None, vec![1], 20), Err(ClientError::Storage(_))));
    assert_eq!(a.find_groups(None, None, None, None).unwrap().len(), 1);
}

#[test]
fn new_group_has_its_creator_and_the_default_name() {
    let mut a = client("a");
    let group = a.create_group(None, vec![GROUP], 100).unwrap();
    assert_eq!(group.created_at_ns, 100);
    assert_eq!(group.group_name(&a.context), Ok("New Group".to_string()));
    assert_eq!(group.admin_list(&a.context), Ok(vec![inbox("a")]));
    assert_eq!(group.super_admin_list(&a.context), Ok(vec![inbox("a")]));
    assert_eq!(group.added_by_address(&a.context), Ok(inbox("a")));
    assert_eq!(group.is_active(&a.context), Ok(true));
    assert_eq!(group.count_members(&a.context), Ok(1));
    let metadata = group.mutable_metadata(&a.context).unwrap();
    assert_eq!(metadata.attributes.len(), 2);
    assert_eq!(
        metadata.attributes.get(&"description".to_string()),
        Some(&"New Group Description".to_string())
    );
    assert_eq!(group.metadata(&a.context).unwrap().creator_inbox_id, inbox("a"));
    assert_eq!(
        group.permissions(&a.context).unwrap().policies,
        PreconfiguredPolicies::AllMembers.to_policy_set()
    );
    let state = group.load_mls_group(&a.context).unwrap();
    assert_eq!(state.epoch, 0);
    let stored = a.context.store.find_group(&vec![GROUP]).unwrap();
    assert_eq!(stored.membership_state, GroupMembershipState::Allowed);
}

#[test]
fn group_that_is_not_stored_is_not_found() {
    let a = client("a");
    let group = MlsGroup::new(vec![9], 1);
    assert_eq!(group.group_name(&a.context), Err(GroupError::GroupNotFound));
    assert_eq!(group.is_active(&a.context), Err(GroupError::GroupNotFound));
    assert_eq!(group.added_by_address(&a.context), Err(GroupError::GroupNotFound));
    assert_eq!(group.count_members(&a.context), Err(GroupError::GroupNotFound));
    assert_eq!(group.find_messages(&a.context, None, None, None, None, None), Ok(vec![]));
}

#[test]
fn sync_group_is_allowed_from_the_start() {
    let mut a = client("a");
    let group = a.create_sync_group(vec![7], 10).unwrap();
    let stored = a.context.store.find_group(&vec![7]).unwrap();
    assert_eq!(stored.membership_state, GroupMembershipState::Allowed);
    assert_eq!(stored.added_by_inbox_id, "");
    assert_eq!(group.count_members(&a.context), Ok(1));
    assert!(matches!(a.create_sync_group(vec![7], 11), Err(StorageError::Store(_))));
}

#[test]
fn test_send_message() {
    let mut a = client("a");
    let mut server = Server::new();
    let group = a.create_group(None, vec![GROUP], 100).unwrap();
    send("a", &mut a, &group, &mut server, b"hello", 7);
    assert_eq!(server.stream.len(), 1);
    let stored = group.find_messages(&a.context, None, None, None, None, None).unwrap();
    assert_eq!(stored.len(), 1);
    assert_eq!(stored[0].delivery_status, DeliveryStatus::Unpublished);
    assert_eq!(stored[0].sent_at_ns, 7);
    assert_eq!(stored[0].sender_inbox_id, inbox("a"));
    assert_eq!(stored[0].sender_installation_id, installation_key("a"));
    match &server.stream[0].sent {
        Sent::Message { envelope } => {
            let opened = PlaintextEnvelope::decode(envelope).unwrap();
            assert_eq!(opened.content, b"hello".to_vec());
            assert_eq!(opened.idempotency_key, b"7".to_vec());
        }
        _ => panic!("expected a message"),
    }
}

#[test]
fn send_message_under_a_taken_id_is_refused() {
    let mut a = client("a");
    let group = a.create_group(None, vec![GROUP], 100).unwrap();
    assert_eq!(group.send_message(&mut a.context, &b"x".to_vec(), 7, vec![1]), Ok(vec![1]));
    assert!(matches!(
        group.send_message(&mut a.context, &b"y".to_vec(), 8, vec![1]),
        Err(GroupError::Storage(_))
    ));
    assert_eq!(a.context.store.find_group_intents(&vec![GROUP], None, None).len(), 1);
}

#[test]
fn test_receive_self_message() {
    let mut a = client("a");
    let mut server = Server::new();
    let group = a.create_group(None, vec![GROUP], 100).unwrap();
    send("a", &mut a, &group, &mut server, b"hello", 7);
    assert!(sync(&mut a, &group, &server).is_empty());
    let messages = group.find_messages(&a.context, None, None, None, None, None).unwrap();
    assert_eq!(messages.len(), 1);
    assert_eq!(messages[0].decrypted_message_bytes, b"hello".to_vec());
    assert_eq!(messages[0].delivery_status, DeliveryStatus::Published);
    assert_eq!(messages[0].sent_at_ns, 1001);
    assert_eq!(a.context.store.find_group_intent(1).unwrap().state, IntentState::Committed);
}

#[test]
fn envelope_is_processed_once() {
    let mut a = client("a");
    let mut server = Server::new();
    let group = a.create_group(None, vec![GROUP], 100).unwrap();
    send("a", &mut a, &group, &mut server, b"hello", 7);
    let envelope = envelope_of(&server.stream[0]);
    assert_eq!(group.process_envelope(&mut a.context, &envelope), Ok(Processed::Application));
    assert_eq!(
        group.process_envelope(&mut a.context, &envelope),
        Err(MessageProcessingError::AlreadyProcessed(1))
    );
    assert_eq!(group.find_messages(&a.context, None, None, None, None, None).unwrap().len(), 1);
    assert_eq!(a.context.store.get_last_cursor_for_id(&vec![GROUP], EntityKind::Group), 1);
}

#[test]
fn envelope_that_cannot_be_read_moves_the_cursor() {
    let mut a = client("a");
    let group = a.create_group(None, vec![GROUP], 100).unwrap();
    let envelope = InboundEnvelope {
        id: 4,
        created_ns: 1,
        body: InboundBody::Application(InboundApplication {
            sender_inbox_id: inbox("b"),
            sender_installation_id: installation_key("b"),
            message_id: vec![1],
            payload_hash: vec![2],
            envelope: vec![0xFF],
        }),
    };
    assert_eq!(
        group.process_envelope(&mut a.context, &envelope),
        Err(MessageProcessingError::InvalidPayload)
    );
    assert_eq!(a.context.store.get_last_cursor_for_id(&vec![GROUP], EntityKind::Group), 4);
    assert_eq!(group.find_messages(&a.context, None, None, None, None, None).unwrap().len(), 0);
}

#[test]
fn envelope_of_a_group_that_is_not_stored_is_not_found() {
    let mut a = client("a");
    let group = MlsGroup::new(vec![9], 1);
    let envelope = InboundEnvelope {
        id: 1,
        created_ns: 1,
        body: InboundBody::Commit(InboundCommit {
            actor_inbox_id: inbox("b"),
            epoch: 0,
            payload_hash: vec![1],
            content: CommitContent::KeyUpdate,
            actor_installation_id: installation_key("b"),
            message_id: vec![1],
        }),
    };
    assert_eq!(
        group.process_envelope(&mut a.context, &envelope),
        Err(MessageProcessingError::Storage(StorageError::NotFound))
    );
}

#[test]
fn create_add_and_send() {
    let (mut a, mut b, group, b_group, mut server) = group_of_two(Some(PreconfiguredPolicies::AllMembers));
    assert_eq!(b_group.group_id, group.group_id);
    send("a", &mut a, &group, &mut server, b"hello", 7);
    sync(&mut a, &group, &server);
    sync(&mut b, &b_group, &server);
    assert_eq!(b.find_groups(None, None, None, None).unwrap().len(), 1);
    assert_eq!(b_group.count_members(&b.context), Ok(2));
    let messages = b_group
        .find_messages(&b.context, Some(GroupMessageKind::Application), None, None, None, None)
        .unwrap();
    assert_eq!(messages.len(), 1);
    assert_eq!(messages[0].decrypted_message_bytes, b"hello".to_vec());
    assert_eq!(messages[0].sender_inbox_id, inbox("a"));
    assert_eq!(
        group.load_mls_group(&a.context).unwrap().epoch,
        b_group.load_mls_group(&b.context).unwrap().epoch
    );
}

#[test]
fn test_staged_welcome() {
    let (_a, b, _group, b_group, _server) = group_of_two(None);
    let fetched = b.group(b_group.group_id.clone()).unwrap();
    assert_eq!(fetched.added_by_address(&b.context), Ok(inbox("a")));
    let stored = b.context.store.find_group(&vec![GROUP]).unwrap();
    assert_eq!(stored.membership_state, GroupMembershipState::Pending);
    assert_eq!(stored.created_at_ns, 2000);
}

#[test]
fn test_sync_welcomes() {
    let (a, mut b, group, _b_group, _server) = group_of_two(None);
    assert_eq!(b.find_groups(None, None, None, None).unwrap().len(), 1);
    assert_eq!(
        welcome("a", &a, &group, &mut b, 1),
        Err(MessageProcessingError::AlreadyProcessed(1))
    );
    assert_eq!(b.find_groups(None, None, None, None).unwrap().len(), 1);
}

#[test]
fn welcome_for_a_group_that_is_there_leaves_one_group() {
    let (a, mut b, group, _b_group, _server) = group_of_two(None);
    let again = welcome("a", &a, &group, &mut b, 2).unwrap();
    assert_eq!(again.group_id, vec![GROUP]);
    assert_eq!(b.find_groups(None, None, None, None).unwrap().len(), 1);
    assert_eq!(
        b.context.store.get_last_cursor_for_id(&installation_key("b"), EntityKind::Welcome),
        2
    );
}

#[test]
fn welcome_from_a_stranger_is_refused() {
    let mut a = client("a");
    let mut b = client("b");
    let group = a.create_group(None, vec![GROUP], 100).unwrap();
    let state = group.load_mls_group(&a.context).unwrap();
    let envelope = WelcomeEnvelope {
        id: 1,
        created_ns: 500,
        welcome: Some(DecryptedWelcome {
            group: state,
            sender_credential_identity: inbox("a").into_bytes(),
            sender_signature_key: installation_key("z"),
        }),
    };
    assert!(matches!(
        b.process_welcome(envelope, &association_state("a"), 2000),
        Err(MessageProcessingError::WelcomeProcessing(_))
    ));
    assert_eq!(b.find_groups(None, None, None, None).unwrap().len(), 0);
    assert_eq!(
        b.context.store.get_last_cursor_for_id(&installation_key("b"), EntityKind::Welcome),
        1
    );
    let unopened = WelcomeEnvelope { id: 2, created_ns: 500, welcome: None };
    assert!(matches!(
        b.process_welcome(unopened, &association_state("a"), 2000),
        Err(MessageProcessingError::WelcomeProcessing(_))
    ));
}

#[test]
fn test_add_member_conflict() {
    let (mut a, mut b, group, b_group, mut server) = group_of_two(None);
    let a_intent = group.add_members(&mut a.context, vec![inbox("c")]).unwrap();
    let b_intent = b_group.add_members(&mut b.context, vec![inbox("c")]).unwrap();
    publish_next("a", &mut a, &group, &mut server).unwrap();
    publish_next("b", &mut b, &b_group, &mut server).unwrap();

    let a_errors = sync(&mut a, &group, &server);
    assert_eq!(a_errors, vec![MessageProcessingError::EpochIncrementNotAllowed]);
    let b_errors = sync(&mut b, &b_group, &server);
    assert_eq!(b_errors, vec![MessageProcessingError::EpochIncrementNotAllowed]);

    assert_eq!(group.count_members(&a.context), Ok(3));
    assert_eq!(b_group.count_members(&b.context), Ok(3));
    assert_eq!(
        group.load_mls_group(&a.context).unwrap(),
        b_group.load_mls_group(&b.context).unwrap()
    );

    let uncommitted = Some(vec![IntentState::ToPublish, IntentState::Published]);
    assert_eq!(
        a.context.store.find_group_intents(&vec![GROUP], uncommitted.clone(), None).len(),
        0
    );
    let left = b.context.store.find_group_intents(&vec![GROUP], uncommitted.clone(), None);
    assert_eq!(left.len(), 1);
    assert_eq!(left[0].id, b_intent.id);
    assert_eq!(left[0].state, IntentState::ToPublish);
    assert_eq!(left[0].publish_attempts, 1);
    assert_eq!(group.sync_decision(&a.context, a_intent.id, 1), Ok(SyncStep::Resolved));
    assert_eq!(b_group.sync_decision(&b.context, b_intent.id, 1), Ok(SyncStep::Continue));

    assert_eq!(publish_next("b", &mut b, &b_group, &mut server), Ok(None));
    assert_eq!(server.stream.len(), 3);
    assert_eq!(b.context.store.find_group_intents(&vec![GROUP], uncommitted, None).len(), 0);
    assert_eq!(b_group.sync_decision(&b.context, b_intent.id, 2), Ok(SyncStep::Resolved));
}

#[test]
fn test_add_invalid_member() {
    let mut a = client("a");
    let group = a.create_group(None, vec![GROUP], 100).unwrap();
    let result = group.add_members_by_installation_id(&mut a.context, vec![b"1234".to_vec()]);
    assert_eq!(result, Err(GroupError::InvalidPublicKeys(vec![b"1234".to_vec()])));
    assert_eq!(a.context.store.find_group_intents(&vec![GROUP], None, None).len(), 0);
    let result = group.remove_members_by_installation_id(
        &mut a.context,
        vec![vec![1; 32], vec![2; 31], vec![3; 33]],
    );
    assert_eq!(result, Err(GroupError::InvalidPublicKeys(vec![vec![2; 31], vec![3; 33]])));
}

#[test]
fn test_add_installation() {
    let mut a = client("a");
    let mut server = Server::new();
    let group = a.create_group(None, vec![GROUP], 100).unwrap();
    group.add_members_by_installation_id(&mut a.context, vec![installation_key("a2")]).unwrap();
    publish_next("a", &mut a, &group, &mut server).unwrap();
    assert_eq!(server.stream.len(), 1);
    assert!(sync(&mut a, &group, &server).is_empty());
    assert_eq!(group.count_members(&a.context), Ok(1));
    assert_eq!(group.load_mls_group(&a.context).unwrap().epoch, 1);
}

#[test]
fn test_post_commit() {
    let mut a = client("a");
    let mut server = Server::new();
    let group = a.create_group(None, vec![GROUP], 100).unwrap();
    group.add_members(&mut a.context, vec![inbox("b")]).unwrap();
    publish_next("a", &mut a, &group, &mut server).unwrap();
    let outcome = group.process_envelope(&mut a.context, &envelope_of(&server.stream[0]));
    assert_eq!(
        outcome,
        Ok(Processed::Commit(MergedCommit {
            own: true,
            post_commit_data: Some(b"welcomes".to_vec())
        }))
    );
}

#[test]
fn test_key_update() {
    let (mut a, mut b, group, b_group, mut server) = group_of_two(None);
    group.key_update(&mut a.context).unwrap();
    publish_next("a", &mut a, &group, &mut server).unwrap();
    assert_eq!(server.stream.len(), 2);
    assert!(sync(&mut a, &group, &server).is_empty());
    assert_eq!(group.load_mls_group(&a.context).unwrap().epoch, 2);
    send("a", &mut a, &group, &mut server, b"hello", 7);
    sync(&mut b, &b_group, &server);
    let messages = b_group
        .find_messages(&b.context, Some(GroupMessageKind::Application), None, None, None, None)
        .unwrap();
    assert_eq!(messages.len(), 1);
}

#[test]
fn test_remove_by_account_address() {
    let mut a = client("a");
    let mut b = client("b");
    let mut server = Server::new();
    let group = a.create_group(None, vec![GROUP], 100).unwrap();
    group.add_members(&mut a.context, vec![inbox("b"), inbox("c")]).unwrap();
    publish_next("a", &mut a, &group, &mut server).unwrap();
    sync(&mut a, &group, &server);
    assert_eq!(group.count_members(&a.context), Ok(3));
    let messages = group.find_messages(&a.context, None, None, None, None, None).unwrap();
    assert_eq!(messages.len(), 1);
    assert_eq!(messages[0].kind, GroupMessageKind::MembershipChange);
    let b_group = welcome("a", &a, &group, &mut b, 1).unwrap();

    group.remove_members(&mut a.context, vec![inbox("b")]).unwrap();
    publish_next("a", &mut a, &group, &mut server).unwrap();
    sync(&mut a, &group, &server);
    assert_eq!(group.count_members(&a.context), Ok(2));
    let messages = group.find_messages(&a.context, None, None, None, None, None).unwrap();
    assert_eq!(messages.len(), 2);
    assert_eq!(messages[1].kind, GroupMessageKind::MembershipChange);
    assert_eq!(messages[1].sender_inbox_id, inbox("a"));

    sync(&mut b, &b_group, &server);
    assert_eq!(b_group.is_active(&b.context), Ok(false));
}

#[test]
fn test_self_resolve_epoch_mismatch() {
    let (mut a, mut b, group, b_group, mut server) = group_of_two(None);
    group.add_members(&mut a.context, vec![inbox("c")]).unwrap();
    b_group.add_members(&mut b.context, vec![inbox("d")]).unwrap();
    publish_next("a", &mut a, &group, &mut server).unwrap();
    publish_next("b", &mut b, &b_group, &mut server).unwrap();
    sync(&mut a, &group, &server);
    sync(&mut b, &b_group, &server);
    assert_eq!(group.count_members(&a.context), Ok(3));
    publish_next("b", &mut b, &b_group, &mut server).unwrap();
    sync(&mut a, &group, &server);
    sync(&mut b, &b_group, &server);
    assert_eq!(group.count_members(&a.context), Ok(4));
    assert_eq!(b_group.count_members(&b.context), Ok(4));
    send("a", &mut a, &group, &mut server, b"hello", 7);
    sync(&mut a, &group, &server);
    sync(&mut b, &b_group, &server);
    for (peer, handle) in [(&a, &group), (&b, &b_group)] {
        let messages = handle
            .find_messages(&peer.context, Some(GroupMessageKind::Application), None, None, None, None)
            .unwrap();
        assert_eq!(messages.last().unwrap().decrypted_message_bytes, b"hello".to_vec());
    }
}

#[test]
fn test_group_permissions() {
    let (mut a, mut b, group, b_group, mut server) =
        group_of_two(Some(PreconfiguredPolicies::AdminsOnly));
    let intent = b_group.add_members(&mut b.context, vec![inbox("c")]).unwrap();
    assert_eq!(
        publish_next("b", &mut b, &b_group, &mut server),
        Err(GroupError::CommitValidation(CommitValidationError::InsufficientPermissions))
    );
    assert_eq!(server.stream.len(), 1);
    assert_eq!(b.context.store.find_group_intent(intent.id).unwrap().state, IntentState::Error);
    assert_eq!(b_group.sync_decision(&b.context, intent.id, 0), Err(GroupError::IntentFailed));
    sync(&mut a, &group, &server);
    assert_eq!(group.count_members(&a.context), Ok(2));
    assert_eq!(b_group.count_members(&b.context), Ok(2));
}

#[test]
fn admins_only() {
    let (mut a, mut b, group, b_group, mut server) =
        group_of_two(Some(PreconfiguredPolicies::AdminsOnly));
    b_group.add_members(&mut b.context, vec![inbox("c")]).unwrap();
    assert_eq!(
        publish_next("b", &mut b, &b_group, &mut server),
        Err(GroupError::CommitValidation(CommitValidationError::InsufficientPermissions))
    );
    assert_eq!(group.count_members(&a.context), Ok(2));

    group.add_admin(&mut a.context, inbox("b")).unwrap();
    publish_next("a", &mut a, &group, &mut server).unwrap();
    sync(&mut a, &group, &server);
    sync(&mut b, &b_group, &server);
    assert_eq!(b_group.admin_list(&b.context), Ok(vec![inbox("a"), inbox("b")]));

    b_group.add_members(&mut b.context, vec![inbox("c")]).unwrap();
    assert!(publish_next("b", &mut b, &b_group, &mut server).unwrap().is_some());
    sync(&mut a, &group, &server);
    sync(&mut b, &b_group, &server);
    assert_eq!(group.count_members(&a.context), Ok(3));
    assert_eq!(b_group.count_members(&b.context), Ok(3));
}

#[test]
fn test_max_limit_add() {
    let mut a = client("a");
    let mut server = Server::new();
    let group = a.create_group(Some(PreconfiguredPolicies::AdminsOnly), vec![GROUP], 100).unwrap();
    let others: Vec<String> = (0..249).map(|i| format!("inbox-{i}")).collect();
    group.add_members(&mut a.context, others).unwrap();
    publish_next("a", &mut a, &group, &mut server).unwrap();
    sync(&mut a, &group, &server);
    assert_eq!(group.count_members(&a.context), Ok(250));
    let intents_before = a.context.store.find_group_intents(&vec![GROUP], None, None);
    assert_eq!(
        group.add_members(&mut a.context, vec![inbox("late")]),
        Err(GroupError::UserLimitExceeded)
    );
    assert_eq!(group.count_members(&a.context), Ok(250));
    assert_eq!(a.context.store.find_group_intents(&vec![GROUP], None, None), intents_before);
}

#[test]
fn add_beyond_the_limit_in_one_step_is_refused() {
    let mut a = client("a");
    let group = a.create_group(None, vec![GROUP], 100).unwrap();
    let too_many: Vec<String> = (0..250).map(|i| format!("inbox-{i}")).collect();
    assert_eq!(group.add_members(&mut a.context, too_many), Err(GroupError::UserLimitExceeded));
    let just_enough: Vec<String> = (0..249).map(|i| format!("inbox-{i}")).collect();
    assert!(group.add_members(&mut a.context, just_enough).is_ok());
}

#[test]
fn test_group_mutable_data() {
    let (mut a, mut b, group, b_group, mut server) =
        group_of_two(Some(PreconfiguredPolicies::AdminsOnly));
    assert_eq!(b_group.group_name(&b.context), Ok("New Group".to_string()));
    group.update_group_name(&mut a.context, "New Group Name 1".to_string()).unwrap();
    publish_next("a", &mut a, &group, &mut server).unwrap();
    sync(&mut a, &group, &server);
    sync(&mut b, &b_group, &server);
    assert_eq!(group.group_name(&a.context), Ok("New Group Name 1".to_string()));
    assert_eq!(b_group.group_name(&b.context), Ok("New Group Name 1".to_string()));

    b_group.update_group_name(&mut b.context, "New Group Name 2".to_string()).unwrap();
    assert_eq!(
        publish_next("b", &mut b, &b_group, &mut server),
        Err(GroupError::CommitValidation(CommitValidationError::InsufficientPermissions))
    );
    sync(&mut b, &b_group, &server);
    assert_eq!(b_group.group_name(&b.context), Ok("New Group Name 1".to_string()));
}

#[test]
fn test_group_mutable_data_group_permissions() {
    let (mut a, mut b, group, b_group, mut server) =
        group_of_two(Some(PreconfiguredPolicies::AdminsOnly));
    assert_eq!(b_group.admin_list(&b.context), Ok(vec![inbox("a")]));
    assert_eq!(b_group.super_admin_list(&b.context), Ok(vec![inbox("a")]));

    b_group.add_admin(&mut b.context, inbox("b")).unwrap();
    assert_eq!(
        publish_next("b", &mut b, &b_group, &mut server),
        Err(GroupError::CommitValidation(CommitValidationError::InsufficientPermissions))
    );
    assert_eq!(b_group.admin_list(&b.context), Ok(vec![inbox("a")]));

    group.add_admin(&mut a.context, inbox("b")).unwrap();
    publish_next("a", &mut a, &group, &mut server).unwrap();
    sync(&mut a, &group, &server);
    sync(&mut b, &b_group, &server);
    assert!(b_group.admin_list(&b.context).unwrap().contains(&inbox("b")));

    b_group.update_group_name(&mut b.context, "New group name".to_string()).unwrap();
    publish_next("b", &mut b, &b_group, &mut server).unwrap();
    sync(&mut a, &group, &server);
    sync(&mut b, &b_group, &server);
    assert_eq!(group.group_name(&a.context), Ok("New group name".to_string()));
    assert_eq!(b_group.group_name(&b.context), Ok("New group name".to_string()));

    group.remove_admin(&mut a.context, inbox("b")).unwrap();
    publish_next("a", &mut a, &group, &mut server).unwrap();
    sync(&mut a, &group, &server);
    sync(&mut b, &b_group, &server);
    assert!(!b_group.admin_list(&b.context).unwrap().contains(&inbox("b")));

    b_group.add_members(&mut b.context, vec![inbox("d")]).unwrap();
    assert_eq!(
        publish_next("b", &mut b, &b_group, &mut server),
        Err(GroupError::CommitValidation(CommitValidationError::InsufficientPermissions))
    );
    assert_eq!(group.count_members(&a.context), Ok(2));
}

#[test]
fn super_admins_are_added_and_removed_on_their_own_list() {
    let (mut a, mut b, group, b_group, mut server) = group_of_two(None);
    group.update_admin_list(&mut a.context, AdminListActionType::AddSuperAdmin, inbox("b")).unwrap();
    publish_next("a", &mut a, &group, &mut server).unwrap();
    sync(&mut a, &group, &server);
    sync(&mut b, &b_group, &server);
    assert_eq!(group.super_admin_list(&a.context), Ok(vec![inbox("a"), inbox("b")]));
    assert_eq!(group.admin_list(&a.context), Ok(vec![inbox("a")]));

    b_group
        .update_admin_list(&mut b.context, AdminListActionType::RemoveSuperAdmin, inbox("a"))
        .unwrap();
    publish_next("b", &mut b, &b_group, &mut server).unwrap();
    sync(&mut a, &group, &server);
    sync(&mut b, &b_group, &server);
    assert_eq!(group.super_admin_list(&a.context), Ok(vec![inbox("b")]));
    assert_eq!(group.admin_list(&a.context), Ok(vec![inbox("a")]));
}

#[test]
fn test_add_remove_then_add_again() {
    let (mut a, mut b, group, b_group, mut server) = group_of_two(None);
    assert_eq!(group.count_members(&a.context), Ok(2));
    group.remove_members(&mut a.context, vec![inbox("b")]).unwrap();
    publish_next("a", &mut a, &group, &mut server).unwrap();
    sync(&mut a, &group, &server);
    assert_eq!(group.count_members(&a.context), Ok(1));

    group.add_members(&mut a.context, vec![inbox("b")]).unwrap();
    publish_next("a", &mut a, &group, &mut server).unwrap();
    sync(&mut a, &group, &server);
    assert_eq!(group.count_members(&a.context), Ok(2));
    welcome("a", &a, &group, &mut b, 2).unwrap();
    assert_eq!(b.find_groups(None, None, None, None).unwrap().len(), 1);

    send("a", &mut a, &group, &mut server, &[1, 2, 3], 9);
    sync(&mut b, &b_group, &server);
    let messages = b_group
        .find_messages(&b.context, Some(GroupMessageKind::Application), None, None, None, None)
        .unwrap();
    assert_eq!(messages.last().unwrap().decrypted_message_bytes, vec![1, 2, 3]);
}

#[test]
fn metadata_remove_and_readd() {
    let (mut a, mut b, group, b_group, mut server) = group_of_two(None);
    group.update_group_name(&mut a.context, "N1".to_string()).unwrap();
    publish_next("a", &mut a, &group, &mut server).unwrap();
    sync(&mut a, &group, &server);
    group.remove_members(&mut a.context, vec![inbox("b")]).unwrap();
    publish_next("a", &mut a, &group, &mut server).unwrap();
    sync(&mut a, &group, &server);
    group.add_members(&mut a.context, vec![inbox("b")]).unwrap();
    publish_next("a", &mut a, &group, &mut server).unwrap();
    sync(&mut a, &group, &server);
    welcome("a", &a, &group, &mut b, 2).unwrap();
    send("a", &mut a, &group, &mut server, b"hi", 11);
    sync(&mut a, &group, &server);
    sync(&mut b, &b_group, &server);

    assert_eq!(b_group.group_name(&b.context), Ok("N1".to_string()));
    assert_eq!(b_group.is_active(&b.context), Ok(true));
    assert_eq!(b_group.count_members(&b.context), Ok(2));
    let messages = b_group
        .find_messages(&b.context, Some(GroupMessageKind::Application), None, None, None, None)
        .unwrap();
    assert_eq!(messages.last().unwrap().decrypted_message_bytes, b"hi".to_vec());
    assert_eq!(
        group.load_mls_group(&a.context).unwrap().epoch,
        b_group.load_mls_group(&b.context).unwrap().epoch
    );
}

#[test]
fn cursor_never_goes_back() {
    let (mut a, _b, group, _b_group, mut server) = group_of_two(None);
    let mut last = a.context.store.get_last_cursor_for_id(&vec![GROUP], EntityKind::Group);
    for round in 0..3 {
        send("a", &mut a, &group, &mut server, b"x", round);
        for wire in server.stream.iter() {
            let _ = group.process_envelope(&mut a.context, &envelope_of(wire));
            let now = a.context.store.get_last_cursor_for_id(&vec![GROUP], EntityKind::Group);
            assert!(now >= last);
            last = now;
        }
    }
    assert_eq!(last, server.stream.len() as u64);
}

#[test]
fn waiting_for_an_intent_gives_up_after_the_rounds_allowed() {
    let mut a = client("a");
    let group = a.create_group(None, vec![GROUP], 100).unwrap();
    let intent = group.key_update(&mut a.context).unwrap();
    assert_eq!(group.sync_decision(&a.context, intent.id, 0), Ok(SyncStep::Continue));
    assert_eq!(group.sync_decision(&a.context, intent.id, 9), Ok(SyncStep::Continue));
    assert_eq!(
        group.sync_decision(&a.context, intent.id, 10),
        Err(GroupError::SyncRoundsExhausted)
    );
    assert_eq!(
        group.sync_decision(&a.context, 77, 0),
        Err(GroupError::Storage(StorageError::NotFound))
    );
}

#[test]
fn intent_that_cannot_be_read_fails() {
    let mut a = client("a");
    let group = a.create_group(None, vec![GROUP], 100).unwrap();
    a.context
        .store
        .insert_group_intent(xmtp_core::storage::group_intent::NewGroupIntent::new(
            xmtp_core::storage::group_intent::IntentKind::AddMembers,
            vec![GROUP],
            vec![9, 9, 9],
        ))
        .unwrap();
    assert_eq!(
        group.plan_next_publish(&mut a.context),
        Err(GroupError::Intent(xmtp_core::groups::intents::IntentError::Decode))
    );
    assert_eq!(a.context.store.find_group_intent(1).unwrap().state, IntentState::Error);
    assert_eq!(group.plan_next_publish(&mut a.context), Ok(PublishPlan::Nothing));
}

#[test]
fn commit_by_a_stranger_is_refused_by_everybody() {
    let (mut a, mut b, group, b_group, _server) = group_of_two(None);
    let stray = InboundEnvelope {
        id: 50,
        created_ns: 1,
        body: InboundBody::Commit(InboundCommit {
            actor_inbox_id: inbox("z"),
            epoch: 1,
            payload_hash: vec![1],
            content: CommitContent::AddMembers { inbox_ids: vec![inbox("z")] },
            actor_installation_id: installation_key("z"),
            message_id: vec![1],
        }),
    };
    assert_eq!(
        group.process_envelope(&mut a.context, &stray),
        Err(MessageProcessingError::CommitValidation(CommitValidationError::ActorNotMember))
    );
    assert_eq!(
        b_group.process_envelope(&mut b.context, &stray),
        Err(MessageProcessingError::CommitValidation(CommitValidationError::ActorNotMember))
    );
    assert_eq!(group.count_members(&a.context), Ok(2));
    assert_eq!(group.load_mls_group(&a.context).unwrap().epoch, 1);
}

#[test]
fn installations_are_looked_up_again_after_the_interval() {
    let mut a = client("a");
    let group = a.create_group(None, vec![GROUP], 100).unwrap();
    assert_eq!(group.maybe_update_installations(&mut a.context, 5_000_000, 5_000_000), Ok(false));
    assert_eq!(group.maybe_update_installations(&mut a.context, 5_000_001, 5_000_000), Ok(true));
    assert_eq!(
        a.context.store.find_group(&vec![GROUP]).unwrap().installations_last_checked,
        5_000_001
    );
    assert_eq!(group.maybe_update_installations(&mut a.context, 10_000_001, 5_000_000), Ok(false));
    assert_eq!(group.maybe_update_installations(&mut a.context, 10_000_002, 5_000_000), Ok(true));
    assert_eq!(
        group.maybe_update_installations(&mut a.context, i64::MIN, i64::MAX),
        Ok(false)
    );
    assert_eq!(
        MlsGroup::new(vec![9], 1).maybe_update_installations(&mut a.context, 1, 1),
        Err(GroupError::GroupNotFound)
    );
}

#[test]
fn sync_group_takes_in_no_other_inbox() {
    let mut a = client("a");
    let mut server = Server::new();
    let group = a.create_sync_group(vec![GROUP], 10).unwrap();
    let intent = group.add_members(&mut a.context, vec![inbox("b")]).unwrap();
    assert_eq!(
        publish_next("a", &mut a, &group, &mut server),
        Err(GroupError::CommitValidation(CommitValidationError::InsufficientPermissions))
    );
    assert_eq!(a.context.store.find_group_intent(intent.id).unwrap().state, IntentState::Error);
    assert_eq!(group.count_members(&a.context), Ok(1));
    group.add_members_by_installation_id(&mut a.context, vec![installation_key("a2")]).unwrap();
    assert!(publish_next("a", &mut a, &group, &mut server).unwrap().is_some());
}

#[test]
fn commit_from_far_ahead_waits() {
    let (mut a, _b, group, _b_group, _server) = group_of_two(None);
    let commit_of = |id: u64, epoch: u64| InboundEnvelope {
        id,
        created_ns: 1,
        body: InboundBody::Commit(InboundCommit {
            actor_inbox_id: inbox("b"),
            epoch,
            payload_hash: vec![1],
            content: CommitContent::KeyUpdate,
            actor_installation_id: installation_key("b"),
            message_id: vec![1],
        }),
    };
    assert_eq!(
        group.process_envelope(&mut a.context, &commit_of(50, 3)),
        Err(MessageProcessingError::FutureEpoch { message_epoch: 3, group_epoch: 1 })
    );
    assert_eq!(a.context.store.get_last_cursor_for_id(&vec![GROUP], EntityKind::Group), 1);
    assert_eq!(
        group.process_envelope(&mut a.context, &commit_of(50, 3)),
        Err(MessageProcessingError::FutureEpoch { message_epoch: 3, group_epoch: 1 })
    );
    assert_eq!(
        group.process_envelope(&mut a.context, &commit_of(40, 2)),
        Err(MessageProcessingError::EpochIncrementNotAllowed)
    );
    assert_eq!(a.context.store.get_last_cursor_for_id(&vec![GROUP], EntityKind::Group), 40);
    assert_eq!(
        group.process_envelope(&mut a.context, &commit_of(41, 0)),
        Err(MessageProcessingError::EpochIncrementNotAllowed)
    );
    assert!(matches!(
        group.process_envelope(&mut a.context, &commit_of(42, 1)),
        Ok(Processed::Commit(_))
    ));
    assert_eq!(group.load_mls_group(&a.context).unwrap().epoch, 2);
    assert!(matches!(
        group.process_envelope(&mut a.context, &commit_of(50, 3)),
        Err(MessageProcessingError::EpochIncrementNotAllowed)
    ));
}

#[test]
fn group_that_carries_nothing_reports_what_it_lacks() {
    let mut a = client("a");
    a.context.store.save_mls_group(GroupState::new(vec![5], Extensions::empty()));
    let group = MlsGroup::new(vec![5], 0);
    assert_eq!(
        group.metadata(&a.context),
        Err(GroupError::GroupMetadata(GroupMetadataError::MissingExtension))
    );
    assert_eq!(
        group.mutable_metadata(&a.context),
        Err(GroupError::GroupMutableMetadata(GroupMutableMetadataError::MissingExtension))
    );
    assert_eq!(
        group.group_name(&a.context),
        Err(GroupError::GroupMutableMetadata(GroupMutableMetadataError::MissingExtension))
    );
    assert_eq!(
        group.permissions(&a.context),
        Err(GroupError::GroupMutablePermissions(GroupMutablePermissionsError::MissingExtension))
    );
    assert_eq!(group.count_members(&a.context), Err(GroupError::GroupNotFound));
    assert_eq!(group.is_active(&a.context), Ok(true));

    let commit = InboundEnvelope {
        id: 1,
        created_ns: 1,
        body: InboundBody::Commit(InboundCommit {
            actor_inbox_id: inbox("a"),
            epoch: 0,
            payload_hash: vec![1],
            content: CommitContent::KeyUpdate,
            actor_installation_id: installation_key("a"),
            message_id: vec![1],
        }),
    };
    assert_eq!(
        group.process_envelope(&mut a.context, &commit),
        Err(MessageProcessingError::CommitValidation(CommitValidationError::MissingExtension))
    );

    let welcome = MlsGroup::create_from_welcome(
        &mut a.context,
        GroupState::new(vec![6], Extensions::empty()),
        inbox("b"),
        7,
    );
    assert_eq!(welcome, Err(GroupError::GroupMetadata(GroupMetadataError::MissingExtension)));
    assert_eq!(a.find_groups(None, None, None, None).unwrap().len(), 0);
}

#[test]
fn welcome_is_checked_against_the_state_of_the_sender() {
    let mut a = client("a");
    let mut b = client("b");
    let group = a.create_group(None, vec![GROUP], 100).unwrap();
    let welcome_with = |credential: Vec<u8>, key: Vec<u8>| DecryptedWelcome {
        group: group.load_mls_group(&a.context).unwrap(),
        sender_credential_identity: credential,
        sender_signature_key: key,
    };
    let state = association_state("a");
    assert_eq!(
        MlsGroup::create_from_encrypted_welcome(
            &mut b.context,
            welcome_with(vec![0xFF], installation_key("a")),
            &state,
            5
        ),
        Err(GroupError::Identity(IdentityError::InvalidCredential))
    );
    assert_eq!(
        MlsGroup::create_from_encrypted_welcome(
            &mut b.context,
            welcome_with(inbox("z").into_bytes(), installation_key("a")),
            &state,
            5
        ),
        Err(GroupError::Identity(IdentityError::InboxIdMismatch))
    );
    assert_eq!(
        MlsGroup::create_from_encrypted_welcome(
            &mut b.context,
            welcome_with(inbox("a").into_bytes(), installation_key("z")),
            &state,
            5
        ),
        Err(GroupError::Identity(IdentityError::InstallationIdNotFound(inbox("a"))))
    );
    assert_eq!(b.find_groups(None, None, None, None).unwrap().len(), 0);
    let joined = MlsGroup::create_from_encrypted_welcome(
        &mut b.context,
        welcome_with(inbox("a").into_bytes(), installation_key("a")),
        &state,
        5,
    )
    .unwrap();
    assert_eq!(joined.created_at_ns, 5);
    assert_eq!(joined.added_by_address(&b.context), Ok(inbox("a")));
}

#[test]
fn sync_group_that_is_joined_is_allowed_at_once() {
    let mut a = client("a");
    let mut second = client("a");
    let group = a.create_sync_group(vec![GROUP], 10).unwrap();
    let joined = MlsGroup::create_from_welcome(
        &mut second.context,
        group.load_mls_group(&a.context).unwrap(),
        inbox("a"),
        20,
    )
    .unwrap();
    let stored = second.context.store.find_group(&joined.group_id).unwrap();
    assert_eq!(stored.membership_state, GroupMembershipState::Allowed);
    assert_eq!(stored.purpose, xmtp_core::storage::group::Purpose::Sync);
    assert_eq!(stored.added_by_inbox_id, "");
}
