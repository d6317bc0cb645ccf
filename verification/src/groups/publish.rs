//! The way out: intents are queued, the next one is turned into what is to
//! be sent, and what was sent is noted.

use vstd::prelude::*;
use crate::client::XmtpMlsLocalContext;
use crate::codec::framed;
use crate::configuration::{MAX_GROUP_SIZE, MAX_SYNC_ROUNDS};
use crate::groups::commit::{apply_commit, validate_and_apply, CommitContent, CommitView};
use crate::groups::errors::GroupError;
use crate::groups::group_mutable_metadata::group_name_key;
use crate::groups::intents::{
    admin_list_payload, members_payload, metadata_payload, parse_admin_list_payload,
    parse_members_payload, parse_message_payload, parse_metadata_payload, AddMembersIntentData,
    AddressesOrInstallationIds, AdminListActionType, IntentError, MembersView,
    RemoveMembersIntentData, SendMessageIntentData, UpdateAdminListIntentData,
    UpdateMetadataIntentData,
};
use crate::groups::{shared_state, MlsGroup};
use crate::proto::plaintext::{decimal_digits, decimal_of, envelope_bytes, PlaintextEnvelope};
use crate::storage::errors::StorageError;
use crate::storage::group_intent::{
    intent_step, IntentEvent, IntentEventView, IntentKind, IntentRow, IntentState, NewGroupIntent,
    StoredGroupIntent,
};
use crate::storage::group_message::{
    DeliveryStatus, GroupMessageKind, MessageRow, StoredGroupMessage,
};
use crate::storage::store::{
    cursors_monotone, group_row, has_group, has_intent, has_message, intent_filter, intent_place,
    intent_row, store_well_formed, with_time_checked, StoreView,
};
use vstd::string::*;
use vstd::utf8::encode_utf8;
use crate::groups::group_membership::GroupMembership;
use crate::util::{bytes_views, clone_bytes, first_matching, lemma_first_matching_head, text_views};

verus! {

/// The length of the key of an installation.
pub const INSTALLATION_KEY_LENGTH: usize = 32;

/// The test for byte strings that are not of the length of a key.
pub open spec fn not_a_key() -> spec_fn(Seq<u8>) -> bool {
    |k: Seq<u8>| k.len() != INSTALLATION_KEY_LENGTH
}

/// The byte strings of a list that cannot be keys of installations, in
/// their order.
pub open spec fn ill_formed_keys(keys: Seq<Seq<u8>>) -> Seq<Seq<u8>> {
    first_matching(keys, not_a_key(), keys.len())
}

/// Checks that each byte string has the length of the key of an
/// installation, and names those that have not.
pub fn validate_ed25519_keys(keys: &Vec<Vec<u8>>) -> (r: Result<(), GroupError>)
    ensures
        match r {
            Ok(_) => ill_formed_keys(bytes_views(keys@)).len() == 0,
            Err(GroupError::InvalidPublicKeys(bad)) => bad@.len() > 0 && bytes_views(bad@)
                == ill_formed_keys(bytes_views(keys@)),
            Err(_) => false,
        },
{
    let ghost all = bytes_views(keys@);
    let ghost pass = not_a_key();
    let ghost max = all.len();
    let mut bad: Vec<Vec<u8>> = Vec::new();
    let mut i: usize = 0;
    proof {
        assert(all.subrange(0, all.len() as int) =~= all);
        assert(bytes_views(bad@) =~= Seq::<Seq<u8>>::empty());
    }
    while i < keys.len()
        invariant
            all == bytes_views(keys@),
            pass == not_a_key(),
            max == all.len(),
            0 <= i <= keys@.len(),
            bad@.len() <= i,
            bytes_views(bad@) + first_matching(
                all.subrange(i as int, all.len() as int),
                pass,
                (max - bad@.len()) as nat,
            ) == first_matching(all, pass, max),
        decreases keys@.len() - i,
    {
        assert(all[i as int] == keys@[i as int]@);
        let ghost prior = bytes_views(bad@);
        proof {
            crate::util::lemma_first_matching_step(all, pass, (max - bad@.len()) as nat, i as int);
        }
        if keys[i].len() != INSTALLATION_KEY_LENGTH {
            assert(pass(all[i as int]));
            bad.push(clone_bytes(&keys[i]));
            proof {
                assert(bytes_views(bad@) =~= prior + seq![all[i as int]]);
                assert((prior + seq![all[i as int]]) + first_matching(
                    all.subrange(i + 1, all.len() as int),
                    pass,
                    (max - bad@.len()) as nat,
                ) =~= prior + (seq![all[i as int]] + first_matching(
                    all.subrange(i + 1, all.len() as int),
                    pass,
                    (max - bad@.len()) as nat,
                )));
            }
        } else {
            assert(!pass(all[i as int]));
        }
        i += 1;
    }
    proof {
        let rest = all.subrange(i as int, all.len() as int);
        assert(first_matching(rest, pass, (max - bad@.len()) as nat) =~= Seq::<Seq<u8>>::empty());
        assert(bytes_views(bad@) + Seq::<Seq<u8>>::empty() =~= bytes_views(bad@));
    }
    if bad.len() > 0 {
        Err(GroupError::InvalidPublicKeys(bad))
    } else {
        Ok(())
    }
}

/// The row of an intent that was just queued.
pub open spec fn new_intent_row(id: i32, kind: IntentKind, group_id: Seq<u8>, data: Seq<u8>) -> IntentRow {
    IntentRow {
        id,
        kind,
        group_id,
        data,
        state: IntentState::ToPublish,
        payload_hash: None,
        post_commit_data: None,
        publish_attempts: 0,
    }
}

/// The store after an intent was queued in it: the intent stands last in
/// the queue, under the next number, and nothing else has changed.
pub open spec fn with_queued_intent(
    before: StoreView,
    kind: IntentKind,
    group_id: Seq<u8>,
    data: Seq<u8>,
) -> StoreView {
    StoreView {
        intents: before.intents.push(
            new_intent_row(before.next_intent_id, kind, group_id, data),
        ),
        next_intent_id: (before.next_intent_id + 1) as i32,
        ..before
    }
}

/// Whether an attempt to queue an intent came out as it has to: the intent
/// is queued unless the queue has given out all its numbers, and nothing
/// changes where it is not.
pub open spec fn queue_outcome(
    before: StoreView,
    after: StoreView,
    kind: IntentKind,
    group_id: Seq<u8>,
    data: Seq<u8>,
    outcome: Result<StoredGroupIntent, GroupError>,
) -> bool {
    match outcome {
        Ok(intent) => {
            &&& before.next_intent_id < i32::MAX
            &&& intent@ == new_intent_row(before.next_intent_id, kind, group_id, data)
            &&& after == with_queued_intent(before, kind, group_id, data)
        },
        Err(e) => {
            &&& before.next_intent_id == i32::MAX
            &&& after == before
            &&& e is Storage
        },
    }
}

/// How many inboxes the group has, where the store keeps the group and the
/// group carries its membership.
pub open spec fn member_count(context: XmtpMlsLocalContext, group_id: Seq<u8>) -> Option<nat> {
    match shared_state(context, group_id) {
        Some(state) => if state.extensions.group_membership is Some {
            Some(state.extensions.member_order.len())
        } else {
            None
        },
        None => None,
    }
}

impl MlsGroup {
    /// Queues an intent of the group.
    fn queue(&self, context: &mut XmtpMlsLocalContext, kind: IntentKind, data: Vec<u8>) -> (r: Result<
        StoredGroupIntent,
        GroupError,
    >)
        ensures
            final(context).identity == old(context).identity,
            store_well_formed(final(context).store@),
            cursors_monotone(old(context).store@, final(context).store@),
            queue_outcome(
                old(context).store@,
                final(context).store@,
                kind,
                self.group_id@,
                data@,
                r,
            ),
    {
        context.store.check();
        match context.store.insert_group_intent(
            NewGroupIntent::new(kind, clone_bytes(&self.group_id), data),
        ) {
            Ok(intent) => Ok(intent),
            Err(e) => Err(GroupError::Storage(e)),
        }
    }

    /// How many inboxes the group has: as many as its membership has keys.
    pub fn count_members(&self, context: &XmtpMlsLocalContext) -> (r: Result<usize, GroupError>)
        ensures
            match r {
                Ok(n) => {
                    &&& member_count(*context, self.group_id@) == Some(n as nat)
                    &&& shared_state(
                        *context,
                        self.group_id@,
                    ).unwrap().extensions.group_membership.unwrap().dom().finite()
                    &&& n == shared_state(
                        *context,
                        self.group_id@,
                    ).unwrap().extensions.group_membership.unwrap().len()
                },
                Err(e) => member_count(*context, self.group_id@) is None && e
                    == GroupError::GroupNotFound,
            },
    {
        match context.store.load_mls_group(&self.group_id) {
            Some(state) => match &state.extensions.group_membership {
                Some(m) => Ok(m.len()),
                None => Err(GroupError::GroupNotFound),
            },
            None => Err(GroupError::GroupNotFound),
        }
    }

    /// Queues the intent to take inboxes into the group. Together with the
    /// inboxes that the group has, they must not be more than a group may
    /// hold; a group that would grow past its limit is left as it is.
    pub fn add_members(&self, context: &mut XmtpMlsLocalContext, inbox_ids: Vec<String>) -> (r: Result<
        StoredGroupIntent,
        GroupError,
    >)
        ensures
            final(context).identity == old(context).identity,
            store_well_formed(final(context).store@),
            cursors_monotone(old(context).store@, final(context).store@),
            match r {
                Err(GroupError::GroupNotFound) => {
                    &&& member_count(*old(context), self.group_id@) is None
                    &&& final(context).store@ == old(context).store@
                },
                Err(GroupError::UserLimitExceeded) => {
                    &&& member_count(*old(context), self.group_id@) is Some
                    &&& member_count(*old(context), self.group_id@).unwrap() + inbox_ids@.len()
                        > MAX_GROUP_SIZE
                    &&& final(context).store@ == old(context).store@
                },
                _ => {
                    &&& member_count(*old(context), self.group_id@) is Some
                    &&& member_count(*old(context), self.group_id@).unwrap() + inbox_ids@.len()
                        <= MAX_GROUP_SIZE
                    &&& queue_outcome(
                        old(context).store@,
                        final(context).store@,
                        IntentKind::AddMembers,
                        self.group_id@,
                        members_payload(MembersView::AccountAddresses(text_views(inbox_ids@))),
                        r,
                    )
                },
            },
    {
        context.store.check();
        let member_count = match self.count_members(context) {
            Ok(n) => n,
            Err(e) => {
                return Err(GroupError::GroupNotFound);
            },
        };
        if member_count > MAX_GROUP_SIZE || inbox_ids.len() > MAX_GROUP_SIZE - member_count {
            return Err(GroupError::UserLimitExceeded);
        }
        let intent_data = AddMembersIntentData::new(
            AddressesOrInstallationIds::AccountAddresses(inbox_ids),
        ).to_bytes();
        self.queue(context, IntentKind::AddMembers, intent_data)
    }

    /// Queues the intent to take installations into the group. Each has to
    /// be named by a byte string of the length of a key; where one is not,
    /// nothing is queued.
    pub fn add_members_by_installation_id(
        &self,
        context: &mut XmtpMlsLocalContext,
        installation_ids: Vec<Vec<u8>>,
    ) -> (r: Result<StoredGroupIntent, GroupError>)
        ensures
            final(context).identity == old(context).identity,
            store_well_formed(final(context).store@),
            cursors_monotone(old(context).store@, final(context).store@),
            match r {
                Err(GroupError::InvalidPublicKeys(bad)) => {
                    &&& bad@.len() > 0
                    &&& bytes_views(bad@) == ill_formed_keys(bytes_views(installation_ids@))
                    &&& final(context).store@ == old(context).store@
                },
                _ => {
                    &&& ill_formed_keys(bytes_views(installation_ids@)).len() == 0
                    &&& queue_outcome(
                        old(context).store@,
                        final(context).store@,
                        IntentKind::AddMembers,
                        self.group_id@,
                        members_payload(MembersView::InstallationIds(bytes_views(installation_ids@))),
                        r,
                    )
                },
            },
    {
        context.store.check();
        match validate_ed25519_keys(&installation_ids) {
            Ok(_) => {},
            Err(e) => {
                return Err(e);
            },
        }
        let intent_data = AddMembersIntentData::new(
            AddressesOrInstallationIds::InstallationIds(installation_ids),
        ).to_bytes();
        self.queue(context, IntentKind::AddMembers, intent_data)
    }

    /// Queues the intent to put inboxes out of the group.
    pub fn remove_members(&self, context: &mut XmtpMlsLocalContext, inbox_ids: Vec<String>) -> (r:
        Result<StoredGroupIntent, GroupError>)
        ensures
            final(context).identity == old(context).identity,
            store_well_formed(final(context).store@),
            cursors_monotone(old(context).store@, final(context).store@),
            queue_outcome(
                old(context).store@,
                final(context).store@,
                IntentKind::RemoveMembers,
                self.group_id@,
                members_payload(MembersView::AccountAddresses(text_views(inbox_ids@))),
                r,
            ),
    {
        let intent_data = RemoveMembersIntentData::new(
            AddressesOrInstallationIds::AccountAddresses(inbox_ids),
        ).to_bytes();
        self.queue(context, IntentKind::RemoveMembers, intent_data)
    }

    /// Queues the intent to put installations out of the group. Each has to
    /// be named by a byte string of the length of a key; where one is not,
    /// nothing is queued.
    pub fn remove_members_by_installation_id(
        &self,
        context: &mut XmtpMlsLocalContext,
        installation_ids: Vec<Vec<u8>>,
    ) -> (r: Result<StoredGroupIntent, GroupError>)
        ensures
            final(context).identity == old(context).identity,
            store_well_formed(final(context).store@),
            cursors_monotone(old(context).store@, final(context).store@),
            match r {
                Err(GroupError::InvalidPublicKeys(bad)) => {
                    &&& bad@.len() > 0
                    &&& bytes_views(bad@) == ill_formed_keys(bytes_views(installation_ids@))
                    &&& final(context).store@ == old(context).store@
                },
                _ => {
                    &&& ill_formed_keys(bytes_views(installation_ids@)).len() == 0
                    &&& queue_outcome(
                        old(context).store@,
                        final(context).store@,
                        IntentKind::RemoveMembers,
                        self.group_id@,
                        members_payload(MembersView::InstallationIds(bytes_views(installation_ids@))),
                        r,
                    )
                },
            },
    {
        context.store.check();
        match validate_ed25519_keys(&installation_ids) {
            Ok(_) => {},
            Err(e) => {
                return Err(e);
            },
        }
        let intent_data = RemoveMembersIntentData::new(
            AddressesOrInstallationIds::InstallationIds(installation_ids),
        ).to_bytes();
        self.queue(context, IntentKind::RemoveMembers, intent_data)
    }

    /// Queues the intent to give the group another name.
    pub fn update_group_name(&self, context: &mut XmtpMlsLocalContext, group_name: String) -> (r:
        Result<StoredGroupIntent, GroupError>)
        ensures
            final(context).identity == old(context).identity,
            store_well_formed(final(context).store@),
            cursors_monotone(old(context).store@, final(context).store@),
            queue_outcome(
                old(context).store@,
                final(context).store@,
                IntentKind::MetadataUpdate,
                self.group_id@,
                metadata_payload(group_name_key(), group_name@),
                r,
            ),
    {
        let intent_data = UpdateMetadataIntentData::new_update_group_name(group_name).to_bytes();
        self.queue(context, IntentKind::MetadataUpdate, intent_data)
    }

    /// Queues the intent to change the lists of admins.
    pub fn update_admin_list(
        &self,
        context: &mut XmtpMlsLocalContext,
        action_type: AdminListActionType,
        inbox_id: String,
    ) -> (r: Result<StoredGroupIntent, GroupError>)
        ensures
            final(context).identity == old(context).identity,
            store_well_formed(final(context).store@),
            cursors_monotone(old(context).store@, final(context).store@),
            queue_outcome(
                old(context).store@,
                final(context).store@,
                IntentKind::AdminListUpdate,
                self.group_id@,
                admin_list_payload(action_type, inbox_id@),
                r,
            ),
    {
        let intent_data = UpdateAdminListIntentData::new(action_type, inbox_id).to_bytes();
        self.queue(context, IntentKind::AdminListUpdate, intent_data)
    }

    /// Queues the intent to make an inbox an admin.
    pub fn add_admin(&self, context: &mut XmtpMlsLocalContext, inbox_id: String) -> (r: Result<
        StoredGroupIntent,
        GroupError,
    >)
        ensures
            final(context).identity == old(context).identity,
            store_well_formed(final(context).store@),
            cursors_monotone(old(context).store@, final(context).store@),
            queue_outcome(
                old(context).store@,
                final(context).store@,
                IntentKind::AdminListUpdate,
                self.group_id@,
                admin_list_payload(AdminListActionType::AddAdmin, inbox_id@),
                r,
            ),
    {
        self.update_admin_list(context, AdminListActionType::AddAdmin, inbox_id)
    }

    /// Queues the intent to take an inbox off the list of admins.
    pub fn remove_admin(&self, context: &mut XmtpMlsLocalContext, inbox_id: String) -> (r: Result<
        StoredGroupIntent,
        GroupError,
    >)
        ensures
            final(context).identity == old(context).identity,
            store_well_formed(final(context).store@),
            cursors_monotone(old(context).store@, final(context).store@),
            queue_outcome(
                old(context).store@,
                final(context).store@,
                IntentKind::AdminListUpdate,
                self.group_id@,
                admin_list_payload(AdminListActionType::RemoveAdmin, inbox_id@),
                r,
            ),
    {
        self.update_admin_list(context, AdminListActionType::RemoveAdmin, inbox_id)
    }

    /// Queues the intent to renew the key of this installation's leaf.
    pub fn key_update(&self, context: &mut XmtpMlsLocalContext) -> (r: Result<
        StoredGroupIntent,
        GroupError,
    >)
        ensures
            final(context).identity == old(context).identity,
            store_well_formed(final(context).store@),
            cursors_monotone(old(context).store@, final(context).store@),
            queue_outcome(
                old(context).store@,
                final(context).store@,
                IntentKind::KeyUpdate,
                self.group_id@,
                Seq::<u8>::empty(),
                r,
            ),
    {
        self.queue(context, IntentKind::KeyUpdate, Vec::new())
    }
}

/// The bytes that the id of a message is the hash of: the group, the
/// message, the sender and the key that tells two sendings of one message
/// apart.
pub open spec fn message_id_input(
    group_id: Seq<u8>,
    message: Seq<u8>,
    sender: Seq<char>,
    idempotency_key: Seq<u8>,
) -> Seq<u8> {
    group_id + message + encode_utf8(sender) + idempotency_key
}

/// The bytes that the id of a message is the hash of.
pub fn message_id_preimage(
    group_id: &Vec<u8>,
    message: &Vec<u8>,
    sender: &String,
    idempotency_key: &Vec<u8>,
) -> (bytes: Vec<u8>)
    ensures
        bytes@ == message_id_input(group_id@, message@, sender@, idempotency_key@),
{
    let mut bytes = clone_bytes(group_id);
    let mut part = clone_bytes(message);
    bytes.append(&mut part);
    let mut part = sender.as_str().as_bytes_vec();
    bytes.append(&mut part);
    let mut part = clone_bytes(idempotency_key);
    bytes.append(&mut part);
    bytes
}

/// The row under which a message is stored when it is sent: not published
/// yet.
pub open spec fn sent_message_row(
    context: XmtpMlsLocalContext,
    group_id: Seq<u8>,
    message_id: Seq<u8>,
    message: Seq<u8>,
    now_ns: i64,
) -> MessageRow {
    MessageRow {
        id: message_id,
        group_id,
        decrypted_message_bytes: message,
        sent_at_ns: now_ns,
        kind: GroupMessageKind::Application,
        sender_installation_id: context.identity.installation_public_key@,
        sender_inbox_id: context.identity.inbox_id@,
        delivery_status: DeliveryStatus::Unpublished,
    }
}

/// The payload of the intent to send a message at a time: the envelope of
/// the message under the decimal text of the time, with its length in
/// front.
pub open spec fn send_payload(message: Seq<u8>, now_ns: i64) -> Seq<u8> {
    framed(envelope_bytes(message, decimal_of(now_ns as int)))
}

/// What is to be done for the next intent of a group.
#[derive(Debug, PartialEq, Eq)]
pub enum PublishPlan {
    /// No intent waits to be published.
    Nothing,
    /// The envelope is to be sealed and sent as an application message.
    Message { intent_id: i32, envelope: Vec<u8> },
    /// A commit with this content is to be made in this epoch and sent.
    Commit { intent_id: i32, epoch: u64, content: CommitContent },
    /// What the intent asks for holds already; the intent is committed and
    /// nothing is to be sent.
    Settled { intent_id: i32 },
}

/// What an intent asks to send.
pub enum PlannedView {
    Message(Seq<u8>),
    Commit(CommitView),
}

/// The commit that names the members of a payload.
pub open spec fn members_commit(members: MembersView, add: bool) -> CommitView {
    match members {
        MembersView::AccountAddresses(inbox_ids) => if add {
            CommitView::AddMembers { inbox_ids }
        } else {
            CommitView::RemoveMembers { inbox_ids }
        },
        MembersView::InstallationIds(installation_ids) => if add {
            CommitView::AddInstallations { installation_ids }
        } else {
            CommitView::RemoveInstallations { installation_ids }
        },
    }
}

/// What an intent asks to send, where its payload can be read.
pub open spec fn planned_content(row: IntentRow) -> Option<PlannedView> {
    match row.kind {
        IntentKind::SendMessage => match parse_message_payload(row.data) {
            Some(envelope) => Some(PlannedView::Message(envelope)),
            None => None,
        },
        IntentKind::AddMembers => match parse_members_payload(row.data) {
            Some(members) => Some(PlannedView::Commit(members_commit(members, true))),
            None => None,
        },
        IntentKind::RemoveMembers => match parse_members_payload(row.data) {
            Some(members) => Some(PlannedView::Commit(members_commit(members, false))),
            None => None,
        },
        IntentKind::MetadataUpdate => match parse_metadata_payload(row.data) {
            Some((field_name, field_value)) => Some(
                PlannedView::Commit(CommitView::UpdateMetadata { field_name, field_value }),
            ),
            None => None,
        },
        IntentKind::AdminListUpdate => match parse_admin_list_payload(row.data) {
            Some((action_type, inbox_id)) => Some(
                PlannedView::Commit(CommitView::UpdateAdminList { action_type, inbox_id }),
            ),
            None => None,
        },
        IntentKind::KeyUpdate => Some(PlannedView::Commit(CommitView::KeyUpdate)),
    }
}

/// Whether every inbox of the list is in the membership.
pub open spec fn all_in(members: Map<Seq<char>, u64>, inbox_ids: Seq<Seq<char>>) -> bool {
    forall|i: int| 0 <= i < inbox_ids.len() ==> members.contains_key(#[trigger] inbox_ids[i])
}

/// Whether no inbox of the list is in the membership.
pub open spec fn none_in(members: Map<Seq<char>, u64>, inbox_ids: Seq<Seq<char>>) -> bool {
    forall|i: int| 0 <= i < inbox_ids.len() ==> !members.contains_key(#[trigger] inbox_ids[i])
}

/// Whether a commit would change nothing: every inbox that it takes in is
/// in the group already, or none of those that it puts out is.
pub open spec fn changes_nothing(members: Map<Seq<char>, u64>, commit: CommitView) -> bool {
    match commit {
        CommitView::AddMembers { inbox_ids } => all_in(members, inbox_ids),
        CommitView::RemoveMembers { inbox_ids } => none_in(members, inbox_ids),
        _ => false,
    }
}

/// The intents of a group that wait to be published, first come first.
pub open spec fn pending_intents(store: StoreView, group_id: Seq<u8>) -> Seq<IntentRow> {
    first_matching(
        store.intents,
        intent_filter(group_id, Some(seq![IntentState::ToPublish]), None),
        store.intents.len(),
    )
}

/// The store after an event has happened to an intent.
pub open spec fn with_intent_event(before: StoreView, row: IntentRow, event: IntentEventView) -> StoreView {
    StoreView {
        intents: before.intents.update(
            intent_place(before.intents, row.id),
            intent_step(row, event).unwrap(),
        ),
        ..before
    }
}

/// Whether `after` is the store that `before` becomes when the next intent
/// of a group is planned with the given outcome.
///
/// Where no intent of the group waits, nothing is to be done. Otherwise the
/// intent that has waited longest is taken. An intent whose payload cannot
/// be read fails. A message is handed out to be sent. For a commit, the
/// store has to keep the state of the group. A commit that the rules of the
/// group do not admit makes the intent fail, without anything being sent.
/// A commit that would change nothing settles the intent as committed.
/// Every other commit is handed out to be made in the epoch of the group.
pub open spec fn publish_planned(
    before: StoreView,
    after: StoreView,
    context: XmtpMlsLocalContext,
    group_id: Seq<u8>,
    outcome: Result<PublishPlan, GroupError>,
) -> bool {
    let pending = pending_intents(before, group_id);
    if pending.len() == 0 {
        &&& outcome == Ok::<PublishPlan, GroupError>(PublishPlan::Nothing)
        &&& after == before
    } else {
        let row = pending[0];
        match planned_content(row) {
            None => {
                &&& outcome == Err::<PublishPlan, GroupError>(GroupError::Intent(IntentError::Decode))
                &&& after == with_intent_event(before, row, IntentEventView::Fatal)
            },
            Some(PlannedView::Message(envelope)) => {
                &&& outcome matches Ok(PublishPlan::Message { intent_id, envelope: bytes })
                    && intent_id == row.id && bytes@ == envelope
                &&& after == before
            },
            Some(PlannedView::Commit(commit)) => match shared_state(context, group_id) {
                None => {
                    &&& outcome == Err::<PublishPlan, GroupError>(GroupError::GroupNotFound)
                    &&& after == before
                },
                Some(state) => match apply_commit(
                    state.extensions,
                    context.identity.inbox_id@,
                    commit,
                ) {
                    Err(e) => {
                        &&& outcome == Err::<PublishPlan, GroupError>(GroupError::CommitValidation(e))
                        &&& after == with_intent_event(before, row, IntentEventView::Fatal)
                    },
                    Ok(_) => if changes_nothing(
                        state.extensions.group_membership.unwrap(),
                        commit,
                    ) {
                        &&& outcome == Ok::<PublishPlan, GroupError>(
                            PublishPlan::Settled { intent_id: row.id },
                        )
                        &&& after == with_intent_event(before, row, IntentEventView::AlreadyInEffect)
                    } else {
                        &&& outcome matches Ok(PublishPlan::Commit { intent_id, epoch, content })
                            && intent_id == row.id && epoch == state.epoch && content@ == commit
                        &&& after == before
                    },
                },
            },
        }
    }
}

/// What an intent asks to send.
enum Planned {
    Message(Vec<u8>),
    Commit(CommitContent),
}

/// The commit that names the members of a payload.
fn commit_of_members(members: AddressesOrInstallationIds, add: bool) -> (c: CommitContent)
    ensures
        c@ == members_commit(members@, add),
{
    match members {
        AddressesOrInstallationIds::AccountAddresses(inbox_ids) => if add {
            CommitContent::AddMembers { inbox_ids }
        } else {
            CommitContent::RemoveMembers { inbox_ids }
        },
        AddressesOrInstallationIds::InstallationIds(installation_ids) => if add {
            CommitContent::AddInstallations { installation_ids }
        } else {
            CommitContent::RemoveInstallations { installation_ids }
        },
    }
}

/// What an intent asks to send, where its payload can be read.
fn read_intent(intent: &StoredGroupIntent) -> (r: Option<Planned>)
    ensures
        match r {
            Some(Planned::Message(envelope)) => planned_content(intent@) == Some(
                PlannedView::Message(envelope@),
            ),
            Some(Planned::Commit(content)) => planned_content(intent@) == Some(
                PlannedView::Commit(content@),
            ),
            None => planned_content(intent@) is None,
        },
{
    match intent.kind {
        IntentKind::SendMessage => match SendMessageIntentData::from_bytes(&intent.data) {
            Ok(d) => Some(Planned::Message(d.message)),
            Err(_) => None,
        },
        IntentKind::AddMembers => match AddMembersIntentData::from_bytes(&intent.data) {
            Ok(d) => Some(Planned::Commit(commit_of_members(d.address_or_id, true))),
            Err(_) => None,
        },
        IntentKind::RemoveMembers => match RemoveMembersIntentData::from_bytes(&intent.data) {
            Ok(d) => Some(Planned::Commit(commit_of_members(d.address_or_id, false))),
            Err(_) => None,
        },
        IntentKind::MetadataUpdate => match UpdateMetadataIntentData::from_bytes(&intent.data) {
            Ok(d) => Some(
                Planned::Commit(
                    CommitContent::UpdateMetadata {
                        field_name: d.field_name,
                        field_value: d.field_value,
                    },
                ),
            ),
            Err(_) => None,
        },
        IntentKind::AdminListUpdate => match UpdateAdminListIntentData::from_bytes(&intent.data) {
            Ok(d) => Some(
                Planned::Commit(
                    CommitContent::UpdateAdminList {
                        action_type: d.action_type,
                        inbox_id: d.inbox_id,
                    },
                ),
            ),
            Err(_) => None,
        },
        IntentKind::KeyUpdate => Some(Planned::Commit(CommitContent::KeyUpdate)),
    }
}

/// Whether every inbox of the list is in the membership (`present`), or
/// none is (not `present`).
fn all_members_are(membership: &GroupMembership, inbox_ids: &Vec<String>, present: bool) -> (all: bool)
    ensures
        present ==> all == all_in(membership@, text_views(inbox_ids@)),
        !present ==> all == none_in(membership@, text_views(inbox_ids@)),
{
    let ghost ids = text_views(inbox_ids@);
    let mut i: usize = 0;
    while i < inbox_ids.len()
        invariant
            ids == text_views(inbox_ids@),
            0 <= i <= inbox_ids@.len(),
            forall|k: int| 0 <= k < i ==> membership@.contains_key(#[trigger] ids[k]) == present,
        decreases inbox_ids@.len() - i,
    {
        assert(ids[i as int] == inbox_ids@[i as int]@);
        if membership.contains(&inbox_ids[i]) != present {
            assert(membership@.contains_key(ids[i as int]) != present);
            return false;
        }
        i += 1;
    }
    true
}

/// Whether a commit would change nothing.
fn would_change_nothing(membership: &GroupMembership, content: &CommitContent) -> (nothing: bool)
    ensures
        nothing == changes_nothing(membership@, content@),
{
    match content {
        CommitContent::AddMembers { inbox_ids } => all_members_are(membership, inbox_ids, true),
        CommitContent::RemoveMembers { inbox_ids } => all_members_are(membership, inbox_ids, false),
        _ => false,
    }
}

impl MlsGroup {
    /// Queues the intent to send a message and stores the message as not
    /// published yet. The time and the id of the message are given by the
    /// caller; the id is the hash of what `message_id_preimage` gives. A
    /// message under an id that is taken is refused, and so is any message
    /// once the queue has given out all its numbers; nothing changes then.
    pub fn send_message(
        &self,
        context: &mut XmtpMlsLocalContext,
        message: &Vec<u8>,
        now_ns: i64,
        message_id: Vec<u8>,
    ) -> (r: Result<Vec<u8>, GroupError>)
        ensures
            final(context).identity == old(context).identity,
            store_well_formed(final(context).store@),
            cursors_monotone(old(context).store@, final(context).store@),
            match r {
                Ok(id) => {
                    &&& id@ == message_id@
                    &&& !has_message(old(context).store@.messages, message_id@)
                    &&& old(context).store@.next_intent_id < i32::MAX
                    &&& final(context).store@ == (StoreView {
                        messages: old(context).store@.messages.push(
                            sent_message_row(
                                *old(context),
                                self.group_id@,
                                message_id@,
                                message@,
                                now_ns,
                            ),
                        ),
                        ..with_queued_intent(
                            old(context).store@,
                            IntentKind::SendMessage,
                            self.group_id@,
                            send_payload(message@, now_ns),
                        )
                    })
                },
                Err(e) => {
                    &&& has_message(old(context).store@.messages, message_id@)
                        || old(context).store@.next_intent_id == i32::MAX
                    &&& final(context).store@ == old(context).store@
                    &&& e is Storage
                },
            },
    {
        context.store.check();
        if context.store.get_group_message(&message_id).is_some() {
            return Err(
                GroupError::Storage(
                    StorageError::DieselResult(
                        "UNIQUE constraint failed: group_messages.id".to_owned(),
                    ),
                ),
            );
        }
        let plain_envelope = PlaintextEnvelope::new(clone_bytes(message), decimal_digits(now_ns));
        let encoded_envelope = plain_envelope.encode();
        let intent_data = SendMessageIntentData::new(encoded_envelope).to_bytes();
        match self.queue(context, IntentKind::SendMessage, intent_data) {
            Ok(_) => {},
            Err(e) => {
                return Err(e);
            },
        }
        let group_message = StoredGroupMessage {
            id: clone_bytes(&message_id),
            group_id: clone_bytes(&self.group_id),
            decrypted_message_bytes: clone_bytes(message),
            sent_at_ns: now_ns,
            kind: GroupMessageKind::Application,
            sender_installation_id: context.installation_public_key(),
            sender_inbox_id: context.inbox_id(),
            delivery_status: DeliveryStatus::Unpublished,
        };
        let _ = context.store.insert_group_message(group_message);
        Ok(message_id)
    }

    /// Takes the intent of the group that has waited longest and says what
    /// is to be sent for it.
    pub fn plan_next_publish(&self, context: &mut XmtpMlsLocalContext) -> (outcome: Result<
        PublishPlan,
        GroupError,
    >)
        ensures
            final(context).identity == old(context).identity,
            store_well_formed(final(context).store@),
            cursors_monotone(old(context).store@, final(context).store@),
            publish_planned(
                old(context).store@,
                final(context).store@,
                *old(context),
                self.group_id@,
                outcome,
            ),
    {
        context.store.check();
        let mut states: Vec<IntentState> = Vec::new();
        states.push(IntentState::ToPublish);
        assert(states@ =~= seq![IntentState::ToPublish]);
        let mut pending = context.store.find_group_intents(&self.group_id, Some(states), None);
        if pending.len() == 0 {
            return Ok(PublishPlan::Nothing);
        }
        let intent = pending.swap_remove(0);
        proof {
            let store = context.store@;
            let pass = intent_filter(self.group_id@, Some(seq![IntentState::ToPublish]), None);
            crate::util::lemma_first_matching_len(store.intents, pass, store.intents.len());
            lemma_first_matching_head(store.intents, pass, store.intents.len());
            assert(intent@ == pending_intents(store, self.group_id@)[0]);
            let at = choose|at: int| 0 <= at < store.intents.len() && store.intents[at] == intent@;
            let place = intent_place(store.intents, intent@.id);
            assert(0 <= place < store.intents.len() && store.intents[place].id == intent@.id);
            if at != place {
                if at < place {
                    assert(store.intents[at].id < store.intents[place].id);
                } else {
                    assert(store.intents[place].id < store.intents[at].id);
                }
            }
            assert(intent_row(store.intents, intent@.id) == intent@);
            assert(intent@.state == IntentState::ToPublish);
        }
        let content = match read_intent(&intent) {
            None => {
                let _ = context.store.apply_intent_event(intent.id, IntentEvent::Fatal);
                return Err(GroupError::Intent(IntentError::Decode));
            },
            Some(Planned::Message(envelope)) => {
                return Ok(PublishPlan::Message { intent_id: intent.id, envelope });
            },
            Some(Planned::Commit(content)) => content,
        };
        let state = match context.store.load_mls_group(&self.group_id) {
            Some(s) => s,
            None => {
                return Err(GroupError::GroupNotFound);
            },
        };
        match validate_and_apply(&state.extensions, context.identity.inbox_id(), &content) {
            Ok(_) => {},
            Err(e) => {
                let _ = context.store.apply_intent_event(intent.id, IntentEvent::Fatal);
                return Err(GroupError::CommitValidation(e));
            },
        }
        let nothing = match &state.extensions.group_membership {
            Some(m) => would_change_nothing(m, &content),
            None => false,
        };
        if nothing {
            let _ = context.store.apply_intent_event(intent.id, IntentEvent::AlreadyInEffect);
            return Ok(PublishPlan::Settled { intent_id: intent.id });
        }
        Ok(PublishPlan::Commit { intent_id: intent.id, epoch: state.epoch, content })
    }
}

/// What a caller that waits for an intent does next.
#[derive(Clone, Copy, Debug, PartialEq, Eq, Structural)]
pub enum SyncStep {
    /// The intent is committed: the wait is over.
    Resolved,
    /// The intent is not settled yet: publish, pull and look again.
    Continue,
}

/// What a caller that waits for an intent does after `rounds_done` rounds
/// of publishing and pulling: it stops with success once the intent is
/// committed and with failure once the intent has failed; it gives up after
/// the rounds allowed; and otherwise it goes on.
pub open spec fn sync_step(store: StoreView, intent_id: i32, rounds_done: usize) -> Result<
    SyncStep,
    GroupError,
> {
    if !has_intent(store.intents, intent_id) {
        Err(GroupError::Storage(StorageError::NotFound))
    } else {
        match intent_row(store.intents, intent_id).state {
            IntentState::Committed => Ok(SyncStep::Resolved),
            IntentState::Error => Err(GroupError::IntentFailed),
            _ => if rounds_done >= MAX_SYNC_ROUNDS {
                Err(GroupError::SyncRoundsExhausted)
            } else {
                Ok(SyncStep::Continue)
            },
        }
    }
}

impl MlsGroup {
    /// Notes that what was planned for an intent has been sent, under the
    /// hash by which it will be known again when it comes back on the
    /// group's stream, and with what is to be sent once it is merged. An
    /// intent that does not wait to be published is not found, and nothing
    /// changes then.
    pub fn record_published(
        &self,
        context: &mut XmtpMlsLocalContext,
        intent_id: i32,
        payload_hash: Vec<u8>,
        post_commit_data: Option<Vec<u8>>,
    ) -> (r: Result<StoredGroupIntent, GroupError>)
        ensures
            final(context).identity == old(context).identity,
            store_well_formed(final(context).store@),
            cursors_monotone(old(context).store@, final(context).store@),
            match r {
                Ok(row) => {
                    &&& has_intent(old(context).store@.intents, intent_id)
                    &&& intent_step(
                        intent_row(old(context).store@.intents, intent_id),
                        (IntentEvent::Published { payload_hash, post_commit_data })@,
                    ) == Some(row@)
                    &&& final(context).store@ == with_intent_event(
                        old(context).store@,
                        intent_row(old(context).store@.intents, intent_id),
                        (IntentEvent::Published { payload_hash, post_commit_data })@,
                    )
                },
                Err(e) => {
                    &&& !has_intent(old(context).store@.intents, intent_id) || intent_row(
                        old(context).store@.intents,
                        intent_id,
                    ).state != IntentState::ToPublish
                    &&& final(context).store@ == old(context).store@
                    &&& e == GroupError::Storage(StorageError::NotFound)
                },
            },
    {
        context.store.check();
        match context.store.set_group_intent_published(intent_id, payload_hash, post_commit_data) {
            Ok(row) => Ok(row),
            Err(_) => Err(GroupError::Storage(StorageError::NotFound)),
        }
    }

    /// Says what a caller that waits for an intent to take effect does next.
    pub fn sync_decision(&self, context: &XmtpMlsLocalContext, intent_id: i32, rounds_done: usize) -> (r:
        Result<SyncStep, GroupError>)
        ensures
            r == sync_step(context.store@, intent_id, rounds_done),
    {
        match context.store.find_group_intent(intent_id) {
            None => Err(GroupError::Storage(StorageError::NotFound)),
            Some(intent) => match intent.state {
                IntentState::Committed => Ok(SyncStep::Resolved),
                IntentState::Error => Err(GroupError::IntentFailed),
                _ => if rounds_done >= MAX_SYNC_ROUNDS {
                    Err(GroupError::SyncRoundsExhausted)
                } else {
                    Ok(SyncStep::Continue)
                },
            },
        }
    }
}

/// A caller that waits for an intent stops: it goes on only while the
/// intent is neither committed nor failed, and for no more rounds than are
/// allowed.
pub proof fn law_waiting_for_an_intent_ends(store: StoreView, intent_id: i32, rounds_done: usize)
    ensures
        sync_step(store, intent_id, rounds_done) == Ok::<SyncStep, GroupError>(SyncStep::Continue)
            ==> rounds_done < MAX_SYNC_ROUNDS && has_intent(store.intents, intent_id) && (intent_row(
            store.intents,
            intent_id,
        ).state == IntentState::ToPublish || intent_row(store.intents, intent_id).state
            == IntentState::Published),
        sync_step(store, intent_id, rounds_done) == Ok::<SyncStep, GroupError>(SyncStep::Resolved)
            <==> has_intent(store.intents, intent_id) && intent_row(store.intents, intent_id).state
            == IntentState::Committed,
{
}

/// Whether what is known of the installations of a group's members is
/// stale: it was last looked up more than the interval ago.
pub open spec fn installations_stale(last_checked_ns: i64, now_ns: i64, interval_ns: i64) -> bool {
    now_ns - last_checked_ns > interval_ns
}

impl MlsGroup {
    /// Says whether the installations of the group's members are to be
    /// looked up again before a message is sent, and notes the time where
    /// they are.
    pub fn maybe_update_installations(
        &self,
        context: &mut XmtpMlsLocalContext,
        now_ns: i64,
        interval_ns: i64,
    ) -> (r: Result<bool, GroupError>)
        ensures
            final(context).identity == old(context).identity,
            store_well_formed(final(context).store@),
            cursors_monotone(old(context).store@, final(context).store@),
            match r {
                Ok(due) => {
                    &&& has_group(old(context).store@.groups, self.group_id@)
                    &&& due == installations_stale(
                        group_row(
                            old(context).store@.groups,
                            self.group_id@,
                        ).installations_last_checked,
                        now_ns,
                        interval_ns,
                    )
                    &&& !due ==> final(context).store@ == old(context).store@
                    &&& due ==> final(context).store@ == (StoreView {
                        groups: with_time_checked(
                            old(context).store@.groups,
                            self.group_id@,
                            now_ns,
                        ),
                        ..old(context).store@
                    })
                },
                Err(e) => {
                    &&& !has_group(old(context).store@.groups, self.group_id@)
                    &&& final(context).store@ == old(context).store@
                    &&& e == GroupError::GroupNotFound
                },
            },
    {
        context.store.check();
        let row = match context.store.find_group(&self.group_id) {
            Some(row) => row,
            None => {
                return Err(GroupError::GroupNotFound);
            },
        };
        let due = (now_ns as i128) - (row.installations_last_checked as i128) > (interval_ns as i128);
        if due {
            let _ = context.store.update_installations_time_checked(&self.group_id, now_ns);
        }
        Ok(due)
    }
}

} // verus!
