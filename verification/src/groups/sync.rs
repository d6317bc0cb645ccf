//! What a group does with what comes in from the network: commits and
//! application messages, each at most once, in the order of the server.

use vstd::prelude::*;
use crate::client::XmtpMlsLocalContext;
use crate::groups::commit::{apply_commit, validate_and_apply, CommitContent, CommitView};
use crate::groups::errors::{CommitValidationError, MessageProcessingError};
use crate::groups::extensions::ExtensionsView;
use crate::groups::state::{GroupState, GroupStateView};
use crate::groups::MlsGroup;
use crate::storage::errors::StorageError;
use crate::storage::group_intent::{
    intent_step, opt_bytes_view, IntentEvent, IntentEventView, IntentRow, IntentState,
    StoredGroupIntent,
};
use crate::storage::group_message::{
    DeliveryStatus, GroupMessageKind, MessageRow, StoredGroupMessage,
};
use crate::storage::refresh_state::{cursor_of, EntityKind};
use crate::storage::store::{
    cursors_monotone, has_intent, has_message, hash_filter, intent_place, intent_row,
    message_place, mls_group_of, republished, store_well_formed, StoreView,
};
use crate::codec::{framed, put_framed};
use crate::groups::intents::{members_payload, AddressesOrInstallationIds, MembersView};
use crate::proto::plaintext::{parse_envelope, PlaintextEnvelope};
use crate::util::{bytes_eq, clone_bytes, clone_strings, first_matching, text_views};

verus! {

/// A commit that came in, as the MLS layer read it.
#[derive(Debug, PartialEq, Eq)]
pub struct InboundCommit {
    /// The inbox of the member who made the commit.
    pub actor_inbox_id: String,
    /// The epoch that the commit was made in.
    pub epoch: u64,
    /// The hash by which the one who sent the commit knows it again.
    pub payload_hash: Vec<u8>,
    /// What the commit does.
    pub content: CommitContent,
    /// The installation that the commit was sent from.
    pub actor_installation_id: Vec<u8>,
    /// The id under which a record of the commit is stored as a message.
    pub message_id: Vec<u8>,
}

/// The mathematical value of an inbound commit.
pub struct InboundCommitView {
    pub actor_inbox_id: Seq<char>,
    pub epoch: u64,
    pub payload_hash: Seq<u8>,
    pub content: CommitView,
    pub actor_installation_id: Seq<u8>,
    pub message_id: Seq<u8>,
}

impl View for InboundCommit {
    type V = InboundCommitView;

    open spec fn view(&self) -> InboundCommitView {
        InboundCommitView {
            actor_inbox_id: self.actor_inbox_id@,
            epoch: self.epoch,
            payload_hash: self.payload_hash@,
            content: self.content@,
            actor_installation_id: self.actor_installation_id@,
            message_id: self.message_id@,
        }
    }
}

/// The state of a group after a commit is merged into it, as seen by the
/// installation of the inbox `own`: the next epoch, what the commit leaves
/// the group to carry, and active while the own inbox is in the group.
pub open spec fn merged_state(state: GroupStateView, after: ExtensionsView, own: Seq<char>) -> GroupStateView {
    GroupStateView {
        group_id: state.group_id,
        epoch: (state.epoch + 1) as u64,
        extensions: after,
        is_active: after.group_membership is Some && after.group_membership.unwrap().contains_key(
            own,
        ),
    }
}

/// Whether a commit is of the epoch that the group is in, and the group can
/// move on from it.
pub open spec fn of_current_epoch(state: GroupStateView, commit: InboundCommitView) -> bool {
    commit.epoch == state.epoch && state.epoch < u64::MAX
}

/// The intent of this installation that a commit with the given hash
/// belongs to: the first intent published under the hash, if it is of the
/// group and still published.
pub open spec fn own_intent(intents: Seq<IntentRow>, group_id: Seq<u8>, payload_hash: Seq<u8>) -> Option<
    IntentRow,
> {
    let found = first_matching(intents, hash_filter(payload_hash), 1);
    if found.len() == 1 && found[0].group_id == group_id && found[0].state
        == IntentState::Published {
        Some(found[0])
    } else {
        None
    }
}

/// The queue after an event has happened to the intent that a commit
/// belongs to, if it belongs to one.
pub open spec fn settle_own_intent(
    intents: Seq<IntentRow>,
    group_id: Seq<u8>,
    payload_hash: Seq<u8>,
    event: IntentEventView,
) -> Seq<IntentRow> {
    match own_intent(intents, group_id, payload_hash) {
        Some(row) => intents.update(
            intent_place(intents, row.id),
            intent_step(row, event).unwrap(),
        ),
        None => intents,
    }
}

/// What came of a commit that was merged.
#[derive(Debug, PartialEq, Eq)]
pub struct MergedCommit {
    /// Whether the commit was made by this installation.
    pub own: bool,
    /// What is to be sent now that the commit is merged: the welcomes for
    /// the members that an own commit added.
    pub post_commit_data: Option<Vec<u8>>,
}

/// Whether `after` is the store that `before` becomes when a commit of a
/// group is processed with the given outcome.
///
/// A commit of a group that the store keeps no state for is not found and
/// changes nothing. A commit of another epoch than the group is in is not
/// allowed; where it is an own commit, its intent goes back to be
/// published. A commit that the rules of the group do not admit is
/// refused; where it is an own commit, its intent fails. Every other
/// commit is merged: the group moves to the next epoch, an own commit
/// settles its intent as committed, and every other published intent of
/// the group goes back to be published.
pub open spec fn commit_processed(
    before: StoreView,
    after: StoreView,
    own_inbox: Seq<char>,
    group_id: Seq<u8>,
    commit: InboundCommitView,
    outcome: Result<MergedCommit, MessageProcessingError>,
) -> bool {
    let state = mls_group_of(before.mls_groups, group_id);
    let own = own_intent(before.intents, group_id, commit.payload_hash);
    match outcome {
        Err(MessageProcessingError::Storage(StorageError::NotFound)) => {
            &&& state is None
            &&& after == before
        },
        Err(MessageProcessingError::EpochIncrementNotAllowed) => {
            &&& state is Some
            &&& !of_current_epoch(state.unwrap(), commit)
            &&& after == (StoreView {
                intents: settle_own_intent(
                    before.intents,
                    group_id,
                    commit.payload_hash,
                    IntentEventView::Republish,
                ),
                ..before
            })
        },
        Err(MessageProcessingError::CommitValidation(e)) => {
            &&& state is Some
            &&& of_current_epoch(state.unwrap(), commit)
            &&& apply_commit(state.unwrap().extensions, commit.actor_inbox_id, commit.content)
                == Err::<ExtensionsView, CommitValidationError>(e)
            &&& after == (StoreView {
                intents: settle_own_intent(
                    before.intents,
                    group_id,
                    commit.payload_hash,
                    IntentEventView::Fatal,
                ),
                ..before
            })
        },
        Ok(merged) => {
            &&& state is Some
            &&& of_current_epoch(state.unwrap(), commit)
            &&& apply_commit(state.unwrap().extensions, commit.actor_inbox_id, commit.content) is Ok
            &&& mls_group_of(after.mls_groups, group_id) == Some(
                merged_state(
                    state.unwrap(),
                    apply_commit(
                        state.unwrap().extensions,
                        commit.actor_inbox_id,
                        commit.content,
                    ).unwrap(),
                    own_inbox,
                ),
            )
            &&& forall|other: Seq<u8>|
                other != group_id ==> #[trigger] mls_group_of(after.mls_groups, other)
                    == mls_group_of(before.mls_groups, other)
            &&& after.intents == republished(
                settle_own_intent(
                    before.intents,
                    group_id,
                    commit.payload_hash,
                    IntentEventView::CommitObserved,
                ),
                group_id,
            )
            &&& after == (StoreView {
                intents: after.intents,
                mls_groups: after.mls_groups,
                ..before
            })
            &&& merged.own == (own is Some)
            &&& opt_bytes_view(merged.post_commit_data) == (match own {
                Some(row) => row.post_commit_data,
                None => None,
            })
        },
        Err(_) => false,
    }
}

/// The intent of this installation that a commit with the given hash
/// belongs to.
fn find_own_intent(context: &XmtpMlsLocalContext, group_id: &Vec<u8>, payload_hash: &Vec<u8>) -> (r:
    Option<StoredGroupIntent>)
    ensures
        match r {
            Some(row) => {
                &&& own_intent(context.store@.intents, group_id@, payload_hash@) == Some(row@)
                &&& has_intent(context.store@.intents, row@.id)
                &&& intent_row(context.store@.intents, row@.id) == row@
                &&& row@.state == IntentState::Published
            },
            None => own_intent(context.store@.intents, group_id@, payload_hash@) is None,
        },
{
    match context.store.find_group_intent_by_payload_hash(payload_hash) {
        Some(row) => {
            if bytes_eq(&row.group_id, group_id) && row.state == IntentState::Published {
                Some(row)
            } else {
                None
            }
        },
        None => None,
    }
}

/// Processes a commit of a group, whatever the cursor of the group says.
pub fn process_commit(
    context: &mut XmtpMlsLocalContext,
    group_id: &Vec<u8>,
    commit: &InboundCommit,
) -> (outcome: Result<MergedCommit, MessageProcessingError>)
    ensures
        final(context).identity == old(context).identity,
        store_well_formed(final(context).store@),
        cursors_monotone(old(context).store@, final(context).store@),
        commit_processed(
            old(context).store@,
            final(context).store@,
            old(context).identity.inbox_id@,
            group_id@,
            commit@,
            outcome,
        ),
{
    context.store.check();
    let state = match context.store.load_mls_group(group_id) {
        Some(s) => s,
        None => {
            return Err(MessageProcessingError::Storage(StorageError::NotFound));
        },
    };
    let own = find_own_intent(context, group_id, &commit.payload_hash);
    if !(commit.epoch == state.epoch && state.epoch < u64::MAX) {
        match &own {
            Some(row) => {
                let _ = context.store.apply_intent_event(row.id, IntentEvent::Republish);
            },
            None => {},
        }
        return Err(MessageProcessingError::EpochIncrementNotAllowed);
    }
    let after = match validate_and_apply(&state.extensions, &commit.actor_inbox_id, &commit.content) {
        Ok(e) => e,
        Err(e) => {
            match &own {
                Some(row) => {
                    let _ = context.store.apply_intent_event(row.id, IntentEvent::Fatal);
                },
                None => {},
            }
            return Err(MessageProcessingError::CommitValidation(e));
        },
    };
    let is_active = match &after.group_membership {
        Some(m) => m.contains(context.identity.inbox_id()),
        None => false,
    };
    let merged = GroupState {
        group_id: clone_bytes(group_id),
        epoch: state.epoch + 1,
        extensions: after,
        is_active,
    };
    let ghost start = context.store@;
    context.store.save_mls_group(merged);
    let post_commit_data = match &own {
        Some(row) => {
            let _ = context.store.apply_intent_event(row.id, IntentEvent::CommitObserved);
            crate::storage::group_intent::clone_opt_bytes(&row.post_commit_data)
        },
        None => None,
    };
    context.store.republish_published_intents(group_id);
    Ok(MergedCommit { own: own.is_some(), post_commit_data })
}

/// An application message that came in, as the MLS layer decrypted it.
#[derive(Debug, PartialEq, Eq)]
pub struct InboundApplication {
    pub sender_inbox_id: String,
    pub sender_installation_id: Vec<u8>,
    /// The id under which the message is stored.
    pub message_id: Vec<u8>,
    /// The hash by which the one who sent the message knows it again.
    pub payload_hash: Vec<u8>,
    /// The envelope that was sealed into the message.
    pub envelope: Vec<u8>,
}

/// The mathematical value of an inbound application message.
pub struct InboundApplicationView {
    pub sender_inbox_id: Seq<char>,
    pub sender_installation_id: Seq<u8>,
    pub message_id: Seq<u8>,
    pub payload_hash: Seq<u8>,
    pub envelope: Seq<u8>,
}

impl View for InboundApplication {
    type V = InboundApplicationView;

    open spec fn view(&self) -> InboundApplicationView {
        InboundApplicationView {
            sender_inbox_id: self.sender_inbox_id@,
            sender_installation_id: self.sender_installation_id@,
            message_id: self.message_id@,
            payload_hash: self.payload_hash@,
            envelope: self.envelope@,
        }
    }
}

/// What an envelope of a group's stream holds.
#[derive(Debug, PartialEq, Eq)]
pub enum InboundBody {
    Commit(InboundCommit),
    Application(InboundApplication),
}

/// The mathematical value of what an envelope holds.
pub enum InboundBodyView {
    Commit(InboundCommitView),
    Application(InboundApplicationView),
}

impl View for InboundBody {
    type V = InboundBodyView;

    open spec fn view(&self) -> InboundBodyView {
        match self {
            InboundBody::Commit(c) => InboundBodyView::Commit(c@),
            InboundBody::Application(a) => InboundBodyView::Application(a@),
        }
    }
}

/// An envelope of a group's stream: the number that the server gave it,
/// the time it was taken in, and what it holds.
#[derive(Debug, PartialEq, Eq)]
pub struct InboundEnvelope {
    pub id: u64,
    pub created_ns: u64,
    pub body: InboundBody,
}

/// The mathematical value of an envelope.
pub struct InboundEnvelopeView {
    pub id: u64,
    pub created_ns: u64,
    pub body: InboundBodyView,
}

impl View for InboundEnvelope {
    type V = InboundEnvelopeView;

    open spec fn view(&self) -> InboundEnvelopeView {
        InboundEnvelopeView { id: self.id, created_ns: self.created_ns, body: self.body@ }
    }
}

/// The time of an envelope as the store keeps times.
pub open spec fn timestamp_of(created_ns: u64) -> i64 {
    if created_ns > i64::MAX {
        i64::MAX
    } else {
        created_ns as i64
    }
}

/// The time of an envelope as the store keeps times.
pub fn stored_timestamp(created_ns: u64) -> (t: i64)
    ensures
        t == timestamp_of(created_ns),
{
    if created_ns > i64::MAX as u64 {
        i64::MAX
    } else {
        created_ns as i64
    }
}

/// The table of messages after a message was received: a message that is
/// there already, stored when it was sent, is marked as published at the
/// time of the envelope; a new one is added.
pub open spec fn with_received_message(messages: Seq<MessageRow>, row: MessageRow) -> Seq<MessageRow> {
    if has_message(messages, row.id) {
        messages.update(
            message_place(messages, row.id),
            MessageRow {
                delivery_status: DeliveryStatus::Published,
                sent_at_ns: row.sent_at_ns,
                ..messages[message_place(messages, row.id)]
            },
        )
    } else {
        messages.push(row)
    }
}

/// Whether `after` is the store that `before` becomes when an application
/// message of a group is processed with the given outcome. A message of a
/// group that the store keeps no state for is not found, and one whose
/// envelope cannot be read is an invalid payload; neither changes anything.
/// Every other message is stored as published, and where it is an own
/// message, its intent is settled as committed.
pub open spec fn application_processed(
    before: StoreView,
    after: StoreView,
    group_id: Seq<u8>,
    created_ns: u64,
    message: InboundApplicationView,
    outcome: Result<(), MessageProcessingError>,
) -> bool {
    let state = mls_group_of(before.mls_groups, group_id);
    match outcome {
        Err(MessageProcessingError::Storage(StorageError::NotFound)) => {
            &&& state is None
            &&& after == before
        },
        Err(MessageProcessingError::InvalidPayload) => {
            &&& state is Some
            &&& parse_envelope(message.envelope) is None
            &&& after == before
        },
        Ok(_) => {
            &&& state is Some
            &&& parse_envelope(message.envelope) is Some
            &&& after == (StoreView {
                intents: settle_own_intent(
                    before.intents,
                    group_id,
                    message.payload_hash,
                    IntentEventView::CommitObserved,
                ),
                messages: with_received_message(
                    before.messages,
                    MessageRow {
                        id: message.message_id,
                        group_id,
                        decrypted_message_bytes: parse_envelope(message.envelope).unwrap().0,
                        sent_at_ns: timestamp_of(created_ns),
                        kind: GroupMessageKind::Application,
                        sender_installation_id: message.sender_installation_id,
                        sender_inbox_id: message.sender_inbox_id,
                        delivery_status: DeliveryStatus::Published,
                    },
                ),
                ..before
            })
        },
        Err(_) => false,
    }
}

/// Stores a message that was received.
fn store_received_message(context: &mut XmtpMlsLocalContext, row: StoredGroupMessage)
    ensures
        final(context).identity == old(context).identity,
        store_well_formed(final(context).store@),
        cursors_monotone(old(context).store@, final(context).store@),
        final(context).store@ == (StoreView {
            messages: with_received_message(old(context).store@.messages, row@),
            ..old(context).store@
        }),
{
    context.store.check();
    if context.store.get_group_message(&row.id).is_some() {
        let _ = context.store.set_delivery_status_to_published(&row.id, row.sent_at_ns);
    } else {
        let _ = context.store.insert_group_message(row);
    }
}

/// Processes an application message of a group, whatever the cursor of the
/// group says.
pub fn process_application(
    context: &mut XmtpMlsLocalContext,
    group_id: &Vec<u8>,
    created_ns: u64,
    message: &InboundApplication,
) -> (outcome: Result<(), MessageProcessingError>)
    ensures
        final(context).identity == old(context).identity,
        store_well_formed(final(context).store@),
        cursors_monotone(old(context).store@, final(context).store@),
        application_processed(
            old(context).store@,
            final(context).store@,
            group_id@,
            created_ns,
            message@,
            outcome,
        ),
{
    context.store.check();
    if context.store.load_mls_group(group_id).is_none() {
        return Err(MessageProcessingError::Storage(StorageError::NotFound));
    }
    let envelope = match PlaintextEnvelope::decode(&message.envelope) {
        Some(e) => e,
        None => {
            return Err(MessageProcessingError::InvalidPayload);
        },
    };
    let row = StoredGroupMessage {
        id: clone_bytes(&message.message_id),
        group_id: clone_bytes(group_id),
        decrypted_message_bytes: envelope.content,
        sent_at_ns: stored_timestamp(created_ns),
        kind: GroupMessageKind::Application,
        sender_installation_id: clone_bytes(&message.sender_installation_id),
        sender_inbox_id: message.sender_inbox_id.clone(),
        delivery_status: DeliveryStatus::Published,
    };
    store_received_message(context, row);
    match find_own_intent(context, group_id, &message.payload_hash) {
        Some(own) => {
            let _ = context.store.apply_intent_event(own.id, IntentEvent::CommitObserved);
        },
        None => {},
    }
    Ok(())
}

/// The record of a change of membership: the inboxes that came and the
/// inboxes that went, each list as the payload of a list of members with
/// its length in front.
pub open spec fn membership_change_payload(added: Seq<Seq<char>>, removed: Seq<Seq<char>>) -> Seq<u8> {
    framed(members_payload(MembersView::AccountAddresses(added))) + framed(
        members_payload(MembersView::AccountAddresses(removed)),
    )
}

/// The record of a commit that is stored as a message, where the commit
/// changes the membership of the group.
pub open spec fn membership_change_of(
    group_id: Seq<u8>,
    created_ns: u64,
    commit: InboundCommitView,
) -> Option<MessageRow> {
    let payload = match commit.content {
        CommitView::AddMembers { inbox_ids } => Some(
            membership_change_payload(inbox_ids, Seq::empty()),
        ),
        CommitView::RemoveMembers { inbox_ids } => Some(
            membership_change_payload(Seq::empty(), inbox_ids),
        ),
        _ => None,
    };
    match payload {
        Some(bytes) => Some(
            MessageRow {
                id: commit.message_id,
                group_id,
                decrypted_message_bytes: bytes,
                sent_at_ns: timestamp_of(created_ns),
                kind: GroupMessageKind::MembershipChange,
                sender_installation_id: commit.actor_installation_id,
                sender_inbox_id: commit.actor_inbox_id,
                delivery_status: DeliveryStatus::Published,
            },
        ),
        None => None,
    }
}

/// The table of messages after the record of a merged commit was stored:
/// the record is added where the commit changes the membership and no
/// message is stored under its id yet.
pub open spec fn with_membership_change(
    messages: Seq<MessageRow>,
    group_id: Seq<u8>,
    created_ns: u64,
    commit: InboundCommitView,
) -> Seq<MessageRow> {
    match membership_change_of(group_id, created_ns, commit) {
        Some(row) => if has_message(messages, row.id) {
            messages
        } else {
            messages.push(row)
        },
        None => messages,
    }
}

/// The bytes of the record of a change of membership.
fn encode_membership_change(added: &Vec<String>, removed: &Vec<String>) -> (bytes: Vec<u8>)
    ensures
        bytes@ == membership_change_payload(text_views(added@), text_views(removed@)),
{
    let first = AddressesOrInstallationIds::AccountAddresses(clone_strings(added)).to_bytes();
    let second = AddressesOrInstallationIds::AccountAddresses(clone_strings(removed)).to_bytes();
    let mut bytes: Vec<u8> = Vec::new();
    put_framed(&first, &mut bytes);
    put_framed(&second, &mut bytes);
    assert(bytes@ =~= membership_change_payload(text_views(added@), text_views(removed@)));
    bytes
}

/// Stores the record of a merged commit that changes the membership.
fn record_membership_change(
    context: &mut XmtpMlsLocalContext,
    group_id: &Vec<u8>,
    created_ns: u64,
    commit: &InboundCommit,
)
    ensures
        final(context).identity == old(context).identity,
        store_well_formed(final(context).store@),
        cursors_monotone(old(context).store@, final(context).store@),
        final(context).store@ == (StoreView {
            messages: with_membership_change(
                old(context).store@.messages,
                group_id@,
                created_ns,
                commit@,
            ),
            ..old(context).store@
        }),
{
    context.store.check();
    let none: Vec<String> = Vec::new();
    assert(text_views(none@) =~= Seq::<Seq<char>>::empty());
    let payload = match &commit.content {
        CommitContent::AddMembers { inbox_ids } => encode_membership_change(inbox_ids, &none),
        CommitContent::RemoveMembers { inbox_ids } => encode_membership_change(&none, inbox_ids),
        _ => {
            return ;
        },
    };
    let row = StoredGroupMessage {
        id: clone_bytes(&commit.message_id),
        group_id: clone_bytes(group_id),
        decrypted_message_bytes: payload,
        sent_at_ns: stored_timestamp(created_ns),
        kind: GroupMessageKind::MembershipChange,
        sender_installation_id: clone_bytes(&commit.actor_installation_id),
        sender_inbox_id: commit.actor_inbox_id.clone(),
        delivery_status: DeliveryStatus::Published,
    };
    let _ = context.store.insert_group_message(row);
}

/// What came of an envelope that was processed.
#[derive(Debug, PartialEq, Eq)]
pub enum Processed {
    /// A commit was merged.
    Commit(MergedCommit),
    /// An application message was stored.
    Application,
}

/// The epochs of a commit and of the group, where the store keeps the group
/// and the commit is of an epoch more than one past that of the group: such
/// a commit waits for the commits in between.
pub open spec fn waits_for_commits(
    before: StoreView,
    group_id: Seq<u8>,
    envelope: InboundEnvelopeView,
) -> Option<(u64, u64)> {
    match (envelope.body, mls_group_of(before.mls_groups, group_id)) {
        (InboundBodyView::Commit(commit), Some(state)) => if commit.epoch > state.epoch + 1 {
            Some((commit.epoch, state.epoch))
        } else {
            None
        },
        _ => None,
    }
}

/// Whether `after` is the store that `before` becomes when an envelope of a
/// group's stream is processed with the given outcome.
///
/// An envelope that is not past the cursor of the group is already
/// processed and changes nothing. A commit of an epoch more than one past
/// that of the group waits: nothing changes, the cursor stays, and the
/// envelope comes again. Every other envelope moves the cursor of the
/// group, and of no other stream, to its number, whatever comes of it; what
/// it holds is then processed as a commit or as an application message,
/// and a merged commit that changes the membership leaves a record among
/// the messages.
pub open spec fn envelope_processed(
    before: StoreView,
    after: StoreView,
    own_inbox: Seq<char>,
    group_id: Seq<u8>,
    envelope: InboundEnvelopeView,
    outcome: Result<Processed, MessageProcessingError>,
) -> bool {
    if envelope.id <= cursor_of(before.cursors, group_id, EntityKind::Group) {
        &&& outcome == Err::<Processed, MessageProcessingError>(
            MessageProcessingError::AlreadyProcessed(envelope.id),
        )
        &&& after == before
    } else if waits_for_commits(before, group_id, envelope) is Some {
        &&& outcome == Err::<Processed, MessageProcessingError>(
            MessageProcessingError::FutureEpoch {
                message_epoch: waits_for_commits(before, group_id, envelope).unwrap().0,
                group_epoch: waits_for_commits(before, group_id, envelope).unwrap().1,
            },
        )
        &&& after == before
    } else {
        let moved = StoreView { cursors: after.cursors, ..before };
        &&& cursor_of(after.cursors, group_id, EntityKind::Group) == envelope.id
        &&& forall|other_id: Seq<u8>, other_kind: EntityKind|
            !(other_id == group_id && other_kind == EntityKind::Group) ==> #[trigger] cursor_of(
                after.cursors,
                other_id,
                other_kind,
            ) == cursor_of(before.cursors, other_id, other_kind)
        &&& match envelope.body {
            InboundBodyView::Commit(commit) => match outcome {
                Ok(Processed::Commit(merged)) => {
                    &&& commit_processed(
                        moved,
                        StoreView { messages: before.messages, ..after },
                        own_inbox,
                        group_id,
                        commit,
                        Ok(merged),
                    )
                    &&& after.messages == with_membership_change(
                        before.messages,
                        group_id,
                        envelope.created_ns,
                        commit,
                    )
                },
                Ok(_) => false,
                Err(e) => commit_processed(moved, after, own_inbox, group_id, commit, Err(e)),
            },
            InboundBodyView::Application(message) => match outcome {
                Ok(Processed::Application) => application_processed(
                    moved,
                    after,
                    group_id,
                    envelope.created_ns,
                    message,
                    Ok(()),
                ),
                Ok(_) => false,
                Err(e) => application_processed(
                    moved,
                    after,
                    group_id,
                    envelope.created_ns,
                    message,
                    Err(e),
                ),
            },
        }
    }
}

impl MlsGroup {
    /// Processes an envelope of the group's stream: at most once, and the
    /// cursor of the group moves with it.
    pub fn process_envelope(&self, context: &mut XmtpMlsLocalContext, envelope: &InboundEnvelope) -> (outcome:
        Result<Processed, MessageProcessingError>)
        ensures
            final(context).identity == old(context).identity,
            store_well_formed(final(context).store@),
            cursors_monotone(old(context).store@, final(context).store@),
            envelope_processed(
                old(context).store@,
                final(context).store@,
                old(context).identity.inbox_id@,
                self.group_id@,
                envelope@,
                outcome,
            ),
            cursors_monotone(old(context).store@, final(context).store@),
    {
        let ghost before = context.store@;
        context.store.check();
        let cursor = context.store.get_last_cursor_for_id(&self.group_id, EntityKind::Group);
        if envelope.id <= cursor {
            return Err(MessageProcessingError::AlreadyProcessed(envelope.id));
        }
        match &envelope.body {
            InboundBody::Commit(commit) => match context.store.load_mls_group(&self.group_id) {
                Some(state) => {
                    if state.epoch < u64::MAX && commit.epoch > state.epoch + 1 {
                        return Err(
                            MessageProcessingError::FutureEpoch {
                                message_epoch: commit.epoch,
                                group_epoch: state.epoch,
                            },
                        );
                    }
                },
                None => {},
            },
            InboundBody::Application(_) => {},
        }
        let _ = context.store.update_cursor(&self.group_id, EntityKind::Group, envelope.id);
        let ghost moved = context.store@;
        assert(moved == StoreView { cursors: moved.cursors, ..before });
        match &envelope.body {
            InboundBody::Commit(commit) => {
                match process_commit(context, &self.group_id, commit) {
                    Ok(merged) => {
                        let ghost settled = context.store@;
                        record_membership_change(
                            context,
                            &self.group_id,
                            envelope.created_ns,
                            commit,
                        );
                        proof {
                            let after = context.store@;
                            assert(StoreView { messages: before.messages, ..after } == settled);
                            assert(after.cursors == moved.cursors);
                        }
                        Ok(Processed::Commit(merged))
                    },
                    Err(e) => {
                        proof {
                            assert(context.store@.cursors == moved.cursors);
                        }
                        Err(e)
                    },
                }
            },
            InboundBody::Application(message) => {
                match process_application(context, &self.group_id, envelope.created_ns, message) {
                    Ok(_) => {
                        proof {
                            assert(context.store@.cursors == moved.cursors);
                        }
                        Ok(Processed::Application)
                    },
                    Err(e) => {
                        proof {
                            assert(context.store@.cursors == moved.cursors);
                        }
                        Err(e)
                    },
                }
            },
        }
    }
}

/// What the members of a group share of its state: the epoch and what the
/// group carries.
pub struct SharedView {
    pub epoch: u64,
    pub extensions: ExtensionsView,
}

/// What a state holds of what the members share.
pub open spec fn shared_of(state: GroupStateView) -> SharedView {
    SharedView { epoch: state.epoch, extensions: state.extensions }
}

/// What the members share after one of them has taken in what an envelope
/// holds: a commit of the present epoch that the rules admit moves the
/// group to the next epoch, and nothing else moves it.
pub open spec fn replica_step(shared: SharedView, body: InboundBodyView) -> SharedView {
    match body {
        InboundBodyView::Commit(commit) => if commit.epoch == shared.epoch && shared.epoch
            < u64::MAX {
            match apply_commit(shared.extensions, commit.actor_inbox_id, commit.content) {
                Ok(after) => SharedView { epoch: (shared.epoch + 1) as u64, extensions: after },
                Err(_) => shared,
            }
        } else {
            shared
        },
        InboundBodyView::Application(_) => shared,
    }
}

/// What the members share after one of them has taken in a run of
/// envelopes, in order.
pub open spec fn replica_after(shared: SharedView, bodies: Seq<InboundBodyView>) -> SharedView
    decreases bodies.len(),
{
    if bodies.len() == 0 {
        shared
    } else {
        replica_step(replica_after(shared, bodies.drop_last()), bodies.last())
    }
}

/// An envelope that is processed moves the state that the store keeps for
/// the group as it moves the state of every other member that takes it in:
/// by what it holds and by nothing that is local to the installation.
pub proof fn law_envelope_moves_every_replica_alike(
    before: StoreView,
    after: StoreView,
    own_inbox: Seq<char>,
    group_id: Seq<u8>,
    envelope: InboundEnvelopeView,
    outcome: Result<Processed, MessageProcessingError>,
)
    requires
        envelope_processed(before, after, own_inbox, group_id, envelope, outcome),
        envelope.id > cursor_of(before.cursors, group_id, EntityKind::Group),
        mls_group_of(before.mls_groups, group_id) is Some,
    ensures
        mls_group_of(after.mls_groups, group_id) is Some,
        shared_of(mls_group_of(after.mls_groups, group_id).unwrap()) == replica_step(
            shared_of(mls_group_of(before.mls_groups, group_id).unwrap()),
            envelope.body,
        ),
{
}

/// Taking in two runs of envelopes one after the other is taking in the
/// one run that they make together.
pub proof fn lemma_replica_after_append(
    shared: SharedView,
    earlier: Seq<InboundBodyView>,
    later: Seq<InboundBodyView>,
)
    ensures
        replica_after(replica_after(shared, earlier), later) == replica_after(
            shared,
            earlier + later,
        ),
    decreases later.len(),
{
    if later.len() == 0 {
        assert(earlier + later =~= earlier);
    } else {
        lemma_replica_after_append(shared, earlier, later.drop_last());
        assert((earlier + later).drop_last() =~= earlier + later.drop_last());
        assert((earlier + later).last() == later.last());
    }
}

/// Two installations of a group that have taken in the same envelopes are
/// in the same epoch, whether they were in the group from the start or
/// joined it on the way: one that starts from the state that a welcome
/// hands over, which is the state after the envelopes up to the welcome,
/// and takes in the envelopes after it, ends where one ends that took in
/// them all.
pub proof fn law_replicas_reach_the_same_epoch(
    start: SharedView,
    before_welcome: Seq<InboundBodyView>,
    after_welcome: Seq<InboundBodyView>,
)
    ensures
        replica_after(replica_after(start, before_welcome), after_welcome).epoch == replica_after(
            start,
            before_welcome + after_welcome,
        ).epoch,
        replica_after(replica_after(start, before_welcome), after_welcome) == replica_after(
            start,
            before_welcome + after_welcome,
        ),
{
    lemma_replica_after_append(start, before_welcome, after_welcome);
}

/// An envelope is processed at most once: unless it waits, every envelope
/// of the stream up to its number is already processed after it and
/// changes nothing.
pub proof fn law_envelope_is_processed_at_most_once(
    before: StoreView,
    after: StoreView,
    own_inbox: Seq<char>,
    group_id: Seq<u8>,
    envelope: InboundEnvelopeView,
    outcome: Result<Processed, MessageProcessingError>,
    again: InboundEnvelopeView,
    later: StoreView,
    second_outcome: Result<Processed, MessageProcessingError>,
)
    requires
        envelope_processed(before, after, own_inbox, group_id, envelope, outcome),
        !(outcome matches Err(MessageProcessingError::FutureEpoch { .. })),
        again.id <= envelope.id,
        envelope_processed(after, later, own_inbox, group_id, again, second_outcome),
    ensures
        later == after,
        second_outcome == Err::<Processed, MessageProcessingError>(
            MessageProcessingError::AlreadyProcessed(again.id),
        ),
{
}

/// The epoch of a group never goes back, whatever is taken in.
pub proof fn law_epoch_never_goes_back(shared: SharedView, bodies: Seq<InboundBodyView>)
    ensures
        replica_after(shared, bodies).epoch >= shared.epoch,
    decreases bodies.len(),
{
    if bodies.len() > 0 {
        law_epoch_never_goes_back(shared, bodies.drop_last());
    }
}

/// Once an envelope has been processed, the intent that its commit belongs
/// to is published no more: it is committed, has failed, or waits to be
/// published again.
pub proof fn law_observed_commit_leaves_no_published_intent(
    before: StoreView,
    after: StoreView,
    own_inbox: Seq<char>,
    group_id: Seq<u8>,
    commit: InboundCommitView,
    outcome: Result<MergedCommit, MessageProcessingError>,
)
    requires
        store_well_formed(before),
        commit_processed(before, after, own_inbox, group_id, commit, outcome),
        mls_group_of(before.mls_groups, group_id) is Some,
        own_intent(before.intents, group_id, commit.payload_hash) is Some,
    ensures
        ({
            let row = own_intent(before.intents, group_id, commit.payload_hash).unwrap();
            let place = intent_place(before.intents, row.id);
            &&& after.intents.len() == before.intents.len()
            &&& after.intents[place].id == row.id
            &&& after.intents[place].state != IntentState::Published
            &&& outcome is Ok ==> after.intents[place].state == IntentState::Committed
        }),
{
    let row = own_intent(before.intents, group_id, commit.payload_hash).unwrap();
    let found = first_matching(before.intents, hash_filter(commit.payload_hash), 1);
    crate::util::lemma_first_matching_head(before.intents, hash_filter(commit.payload_hash), 1);
    let place = intent_place(before.intents, row.id);
    assert(0 <= place < before.intents.len() && before.intents[place].id == row.id);
    let at = choose|at: int| 0 <= at < before.intents.len() && before.intents[at] == row;
    if at != place {
        if at < place {
            assert(before.intents[at].id < before.intents[place].id);
        } else {
            assert(before.intents[place].id < before.intents[at].id);
        }
    }
}

} // verus!
