//! The client: an identity and a store, and the groups made from them.

use vstd::prelude::*;
use crate::groups::errors::MessageProcessingError;
use crate::groups::group_permissions::PreconfiguredPolicies;
use crate::associations::state::AssociationState;
use crate::groups::welcome::{joined_in, joined_row, sender_is_valid, WelcomeEnvelope};
use crate::groups::{chosen_policies, created_in, starting_group_state, MlsGroup};
use crate::identity::{Identity, IdentityError, SignatureRequest};
use crate::storage::errors::StorageError;
use crate::storage::group::{GroupMembershipState, GroupRow, Purpose};
use crate::storage::identity_update::latest_sequence_id;
use crate::storage::refresh_state::{cursor_of, EntityKind};
use crate::storage::store::{
    cursors_monotone, group_filter, group_row, group_views, has_group, opt_states_view,
    store_well_formed, EncryptedMessageStore, StoreView,
};
use crate::util::{clone_bytes, effective_limit, first_matching};

verus! {

/// Which network a client talks to.
#[derive(Clone, Copy, Debug)]
pub enum Network {
    Local(&'static str),
    Dev,
    Prod,
}

impl Default for Network {
    fn default() -> (n: Self)
        ensures
            n is Dev,
    {
        Network::Dev
    }
}

/// Why an operation of the client failed.
#[derive(Debug, PartialEq, Eq)]
pub enum ClientError {
    PublishError(String),
    Storage(StorageError),
    Identity(IdentityError),
    SyncingError(Vec<MessageProcessingError>),
    StreamInconsistency(String),
    Generic(String),
}

/// Whether `after` is the store that `before` becomes when a welcome is
/// processed with the given outcome.
///
/// A welcome that is not past the cursor of the installation's welcomes is
/// already processed and changes nothing. Every other welcome moves that
/// cursor, and no other, to its number. A welcome that could not be opened,
/// whose sender is not who the credential says, or whose group lacks its
/// immutable metadata, fails and changes nothing else. Every other welcome
/// is taken up: the state of the group is kept, and a row for the group is
/// added unless there is one already.
pub open spec fn welcome_processed(
    before: StoreView,
    after: StoreView,
    installation_key: Seq<u8>,
    envelope: WelcomeEnvelope,
    sender_state: crate::associations::state::StateView,
    now_ns: i64,
    outcome: Result<MlsGroup, MessageProcessingError>,
) -> bool {
    if envelope.id <= cursor_of(before.cursors, installation_key, EntityKind::Welcome) {
        &&& outcome == Err::<MlsGroup, MessageProcessingError>(
            MessageProcessingError::AlreadyProcessed(envelope.id),
        )
        &&& after == before
    } else {
        let moved = StoreView { cursors: after.cursors, ..before };
        let acceptable = envelope.welcome is Some && sender_is_valid(
            envelope.welcome.unwrap(),
            sender_state,
        ) && envelope.welcome.unwrap().group@.extensions.immutable_metadata is Some;
        &&& cursor_of(after.cursors, installation_key, EntityKind::Welcome) == envelope.id
        &&& forall|other_id: Seq<u8>, other_kind: EntityKind|
            !(other_id == installation_key && other_kind == EntityKind::Welcome)
                ==> #[trigger] cursor_of(after.cursors, other_id, other_kind) == cursor_of(
                before.cursors,
                other_id,
                other_kind,
            )
        &&& match outcome {
            Ok(group) => {
                let joined = envelope.welcome.unwrap().group@;
                &&& acceptable
                &&& joined_in(
                    moved,
                    after,
                    joined,
                    joined_row(
                        joined,
                        joined.extensions.immutable_metadata.unwrap().conversation_type,
                        sender_state.inbox_id,
                        now_ns,
                    ),
                )
                &&& group.group_id@ == joined.group_id
                &&& group.created_at_ns == group_row(after.groups, joined.group_id).created_at_ns
            },
            Err(MessageProcessingError::WelcomeProcessing(_)) => {
                &&& !acceptable
                &&& after == moved
            },
            Err(_) => false,
        }
    }
}

/// What a client needs to act locally: its identity and its store.
#[derive(Debug)]
pub struct XmtpMlsLocalContext {
    pub identity: Identity,
    pub store: EncryptedMessageStore,
}

impl XmtpMlsLocalContext {
    /// The public key of the installation, which names it.
    pub fn installation_public_key(&self) -> (key: Vec<u8>)
        ensures
            key@ == self.identity.installation_public_key@,
    {
        clone_bytes(&self.identity.installation_public_key)
    }

    /// The inbox that the installation belongs to.
    pub fn inbox_id(&self) -> (id: String)
        ensures
            id@ == self.identity.inbox_id@,
    {
        self.identity.inbox_id().clone()
    }

    /// The account address of the wallet that the installation belongs to.
    pub fn account_address(&self) -> (a: String)
        ensures
            a@ == self.identity.account_address@,
    {
        self.identity.account_address.clone()
    }

    /// The latest sequence number of the inbox's identity log that the store
    /// knows of, and 0 where it knows of none. The network may be ahead.
    pub fn inbox_sequence_id(&self) -> (sequence_id: Result<i64, StorageError>)
        ensures
            sequence_id == Ok::<i64, StorageError>(
                latest_sequence_id(self.store@.identity_updates, self.identity.inbox_id@),
            ),
    {
        Ok(self.store.get_latest_sequence_id(self.identity.inbox_id()))
    }

    /// The prompt for the wallet signatures that are still needed, or
    /// nothing where the inbox is published already.
    pub fn signature_request(&self) -> (request: Option<SignatureRequest>)
        ensures
            request is Some <==> self.identity.signature_request is Some,
            request is Some ==> {
                &&& request.unwrap().inbox_id@ == self.identity.signature_request.unwrap().inbox_id@
                &&& request.unwrap().client_timestamp_ns
                    == self.identity.signature_request.unwrap().client_timestamp_ns
                &&& request.unwrap().signature_text@
                    == self.identity.signature_request.unwrap().signature_text@
            },
    {
        self.identity.signature_request()
    }
}

/// A client: access to identity and store.
#[derive(Debug)]
pub struct Client {
    pub context: XmtpMlsLocalContext,
}

impl Client {
    /// A client of the given identity over the given store.
    pub fn new(identity: Identity, store: EncryptedMessageStore) -> (c: Self)
        ensures
            c.context.identity == identity,
            c.context.store == store,
    {
        Client { context: XmtpMlsLocalContext { identity, store } }
    }

    /// The public key of the installation, which names it.
    pub fn installation_public_key(&self) -> (key: Vec<u8>)
        ensures
            key@ == self.context.identity.installation_public_key@,
    {
        self.context.installation_public_key()
    }

    /// The inbox that the installation belongs to.
    pub fn inbox_id(&self) -> (id: String)
        ensures
            id@ == self.context.identity.inbox_id@,
    {
        self.context.inbox_id()
    }

    /// The account address of the wallet that the installation belongs to.
    pub fn wallet_address(&self) -> (address: String)
        ensures
            address@ == self.context.identity.account_address@,
    {
        self.context.account_address()
    }

    /// The latest sequence number of the inbox's identity log that the store
    /// knows of, and 0 where it knows of none.
    pub fn inbox_sequence_id(&self) -> (sequence_id: Result<i64, StorageError>)
        ensures
            sequence_id == Ok::<i64, StorageError>(
                latest_sequence_id(
                    self.context.store@.identity_updates,
                    self.context.identity.inbox_id@,
                ),
            ),
    {
        self.context.inbox_sequence_id()
    }

    /// The store of the client.
    pub fn store(&self) -> (s: &EncryptedMessageStore)
        ensures
            *s == self.context.store,
    {
        &self.context.store
    }

    /// The identity of the client.
    pub fn identity(&self) -> (i: &Identity)
        ensures
            *i == self.context.identity,
    {
        &self.context.identity
    }

    /// The local context of the client.
    pub fn context(&self) -> (c: &XmtpMlsLocalContext)
        ensures
            *c == self.context,
    {
        &self.context
    }

    /// Creates a conversation group under the rules of the preset given (all
    /// members where none is given), with this installation allowed in it
    /// from the start. The id of the group and the time are given by the
    /// caller. A group whose id the store has a row for already is refused,
    /// and nothing changes then.
    pub fn create_group(
        &mut self,
        permissions: Option<PreconfiguredPolicies>,
        group_id: Vec<u8>,
        created_at_ns: i64,
    ) -> (r: Result<MlsGroup, ClientError>)
        ensures
            final(self).context.identity == old(self).context.identity,
            store_well_formed(final(self).context.store@),
            cursors_monotone(old(self).context.store@, final(self).context.store@),
            match r {
                Ok(g) => {
                    &&& !has_group(old(self).context.store@.groups, group_id@)
                    &&& g.group_id@ == group_id@
                    &&& g.created_at_ns == created_at_ns
                    &&& created_in(
                        old(self).context.store@,
                        final(self).context.store@,
                        GroupRow {
                            id: group_id@,
                            created_at_ns,
                            membership_state: GroupMembershipState::Allowed,
                            installations_last_checked: 0,
                            purpose: Purpose::Conversation,
                            added_by_inbox_id: old(self).context.identity.inbox_id@,
                        },
                        starting_group_state(
                            old(self).context,
                            group_id@,
                            Purpose::Conversation,
                            chosen_policies(permissions),
                        ),
                    )
                },
                Err(e) => {
                    &&& has_group(old(self).context.store@.groups, group_id@)
                    &&& final(self).context.store@ == old(self).context.store@
                    &&& e is Storage
                },
            },
    {
        match MlsGroup::create_and_insert(
            &mut self.context,
            GroupMembershipState::Allowed,
            permissions,
            group_id,
            created_at_ns,
        ) {
            Ok(group) => Ok(group),
            Err(_) => Err(
                ClientError::Storage(StorageError::Store("group create error".to_owned())),
            ),
        }
    }

    /// Creates the sync group of the installation. A group whose id the
    /// store has a row for already is refused, and nothing changes then.
    pub fn create_sync_group(&mut self, group_id: Vec<u8>, created_at_ns: i64) -> (r: Result<
        MlsGroup,
        StorageError,
    >)
        ensures
            final(self).context.identity == old(self).context.identity,
            store_well_formed(final(self).context.store@),
            cursors_monotone(old(self).context.store@, final(self).context.store@),
            match r {
                Ok(g) => {
                    &&& !has_group(old(self).context.store@.groups, group_id@)
                    &&& g.group_id@ == group_id@
                    &&& g.created_at_ns == created_at_ns
                    &&& created_in(
                        old(self).context.store@,
                        final(self).context.store@,
                        GroupRow {
                            id: group_id@,
                            created_at_ns,
                            membership_state: GroupMembershipState::Allowed,
                            installations_last_checked: 0,
                            purpose: Purpose::Sync,
                            added_by_inbox_id: Seq::<char>::empty(),
                        },
                        starting_group_state(
                            old(self).context,
                            group_id@,
                            Purpose::Sync,
                            PreconfiguredPolicies::AllMembers.policies(),
                        ),
                    )
                },
                Err(e) => {
                    &&& has_group(old(self).context.store@.groups, group_id@)
                    &&& final(self).context.store@ == old(self).context.store@
                    &&& e is Store
                },
            },
    {
        match MlsGroup::create_and_insert_sync_group(&mut self.context, group_id, created_at_ns) {
            Ok(group) => Ok(group),
            Err(_) => Err(StorageError::Store("sync group create error".to_owned())),
        }
    }

    /// Processes a welcome that was sent to this installation: at most once,
    /// and the cursor of the installation's welcomes moves with it, whatever
    /// comes of the welcome. The given association state is that of the
    /// inbox that the sender's credential names.
    pub fn process_welcome(
        &mut self,
        envelope: WelcomeEnvelope,
        sender_state: &AssociationState,
        now_ns: i64,
    ) -> (outcome: Result<MlsGroup, MessageProcessingError>)
        ensures
            final(self).context.identity == old(self).context.identity,
            store_well_formed(final(self).context.store@),
            cursors_monotone(old(self).context.store@, final(self).context.store@),
            welcome_processed(
                old(self).context.store@,
                final(self).context.store@,
                old(self).context.identity.installation_public_key@,
                envelope,
                sender_state@,
                now_ns,
                outcome,
            ),
    {
        self.context.store.check();
        let ghost before = self.context.store@;
        let id = self.context.installation_public_key();
        let cursor = self.context.store.get_last_cursor_for_id(&id, EntityKind::Welcome);
        if envelope.id <= cursor {
            return Err(MessageProcessingError::AlreadyProcessed(envelope.id));
        }
        let _ = self.context.store.update_cursor(&id, EntityKind::Welcome, envelope.id);
        let ghost moved = self.context.store@;
        assert(moved == StoreView { cursors: moved.cursors, ..before });
        let welcome = match envelope.welcome {
            Some(w) => w,
            None => {
                return Err(
                    MessageProcessingError::WelcomeProcessing("welcome could not be opened".to_owned()),
                );
            },
        };
        match MlsGroup::create_from_encrypted_welcome(
            &mut self.context,
            welcome,
            sender_state,
            now_ns,
        ) {
            Ok(group) => {
                proof {
                    assert(self.context.store@.cursors == moved.cursors);
                }
                Ok(group)
            },
            Err(_) => Err(
                MessageProcessingError::WelcomeProcessing(
                    "failed to create group from welcome".to_owned(),
                ),
            ),
        }
    }

    /// The group with the given id. A group that the store has no row for is
    /// not found.
    pub fn group(&self, group_id: Vec<u8>) -> (r: Result<MlsGroup, ClientError>)
        ensures
            match r {
                Ok(g) => {
                    &&& has_group(self.context.store@.groups, group_id@)
                    &&& g.group_id@ == group_id@
                    &&& g.created_at_ns == group_row(
                        self.context.store@.groups,
                        group_id@,
                    ).created_at_ns
                },
                Err(e) => {
                    &&& !has_group(self.context.store@.groups, group_id@)
                    &&& e == ClientError::Storage(StorageError::NotFound)
                },
            },
    {
        match self.context.store.find_group(&group_id) {
            Some(group) => Ok(MlsGroup::new(group.id, group.created_at_ns)),
            None => Err(ClientError::Storage(StorageError::NotFound)),
        }
    }

    /// The groups that pass the filters, in the order in which they were
    /// stored, and no more of them than the limit allows: only groups in one
    /// of the given membership states, created after and before the given
    /// times.
    pub fn find_groups(
        &self,
        allowed_states: Option<Vec<GroupMembershipState>>,
        created_after_ns: Option<i64>,
        created_before_ns: Option<i64>,
        limit: Option<i64>,
    ) -> (r: Result<Vec<MlsGroup>, ClientError>)
        ensures
            r is Ok,
            ({
                let rows = first_matching(
                    self.context.store@.groups,
                    group_filter(
                        opt_states_view(allowed_states),
                        created_after_ns,
                        created_before_ns,
                    ),
                    effective_limit(limit, self.context.store@.groups.len()),
                );
                let groups = r.unwrap()@;
                &&& groups.len() == rows.len()
                &&& forall|i: int|
                    0 <= i < groups.len() ==> (#[trigger] groups[i]).group_id@ == rows[i].id
                        && groups[i].created_at_ns == rows[i].created_at_ns
            }),
    {
        let rows = self.context.store.find_groups(
            allowed_states,
            created_after_ns,
            created_before_ns,
            limit,
        );
        let mut groups: Vec<MlsGroup> = Vec::new();
        let mut i: usize = 0;
        while i < rows.len()
            invariant
                0 <= i <= rows@.len(),
                groups@.len() == i,
                forall|k: int|
                    0 <= k < i ==> (#[trigger] groups@[k]).group_id@ == rows@[k]@.id
                        && groups@[k].created_at_ns == rows@[k]@.created_at_ns,
            decreases rows@.len() - i,
        {
            groups.push(MlsGroup::new(clone_bytes(&rows[i].id), rows[i].created_at_ns));
            i += 1;
        }
        proof {
            assert forall|k: int| 0 <= k < groups@.len() implies (#[trigger] groups@[k]).group_id@
                == group_views(rows@)[k].id && groups@[k].created_at_ns == group_views(
                rows@,
            )[k].created_at_ns by {
                assert(group_views(rows@)[k] == rows@[k]@);
            }
        }
        Ok(groups)
    }
}

} // verus!
