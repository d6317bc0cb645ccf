//! Identity updates, the actions they carry, and the rules by which an
//! action turns one association state into the next.

use vstd::prelude::*;
use crate::associations::member::{Member, MemberId, MemberIdentifier, MemberKind, MemberView};
use crate::associations::signature::{SignatureKind, SignatureView, VerifiedSignature};
use crate::associations::state::{bytes_set, without_cascade, AssociationState, StateView};
use crate::util::{clone_bytes, text_eq};

verus! {

/// Why an identity update was refused.
#[derive(Clone, Copy, Debug, PartialEq, Eq, Structural)]
pub enum AssociationError {
    /// The inbox does not exist yet.
    NotCreated,
    /// The inbox exists already and cannot be created again.
    MultipleCreate,
    /// The signer that has to be known to the inbox is not.
    MissingExistingMember,
    /// The new member's signature does not come from the new member.
    NewMemberIdSignatureMismatch,
    /// A member of the first kind may not add a member of the second.
    MemberNotAllowed(MemberKind, MemberKind),
    /// A signature of the update has been used before.
    Replay,
    /// The signature is of a scheme that the action does not admit.
    SignatureVerification,
    /// The update names another inbox than the state belongs to.
    WrongInboxId,
}

/// Creates an inbox for an account.
#[derive(Debug, PartialEq, Eq)]
pub struct CreateInbox {
    pub nonce: u64,
    pub account_address: String,
    pub initial_address_signature: VerifiedSignature,
}

/// Adds a member, signed by a member and by the new member.
#[derive(Debug, PartialEq, Eq)]
pub struct AddAssociation {
    pub new_member_signature: VerifiedSignature,
    pub new_member_identifier: MemberIdentifier,
    pub existing_member_signature: VerifiedSignature,
}

/// Revokes a member and all that it added, signed by the recovery address.
#[derive(Debug, PartialEq, Eq)]
pub struct RevokeAssociation {
    pub recovery_address_signature: VerifiedSignature,
    pub revoked_member: MemberIdentifier,
}

/// Names another recovery address, signed by the present one.
#[derive(Debug, PartialEq, Eq)]
pub struct ChangeRecoveryAddress {
    pub recovery_address_signature: VerifiedSignature,
    pub new_recovery_address: String,
}

/// One step of an identity update.
#[derive(Debug, PartialEq, Eq)]
pub enum Action {
    CreateInbox(CreateInbox),
    AddAssociation(AddAssociation),
    RevokeAssociation(RevokeAssociation),
    ChangeRecoveryAddress(ChangeRecoveryAddress),
}

/// The mathematical value of an action.
pub enum ActionView {
    CreateInbox { nonce: u64, account_address: Seq<char>, initial_address_signature: SignatureView },
    AddAssociation {
        new_member_signature: SignatureView,
        new_member_identifier: MemberId,
        existing_member_signature: SignatureView,
    },
    RevokeAssociation { recovery_address_signature: SignatureView, revoked_member: MemberId },
    ChangeRecoveryAddress {
        recovery_address_signature: SignatureView,
        new_recovery_address: Seq<char>,
    },
}

impl View for Action {
    type V = ActionView;

    open spec fn view(&self) -> ActionView {
        match self {
            Action::CreateInbox(a) => ActionView::CreateInbox {
                nonce: a.nonce,
                account_address: a.account_address@,
                initial_address_signature: a.initial_address_signature@,
            },
            Action::AddAssociation(a) => ActionView::AddAssociation {
                new_member_signature: a.new_member_signature@,
                new_member_identifier: a.new_member_identifier@,
                existing_member_signature: a.existing_member_signature@,
            },
            Action::RevokeAssociation(a) => ActionView::RevokeAssociation {
                recovery_address_signature: a.recovery_address_signature@,
                revoked_member: a.revoked_member@,
            },
            Action::ChangeRecoveryAddress(a) => ActionView::ChangeRecoveryAddress {
                recovery_address_signature: a.recovery_address_signature@,
                new_recovery_address: a.new_recovery_address@,
            },
        }
    }
}

/// Whether a member of kind `existing` may add a member of kind `added`:
/// an address may add either kind, an installation only an address.
pub open spec fn may_add(existing: MemberKind, added: MemberKind) -> bool {
    !(existing == MemberKind::Installation && added == MemberKind::Installation)
}

/// Whether an inbox may be created under a signature of this scheme.
pub open spec fn may_create(kind: SignatureKind) -> bool {
    kind == SignatureKind::Erc191 || kind == SignatureKind::LegacyDelegated
}

/// The raw bytes of the signatures that an action carries.
pub open spec fn action_signatures(action: ActionView) -> Seq<Seq<u8>> {
    match action {
        ActionView::CreateInbox { initial_address_signature, .. } => seq![
            initial_address_signature.raw_bytes,
        ],
        ActionView::AddAssociation { new_member_signature, existing_member_signature, .. } => seq![
            existing_member_signature.raw_bytes,
            new_member_signature.raw_bytes,
        ],
        ActionView::RevokeAssociation { recovery_address_signature, .. } => seq![
            recovery_address_signature.raw_bytes,
        ],
        ActionView::ChangeRecoveryAddress { recovery_address_signature, .. } => seq![
            recovery_address_signature.raw_bytes,
        ],
    }
}

/// The state that an action leads to from `state`, or the reason for which
/// it is refused. `inbox_id` and `client_timestamp_ns` are those of the
/// update that carries the action.
pub open spec fn apply_action(
    state: Option<StateView>,
    action: ActionView,
    inbox_id: Seq<char>,
    client_timestamp_ns: u64,
) -> Result<StateView, AssociationError> {
    match action {
        ActionView::CreateInbox { nonce, account_address, initial_address_signature } => {
            if state is Some {
                Err(AssociationError::MultipleCreate)
            } else if initial_address_signature.signer != MemberId::Address(account_address) {
                Err(AssociationError::MissingExistingMember)
            } else if !may_create(initial_address_signature.kind) {
                Err(AssociationError::SignatureVerification)
            } else {
                Ok(
                    StateView {
                        inbox_id,
                        recovery_address: account_address,
                        members: Map::<MemberId, MemberView>::empty().insert(
                            MemberId::Address(account_address),
                            MemberView {
                                identifier: MemberId::Address(account_address),
                                added_by_entity: None,
                                client_timestamp_ns,
                            },
                        ),
                        seen_signatures: Set::<Seq<u8>>::empty(),
                    },
                )
            }
        },
        ActionView::AddAssociation {
            new_member_signature,
            new_member_identifier,
            existing_member_signature,
        } => {
            match state {
                None => Err(AssociationError::NotCreated),
                Some(s) => {
                    if new_member_signature.signer != new_member_identifier {
                        Err(AssociationError::NewMemberIdSignatureMismatch)
                    } else if !s.members.contains_key(existing_member_signature.signer) {
                        Err(AssociationError::MissingExistingMember)
                    } else if !may_add(
                        existing_member_signature.signer.kind(),
                        new_member_identifier.kind(),
                    ) {
                        Err(
                            AssociationError::MemberNotAllowed(
                                existing_member_signature.signer.kind(),
                                new_member_identifier.kind(),
                            ),
                        )
                    } else {
                        Ok(
                            StateView {
                                members: s.members.insert(
                                    new_member_identifier,
                                    MemberView {
                                        identifier: new_member_identifier,
                                        added_by_entity: Some(existing_member_signature.signer),
                                        client_timestamp_ns,
                                    },
                                ),
                                ..s
                            },
                        )
                    }
                },
            }
        },
        ActionView::RevokeAssociation { recovery_address_signature, revoked_member } => {
            match state {
                None => Err(AssociationError::NotCreated),
                Some(s) => {
                    if recovery_address_signature.signer != MemberId::Address(s.recovery_address) {
                        Err(AssociationError::MissingExistingMember)
                    } else {
                        Ok(StateView { members: without_cascade(s.members, revoked_member), ..s })
                    }
                },
            }
        },
        ActionView::ChangeRecoveryAddress { recovery_address_signature, new_recovery_address } => {
            match state {
                None => Err(AssociationError::NotCreated),
                Some(s) => {
                    if recovery_address_signature.signer != MemberId::Address(s.recovery_address) {
                        Err(AssociationError::MissingExistingMember)
                    } else {
                        Ok(StateView { recovery_address: new_recovery_address, ..s })
                    }
                },
            }
        },
    }
}

/// The view of an optional state.
pub open spec fn opt_state_view(state: Option<AssociationState>) -> Option<StateView> {
    match state {
        Some(s) => Some(s@),
        None => None,
    }
}

/// Whether an outcome is the one that the rules give.
pub open spec fn outcome_is(
    got: Result<AssociationState, AssociationError>,
    due: Result<StateView, AssociationError>,
) -> bool {
    match (got, due) {
        (Ok(s), Ok(v)) => s@ == v,
        (Err(e), Err(f)) => e == f,
        _ => false,
    }
}

impl Action {
    /// Applies the action to a state, or to none where the inbox is yet to be
    /// created.
    pub fn update_state(
        &self,
        existing_state: Option<AssociationState>,
        inbox_id: &String,
        client_timestamp_ns: u64,
    ) -> (outcome: Result<AssociationState, AssociationError>)
        ensures
            outcome_is(
                outcome,
                apply_action(opt_state_view(existing_state), self@, inbox_id@, client_timestamp_ns),
            ),
    {
        match self {
            Action::CreateInbox(a) => {
                if existing_state.is_some() {
                    return Err(AssociationError::MultipleCreate);
                }
                let account = MemberIdentifier::Address(a.account_address.clone());
                if !a.initial_address_signature.signer.same_as(&account) {
                    return Err(AssociationError::MissingExistingMember);
                }
                match a.initial_address_signature.kind {
                    SignatureKind::Erc191 | SignatureKind::LegacyDelegated => {},
                    _ => {
                        return Err(AssociationError::SignatureVerification);
                    },
                }
                Ok(
                    AssociationState::new(
                        inbox_id.clone(),
                        a.account_address.clone(),
                        client_timestamp_ns,
                    ),
                )
            },
            Action::AddAssociation(a) => {
                let state = match existing_state {
                    Some(s) => s,
                    None => {
                        return Err(AssociationError::NotCreated);
                    },
                };
                if !a.new_member_signature.signer.same_as(&a.new_member_identifier) {
                    return Err(AssociationError::NewMemberIdSignatureMismatch);
                }
                let existing = &a.existing_member_signature.signer;
                if state.get(existing).is_none() {
                    return Err(AssociationError::MissingExistingMember);
                }
                let existing_kind = existing.kind();
                let new_kind = a.new_member_identifier.kind();
                if existing_kind == MemberKind::Installation && new_kind
                    == MemberKind::Installation {
                    return Err(AssociationError::MemberNotAllowed(existing_kind, new_kind));
                }
                let member = Member::new(
                    a.new_member_identifier.clone(),
                    Some(existing.clone()),
                    client_timestamp_ns,
                );
                Ok(state.add(member))
            },
            Action::RevokeAssociation(a) => {
                let state = match existing_state {
                    Some(s) => s,
                    None => {
                        return Err(AssociationError::NotCreated);
                    },
                };
                let recovery = MemberIdentifier::Address(state.recovery_address().clone());
                if !a.recovery_address_signature.signer.same_as(&recovery) {
                    return Err(AssociationError::MissingExistingMember);
                }
                Ok(state.remove_cascade(&a.revoked_member))
            },
            Action::ChangeRecoveryAddress(a) => {
                let state = match existing_state {
                    Some(s) => s,
                    None => {
                        return Err(AssociationError::NotCreated);
                    },
                };
                let recovery = MemberIdentifier::Address(state.recovery_address().clone());
                if !a.recovery_address_signature.signer.same_as(&recovery) {
                    return Err(AssociationError::MissingExistingMember);
                }
                Ok(state.set_recovery_address(a.new_recovery_address.clone()))
            },
        }
    }
}

/// A signed batch of actions on one inbox.
#[derive(Debug, PartialEq, Eq)]
pub struct IdentityUpdate {
    pub inbox_id: String,
    pub client_timestamp_ns: u64,
    pub actions: Vec<Action>,
}

/// The mathematical value of an identity update.
pub struct UpdateView {
    pub inbox_id: Seq<char>,
    pub client_timestamp_ns: u64,
    pub actions: Seq<ActionView>,
}

impl View for IdentityUpdate {
    type V = UpdateView;

    open spec fn view(&self) -> UpdateView {
        UpdateView {
            inbox_id: self.inbox_id@,
            client_timestamp_ns: self.client_timestamp_ns,
            actions: self.actions@.map_values(|a: Action| a@),
        }
    }
}

/// The raw bytes of every signature that the actions carry.
pub open spec fn update_signatures(actions: Seq<ActionView>) -> Set<Seq<u8>> {
    Set::new(
        |b: Seq<u8>|
            exists|i: int, j: int|
                0 <= i < actions.len() && 0 <= j < action_signatures(actions[i]).len()
                    && #[trigger] action_signatures(actions[i])[j] == b,
    )
}

/// Whether one of the actions carries a signature that has been seen.
pub open spec fn reuses_signature(seen: Set<Seq<u8>>, actions: Seq<ActionView>) -> bool {
    exists|b: Seq<u8>| update_signatures(actions).contains(b) && seen.contains(b)
}

/// The outcome of applying the actions one after the other, starting from
/// `state`: the first refusal, or the state after the last action (none
/// where there was no state and no action).
pub open spec fn apply_actions(
    state: Option<StateView>,
    actions: Seq<ActionView>,
    inbox_id: Seq<char>,
    client_timestamp_ns: u64,
) -> Result<Option<StateView>, AssociationError>
    decreases actions.len(),
{
    if actions.len() == 0 {
        Ok(state)
    } else {
        match apply_actions(state, actions.drop_last(), inbox_id, client_timestamp_ns) {
            Err(e) => Err(e),
            Ok(s) => match apply_action(s, actions.last(), inbox_id, client_timestamp_ns) {
                Err(e) => Err(e),
                Ok(next) => Ok(Some(next)),
            },
        }
    }
}

/// The state that an identity update leads to from `state`, or the reason
/// for which it is refused. An update that carries a signature seen before
/// is a replay, whatever else it holds. Otherwise its actions are applied in
/// order; the inbox has to exist at the end and to be the one the update
/// names; and the signatures of the update count as seen from then on.
pub open spec fn apply_identity_update(state: Option<StateView>, update: UpdateView) -> Result<
    StateView,
    AssociationError,
> {
    if state is Some && reuses_signature(state.unwrap().seen_signatures, update.actions) {
        Err(AssociationError::Replay)
    } else {
        match apply_actions(state, update.actions, update.inbox_id, update.client_timestamp_ns) {
            Err(e) => Err(e),
            Ok(None) => Err(AssociationError::NotCreated),
            Ok(Some(s)) => {
                if s.inbox_id != update.inbox_id {
                    Err(AssociationError::WrongInboxId)
                } else {
                    Ok(
                        StateView {
                            seen_signatures: s.seen_signatures.union(
                                update_signatures(update.actions),
                            ),
                            ..s
                        },
                    )
                }
            },
        }
    }
}

impl IdentityUpdate {
    /// An identity update from its parts.
    pub fn new(actions: Vec<Action>, inbox_id: String, client_timestamp_ns: u64) -> (u: Self)
        ensures
            u.actions == actions,
            u.inbox_id == inbox_id,
            u.client_timestamp_ns == client_timestamp_ns,
    {
        IdentityUpdate { inbox_id, client_timestamp_ns, actions }
    }

    /// The raw bytes of every signature that the update carries, action by
    /// action.
    pub fn signatures(&self) -> (list: Vec<Vec<u8>>)
        ensures
            bytes_set(list@) == update_signatures(self@.actions),
    {
        let ghost actions = self@.actions;
        let mut list: Vec<Vec<u8>> = Vec::new();
        let mut i: usize = 0;
        while i < self.actions.len()
            invariant
                actions == self@.actions,
                actions.len() == self.actions@.len(),
                0 <= i <= actions.len(),
                bytes_set(list@) == update_signatures(actions.subrange(0, i as int)),
            decreases actions.len() - i,
        {
            let ghost prior = list@;
            let ghost done = actions.subrange(0, i as int);
            let ghost next = actions.subrange(0, i + 1);
            assert(actions[i as int] == self.actions@[i as int]@);
            match &self.actions[i] {
                Action::CreateInbox(a) => {
                    list.push(clone_bytes(&a.initial_address_signature.raw_bytes));
                },
                Action::AddAssociation(a) => {
                    list.push(clone_bytes(&a.existing_member_signature.raw_bytes));
                    list.push(clone_bytes(&a.new_member_signature.raw_bytes));
                },
                Action::RevokeAssociation(a) => {
                    list.push(clone_bytes(&a.recovery_address_signature.raw_bytes));
                },
                Action::ChangeRecoveryAddress(a) => {
                    list.push(clone_bytes(&a.recovery_address_signature.raw_bytes));
                },
            }
            proof {
                let sigs = action_signatures(actions[i as int]);
                assert(list@.len() == prior.len() + sigs.len());
                assert(forall|j: int| 0 <= j < prior.len() ==> list@[j] == prior[j]);
                assert(forall|j: int| 0 <= j < sigs.len() ==> list@[prior.len() + j]@ == sigs[j]);
                assert forall|b: Seq<u8>| bytes_set(list@).contains(b) <==> update_signatures(
                    next,
                ).contains(b) by {
                    if bytes_set(list@).contains(b) {
                        let k = choose|k: int| 0 <= k < list@.len() && #[trigger] list@[k]@ == b;
                        if k < prior.len() {
                            assert(prior[k]@ == b);
                            assert(bytes_set(prior).contains(b));
                            let (x, y) = choose|x: int, y: int|
                                0 <= x < done.len() && 0 <= y < action_signatures(done[x]).len()
                                    && #[trigger] action_signatures(done[x])[y] == b;
                            assert(next[x] == done[x]);
                            assert(action_signatures(next[x])[y] == b);
                        } else {
                            assert(next[i as int] == actions[i as int]);
                            assert(action_signatures(next[i as int])[k - prior.len()] == b);
                        }
                    }
                    if update_signatures(next).contains(b) {
                        let (x, y) = choose|x: int, y: int|
                            0 <= x < next.len() && 0 <= y < action_signatures(next[x]).len()
                                && #[trigger] action_signatures(next[x])[y] == b;
                        if x < i {
                            assert(done[x] == next[x]);
                            assert(action_signatures(done[x])[y] == b);
                            assert(update_signatures(done).contains(b));
                            assert(bytes_set(prior).contains(b));
                            let k = choose|k: int| 0 <= k < prior.len() && #[trigger] prior[k]@ == b;
                            assert(list@[k]@ == b);
                        } else {
                            assert(list@[prior.len() + y]@ == b);
                        }
                    }
                }
                assert(bytes_set(list@) =~= update_signatures(next));
            }
            i += 1;
        }
        proof {
            assert(actions.subrange(0, i as int) =~= actions);
        }
        list
    }

    /// Applies the update to a state, or to none where the update is to
    /// create the inbox.
    pub fn update_state(&self, existing_state: Option<AssociationState>) -> (outcome: Result<
        AssociationState,
        AssociationError,
    >)
        ensures
            outcome_is(outcome, apply_identity_update(opt_state_view(existing_state), self@)),
    {
        let ghost start = opt_state_view(existing_state);
        let ghost actions = self@.actions;
        let signatures = self.signatures();
        match &existing_state {
            Some(s) => {
                if any_seen(s, &signatures) {
                    return Err(AssociationError::Replay);
                }
            },
            None => {},
        }
        let mut state = existing_state;
        let mut i: usize = 0;
        while i < self.actions.len()
            invariant
                start == opt_state_view(existing_state),
                !(start is Some && reuses_signature(start.unwrap().seen_signatures, actions)),
                bytes_set(signatures@) == update_signatures(actions),
                actions == self@.actions,
                actions.len() == self.actions@.len(),
                0 <= i <= actions.len(),
                apply_actions(
                    start,
                    actions.subrange(0, i as int),
                    self.inbox_id@,
                    self.client_timestamp_ns,
                ) == Ok::<Option<StateView>, AssociationError>(opt_state_view(state)),
            decreases actions.len() - i,
        {
            assert(actions[i as int] == self.actions@[i as int]@);
            assert(actions.subrange(0, i + 1).drop_last() =~= actions.subrange(0, i as int));
            match self.actions[i].update_state(state, &self.inbox_id, self.client_timestamp_ns) {
                Ok(next) => {
                    state = Some(next);
                },
                Err(e) => {
                    proof {
                        let run = actions.subrange(0, i + 1);
                        assert(run.last() == actions[i as int]);
                        assert(apply_actions(
                            start,
                            run,
                            self.inbox_id@,
                            self.client_timestamp_ns,
                        ) == Err::<Option<StateView>, AssociationError>(e));
                        lemma_refusal_stays(
                            start,
                            actions,
                            i + 1,
                            self.inbox_id@,
                            self.client_timestamp_ns,
                        );
                    }
                    return Err(e);
                },
            }
            i += 1;
        }
        proof {
            assert(actions.subrange(0, i as int) =~= actions);
        }
        match state {
            None => Err(AssociationError::NotCreated),
            Some(s) => {
                if !text_eq(s.inbox_id(), &self.inbox_id) {
                    Err(AssociationError::WrongInboxId)
                } else {
                    Ok(s.add_seen_signatures(signatures))
                }
            },
        }
    }
}

/// Whether the state has seen one of the byte strings.
fn any_seen(state: &AssociationState, signatures: &Vec<Vec<u8>>) -> (seen: bool)
    ensures
        seen == exists|b: Seq<u8>|
            bytes_set(signatures@).contains(b) && state@.seen_signatures.contains(b),
{
    let mut i: usize = 0;
    while i < signatures.len()
        invariant
            0 <= i <= signatures@.len(),
            forall|k: int| 0 <= k < i ==> !state@.seen_signatures.contains(signatures@[k]@),
        decreases signatures@.len() - i,
    {
        if state.has_seen(&signatures[i]) {
            assert(bytes_set(signatures@).contains(signatures@[i as int]@));
            return true;
        }
        i += 1;
    }
    false
}

/// Once a run of actions has met a refusal, more actions do not change it.
pub proof fn lemma_refusal_stays(
    state: Option<StateView>,
    actions: Seq<ActionView>,
    upto: int,
    inbox_id: Seq<char>,
    client_timestamp_ns: u64,
)
    requires
        0 <= upto <= actions.len(),
        apply_actions(state, actions.subrange(0, upto), inbox_id, client_timestamp_ns) is Err,
    ensures
        apply_actions(state, actions, inbox_id, client_timestamp_ns) == apply_actions(
            state,
            actions.subrange(0, upto),
            inbox_id,
            client_timestamp_ns,
        ),
    decreases actions.len(),
{
    if upto == actions.len() {
        assert(actions.subrange(0, upto) =~= actions);
    } else {
        assert(actions.drop_last().subrange(0, upto) =~= actions.subrange(0, upto));
        lemma_refusal_stays(state, actions.drop_last(), upto, inbox_id, client_timestamp_ns);
    }
}

/// A new inbox has its creator as its only member and as its recovery
/// address, and has seen no signature.
pub proof fn law_new_inbox_has_its_creator(
    action: ActionView,
    inbox_id: Seq<char>,
    client_timestamp_ns: u64,
)
    requires
        action is CreateInbox,
        apply_action(None, action, inbox_id, client_timestamp_ns) is Ok,
    ensures
        ({
            let state = apply_action(None, action, inbox_id, client_timestamp_ns).unwrap();
            let creator = MemberId::Address(action->account_address);
            &&& state.inbox_id == inbox_id
            &&& state.recovery_address == action->account_address
            &&& state.members.dom() =~= set![creator]
            &&& state.members[creator].added_by_entity is None
            &&& state.seen_signatures =~= Set::<Seq<u8>>::empty()
        }),
{
}

/// Whoever is added was added by one who was a member at that time, and
/// no installation is added by an installation.
pub proof fn law_members_are_added_by_members(
    state: StateView,
    action: ActionView,
    inbox_id: Seq<char>,
    client_timestamp_ns: u64,
)
    requires
        action is AddAssociation,
        apply_action(Some(state), action, inbox_id, client_timestamp_ns) is Ok,
    ensures
        ({
            let after = apply_action(Some(state), action, inbox_id, client_timestamp_ns).unwrap();
            let adder = action->existing_member_signature.signer;
            let added = action->new_member_identifier;
            &&& state.members.contains_key(adder)
            &&& after.members.contains_key(added)
            &&& after.members[added].added_by_entity == Some(adder)
            &&& !(adder.kind() == MemberKind::Installation && added.kind()
                == MemberKind::Installation)
            &&& after.recovery_address == state.recovery_address
            &&& forall|other: MemberId|
                other != added ==> (after.members.contains_key(other) <==> state.members.contains_key(
                    other,
                ))
        }),
{
}

/// Only the recovery address revokes members and names another recovery
/// address, and a revocation takes the revoked member out together with
/// everything that it added.
pub proof fn law_recovery_address_rules(
    state: StateView,
    action: ActionView,
    inbox_id: Seq<char>,
    client_timestamp_ns: u64,
)
    requires
        action is RevokeAssociation || action is ChangeRecoveryAddress,
        apply_action(Some(state), action, inbox_id, client_timestamp_ns) is Ok,
    ensures
        ({
            let after = apply_action(Some(state), action, inbox_id, client_timestamp_ns).unwrap();
            &&& action is RevokeAssociation ==> {
                &&& action->RevokeAssociation_recovery_address_signature.signer == MemberId::Address(
                    state.recovery_address,
                )
                &&& !after.members.contains_key(action->revoked_member)
                &&& forall|id: MemberId|
                    crate::associations::state::in_cascade(
                        state.members,
                        action->revoked_member,
                        id,
                    ) ==> !after.members.contains_key(id)
                &&& after.recovery_address == state.recovery_address
            }
            &&& action is ChangeRecoveryAddress ==> {
                &&& action->ChangeRecoveryAddress_recovery_address_signature.signer
                    == MemberId::Address(state.recovery_address)
                &&& after.recovery_address == action->new_recovery_address
                &&& after.members == state.members
            }
        }),
{
    if action is RevokeAssociation {
        let root = action->revoked_member;
        assert(crate::associations::state::ancestor(state.members, root, 0) == Some(root));
        assert(crate::associations::state::in_cascade(state.members, root, root));
    }
}

} // verus!
