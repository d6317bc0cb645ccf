//! The identity association log: replaying signed identity updates into the
//! current association state of an inbox.

pub mod member;
pub mod signature;
pub mod state;
pub mod association_log;

use vstd::prelude::*;
use crate::associations::association_log::{
    action_signatures, apply_identity_update, outcome_is, reuses_signature, update_signatures,
    AssociationError, IdentityUpdate, UpdateView,
};
use crate::associations::state::{AssociationState, StateView};

verus! {

/// The outcome of replaying a log of updates from nothing: the first
/// refusal, or the state after the last update (none for an empty log).
pub open spec fn replay(updates: Seq<UpdateView>) -> Result<Option<StateView>, AssociationError>
    decreases updates.len(),
{
    if updates.len() == 0 {
        Ok(None)
    } else {
        match replay(updates.drop_last()) {
            Err(e) => Err(e),
            Ok(s) => match apply_identity_update(s, updates.last()) {
                Err(e) => Err(e),
                Ok(next) => Ok(Some(next)),
            },
        }
    }
}

/// The state that a log of updates stands for. An empty log stands for no
/// inbox.
pub open spec fn state_of(updates: Seq<UpdateView>) -> Result<StateView, AssociationError> {
    match replay(updates) {
        Err(e) => Err(e),
        Ok(None) => Err(AssociationError::NotCreated),
        Ok(Some(s)) => Ok(s),
    }
}

/// The views of a list of updates.
pub open spec fn update_views(updates: Seq<IdentityUpdate>) -> Seq<UpdateView> {
    updates.map_values(|u: IdentityUpdate| u@)
}

/// Applies a single identity update to an existing association state.
pub fn apply_update(initial_state: AssociationState, update: IdentityUpdate) -> (outcome: Result<
    AssociationState,
    AssociationError,
>)
    ensures
        outcome_is(outcome, apply_identity_update(Some(initial_state@), update@)),
{
    update.update_state(Some(initial_state))
}

/// The state that a log of identity updates stands for. The whole replay
/// fails with the refusal of the first update that is refused.
pub fn get_state(updates: Vec<IdentityUpdate>) -> (outcome: Result<
    AssociationState,
    AssociationError,
>)
    ensures
        outcome_is(outcome, state_of(update_views(updates@))),
{
    let ghost log = update_views(updates@);
    let mut state: Option<AssociationState> = None;
    let mut i: usize = 0;
    while i < updates.len()
        invariant
            log == update_views(updates@),
            0 <= i <= updates@.len(),
            replay(log.subrange(0, i as int)) == Ok::<Option<StateView>, AssociationError>(
                crate::associations::association_log::opt_state_view(state),
            ),
        decreases updates@.len() - i,
    {
        assert(log[i as int] == updates@[i as int]@);
        assert(log.subrange(0, i + 1).drop_last() =~= log.subrange(0, i as int));
        match updates[i].update_state(state) {
            Ok(next) => {
                state = Some(next);
            },
            Err(e) => {
                proof {
                    let run = log.subrange(0, i + 1);
                    assert(run.last() == log[i as int]);
                    assert(replay(run) == Err::<Option<StateView>, AssociationError>(e));
                    lemma_replay_refusal_stays(log, i + 1);
                }
                return Err(e);
            },
        }
        i += 1;
    }
    proof {
        assert(log.subrange(0, i as int) =~= log);
    }
    match state {
        Some(s) => Ok(s),
        None => Err(AssociationError::NotCreated),
    }
}

/// Once a replay has met a refusal, more updates do not change it.
pub proof fn lemma_replay_refusal_stays(updates: Seq<UpdateView>, upto: int)
    requires
        0 <= upto <= updates.len(),
        replay(updates.subrange(0, upto)) is Err,
    ensures
        replay(updates) == replay(updates.subrange(0, upto)),
    decreases updates.len(),
{
    if upto == updates.len() {
        assert(updates.subrange(0, upto) =~= updates);
    } else {
        assert(updates.drop_last().subrange(0, upto) =~= updates.subrange(0, upto));
        lemma_replay_refusal_stays(updates.drop_last(), upto);
    }
}

/// The state of a log is reached by applying its updates one at a time:
/// the state of a log of one update is that update applied to nothing, and
/// where a log has a state, the log with one more update has the state that
/// applying the update to that state gives.
pub proof fn law_state_of_log_is_iterated_apply(updates: Seq<UpdateView>, next: UpdateView)
    ensures
        updates.len() == 0 ==> state_of(updates.push(next)) == apply_identity_update(None, next),
        updates.len() > 0 && state_of(updates) is Ok ==> state_of(updates.push(next))
            == apply_identity_update(Some(state_of(updates).unwrap()), next),
{
    assert(updates.push(next).drop_last() =~= updates);
    assert(updates.push(next).last() == next);
    if updates.len() > 0 && state_of(updates) is Ok {
        lemma_replay_of_nonempty(updates);
    }
}

/// A replay of at least one update does not end without an inbox.
pub proof fn lemma_replay_of_nonempty(updates: Seq<UpdateView>)
    requires
        updates.len() > 0,
    ensures
        replay(updates) != Ok::<Option<StateView>, AssociationError>(None),
{
}

/// An update that carries a signature whose raw bytes the state has seen is
/// refused as a replay, whatever else it holds. Nothing is changed by it:
/// the refusal carries no state.
pub proof fn law_replay_is_refused(state: StateView, update: UpdateView)
    requires
        reuses_signature(state.seen_signatures, update.actions),
    ensures
        apply_identity_update(Some(state), update) == Err::<StateView, AssociationError>(
            AssociationError::Replay,
        ),
{
}

/// An update that was accepted cannot be submitted again: every signature
/// it carried counts as seen in the state it led to.
pub proof fn law_accepted_update_cannot_be_resubmitted(
    state: Option<StateView>,
    update: UpdateView,
)
    requires
        update.actions.len() > 0,
        apply_identity_update(state, update) is Ok,
    ensures
        apply_identity_update(Some(apply_identity_update(state, update).unwrap()), update) == Err::<
            StateView,
            AssociationError,
        >(AssociationError::Replay),
{
    let after = apply_identity_update(state, update).unwrap();
    let b = action_signatures(update.actions[0])[0];
    assert(update_signatures(update.actions).contains(b));
    assert(after.seen_signatures.contains(b));
}

} // verus!
