//! The local store: the tables of groups, intents, messages, cursors and
//! identity updates, and the states of the groups that the MLS layer keeps.
//! Rows stand in the order in which they were inserted.

use vstd::prelude::*;
use crate::groups::state::{GroupState, GroupStateView};
use crate::storage::errors::StorageError;
use crate::storage::group::{GroupMembershipState, GroupRow, StoredGroup};
use crate::storage::group_intent::{
    intent_step, IntentEvent, IntentKind, IntentRow, IntentState, NewGroupIntent, StoredGroupIntent,
};
use crate::storage::group_message::{
    DeliveryStatus, GroupMessageKind, MessageRow, StoredGroupMessage,
};
use crate::storage::identity_update::{IdentityUpdateRow, StoredIdentityUpdate};
use crate::storage::refresh_state::{
    cursor_of, is_cursor_of, lemma_cursor_after_push, lemma_cursor_after_update,
    lemma_cursor_of_absent, lemma_cursor_of_last_row, CursorRow, EntityKind, RefreshState,
};
use crate::storage::identity_update::latest_sequence_id;
use crate::util::{
    below_limit, bytes_eq, clone_bytes, text_eq, effective_limit, first_matching,
    lemma_first_matching_step,
};

verus! {

/// The mathematical value of a store: its tables.
pub struct StoreView {
    pub groups: Seq<GroupRow>,
    pub intents: Seq<IntentRow>,
    pub next_intent_id: i32,
    pub messages: Seq<MessageRow>,
    pub cursors: Seq<CursorRow>,
    pub identity_updates: Seq<IdentityUpdateRow>,
    pub mls_groups: Seq<GroupStateView>,
}

/// Whether the table of groups has a row for the group.
pub open spec fn has_group(rows: Seq<GroupRow>, id: Seq<u8>) -> bool {
    exists|i: int| 0 <= i < rows.len() && #[trigger] rows[i].id == id
}

/// The place of the row of a group.
pub open spec fn group_place(rows: Seq<GroupRow>, id: Seq<u8>) -> int {
    choose|i: int| 0 <= i < rows.len() && #[trigger] rows[i].id == id
}

/// The row of a group.
pub open spec fn group_row(rows: Seq<GroupRow>, id: Seq<u8>) -> GroupRow {
    rows[group_place(rows, id)]
}

/// The table of groups with the time noted at which the installations of a
/// group's members were last looked up.
pub open spec fn with_time_checked(rows: Seq<GroupRow>, id: Seq<u8>, now_ns: i64) -> Seq<GroupRow> {
    rows.update(
        group_place(rows, id),
        GroupRow { installations_last_checked: now_ns, ..group_row(rows, id) },
    )
}

/// How many rows the table of groups has for the group.
pub open spec fn count_group_rows(rows: Seq<GroupRow>, id: Seq<u8>) -> nat
    decreases rows.len(),
{
    if rows.len() == 0 {
        0
    } else {
        count_group_rows(rows.drop_last(), id) + if rows.last().id == id {
            1nat
        } else {
            0nat
        }
    }
}

/// The table of groups after a row was offered to it: the row is added
/// unless the table has a row for the group already.
pub open spec fn insert_or_ignore(rows: Seq<GroupRow>, row: GroupRow) -> Seq<GroupRow> {
    if has_group(rows, row.id) {
        rows
    } else {
        rows.push(row)
    }
}

/// What the tables of a store always satisfy: one row per group, one row
/// per message, one state per group, and intents numbered in the order in
/// which they came, below the next number to give.
pub open spec fn store_well_formed(s: StoreView) -> bool {
    &&& forall|i: int, j: int|
        0 <= i < s.groups.len() && 0 <= j < s.groups.len() && i != j ==> s.groups[i].id
            != s.groups[j].id
    &&& forall|i: int, j: int|
        0 <= i < s.messages.len() && 0 <= j < s.messages.len() && i != j ==> s.messages[i].id
            != s.messages[j].id
    &&& forall|i: int, j: int|
        0 <= i < s.mls_groups.len() && 0 <= j < s.mls_groups.len() && i != j
            ==> s.mls_groups[i].group_id != s.mls_groups[j].group_id
    &&& forall|i: int, j: int| 0 <= i < j < s.intents.len() ==> s.intents[i].id < s.intents[j].id
    &&& forall|i: int| 0 <= i < s.intents.len() ==> 0 < #[trigger] s.intents[i].id < s.next_intent_id
    &&& 0 < s.next_intent_id
}

/// No cursor of the second store is behind the cursor that the first store
/// has for the same stream.
pub open spec fn cursors_monotone(before: StoreView, after: StoreView) -> bool {
    forall|entity_id: Seq<u8>, entity_kind: EntityKind|
        cursor_of(before.cursors, entity_id, entity_kind) <= #[trigger] cursor_of(
            after.cursors,
            entity_id,
            entity_kind,
        )
}

/// The state that the MLS layer keeps for a group, if it keeps one.
pub open spec fn mls_group_of(rows: Seq<GroupStateView>, group_id: Seq<u8>) -> Option<GroupStateView> {
    if exists|i: int| 0 <= i < rows.len() && #[trigger] rows[i].group_id == group_id {
        Some(rows[choose|i: int| 0 <= i < rows.len() && #[trigger] rows[i].group_id == group_id])
    } else {
        None
    }
}

/// Whether the queue has the intent.
pub open spec fn has_intent(rows: Seq<IntentRow>, id: i32) -> bool {
    exists|i: int| 0 <= i < rows.len() && #[trigger] rows[i].id == id
}

/// The place of an intent in the queue.
pub open spec fn intent_place(rows: Seq<IntentRow>, id: i32) -> int {
    choose|i: int| 0 <= i < rows.len() && #[trigger] rows[i].id == id
}

/// The row of an intent.
pub open spec fn intent_row(rows: Seq<IntentRow>, id: i32) -> IntentRow {
    rows[intent_place(rows, id)]
}

/// The test that a query for intents makes of a row.
pub open spec fn intent_filter(
    group_id: Seq<u8>,
    allowed_states: Option<Seq<IntentState>>,
    allowed_kinds: Option<Seq<IntentKind>>,
) -> spec_fn(IntentRow) -> bool {
    |r: IntentRow|
        {
            &&& r.group_id == group_id
            &&& allowed_states is Some ==> allowed_states.unwrap().contains(r.state)
            &&& allowed_kinds is Some ==> allowed_kinds.unwrap().contains(r.kind)
        }
}

/// What becomes of an intent when its group moves on to another epoch: a
/// published intent of the group goes back to be published, or fails once
/// its attempts are used up; every other intent stays as it is.
pub open spec fn overtaken(group_id: Seq<u8>) -> spec_fn(IntentRow) -> IntentRow {
    |r: IntentRow|
        if r.group_id == group_id && r.state == IntentState::Published {
            intent_step(r, crate::storage::group_intent::IntentEventView::Republish).unwrap()
        } else {
            r
        }
}

/// The queue after a group has moved on to another epoch.
pub open spec fn republished(rows: Seq<IntentRow>, group_id: Seq<u8>) -> Seq<IntentRow> {
    rows.map_values(overtaken(group_id))
}

/// The test for the intents that were published under a hash.
pub open spec fn hash_filter(payload_hash: Seq<u8>) -> spec_fn(IntentRow) -> bool {
    |r: IntentRow| r.payload_hash == Some(payload_hash)
}

/// The views of a list of intents.
pub open spec fn intent_views(rows: Seq<StoredGroupIntent>) -> Seq<IntentRow> {
    rows.map_values(|r: StoredGroupIntent| r@)
}

/// Whether the table of messages has the message.
pub open spec fn has_message(rows: Seq<MessageRow>, id: Seq<u8>) -> bool {
    exists|i: int| 0 <= i < rows.len() && #[trigger] rows[i].id == id
}

/// The place of a message in its table.
pub open spec fn message_place(rows: Seq<MessageRow>, id: Seq<u8>) -> int {
    choose|i: int| 0 <= i < rows.len() && #[trigger] rows[i].id == id
}

/// The test that a query for messages makes of a row.
pub open spec fn message_filter(
    group_id: Seq<u8>,
    sent_after_ns: Option<i64>,
    sent_before_ns: Option<i64>,
    kind: Option<GroupMessageKind>,
    delivery_status: Option<DeliveryStatus>,
) -> spec_fn(MessageRow) -> bool {
    |m: MessageRow|
        {
            &&& m.group_id == group_id
            &&& sent_after_ns is Some ==> m.sent_at_ns > sent_after_ns.unwrap()
            &&& sent_before_ns is Some ==> m.sent_at_ns < sent_before_ns.unwrap()
            &&& kind is Some ==> m.kind == kind.unwrap()
            &&& delivery_status is Some ==> m.delivery_status == delivery_status.unwrap()
        }
}

/// The views of a list of messages.
pub open spec fn message_views(rows: Seq<StoredGroupMessage>) -> Seq<MessageRow> {
    rows.map_values(|m: StoredGroupMessage| m@)
}

/// The view of an optional list of intent states.
pub open spec fn opt_intent_states_view(states: Option<Vec<IntentState>>) -> Option<Seq<IntentState>> {
    match states {
        Some(s) => Some(s@),
        None => None,
    }
}

/// The view of an optional list of intent kinds.
pub open spec fn opt_intent_kinds_view(kinds: Option<Vec<IntentKind>>) -> Option<Seq<IntentKind>> {
    match kinds {
        Some(s) => Some(s@),
        None => None,
    }
}

/// The test that a query for groups makes of a row.
pub open spec fn group_filter(
    allowed_states: Option<Seq<GroupMembershipState>>,
    created_after_ns: Option<i64>,
    created_before_ns: Option<i64>,
) -> spec_fn(GroupRow) -> bool {
    |g: GroupRow|
        {
            &&& allowed_states is Some ==> allowed_states.unwrap().contains(g.membership_state)
            &&& created_after_ns is Some ==> g.created_at_ns > created_after_ns.unwrap()
            &&& created_before_ns is Some ==> g.created_at_ns < created_before_ns.unwrap()
        }
}

/// The views of a list of group rows.
pub open spec fn group_views(rows: Seq<StoredGroup>) -> Seq<GroupRow> {
    rows.map_values(|g: StoredGroup| g@)
}

/// The view of an optional list of membership states.
pub open spec fn opt_states_view(states: Option<Vec<GroupMembershipState>>) -> Option<
    Seq<GroupMembershipState>,
> {
    match states {
        Some(s) => Some(s@),
        None => None,
    }
}

/// The tables of a store.
#[derive(Debug)]
struct Tables {
    groups: Vec<StoredGroup>,
    intents: Vec<StoredGroupIntent>,
    next_intent_id: i32,
    messages: Vec<StoredGroupMessage>,
    refresh_states: Vec<RefreshState>,
    identity_updates: Vec<StoredIdentityUpdate>,
    mls_groups: Vec<GroupState>,
}

impl View for Tables {
    type V = StoreView;

    closed spec fn view(&self) -> StoreView {
        StoreView {
            groups: self.groups@.map_values(|g: StoredGroup| g@),
            intents: self.intents@.map_values(|i: StoredGroupIntent| i@),
            next_intent_id: self.next_intent_id,
            messages: self.messages@.map_values(|m: StoredGroupMessage| m@),
            cursors: self.refresh_states@.map_values(|r: RefreshState| r@),
            identity_updates: self.identity_updates@.map_values(|u: StoredIdentityUpdate| u@),
            mls_groups: self.mls_groups@.map_values(|g: GroupState| g@),
        }
    }
}

impl Tables {
    /// Tables without rows.
    fn new() -> (t: Tables)
        ensures
            t@.groups.len() == 0,
            t@.intents.len() == 0,
            t@.next_intent_id == 1,
            t@.messages.len() == 0,
            t@.cursors.len() == 0,
            t@.identity_updates.len() == 0,
            t@.mls_groups.len() == 0,
            store_well_formed(t@),
    {
        Tables {
            groups: Vec::new(),
            intents: Vec::new(),
            next_intent_id: 1,
            messages: Vec::new(),
            refresh_states: Vec::new(),
            identity_updates: Vec::new(),
            mls_groups: Vec::new(),
        }
    }
}

/// The local store.
#[derive(Debug)]
pub struct EncryptedMessageStore {
    tables: Tables,
}

impl View for EncryptedMessageStore {
    type V = StoreView;

    closed spec fn view(&self) -> StoreView {
        self.tables@
    }
}

impl EncryptedMessageStore {
    #[verifier::type_invariant]
    closed spec fn well_formed(&self) -> bool {
        store_well_formed(self@)
    }

    /// A store without rows.
    pub fn new() -> (s: Self)
        ensures
            s@.groups.len() == 0,
            s@.intents.len() == 0,
            s@.next_intent_id == 1,
            s@.messages.len() == 0,
            s@.cursors.len() == 0,
            s@.identity_updates.len() == 0,
            s@.mls_groups.len() == 0,
            store_well_formed(s@),
    {
        EncryptedMessageStore { tables: Tables::new() }
    }

    /// States what the tables of every store satisfy.
    pub fn check(&self)
        ensures
            store_well_formed(self@),
    {
        proof {
            use_type_invariant(self);
        }
    }

    /// Takes the tables out for a change, leaving empty ones.
    fn take_tables(&mut self) -> (tables: Tables)
        ensures
            tables@ == old(self)@,
            store_well_formed(tables@),
    {
        proof {
            use_type_invariant(&*self);
        }
        let mut tables = Tables::new();
        core::mem::swap(&mut self.tables, &mut tables);
        tables
    }

    /// Puts the changed tables back.
    fn put_tables(&mut self, tables: Tables)
        requires
            store_well_formed(tables@),
        ensures
            final(self)@ == tables@,
    {
        let mut tables = tables;
        core::mem::swap(&mut self.tables, &mut tables);
    }

    /// The place of the row of a group, if the table has one.
    fn group_position(&self, id: &Vec<u8>) -> (at: Option<usize>)
        ensures
            at is Some <==> has_group(self@.groups, id@),
            at is Some ==> at.unwrap() < self.tables.groups@.len() && self@.groups[at.unwrap() as int].id
                == id@ && self@.groups[at.unwrap() as int] == group_row(self@.groups, id@),
    {
        proof {
            use_type_invariant(self);
        }
        let mut i: usize = 0;
        while i < self.tables.groups.len()
            invariant
                store_well_formed(self@),
                0 <= i <= self.tables.groups@.len(),
                forall|k: int| 0 <= k < i ==> self@.groups[k].id != id@,
            decreases self.tables.groups@.len() - i,
        {
            if bytes_eq(&self.tables.groups[i].id, id) {
                proof {
                    assert(self@.groups[i as int].id == id@);
                    let j = group_place(self@.groups, id@);
                    assert(j == i);
                }
                return Some(i);
            }
            i += 1;
        }
        None
    }

    /// The row of a group, if the table has one.
    pub fn find_group(&self, id: &Vec<u8>) -> (row: Option<StoredGroup>)
        ensures
            row is Some <==> has_group(self@.groups, id@),
            row is Some ==> row.unwrap()@ == group_row(self@.groups, id@) && row.unwrap()@.id == id@,
    {
        match self.group_position(id) {
            Some(i) => {
                let g = self.tables.groups[i].clone();
                assert(self@.groups[i as int] == self.tables.groups@[i as int]@);
                Some(g)
            },
            None => None,
        }
    }

    /// Adds the row of a group. A second row for one group is refused, and
    /// nothing changes then.
    pub fn insert_group(&mut self, group: StoredGroup) -> (r: Result<(), StorageError>)
        ensures
            store_well_formed(final(self)@),
            cursors_monotone(old(self)@, final(self)@),
            match r {
                Ok(_) => {
                    &&& !has_group(old(self)@.groups, group@.id)
                    &&& final(self)@ == (StoreView {
                        groups: old(self)@.groups.push(group@),
                        ..old(self)@
                    })
                },
                Err(e) => {
                    &&& has_group(old(self)@.groups, group@.id)
                    &&& final(self)@ == old(self)@
                    &&& e is DieselResult
                },
            },
    {
        proof {
            use_type_invariant(&*self);
        }
        if self.group_position(&group.id).is_some() {
            return Err(StorageError::DieselResult("UNIQUE constraint failed: groups.id".to_owned()));
        }
        let ghost before = self@;
        let mut tables = self.take_tables();
        tables.groups.push(group);
        proof {
            assert(tables@.groups =~= before.groups.push(group@));
            assert(tables@ == StoreView { groups: before.groups.push(group@), ..before });
        }
        self.put_tables(tables);
        Ok(())
    }

    /// Offers the row of a group: it is added unless the table has a row for
    /// the group already. Gives the row that the table then has for the
    /// group.
    pub fn insert_or_ignore_group(&mut self, group: StoredGroup) -> (row: StoredGroup)
        ensures
            store_well_formed(final(self)@),
            cursors_monotone(old(self)@, final(self)@),
            final(self)@ == (StoreView {
                groups: insert_or_ignore(old(self)@.groups, group@),
                ..old(self)@
            }),
            has_group(final(self)@.groups, group@.id),
            row@ == group_row(final(self)@.groups, group@.id),
            row@.id == group@.id,
            !has_group(old(self)@.groups, group@.id) ==> row@ == group@,
    {
        proof {
            use_type_invariant(&*self);
        }
        match self.group_position(&group.id) {
            Some(i) => {
                let g = self.tables.groups[i].clone();
                assert(self@.groups[i as int] == self.tables.groups@[i as int]@);
                g
            },
            None => {
                let ghost before = self@;
                let copy = group.clone();
                let mut tables = self.take_tables();
                tables.groups.push(group);
                proof {
                    assert(tables@.groups =~= before.groups.push(group@));
                    assert(tables@ == StoreView { groups: before.groups.push(group@), ..before });
                }
                self.put_tables(tables);
                proof {
                    let last = self@.groups.len() - 1;
                    assert(self@.groups[last].id == group@.id);
                    let j = choose|j: int|
                        0 <= j < self@.groups.len() && #[trigger] self@.groups[j].id == group@.id;
                    assert(j == last);
                }
                copy
            },
        }
    }

    /// The rows of the groups that pass the filters, in the order in which
    /// they were inserted, and no more of them than the limit allows.
    pub fn find_groups(
        &self,
        allowed_states: Option<Vec<GroupMembershipState>>,
        created_after_ns: Option<i64>,
        created_before_ns: Option<i64>,
        limit: Option<i64>,
    ) -> (rows: Vec<StoredGroup>)
        ensures
            group_views(rows@) == first_matching(
                self@.groups,
                group_filter(opt_states_view(allowed_states), created_after_ns, created_before_ns),
                effective_limit(limit, self@.groups.len()),
            ),
    {
        let ghost all = self@.groups;
        let ghost pass = group_filter(
            opt_states_view(allowed_states),
            created_after_ns,
            created_before_ns,
        );
        let ghost max = effective_limit(limit, all.len());
        let n = self.tables.groups.len();
        let mut out: Vec<StoredGroup> = Vec::new();
        let mut i: usize = 0;
        proof {
            assert(all.subrange(0, all.len() as int) =~= all);
            assert(group_views(out@) =~= Seq::<GroupRow>::empty());
        }
        while i < n && below_limit(limit, out.len(), n)
            invariant
                all == self@.groups,
                n == all.len(),
                n == self.tables.groups@.len(),
                pass == group_filter(
                    opt_states_view(allowed_states),
                    created_after_ns,
                    created_before_ns,
                ),
                max == effective_limit(limit, all.len()),
                0 <= i <= n,
                out@.len() <= i,
                out@.len() <= max,
                group_views(out@) + first_matching(
                    all.subrange(i as int, all.len() as int),
                    pass,
                    (max - out@.len()) as nat,
                ) == first_matching(all, pass, max),
            decreases n - i,
        {
            let g = &self.tables.groups[i];
            assert(all[i as int] == g@);
            let state_ok = match &allowed_states {
                Some(states) => contains_state(states, g.membership_state),
                None => true,
            };
            let after_ok = match created_after_ns {
                Some(t) => g.created_at_ns > t,
                None => true,
            };
            let before_ok = match created_before_ns {
                Some(t) => g.created_at_ns < t,
                None => true,
            };
            let ghost prior = group_views(out@);
            proof {
                lemma_first_matching_step(all, pass, (max - out@.len()) as nat, i as int);
            }
            if state_ok && after_ok && before_ok {
                assert(pass(all[i as int]));
                out.push(g.clone());
                proof {
                    assert(group_views(out@) =~= prior + seq![all[i as int]]);
                    assert((prior + seq![all[i as int]]) + first_matching(
                        all.subrange(i + 1, all.len() as int),
                        pass,
                        (max - out@.len()) as nat,
                    ) =~= prior + (seq![all[i as int]] + first_matching(
                        all.subrange(i + 1, all.len() as int),
                        pass,
                        (max - out@.len()) as nat,
                    )));
                }
            } else {
                assert(!pass(all[i as int]));
            }
            i += 1;
        }
        proof {
            let rest = all.subrange(i as int, all.len() as int);
            if i < n {
                assert(out@.len() == max);
                if rest.len() > 0 {
                    lemma_first_matching_step(all, pass, 0, i as int);
                }
            }
            assert(first_matching(rest, pass, (max - out@.len()) as nat) =~= Seq::<GroupRow>::empty());
            assert(group_views(out@) + Seq::<GroupRow>::empty() =~= group_views(out@));
        }
        out
    }

    /// The place of the last row of a stream's cursor, if there is one.
    fn cursor_position(&self, entity_id: &Vec<u8>, entity_kind: EntityKind) -> (at: Option<usize>)
        ensures
            match at {
                Some(i) => {
                    &&& i < self@.cursors.len()
                    &&& is_cursor_of(self@.cursors[i as int], entity_id@, entity_kind)
                    &&& forall|k: int|
                        i < k < self@.cursors.len() ==> !is_cursor_of(
                            #[trigger] self@.cursors[k],
                            entity_id@,
                            entity_kind,
                        )
                },
                None => forall|k: int|
                    0 <= k < self@.cursors.len() ==> !is_cursor_of(
                        #[trigger] self@.cursors[k],
                        entity_id@,
                        entity_kind,
                    ),
            },
    {
        let mut i: usize = self.tables.refresh_states.len();
        while i > 0
            invariant
                0 <= i <= self.tables.refresh_states@.len(),
                forall|k: int|
                    i <= k < self@.cursors.len() ==> !is_cursor_of(
                        #[trigger] self@.cursors[k],
                        entity_id@,
                        entity_kind,
                    ),
            decreases i,
        {
            i -= 1;
            let row = &self.tables.refresh_states[i];
            assert(self@.cursors[i as int] == row@);
            if row.entity_kind == entity_kind && bytes_eq(&row.entity_id, entity_id) {
                return Some(i);
            }
        }
        None
    }

    /// How far a stream has been processed: 0 for a stream never heard of.
    pub fn get_last_cursor_for_id(&self, entity_id: &Vec<u8>, entity_kind: EntityKind) -> (cursor: u64)
        ensures
            cursor == cursor_of(self@.cursors, entity_id@, entity_kind),
    {
        match self.cursor_position(entity_id, entity_kind) {
            Some(i) => {
                proof {
                    lemma_cursor_of_last_row(self@.cursors, i as int, entity_id@, entity_kind);
                }
                assert(self@.cursors[i as int] == self.tables.refresh_states@[i as int]@);
                self.tables.refresh_states[i].cursor
            },
            None => {
                proof {
                    lemma_cursor_of_absent(self@.cursors, entity_id@, entity_kind);
                }
                0
            },
        }
    }

    /// Moves the cursor of a stream forward. A cursor that is not past the
    /// present one changes nothing. Says whether the cursor moved. No other
    /// stream and no other table is touched.
    pub fn update_cursor(&mut self, entity_id: &Vec<u8>, entity_kind: EntityKind, cursor: u64) -> (updated:
        bool)
        ensures
            store_well_formed(final(self)@),
            cursors_monotone(old(self)@, final(self)@),
            updated == (cursor > cursor_of(old(self)@.cursors, entity_id@, entity_kind)),
            cursor_of(final(self)@.cursors, entity_id@, entity_kind) == if updated {
                cursor
            } else {
                cursor_of(old(self)@.cursors, entity_id@, entity_kind)
            },
            forall|other_id: Seq<u8>, other_kind: EntityKind|
                !(other_id == entity_id@ && other_kind == entity_kind) ==> #[trigger] cursor_of(
                    final(self)@.cursors,
                    other_id,
                    other_kind,
                ) == cursor_of(old(self)@.cursors, other_id, other_kind),
            cursors_monotone(old(self)@, final(self)@),
            final(self)@ == (StoreView { cursors: final(self)@.cursors, ..old(self)@ }),
            !updated ==> final(self)@ == old(self)@,
    {
        proof {
            use_type_invariant(&*self);
        }
        let ghost before = self@;
        let at = self.cursor_position(entity_id, entity_kind);
        match at {
            Some(i) => {
                proof {
                    lemma_cursor_of_last_row(before.cursors, i as int, entity_id@, entity_kind);
                }
                assert(self@.cursors[i as int] == self.tables.refresh_states@[i as int]@);
                if cursor > self.tables.refresh_states[i].cursor {
                    let mut tables = self.take_tables();
                    let row = RefreshState {
                        entity_id: clone_bytes(entity_id),
                        entity_kind,
                        cursor,
                    };
                    assert(tables@.cursors[i as int] == tables.refresh_states@[i as int]@);
                    tables.refresh_states.set(i, row);
                    proof {
                        let changed = before.cursors.update(
                            i as int,
                            CursorRow { cursor, ..before.cursors[i as int] },
                        );
                        assert(tables@.cursors =~= changed);
                        assert(tables@ == StoreView { cursors: changed, ..before });
                        assert forall|other_id: Seq<u8>, other_kind: EntityKind|
                            #[trigger] cursor_of(changed, other_id, other_kind) == if other_id
                                == entity_id@ && other_kind == entity_kind {
                                cursor
                            } else {
                                cursor_of(before.cursors, other_id, other_kind)
                            } by {
                            lemma_cursor_after_update(
                                before.cursors,
                                i as int,
                                cursor,
                                entity_id@,
                                entity_kind,
                                other_id,
                                other_kind,
                            );
                        }
                    }
                    self.put_tables(tables);
                    true
                } else {
                    false
                }
            },
            None => {
                proof {
                    lemma_cursor_of_absent(before.cursors, entity_id@, entity_kind);
                }
                if cursor > 0 {
                    let mut tables = self.take_tables();
                    let row = RefreshState {
                        entity_id: clone_bytes(entity_id),
                        entity_kind,
                        cursor,
                    };
                    tables.refresh_states.push(row);
                    proof {
                        let changed = before.cursors.push(row@);
                        assert(tables@.cursors =~= changed);
                        assert(tables@ == StoreView { cursors: changed, ..before });
                        assert forall|other_id: Seq<u8>, other_kind: EntityKind|
                            #[trigger] cursor_of(changed, other_id, other_kind) == if other_id
                                == entity_id@ && other_kind == entity_kind {
                                cursor
                            } else {
                                cursor_of(before.cursors, other_id, other_kind)
                            } by {
                            lemma_cursor_after_push(before.cursors, row@, other_id, other_kind);
                        }
                    }
                    self.put_tables(tables);
                    true
                } else {
                    false
                }
            },
        }
    }

    /// Adds an identity update to the table.
    pub fn insert_identity_update(&mut self, update: StoredIdentityUpdate)
        ensures
            store_well_formed(final(self)@),
            cursors_monotone(old(self)@, final(self)@),
            final(self)@ == (StoreView {
                identity_updates: old(self)@.identity_updates.push(update@),
                ..old(self)@
            }),
    {
        let ghost before = self@;
        let mut tables = self.take_tables();
        tables.identity_updates.push(update);
        proof {
            assert(tables@.identity_updates =~= before.identity_updates.push(update@));
            assert(tables@ == StoreView {
                identity_updates: before.identity_updates.push(update@),
                ..before
            });
        }
        self.put_tables(tables);
    }

    /// The highest sequence number stored for an inbox, and 0 where nothing
    /// is stored for it.
    pub fn get_latest_sequence_id(&self, inbox_id: &String) -> (sequence_id: i64)
        ensures
            sequence_id == latest_sequence_id(self@.identity_updates, inbox_id@),
    {
        let ghost rows = self@.identity_updates;
        let mut best: i64 = 0;
        let mut i: usize = 0;
        assert(rows.subrange(0, 0) =~= Seq::<IdentityUpdateRow>::empty());
        while i < self.tables.identity_updates.len()
            invariant
                rows == self@.identity_updates,
                0 <= i <= rows.len(),
                rows.len() == self.tables.identity_updates@.len(),
                best == latest_sequence_id(rows.subrange(0, i as int), inbox_id@),
            decreases rows.len() - i,
        {
            let row = &self.tables.identity_updates[i];
            assert(rows[i as int] == row@);
            assert(rows.subrange(0, i + 1).drop_last() =~= rows.subrange(0, i as int));
            assert(rows.subrange(0, i + 1).last() == rows[i as int]);
            if text_eq(&row.inbox_id, inbox_id) && row.sequence_id > best {
                best = row.sequence_id;
            }
            i += 1;
        }
        assert(rows.subrange(0, i as int) =~= rows);
        best
    }

    /// The place of the state of a group, if the MLS layer keeps one.
    fn mls_group_position(&self, group_id: &Vec<u8>) -> (at: Option<usize>)
        ensures
            at is Some <==> mls_group_of(self@.mls_groups, group_id@) is Some,
            at is Some ==> at.unwrap() < self@.mls_groups.len() && Some(
                self@.mls_groups[at.unwrap() as int],
            ) == mls_group_of(self@.mls_groups, group_id@),
    {
        proof {
            use_type_invariant(self);
        }
        let mut i: usize = 0;
        while i < self.tables.mls_groups.len()
            invariant
                store_well_formed(self@),
                0 <= i <= self.tables.mls_groups@.len(),
                forall|k: int| 0 <= k < i ==> self@.mls_groups[k].group_id != group_id@,
            decreases self.tables.mls_groups@.len() - i,
        {
            if bytes_eq(&self.tables.mls_groups[i].group_id, group_id) {
                proof {
                    assert(self@.mls_groups[i as int].group_id == group_id@);
                    let j = choose|j: int|
                        0 <= j < self@.mls_groups.len() && #[trigger] self@.mls_groups[j].group_id
                            == group_id@;
                    assert(j == i);
                }
                return Some(i);
            }
            i += 1;
        }
        None
    }

    /// The state that the MLS layer keeps for a group.
    pub fn load_mls_group(&self, group_id: &Vec<u8>) -> (state: Option<GroupState>)
        ensures
            match state {
                Some(g) => mls_group_of(self@.mls_groups, group_id@) == Some(g@) && g@.group_id
                    == group_id@,
                None => mls_group_of(self@.mls_groups, group_id@) is None,
            },
    {
        match self.mls_group_position(group_id) {
            Some(i) => {
                assert(self@.mls_groups[i as int] == self.tables.mls_groups@[i as int]@);
                Some(self.tables.mls_groups[i].clone())
            },
            None => None,
        }
    }

    /// Keeps the state of a group, in place of the state kept for it so far.
    pub fn save_mls_group(&mut self, state: GroupState)
        ensures
            store_well_formed(final(self)@),
            cursors_monotone(old(self)@, final(self)@),
            mls_group_of(final(self)@.mls_groups, state@.group_id) == Some(state@),
            forall|other: Seq<u8>|
                other != state@.group_id ==> #[trigger] mls_group_of(final(self)@.mls_groups, other)
                    == mls_group_of(old(self)@.mls_groups, other),
            final(self)@ == (StoreView { mls_groups: final(self)@.mls_groups, ..old(self)@ }),
    {
        proof {
            use_type_invariant(&*self);
        }
        let ghost before = self@;
        let at = self.mls_group_position(&state.group_id);
        let mut tables = self.take_tables();
        let ghost changed;
        match at {
            Some(i) => {
                tables.mls_groups.set(i, state);
                proof {
                    changed = before.mls_groups.update(i as int, state@);
                }
            },
            None => {
                tables.mls_groups.push(state);
                proof {
                    changed = before.mls_groups.push(state@);
                }
            },
        }
        proof {
            assert(tables@.mls_groups =~= changed);
            assert(tables@ == StoreView { mls_groups: changed, ..before });
            let at_int = if at is Some { at.unwrap() as int } else { before.mls_groups.len() as int };
            assert(changed[at_int].group_id == state@.group_id);
            assert forall|i: int, j: int|
                0 <= i < changed.len() && 0 <= j < changed.len() && i != j implies changed[i].group_id
                != changed[j].group_id by {
                if at is Some {
                    assert(before.mls_groups[at_int].group_id == state@.group_id);
                }
            }
            assert(mls_group_of(changed, state@.group_id) == Some(state@)) by {
                let j = choose|j: int|
                    0 <= j < changed.len() && #[trigger] changed[j].group_id == state@.group_id;
                assert(j == at_int);
            }
            assert forall|other: Seq<u8>| other != state@.group_id implies #[trigger] mls_group_of(
                changed,
                other,
            ) == mls_group_of(before.mls_groups, other) by {
                if mls_group_of(before.mls_groups, other) is Some {
                    let j = choose|j: int|
                        0 <= j < before.mls_groups.len() && #[trigger] before.mls_groups[j].group_id
                            == other;
                    assert(changed[j].group_id == other);
                    let k = choose|k: int|
                        0 <= k < changed.len() && #[trigger] changed[k].group_id == other;
                    assert(k == j);
                } else {
                    if mls_group_of(changed, other) is Some {
                        let k = choose|k: int|
                            0 <= k < changed.len() && #[trigger] changed[k].group_id == other;
                        assert(before.mls_groups[k].group_id == other);
                    }
                }
            }
        }
        self.put_tables(tables);
    }

    /// The place of an intent, if the queue has it.
    fn intent_position(&self, id: i32) -> (at: Option<usize>)
        ensures
            at is Some <==> has_intent(self@.intents, id),
            at is Some ==> at.unwrap() < self@.intents.len() && at.unwrap() == intent_place(
                self@.intents,
                id,
            ) && self@.intents[at.unwrap() as int].id == id,
    {
        proof {
            use_type_invariant(self);
        }
        let mut i: usize = 0;
        while i < self.tables.intents.len()
            invariant
                store_well_formed(self@),
                0 <= i <= self.tables.intents@.len(),
                forall|k: int| 0 <= k < i ==> self@.intents[k].id != id,
            decreases self.tables.intents@.len() - i,
        {
            if self.tables.intents[i].id == id {
                proof {
                    assert(self@.intents[i as int].id == id);
                    let j = intent_place(self@.intents, id);
                    assert(0 <= j < self@.intents.len() && self@.intents[j].id == id);
                    if j != i {
                        if j < i {
                            assert(self@.intents[j].id < self@.intents[i as int].id);
                        } else {
                            assert(self@.intents[i as int].id < self@.intents[j].id);
                        }
                    }
                }
                return Some(i);
            }
            i += 1;
        }
        None
    }

    /// Puts a new intent at the end of the queue, under the next number. A
    /// queue that has given out all its numbers takes no more.
    pub fn insert_group_intent(&mut self, intent: NewGroupIntent) -> (r: Result<
        StoredGroupIntent,
        StorageError,
    >)
        ensures
            store_well_formed(final(self)@),
            cursors_monotone(old(self)@, final(self)@),
            match r {
                Ok(row) => {
                    &&& old(self)@.next_intent_id < i32::MAX
                    &&& row@ == (IntentRow {
                        id: old(self)@.next_intent_id,
                        kind: intent.kind,
                        group_id: intent.group_id@,
                        data: intent.data@,
                        state: IntentState::ToPublish,
                        payload_hash: None,
                        post_commit_data: None,
                        publish_attempts: 0,
                    })
                    &&& final(self)@ == (StoreView {
                        intents: old(self)@.intents.push(row@),
                        next_intent_id: (old(self)@.next_intent_id + 1) as i32,
                        ..old(self)@
                    })
                },
                Err(e) => {
                    &&& old(self)@.next_intent_id == i32::MAX
                    &&& final(self)@ == old(self)@
                    &&& e is Store
                },
            },
    {
        proof {
            use_type_invariant(&*self);
        }
        if self.tables.next_intent_id == i32::MAX {
            return Err(StorageError::Store("no intent number left".to_owned()));
        }
        let ghost before = self@;
        let mut tables = self.take_tables();
        let id = tables.next_intent_id;
        let row = StoredGroupIntent {
            id,
            kind: intent.kind,
            group_id: clone_bytes(&intent.group_id),
            data: clone_bytes(&intent.data),
            state: IntentState::ToPublish,
            payload_hash: None,
            post_commit_data: None,
            publish_attempts: 0,
        };
        let copy = row.clone();
        tables.intents.push(row);
        tables.next_intent_id = id + 1;
        proof {
            assert(tables@.intents =~= before.intents.push(row@));
            assert(tables@ == StoreView {
                intents: before.intents.push(row@),
                next_intent_id: (before.next_intent_id + 1) as i32,
                ..before
            });
        }
        self.put_tables(tables);
        Ok(copy)
    }

    /// The intent with the given number, if the queue has it.
    pub fn find_group_intent(&self, id: i32) -> (row: Option<StoredGroupIntent>)
        ensures
            row is Some <==> has_intent(self@.intents, id),
            row is Some ==> row.unwrap()@ == intent_row(self@.intents, id) && row.unwrap()@.id == id,
    {
        match self.intent_position(id) {
            Some(i) => {
                assert(self@.intents[i as int] == self.tables.intents@[i as int]@);
                Some(self.tables.intents[i].clone())
            },
            None => None,
        }
    }

    /// The intents of a group that pass the filters, first come first.
    pub fn find_group_intents(
        &self,
        group_id: &Vec<u8>,
        allowed_states: Option<Vec<IntentState>>,
        allowed_kinds: Option<Vec<IntentKind>>,
    ) -> (rows: Vec<StoredGroupIntent>)
        ensures
            intent_views(rows@) == first_matching(
                self@.intents,
                intent_filter(
                    group_id@,
                    opt_intent_states_view(allowed_states),
                    opt_intent_kinds_view(allowed_kinds),
                ),
                self@.intents.len(),
            ),
    {
        let ghost all = self@.intents;
        let ghost pass = intent_filter(
            group_id@,
            opt_intent_states_view(allowed_states),
            opt_intent_kinds_view(allowed_kinds),
        );
        let ghost max = all.len();
        let n = self.tables.intents.len();
        let mut out: Vec<StoredGroupIntent> = Vec::new();
        let mut i: usize = 0;
        proof {
            assert(all.subrange(0, all.len() as int) =~= all);
            assert(intent_views(out@) =~= Seq::<IntentRow>::empty());
        }
        while i < n
            invariant
                all == self@.intents,
                n == all.len(),
                n == self.tables.intents@.len(),
                max == all.len(),
                pass == intent_filter(
                    group_id@,
                    opt_intent_states_view(allowed_states),
                    opt_intent_kinds_view(allowed_kinds),
                ),
                0 <= i <= n,
                out@.len() <= i,
                intent_views(out@) + first_matching(
                    all.subrange(i as int, all.len() as int),
                    pass,
                    (max - out@.len()) as nat,
                ) == first_matching(all, pass, max),
            decreases n - i,
        {
            let r = &self.tables.intents[i];
            assert(all[i as int] == r@);
            let group_ok = bytes_eq(&r.group_id, group_id);
            let state_ok = match &allowed_states {
                Some(states) => contains_intent_state(states, r.state),
                None => true,
            };
            let kind_ok = match &allowed_kinds {
                Some(kinds) => contains_intent_kind(kinds, r.kind),
                None => true,
            };
            let ghost prior = intent_views(out@);
            proof {
                lemma_first_matching_step(all, pass, (max - out@.len()) as nat, i as int);
            }
            if group_ok && state_ok && kind_ok {
                assert(pass(all[i as int]));
                out.push(r.clone());
                proof {
                    assert(intent_views(out@) =~= prior + seq![all[i as int]]);
                    assert((prior + seq![all[i as int]]) + first_matching(
                        all.subrange(i + 1, all.len() as int),
                        pass,
                        (max - out@.len()) as nat,
                    ) =~= prior + (seq![all[i as int]] + first_matching(
                        all.subrange(i + 1, all.len() as int),
                        pass,
                        (max - out@.len()) as nat,
                    )));
                }
            } else {
                assert(!pass(all[i as int]));
            }
            i += 1;
        }
        proof {
            let rest = all.subrange(i as int, all.len() as int);
            assert(first_matching(rest, pass, (max - out@.len()) as nat) =~= Seq::<IntentRow>::empty());
            assert(intent_views(out@) + Seq::<IntentRow>::empty() =~= intent_views(out@));
        }
        out
    }

    /// The first intent that was published under the given hash.
    pub fn find_group_intent_by_payload_hash(&self, payload_hash: &Vec<u8>) -> (row: Option<
        StoredGroupIntent,
    >)
        ensures
            match row {
                Some(r) => first_matching(self@.intents, hash_filter(payload_hash@), 1) == seq![r@],
                None => first_matching(self@.intents, hash_filter(payload_hash@), 1)
                    == Seq::<IntentRow>::empty(),
            },
            row is Some ==> has_intent(self@.intents, row.unwrap()@.id) && row.unwrap()@
                == intent_row(self@.intents, row.unwrap()@.id) && row.unwrap()@.payload_hash == Some(
                payload_hash@,
            ),
            row is None ==> forall|k: int|
                0 <= k < self@.intents.len() ==> (#[trigger] self@.intents[k]).payload_hash != Some(
                    payload_hash@,
                ),
    {
        proof {
            use_type_invariant(self);
        }
        let ghost all = self@.intents;
        let ghost pass = hash_filter(payload_hash@);
        let n = self.tables.intents.len();
        let mut i: usize = 0;
        proof {
            assert(all.subrange(0, all.len() as int) =~= all);
        }
        while i < n
            invariant
                store_well_formed(self@),
                all == self@.intents,
                n == all.len(),
                n == self.tables.intents@.len(),
                pass == hash_filter(payload_hash@),
                0 <= i <= n,
                first_matching(all.subrange(i as int, all.len() as int), pass, 1) == first_matching(
                    all,
                    pass,
                    1,
                ),
                forall|k: int| 0 <= k < i ==> (#[trigger] all[k]).payload_hash != Some(payload_hash@),
            decreases n - i,
        {
            let r = &self.tables.intents[i];
            assert(all[i as int] == r@);
            proof {
                lemma_first_matching_step(all, pass, 1, i as int);
            }
            let hit = match &r.payload_hash {
                Some(h) => bytes_eq(h, payload_hash),
                None => false,
            };
            if hit {
                proof {
                    assert(pass(all[i as int]));
                    if i + 1 < n {
                        lemma_first_matching_step(all, pass, 0, i + 1);
                    }
                    assert(first_matching(all.subrange(i + 1, all.len() as int), pass, 0)
                        =~= Seq::<IntentRow>::empty());
                    assert(seq![all[i as int]] + Seq::<IntentRow>::empty() =~= seq![all[i as int]]);
                    let id = all[i as int].id;
                    let j = intent_place(all, id);
                    assert(0 <= j < all.len() && all[j].id == id);
                    if j != i {
                        if j < i {
                            assert(all[j].id < all[i as int].id);
                        } else {
                            assert(all[i as int].id < all[j].id);
                        }
                    }
                }
                return Some(r.clone());
            }
            assert(!pass(all[i as int]));
            i += 1;
        }
        None
    }

    /// Lets an event happen to an intent. An intent that is not in the queue,
    /// or to which the event cannot happen in its state, is not found, and
    /// nothing changes then.
    pub fn apply_intent_event(&mut self, id: i32, event: IntentEvent) -> (r: Result<
        StoredGroupIntent,
        StorageError,
    >)
        ensures
            store_well_formed(final(self)@),
            cursors_monotone(old(self)@, final(self)@),
            match r {
                Ok(row) => {
                    &&& has_intent(old(self)@.intents, id)
                    &&& intent_step(intent_row(old(self)@.intents, id), event@) == Some(row@)
                    &&& final(self)@ == (StoreView {
                        intents: old(self)@.intents.update(
                            intent_place(old(self)@.intents, id),
                            row@,
                        ),
                        ..old(self)@
                    })
                },
                Err(e) => {
                    &&& !has_intent(old(self)@.intents, id) || intent_step(
                        intent_row(old(self)@.intents, id),
                        event@,
                    ) is None
                    &&& final(self)@ == old(self)@
                    &&& e == StorageError::NotFound
                },
            },
    {
        proof {
            use_type_invariant(&*self);
        }
        let ghost before = self@;
        let i = match self.intent_position(id) {
            Some(i) => i,
            None => {
                return Err(StorageError::NotFound);
            },
        };
        assert(self@.intents[i as int] == self.tables.intents@[i as int]@);
        let next = match self.tables.intents[i].after(event) {
            Some(n) => n,
            None => {
                return Err(StorageError::NotFound);
            },
        };
        let copy = next.clone();
        let mut tables = self.take_tables();
        tables.intents.set(i, next);
        proof {
            let changed = before.intents.update(i as int, next@);
            assert(tables@.intents =~= changed);
            assert(tables@ == StoreView { intents: changed, ..before });
            assert(next@.id == id);
        }
        self.put_tables(tables);
        Ok(copy)
    }

    /// Notes that the commit of an intent was sent.
    pub fn set_group_intent_published(
        &mut self,
        intent_id: i32,
        payload_hash: Vec<u8>,
        post_commit_data: Option<Vec<u8>>,
    ) -> (r: Result<StoredGroupIntent, StorageError>)
        ensures
            store_well_formed(final(self)@),
            cursors_monotone(old(self)@, final(self)@),
            match r {
                Ok(row) => {
                    &&& has_intent(old(self)@.intents, intent_id)
                    &&& intent_step(
                        intent_row(old(self)@.intents, intent_id),
                        (IntentEvent::Published { payload_hash, post_commit_data })@,
                    ) == Some(row@)
                    &&& final(self)@ == (StoreView {
                        intents: old(self)@.intents.update(
                            intent_place(old(self)@.intents, intent_id),
                            row@,
                        ),
                        ..old(self)@
                    })
                },
                Err(e) => {
                    &&& !has_intent(old(self)@.intents, intent_id) || intent_row(
                        old(self)@.intents,
                        intent_id,
                    ).state != IntentState::ToPublish
                    &&& final(self)@ == old(self)@
                    &&& e == StorageError::NotFound
                },
            },
    {
        self.apply_intent_event(intent_id, IntentEvent::Published { payload_hash, post_commit_data })
    }

    /// Notes that the commit of an intent was seen and merged.
    pub fn set_group_intent_committed(&mut self, intent_id: i32) -> (r: Result<
        StoredGroupIntent,
        StorageError,
    >)
        ensures
            store_well_formed(final(self)@),
            cursors_monotone(old(self)@, final(self)@),
            match r {
                Ok(row) => {
                    &&& has_intent(old(self)@.intents, intent_id)
                    &&& intent_step(
                        intent_row(old(self)@.intents, intent_id),
                        IntentEvent::CommitObserved@,
                    ) == Some(row@)
                    &&& row@.state == IntentState::Committed
                    &&& final(self)@ == (StoreView {
                        intents: old(self)@.intents.update(
                            intent_place(old(self)@.intents, intent_id),
                            row@,
                        ),
                        ..old(self)@
                    })
                },
                Err(e) => {
                    &&& !has_intent(old(self)@.intents, intent_id) || intent_row(
                        old(self)@.intents,
                        intent_id,
                    ).state != IntentState::Published
                    &&& final(self)@ == old(self)@
                    &&& e == StorageError::NotFound
                },
            },
    {
        self.apply_intent_event(intent_id, IntentEvent::CommitObserved)
    }

    /// Sends an intent whose commit was overtaken back to be published, or
    /// to failure once its attempts are used up.
    pub fn set_group_intent_to_publish(&mut self, intent_id: i32) -> (r: Result<
        StoredGroupIntent,
        StorageError,
    >)
        ensures
            store_well_formed(final(self)@),
            cursors_monotone(old(self)@, final(self)@),
            match r {
                Ok(row) => {
                    &&& has_intent(old(self)@.intents, intent_id)
                    &&& intent_step(
                        intent_row(old(self)@.intents, intent_id),
                        IntentEvent::Republish@,
                    ) == Some(row@)
                    &&& final(self)@ == (StoreView {
                        intents: old(self)@.intents.update(
                            intent_place(old(self)@.intents, intent_id),
                            row@,
                        ),
                        ..old(self)@
                    })
                },
                Err(e) => {
                    &&& !has_intent(old(self)@.intents, intent_id) || intent_row(
                        old(self)@.intents,
                        intent_id,
                    ).state != IntentState::Published
                    &&& final(self)@ == old(self)@
                    &&& e == StorageError::NotFound
                },
            },
    {
        self.apply_intent_event(intent_id, IntentEvent::Republish)
    }

    /// Notes that an intent failed for good.
    pub fn set_group_intent_error(&mut self, intent_id: i32) -> (r: Result<
        StoredGroupIntent,
        StorageError,
    >)
        ensures
            store_well_formed(final(self)@),
            cursors_monotone(old(self)@, final(self)@),
            match r {
                Ok(row) => {
                    &&& has_intent(old(self)@.intents, intent_id)
                    &&& intent_step(intent_row(old(self)@.intents, intent_id), IntentEvent::Fatal@)
                        == Some(row@)
                    &&& row@.state == IntentState::Error
                    &&& final(self)@ == (StoreView {
                        intents: old(self)@.intents.update(
                            intent_place(old(self)@.intents, intent_id),
                            row@,
                        ),
                        ..old(self)@
                    })
                },
                Err(e) => {
                    &&& !has_intent(old(self)@.intents, intent_id) || !(intent_row(
                        old(self)@.intents,
                        intent_id,
                    ).state == IntentState::ToPublish || intent_row(
                        old(self)@.intents,
                        intent_id,
                    ).state == IntentState::Published)
                    &&& final(self)@ == old(self)@
                    &&& e == StorageError::NotFound
                },
            },
    {
        self.apply_intent_event(intent_id, IntentEvent::Fatal)
    }

    /// The place of a message, if the table has it.
    fn message_position(&self, id: &Vec<u8>) -> (at: Option<usize>)
        ensures
            at is Some <==> has_message(self@.messages, id@),
            at is Some ==> at.unwrap() < self@.messages.len() && at.unwrap() == message_place(
                self@.messages,
                id@,
            ) && self@.messages[at.unwrap() as int].id == id@,
    {
        proof {
            use_type_invariant(self);
        }
        let mut i: usize = 0;
        while i < self.tables.messages.len()
            invariant
                store_well_formed(self@),
                0 <= i <= self.tables.messages@.len(),
                forall|k: int| 0 <= k < i ==> self@.messages[k].id != id@,
            decreases self.tables.messages@.len() - i,
        {
            if bytes_eq(&self.tables.messages[i].id, id) {
                proof {
                    assert(self@.messages[i as int].id == id@);
                    let j = message_place(self@.messages, id@);
                    assert(j == i);
                }
                return Some(i);
            }
            i += 1;
        }
        None
    }

    /// Adds a message. A second message under one id is refused, and nothing
    /// changes then.
    pub fn insert_group_message(&mut self, message: StoredGroupMessage) -> (r: Result<
        (),
        StorageError,
    >)
        ensures
            store_well_formed(final(self)@),
            cursors_monotone(old(self)@, final(self)@),
            match r {
                Ok(_) => {
                    &&& !has_message(old(self)@.messages, message@.id)
                    &&& final(self)@ == (StoreView {
                        messages: old(self)@.messages.push(message@),
                        ..old(self)@
                    })
                },
                Err(e) => {
                    &&& has_message(old(self)@.messages, message@.id)
                    &&& final(self)@ == old(self)@
                    &&& e is DieselResult
                },
            },
    {
        proof {
            use_type_invariant(&*self);
        }
        if self.message_position(&message.id).is_some() {
            return Err(
                StorageError::DieselResult("UNIQUE constraint failed: group_messages.id".to_owned()),
            );
        }
        let ghost before = self@;
        let mut tables = self.take_tables();
        tables.messages.push(message);
        proof {
            assert(tables@.messages =~= before.messages.push(message@));
            assert(tables@ == StoreView { messages: before.messages.push(message@), ..before });
        }
        self.put_tables(tables);
        Ok(())
    }

    /// The message with the given id, if the table has it.
    pub fn get_group_message(&self, id: &Vec<u8>) -> (row: Option<StoredGroupMessage>)
        ensures
            row is Some <==> has_message(self@.messages, id@),
            row is Some ==> row.unwrap()@ == self@.messages[message_place(self@.messages, id@)]
                && row.unwrap()@.id == id@,
    {
        match self.message_position(id) {
            Some(i) => {
                assert(self@.messages[i as int] == self.tables.messages@[i as int]@);
                Some(self.tables.messages[i].clone())
            },
            None => None,
        }
    }

    /// The messages of a group that pass the filters, in the order in which
    /// they were stored, and no more of them than the limit allows.
    pub fn get_group_messages(
        &self,
        group_id: &Vec<u8>,
        sent_after_ns: Option<i64>,
        sent_before_ns: Option<i64>,
        kind: Option<GroupMessageKind>,
        delivery_status: Option<DeliveryStatus>,
        limit: Option<i64>,
    ) -> (rows: Vec<StoredGroupMessage>)
        ensures
            message_views(rows@) == first_matching(
                self@.messages,
                message_filter(group_id@, sent_after_ns, sent_before_ns, kind, delivery_status),
                effective_limit(limit, self@.messages.len()),
            ),
    {
        let ghost all = self@.messages;
        let ghost pass = message_filter(
            group_id@,
            sent_after_ns,
            sent_before_ns,
            kind,
            delivery_status,
        );
        let ghost max = effective_limit(limit, all.len());
        let n = self.tables.messages.len();
        let mut out: Vec<StoredGroupMessage> = Vec::new();
        let mut i: usize = 0;
        proof {
            assert(all.subrange(0, all.len() as int) =~= all);
            assert(message_views(out@) =~= Seq::<MessageRow>::empty());
        }
        while i < n && below_limit(limit, out.len(), n)
            invariant
                all == self@.messages,
                n == all.len(),
                n == self.tables.messages@.len(),
                pass == message_filter(
                    group_id@,
                    sent_after_ns,
                    sent_before_ns,
                    kind,
                    delivery_status,
                ),
                max == effective_limit(limit, all.len()),
                0 <= i <= n,
                out@.len() <= i,
                out@.len() <= max,
                message_views(out@) + first_matching(
                    all.subrange(i as int, all.len() as int),
                    pass,
                    (max - out@.len()) as nat,
                ) == first_matching(all, pass, max),
            decreases n - i,
        {
            let m = &self.tables.messages[i];
            assert(all[i as int] == m@);
            let group_ok = bytes_eq(&m.group_id, group_id);
            let after_ok = match sent_after_ns {
                Some(t) => m.sent_at_ns > t,
                None => true,
            };
            let before_ok = match sent_before_ns {
                Some(t) => m.sent_at_ns < t,
                None => true,
            };
            let kind_ok = match kind {
                Some(k) => m.kind == k,
                None => true,
            };
            let status_ok = match delivery_status {
                Some(d) => m.delivery_status == d,
                None => true,
            };
            let ghost prior = message_views(out@);
            proof {
                lemma_first_matching_step(all, pass, (max - out@.len()) as nat, i as int);
            }
            if group_ok && after_ok && before_ok && kind_ok && status_ok {
                assert(pass(all[i as int]));
                out.push(m.clone());
                proof {
                    assert(message_views(out@) =~= prior + seq![all[i as int]]);
                    assert((prior + seq![all[i as int]]) + first_matching(
                        all.subrange(i + 1, all.len() as int),
                        pass,
                        (max - out@.len()) as nat,
                    ) =~= prior + (seq![all[i as int]] + first_matching(
                        all.subrange(i + 1, all.len() as int),
                        pass,
                        (max - out@.len()) as nat,
                    )));
                }
            } else {
                assert(!pass(all[i as int]));
            }
            i += 1;
        }
        proof {
            let rest = all.subrange(i as int, all.len() as int);
            if i < n {
                assert(out@.len() == max);
                if rest.len() > 0 {
                    lemma_first_matching_step(all, pass, 0, i as int);
                }
            }
            assert(first_matching(rest, pass, (max - out@.len()) as nat) =~= Seq::<MessageRow>::empty());
            assert(message_views(out@) + Seq::<MessageRow>::empty() =~= message_views(out@));
        }
        out
    }

    /// Notes that a message has reached the network, and when. Says whether
    /// the table has the message; nothing changes where it has not.
    pub fn set_delivery_status_to_published(&mut self, id: &Vec<u8>, timestamp_ns: i64) -> (found:
        bool)
        ensures
            store_well_formed(final(self)@),
            cursors_monotone(old(self)@, final(self)@),
            found == has_message(old(self)@.messages, id@),
            found ==> final(self)@ == (StoreView {
                messages: old(self)@.messages.update(
                    message_place(old(self)@.messages, id@),
                    MessageRow {
                        delivery_status: DeliveryStatus::Published,
                        sent_at_ns: timestamp_ns,
                        ..old(self)@.messages[message_place(old(self)@.messages, id@)]
                    },
                ),
                ..old(self)@
            }),
            !found ==> final(self)@ == old(self)@,
    {
        proof {
            use_type_invariant(&*self);
        }
        let ghost before = self@;
        let i = match self.message_position(id) {
            Some(i) => i,
            None => {
                return false;
            },
        };
        assert(self@.messages[i as int] == self.tables.messages@[i as int]@);
        let mut row = self.tables.messages[i].clone();
        row.delivery_status = DeliveryStatus::Published;
        row.sent_at_ns = timestamp_ns;
        let mut tables = self.take_tables();
        tables.messages.set(i, row);
        proof {
            let changed = before.messages.update(i as int, row@);
            assert(tables@.messages =~= changed);
            assert(tables@ == StoreView { messages: changed, ..before });
        }
        self.put_tables(tables);
        true
    }

    /// Sends every published intent of a group back to be published, or to
    /// failure once its attempts are used up: the group has moved on, and
    /// the commits of these intents were made for an epoch that is over.
    pub fn republish_published_intents(&mut self, group_id: &Vec<u8>)
        ensures
            store_well_formed(final(self)@),
            cursors_monotone(old(self)@, final(self)@),
            final(self)@ == (StoreView {
                intents: republished(old(self)@.intents, group_id@),
                ..old(self)@
            }),
    {
        let ghost before = self@;
        let ghost change = overtaken(group_id@);
        let mut tables = self.take_tables();
        let n = tables.intents.len();
        let mut i: usize = 0;
        while i < n
            invariant
                change == overtaken(group_id@),
                n == before.intents.len(),
                tables.intents@.len() == n,
                0 <= i <= n,
                tables@ == (StoreView { intents: tables@.intents, ..before }),
                forall|k: int| 0 <= k < i ==> tables@.intents[k] == change(before.intents[k]),
                forall|k: int| i <= k < n ==> tables@.intents[k] == before.intents[k],
                forall|k: int| 0 <= k < n ==> (#[trigger] tables@.intents[k]).id == before.intents[k].id,
                store_well_formed(before),
            decreases n - i,
        {
            let ghost prior = tables@;
            assert(tables@.intents[i as int] == tables.intents@[i as int]@);
            let hit = bytes_eq(&tables.intents[i].group_id, group_id) && tables.intents[i].state
                == IntentState::Published;
            if hit {
                match tables.intents[i].after(IntentEvent::Republish) {
                    Some(next) => {
                        tables.intents.set(i, next);
                        proof {
                            assert(tables@.intents =~= prior.intents.update(i as int, next@));
                            assert(tables@ == StoreView { intents: tables@.intents, ..before });
                        }
                    },
                    None => {},
                }
            }
            i += 1;
        }
        proof {
            assert(tables@.intents =~= republished(before.intents, group_id@));
            let after = tables@;
            assert forall|a: int, b: int| 0 <= a < b < after.intents.len() implies after.intents[a].id
                < after.intents[b].id by {
                assert(after.intents[a].id == before.intents[a].id);
                assert(after.intents[b].id == before.intents[b].id);
            }
            assert forall|a: int| 0 <= a < after.intents.len() implies 0 < (
            #[trigger] after.intents[a]).id < after.next_intent_id by {
                assert(after.intents[a].id == before.intents[a].id);
            }
        }
        self.put_tables(tables);
    }

    /// Notes the time at which the installations of a group's members were
    /// last looked up. Says whether the table has a row for the group;
    /// nothing changes where it has not.
    pub fn update_installations_time_checked(&mut self, group_id: &Vec<u8>, now_ns: i64) -> (found:
        bool)
        ensures
            store_well_formed(final(self)@),
            cursors_monotone(old(self)@, final(self)@),
            found == has_group(old(self)@.groups, group_id@),
            found ==> final(self)@ == (StoreView {
                groups: with_time_checked(old(self)@.groups, group_id@, now_ns),
                ..old(self)@
            }),
            !found ==> final(self)@ == old(self)@,
    {
        proof {
            use_type_invariant(&*self);
        }
        let ghost before = self@;
        let i = match self.group_position(group_id) {
            Some(i) => i,
            None => {
                return false;
            },
        };
        assert(self@.groups[i as int] == self.tables.groups@[i as int]@);
        let mut row = self.tables.groups[i].clone();
        row.installations_last_checked = now_ns;
        let mut tables = self.take_tables();
        tables.groups.set(i, row);
        proof {
            let changed = before.groups.update(i as int, row@);
            assert(tables@.groups =~= changed);
            assert(tables@ == StoreView { groups: changed, ..before });
        }
        self.put_tables(tables);
        true
    }
}

/// Whether the list holds the intent state.
pub fn contains_intent_state(states: &Vec<IntentState>, state: IntentState) -> (has: bool)
    ensures
        has == states@.contains(state),
{
    let mut i: usize = 0;
    while i < states.len()
        invariant
            0 <= i <= states@.len(),
            forall|k: int| 0 <= k < i ==> states@[k] != state,
        decreases states@.len() - i,
    {
        if states[i] == state {
            return true;
        }
        i += 1;
    }
    false
}

/// Whether the list holds the intent kind.
pub fn contains_intent_kind(kinds: &Vec<IntentKind>, kind: IntentKind) -> (has: bool)
    ensures
        has == kinds@.contains(kind),
{
    let mut i: usize = 0;
    while i < kinds.len()
        invariant
            0 <= i <= kinds@.len(),
            forall|k: int| 0 <= k < i ==> kinds@[k] != kind,
        decreases kinds@.len() - i,
    {
        if kinds[i] == kind {
            return true;
        }
        i += 1;
    }
    false
}

/// Whether the list holds the membership state.
pub fn contains_state(states: &Vec<GroupMembershipState>, state: GroupMembershipState) -> (has: bool)
    ensures
        has == states@.contains(state),
{
    let mut i: usize = 0;
    while i < states.len()
        invariant
            0 <= i <= states@.len(),
            forall|k: int| 0 <= k < i ==> states@[k] != state,
        decreases states@.len() - i,
    {
        if states[i] == state {
            return true;
        }
        i += 1;
    }
    false
}

/// No two rows of the table of groups are for one group.
pub open spec fn distinct_group_ids(rows: Seq<GroupRow>) -> bool {
    forall|i: int, j: int| 0 <= i < rows.len() && 0 <= j < rows.len() && i != j ==> rows[i].id != rows[j].id
}

/// A table without a row for a group counts none for it.
pub proof fn lemma_count_of_absent_group(rows: Seq<GroupRow>, id: Seq<u8>)
    requires
        !has_group(rows, id),
    ensures
        count_group_rows(rows, id) == 0,
    decreases rows.len(),
{
    if rows.len() > 0 {
        assert(rows[rows.len() - 1].id != id);
        assert(!has_group(rows.drop_last(), id)) by {
            if has_group(rows.drop_last(), id) {
                let i = choose|i: int|
                    0 <= i < rows.drop_last().len() && #[trigger] rows.drop_last()[i].id == id;
                assert(rows[i].id == id);
            }
        }
        lemma_count_of_absent_group(rows.drop_last(), id);
    }
}

/// A table with one row per group counts exactly one row for a group that
/// it has a row for.
pub proof fn lemma_count_of_present_group(rows: Seq<GroupRow>, id: Seq<u8>)
    requires
        distinct_group_ids(rows),
        has_group(rows, id),
    ensures
        count_group_rows(rows, id) == 1,
    decreases rows.len(),
{
    let front = rows.drop_last();
    if rows.last().id == id {
        assert(!has_group(front, id)) by {
            if has_group(front, id) {
                let i = choose|i: int| 0 <= i < front.len() && #[trigger] front[i].id == id;
                assert(rows[i].id == id);
            }
        }
        lemma_count_of_absent_group(front, id);
    } else {
        let i = choose|i: int| 0 <= i < rows.len() && #[trigger] rows[i].id == id;
        assert(front[i].id == id);
        lemma_count_of_present_group(front, id);
    }
}

/// Offering the row of a group a second time changes nothing, and after the
/// first time the table has exactly one row for the group: a welcome that
/// is processed twice leaves one group.
pub proof fn law_group_row_is_inserted_once(rows: Seq<GroupRow>, row: GroupRow, again: GroupRow)
    requires
        distinct_group_ids(rows),
        again.id == row.id,
    ensures
        insert_or_ignore(insert_or_ignore(rows, row), again) == insert_or_ignore(rows, row),
        count_group_rows(insert_or_ignore(rows, row), row.id) == 1,
        distinct_group_ids(insert_or_ignore(rows, row)),
{
    let once = insert_or_ignore(rows, row);
    if has_group(rows, row.id) {
        lemma_count_of_present_group(rows, row.id);
    } else {
        assert(once[once.len() - 1].id == row.id);
        assert(has_group(once, row.id));
        lemma_count_of_present_group(once, row.id);
    }
}

/// Cursors that do not go back from one store to the next do not go back
/// over any number of steps.
pub proof fn law_cursors_never_go_back(first: StoreView, second: StoreView, third: StoreView)
    requires
        cursors_monotone(first, second),
        cursors_monotone(second, third),
    ensures
        cursors_monotone(first, third),
        cursors_monotone(first, first),
{
    assert forall|entity_id: Seq<u8>, entity_kind: EntityKind|
        cursor_of(first.cursors, entity_id, entity_kind) <= #[trigger] cursor_of(
            third.cursors,
            entity_id,
            entity_kind,
        ) by {
        assert(cursor_of(first.cursors, entity_id, entity_kind) <= cursor_of(
            second.cursors,
            entity_id,
            entity_kind,
        ));
    }
}

} // verus!
