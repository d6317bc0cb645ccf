//! The association state of one inbox: its members, its recovery address and
//! the signatures it has already consumed.

use vstd::prelude::*;
use crate::associations::member::{Member, MemberId, MemberIdentifier, MemberKind, MemberView};
use crate::util::{bytes_eq, clone_bytes};

verus! {

/// The mathematical value of an association state.
pub struct StateView {
    pub inbox_id: Seq<char>,
    pub recovery_address: Seq<char>,
    pub members: Map<MemberId, MemberView>,
    pub seen_signatures: Set<Seq<u8>>,
}

/// No two records of the list carry the same identifier.
pub open spec fn distinct_ids(s: Seq<Member>) -> bool {
    forall|i: int, j: int|
        0 <= i < s.len() && 0 <= j < s.len() && i != j ==> s[i].identifier@ != s[j].identifier@
}

/// Whether some record of the list carries the identifier.
pub open spec fn has_id(s: Seq<Member>, id: MemberId) -> bool {
    exists|i: int| 0 <= i < s.len() && #[trigger] s[i].identifier@ == id
}

/// The place of a record that carries the identifier.
pub open spec fn index_of(s: Seq<Member>, id: MemberId) -> int {
    choose|i: int| 0 <= i < s.len() && #[trigger] s[i].identifier@ == id
}

/// The map from identifier to record that a list of records stands for.
pub open spec fn members_map(s: Seq<Member>) -> Map<MemberId, MemberView> {
    Map::new(|id: MemberId| has_id(s, id), |id: MemberId| s[index_of(s, id)]@)
}

/// The set of byte strings that a list holds.
pub open spec fn bytes_set(s: Seq<Vec<u8>>) -> Set<Seq<u8>> {
    Set::new(|b: Seq<u8>| exists|i: int| 0 <= i < s.len() && #[trigger] s[i]@ == b)
}

/// In a list without repeated identifiers, each record is the one its
/// identifier maps to.
pub proof fn lemma_members_map_at(s: Seq<Member>, i: int)
    requires
        distinct_ids(s),
        0 <= i < s.len(),
    ensures
        members_map(s).contains_key(s[i].identifier@),
        members_map(s)[s[i].identifier@] == s[i]@,
        index_of(s, s[i].identifier@) == i,
{
    let id = s[i].identifier@;
    assert(has_id(s, id));
    let j = index_of(s, id);
    assert(0 <= j < s.len() && s[j].identifier@ == id);
}

/// A map that agrees with a list of records, place by place and key by key,
/// is the map the list stands for.
pub proof fn lemma_members_map_is(s: Seq<Member>, m: Map<MemberId, MemberView>)
    requires
        distinct_ids(s),
        forall|i: int|
            #![trigger s[i]]
            0 <= i < s.len() ==> m.contains_key(s[i].identifier@) && m[s[i].identifier@] == s[i]@,
        forall|id: MemberId| #[trigger] m.contains_key(id) ==> has_id(s, id),
    ensures
        members_map(s) == m,
{
    assert forall|id: MemberId| #[trigger] members_map(s).contains_key(id) implies m.contains_key(
        id,
    ) && members_map(s)[id] == m[id] by {
        let j = index_of(s, id);
        assert(0 <= j < s.len() && s[j].identifier@ == id);
    }
    assert(members_map(s) =~= m);
}

/// The member that added the given one, where the given one is a member
/// and was added by somebody.
pub open spec fn parent_of(members: Map<MemberId, MemberView>, id: MemberId) -> Option<MemberId> {
    if members.contains_key(id) {
        members[id].added_by_entity
    } else {
        None
    }
}

/// The identifier reached from `id` after following `k` times the link from
/// a member to the member that added it.
pub open spec fn ancestor(members: Map<MemberId, MemberView>, id: MemberId, k: nat) -> Option<
    MemberId,
>
    decreases k,
{
    if k == 0 {
        Some(id)
    } else {
        match ancestor(members, id, (k - 1) as nat) {
            Some(a) => parent_of(members, a),
            None => None,
        }
    }
}

/// Whether `id` is `root` or was added, directly or through a chain of
/// additions, by `root`.
pub open spec fn in_cascade(members: Map<MemberId, MemberView>, root: MemberId, id: MemberId) -> bool {
    exists|k: nat| ancestor(members, id, k) == Some(root)
}

/// The members left when `root` and all that it added, directly or through
/// others, are taken away.
pub open spec fn without_cascade(members: Map<MemberId, MemberView>, root: MemberId) -> Map<
    MemberId,
    MemberView,
> {
    members.remove_keys(Set::new(|id: MemberId| in_cascade(members, root, id)))
}

/// Following the links from `id` is following them from the member that
/// added `id`, one step later.
pub proof fn lemma_ancestor_shift(members: Map<MemberId, MemberView>, id: MemberId, k: nat)
    requires
        k >= 1,
    ensures
        ancestor(members, id, k) == match parent_of(members, id) {
            Some(p) => ancestor(members, p, (k - 1) as nat),
            None => None,
        },
    decreases k,
{
    if k == 1 {
        assert(ancestor(members, id, 0) == Some(id));
    } else {
        lemma_ancestor_shift(members, id, (k - 1) as nat);
    }
}

/// How many places of the list are not marked.
spec fn unmarked(marks: Seq<bool>) -> nat
    decreases marks.len(),
{
    if marks.len() == 0 {
        0
    } else {
        unmarked(marks.drop_last()) + if marks.last() {
            0nat
        } else {
            1nat
        }
    }
}

proof fn lemma_mark_one(marks: Seq<bool>, i: int)
    requires
        0 <= i < marks.len(),
        !marks[i],
    ensures
        unmarked(marks.update(i, true)) + 1 == unmarked(marks),
    decreases marks.len(),
{
    if i == marks.len() - 1 {
        assert(marks.update(i, true).drop_last() =~= marks.drop_last());
    } else {
        lemma_mark_one(marks.drop_last(), i);
        assert(marks.update(i, true).drop_last() =~= marks.drop_last().update(i, true));
    }
}

/// Whether the record at place `i` is due to be marked: it is the root, or
/// the member that added it is the root or a marked member.
spec fn due(s: Seq<Member>, marks: Seq<bool>, root: MemberId, i: int) -> bool {
    s[i].identifier@ == root || match s[i].added_by_entity {
        Some(p) => p@ == root || (has_id(s, p@) && marks[index_of(s, p@)]),
        None => false,
    }
}

/// Every marked record is in the cascade of the root.
spec fn marks_sound(s: Seq<Member>, marks: Seq<bool>, root: MemberId) -> bool {
    forall|i: int|
        0 <= i < s.len() && #[trigger] marks[i] ==> in_cascade(
            members_map(s),
            root,
            s[i].identifier@,
        )
}

/// No unmarked record is due to be marked.
spec fn marks_closed(s: Seq<Member>, marks: Seq<bool>, root: MemberId) -> bool {
    forall|i: int| 0 <= i < s.len() && !#[trigger] marks[i] ==> !due(s, marks, root, i)
}

proof fn lemma_closed_is_complete(
    s: Seq<Member>,
    marks: Seq<bool>,
    root: MemberId,
    id: MemberId,
    k: nat,
)
    requires
        distinct_ids(s),
        marks.len() == s.len(),
        marks_closed(s, marks, root),
        ancestor(members_map(s), id, k) == Some(root),
    ensures
        id == root || (has_id(s, id) && marks[index_of(s, id)]),
    decreases k,
{
    let m = members_map(s);
    if k > 0 {
        lemma_ancestor_shift(m, id, k);
        let p = parent_of(m, id).unwrap();
        let i = index_of(s, id);
        assert(0 <= i < s.len() && s[i].identifier@ == id);
        lemma_members_map_at(s, i);
        lemma_closed_is_complete(s, marks, root, p, (k - 1) as nat);
        assert(due(s, marks, root, i));
    }
}

/// A list without repeated identifiers stands for a finite map with as many
/// keys as the list has records.
pub proof fn lemma_members_map_len(s: Seq<Member>)
    requires
        distinct_ids(s),
    ensures
        members_map(s).dom().finite(),
        members_map(s).len() == s.len(),
    decreases s.len(),
{
    if s.len() == 0 {
        assert(members_map(s).dom() =~= Set::<MemberId>::empty());
    } else {
        let front = s.drop_last();
        let id = s.last().identifier@;
        lemma_members_map_len(front);
        assert(!has_id(front, id)) by {
            if has_id(front, id) {
                let j = index_of(front, id);
                assert(s[j].identifier@ == id);
            }
        }
        assert(members_map(s).dom() =~= members_map(front).dom().insert(id)) by {
            assert forall|k: MemberId| members_map(s).dom().contains(k) <==> members_map(
                front,
            ).dom().insert(id).contains(k) by {
                if has_id(s, k) && k != id {
                    let j = index_of(s, k);
                    assert(front[j].identifier@ == k);
                }
                if has_id(front, k) {
                    let j = index_of(front, k);
                    assert(s[j].identifier@ == k);
                }
                if k == id {
                    assert(s[s.len() - 1].identifier@ == k);
                }
            }
        }
    }
}

/// The keys of the records that stand at flagged places.
pub open spec fn flagged_ids(s: Seq<Member>, flags: Seq<bool>) -> Set<MemberId> {
    Set::new(|id: MemberId| has_id(s, id) && flags[index_of(s, id)])
}

/// Copies the records that stand at flagged places, in their order.
fn keep_flagged(members: &Vec<Member>, flags: &Vec<bool>) -> (kept: Vec<Member>)
    requires
        distinct_ids(members@),
        flags@.len() == members@.len(),
    ensures
        distinct_ids(kept@),
        members_map(kept@) == members_map(members@).restrict(flagged_ids(members@, flags@)),
{
    let ghost old_seq = members@;
    let ghost wanted = members_map(old_seq).restrict(flagged_ids(old_seq, flags@));
    let mut kept: Vec<Member> = Vec::new();
    let ghost mut src: Seq<int> = Seq::empty();
    let mut i: usize = 0;
    while i < members.len()
        invariant
            old_seq == members@,
            distinct_ids(old_seq),
            flags@.len() == old_seq.len(),
            0 <= i <= old_seq.len(),
            src.len() == kept@.len(),
            forall|a: int|
                #![trigger src[a]]
                0 <= a < src.len() ==> 0 <= src[a] < i && flags@[src[a]] && kept@[a]@
                    == old_seq[src[a]]@,
            forall|a: int, b: int| 0 <= a < b < src.len() ==> src[a] < src[b],
            forall|k: int|
                0 <= k < i && #[trigger] flags@[k] ==> exists|a: int|
                    0 <= a < src.len() && #[trigger] src[a] == k,
        decreases old_seq.len() - i,
    {
        let ghost prior = src;
        if flags[i] {
            kept.push(members[i].clone());
            proof {
                src = src.push(i as int);
                assert(src[src.len() - 1] == i);
            }
        }
        proof {
            assert forall|k: int| 0 <= k < i + 1 && #[trigger] flags@[k] implies exists|a: int|
                0 <= a < src.len() && #[trigger] src[a] == k by {
                if k < i {
                    let a = choose|a: int| 0 <= a < prior.len() && #[trigger] prior[a] == k;
                    assert(src[a] == k);
                } else {
                    assert(src[src.len() - 1] == k);
                }
            }
        }
        i += 1;
    }
    proof {
        assert forall|a: int, b: int|
            0 <= a < kept@.len() && 0 <= b < kept@.len() && a != b implies kept@[a].identifier@
            != kept@[b].identifier@ by {
            assert(kept@[a]@ == old_seq[src[a]]@);
            assert(kept@[b]@ == old_seq[src[b]]@);
            if a < b {
                assert(src[a] < src[b]);
            } else {
                assert(src[b] < src[a]);
            }
        }
        assert forall|a: int| #![trigger kept@[a]] 0 <= a < kept@.len() implies wanted.contains_key(
            kept@[a].identifier@,
        ) && wanted[kept@[a].identifier@] == kept@[a]@ by {
            assert(kept@[a]@ == old_seq[src[a]]@);
            lemma_members_map_at(old_seq, src[a]);
        }
        assert forall|id: MemberId| #[trigger] wanted.contains_key(id) implies has_id(kept@, id) by {
            let k = index_of(old_seq, id);
            assert(0 <= k < old_seq.len() && old_seq[k].identifier@ == id);
            assert(flags@[k]);
            let a = choose|a: int| 0 <= a < src.len() && #[trigger] src[a] == k;
            assert(kept@[a]@ == old_seq[src[a]]@);
            assert(kept@[a].identifier@ == id);
        }
        lemma_members_map_is(kept@, wanted);
    }
    kept
}

/// The association state of an inbox.
#[derive(Debug)]
pub struct AssociationState {
    inbox_id: String,
    recovery_address: String,
    members: Vec<Member>,
    seen_signatures: Vec<Vec<u8>>,
}

impl View for AssociationState {
    type V = StateView;

    closed spec fn view(&self) -> StateView {
        StateView {
            inbox_id: self.inbox_id@,
            recovery_address: self.recovery_address@,
            members: members_map(self.members@),
            seen_signatures: bytes_set(self.seen_signatures@),
        }
    }
}

impl AssociationState {
    #[verifier::type_invariant]
    closed spec fn well_formed(&self) -> bool {
        distinct_ids(self.members@)
    }

    /// The state of a freshly created inbox: the creating account is its only
    /// member and its recovery address, and no signature has been seen.
    pub fn new(inbox_id: String, account_address: String, client_timestamp_ns: u64) -> (s: Self)
        ensures
            s@.inbox_id == inbox_id@,
            s@.recovery_address == account_address@,
            s@.members == Map::<MemberId, MemberView>::empty().insert(
                MemberId::Address(account_address@),
                MemberView {
                    identifier: MemberId::Address(account_address@),
                    added_by_entity: None,
                    client_timestamp_ns,
                },
            ),
            s@.seen_signatures == Set::<Seq<u8>>::empty(),
    {
        let creator = Member {
            identifier: MemberIdentifier::Address(account_address.clone()),
            added_by_entity: None,
            client_timestamp_ns,
        };
        let mut members: Vec<Member> = Vec::new();
        members.push(creator);
        let s = AssociationState {
            inbox_id,
            recovery_address: account_address,
            members,
            seen_signatures: Vec::new(),
        };
        proof {
            lemma_members_map_at(s.members@, 0);
            assert(s@.members =~= Map::<MemberId, MemberView>::empty().insert(
                MemberId::Address(account_address@),
                MemberView {
                    identifier: MemberId::Address(account_address@),
                    added_by_entity: None,
                    client_timestamp_ns,
                },
            ));
            assert(s@.seen_signatures =~= Set::<Seq<u8>>::empty());
        }
        s
    }

    /// The identifier of the inbox.
    pub fn inbox_id(&self) -> (id: &String)
        ensures
            id@ == self@.inbox_id,
    {
        &self.inbox_id
    }

    /// The account address that may revoke members and change itself.
    pub fn recovery_address(&self) -> (a: &String)
        ensures
            a@ == self@.recovery_address,
    {
        &self.recovery_address
    }

    /// The place of the member with the given identifier, if there is one.
    fn position(&self, id: &MemberIdentifier) -> (at: Option<usize>)
        ensures
            at is Some <==> has_id(self.members@, id@),
            at is Some ==> at.unwrap() < self.members@.len()
                && self.members@[at.unwrap() as int].identifier@ == id@,
    {
        let mut i: usize = 0;
        while i < self.members.len()
            invariant
                0 <= i <= self.members.len(),
                forall|k: int| 0 <= k < i ==> self.members@[k].identifier@ != id@,
            decreases self.members.len() - i,
        {
            if self.members[i].identifier.same_as(id) {
                return Some(i);
            }
            i += 1;
        }
        None
    }

    /// The record of the member with the given identifier, if it is a member.
    pub fn get(&self, id: &MemberIdentifier) -> (m: Option<Member>)
        ensures
            m is Some <==> self@.members.contains_key(id@),
            m is Some ==> m.unwrap()@ == self@.members[id@],
    {
        proof {
            use_type_invariant(self);
        }
        match self.position(id) {
            Some(i) => {
                proof {
                    lemma_members_map_at(self.members@, i as int);
                }
                Some(self.members[i].clone())
            },
            None => None,
        }
    }

    /// Whether the byte string is the raw bytes of a signature already used.
    pub fn has_seen(&self, raw_bytes: &Vec<u8>) -> (seen: bool)
        ensures
            seen == self@.seen_signatures.contains(raw_bytes@),
    {
        let mut i: usize = 0;
        while i < self.seen_signatures.len()
            invariant
                0 <= i <= self.seen_signatures.len(),
                forall|k: int| 0 <= k < i ==> self.seen_signatures@[k]@ != raw_bytes@,
            decreases self.seen_signatures.len() - i,
        {
            if bytes_eq(&self.seen_signatures[i], raw_bytes) {
                return true;
            }
            i += 1;
        }
        false
    }

    /// The state with the member added; a member already known by that
    /// identifier is replaced.
    pub fn add(self, member: Member) -> (s: Self)
        ensures
            s@.inbox_id == self@.inbox_id,
            s@.recovery_address == self@.recovery_address,
            s@.seen_signatures == self@.seen_signatures,
            s@.members == self@.members.insert(member@.identifier, member@),
    {
        proof {
            use_type_invariant(&self);
        }
        let at = self.position(&member.identifier);
        let ghost before = self.members@;
        let ghost wanted = self@.members.insert(member@.identifier, member@);
        let AssociationState { inbox_id, recovery_address, mut members, seen_signatures } = self;
        match at {
            Some(i) => {
                members.set(i, member);
            },
            None => {
                members.push(member);
            },
        }
        proof {
            assert forall|i: int| #![trigger members@[i]] 0 <= i < members@.len() implies wanted.contains_key(
                members@[i].identifier@,
            ) && wanted[members@[i].identifier@] == members@[i]@ by {
                if i < before.len() {
                    lemma_members_map_at(before, i);
                }
            }
            assert forall|id: MemberId| #[trigger] wanted.contains_key(id) implies has_id(
                members@,
                id,
            ) by {
                if id == member@.identifier {
                    let j = if at is Some { at.unwrap() as int } else { before.len() as int };
                    assert(members@[j].identifier@ == id);
                } else {
                    let j = index_of(before, id);
                    assert(members@[j].identifier@ == id);
                }
            }
            lemma_members_map_is(members@, wanted);
        }
        AssociationState { inbox_id, recovery_address, members, seen_signatures }
    }

    /// The state with another recovery address.
    pub fn set_recovery_address(self, recovery_address: String) -> (s: Self)
        ensures
            s@.inbox_id == self@.inbox_id,
            s@.recovery_address == recovery_address@,
            s@.seen_signatures == self@.seen_signatures,
            s@.members == self@.members,
    {
        proof {
            use_type_invariant(&self);
        }
        AssociationState {
            inbox_id: self.inbox_id,
            recovery_address,
            members: self.members,
            seen_signatures: self.seen_signatures,
        }
    }

    /// The state that has also seen the given signatures.
    pub fn add_seen_signatures(self, signatures: Vec<Vec<u8>>) -> (s: Self)
        ensures
            s@.inbox_id == self@.inbox_id,
            s@.recovery_address == self@.recovery_address,
            s@.members == self@.members,
            s@.seen_signatures == self@.seen_signatures.union(bytes_set(signatures@)),
    {
        proof {
            use_type_invariant(&self);
        }
        let ghost before = self.seen_signatures@;
        let AssociationState { inbox_id, recovery_address, members, mut seen_signatures } = self;
        let mut i: usize = 0;
        while i < signatures.len()
            invariant
                0 <= i <= signatures.len(),
                bytes_set(seen_signatures@) == bytes_set(before).union(
                    bytes_set(signatures@.subrange(0, i as int)),
                ),
            decreases signatures.len() - i,
        {
            let ghost prior = seen_signatures@;
            seen_signatures.push(clone_bytes(&signatures[i]));
            proof {
                let done = signatures@.subrange(0, i as int);
                let next = signatures@.subrange(0, i + 1);
                assert forall|b: Seq<u8>| bytes_set(seen_signatures@).contains(b) <==> bytes_set(
                    before,
                ).union(bytes_set(next)).contains(b) by {
                    if bytes_set(seen_signatures@).contains(b) {
                        let k = choose|k: int|
                            0 <= k < seen_signatures@.len() && #[trigger] seen_signatures@[k]@ == b;
                        if k < prior.len() {
                            assert(prior[k]@ == b);
                            assert(bytes_set(prior).contains(b));
                            if bytes_set(done).contains(b) {
                                let d = choose|d: int| 0 <= d < done.len() && #[trigger] done[d]@ == b;
                                assert(next[d]@ == b);
                            }
                        } else {
                            assert(next[i as int]@ == b);
                        }
                    }
                    if bytes_set(before).contains(b) {
                        assert(bytes_set(prior).contains(b));
                        let k = choose|k: int| 0 <= k < prior.len() && #[trigger] prior[k]@ == b;
                        assert(seen_signatures@[k]@ == b);
                    }
                    if bytes_set(next).contains(b) {
                        let d = choose|d: int| 0 <= d < next.len() && #[trigger] next[d]@ == b;
                        if d < i {
                            assert(done[d]@ == b);
                            assert(bytes_set(prior).contains(b));
                            let k = choose|k: int| 0 <= k < prior.len() && #[trigger] prior[k]@ == b;
                            assert(seen_signatures@[k]@ == b);
                        } else {
                            assert(seen_signatures@[prior.len() as int]@ == b);
                        }
                    }
                }
                assert(bytes_set(seen_signatures@) =~= bytes_set(before).union(bytes_set(next)));
            }
            i += 1;
        }
        proof {
            assert(signatures@.subrange(0, i as int) =~= signatures@);
        }
        AssociationState { inbox_id, recovery_address, members, seen_signatures }
    }

    /// Marks the members in the cascade of `root`: the result holds `true`
    /// at exactly their places.
    fn mark_cascade(&self, root: &MemberIdentifier) -> (marks: Vec<bool>)
        ensures
            marks@.len() == self.members@.len(),
            forall|i: int|
                0 <= i < marks@.len() ==> (#[trigger] marks@[i] <==> in_cascade(
                    members_map(self.members@),
                    root@,
                    self.members@[i].identifier@,
                )),
    {
        proof {
            use_type_invariant(self);
        }
        let n = self.members.len();
        let ghost s = self.members@;
        let ghost m = members_map(s);
        let mut marks: Vec<bool> = Vec::new();
        while marks.len() < n
            invariant
                marks@.len() <= n,
                forall|i: int| 0 <= i < marks@.len() ==> !marks@[i],
            decreases n - marks@.len(),
        {
            marks.push(false);
        }
        let mut changed = true;
        while changed
            invariant
                s == self.members@,
                m == members_map(s),
                distinct_ids(s),
                n == s.len(),
                marks@.len() == n,
                marks_sound(s, marks@, root@),
                !changed ==> marks_closed(s, marks@, root@),
            decreases unmarked(marks@) + if changed { 1nat } else { 0nat },
        {
            changed = false;
            let ghost start = marks@;
            let mut i: usize = 0;
            while i < n
                invariant
                    s == self.members@,
                    m == members_map(s),
                    distinct_ids(s),
                    n == s.len(),
                    marks@.len() == n,
                    0 <= i <= n,
                    marks_sound(s, marks@, root@),
                    !changed ==> marks@ == start,
                    !changed ==> forall|k: int| 0 <= k < i && !#[trigger] marks@[k] ==> !due(s, marks@, root@, k),
                    changed ==> unmarked(marks@) < unmarked(start),
                    unmarked(marks@) <= unmarked(start),
                decreases n - i,
            {
                if !marks[i] {
                    let member = &self.members[i];
                    let mut hit = member.identifier.same_as(root);
                    proof {
                        lemma_members_map_at(s, i as int);
                        if hit {
                            assert(ancestor(m, s[i as int].identifier@, 0) == Some(root@));
                        }
                    }
                    if !hit {
                        match &member.added_by_entity {
                            Some(p) => {
                                if p.same_as(root) {
                                    hit = true;
                                    proof {
                                        lemma_ancestor_shift(m, s[i as int].identifier@, 1);
                                        assert(ancestor(m, root@, 0) == Some(root@));
                                        assert(ancestor(m, s[i as int].identifier@, 1) == Some(root@));
                                    }
                                } else {
                                    match self.position(p) {
                                        Some(j) => {
                                            proof {
                                                lemma_members_map_at(s, j as int);
                                            }
                                            if marks[j] {
                                                hit = true;
                                                proof {
                                                    let k = choose|k: nat| ancestor(m, p@, k) == Some(root@);
                                                    lemma_ancestor_shift(m, s[i as int].identifier@, k + 1);
                                                    assert(ancestor(m, s[i as int].identifier@, k + 1) == Some(root@));
                                                }
                                            }
                                        },
                                        None => {},
                                    }
                                }
                            },
                            None => {},
                        }
                    }
                    assert(hit == due(s, marks@, root@, i as int));
                    if hit {
                        proof {
                            lemma_mark_one(marks@, i as int);
                        }
                        marks.set(i, true);
                        changed = true;
                    }
                }
                i += 1;
            }
        }
        proof {
            assert forall|i: int| 0 <= i < marks@.len() && in_cascade(
                m,
                root@,
                s[i].identifier@,
            ) implies #[trigger] marks@[i] by {
                let k = choose|k: nat| ancestor(m, s[i].identifier@, k) == Some(root@);
                lemma_closed_is_complete(s, marks@, root@, s[i].identifier@, k);
                lemma_members_map_at(s, i);
                if !marks@[i] {
                    assert(!due(s, marks@, root@, i));
                }
            }
        }
        marks
    }

    /// The state without `root` and without every member that `root` added,
    /// directly or through a chain of additions.
    pub fn remove_cascade(self, root: &MemberIdentifier) -> (s: Self)
        ensures
            s@.inbox_id == self@.inbox_id,
            s@.recovery_address == self@.recovery_address,
            s@.seen_signatures == self@.seen_signatures,
            s@.members == without_cascade(self@.members, root@),
    {
        proof {
            use_type_invariant(&self);
        }
        let marks = self.mark_cascade(root);
        let ghost old_seq = self.members@;
        let mut flags: Vec<bool> = Vec::new();
        let mut i: usize = 0;
        while i < marks.len()
            invariant
                0 <= i <= marks@.len(),
                flags@.len() == i,
                forall|k: int| 0 <= k < i ==> flags@[k] == !marks@[k],
            decreases marks@.len() - i,
        {
            flags.push(!marks[i]);
            i += 1;
        }
        let kept = keep_flagged(&self.members, &flags);
        proof {
            assert(members_map(kept@) =~= without_cascade(self@.members, root@)) by {
                assert forall|id: MemberId| has_id(old_seq, id) implies (flags@[index_of(old_seq, id)]
                    <==> !in_cascade(members_map(old_seq), root@, id)) by {
                    let k = index_of(old_seq, id);
                    assert(0 <= k < old_seq.len() && old_seq[k].identifier@ == id);
                    assert(marks@[k] <==> in_cascade(members_map(old_seq), root@, id));
                }
            }
        }
        AssociationState {
            inbox_id: self.inbox_id,
            recovery_address: self.recovery_address,
            members: kept,
            seen_signatures: self.seen_signatures,
        }
    }

    /// How many members the inbox has.
    pub fn member_count(&self) -> (n: usize)
        ensures
            n == self@.members.len(),
            self@.members.dom().finite(),
    {
        proof {
            use_type_invariant(self);
            lemma_members_map_len(self.members@);
        }
        self.members.len()
    }

    /// All members, each once.
    pub fn members(&self) -> (list: Vec<Member>)
        ensures
            distinct_ids(list@),
            members_map(list@) == self@.members,
    {
        proof {
            use_type_invariant(self);
        }
        let mut flags: Vec<bool> = Vec::new();
        while flags.len() < self.members.len()
            invariant
                flags@.len() <= self.members@.len(),
                forall|k: int| 0 <= k < flags@.len() ==> flags@[k],
            decreases self.members@.len() - flags@.len(),
        {
            flags.push(true);
        }
        let list = keep_flagged(&self.members, &flags);
        proof {
            let s = self.members@;
            assert forall|id: MemberId| has_id(s, id) implies flags@[index_of(s, id)] by {
                let k = index_of(s, id);
                assert(0 <= k < s.len() && s[k].identifier@ == id);
            }
            assert(members_map(list@) =~= self@.members);
        }
        list
    }

    /// The members of one kind, each once.
    pub fn members_by_kind(&self, kind: MemberKind) -> (list: Vec<Member>)
        ensures
            distinct_ids(list@),
            members_map(list@) == self@.members.restrict(
                Set::new(|id: MemberId| id.kind() == kind),
            ),
    {
        proof {
            use_type_invariant(self);
        }
        let mut flags: Vec<bool> = Vec::new();
        let mut i: usize = 0;
        while i < self.members.len()
            invariant
                0 <= i <= self.members@.len(),
                flags@.len() == i,
                forall|k: int|
                    0 <= k < i ==> flags@[k] == (self.members@[k].identifier@.kind() == kind),
            decreases self.members@.len() - i,
        {
            flags.push(self.members[i].kind() == kind);
            i += 1;
        }
        let list = keep_flagged(&self.members, &flags);
        proof {
            let s = self.members@;
            assert forall|id: MemberId| has_id(s, id) implies (flags@[index_of(s, id)] <==> id.kind()
                == kind) by {
                let k = index_of(s, id);
                assert(0 <= k < s.len() && s[k].identifier@ == id);
            }
            assert(members_map(list@) =~= self@.members.restrict(
                Set::new(|id: MemberId| id.kind() == kind),
            ));
        }
        list
    }

    /// The members that the given member added itself, each once.
    pub fn members_by_parent(&self, parent: &MemberIdentifier) -> (list: Vec<Member>)
        ensures
            distinct_ids(list@),
            members_map(list@) == self@.members.restrict(
                Set::new(|id: MemberId| parent_of(self@.members, id) == Some(parent@)),
            ),
    {
        proof {
            use_type_invariant(self);
        }
        let mut flags: Vec<bool> = Vec::new();
        let mut i: usize = 0;
        while i < self.members.len()
            invariant
                0 <= i <= self.members@.len(),
                flags@.len() == i,
                forall|k: int|
                    0 <= k < i ==> flags@[k] == (self.members@[k]@.added_by_entity == Some(
                        parent@,
                    )),
            decreases self.members@.len() - i,
        {
            let hit = match &self.members[i].added_by_entity {
                Some(p) => p.same_as(parent),
                None => false,
            };
            flags.push(hit);
            i += 1;
        }
        let list = keep_flagged(&self.members, &flags);
        proof {
            let s = self.members@;
            assert forall|id: MemberId| has_id(s, id) implies (flags@[index_of(s, id)] <==> parent_of(
                self@.members,
                id,
            ) == Some(parent@)) by {
                let k = index_of(s, id);
                assert(0 <= k < s.len() && s[k].identifier@ == id);
                lemma_members_map_at(s, k);
            }
            assert(members_map(list@) =~= self@.members.restrict(
                Set::new(|id: MemberId| parent_of(self@.members, id) == Some(parent@)),
            ));
        }
        list
    }

    /// The keys of the installations that are members, each once.
    pub fn installation_ids(&self) -> (ids: Vec<Vec<u8>>)
        ensures
            forall|i: int, j: int| 0 <= i < j < ids@.len() ==> ids@[i]@ != ids@[j]@,
            forall|key: Seq<u8>|
                bytes_set(ids@).contains(key) <==> self@.members.contains_key(
                    MemberId::Installation(key),
                ),
    {
        proof {
            use_type_invariant(self);
        }
        let ghost s = self.members@;
        let mut ids: Vec<Vec<u8>> = Vec::new();
        let ghost mut src: Seq<int> = Seq::empty();
        let mut i: usize = 0;
        while i < self.members.len()
            invariant
                s == self.members@,
                distinct_ids(s),
                0 <= i <= s.len(),
                src.len() == ids@.len(),
                forall|a: int|
                    #![trigger src[a]]
                    0 <= a < src.len() ==> 0 <= src[a] < i && s[src[a]].identifier@
                        == MemberId::Installation(ids@[a]@),
                forall|a: int, b: int| 0 <= a < b < src.len() ==> src[a] < src[b],
                forall|k: int|
                    0 <= k < i && #[trigger] s[k].identifier@.kind() == MemberKind::Installation
                        ==> exists|a: int| 0 <= a < src.len() && #[trigger] src[a] == k,
            decreases s.len() - i,
        {
            let ghost prior = src;
            match &self.members[i].identifier {
                MemberIdentifier::Installation(key) => {
                    ids.push(clone_bytes(key));
                    proof {
                        src = src.push(i as int);
                        assert(src[src.len() - 1] == i);
                    }
                },
                MemberIdentifier::Address(_) => {},
            }
            proof {
                assert forall|k: int|
                    0 <= k < i + 1 && #[trigger] s[k].identifier@.kind()
                        == MemberKind::Installation implies exists|a: int|
                    0 <= a < src.len() && #[trigger] src[a] == k by {
                    if k < i {
                        let a = choose|a: int| 0 <= a < prior.len() && #[trigger] prior[a] == k;
                        assert(src[a] == k);
                    } else {
                        assert(src[src.len() - 1] == k);
                    }
                }
            }
            i += 1;
        }
        proof {
            assert forall|a: int, b: int| 0 <= a < b < ids@.len() implies ids@[a]@ != ids@[b]@ by {
                assert(src[a] < src[b]);
                assert(s[src[a]].identifier@ == MemberId::Installation(ids@[a]@));
                assert(s[src[b]].identifier@ == MemberId::Installation(ids@[b]@));
            }
            assert forall|key: Seq<u8>| bytes_set(ids@).contains(key) <==> self@.members.contains_key(
                MemberId::Installation(key),
            ) by {
                if bytes_set(ids@).contains(key) {
                    let a = choose|a: int| 0 <= a < ids@.len() && #[trigger] ids@[a]@ == key;
                    assert(s[src[a]].identifier@ == MemberId::Installation(key));
                }
                if self@.members.contains_key(MemberId::Installation(key)) {
                    let k = index_of(s, MemberId::Installation(key));
                    assert(0 <= k < s.len() && s[k].identifier@ == MemberId::Installation(key));
                    assert(s[k].identifier@.kind() == MemberKind::Installation);
                    let a = choose|a: int| 0 <= a < src.len() && #[trigger] src[a] == k;
                    assert(ids@[a]@ == key);
                }
            }
        }
        ids
    }
}

} // verus!
