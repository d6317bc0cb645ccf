//! Small helpers on byte strings and text shared by the other modules.

use vstd::prelude::*;

verus! {

/// Compares two byte strings.
pub fn bytes_eq(a: &Vec<u8>, b: &Vec<u8>) -> (same: bool)
    ensures
        same == (a@ == b@),
{
    if a.len() != b.len() {
        return false;
    }
    let mut i: usize = 0;
    while i < a.len()
        invariant
            a.len() == b.len(),
            0 <= i <= a.len(),
            forall|k: int| 0 <= k < i ==> a@[k] == b@[k],
        decreases a.len() - i,
    {
        if a[i] != b[i] {
            return false;
        }
        i += 1;
    }
    assert(a@ =~= b@);
    true
}

/// Compares two texts.
pub fn text_eq(a: &String, b: &String) -> (same: bool)
    ensures
        same == (a@ == b@),
{
    a.eq(b)
}

/// Copies a byte string.
pub fn clone_bytes(a: &Vec<u8>) -> (copy: Vec<u8>)
    ensures
        copy@ == a@,
{
    let mut out: Vec<u8> = Vec::new();
    let mut i: usize = 0;
    while i < a.len()
        invariant
            0 <= i <= a.len(),
            out@ == a@.subrange(0, i as int),
        decreases a.len() - i,
    {
        out.push(a[i]);
        assert(a@.subrange(0, i as int).push(a@[i as int]) =~= a@.subrange(0, i + 1));
        i += 1;
    }
    assert(a@.subrange(0, a@.len() as int) =~= a@);
    out
}

/// Copies a list of texts.
pub fn clone_strings(a: &Vec<String>) -> (copy: Vec<String>)
    ensures
        copy@ == a@,
{
    let mut out: Vec<String> = Vec::new();
    let mut i: usize = 0;
    while i < a.len()
        invariant
            0 <= i <= a.len(),
            out@ == a@.subrange(0, i as int),
        decreases a.len() - i,
    {
        out.push(a[i].clone());
        assert(a@.subrange(0, i as int).push(a@[i as int]) =~= a@.subrange(0, i + 1));
        i += 1;
    }
    assert(a@.subrange(0, a@.len() as int) =~= a@);
    out
}

/// The mathematical values of a list of texts.
pub open spec fn text_views(s: Seq<String>) -> Seq<Seq<char>> {
    s.map_values(|t: String| t@)
}

/// The mathematical values of a list of byte strings.
pub open spec fn bytes_views(s: Seq<Vec<u8>>) -> Seq<Seq<u8>> {
    s.map_values(|b: Vec<u8>| b@)
}

/// Whether the list holds the text.
pub fn list_contains(list: &Vec<String>, text: &String) -> (has: bool)
    ensures
        has == text_views(list@).contains(text@),
{
    let mut i: usize = 0;
    while i < list.len()
        invariant
            0 <= i <= list@.len(),
            forall|k: int| 0 <= k < i ==> list@[k]@ != text@,
        decreases list@.len() - i,
    {
        if text_eq(&list[i], text) {
            assert(text_views(list@)[i as int] == text@);
            return true;
        }
        i += 1;
    }
    assert forall|k: int| 0 <= k < text_views(list@).len() implies text_views(list@)[k] != text@ by {
        assert(text_views(list@)[k] == list@[k]@);
    }
    false
}

/// The list without every occurrence of the text; the others keep their
/// order.
pub fn list_without(list: &Vec<String>, text: &String) -> (rest: Vec<String>)
    ensures
        text_views(rest@) == crate::text_map::without_text(text_views(list@), text@),
{
    let ghost all = text_views(list@);
    let mut rest: Vec<String> = Vec::new();
    let mut i: usize = 0;
    proof {
        reveal(Seq::filter);
        assert(all.subrange(0, 0) =~= Seq::<Seq<char>>::empty());
        assert(text_views(rest@) =~= Seq::<Seq<char>>::empty());
    }
    while i < list.len()
        invariant
            all == text_views(list@),
            0 <= i <= list@.len(),
            text_views(rest@) == crate::text_map::without_text(all.subrange(0, i as int), text@),
        decreases list@.len() - i,
    {
        let ghost prior = text_views(rest@);
        let keep = !text_eq(&list[i], text);
        if keep {
            rest.push(list[i].clone());
        }
        proof {
            reveal(Seq::filter);
            let next = all.subrange(0, i + 1);
            assert(next.drop_last() =~= all.subrange(0, i as int));
            assert(next.last() == list@[i as int]@);
            if keep {
                assert(text_views(rest@) =~= prior.push(list@[i as int]@));
            } else {
                assert(text_views(rest@) =~= prior);
            }
        }
        i += 1;
    }
    proof {
        assert(all.subrange(0, i as int) =~= all);
    }
    rest
}

/// The first `limit` entries of a list that pass a test, in their order.
pub open spec fn first_matching<T>(rows: Seq<T>, pass: spec_fn(T) -> bool, limit: nat) -> Seq<T>
    decreases rows.len(),
{
    if rows.len() == 0 || limit == 0 {
        Seq::empty()
    } else if pass(rows[0]) {
        seq![rows[0]] + first_matching(rows.drop_first(), pass, (limit - 1) as nat)
    } else {
        first_matching(rows.drop_first(), pass, limit)
    }
}

/// How many entries a query gives at most: the limit where one is given and
/// is not negative, and all there are otherwise.
pub open spec fn effective_limit(limit: Option<i64>, available: nat) -> nat {
    match limit {
        Some(l) => if l >= 0 {
            l as nat
        } else {
            available
        },
        None => available,
    }
}

/// Whether a query that has `taken` entries may take more.
pub fn below_limit(limit: Option<i64>, taken: usize, available: usize) -> (more: bool)
    requires
        taken <= available,
    ensures
        more == (taken < effective_limit(limit, available as nat)),
{
    match limit {
        Some(l) => if l >= 0 {
            (taken as u64) < (l as u64)
        } else {
            taken < available
        },
        None => taken < available,
    }
}

/// One step of a query: what is taken so far, and then the first matches
/// of the rest, is the whole answer.
pub proof fn lemma_first_matching_step<T>(rows: Seq<T>, pass: spec_fn(T) -> bool, limit: nat, i: int)
    requires
        0 <= i < rows.len(),
    ensures
        limit > 0 && pass(rows[i]) ==> first_matching(rows.subrange(i, rows.len() as int), pass, limit)
            == seq![rows[i]] + first_matching(
            rows.subrange(i + 1, rows.len() as int),
            pass,
            (limit - 1) as nat,
        ),
        limit > 0 && !pass(rows[i]) ==> first_matching(
            rows.subrange(i, rows.len() as int),
            pass,
            limit,
        ) == first_matching(rows.subrange(i + 1, rows.len() as int), pass, limit),
        limit == 0 ==> first_matching(rows.subrange(i, rows.len() as int), pass, limit)
            == Seq::<T>::empty(),
{
    let rest = rows.subrange(i, rows.len() as int);
    assert(rest[0] == rows[i]);
    assert(rest.drop_first() =~= rows.subrange(i + 1, rows.len() as int));
}

/// A query never gives more entries than there are.
pub proof fn lemma_first_matching_len<T>(rows: Seq<T>, pass: spec_fn(T) -> bool, limit: nat)
    ensures
        first_matching(rows, pass, limit).len() <= rows.len(),
        first_matching(rows, pass, limit).len() <= limit,
    decreases rows.len(),
{
    if rows.len() > 0 && limit > 0 {
        if pass(rows[0]) {
            lemma_first_matching_len(rows.drop_first(), pass, (limit - 1) as nat);
        } else {
            lemma_first_matching_len(rows.drop_first(), pass, limit);
        }
    }
}

/// The first entry of an answer is the first entry of the list that passes
/// the test, whatever the limit, and it is an entry of the list.
pub proof fn lemma_first_matching_head<T>(rows: Seq<T>, pass: spec_fn(T) -> bool, limit: nat)
    requires
        limit >= 1,
    ensures
        first_matching(rows, pass, 1).len() <= 1,
        first_matching(rows, pass, limit).len() > 0 <==> first_matching(rows, pass, 1).len() == 1,
        first_matching(rows, pass, limit).len() > 0 ==> first_matching(rows, pass, limit)[0]
            == first_matching(rows, pass, 1)[0] && pass(first_matching(rows, pass, limit)[0])
            && exists|at: int| 0 <= at < rows.len() && rows[at] == first_matching(rows, pass, limit)[0],
    decreases rows.len(),
{
    if rows.len() > 0 {
        if pass(rows[0]) {
            assert(first_matching(rows.drop_first(), pass, 0) =~= Seq::<T>::empty());
            assert(first_matching(rows, pass, 1) =~= seq![rows[0]]);
            assert(first_matching(rows, pass, limit)[0] == rows[0]);
        } else {
            lemma_first_matching_head(rows.drop_first(), pass, limit);
            if first_matching(rows, pass, limit).len() > 0 {
                let at = choose|at: int|
                    0 <= at < rows.drop_first().len() && rows.drop_first()[at] == first_matching(
                        rows.drop_first(),
                        pass,
                        limit,
                    )[0];
                assert(rows[at + 1] == first_matching(rows, pass, limit)[0]);
            }
        }
    }
}

} // verus!
