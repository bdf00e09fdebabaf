//! Facts about filtered sequences.

use vstd::prelude::*;

verus! {

/// The indices of the items of `s` that `keep` accepts, in rising order.
pub open spec fn kept_indices<A>(s: Seq<A>, keep: spec_fn(A) -> bool) -> Seq<int>
    decreases s.len(),
{
    if s.len() == 0 {
        Seq::empty()
    } else if keep(s.last()) {
        kept_indices(s.drop_last(), keep).push(s.len() - 1)
    } else {
        kept_indices(s.drop_last(), keep)
    }
}

/// A filtered sequence holds exactly the accepted items of the sequence, each
/// as it was, in their order: its `k`-th item is the item at the `k`-th of the
/// kept indices, these rise strictly, and every accepted item's index is one
/// of them.
pub proof fn filter_keeps_order<A>(s: Seq<A>, keep: spec_fn(A) -> bool)
    ensures
        kept_indices(s, keep).len() == s.filter(keep).len(),
        forall|k: int|
            0 <= k < s.filter(keep).len() ==> {
                &&& 0 <= (#[trigger] kept_indices(s, keep)[k]) < s.len()
                &&& s.filter(keep)[k] == s[kept_indices(s, keep)[k]]
                &&& keep(s[kept_indices(s, keep)[k]])
            },
        forall|j: int, k: int|
            0 <= j < k < s.filter(keep).len() ==> (#[trigger] kept_indices(s, keep)[j]) < (
            #[trigger] kept_indices(s, keep)[k]),
        forall|i: int|
            0 <= i < s.len() && keep(#[trigger] s[i]) ==> kept_indices(s, keep).contains(i),
    decreases s.len(),
{
    reveal(Seq::filter);
    if s.len() > 0 {
        let front = s.drop_last();
        let at = kept_indices(s, keep);
        let front_at = kept_indices(front, keep);
        filter_keeps_order(front, keep);
        assert forall|k: int| 0 <= k < s.filter(keep).len() implies {
            &&& 0 <= (#[trigger] at[k]) < s.len()
            &&& s.filter(keep)[k] == s[at[k]]
            &&& keep(s[at[k]])
        } by {
            if k < front_at.len() {
                assert(at[k] == front_at[k]);
                assert(front[front_at[k]] == s[front_at[k]]);
            }
        }
        assert forall|j: int, k: int| 0 <= j < k < s.filter(keep).len() implies (#[trigger] at[j])
            < (#[trigger] at[k]) by {
            assert(at[j] == front_at[j]);
            if k < front_at.len() {
                assert(at[k] == front_at[k]);
            }
        }
        assert forall|i: int| 0 <= i < s.len() && keep(#[trigger] s[i]) implies at.contains(i) by {
            if i < front.len() {
                assert(front[i] == s[i]);
                let k = choose|k: int| 0 <= k < front_at.len() && front_at[k] == i;
                assert(at[k] == i);
            } else {
                assert(at[at.len() - 1] == i);
            }
        }
    }
}

/// Filtering keeps a sequence as it is where every item is accepted.
pub proof fn filter_of_all<A>(s: Seq<A>, keep: spec_fn(A) -> bool)
    requires
        forall|i: int| 0 <= i < s.len() ==> keep(#[trigger] s[i]),
    ensures
        s.filter(keep) == s,
    decreases s.len(),
{
    reveal(Seq::filter);
    if s.len() > 0 {
        let front = s.drop_last();
        assert forall|i: int| 0 <= i < front.len() implies keep(#[trigger] front[i]) by {
            assert(front[i] == s[i]);
        }
        filter_of_all(front, keep);
        assert(front.push(s.last()) =~= s);
    }
}

/// Filtering leaves nothing where no item is accepted.
pub proof fn filter_of_none<A>(s: Seq<A>, keep: spec_fn(A) -> bool)
    requires
        forall|i: int| 0 <= i < s.len() ==> !keep(#[trigger] s[i]),
    ensures
        s.filter(keep) == Seq::<A>::empty(),
    decreases s.len(),
{
    reveal(Seq::filter);
    if s.len() > 0 {
        let front = s.drop_last();
        assert forall|i: int| 0 <= i < front.len() implies !keep(#[trigger] front[i]) by {
            assert(front[i] == s[i]);
        }
        filter_of_none(front, keep);
    }
}

/// Filtering a second time by the same test changes nothing.
pub proof fn filter_twice<A>(s: Seq<A>, keep: spec_fn(A) -> bool)
    ensures
        s.filter(keep).filter(keep) == s.filter(keep),
{
    filter_keeps_order(s, keep);
    let once = s.filter(keep);
    assert forall|k: int| 0 <= k < once.len() implies keep(#[trigger] once[k]) by {
        assert(once[k] == s[kept_indices(s, keep)[k]]);
    }
    filter_of_all(once, keep);
}

/// Filtering brings in no item and no duplicate.
pub proof fn filter_brings_nothing_in<A>(s: Seq<A>, keep: spec_fn(A) -> bool)
    ensures
        forall|x: A| #[trigger] s.filter(keep).contains(x) ==> s.contains(x) && keep(x),
        forall|x: A| s.contains(x) && keep(x) ==> #[trigger] s.filter(keep).contains(x),
        s.no_duplicates() ==> s.filter(keep).no_duplicates(),
{
    filter_keeps_order(s, keep);
    let kept = s.filter(keep);
    let at = kept_indices(s, keep);
    assert forall|x: A| #[trigger] kept.contains(x) implies s.contains(x) && keep(x) by {
        let k = choose|k: int| 0 <= k < kept.len() && kept[k] == x;
        assert(s[at[k]] == x);
    }
    assert forall|x: A| s.contains(x) && keep(x) implies #[trigger] kept.contains(x) by {
        let i = choose|i: int| 0 <= i < s.len() && s[i] == x;
        assert(keep(s[i]));
        let k = choose|k: int| 0 <= k < at.len() && at[k] == i;
        assert(kept[k] == x);
    }
    if s.no_duplicates() {
        assert forall|j: int, k: int| 0 <= j < kept.len() && 0 <= k < kept.len() && j
            != k implies kept[j] != kept[k] by {
            assert(kept[j] == s[at[j]] && kept[k] == s[at[k]]);
            if j < k {
                assert(at[j] < at[k]);
            } else {
                assert(at[k] < at[j]);
            }
        }
    }
}

} // verus!
