//! Keeping a list in order.
//!
//! The listings of the engine come out sorted by a key that no two entries
//! share. A list is kept sorted by putting each new entry at its place.

use vstd::prelude::*;

verus! {

/// A key by which entries are listed: a strict order in which two keys
/// that are not the same key are always one before the other.
pub trait Ranked: Sized {
    /// `self` is listed before `other`.
    spec fn precedes(&self, other: &Self) -> bool;

    /// `self` and `other` are the same key.
    spec fn same_rank(&self, other: &Self) -> bool;

    /// Whether `self` is listed before `other`.
    fn is_before(&self, other: &Self) -> (r: bool)
        ensures
            r == self.precedes(other),
    ;

    /// The order is transitive.
    proof fn lemma_transitive(a: &Self, b: &Self, c: &Self)
        requires
            a.precedes(b),
            b.precedes(c),
        ensures
            a.precedes(c),
    ;

    /// Of two keys at most one is before the other, and exactly one is
    /// unless they are the same key.
    proof fn lemma_trichotomy(a: &Self, b: &Self)
        ensures
            !(a.precedes(b) && b.precedes(a)),
            a.precedes(b) || b.precedes(a) || a.same_rank(b),
    ;
}

/// Every entry of `list` is listed before all that follow it.
pub open spec fn in_order<T: Ranked>(list: Seq<T>) -> bool {
    forall|i: int, j: int| 0 <= i < j < list.len() ==> (#[trigger] list[i]).precedes(#[trigger] &list[j])
}

/// Puts `entry` at its place in the sorted `list`, and tells the place.
pub fn insert_in_order<T: Ranked>(list: &mut Vec<T>, entry: T) -> (place: usize)
    requires
        in_order(old(list)@),
        forall|i: int| 0 <= i < old(list)@.len() ==> !(#[trigger] old(list)@[i]).same_rank(&entry),
    ensures
        place <= old(list)@.len(),
        forall|i: int| 0 <= i < place ==> (#[trigger] old(list)@[i]).precedes(&entry),
        forall|i: int| place <= i < old(list)@.len() ==> entry.precedes(#[trigger] &old(list)@[i]),
        final(list)@ == old(list)@.insert(place as int, entry),
        in_order(final(list)@),
{
    let count: usize = list.len();
    let mut place: usize = 0;
    while place < count && list[place].is_before(&entry)
        invariant
            count == list@.len(),
            list@ == old(list)@,
            place <= count,
            forall|i: int| 0 <= i < place ==> (#[trigger] list@[i]).precedes(&entry),
        decreases count - place,
    {
        place += 1;
    }
    proof {
        let before = list@;
        let after = before.insert(place as int, entry);
        assert forall|i: int| place <= i < before.len() implies entry.precedes(
            #[trigger] &before[i],
        ) by {
            T::lemma_trichotomy(&before[place as int], &entry);
            if i > place {
                assert(before[place as int].precedes(&before[i]));
                T::lemma_transitive(&entry, &before[place as int], &before[i]);
            }
        }
        assert forall|i: int, j: int| 0 <= i < j < after.len() implies (#[trigger] after[i]).precedes(
            #[trigger] &after[j],
        ) by {
            if j < place {
                assert(after[i] == before[i] && after[j] == before[j]);
            } else if j == place {
                assert(after[i] == before[i]);
            } else if i == place {
                // the entry goes before what was at its place, and so before all after that
                T::lemma_trichotomy(&before[place as int], &entry);
                assert(entry.precedes(&before[place as int]));
                if j - 1 > place {
                    assert(before[place as int].precedes(&before[j - 1]));
                    T::lemma_transitive(&entry, &before[place as int], &before[j - 1]);
                }
                assert(after[j] == before[j - 1]);
            } else if i < place {
                assert(after[i] == before[i] && after[j] == before[j - 1]);
            } else {
                assert(after[i] == before[i - 1] && after[j] == before[j - 1]);
            }
        }
    }
    list.insert(place, entry);
    place
}

/// Two sorted lists of keys that hold the same keys are the same list.
pub proof fn lemma_one_order<K>(a: Seq<K>, b: Seq<K>, before: spec_fn(K, K) -> bool)
    requires
        forall|x: K, y: K, z: K| #[trigger] before(x, y) && #[trigger] before(y, z) ==> before(x, z),
        forall|x: K| !#[trigger] before(x, x),
        forall|i: int, j: int| 0 <= i < j < a.len() ==> before(#[trigger] a[i], #[trigger] a[j]),
        forall|i: int, j: int| 0 <= i < j < b.len() ==> before(#[trigger] b[i], #[trigger] b[j]),
        forall|x: K| a.contains(x) <==> b.contains(x),
    ensures
        a == b,
    decreases a.len(),
{
    if a.len() == 0 {
        if b.len() > 0 {
            assert(b.contains(b[0]));
        }
        assert(a =~= b);
    } else {
        assert(a.contains(a[0]));
        assert(b.contains(a[0]));
        let j = choose|j: int| 0 <= j < b.len() && b[j] == a[0];
        assert(b.contains(b[0]));
        assert(a.contains(b[0]));
        let i = choose|i: int| 0 <= i < a.len() && a[i] == b[0];
        if j > 0 {
            assert(before(b[0], b[j]));
            if i > 0 {
                assert(before(a[0], a[i]));
            }
        }
        assert(a[0] == b[0]);
        let a_rest = a.drop_first();
        let b_rest = b.drop_first();
        assert forall|x: K| a_rest.contains(x) <==> b_rest.contains(x) by {
            if a_rest.contains(x) {
                let k = choose|k: int| 0 <= k < a_rest.len() && a_rest[k] == x;
                assert(a[k + 1] == x);
                assert(before(a[0], a[k + 1]));
                assert(a.contains(x));
                let m = choose|m: int| 0 <= m < b.len() && b[m] == x;
                assert(m != 0);
                assert(b_rest[m - 1] == x);
            }
            if b_rest.contains(x) {
                let k = choose|k: int| 0 <= k < b_rest.len() && b_rest[k] == x;
                assert(b[k + 1] == x);
                assert(before(b[0], b[k + 1]));
                assert(b.contains(x));
                let m = choose|m: int| 0 <= m < a.len() && a[m] == x;
                assert(m != 0);
                assert(a_rest[m - 1] == x);
            }
        }
        assert forall|p: int, q: int| 0 <= p < q < a_rest.len() implies before(
            #[trigger] a_rest[p],
            #[trigger] a_rest[q],
        ) by {
            assert(before(a[p + 1], a[q + 1]));
        }
        assert forall|p: int, q: int| 0 <= p < q < b_rest.len() implies before(
            #[trigger] b_rest[p],
            #[trigger] b_rest[q],
        ) by {
            assert(before(b[p + 1], b[q + 1]));
        }
        lemma_one_order(a_rest, b_rest, before);
        assert(a =~= seq![a[0]] + a_rest);
        assert(b =~= seq![b[0]] + b_rest);
    }
}

} // verus!
