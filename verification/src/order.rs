//! Deterministic orders: lexicographic order on integer keys and duplicate-free sorted insertion.
//!
//! Every ordered collection of the library is ordered by an integer key of its items. A key is
//! written so that its lexicographic order is the intended order of the items: texts become
//! their characters followed by a terminator below every character, optional values a `0`/`1`
//! tag, and sequences each element behind a `1` followed by a closing `0`.

use vstd::prelude::*;

use crate::once::{views, SameValue};

verus! {

/// Strict lexicographic order on integer sequences; a proper prefix precedes its extensions.
pub open spec fn lex_lt(a: Seq<i64>, b: Seq<i64>) -> bool
    decreases a.len(),
{
    if b.len() == 0 {
        false
    } else if a.len() == 0 {
        true
    } else if a[0] != b[0] {
        a[0] < b[0]
    } else {
        lex_lt(a.drop_first(), b.drop_first())
    }
}

pub proof fn lemma_lex_irreflexive(a: Seq<i64>)
    ensures
        !lex_lt(a, a),
    decreases a.len(),
{
    if a.len() > 0 {
        lemma_lex_irreflexive(a.drop_first());
    }
}

pub proof fn lemma_lex_transitive(a: Seq<i64>, b: Seq<i64>, c: Seq<i64>)
    requires
        lex_lt(a, b),
        lex_lt(b, c),
    ensures
        lex_lt(a, c),
    decreases a.len(),
{
    if a.len() > 0 && b.len() > 0 && c.len() > 0 && a[0] == b[0] && b[0] == c[0] {
        lemma_lex_transitive(a.drop_first(), b.drop_first(), c.drop_first());
    }
}

pub proof fn lemma_lex_total(a: Seq<i64>, b: Seq<i64>)
    ensures
        a == b || lex_lt(a, b) || lex_lt(b, a),
    decreases a.len(),
{
    if a.len() > 0 && b.len() > 0 && a[0] == b[0] {
        lemma_lex_total(a.drop_first(), b.drop_first());
        if a.drop_first() == b.drop_first() {
            assert(a =~= seq![a[0]] + a.drop_first());
            assert(b =~= seq![b[0]] + b.drop_first());
        }
    } else if a.len() == 0 && b.len() == 0 {
        assert(a =~= b);
    }
}

pub proof fn lemma_lex_asymmetric(a: Seq<i64>, b: Seq<i64>)
    requires
        lex_lt(a, b),
    ensures
        !lex_lt(b, a),
{
    if lex_lt(b, a) {
        lemma_lex_transitive(a, b, a);
        lemma_lex_irreflexive(a);
    }
}

/// Whether `a` precedes `b` lexicographically.
pub fn lex_less(a: &Vec<i64>, b: &Vec<i64>) -> (r: bool)
    ensures
        r == lex_lt(a@, b@),
{
    let mut i: usize = 0;
    assert(a@.skip(0) =~= a@);
    assert(b@.skip(0) =~= b@);
    while i < a.len() && i < b.len()
        invariant
            i <= a.len(),
            i <= b.len(),
            lex_lt(a@, b@) == lex_lt(a@.skip(i as int), b@.skip(i as int)),
        decreases a.len() - i,
    {
        if a[i] != b[i] {
            return a[i] < b[i];
        }
        assert(a@.skip(i as int).drop_first() =~= a@.skip(i + 1));
        assert(b@.skip(i as int).drop_first() =~= b@.skip(i + 1));
        i = i + 1;
    }
    i < b.len()
}

/// Items ordered by an integer key.
pub trait Keyed: SameValue {
    /// The key of an item's content.
    spec fn key_of(v: Self::V) -> Seq<i64>;

    /// Computes the key of this item.
    fn key(&self) -> (r: Vec<i64>)
        ensures
            r@ == Self::key_of(self@),
    ;
}

/// The items' keys never decrease along the sequence.
pub open spec fn keys_sorted<T: Keyed>(s: Seq<T::V>) -> bool {
    forall|i: int, j: int| 0 <= i < j < s.len() ==> !lex_lt(T::key_of(#[trigger] s[j]), T::key_of(#[trigger] s[i]))
}

/// No content occurs twice.
pub open spec fn distinct<V>(s: Seq<V>) -> bool {
    forall|i: int, j: int| 0 <= i < j < s.len() ==> s[i] != s[j]
}

/// Inserts `item` into a sorted duplicate-free vector at the position its key gives it, unless
/// an item with the same content is already present.
pub fn sorted_insert<T: Keyed>(out: &mut Vec<T>, item: T)
    requires
        keys_sorted::<T>(views(old(out)@)),
        distinct(views(old(out)@)),
    ensures
        keys_sorted::<T>(views(final(out)@)),
        distinct(views(final(out)@)),
        forall|x: T::V| views(final(out)@).contains(x) <==> (views(old(out)@).contains(x) || x == item@),
        views(old(out)@).contains(item@) ==> views(final(out)@) == views(old(out)@),
{
    let ghost before = views(out@);
    let mut i: usize = 0;
    while i < out.len()
        invariant
            i <= out.len(),
            views(out@) == before,
            before == views(old(out)@),
            keys_sorted::<T>(before),
            distinct(before),
            forall|j: int| 0 <= j < i ==> out@[j]@ != item@,
        decreases out.len() - i,
    {
        if out[i].same_value(&item) {
            assert(views(out@)[i as int] == item@);
            return;
        }
        i = i + 1;
    }
    assert forall|j: int| 0 <= j < before.len() implies before[j] != item@ by {
        assert(before[j] == out@[j]@);
    }
    let key = item.key();
    let mut p: usize = 0;
    while p < out.len()
        invariant
            p <= out.len(),
            views(out@) == before,
            key@ == T::key_of(item@),
            forall|j: int| 0 <= j < p ==> !lex_lt(key@, T::key_of(#[trigger] before[j])),
        ensures
            p <= out.len(),
            views(out@) == before,
            forall|j: int| 0 <= j < p ==> !lex_lt(key@, T::key_of(#[trigger] before[j])),
            p < out.len() ==> lex_lt(key@, T::key_of(before[p as int])),
        decreases out.len() - p,
    {
        let other = out[p].key();
        assert(before[p as int] == out@[p as int]@);
        if lex_less(&key, &other) {
            break;
        }
        p = p + 1;
    }
    let ghost at = p;
    out.insert(p, item);
    let ghost after = views(out@);
    assert(after =~= before.insert(at as int, item@));
    proof {
        if (at as int) < before.len() {
            assert(lex_lt(T::key_of(item@), T::key_of(before[at as int])));
        }
        assert forall|i: int, j: int| 0 <= i < j < after.len() implies !lex_lt(
            T::key_of(#[trigger] after[j]),
            T::key_of(#[trigger] after[i]),
        ) by {
            if j < at {
            } else if j == at {
                assert(after[j] == item@);
                assert(after[i] == before[i]);
            } else if i == at {
                assert(after[i] == item@);
                assert(after[j] == before[j - 1]);
                let kp = T::key_of(before[at as int]);
                let kj = T::key_of(before[j - 1]);
                let ki = T::key_of(item@);
                if j - 1 > at {
                    assert(!lex_lt(kj, kp));
                    lemma_lex_total(kj, kp);
                }
                if lex_lt(kj, ki) {
                    if kj == kp {
                        lemma_lex_asymmetric(ki, kp);
                    } else {
                        lemma_lex_transitive(kp, kj, ki);
                        lemma_lex_asymmetric(ki, kp);
                    }
                }
            } else if i < at {
                assert(after[i] == before[i]);
                assert(after[j] == before[j - 1]);
            } else {
                assert(after[i] == before[i - 1]);
                assert(after[j] == before[j - 1]);
            }
        }
        assert forall|i: int, j: int| 0 <= i < j < after.len() implies after[i] != after[j] by {
            if i < at && j < at {
            } else if j == at {
                assert(after[i] == before[i]);
            } else if i == at {
                assert(after[j] == before[j - 1]);
            } else if i < at {
                assert(after[i] == before[i]);
                assert(after[j] == before[j - 1]);
            } else {
                assert(after[i] == before[i - 1]);
                assert(after[j] == before[j - 1]);
            }
        }
        assert forall|x: T::V| after.contains(x) <==> (before.contains(x) || x == item@) by {
            if after.contains(x) {
                let k = choose|k: int| 0 <= k < after.len() && after[k] == x;
                if k < at {
                    assert(before[k] == x);
                } else if k > at {
                    assert(before[k - 1] == x);
                }
            }
            if before.contains(x) {
                let k = choose|k: int| 0 <= k < before.len() && before[k] == x;
                if k < at {
                    assert(after[k] == x);
                } else {
                    assert(after[k + 1] == x);
                }
            }
            if x == item@ {
                assert(after[at as int] == x);
            }
        }
    }
}

/// Inserts `item` into a sorted vector after every item whose key is not greater, keeping items
/// with the same content.
pub fn insert_keeping<T: Keyed>(out: &mut Vec<T>, item: T)
    requires
        keys_sorted::<T>(views(old(out)@)),
    ensures
        keys_sorted::<T>(views(final(out)@)),
        final(out)@.len() == old(out)@.len() + 1,
        forall|x: T::V| views(final(out)@).contains(x) <==> (views(old(out)@).contains(x) || x == item@),
{
    let ghost before = views(out@);
    let key = item.key();
    let mut p: usize = 0;
    while p < out.len()
        invariant
            p <= out.len(),
            views(out@) == before,
            key@ == T::key_of(item@),
            forall|j: int| 0 <= j < p ==> !lex_lt(key@, T::key_of(#[trigger] before[j])),
        ensures
            p <= out.len(),
            views(out@) == before,
            forall|j: int| 0 <= j < p ==> !lex_lt(key@, T::key_of(#[trigger] before[j])),
            p < out.len() ==> lex_lt(key@, T::key_of(before[p as int])),
        decreases out.len() - p,
    {
        let other = out[p].key();
        assert(before[p as int] == out@[p as int]@);
        if lex_less(&key, &other) {
            break;
        }
        p = p + 1;
    }
    let ghost at = p;
    out.insert(p, item);
    let ghost after = views(out@);
    assert(after =~= before.insert(at as int, item@));
    proof {
        if (at as int) < before.len() {
            assert(lex_lt(T::key_of(item@), T::key_of(before[at as int])));
        }
        assert forall|i: int, j: int| 0 <= i < j < after.len() implies !lex_lt(
            T::key_of(#[trigger] after[j]),
            T::key_of(#[trigger] after[i]),
        ) by {
            if j < at {
            } else if j == at {
                assert(after[j] == item@);
                assert(after[i] == before[i]);
            } else if i == at {
                assert(after[i] == item@);
                assert(after[j] == before[j - 1]);
                let kp = T::key_of(before[at as int]);
                let kj = T::key_of(before[j - 1]);
                let ki = T::key_of(item@);
                if j - 1 > at {
                    assert(!lex_lt(kj, kp));
                    lemma_lex_total(kj, kp);
                }
                if lex_lt(kj, ki) {
                    if kj == kp {
                        lemma_lex_asymmetric(ki, kp);
                    } else {
                        lemma_lex_transitive(kp, kj, ki);
                        lemma_lex_asymmetric(ki, kp);
                    }
                }
            } else if i < at {
                assert(after[i] == before[i]);
                assert(after[j] == before[j - 1]);
            } else {
                assert(after[i] == before[i - 1]);
                assert(after[j] == before[j - 1]);
            }
        }
        assert forall|x: T::V| after.contains(x) <==> (before.contains(x) || x == item@) by {
            if after.contains(x) {
                let k = choose|k: int| 0 <= k < after.len() && after[k] == x;
                if k < at {
                    assert(before[k] == x);
                } else if k > at {
                    assert(before[k - 1] == x);
                }
            }
            if before.contains(x) {
                let k = choose|k: int| 0 <= k < before.len() && before[k] == x;
                if k < at {
                    assert(after[k] == x);
                } else {
                    assert(after[k + 1] == x);
                }
            }
            if x == item@ {
                assert(after[at as int] == x);
            }
        }
    }
}

/// Sorts items by key, keeping every item: the result holds the same contents.
pub fn sort_keeping<T: Keyed>(items: Vec<T>) -> (r: Vec<T>)
    ensures
        keys_sorted::<T>(views(r@)),
        r@.len() == items@.len(),
        forall|x: T::V| views(r@).contains(x) <==> views(items@).contains(x),
{
    let mut out: Vec<T> = Vec::new();
    let ghost all = views(items@);
    let mut rest = items;
    proof {
        assert(views(out@) =~= Seq::<T::V>::empty());
    }
    let ghost n = rest.len();
    while rest.len() > 0
        invariant
            keys_sorted::<T>(views(out@)),
            rest.len() <= n,
            n == all.len(),
            out@.len() + rest@.len() == n,
            views(rest@) == all.take(rest.len() as int),
            forall|x: T::V|
                views(out@).contains(x) <==> exists|k: int| rest.len() <= k < n && #[trigger] all[k] == x,
        decreases rest.len(),
    {
        let ghost before_rest = views(rest@);
        let item = rest.pop().unwrap();
        let ghost m = rest.len();
        assert(views(rest@) =~= all.take(m as int)) by {
            assert(views(rest@) =~= before_rest.drop_last());
        }
        assert(item@ == all[m as int]) by {
            assert(before_rest[m as int] == item@);
        }
        let ghost old_out = views(out@);
        insert_keeping(&mut out, item);
        assert forall|x: T::V| views(out@).contains(x) <==> exists|k: int| m <= k < n && #[trigger] all[k] == x by {
            if views(out@).contains(x) {
                if x == all[m as int] {
                } else {
                    assert(old_out.contains(x));
                }
            }
            if exists|k: int| m <= k < n && #[trigger] all[k] == x {
                let k = choose|k: int| m <= k < n && #[trigger] all[k] == x;
                if k > m {
                    assert(old_out.contains(x));
                }
            }
        }
    }
    assert forall|x: T::V| views(out@).contains(x) <==> all.contains(x) by {
        if all.contains(x) {
            let k = choose|k: int| 0 <= k < all.len() && all[k] == x;
            assert(0 <= k < n && all[k] == x);
        }
    }
    out
}

/// Sorts items by key, dropping items whose content repeats an earlier one.
pub fn sort_distinct<T: Keyed>(items: Vec<T>) -> (r: Vec<T>)
    ensures
        keys_sorted::<T>(views(r@)),
        distinct(views(r@)),
        forall|x: T::V| views(r@).contains(x) <==> views(items@).contains(x),
{
    let mut out: Vec<T> = Vec::new();
    let ghost all = views(items@);
    let mut rest = items;
    let mut taken: Vec<T> = Vec::new();
    proof {
        assert(views(out@) =~= Seq::<T::V>::empty());
    }
    // Items are consumed from the back; `rest` followed by the consumed items in reverse is the
    // original sequence.
    let ghost n = rest.len();
    while rest.len() > 0
        invariant
            keys_sorted::<T>(views(out@)),
            distinct(views(out@)),
            rest.len() <= n,
            n == all.len(),
            views(rest@) == all.take(rest.len() as int),
            forall|x: T::V|
                views(out@).contains(x) <==> exists|k: int| rest.len() <= k < n && #[trigger] all[k] == x,
        decreases rest.len(),
    {
        let ghost before_rest = views(rest@);
        let item = rest.pop().unwrap();
        let ghost m = rest.len();
        assert(views(rest@) =~= all.take(m as int)) by {
            assert(views(rest@) =~= before_rest.drop_last());
        }
        assert(item@ == all[m as int]) by {
            assert(before_rest[m as int] == item@);
        }
        let ghost old_out = views(out@);
        sorted_insert(&mut out, item);
        assert forall|x: T::V| views(out@).contains(x) <==> exists|k: int| m <= k < n && #[trigger] all[k] == x by {
            if views(out@).contains(x) {
                if x == all[m as int] {
                } else {
                    assert(old_out.contains(x));
                }
            }
            if exists|k: int| m <= k < n && #[trigger] all[k] == x {
                let k = choose|k: int| m <= k < n && #[trigger] all[k] == x;
                if k > m {
                    assert(old_out.contains(x));
                }
            }
        }
    }
    assert forall|x: T::V| views(out@).contains(x) <==> all.contains(x) by {
        if all.contains(x) {
            let k = choose|k: int| 0 <= k < all.len() && all[k] == x;
            assert(0 <= k < n && all[k] == x);
        }
    }
    out
}

} // verus!
