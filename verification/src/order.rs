//! Stable ordering of a list by a key, as a list of places.

use vstd::prelude::*;
use crate::text::chars_of;

verus! {

/// A key with a strict order in which any two keys either stand apart or tie.
pub trait Ranked {
    /// `self` stands strictly before `other`.
    spec fn below(&self, other: &Self) -> bool;

    fn is_below(&self, other: &Self) -> (r: bool)
        ensures
            r == self.below(other),
    ;

    /// Nothing stands before itself or before what stands before it.
    proof fn below_is_asymmetric(a: &Self, b: &Self)
        ensures
            !(a.below(b) && b.below(a)),
    ;

    /// What stands before `b` stands before everything that `b` does not
    /// stand behind.
    proof fn below_carries(a: &Self, b: &Self, c: &Self)
        requires
            a.below(b),
            !c.below(b),
        ensures
            a.below(c),
    ;
}

impl Ranked for i128 {
    open spec fn below(&self, other: &Self) -> bool {
        *self < *other
    }

    fn is_below(&self, other: &Self) -> (r: bool) {
        *self < *other
    }

    proof fn below_is_asymmetric(a: &Self, b: &Self) {
    }

    proof fn below_carries(a: &Self, b: &Self, c: &Self) {
    }
}

/// The order of texts by their characters, the shorter of two first where
/// one begins the other.
pub open spec fn text_below(a: Seq<char>, b: Seq<char>) -> bool
    decreases a.len(),
{
    if b.len() == 0 {
        false
    } else if a.len() == 0 {
        true
    } else if a[0] != b[0] {
        a[0] < b[0]
    } else {
        text_below(a.drop_first(), b.drop_first())
    }
}

proof fn lemma_text_asymmetric(a: Seq<char>, b: Seq<char>)
    ensures
        !(text_below(a, b) && text_below(b, a)),
    decreases a.len(),
{
    if a.len() > 0 && b.len() > 0 && a[0] == b[0] {
        lemma_text_asymmetric(a.drop_first(), b.drop_first());
    }
}

proof fn lemma_text_carries(a: Seq<char>, b: Seq<char>, c: Seq<char>)
    requires
        text_below(a, b),
        !text_below(c, b),
    ensures
        text_below(a, c),
    decreases a.len(),
{
    assert(b.len() > 0);
    assert(c.len() > 0);
    if a.len() > 0 {
        if a[0] == b[0] && b[0] == c[0] {
            lemma_text_carries(a.drop_first(), b.drop_first(), c.drop_first());
        } else if a[0] == b[0] {
            assert(b[0] < c[0]);
        } else if b[0] == c[0] {
            assert(a[0] < b[0]);
        } else {
            assert(a[0] < b[0]);
            assert(b[0] < c[0]);
        }
    }
}

/// Whether the rest of `a` from `i` on stands before the rest of `b` from `i` on.
fn text_is_below(a: &Vec<char>, b: &Vec<char>) -> (r: bool)
    ensures
        r == text_below(a@, b@),
{
    let mut i: usize = 0;
    assert(a@.skip(0) =~= a@);
    assert(b@.skip(0) =~= b@);
    while i < a.len() && i < b.len()
        invariant
            i <= a.len(),
            i <= b.len(),
            text_below(a@, b@) == text_below(a@.skip(i as int), b@.skip(i as int)),
        decreases a.len() - i,
    {
        assert(a@.skip(i as int).drop_first() =~= a@.skip(i + 1));
        assert(b@.skip(i as int).drop_first() =~= b@.skip(i + 1));
        assert(a@.skip(i as int)[0] == a@[i as int]);
        assert(b@.skip(i as int)[0] == b@[i as int]);
        if a[i] != b[i] {
            return a[i] < b[i];
        }
        i += 1;
    }
    i < b.len()
}

impl Ranked for String {
    open spec fn below(&self, other: &Self) -> bool {
        text_below(self@, other@)
    }

    fn is_below(&self, other: &Self) -> (r: bool) {
        let a = chars_of(self.as_str());
        let b = chars_of(other.as_str());
        text_is_below(&a, &b)
    }

    proof fn below_is_asymmetric(a: &Self, b: &Self) {
        lemma_text_asymmetric(a@, b@);
    }

    proof fn below_carries(a: &Self, b: &Self, c: &Self) {
        lemma_text_carries(a@, b@, c@);
    }
}

/// `a` comes first: towards the front in the chosen direction.
pub open spec fn first_of<K: Ranked>(a: K, b: K, descending: bool) -> bool {
    if descending {
        b.below(&a)
    } else {
        a.below(&b)
    }
}

fn comes_first<K: Ranked>(a: &K, b: &K, descending: bool) -> (r: bool)
    ensures
        r == first_of(*a, *b, descending),
{
    if descending {
        b.is_below(a)
    } else {
        a.is_below(b)
    }
}

/// The key at place `a` comes before the key at place `b`: it comes first,
/// or the two tie and `a` is the earlier place.
pub open spec fn precedes<K: Ranked>(keys: Seq<K>, a: int, b: int, descending: bool) -> bool {
    first_of(keys[a], keys[b], descending) || (!first_of(keys[b], keys[a], descending) && a < b)
}

/// `order` lists every place of `keys` once, each before all that it precedes.
pub open spec fn sorts<K: Ranked>(keys: Seq<K>, order: Seq<usize>, descending: bool) -> bool {
    &&& order.len() == keys.len()
    &&& forall|i: int| 0 <= i < order.len() ==> (#[trigger] order[i]) < keys.len()
    &&& forall|i: int, j: int|
        0 <= i < j < order.len() ==> precedes(keys, #[trigger] order[i] as int, #[trigger] order[j] as int, descending)
    &&& forall|k: int| 0 <= k < keys.len() ==> order.contains(#[trigger] (k as usize))
}

/// The places of `keys` in ascending order (descending where asked), ties
/// in the order of the places.
pub fn sorted_places<K: Ranked>(keys: &Vec<K>, descending: bool) -> (order: Vec<usize>)
    ensures
        sorts(keys@, order@, descending),
        order@ == sort_order(keys@, descending),
{
    let mut order: Vec<usize> = Vec::new();
    let mut k: usize = 0;
    while k < keys.len()
        invariant
            k <= keys.len(),
            order.len() == k,
            forall|i: int| 0 <= i < order.len() ==> (#[trigger] order[i]) < k,
            forall|i: int, j: int|
                0 <= i < j < order.len() ==> precedes(
                    keys@,
                    #[trigger] order[i] as int,
                    #[trigger] order[j] as int,
                    descending,
                ),
            forall|m: int| 0 <= m < k ==> order@.contains(#[trigger] (m as usize)),
        decreases keys.len() - k,
    {
        let mut p: usize = 0;
        while p < order.len() && !comes_first(&keys[k], &keys[order[p]], descending)
            invariant
                p <= order.len(),
                k < keys.len(),
                forall|i: int| 0 <= i < order.len() ==> (#[trigger] order[i]) < k,
                forall|i: int| 0 <= i < p ==> !first_of(keys@[k as int], keys@[#[trigger] order[i] as int], descending),
            decreases order.len() - p,
        {
            p += 1;
        }
        let ghost before = order@;
        proof {
            assert forall|j: int| p <= j < before.len() implies first_of(
                keys@[k as int],
                keys@[#[trigger] before[j] as int],
                descending,
            ) by {
                let head = before[p as int] as int;
                let here = before[j] as int;
                if j > p {
                    assert(precedes(keys@, head, here, descending));
                    if descending {
                        K::below_is_asymmetric(&keys@[here], &keys@[head]);
                        K::below_is_asymmetric(&keys@[head], &keys@[k as int]);
                        if keys@[here].below(&keys@[head]) {
                            K::below_carries(&keys@[here], &keys@[head], &keys@[k as int]);
                        }
                        if !keys@[here].below(&keys@[k as int]) {
                            // then the key at `k` would not be behind `head`
                            K::below_carries(&keys@[head], &keys@[k as int], &keys@[here]);
                        }
                    } else {
                        K::below_is_asymmetric(&keys@[head], &keys@[here]);
                        K::below_carries(&keys@[k as int], &keys@[head], &keys@[here]);
                    }
                }
            }
        }
        order.insert(p, k);
        proof {
            assert forall|i: int, j: int| 0 <= i < j < order.len() implies precedes(
                keys@,
                #[trigger] order[i] as int,
                #[trigger] order[j] as int,
                descending,
            ) by {
                if i == p {
                    assert(order[j] == before[j - 1]);
                } else if j == p {
                    assert(order[i] == before[i]);
                } else {
                    let a = if i < p { i } else { i - 1 };
                    let b = if j < p { j } else { j - 1 };
                    assert(order[i] == before[a]);
                    assert(order[j] == before[b]);
                }
            }
            assert forall|m: int| 0 <= m < k + 1 implies order@.contains(#[trigger] (m as usize)) by {
                if m == k {
                    assert(order@[p as int] == k);
                } else {
                    let at = choose|i: int| 0 <= i < before.len() && before[i] == (m as usize);
                    let now = if at < p { at } else { at + 1 };
                    assert(order@[now] == (m as usize));
                }
            }
            assert forall|i: int| 0 <= i < order.len() implies (#[trigger] order[i]) < k + 1 by {
                if i != p {
                    let a = if i < p { i } else { i - 1 };
                    assert(order[i] == before[a]);
                }
            }
        }
        k += 1;
    }
    proof {
        lemma_sorts_unique(keys@, order@, sort_order(keys@, descending), descending);
    }
    order
}

/// In an order that sorts, no place stands before itself.
proof fn lemma_precedes_irreflexive<K: Ranked>(keys: Seq<K>, a: int, descending: bool)
    ensures
        !precedes(keys, a, a, descending),
{
    K::below_is_asymmetric(&keys[a], &keys[a]);
}

/// Of two different places exactly one precedes the other.
proof fn lemma_precedes_asymmetric<K: Ranked>(keys: Seq<K>, a: int, b: int, descending: bool)
    ensures
        !(precedes(keys, a, b, descending) && precedes(keys, b, a, descending)),
{
    K::below_is_asymmetric(&keys[a], &keys[b]);
    K::below_is_asymmetric(&keys[b], &keys[a]);
}

/// There is only one order that sorts.
pub proof fn lemma_sorts_unique<K: Ranked>(keys: Seq<K>, first: Seq<usize>, second: Seq<usize>, descending: bool)
    requires
        sorts(keys, first, descending),
        sorts(keys, second, descending),
    ensures
        first == second,
{
    assert forall|i: int| 0 <= i < first.len() implies first[i] == second[i] by {
        lemma_sorted_prefix(keys, first, second, descending, i);
    }
    assert(first =~= second);
}

proof fn lemma_sorted_prefix<K: Ranked>(
    keys: Seq<K>,
    first: Seq<usize>,
    second: Seq<usize>,
    descending: bool,
    i: int,
)
    requires
        sorts(keys, first, descending),
        sorts(keys, second, descending),
        0 <= i < first.len(),
    ensures
        first[i] == second[i],
    decreases i,
{
    let a = first[i];
    let b = second[i];
    if a != b {
        assert(second.contains(a as int as usize));
        let j = choose|j: int| 0 <= j < second.len() && second[j] == a;
        assert(first.contains(b as int as usize));
        let k = choose|k: int| 0 <= k < first.len() && first[k] == b;
        if j < i {
            lemma_sorted_prefix(keys, first, second, descending, j);
            assert(precedes(keys, first[j] as int, first[i] as int, descending));
            lemma_precedes_irreflexive(keys, a as int, descending);
        }
        if k < i {
            lemma_sorted_prefix(keys, first, second, descending, k);
            assert(precedes(keys, second[k] as int, second[i] as int, descending));
            lemma_precedes_irreflexive(keys, b as int, descending);
        }
        assert(j > i);
        assert(k > i);
        assert(precedes(keys, second[i] as int, second[j] as int, descending));
        assert(precedes(keys, first[i] as int, first[k] as int, descending));
        lemma_precedes_asymmetric(keys, a as int, b as int, descending);
    }
}

/// The order that sorts `keys`: every place once, the smaller key first
/// (the greater where `descending`), ties in the order of the places.
pub open spec fn sort_order<K: Ranked>(keys: Seq<K>, descending: bool) -> Seq<usize> {
    choose|order: Seq<usize>| sorts(keys, order, descending)
}

/// Where the key at place `k` goes among `order`, looking from `p` on:
/// before the first place whose key it comes first of.
spec fn slot<K: Ranked>(keys: Seq<K>, order: Seq<usize>, k: int, descending: bool, p: int) -> int
    decreases order.len() - p,
{
    if 0 <= p < order.len() && !first_of(keys[k], keys[order[p] as int], descending) {
        slot(keys, order, k, descending, p + 1)
    } else {
        p
    }
}

/// The first `n` places of `keys` in their order, each put in after the
/// ones before it.
spec fn insertion_order<K: Ranked>(keys: Seq<K>, descending: bool, n: int) -> Seq<usize>
    decreases n,
{
    if n <= 0 {
        Seq::empty()
    } else {
        let before = insertion_order(keys, descending, n - 1);
        before.insert(slot(keys, before, n - 1, descending, 0), (n - 1) as usize)
    }
}

proof fn lemma_slot<K: Ranked>(keys: Seq<K>, order: Seq<usize>, k: int, descending: bool, p: int)
    requires
        0 <= p <= order.len(),
    ensures
        p <= slot(keys, order, k, descending, p) <= order.len(),
        forall|i: int|
            p <= i < slot(keys, order, k, descending, p) ==> !first_of(
                keys[k],
                keys[#[trigger] order[i] as int],
                descending,
            ),
        slot(keys, order, k, descending, p) < order.len() ==> first_of(
            keys[k],
            keys[order[slot(keys, order, k, descending, p)] as int],
            descending,
        ),
    decreases order.len() - p,
{
    if p < order.len() && !first_of(keys[k], keys[order[p] as int], descending) {
        lemma_slot(keys, order, k, descending, p + 1);
    }
}

proof fn lemma_insertion_sorts<K: Ranked>(keys: Seq<K>, descending: bool, n: int)
    requires
        0 <= n <= keys.len() <= usize::MAX,
    ensures
        insertion_order(keys, descending, n).len() == n,
        forall|i: int| 0 <= i < n ==> (#[trigger] insertion_order(keys, descending, n)[i]) < n,
        forall|i: int, j: int|
            0 <= i < j < n ==> precedes(
                keys,
                #[trigger] insertion_order(keys, descending, n)[i] as int,
                #[trigger] insertion_order(keys, descending, n)[j] as int,
                descending,
            ),
        forall|m: int| 0 <= m < n ==> insertion_order(keys, descending, n).contains(#[trigger] (m as usize)),
    decreases n,
{
    if n > 0 {
        lemma_insertion_sorts(keys, descending, n - 1);
        let k = n - 1;
        let before = insertion_order(keys, descending, n - 1);
        let p = slot(keys, before, k, descending, 0);
        lemma_slot(keys, before, k, descending, 0);
        let order = before.insert(p, k as usize);
        assert(order == insertion_order(keys, descending, n));
        assert forall|j: int| p <= j < before.len() implies first_of(
            keys[k],
            keys[#[trigger] before[j] as int],
            descending,
        ) by {
            let head = before[p] as int;
            let here = before[j] as int;
            if j > p {
                assert(precedes(keys, head, here, descending));
                if descending {
                    K::below_is_asymmetric(&keys[here], &keys[head]);
                    K::below_is_asymmetric(&keys[head], &keys[k]);
                    if keys[here].below(&keys[head]) {
                        K::below_carries(&keys[here], &keys[head], &keys[k]);
                    }
                    if !keys[here].below(&keys[k]) {
                        K::below_carries(&keys[head], &keys[k], &keys[here]);
                    }
                } else {
                    K::below_is_asymmetric(&keys[head], &keys[here]);
                    K::below_carries(&keys[k], &keys[head], &keys[here]);
                }
            }
        }
        assert forall|i: int| 0 <= i < n implies (#[trigger] order[i]) < n by {
            if i != p {
                let a = if i < p { i } else { i - 1 };
                assert(order[i] == before[a]);
            }
        }
        assert forall|i: int, j: int| 0 <= i < j < n implies precedes(
            keys,
            #[trigger] order[i] as int,
            #[trigger] order[j] as int,
            descending,
        ) by {
            if i == p {
                assert(order[j] == before[j - 1]);
            } else if j == p {
                assert(order[i] == before[i]);
            } else {
                let a = if i < p { i } else { i - 1 };
                let b = if j < p { j } else { j - 1 };
                assert(order[i] == before[a]);
                assert(order[j] == before[b]);
            }
        }
        assert forall|m: int| 0 <= m < n implies order.contains(#[trigger] (m as usize)) by {
            if m == k {
                assert(order[p] == k);
            } else {
                let at = choose|i: int| 0 <= i < before.len() && before[i] == (m as usize);
                let now = if at < p { at } else { at + 1 };
                assert(order[now] == (m as usize));
            }
        }
    }
}

/// Every list of keys that fits in memory has its order: `sort_order`
/// sorts, lists every place once and no place twice.
pub proof fn lemma_sort_order<K: Ranked>(keys: Seq<K>, descending: bool)
    requires
        keys.len() <= usize::MAX,
    ensures
        sorts(keys, sort_order(keys, descending), descending),
        sort_order(keys, descending).no_duplicates(),
{
    lemma_insertion_sorts(keys, descending, keys.len() as int);
    assert(sorts(keys, insertion_order(keys, descending, keys.len() as int), descending));
    let order = sort_order(keys, descending);
    assert forall|i: int, j: int| 0 <= i < order.len() && 0 <= j < order.len() && i != j implies order[i]
        != order[j] by {
        lemma_precedes_irreflexive(keys, order[i] as int, descending);
        if i < j {
            assert(precedes(keys, order[i] as int, order[j] as int, descending));
        } else {
            assert(precedes(keys, order[j] as int, order[i] as int, descending));
        }
    }
}

} // verus!
