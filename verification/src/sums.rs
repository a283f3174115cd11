//! Sums over the entries of a finite map.
use vstd::prelude::*;

verus! {

/// The sum of `f` over the elements of a finite set.
pub open spec fn sum_over<K>(dom: Set<K>, f: spec_fn(K) -> int) -> int
    decreases dom.len(),
    when dom.finite()
{
    if dom.len() == 0 {
        0
    } else {
        let k = dom.choose();
        f(k) + sum_over(dom.remove(k), f)
    }
}

/// The sum of the weights of a finite map's entries.
pub open spec fn weigh<K, V>(m: Map<K, V>, weight: spec_fn(K, V) -> int) -> int {
    sum_over(m.dom(), |k: K| weight(k, m[k]))
}

/// Any element can be taken out of a sum first.
pub proof fn lemma_sum_remove<K>(dom: Set<K>, f: spec_fn(K) -> int, k: K)
    requires
        dom.finite(),
        dom.contains(k),
    ensures
        sum_over(dom, f) == f(k) + sum_over(dom.remove(k), f),
    decreases dom.len(),
{
    let first = dom.choose();
    assert(dom.len() > 0);
    if first != k {
        assert(dom.contains(first));
        lemma_sum_remove(dom.remove(first), f, k);
        lemma_sum_remove(dom.remove(k), f, first);
        assert(dom.remove(first).remove(k) =~= dom.remove(k).remove(first));
    }
}

/// A sum depends only on the values of the summed elements.
pub proof fn lemma_sum_same<K>(dom: Set<K>, f: spec_fn(K) -> int, g: spec_fn(K) -> int)
    requires
        dom.finite(),
        forall|k: K| #[trigger] dom.contains(k) ==> f(k) == g(k),
    ensures
        sum_over(dom, f) == sum_over(dom, g),
    decreases dom.len(),
{
    if dom.len() > 0 {
        let k = dom.choose();
        assert(dom.contains(k));
        assert forall|j: K| #[trigger] dom.remove(k).contains(j) implies f(j) == g(j) by {
            assert(dom.contains(j));
        }
        lemma_sum_same(dom.remove(k), f, g);
    }
}

/// A sum of larger values is larger.
pub proof fn lemma_sum_ordered<K>(dom: Set<K>, f: spec_fn(K) -> int, g: spec_fn(K) -> int)
    requires
        dom.finite(),
        forall|k: K| #[trigger] dom.contains(k) ==> f(k) <= g(k),
    ensures
        sum_over(dom, f) <= sum_over(dom, g),
    decreases dom.len(),
{
    if dom.len() > 0 {
        let k = dom.choose();
        assert(dom.contains(k));
        assert forall|j: K| #[trigger] dom.remove(k).contains(j) implies f(j) <= g(j) by {
            assert(dom.contains(j));
        }
        lemma_sum_ordered(dom.remove(k), f, g);
    }
}

/// The sum of sums is the sum of the two sums.
pub proof fn lemma_sum_added<K>(
    dom: Set<K>,
    f: spec_fn(K) -> int,
    g: spec_fn(K) -> int,
    h: spec_fn(K) -> int,
)
    requires
        dom.finite(),
        forall|k: K| #[trigger] dom.contains(k) ==> h(k) == f(k) + g(k),
    ensures
        sum_over(dom, h) == sum_over(dom, f) + sum_over(dom, g),
    decreases dom.len(),
{
    if dom.len() > 0 {
        let k = dom.choose();
        assert(dom.contains(k));
        assert forall|j: K| #[trigger] dom.remove(k).contains(j) implies h(j) == f(j) + g(j) by {
            assert(dom.contains(j));
        }
        lemma_sum_added(dom.remove(k), f, g, h);
    }
}

/// The sum of multiples is the multiple of the sum.
pub proof fn lemma_sum_scaled<K>(dom: Set<K>, f: spec_fn(K) -> int, g: spec_fn(K) -> int, c: int)
    requires
        dom.finite(),
        forall|k: K| #[trigger] dom.contains(k) ==> g(k) == c * f(k),
    ensures
        sum_over(dom, g) == c * sum_over(dom, f),
    decreases dom.len(),
{
    if dom.len() > 0 {
        let k = dom.choose();
        assert(dom.contains(k));
        assert forall|j: K| #[trigger] dom.remove(k).contains(j) implies g(j) == c * f(j) by {
            assert(dom.contains(j));
        }
        lemma_sum_scaled(dom.remove(k), f, g, c);
        vstd::arithmetic::mul::lemma_mul_is_distributive_add(
            c,
            f(k),
            sum_over(dom.remove(k), f),
        );
    }
}

/// A sum of values that are not negative is at least each of them.
pub proof fn lemma_sum_bounds<K>(dom: Set<K>, f: spec_fn(K) -> int)
    requires
        dom.finite(),
        forall|k: K| #[trigger] dom.contains(k) ==> f(k) >= 0,
    ensures
        sum_over(dom, f) >= 0,
        forall|k: K| #[trigger] dom.contains(k) ==> f(k) <= sum_over(dom, f),
    decreases dom.len(),
{
    if dom.len() > 0 {
        let k = dom.choose();
        assert(dom.contains(k));
        let rest = dom.remove(k);
        assert forall|j: K| #[trigger] rest.contains(j) implies f(j) >= 0 by {
            assert(dom.contains(j));
        }
        lemma_sum_bounds(rest, f);
        assert forall|j: K| #[trigger] dom.contains(j) implies f(j) <= sum_over(dom, f) by {
            if j != k {
                assert(rest.contains(j));
            }
        }
    }
}

/// Writing an entry changes the sum by what the new entry weighs beyond the one it
/// replaces.
pub proof fn lemma_weigh_insert<K, V>(m: Map<K, V>, weight: spec_fn(K, V) -> int, k: K, v: V)
    requires
        m.dom().finite(),
    ensures
        m.insert(k, v).dom().finite(),
        m.contains_key(k) ==> weigh(m.insert(k, v), weight) == weigh(m, weight) - weight(k, m[k])
            + weight(k, v),
        !m.contains_key(k) ==> weigh(m.insert(k, v), weight) == weigh(m, weight) + weight(k, v),
{
    let after = m.insert(k, v);
    let f = |j: K| weight(j, m[j]);
    let g = |j: K| weight(j, after[j]);
    lemma_sum_remove(after.dom(), g, k);
    assert(after.dom().remove(k) =~= m.dom().remove(k));
    assert forall|j: K| #[trigger] m.dom().remove(k).contains(j) implies g(j) == f(j) by {
        assert(j != k);
    }
    lemma_sum_same(m.dom().remove(k), g, f);
    if m.contains_key(k) {
        lemma_sum_remove(m.dom(), f, k);
    } else {
        assert(m.dom().remove(k) =~= m.dom());
    }
}

/// An empty map weighs nothing.
pub proof fn lemma_weigh_empty<K, V>(weight: spec_fn(K, V) -> int)
    ensures
        weigh(Map::<K, V>::empty(), weight) == 0,
{
    assert(Map::<K, V>::empty().dom() =~= Set::<K>::empty());
}

} // verus!
