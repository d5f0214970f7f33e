//! Counting the positions below a bound that have a property.

use vstd::prelude::*;

verus! {

/// How many of the positions `0..n` have property `p`.
pub open spec fn count_to(n: nat, p: spec_fn(int) -> bool) -> nat
    decreases n,
{
    if n == 0 {
        0
    } else {
        count_to((n - 1) as nat, p) + if p(n - 1) {
            1nat
        } else {
            0nat
        }
    }
}

/// One position more.
pub proof fn lemma_count_step(n: nat, p: spec_fn(int) -> bool)
    ensures
        count_to(n, p) <= n,
        count_to(n + 1, p) == count_to(n, p) + if p(n as int) {
            1nat
        } else {
            0nat
        },
{
    lemma_count_bound(n, p);
}

/// No more than `n` positions below `n` have a property.
pub proof fn lemma_count_bound(n: nat, p: spec_fn(int) -> bool)
    ensures
        count_to(n, p) <= n,
    decreases n,
{
    if n > 0 {
        lemma_count_bound((n - 1) as nat, p);
    }
}

/// Properties that agree below `n` have the same count there.
pub proof fn lemma_count_same(n: nat, p: spec_fn(int) -> bool, q: spec_fn(int) -> bool)
    requires
        forall|i: int| 0 <= i < n ==> #[trigger] p(i) == q(i),
    ensures
        count_to(n, p) == count_to(n, q),
    decreases n,
{
    if n > 0 {
        lemma_count_same((n - 1) as nat, p, q);
        assert(p(n - 1) == q(n - 1));
    }
}

/// A property that implies another has no higher a count.
pub proof fn lemma_count_implied(n: nat, p: spec_fn(int) -> bool, q: spec_fn(int) -> bool)
    requires
        forall|i: int| 0 <= i < n && #[trigger] p(i) ==> q(i),
    ensures
        count_to(n, p) <= count_to(n, q),
    decreases n,
{
    if n > 0 {
        lemma_count_implied((n - 1) as nat, p, q);
        assert(p(n - 1) ==> q(n - 1));
    }
}

/// A property that holds at one more position below `n` has a count that is one higher.
pub proof fn lemma_count_one_more(n: nat, p: spec_fn(int) -> bool, q: spec_fn(int) -> bool, k: int)
    requires
        0 <= k < n,
        !p(k),
        q(k),
        forall|i: int| 0 <= i < n && i != k ==> #[trigger] p(i) == q(i),
    ensures
        count_to(n, q) == count_to(n, p) + 1,
    decreases n,
{
    if k == n - 1 {
        lemma_count_same((n - 1) as nat, p, q);
    } else {
        lemma_count_one_more((n - 1) as nat, p, q, k);
        assert(p(n - 1) == q(n - 1));
    }
}

/// A property that is one of two which exclude each other has the sum of their counts.
pub proof fn lemma_count_split(
    n: nat,
    p: spec_fn(int) -> bool,
    q: spec_fn(int) -> bool,
    either: spec_fn(int) -> bool,
)
    requires
        forall|i: int| 0 <= i < n ==> #[trigger] either(i) == (p(i) || q(i)) && !(p(i) && q(i)),
    ensures
        count_to(n, either) == count_to(n, p) + count_to(n, q),
    decreases n,
{
    if n > 0 {
        lemma_count_split((n - 1) as nat, p, q, either);
        assert(either(n - 1) == (p(n - 1) || q(n - 1)));
    }
}

/// The count over `m` positions and the `n` that follow is the sum of the two counts.
pub proof fn lemma_count_concat(
    m: nat,
    n: nat,
    p: spec_fn(int) -> bool,
    q: spec_fn(int) -> bool,
    r: spec_fn(int) -> bool,
)
    requires
        forall|i: int| 0 <= i < m ==> #[trigger] p(i) == q(i),
        forall|i: int| 0 <= i < n ==> p(m + i) == #[trigger] r(i),
    ensures
        count_to(m + n, p) == count_to(m, q) + count_to(n, r),
        count_to(m, q) <= m,
        count_to(n, r) <= n,
    decreases n,
{
    lemma_count_bound(m, q);
    lemma_count_bound(n, r);
    if n == 0 {
        lemma_count_same(m, p, q);
    } else {
        lemma_count_concat(m, (n - 1) as nat, p, q, r);
        assert(p(m + (n - 1)) == r(n - 1));
    }
}

/// The positions below `n` that have property `p`, from first to last.
pub open spec fn positions(n: nat, p: spec_fn(int) -> bool) -> Seq<int>
    decreases n,
{
    if n == 0 {
        Seq::empty()
    } else if p(n - 1) {
        positions((n - 1) as nat, p).push(n - 1)
    } else {
        positions((n - 1) as nat, p)
    }
}

/// Positions are listed in increasing order. Each is below `n` and has the property, and every
/// position below `n` that has the property is listed.
pub proof fn positions_have_the_property(n: nat, p: spec_fn(int) -> bool)
    ensures
        forall|k: int|
            0 <= k < positions(n, p).len() ==> 0 <= #[trigger] positions(n, p)[k] < n && p(
                positions(n, p)[k],
            ),
        forall|j: int, k: int|
            0 <= j < k < positions(n, p).len() ==> #[trigger] positions(n, p)[j]
                < #[trigger] positions(n, p)[k],
        forall|i: int| 0 <= i < n && #[trigger] p(i) ==> positions(n, p).contains(i),
    decreases n,
{
    if n > 0 {
        let before = positions((n - 1) as nat, p);
        let after = positions(n, p);
        positions_have_the_property((n - 1) as nat, p);
        assert forall|i: int| 0 <= i < n && #[trigger] p(i) implies after.contains(i) by {
            if i < n - 1 {
                assert(before.contains(i));
                let k = choose|k: int| 0 <= k < before.len() && before[k] == i;
                assert(after[k] == i);
            } else {
                assert(after[before.len() as int] == i);
            }
        }
    }
}

/// A count is the number of positions that have the property.
pub proof fn counts_are_numbers_of_positions(n: nat, p: spec_fn(int) -> bool)
    ensures
        count_to(n, p) == positions(n, p).len(),
    decreases n,
{
    if n > 0 {
        counts_are_numbers_of_positions((n - 1) as nat, p);
    }
}

/// Properties that agree below `n` are had by the same positions there.
pub(crate) proof fn lemma_positions_same(n: nat, p: spec_fn(int) -> bool, q: spec_fn(int) -> bool)
    requires
        forall|i: int| 0 <= i < n ==> #[trigger] p(i) == q(i),
    ensures
        positions(n, p) == positions(n, q),
    decreases n,
{
    if n > 0 {
        lemma_positions_same((n - 1) as nat, p, q);
        assert(p(n - 1) == q(n - 1));
    }
}

} // verus!
