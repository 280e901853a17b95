//! The pairwise interaction schedule of the integrator's sweep.
//!
//! One step of the integrator, and one evaluation of the total energy, walk
//! the bodies with an outer index `i` and pair each body with every body of
//! a strictly larger index. This module states that schedule exactly: which
//! partners body `i` is paired with, that every unordered pair of distinct
//! bodies is scheduled exactly once, and that a full sweep over `n` bodies
//! evaluates exactly `n * (n - 1) / 2` interactions.

use vstd::prelude::*;

verus! {

/// The indices that the sweep pairs with body `i` in a system of `n`
/// bodies: every index strictly between `i` and `n`, in increasing order.
pub open spec fn partner_indices(n: int, i: int) -> Seq<int> {
    Seq::new(if 0 <= i && i < n { (n - i - 1) as nat } else { 0 }, |k: int| i + 1 + k)
}

/// The partners of body `i` in a system of `n` bodies, as the sweep visits
/// them: exactly the indices `i + 1` through `n - 1`, in increasing order.
pub fn interaction_partners(n: usize, i: usize) -> (r: Vec<usize>)
    requires
        i < n,
    ensures
        r@.len() == n - i - 1,
        forall|k: int| 0 <= k < r@.len() ==> r@[k] == i + 1 + k,
        r@.map_values(|j: usize| j as int) == partner_indices(n as int, i as int),
{
    let mut r: Vec<usize> = Vec::new();
    let mut j: usize = i + 1;
    while j < n
        invariant
            i < n,
            i + 1 <= j <= n,
            r@.len() == j - i - 1,
            forall|k: int| 0 <= k < r@.len() ==> r@[k] == i + 1 + k,
        decreases n - j,
    {
        r.push(j);
        j = j + 1;
    }
    proof {
        assert(r@.map_values(|q: usize| q as int) =~= partner_indices(n as int, i as int));
    }
    r
}

/// Law: each unordered pair of distinct bodies is scheduled exactly once.
/// A pair `(a, b)` with `a < b` stands among the partners of `a`, and of no
/// other body: the partners of any body are strictly larger indices, so in
/// particular the pair is absent from the partners of `b`.
pub proof fn lemma_single_pair_visit(n: int, a: int, b: int)
    requires
        0 <= a < b < n,
    ensures
        partner_indices(n, a).contains(b),
        !partner_indices(n, b).contains(a),
        forall|i: int| #![auto] partner_indices(n, i).contains(b) ==> i < b,
{
    assert(partner_indices(n, a)[b - a - 1] == b);
    assert forall|i: int| #![auto] partner_indices(n, i).contains(b) implies i < b by {
        let k = choose|k: int| 0 <= k < partner_indices(n, i).len() && partner_indices(n, i)[k] == b;
        assert(b == i + 1 + k);
    }
    assert forall|k: int| 0 <= k < partner_indices(n, b).len() implies partner_indices(n, b)[k] != a by {
        assert(partner_indices(n, b)[k] == b + 1 + k);
    }
}

/// The number of pairwise interactions that the sweep evaluates from body
/// `i` onward in a system of `n` bodies: the lengths of the remaining
/// partner lists, summed.
pub open spec fn interactions_from(n: int, i: int) -> int
    decreases n - i,
{
    if 0 <= i && i < n {
        partner_indices(n, i).len() + interactions_from(n, i + 1)
    } else {
        0
    }
}

proof fn lemma_interactions_from(n: int, i: int)
    requires
        0 <= i <= n,
    ensures
        2 * interactions_from(n, i) == (n - i) * (n - i - 1),
    decreases n - i,
{
    let m = n - i;
    if i < n {
        lemma_interactions_from(n, i + 1);
        assert(partner_indices(n, i).len() == m - 1);
        assert(interactions_from(n, i) == (m - 1) + interactions_from(n, i + 1));
        assert(2 * interactions_from(n, i + 1) == (m - 1) * (m - 2));
        assert(2 * (m - 1) + (m - 1) * (m - 2) == m * (m - 1)) by (nonlinear_arith);
    } else {
        assert(m * (m - 1) == 0) by (nonlinear_arith)
            requires m == 0;
    }
}

/// Law: a full sweep over `n` bodies evaluates exactly `n * (n - 1) / 2`
/// pairwise interactions, one per unordered pair of distinct bodies.
pub proof fn lemma_interaction_count(n: int)
    requires
        0 <= n,
    ensures
        interactions_from(n, 0) == n * (n - 1) / 2,
{
    lemma_interactions_from(n, 0);
    assert(interactions_from(n, 0) == n * (n - 1) / 2) by (nonlinear_arith)
        requires 2 * interactions_from(n, 0) == n * (n - 1);
}

/// How many pairwise interactions one full sweep over `n` bodies evaluates:
/// `n * (n - 1) / 2`, one per unordered pair of distinct bodies.
pub fn interaction_count(n: usize) -> (c: usize)
    requires
        n * (n - 1) / 2 <= usize::MAX,
    ensures
        c == interactions_from(n as int, 0),
        c == n * (n - 1) / 2,
{
    proof {
        lemma_interaction_count(n as int);
    }
    let mut c: usize = 0;
    let mut i: usize = 0;
    while i < n
        invariant
            i <= n,
            c + interactions_from(n as int, i as int) == interactions_from(n as int, 0),
            interactions_from(n as int, 0) <= usize::MAX,
        decreases n - i,
    {
        proof {
            lemma_interactions_from(n as int, i as int + 1);
            let m = n - i;
            assert((m - 1) * (m - 2) >= 0) by (nonlinear_arith)
                requires m >= 1;
            assert(partner_indices(n as int, i as int).len() == m - 1);
        }
        c = c + (n - 1 - i);
        i = i + 1;
    }
    c
}

} // verus!
