//! A model, in exact integer arithmetic, of how the force phase applies
//! Newton's third law. The floating-point force loop itself lives outside this
//! crate and is not checked against the model; what the model shows is that
//! the pattern it follows over the pair schedule cancels out.
//!
//! For every scheduled pair `(a, b)` one force is computed and added to the
//! accumulator of `a` and subtracted from that of `b`. Whatever the force of
//! each pair is, the accumulated net forces then sum to zero over all bodies,
//! so in exact arithmetic a tick leaves the total momentum `sum m_i v_i`
//! unchanged (`m_i a_i` is the net force on body `i`). The model below works on
//! one component of the force; the three components are independent.
use vstd::prelude::*;
use crate::schedule::{is_pair_of, lemma_entries_are_pairs, lemma_pair_count, num_pairs, pairs_upto};

verus! {

/// What the force `f` of pair `p` adds to the accumulator of body `b`: `+f`
/// for the first body of the pair, `-f` for the second, nothing for others.
pub open spec fn share(p: (int, int), b: int, f: int) -> int {
    (if p.0 == b {
        f
    } else {
        0
    }) - (if p.1 == b {
        f
    } else {
        0
    })
}

/// Net force accumulated on body `b` after visiting the pairs `s` in order,
/// where `forces[k]` is the force computed for `s[k]`.
pub open spec fn net_force(s: Seq<(int, int)>, forces: Seq<int>, b: int) -> int
    decreases s.len(),
{
    if s.len() == 0 {
        0
    } else {
        net_force(s.drop_last(), forces, b) + share(s.last(), b, forces[s.len() - 1])
    }
}

/// `g(0) + g(1) + ... + g(n - 1)`.
pub open spec fn sum_bodies(n: nat, g: spec_fn(int) -> int) -> int
    decreases n,
{
    if n == 0 {
        0
    } else {
        sum_bodies((n - 1) as nat, g) + g(n - 1)
    }
}

/// The sum over the bodies of the net forces accumulated from `s`.
pub open spec fn total_force(n: nat, s: Seq<(int, int)>, forces: Seq<int>) -> int {
    sum_bodies(n, |b: int| net_force(s, forces, b))
}

proof fn lemma_sum_of_shares(n: nat, p: (int, int), f: int)
    ensures
        sum_bodies(n, |b: int| share(p, b, f)) == (if 0 <= p.0 < n {
            f
        } else {
            0
        }) - (if 0 <= p.1 < n {
            f
        } else {
            0
        }),
    decreases n,
{
    if n > 0 {
        lemma_sum_of_shares((n - 1) as nat, p, f);
    }
}

proof fn lemma_sum_split(n: nat, g: spec_fn(int) -> int, h: spec_fn(int) -> int)
    ensures
        sum_bodies(n, |b: int| g(b) + h(b)) == sum_bodies(n, g) + sum_bodies(n, h),
    decreases n,
{
    if n > 0 {
        lemma_sum_split((n - 1) as nat, g, h);
    }
}

proof fn lemma_sum_zero(n: nat)
    ensures
        sum_bodies(n, |b: int| 0int) == 0,
    decreases n,
{
    if n > 0 {
        lemma_sum_zero((n - 1) as nat);
    }
}

proof fn lemma_total_cancels(n: nat, s: Seq<(int, int)>, forces: Seq<int>)
    requires
        s.len() <= forces.len(),
        forall|k: int| 0 <= k < s.len() ==> is_pair_of(n as int, #[trigger] s[k].0, s[k].1),
    ensures
        total_force(n, s, forces) == 0,
    decreases s.len(),
{
    if s.len() > 0 {
        let prefix = s.drop_last();
        let p = s.last();
        let f = forces[s.len() - 1];
        assert forall|k: int| 0 <= k < prefix.len() implies is_pair_of(
            n as int,
            #[trigger] prefix[k].0,
            prefix[k].1,
        ) by {
            assert(prefix[k] == s[k]);
        };
        lemma_total_cancels(n, prefix, forces);
        let g = |b: int| net_force(prefix, forces, b);
        let h = |b: int| share(p, b, f);
        assert((|b: int| net_force(s, forces, b)) =~= (|b: int| g(b) + h(b)));
        lemma_sum_split(n, g, h);
        assert(is_pair_of(n as int, s[s.len() - 1].0, s[s.len() - 1].1));
        lemma_sum_of_shares(n, p, f);
        assert(total_force(n, prefix, forces) == sum_bodies(n, g));
    } else {
        assert((|b: int| net_force(s, forces, b)) =~= (|b: int| 0int));
        lemma_sum_zero(n);
    }
}

/// Each scheduled pair's force acts on its two bodies with opposite signs, and
/// the net forces that the force phase accumulates over `n` bodies sum to
/// zero, whatever force is computed for each pair (a pair at one position
/// contributes zero, which changes nothing here).
pub proof fn lemma_pair_forces_cancel(n: nat, forces: Seq<int>)
    requires
        forces.len() == num_pairs(n),
    ensures
        forall|k: int|
            0 <= k < pairs_upto(n).len() ==> #[trigger] share(
                pairs_upto(n)[k],
                pairs_upto(n)[k].0,
                forces[k],
            ) == forces[k] && share(pairs_upto(n)[k], pairs_upto(n)[k].1, forces[k])
                == -forces[k],
        total_force(n, pairs_upto(n), forces) == 0,
{
    lemma_entries_are_pairs(n);
    lemma_pair_count(n);
    lemma_total_cancels(n, pairs_upto(n), forces);
}

} // verus!
