//! The order in which the acceleration phase visits pairs of bodies.
//!
//! Bodies are held in a fixed order and named by their index. The outer index
//! runs over all bodies; the inner one over the bodies visited before it. Each
//! unordered pair is thus visited exactly once, as `(later, earlier)`, and no
//! body is ever paired with itself.
use vstd::prelude::*;

verus! {

/// The pairs visited among the first `i` bodies, then the pairs `(i, 0)`, ...,
/// `(i, j - 1)`: the state of the schedule part way through the outer index `i`.
pub open spec fn partial_pairs(i: nat, j: nat) -> Seq<(int, int)> {
    pairs_upto(i) + Seq::new(j, |t: int| (i as int, t))
}

/// The pairs visited among `n` bodies, in visiting order.
pub open spec fn pairs_upto(n: nat) -> Seq<(int, int)>
    decreases n,
{
    if n == 0 {
        Seq::empty()
    } else {
        pairs_upto((n - 1) as nat) + Seq::new((n - 1) as nat, |t: int| ((n - 1) as int, t))
    }
}

/// Whether `(a, b)` is one of the pairs that `n` bodies have: a body and one
/// that comes before it.
pub open spec fn is_pair_of(n: int, a: int, b: int) -> bool {
    0 <= b < a < n
}

/// The number of unordered pairs among `n` bodies.
pub open spec fn num_pairs(n: nat) -> nat {
    (n * (n - 1) / 2) as nat
}

/// The exec view of a schedule: its entries as pairs of mathematical integers.
pub open spec fn as_int_pairs(s: Seq<(usize, usize)>) -> Seq<(int, int)> {
    s.map_values(|p: (usize, usize)| (p.0 as int, p.1 as int))
}

/// Among `n` bodies the schedule holds `n * (n - 1) / 2` pairs.
pub proof fn lemma_pair_count(n: nat)
    ensures
        pairs_upto(n).len() == num_pairs(n),
    decreases n,
{
    if n > 0 {
        lemma_pair_count((n - 1) as nat);
        let m: int = n - 1;
        assert(n * (n - 1) == m * (m - 1) + 2 * m) by (nonlinear_arith)
            requires
                m == n - 1,
        ;
        assert(m * (m - 1) >= 0) by (nonlinear_arith)
            requires
                m >= 0,
        ;
        assert((m * (m - 1) + 2 * m) / 2 == m * (m - 1) / 2 + m);
        assert(pairs_upto(n).len() == pairs_upto((n - 1) as nat).len() + m);
        assert(num_pairs((n - 1) as nat) == m * (m - 1) / 2);
        assert(n * (n - 1) / 2 == m * (m - 1) / 2 + m);
    } else {
        assert(pairs_upto(0).len() == 0);
        assert(0 * (0 - 1) == 0) by (nonlinear_arith);
    }
}

/// Every entry of the schedule is a body paired with one that comes before it.
pub proof fn lemma_entries_are_pairs(n: nat)
    ensures
        forall|k: int|
            0 <= k < pairs_upto(n).len() ==> is_pair_of(
                n as int,
                #[trigger] pairs_upto(n)[k].0,
                pairs_upto(n)[k].1,
            ),
    decreases n,
{
    if n > 0 {
        lemma_entries_are_pairs((n - 1) as nat);
        let prev = pairs_upto((n - 1) as nat);
        assert forall|k: int| 0 <= k < pairs_upto(n).len() implies is_pair_of(
            n as int,
            #[trigger] pairs_upto(n)[k].0,
            pairs_upto(n)[k].1,
        ) by {
            if k < prev.len() {
                assert(pairs_upto(n)[k] == prev[k]);
            }
        };
    }
}

/// Every pair of bodies stands in the schedule.
pub proof fn lemma_pairs_are_entries(n: nat, a: int, b: int)
    requires
        is_pair_of(n as int, a, b),
    ensures
        pairs_upto(n).contains((a, b)),
    decreases n,
{
    let prev = pairs_upto((n - 1) as nat);
    if a < n - 1 {
        lemma_pairs_are_entries((n - 1) as nat, a, b);
        let k = choose|k: int| 0 <= k < prev.len() && prev[k] == (a, b);
        assert(pairs_upto(n)[k] == (a, b));
    } else {
        assert(pairs_upto(n)[prev.len() + b] == (a, b));
    }
}

/// No pair stands twice in the schedule.
pub proof fn lemma_no_pair_twice(n: nat)
    ensures
        pairs_upto(n).no_duplicates(),
    decreases n,
{
    if n > 0 {
        lemma_no_pair_twice((n - 1) as nat);
        lemma_entries_are_pairs((n - 1) as nat);
        let prev = pairs_upto((n - 1) as nat);
        let s = pairs_upto(n);
        assert forall|x: int, y: int| 0 <= x < s.len() && 0 <= y < s.len() && x != y implies s[x]
            != s[y] by {
            if x < prev.len() && y < prev.len() {
                assert(s[x] == prev[x] && s[y] == prev[y]);
            } else if x < prev.len() {
                assert(s[x] == prev[x]);
                assert(prev[x].0 < n - 1);
            } else if y < prev.len() {
                assert(s[y] == prev[y]);
                assert(prev[y].0 < n - 1);
            }
        };
    }
}

/// The force phase visits each unordered pair of distinct bodies exactly
/// once: an entry of the schedule is a body and one before it, every such pair
/// is an entry, no entry repeats, there are `n * (n - 1) / 2` of them, and no
/// body is paired with itself in either orientation.
pub proof fn lemma_each_pair_visited_once(n: nat)
    ensures
        forall|a: int, b: int| #[trigger]
            pairs_upto(n).contains((a, b)) <==> is_pair_of(n as int, a, b),
        forall|a: int| !(#[trigger] pairs_upto(n).contains((a, a))),
        pairs_upto(n).no_duplicates(),
        pairs_upto(n).len() == num_pairs(n),
{
    lemma_entries_are_pairs(n);
    lemma_no_pair_twice(n);
    lemma_pair_count(n);
    assert forall|a: int, b: int| #[trigger]
        pairs_upto(n).contains((a, b)) <==> is_pair_of(n as int, a, b) by {
        if is_pair_of(n as int, a, b) {
            lemma_pairs_are_entries(n, a, b);
        }
        if pairs_upto(n).contains((a, b)) {
            let k = choose|k: int| 0 <= k < pairs_upto(n).len() && pairs_upto(n)[k] == (a, b);
            assert(is_pair_of(n as int, pairs_upto(n)[k].0, pairs_upto(n)[k].1));
        }
    };
}

/// A lone body takes part in no pair, so the force phase adds nothing to its
/// accumulator and its acceleration stays the zero vector it was reset to.
pub proof fn lemma_lone_body_has_no_pairs()
    ensures
        pairs_upto(1) =~= Seq::<(int, int)>::empty(),
{
    assert(pairs_upto(0) =~= Seq::<(int, int)>::empty());
}

/// The pairs visited by the force phase over `n` bodies, in visiting order.
pub fn pair_schedule(n: usize) -> (r: Vec<(usize, usize)>)
    requires
        num_pairs(n as nat) <= usize::MAX,
    ensures
        as_int_pairs(r@) == pairs_upto(n as nat),
{
    let mut r: Vec<(usize, usize)> = Vec::new();
    let mut i: usize = 0;
    while i < n
        invariant
            i <= n,
            as_int_pairs(r@) == pairs_upto(i as nat),
        decreases n - i,
    {
        let mut j: usize = 0;
        while j < i
            invariant
                j <= i < n,
                as_int_pairs(r@) == partial_pairs(i as nat, j as nat),
            decreases i - j,
        {
            let ghost before = r@;
            r.push((i, j));
            proof {
                assert(as_int_pairs(r@) =~= as_int_pairs(before).push((i as int, j as int)));
                assert(partial_pairs(i as nat, (j + 1) as nat) =~= partial_pairs(
                    i as nat,
                    j as nat,
                ).push((i as int, j as int)));
            }
            j = j + 1;
        }
        proof {
            assert(partial_pairs(i as nat, i as nat) =~= pairs_upto((i + 1) as nat));
        }
        i = i + 1;
    }
    r
}

} // verus!
