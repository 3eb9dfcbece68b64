//! Time handling of the stepper, in whole nanoseconds.
//!
//! A [`FixedTimestep`] turns the wall-clock time that elapses between rendered
//! frames into a number of fixed-size physics ticks, keeping what is left over
//! for the next frame. The integration step of a tick is the elapsed time
//! clamped to the fixed interval, so a slow frame never injects an oversized
//! step.
use vstd::prelude::*;

verus! {

/// The smaller of two durations.
pub open spec fn min_nat(a: nat, b: nat) -> nat {
    if a <= b {
        a
    } else {
        b
    }
}

/// The integration step used for a tick: the elapsed time, but never more
/// than the fixed interval.
pub fn effective_step(frame_delta: u64, fixed_step: u64) -> (r: u64)
    ensures
        r as nat == min_nat(frame_delta as nat, fixed_step as nat),
{
    if frame_delta <= fixed_step {
        frame_delta
    } else {
        fixed_step
    }
}

/// A slow frame is clamped: when more time than the fixed interval elapsed,
/// the step is exactly the fixed interval; otherwise it is the elapsed time.
/// The step never exceeds the fixed interval.
pub proof fn lemma_step_clamp(frame_delta: nat, fixed_step: nat)
    ensures
        frame_delta > fixed_step ==> min_nat(frame_delta, fixed_step) == fixed_step,
        frame_delta <= fixed_step ==> min_nat(frame_delta, fixed_step) == frame_delta,
        min_nat(frame_delta, fixed_step) <= fixed_step,
{
}

/// Ticks owed for `elapsed` nanoseconds on top of `carried`.
pub open spec fn ticks_owed(step: nat, carried: nat, elapsed: nat) -> nat
    recommends
        step > 0,
{
    (carried + elapsed) / step
}

/// Time carried over after those ticks.
pub open spec fn carried_over(step: nat, carried: nat, elapsed: nat) -> nat
    recommends
        step > 0,
{
    (carried + elapsed) % step
}

/// Accumulator that runs the physics once per elapsed fixed interval.
pub struct FixedTimestep {
    step: u64,
    carried: u64,
}

impl FixedTimestep {
    /// The fixed interval is positive and less than one interval is carried.
    pub open spec fn wf(&self) -> bool {
        self.step_spec() > 0 && self.carried_spec() < self.step_spec()
    }

    /// The fixed interval, in nanoseconds.
    pub closed spec fn step_spec(&self) -> nat {
        self.step as nat
    }

    /// Elapsed time not yet turned into a tick, in nanoseconds.
    pub closed spec fn carried_spec(&self) -> nat {
        self.carried as nat
    }

    /// A clock with the given fixed interval and nothing carried; `None` for an
    /// interval of zero, which could never be filled.
    pub fn new(step_nanos: u64) -> (r: Option<FixedTimestep>)
        ensures
            step_nanos == 0 <==> r.is_none(),
            r matches Some(c) ==> c.wf() && c.step_spec() == step_nanos && c.carried_spec() == 0,
    {
        if step_nanos == 0 {
            None
        } else {
            Some(FixedTimestep { step: step_nanos, carried: 0 })
        }
    }

    /// The fixed interval, in nanoseconds.
    pub fn step_nanos(&self) -> (r: u64)
        ensures
            r == self.step_spec(),
    {
        self.step
    }

    /// Elapsed time not yet turned into a tick, in nanoseconds.
    pub fn carried_nanos(&self) -> (r: u64)
        ensures
            r == self.carried_spec(),
    {
        self.carried
    }

    /// Adds the time elapsed since the last frame and returns how many whole
    /// fixed intervals are now due; the remainder is carried to the next frame.
    pub fn advance(&mut self, elapsed: u64) -> (ticks: u64)
        requires
            old(self).wf(),
        ensures
            final(self).wf(),
            final(self).step_spec() == old(self).step_spec(),
            ticks as nat == ticks_owed(old(self).step_spec(), old(self).carried_spec(), elapsed as nat),
            final(self).carried_spec() == carried_over(
                old(self).step_spec(),
                old(self).carried_spec(),
                elapsed as nat,
            ),
    {
        let step = self.step;
        let whole = elapsed / step;
        let rest = elapsed % step;
        let room = step - self.carried;
        let ghost c = self.carried as int;
        let ghost e = elapsed as int;
        let ghost s = step as int;
        proof {
            assert(e == s * (whole as int) + rest) by (nonlinear_arith)
                requires
                    s > 0,
                    whole as int == e / s,
                    rest as int == e % s,
            ;
            assert(whole as int * s <= e) by (nonlinear_arith)
                requires
                    e == s * (whole as int) + rest,
                    rest >= 0,
            ;
        }
        if rest >= room {
            proof {
                assert(c + e == s * (whole as int + 1) + (rest - room)) by (nonlinear_arith)
                    requires
                        e == s * (whole as int) + rest,
                        room as int == s - c,
                ;
                lemma_div_mod_parts(c + e, s, whole as int + 1, rest - room);
                if s == 1 {
                    assert(false);
                }
                assert(whole as int * 2 <= e) by (nonlinear_arith)
                    requires
                        whole as int * s <= e,
                        s >= 2,
                        whole >= 0,
                ;
            }
            self.carried = rest - room;
            whole + 1
        } else {
            proof {
                assert(c + e == s * (whole as int) + (c + rest));
                lemma_div_mod_parts(c + e, s, whole as int, c + rest);
            }
            self.carried = self.carried + rest;
            whole
        }
    }
}

/// Writing `x` as `q` whole divisors plus a remainder below the divisor fixes
/// the quotient and the remainder.
pub proof fn lemma_div_mod_parts(x: int, d: int, q: int, r: int)
    requires
        d > 0,
        0 <= r < d,
        x == d * q + r,
    ensures
        x / d == q,
        x % d == r,
{
    assert(d * q == q * d) by (nonlinear_arith);
    vstd::arithmetic::div_mod::lemma_fundamental_div_mod_converse(x, d, q, r);
}

/// Ticks depend only on the total time elapsed, not on how it was split into
/// frames: advancing by `e1` and then by `e2` runs as many ticks in all, and
/// carries the same remainder, as advancing once by `e1 + e2`.
pub proof fn lemma_frame_split_invariance(step: nat, carried: nat, e1: nat, e2: nat)
    requires
        step > 0,
        carried < step,
    ensures
        ticks_owed(step, carried, e1) + ticks_owed(step, carried_over(step, carried, e1), e2)
            == ticks_owed(step, carried, e1 + e2),
        carried_over(step, carried_over(step, carried, e1), e2) == carried_over(
            step,
            carried,
            e1 + e2,
        ),
{
    let s = step as int;
    let x = (carried + e1) as int;
    let q1 = x / s;
    let r1 = x % s;
    vstd::arithmetic::div_mod::lemma_fundamental_div_mod(x, s);
    let y = (r1 + e2) as int;
    let q2 = y / s;
    let r2 = y % s;
    vstd::arithmetic::div_mod::lemma_fundamental_div_mod(y, s);
    assert(x + e2 == s * (q1 + q2) + r2) by (nonlinear_arith)
        requires
            x == s * q1 + r1,
            y == s * q2 + r2,
            y == r1 + e2,
    ;
    lemma_div_mod_parts(x + e2, s, q1 + q2, r2);
}

} // verus!
