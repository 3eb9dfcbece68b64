//! The three phases of a physics tick and their strict order.
//!
//! A tick first resets and accumulates every body's acceleration, then
//! integrates every velocity from those accelerations, then moves every body
//! with the velocity just computed. Each phase completes for all bodies before
//! the next begins; moving with the updated velocity is what makes the scheme
//! semi-implicit (symplectic) Euler.
use vstd::prelude::*;

verus! {

/// One phase of a physics tick.
#[derive(Debug, Hash, PartialEq, Eq, Structural, Clone, Copy)]
pub enum PhysicsSystem {
    UpdateAcceleration,
    UpdateVelocity,
    Movement,
}

/// The phases of one tick, in the order they run.
pub open spec fn pipeline() -> Seq<PhysicsSystem> {
    seq![PhysicsSystem::UpdateAcceleration, PhysicsSystem::UpdateVelocity, PhysicsSystem::Movement]
}

impl PhysicsSystem {
    /// Position of the phase within a tick.
    pub open spec fn rank(self) -> nat {
        match self {
            PhysicsSystem::UpdateAcceleration => 0,
            PhysicsSystem::UpdateVelocity => 1,
            PhysicsSystem::Movement => 2,
        }
    }

    /// The phase that opens every tick.
    pub fn first() -> (r: PhysicsSystem)
        ensures
            r == pipeline()[0],
    {
        PhysicsSystem::UpdateAcceleration
    }

    /// The phase that follows this one within the tick, `None` after the last.
    pub fn next(&self) -> (r: Option<PhysicsSystem>)
        ensures
            self.rank() + 1 < pipeline().len() ==> r == Some(pipeline()[self.rank() + 1int]),
            self.rank() + 1 == pipeline().len() <==> r.is_none(),
    {
        match self {
            PhysicsSystem::UpdateAcceleration => Some(PhysicsSystem::UpdateVelocity),
            PhysicsSystem::UpdateVelocity => Some(PhysicsSystem::Movement),
            PhysicsSystem::Movement => None,
        }
    }

    /// Whether this phase must wait until `other` has completed for every body.
    pub fn runs_after(&self, other: &PhysicsSystem) -> (r: bool)
        ensures
            r == (self.rank() > other.rank()),
    {
        match (self, other) {
            (PhysicsSystem::UpdateVelocity, PhysicsSystem::UpdateAcceleration) => true,
            (PhysicsSystem::Movement, PhysicsSystem::UpdateAcceleration) => true,
            (PhysicsSystem::Movement, PhysicsSystem::UpdateVelocity) => true,
            _ => false,
        }
    }
}

/// The phases of one tick, in the order they must run.
pub fn tick_phases() -> (r: Vec<PhysicsSystem>)
    ensures
        r@ == pipeline(),
{
    let r = vec![PhysicsSystem::UpdateAcceleration, PhysicsSystem::UpdateVelocity, PhysicsSystem::Movement];
    proof {
        assert(r@ =~= pipeline());
    }
    r
}

/// The tick is a strict linear pipeline: every phase stands in it exactly once,
/// at the index given by its rank, and a later entry always runs after an
/// earlier one. In particular velocities are integrated only after all
/// accelerations are final, and positions move only with the updated velocity.
pub proof fn lemma_pipeline_order()
    ensures
        forall|p: PhysicsSystem| #[trigger] pipeline()[p.rank() as int] == p,
        forall|k: int| 0 <= k < pipeline().len() ==> (#[trigger] pipeline()[k]).rank() == k,
        forall|i: int, j: int|
            0 <= i < j < pipeline().len() ==> #[trigger] pipeline()[j].rank()
                > #[trigger] pipeline()[i].rank(),
        pipeline().no_duplicates(),
{
    assert forall|p: PhysicsSystem| #[trigger] pipeline()[p.rank() as int] == p by {
        match p {
            PhysicsSystem::UpdateAcceleration => {},
            PhysicsSystem::UpdateVelocity => {},
            PhysicsSystem::Movement => {},
        }
    };
}

} // verus!
