//! A single point mass and its integration primitive.

use vstd::prelude::*;
use crate::fixed::{Fx, FX_DT, fx_add, fx_mul, sat_add, sat_mul};

verus! {

/// The mathematical model of a point mass: its raw fixed-point fields as
/// unbounded integers.
pub ghost struct PointModel {
    pub pos: int,
    pub vel: int,
    pub acc: int,
}

/// A scalar mass with a position, a velocity, and a per-step acceleration
/// accumulator. The accumulator belongs to the owning lattice's update for
/// one sub-step and is zero between steps.
#[derive(Clone, Copy, PartialEq, Eq, Structural, Debug)]
pub struct PointState {
    pub position: Fx,
    pub velocity: Fx,
    pub acceleration: Fx,
}

impl View for PointState {
    type V = PointModel;

    open spec fn view(&self) -> PointModel {
        PointModel { pos: self.position@, vel: self.velocity@, acc: self.acceleration@ }
    }
}

pub open spec fn zero_point() -> PointModel {
    PointModel { pos: 0, vel: 0, acc: 0 }
}

/// One semi-implicit Euler update with the fixed timestep: the accumulated
/// acceleration folds into the velocity, the new velocity advances the
/// position, and the accumulator is cleared.
pub open spec fn integrate(p: PointModel) -> PointModel {
    let v = sat_add(p.vel, sat_mul(p.acc, FX_DT as int));
    PointModel { pos: sat_add(p.pos, sat_mul(v, FX_DT as int)), vel: v, acc: 0 }
}

/// The models of a sequence of points.
pub open spec fn models(s: Seq<PointState>) -> Seq<PointModel> {
    Seq::new(s.len(), |i: int| s[i]@)
}

impl PointState {
    pub fn zero() -> (r: PointState)
        ensures
            r@ == zero_point(),
    {
        PointState { position: Fx { raw: 0 }, velocity: Fx { raw: 0 }, acceleration: Fx { raw: 0 } }
    }

    /// Apply semi-implicit Euler with the fixed timestep, in place. Must run
    /// exactly once per point per sub-step, after all forces for the sub-step
    /// have been accumulated. Afterward the accumulator is zero again.
    pub fn update(&mut self)
        ensures
            final(self)@ == integrate(old(self)@),
            final(self)@.acc == 0,
    {
        self.velocity = fx_add(self.velocity, fx_mul(self.acceleration, Fx { raw: FX_DT }));
        self.position = fx_add(self.position, fx_mul(self.velocity, Fx { raw: FX_DT }));
        self.acceleration = Fx { raw: 0 };
    }
}

} // verus!
