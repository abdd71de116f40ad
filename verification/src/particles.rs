//! Tracer-particle advection: a biased random walk whose step size follows
//! the local interpolated wave amplitude. Near nodal lines the amplitude is
//! small and tracers barely move, so they accumulate there over many steps.

use vstd::prelude::*;
use rayon::iter::{IntoParallelRefMutIterator, ParallelIterator};
use crate::fixed::{Fx, FX_SCALE, FX_HALF, fx_add, fx_mul, fx_clamp, sat_add, sat_mul, clamp_int};
use crate::lattice2d::Lattice2D;
use crate::interp::interp_at;

verus! {

/// A massless tracer at a continuous coordinate within the grid's extent.
#[derive(Clone, Copy, PartialEq, Eq, Structural, Debug)]
pub struct Particle {
    pub x: Fx,
    pub y: Fx,
}

/// The lower end of the tracer extent: half a cell, in raw steps.
pub open spec fn coord_min() -> int {
    FX_HALF as int
}

/// The upper end of the tracer extent: half a cell short of the far edge.
pub open spec fn coord_max(side: int) -> int {
    side * (FX_SCALE as int) - FX_HALF as int
}

/// Both tracer coordinates lie within the grid's clamped extent.
pub open spec fn in_extent(p: Particle, side: int) -> bool {
    &&& coord_min() <= p.x@ <= coord_max(side)
    &&& coord_min() <= p.y@ <= coord_max(side)
}

/// Relies on macroquad::rand::gen_range (quad_rand's global generator): for
/// integer arguments it returns `low + (high - low) * u` truncated toward
/// zero, with `u` drawn in `[0, 1)`, which stays within `[low, high]` for
/// bounds of this small magnitude (the computation through f64 is exact
/// there).
#[verifier::external_body]
fn rand_in(low: i64, high: i64) -> (r: i64)
    requires
        low <= high,
        -1048576 <= low,
        high <= 1048576,
    ensures
        low <= r <= high,
{
    macroquad::rand::gen_range(low, high)
}

/// Relies on rayon's `par_iter_mut`: `for_each` applies the closure to every
/// element exactly once, in place, and touches nothing else. The closure
/// advects one tracer against the grid, which is not mutated during the
/// pass, so the schedule cannot affect the per-tracer outcome.
#[verifier::external_body]
fn par_advect(lat: &Lattice2D, particles: &mut Vec<Particle>)
    requires
        lat.wf(),
        forall|i: int| 0 <= i < old(particles)@.len() ==> in_extent(#[trigger] old(particles)@[i], lat@.side),
    ensures
        final(particles)@.len() == old(particles)@.len(),
        forall|i: int| 0 <= i < final(particles)@.len() ==> in_extent(#[trigger] final(particles)@[i], lat@.side),
{
    particles.par_iter_mut().for_each(|p| lat.advect_particle_random(p));
}

impl Lattice2D {
    /// The upper end of the tracer extent as a scalar.
    fn coord_max_fx(&self) -> (r: Fx)
        requires
            self.wf(),
        ensures
            r@ == coord_max(self@.side),
    {
        let n = self.points.len();
        proof {
            assert(self.side as int <= 0xffffffff) by (nonlinear_arith)
                requires
                    (self.side as int) * (self.side as int) <= 0xffffffffffffffff,
                    self.side as int >= 0,
            ;
            assert((self.side as int) * (FX_SCALE as int) >= FX_SCALE as int);
        }
        let m: u64 = (self.side as u64) * (FX_SCALE as u64);
        Fx { raw: (m - (FX_HALF as u64)) as i64 }
    }

    /// Advect one tracer by two already-drawn random factors: scale each by
    /// the interpolated amplitude at the tracer's current position, displace
    /// the coordinates, and clamp both back into the tracer extent.
    pub fn advect_particle(&self, p: &mut Particle, rx: Fx, ry: Fx)
        requires
            self.wf(),
            in_extent(*old(p), self@.side),
        ensures
            final(p).x@ == clamp_int(
                sat_add(old(p).x@, sat_mul(rx@, interp_at(self@.points, self@.side, old(p).x@, old(p).y@))),
                coord_min(),
                coord_max(self@.side),
            ),
            final(p).y@ == clamp_int(
                sat_add(old(p).y@, sat_mul(ry@, interp_at(self@.points, self@.side, old(p).x@, old(p).y@))),
                coord_min(),
                coord_max(self@.side),
            ),
            in_extent(*final(p), self@.side),
    {
        proof {
            assert((self.side as int) * (FX_SCALE as int) >= FX_SCALE as int);
        }
        let amp = self.interpolate(p.x, p.y);
        let dx = fx_mul(rx, amp);
        let dy = fx_mul(ry, amp);
        let lo = Fx { raw: FX_HALF };
        let hi = self.coord_max_fx();
        p.x = fx_clamp(fx_add(p.x, dx), lo, hi);
        p.y = fx_clamp(fx_add(p.y, dy), lo, hi);
    }

    /// Advect one tracer with two freshly drawn uniform random factors in
    /// `[-1, 1]`. Whatever the generator returns, the tracer ends inside the
    /// extent.
    pub fn advect_particle_random(&self, p: &mut Particle)
        requires
            self.wf(),
            in_extent(*old(p), self@.side),
        ensures
            in_extent(*final(p), self@.side),
    {
        let rx = rand_in(-FX_SCALE, FX_SCALE);
        let ry = rand_in(-FX_SCALE, FX_SCALE);
        self.advect_particle(p, Fx { raw: rx }, Fx { raw: ry });
    }

    /// Advect every tracer independently, in parallel: each reads only the
    /// stable grid and its own state. Afterward every tracer lies inside the
    /// extent, and none is added or removed.
    pub fn advect_particles(&self, particles: &mut Vec<Particle>)
        requires
            self.wf(),
            forall|i: int| 0 <= i < old(particles)@.len() ==> in_extent(#[trigger] old(particles)@[i], self@.side),
        ensures
            final(particles)@.len() == old(particles)@.len(),
            forall|i: int| 0 <= i < final(particles)@.len() ==> in_extent(#[trigger] final(particles)@[i], self@.side),
    {
        par_advect(self, particles)
    }
}

} // verus!
