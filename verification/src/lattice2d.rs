//! A square grid of point masses coupled by springs, driven at its center.
//!
//! The grid's side length is odd, so a unique center cell exists; each step
//! forces that cell's position to the host-evaluated drive value. Cells are
//! stored row-major in a flat vector: cell `(i, j)` lives at `i * side + j`.
//!
//! The force pass runs data-parallel over the cells: every cell's new
//! acceleration is computed from an immutable snapshot of the previous grid,
//! so the per-cell work is race-free and any schedule yields the same result
//! as the sequential map the contract states.

use vstd::prelude::*;
use rayon::iter::{IndexedParallelIterator, IntoParallelIterator, ParallelIterator};
use crate::fixed::{Fx, FX_DT, fx_add, fx_sub, fx_mul, sat_add, sat_sub, sat_mul, lemma_sat_mul_zero};
use crate::point::{PointState, PointModel, integrate, models, zero_point};

verus! {

use vstd::arithmetic::div_mod::{
    lemma_fundamental_div_mod,
    lemma_fundamental_div_mod_converse,
    lemma_mod_division_less_than_divisor,
    lemma_multiply_divide_lt,
    lemma_div_pos_is_pos,
};

/// The mathematical model of a grid: cell models in row-major order plus the
/// scalar parameters, as unbounded integers over raw fixed-point values.
pub ghost struct Lattice2DModel {
    pub points: Seq<PointModel>,
    pub side: int,
    pub stiffness: int,
    pub time: int,
}

/// The flat index of the unique center cell of an odd-sided grid.
pub open spec fn center_of(side: int) -> int {
    let c = (side - 1) / 2;
    c * side + c
}

/// The acceleration accumulated into cell `idx` during the force pass, in
/// accumulation order: the spring to each existing axis neighbor (north,
/// south, west, east, all read from the pre-step snapshot), then the viscous
/// damping term.
pub open spec fn accel_2d(ps: Seq<PointModel>, side: int, k: int, damping: int, idx: int) -> int {
    let i = idx / side;
    let j = idx % side;
    let a1 = if i != 0 {
        sat_add(ps[idx].acc, sat_mul(sat_sub(ps[idx - side].pos, ps[idx].pos), k))
    } else {
        ps[idx].acc
    };
    let a2 = if i != side - 1 {
        sat_add(a1, sat_mul(sat_sub(ps[idx + side].pos, ps[idx].pos), k))
    } else {
        a1
    };
    let a3 = if j != 0 {
        sat_add(a2, sat_mul(sat_sub(ps[idx - 1].pos, ps[idx].pos), k))
    } else {
        a2
    };
    let a4 = if j != side - 1 {
        sat_add(a3, sat_mul(sat_sub(ps[idx + 1].pos, ps[idx].pos), k))
    } else {
        a3
    };
    sat_sub(a4, sat_mul(ps[idx].vel, damping))
}

/// Cell `idx` after the force pass and before integration: the center cell
/// is forced to the drive value, every other cell accumulates forces.
pub open spec fn forced_2d(ps: Seq<PointModel>, side: int, k: int, damping: int, drive: int, idx: int) -> PointModel {
    if idx == center_of(side) {
        PointModel { pos: drive, vel: ps[idx].vel, acc: ps[idx].acc }
    } else {
        PointModel { pos: ps[idx].pos, vel: ps[idx].vel, acc: accel_2d(ps, side, k, damping, idx) }
    }
}

/// One full sub-step of the grid: force pass against the snapshot, then
/// integration of every cell.
pub open spec fn step_2d(ps: Seq<PointModel>, side: int, k: int, damping: int, drive: int) -> Seq<PointModel> {
    Seq::new(ps.len(), |idx: int| integrate(forced_2d(ps, side, k, damping, drive, idx)))
}

/// A grid's state after a reset: every cell all-zero, the time origin back
/// at zero, side and stiffness untouched.
pub open spec fn reset_2d(m: Lattice2DModel) -> Lattice2DModel {
    Lattice2DModel {
        points: Seq::new(m.points.len(), |i: int| zero_point()),
        side: m.side,
        stiffness: m.stiffness,
        time: 0,
    }
}

/// The center index lies inside the grid.
pub proof fn lemma_center_in_range(side: int)
    requires
        side >= 1,
    ensures
        0 <= center_of(side) < side * side,
{
    let c = (side - 1) / 2;
    assert(0 <= c <= side - 1);
    assert(c * side <= (side - 1) * side) by (nonlinear_arith)
        requires
            0 <= c <= side - 1,
            side >= 1,
    ;
    assert((side - 1) * side + side - 1 == side * side - 1) by (nonlinear_arith);
    assert(0 <= c * side) by (nonlinear_arith)
        requires
            0 <= c,
            side >= 1,
    ;
}

/// A square grid of coupled point masses with a driven center, plus the
/// tracer-particle coordinate extent. The host reads positions for rendering
/// and may adjust `stiffness` between steps; `step` and `reset` preserve
/// well-formedness.
pub struct Lattice2D {
    pub points: Vec<PointState>,
    pub side: usize,
    pub stiffness: Fx,
    pub time: Fx,
}

impl View for Lattice2D {
    type V = Lattice2DModel;

    open spec fn view(&self) -> Lattice2DModel {
        Lattice2DModel {
            points: models(self.points@),
            side: self.side as int,
            stiffness: self.stiffness@,
            time: self.time@,
        }
    }
}

impl Lattice2D {
    /// The side is odd so a unique center exists, the storage is exactly
    /// side-by-side, every accumulator is zero between steps, and the driven
    /// center has no dynamics of its own: its velocity stays zero forever.
    pub open spec fn wf(&self) -> bool {
        &&& self.side >= 1
        &&& self.side % 2 == 1
        &&& self.points@.len() == self.side * self.side
        &&& forall|idx: int| 0 <= idx < self.points@.len() ==> (#[trigger] self.points@[idx])@.acc == 0
        &&& self.points@[center_of(self.side as int)]@.vel == 0
    }

    /// A grid of cells all at rest at zero. A requested even side is bumped
    /// by one so that a unique center cell exists. The bound on the request
    /// keeps the cell count within the flat storage's index range.
    pub fn new(requested: usize, stiffness: Fx) -> (r: Lattice2D)
        requires
            requested <= 46339,
        ensures
            r.wf(),
            requested % 2 == 0 ==> r@.side == requested + 1,
            requested % 2 != 0 ==> r@.side == requested as int,
            r@.points.len() == r@.side * r@.side,
            forall|idx: int| 0 <= idx < r@.points.len() ==> r@.points[idx] == zero_point(),
            r@.stiffness == stiffness@,
            r@.time == 0,
    {
        let side = if requested % 2 == 0 { requested + 1 } else { requested };
        proof {
            assert(side * side <= 46340 * 46340) by (nonlinear_arith)
                requires
                    1 <= side <= 46340,
            ;
        }
        let n = side * side;
        let mut points: Vec<PointState> = Vec::new();
        let mut i: usize = 0;
        while i < n
            invariant
                i <= n,
                points@.len() == i,
                forall|j: int| 0 <= j < i ==> (#[trigger] points@[j])@ == zero_point(),
            decreases n - i,
        {
            points.push(PointState::zero());
            i += 1;
        }
        proof {
            lemma_center_in_range(side as int);
        }
        Lattice2D { points, side, stiffness, time: Fx { raw: 0 } }
    }

    /// An exact copy of the grid, taken before the force pass: the
    /// double-buffering that makes the parallel pass race-free.
    fn snapshot(&self) -> (r: Vec<PointState>)
        ensures
            r@ == self.points@,
    {
        let mut r: Vec<PointState> = Vec::new();
        let n = self.points.len();
        let mut i: usize = 0;
        while i < n
            invariant
                i <= n,
                n == self.points@.len(),
                r@.len() == i,
                forall|j: int| 0 <= j < i ==> r@[j] == self.points@[j],
            decreases n - i,
        {
            r.push(self.points[i]);
            i += 1;
        }
        proof {
            assert(r@ =~= self.points@);
        }
        r
    }

    /// One sub-step at the current time: snapshot the grid, compute every
    /// cell's forced state in parallel against the snapshot, integrate every
    /// cell, and advance accumulated time by `dt * frequency`.
    pub fn step(&mut self, drive: Fx, frequency: Fx, damping: Fx)
        requires
            old(self).wf(),
        ensures
            final(self).wf(),
            final(self)@.points =~= step_2d(old(self)@.points, old(self)@.side, old(self)@.stiffness, damping@, drive@),
            final(self)@.points.len() == old(self)@.points.len(),
            final(self)@.side == old(self)@.side,
            final(self)@.stiffness == old(self)@.stiffness,
            final(self)@.time == sat_add(old(self)@.time, sat_mul(FX_DT as int, frequency@)),
            // center-drive fidelity: the center cell ends the step exactly at
            // the drive value
            final(self)@.points[center_of(old(self)@.side)].pos == drive@,
    {
        let ghost orig = self@.points;
        let ghost s = self.side as int;
        let ghost k = self.stiffness@;
        let ghost d = damping@;
        let n = self.points.len();
        let snap = self.snapshot();
        let mut newpts = par_cell_pass(&snap, self.side, n, self.stiffness, damping, drive);
        let mut i: usize = 0;
        while i < n
            invariant
                i <= n,
                newpts@.len() == n,
                orig.len() == n as int,
                forall|idx: int| 0 <= idx < i ==> (#[trigger] newpts@[idx])@ == integrate(forced_2d(orig, s, k, d, drive@, idx)),
                forall|idx: int| i <= idx < n ==> (#[trigger] newpts@[idx])@ == forced_2d(orig, s, k, d, drive@, idx),
            decreases n - i,
        {
            let mut p = newpts[i];
            p.update();
            newpts.set(i, p);
            i += 1;
        }
        self.points = newpts;
        self.time = fx_add(self.time, fx_mul(Fx { raw: FX_DT }, frequency));
        proof {
            assert(self@.points =~= step_2d(orig, s, k, d, drive@));
            lemma_center_in_range(s);
            lemma_sat_mul_zero(FX_DT as int);
            let ctr = center_of(s);
            assert(forced_2d(orig, s, k, d, drive@, ctr).vel == 0);
            assert(forced_2d(orig, s, k, d, drive@, ctr).acc == 0);
            assert(self@.points[ctr] == integrate(forced_2d(orig, s, k, d, drive@, ctr)));
            assert(self@.points[ctr].pos == drive@);
        }
    }

    /// Return every cell to rest at zero and restart accumulated time.
    pub fn reset(&mut self)
        requires
            old(self).wf(),
        ensures
            final(self).wf(),
            final(self)@ == reset_2d(old(self)@),
    {
        let n = self.points.len();
        let mut i: usize = 0;
        while i < n
            invariant
                i <= n,
                n == self.points@.len(),
                self.side == old(self).side,
                self.stiffness == old(self).stiffness,
                forall|j: int| 0 <= j < i ==> (#[trigger] self.points@[j])@ == zero_point(),
            decreases n - i,
        {
            self.points.set(i, PointState::zero());
            i += 1;
        }
        self.time = Fx { raw: 0 };
        proof {
            lemma_center_in_range(self.side as int);
            assert(self@.points =~= reset_2d(old(self)@).points);
        }
    }
}

/// The per-cell work of the force pass, against the immutable snapshot: the
/// center cell is forced to the drive value, every other cell accumulates
/// its axis-neighbor spring forces and the damping term.
pub fn cell_forces(snap: &Vec<PointState>, side: usize, stiffness: Fx, damping: Fx, drive: Fx, idx: usize) -> (r: PointState)
    requires
        side >= 1,
        side % 2 == 1,
        snap@.len() == side * side,
        idx < side * side,
    ensures
        r@ == forced_2d(models(snap@), side as int, stiffness@, damping@, drive@, idx as int),
{
    let ghost ps = models(snap@);
    let ghost s = side as int;
    let ghost x = idx as int;
    let total = snap.len();
    let i = idx / side;
    let j = idx % side;
    let c = (side - 1) / 2;
    proof {
        lemma_fundamental_div_mod(x, s);
        lemma_mod_division_less_than_divisor(x, s);
        lemma_div_pos_is_pos(x, s);
        lemma_multiply_divide_lt(x, s, s);
        assert(x == s * (i as int) + (j as int));
        assert(0 <= (j as int) < s);
        assert(0 <= (i as int) < s);
    }
    let is_center = i == c && j == c;
    proof {
        assert(0 <= (c as int) <= s - 1);
        if i == c && j == c {
            assert(s * (c as int) == (c as int) * s) by (nonlinear_arith);
            assert(x == center_of(s));
        } else if x == center_of(s) {
            assert((c as int) * s + (c as int) == s * (c as int) + (c as int)) by (nonlinear_arith);
            lemma_fundamental_div_mod_converse(x, s, c as int, c as int);
            assert(false);
        }
    }
    let mut p = snap[idx];
    if is_center {
        p.position = drive;
    } else {
        if i != 0 {
            proof {
                assert(s <= x) by (nonlinear_arith)
                    requires
                        x == s * (i as int) + (j as int),
                        1 <= i as int,
                        0 <= j as int,
                        s >= 1,
                ;
            }
            let north = snap[idx - side].position;
            p.acceleration = fx_add(p.acceleration, fx_mul(fx_sub(north, p.position), stiffness));
        }
        if i != side - 1 {
            proof {
                assert(x + s < s * s) by (nonlinear_arith)
                    requires
                        x == s * (i as int) + (j as int),
                        i as int <= s - 2,
                        0 <= (j as int) < s,
                        s >= 1,
                ;
            }
            let south = snap[idx + side].position;
            p.acceleration = fx_add(p.acceleration, fx_mul(fx_sub(south, p.position), stiffness));
        }
        if j != 0 {
            proof {
                assert(1 <= x) by (nonlinear_arith)
                    requires
                        x == s * (i as int) + (j as int),
                        0 <= i as int,
                        1 <= j as int,
                        s >= 1,
                ;
            }
            let west = snap[idx - 1].position;
            p.acceleration = fx_add(p.acceleration, fx_mul(fx_sub(west, p.position), stiffness));
        }
        if j != side - 1 {
            proof {
                assert(x + 1 < s * s) by (nonlinear_arith)
                    requires
                        x == s * (i as int) + (j as int),
                        0 <= (i as int) <= s - 1,
                        0 <= (j as int) <= s - 2,
                        s >= 1,
                ;
            }
            let east = snap[idx + 1].position;
            p.acceleration = fx_add(p.acceleration, fx_mul(fx_sub(east, p.position), stiffness));
        }
        p.acceleration = fx_sub(p.acceleration, fx_mul(p.velocity, damping));
        proof {
            assert(p@.acc == accel_2d(ps, s, stiffness@, damping@, x));
        }
    }
    p
}

/// Relies on rayon's `IndexedParallelIterator`: `collect_into_vec` on a
/// mapped index range fills the vector with the per-index results of the
/// mapped function, in index order. The mapped function reads only the
/// immutable snapshot, so the parallel schedule cannot change its results.
#[verifier::external_body]
fn par_cell_pass(snap: &Vec<PointState>, side: usize, n: usize, stiffness: Fx, damping: Fx, drive: Fx) -> (r: Vec<PointState>)
    requires
        side >= 1,
        side % 2 == 1,
        snap@.len() == side * side,
        n == side * side,
    ensures
        r@.len() == n as int,
        forall|idx: int| 0 <= idx < n ==> (#[trigger] r@[idx])@ == forced_2d(models(snap@), side as int, stiffness@, damping@, drive@, idx),
{
    let mut out: Vec<PointState> = Vec::new();
    (0..n)
        .into_par_iter()
        .map(|idx| cell_forces(snap, side, stiffness, damping, drive, idx))
        .collect_into_vec(&mut out);
    out
}

/// Reset idempotence: resetting a grid twice in a row leaves exactly the
/// state one reset leaves.
pub proof fn lemma_reset_idempotent_2d(m: Lattice2DModel)
    ensures
        reset_2d(reset_2d(m)) == reset_2d(m),
{
    assert(reset_2d(reset_2d(m)).points =~= reset_2d(m).points);
}

/// Trivial equilibrium: a grid at rest at zero, driven with the value zero,
/// is still at rest at zero after a step, whatever the stiffness and damping.
/// By induction this holds over any number of steps.
pub proof fn lemma_zero_equilibrium_2d(ps: Seq<PointModel>, side: int, k: int, damping: int)
    requires
        side >= 1,
        ps.len() == side * side,
        forall|idx: int| 0 <= idx < ps.len() ==> ps[idx] == zero_point(),
    ensures
        forall|idx: int| 0 <= idx < ps.len() ==> #[trigger] step_2d(ps, side, k, damping, 0)[idx] == zero_point(),
{
    assert forall|idx: int| 0 <= idx < ps.len() implies #[trigger] step_2d(ps, side, k, damping, 0)[idx] == zero_point() by {
        lemma_fundamental_div_mod(idx, side);
        lemma_mod_division_less_than_divisor(idx, side);
        lemma_div_pos_is_pos(idx, side);
        lemma_multiply_divide_lt(idx, side, side);
        let i = idx / side;
        let j = idx % side;
        if i != 0 {
            assert(side <= idx) by (nonlinear_arith)
                requires
                    idx == side * i + j,
                    1 <= i,
                    0 <= j,
                    side >= 1,
            ;
        }
        if i != side - 1 {
            assert(idx + side < side * side) by (nonlinear_arith)
                requires
                    idx == side * i + j,
                    i <= side - 2,
                    0 <= j < side,
                    side >= 1,
            ;
        }
        if j != side - 1 {
            assert(idx + 1 < side * side) by (nonlinear_arith)
                requires
                    idx == side * i + j,
                    0 <= i <= side - 1,
                    0 <= j <= side - 2,
                    side >= 1,
            ;
        }
        lemma_sat_mul_zero(k);
        lemma_sat_mul_zero(damping);
        lemma_sat_mul_zero(FX_DT as int);
        assert(accel_2d(ps, side, k, damping, idx) == 0);
        assert(forced_2d(ps, side, k, damping, 0, idx).pos == 0);
        assert(forced_2d(ps, side, k, damping, 0, idx).vel == 0);
        assert(forced_2d(ps, side, k, damping, 0, idx).acc == 0);
    }
}

} // verus!
