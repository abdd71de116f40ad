//! A linear chain of point masses coupled by springs, with a driven boundary.
//!
//! Index 0 is the driven boundary: each step forces its position directly to
//! the current value of the forcing function, which the host evaluates and
//! passes in. The far end is either free or clamped to zero.

use vstd::prelude::*;
use crate::fixed::{
    Fx, FX_DT, fx_add, fx_sub, fx_mul, sat_add, sat_sub, sat_mul, abs_int,
    lemma_sat_mul_zero, lemma_damping_step_shrinks,
};
use crate::point::{PointState, PointModel, integrate, models, zero_point};

verus! {

/// The mathematical model of a chain: point models plus the scalar
/// parameters, all as unbounded integers over raw fixed-point values.
pub ghost struct Lattice1DModel {
    pub points: Seq<PointModel>,
    pub stiffness: int,
    pub time: int,
}

/// The position a point shows while forces are being accumulated: the driven
/// boundary has already been overwritten with the drive value, every other
/// point still holds its pre-step position.
pub open spec fn driven_pos(ps: Seq<PointModel>, drive: int, i: int) -> int {
    if i == 0 {
        drive
    } else {
        ps[i].pos
    }
}

/// The accumulator after the right-neighbor spring alone, which interior
/// points receive first.
pub open spec fn accel_seed(ps: Seq<PointModel>, k: int, drive: int, i: int, n: int) -> int {
    if i != n - 1 {
        sat_add(ps[i].acc, sat_mul(sat_sub(driven_pos(ps, drive, i + 1), driven_pos(ps, drive, i)), k))
    } else {
        ps[i].acc
    }
}

/// The acceleration accumulated into point `i` during the force pass, in
/// accumulation order: the spring to the right neighbor (interior points
/// only), then the spring to the left neighbor and the viscous damping term
/// (every point except the driven boundary).
pub open spec fn accel_1d(ps: Seq<PointModel>, k: int, damping: int, drive: int, i: int) -> int {
    let n = ps.len() as int;
    if i == 0 {
        ps[0].acc
    } else {
        let a2 = sat_add(
            accel_seed(ps, k, drive, i, n),
            sat_mul(sat_sub(driven_pos(ps, drive, i - 1), driven_pos(ps, drive, i)), k),
        );
        sat_sub(a2, sat_mul(ps[i].vel, damping))
    }
}

/// Point `i` after the force pass and before integration.
pub open spec fn forced_1d(ps: Seq<PointModel>, k: int, damping: int, drive: int, i: int) -> PointModel {
    if i == 0 {
        PointModel { pos: drive, vel: ps[0].vel, acc: ps[0].acc }
    } else {
        PointModel { pos: ps[i].pos, vel: ps[i].vel, acc: accel_1d(ps, k, damping, drive, i) }
    }
}

/// One full sub-step of the chain: force pass, integration of every point,
/// then the optional clamp of the far end to zero.
pub open spec fn step_1d(ps: Seq<PointModel>, k: int, damping: int, drive: int, clamp_far_end: bool) -> Seq<PointModel> {
    let n = ps.len() as int;
    let integrated = Seq::new(ps.len(), |i: int| integrate(forced_1d(ps, k, damping, drive, i)));
    if clamp_far_end {
        let last = integrated[n - 1];
        integrated.update(n - 1, PointModel { pos: 0, vel: last.vel, acc: last.acc })
    } else {
        integrated
    }
}

/// A chain's state after a reset: every point all-zero, the time origin back
/// at zero, the stiffness untouched.
pub open spec fn reset_1d(m: Lattice1DModel) -> Lattice1DModel {
    Lattice1DModel {
        points: Seq::new(m.points.len(), |i: int| zero_point()),
        stiffness: m.stiffness,
        time: 0,
    }
}

/// A linear chain of coupled point masses. The host reads positions for
/// rendering and may adjust `stiffness` between steps; `step` and `reset`
/// preserve well-formedness.
pub struct Lattice1D {
    pub points: Vec<PointState>,
    pub stiffness: Fx,
    pub time: Fx,
}

impl View for Lattice1D {
    type V = Lattice1DModel;

    open spec fn view(&self) -> Lattice1DModel {
        Lattice1DModel {
            points: models(self.points@),
            stiffness: self.stiffness@,
            time: self.time@,
        }
    }
}

impl Lattice1D {
    /// Between steps every accumulator is zero, and the driven boundary has
    /// no dynamics of its own: its velocity stays zero forever.
    pub open spec fn wf(&self) -> bool {
        &&& self.points@.len() >= 1
        &&& forall|i: int| 0 <= i < self.points@.len() ==> (#[trigger] self.points@[i])@.acc == 0
        &&& self.points@[0]@.vel == 0
    }

    /// A chain of `count` points, all at rest at zero.
    pub fn new(count: usize, stiffness: Fx) -> (r: Lattice1D)
        requires
            count >= 1,
        ensures
            r.wf(),
            r@.points.len() == count,
            forall|i: int| 0 <= i < count ==> r@.points[i] == zero_point(),
            r@.stiffness == stiffness@,
            r@.time == 0,
    {
        let mut points: Vec<PointState> = Vec::new();
        let mut i: usize = 0;
        while i < count
            invariant
                i <= count,
                points@.len() == i,
                forall|j: int| 0 <= j < i ==> (#[trigger] points@[j])@ == zero_point(),
            decreases count - i,
        {
            points.push(PointState::zero());
            i += 1;
        }
        Lattice1D { points, stiffness, time: Fx { raw: 0 } }
    }

    /// One sub-step at the current time: force the driven boundary to the
    /// host-evaluated drive value, accumulate spring and damping forces from
    /// pre-update neighbor positions, integrate every point, clamp the far
    /// end if asked, and advance accumulated time by `dt * frequency`.
    pub fn step(&mut self, drive: Fx, frequency: Fx, damping: Fx, clamp_far_end: bool)
        requires
            old(self).wf(),
        ensures
            final(self).wf(),
            final(self)@.points =~= step_1d(old(self)@.points, old(self)@.stiffness, damping@, drive@, clamp_far_end),
            final(self)@.points.len() == old(self)@.points.len(),
            final(self)@.stiffness == old(self)@.stiffness,
            final(self)@.time == sat_add(old(self)@.time, sat_mul(FX_DT as int, frequency@)),
            // driven-boundary fidelity: the boundary ends the step exactly at
            // the drive value (unless it is also the clamped far end)
            old(self)@.points.len() > 1 || !clamp_far_end ==> final(self)@.points[0].pos == drive@,
            // clamped-end invariant
            clamp_far_end ==> final(self)@.points[final(self)@.points.len() - 1].pos == 0,
    {
        let ghost orig = self@.points;
        let ghost k = self.stiffness@;
        let ghost d = damping@;
        let n = self.points.len();
        let mut i: usize = 0;
        while i < n
            invariant
                n == self.points@.len(),
                n >= 1,
                i <= n,
                orig.len() == n as int,
                k == self.stiffness@,
                d == damping@,
                self.time == old(self).time,
                forall|j: int| 0 <= j < i ==> (#[trigger] self.points@[j])@ == forced_1d(orig, k, d, drive@, j),
                forall|j: int| i <= j < n ==> (#[trigger] self.points@[j])@ == orig[j],
            decreases n - i,
        {
            if i == 0 {
                let mut p = self.points[0];
                p.position = drive;
                self.points.set(0, p);
            } else {
                if i != n - 1 {
                    let mut p = self.points[i];
                    let right = self.points[i + 1].position;
                    p.acceleration = fx_add(p.acceleration, fx_mul(fx_sub(right, p.position), self.stiffness));
                    self.points.set(i, p);
                }
                let mut p = self.points[i];
                let left = self.points[i - 1].position;
                proof {
                    assert(p.acceleration@ == accel_seed(orig, k, drive@, i as int, n as int));
                }
                p.acceleration = fx_add(p.acceleration, fx_mul(fx_sub(left, p.position), self.stiffness));
                p.acceleration = fx_sub(p.acceleration, fx_mul(p.velocity, damping));
                self.points.set(i, p);
                proof {
                    assert(self.points@[i as int]@ == forced_1d(orig, k, d, drive@, i as int));
                }
            }
            i += 1;
        }
        let mut i: usize = 0;
        while i < n
            invariant
                n == self.points@.len(),
                i <= n,
                orig.len() == n as int,
                k == self.stiffness@,
                d == damping@,
                self.time == old(self).time,
                forall|j: int| 0 <= j < i ==> (#[trigger] self.points@[j])@ == integrate(forced_1d(orig, k, d, drive@, j)),
                forall|j: int| i <= j < n ==> (#[trigger] self.points@[j])@ == forced_1d(orig, k, d, drive@, j),
            decreases n - i,
        {
            let mut p = self.points[i];
            p.update();
            self.points.set(i, p);
            i += 1;
        }
        if clamp_far_end {
            let mut p = self.points[n - 1];
            p.position = Fx { raw: 0 };
            self.points.set(n - 1, p);
        }
        self.time = fx_add(self.time, fx_mul(Fx { raw: FX_DT }, frequency));
    }

    /// Return every point to rest at zero and restart accumulated time.
    pub fn reset(&mut self)
        requires
            old(self).wf(),
        ensures
            final(self).wf(),
            final(self)@ == reset_1d(old(self)@),
    {
        let n = self.points.len();
        let mut i: usize = 0;
        while i < n
            invariant
                n == self.points@.len(),
                n >= 1,
                i <= n,
                self.stiffness == old(self).stiffness,
                forall|j: int| 0 <= j < i ==> (#[trigger] self.points@[j])@ == zero_point(),
            decreases n - i,
        {
            self.points.set(i, PointState::zero());
            i += 1;
        }
        self.time = Fx { raw: 0 };
        proof {
            assert(self@.points =~= reset_1d(old(self)@).points);
        }
    }
}

/// Reset idempotence: resetting a chain twice in a row leaves exactly the
/// state one reset leaves.
pub proof fn lemma_reset_idempotent_1d(m: Lattice1DModel)
    ensures
        reset_1d(reset_1d(m)) == reset_1d(m),
{
    assert(reset_1d(reset_1d(m)).points =~= reset_1d(m).points);
}

/// Trivial equilibrium: a chain at rest at zero, driven with the value zero,
/// is still at rest at zero after a step, whatever the stiffness, damping and
/// boundary mode. By induction this holds over any number of steps.
pub proof fn lemma_zero_equilibrium_1d(ps: Seq<PointModel>, k: int, damping: int, clamp_far_end: bool)
    requires
        ps.len() >= 1,
        forall|i: int| 0 <= i < ps.len() ==> ps[i] == zero_point(),
    ensures
        forall|i: int| 0 <= i < ps.len() ==> #[trigger] step_1d(ps, k, damping, 0, clamp_far_end)[i] == zero_point(),
{
    assert forall|i: int| 0 <= i < ps.len() implies #[trigger] step_1d(ps, k, damping, 0, clamp_far_end)[i] == zero_point() by {
        lemma_sat_mul_zero(k);
        lemma_sat_mul_zero(damping);
        lemma_sat_mul_zero(FX_DT as int);
        assert(forced_1d(ps, k, damping, 0, i).pos == 0);
        assert(forced_1d(ps, k, damping, 0, i).vel == 0);
        assert(forced_1d(ps, k, damping, 0, i).acc == 0);
    }
}


/// The total kinetic energy of a chain, in raw units squared: the sum of the
/// squared velocities (every point has unit mass).
pub open spec fn kinetic_1d(ps: Seq<PointModel>) -> int
    decreases ps.len(),
{
    if ps.len() == 0 {
        0
    } else {
        ps[0].vel * ps[0].vel + kinetic_1d(ps.subrange(1, ps.len() as int))
    }
}

/// A square never grows when the base's magnitude shrinks.
proof fn lemma_sq_le(x: int, y: int)
    requires
        abs_int(x) <= abs_int(y),
    ensures
        x * x <= y * y,
{
    let u = abs_int(x);
    let w = abs_int(y);
    assert(x * x == u * u) by (nonlinear_arith)
        requires
            x == u || x == -u,
    ;
    assert(y * y == w * w) by (nonlinear_arith)
        requires
            y == w || y == -w,
    ;
    assert(u * u <= w * w) by (nonlinear_arith)
        requires
            0 <= u <= w,
    ;
}

/// Pointwise smaller velocity magnitudes give no more kinetic energy.
proof fn lemma_kinetic_le(a: Seq<PointModel>, b: Seq<PointModel>)
    requires
        a.len() == b.len(),
        forall|i: int| 0 <= i < a.len() ==> abs_int(#[trigger] a[i].vel) <= abs_int(b[i].vel),
    ensures
        kinetic_1d(a) <= kinetic_1d(b),
    decreases a.len(),
{
    if a.len() > 0 {
        lemma_sq_le(a[0].vel, b[0].vel);
        let ta = a.subrange(1, a.len() as int);
        let tb = b.subrange(1, b.len() as int);
        assert(forall|i: int| 0 <= i < ta.len() ==> abs_int(#[trigger] ta[i].vel) <= abs_int(tb[i].vel));
        lemma_kinetic_le(ta, tb);
    }
}

/// Energy non-increase, in the regime where it holds exactly: for a chain of
/// uncoupled points (zero stiffness, so all energy is kinetic), with zero
/// drive amplitude, accumulators clear, and a damping coefficient of at most
/// one unit per timestep, one step never increases the total kinetic energy.
/// (With positive stiffness the discrete step can overshoot, so there only a
/// toleranced form of energy decay holds.)
pub proof fn lemma_damped_chain_dissipates(ps: Seq<PointModel>, damping: int, clamp_far_end: bool)
    requires
        ps.len() >= 1,
        0 <= damping <= 67108864,
        forall|i: int| 0 <= i < ps.len() ==> (#[trigger] ps[i]).acc == 0,
        forall|i: int| 0 <= i < ps.len() ==> i64::MIN as int <= (#[trigger] ps[i]).vel <= i64::MAX as int,
    ensures
        kinetic_1d(step_1d(ps, 0, damping, 0, clamp_far_end)) <= kinetic_1d(ps),
{
    let stepped = step_1d(ps, 0, damping, 0, clamp_far_end);
    assert(stepped.len() == ps.len());
    assert forall|i: int| 0 <= i < stepped.len() implies abs_int(#[trigger] stepped[i].vel) <= abs_int(ps[i].vel) by {
        lemma_sat_mul_zero(sat_sub(driven_pos(ps, 0, i + 1), driven_pos(ps, 0, i)));
        lemma_sat_mul_zero(sat_sub(driven_pos(ps, 0, i - 1), driven_pos(ps, 0, i)));
        lemma_sat_mul_zero(FX_DT as int);
        if i == 0 {
            assert(forced_1d(ps, 0, damping, 0, 0).acc == 0);
            assert(stepped[0].vel == ps[0].vel);
        } else {
            assert(accel_1d(ps, 0, damping, 0, i) == sat_sub(0, sat_mul(ps[i].vel, damping)));
            lemma_damping_step_shrinks(ps[i].vel, damping);
        }
    };
    lemma_kinetic_le(stepped, ps);
}

} // verus!
