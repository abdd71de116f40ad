//! Field interpolation: an approximate local wave amplitude at a continuous
//! grid coordinate, used by particle advection.
//!
//! The amplitude is the average of two one-axis linear blends of neighboring
//! cells' absolute positions — not a full bilinear blend. At a grid edge a
//! blend degenerates to the cell's own magnitude: there is no wraparound and
//! no extrapolation past the boundary.

use vstd::prelude::*;
use crate::fixed::{
    Fx, FX_SCALE, FX_HALF, fx_add, fx_sub, fx_mul, fx_abs, fx_half_nonneg, fx_floor_nonneg,
    fx_frac_nonneg, sat_add, sat_sub, sat_mul, sat_abs, lemma_sat_mul_nonneg,
};
use crate::point::PointModel;
use crate::lattice2d::Lattice2D;

verus! {

use vstd::arithmetic::div_mod::{lemma_multiply_divide_lt, lemma_div_pos_is_pos};

/// The absolute position-magnitude of cell `(cx, cy)`.
pub open spec fn cell_mag(ps: Seq<PointModel>, side: int, cx: int, cy: int) -> int {
    sat_abs(ps[cx * side + cy].pos)
}

/// A linear blend of a cell's own magnitude with one neighbor's: the own
/// magnitude weighted by the fractional distance `dist` (raw, toward the
/// neighbor), the neighbor's by its complement to one unit.
pub open spec fn blend(own: int, nb: int, dist: int) -> int {
    sat_add(sat_mul(own, dist), sat_mul(nb, sat_sub(FX_SCALE as int, dist)))
}

/// The one-axis blend along x at cell `(xg, yg)` with fractional offset
/// `off` in `[-FX_HALF, FX_HALF)`: blend with the x-neighbor the offset
/// points at, or the cell's own magnitude when that neighbor is off the grid.
pub open spec fn xblend(ps: Seq<PointModel>, side: int, xg: int, yg: int, off: int) -> int {
    if off < 0 {
        if xg == 0 {
            cell_mag(ps, side, xg, yg)
        } else {
            blend(cell_mag(ps, side, xg, yg), cell_mag(ps, side, xg - 1, yg), -off)
        }
    } else {
        if xg == side - 1 {
            cell_mag(ps, side, xg, yg)
        } else {
            blend(cell_mag(ps, side, xg, yg), cell_mag(ps, side, xg + 1, yg), off)
        }
    }
}

/// The one-axis blend along y, symmetric to `xblend`.
pub open spec fn yblend(ps: Seq<PointModel>, side: int, xg: int, yg: int, off: int) -> int {
    if off < 0 {
        if yg == 0 {
            cell_mag(ps, side, xg, yg)
        } else {
            blend(cell_mag(ps, side, xg, yg), cell_mag(ps, side, xg, yg - 1), -off)
        }
    } else {
        if yg == side - 1 {
            cell_mag(ps, side, xg, yg)
        } else {
            blend(cell_mag(ps, side, xg, yg), cell_mag(ps, side, xg, yg + 1), off)
        }
    }
}

/// The interpolated amplitude at raw coordinate `(x, y)`: the average of the
/// two one-axis blends, each taken at the containing cell with that axis's
/// own fractional offset.
pub open spec fn interp_at(ps: Seq<PointModel>, side: int, x: int, y: int) -> int {
    let xg = x / (FX_SCALE as int);
    let yg = y / (FX_SCALE as int);
    let offx = x % (FX_SCALE as int) - FX_HALF as int;
    let offy = y % (FX_SCALE as int) - FX_HALF as int;
    sat_add(xblend(ps, side, xg, yg, offx), yblend(ps, side, xg, yg, offy)) / 2
}

impl Lattice2D {
    /// The absolute position-magnitude of one cell.
    fn cell_mag_at(&self, cx: usize, cy: usize) -> (r: Fx)
        requires
            self.wf(),
            cx < self.side,
            cy < self.side,
        ensures
            r@ == cell_mag(self@.points, self@.side, cx as int, cy as int),
            r@ >= 0,
    {
        let n = self.points.len();
        proof {
            assert((cx as int) * (self.side as int) + (cy as int) < (self.side as int) * (self.side as int))
                by (nonlinear_arith)
                requires
                    (cx as int) <= (self.side as int) - 1,
                    (cy as int) < (self.side as int),
                    self.side as int >= 1,
            ;
            assert(0 <= (cx as int) * (self.side as int)) by (nonlinear_arith)
                requires
                    0 <= cx as int,
                    0 <= self.side as int,
            ;
        }
        fx_abs(self.points[cx * self.side + cy].position)
    }

    /// The approximate local wave amplitude at a continuous grid coordinate:
    /// locate the containing cell by flooring, take each axis's fractional
    /// offset in `[-1/2, 1/2)`, blend the cell's absolute position with the
    /// neighbor each offset points at (edge cells use their own magnitude),
    /// and average the two blends. The result is non-negative.
    pub fn interpolate(&self, x: Fx, y: Fx) -> (r: Fx)
        requires
            self.wf(),
            0 <= x@ < self@.side * (FX_SCALE as int),
            0 <= y@ < self@.side * (FX_SCALE as int),
        ensures
            r@ == interp_at(self@.points, self@.side, x@, y@),
            r@ >= 0,
    {
        let ghost ps = self@.points;
        let ghost s = self.side as int;
        let xg64 = fx_floor_nonneg(x);
        let yg64 = fx_floor_nonneg(y);
        proof {
            lemma_multiply_divide_lt(x@, FX_SCALE as int, s);
            lemma_multiply_divide_lt(y@, FX_SCALE as int, s);
            lemma_div_pos_is_pos(x@, FX_SCALE as int);
            lemma_div_pos_is_pos(y@, FX_SCALE as int);
        }
        let xg = xg64 as usize;
        let yg = yg64 as usize;
        let offx = fx_sub(fx_frac_nonneg(x), Fx { raw: FX_HALF });
        let offy = fx_sub(fx_frac_nonneg(y), Fx { raw: FX_HALF });
        proof {
            assert(offx@ == x@ % (FX_SCALE as int) - FX_HALF as int);
            assert(offy@ == y@ % (FX_SCALE as int) - FX_HALF as int);
        }
        let xb = if offx.raw < 0 {
            if xg == 0 {
                self.cell_mag_at(xg, yg)
            } else {
                let dist = fx_abs(offx);
                let own = self.cell_mag_at(xg, yg);
                let nb = self.cell_mag_at(xg - 1, yg);
                fx_add(fx_mul(own, dist), fx_mul(nb, fx_sub(Fx { raw: FX_SCALE }, dist)))
            }
        } else {
            if xg == self.side - 1 {
                self.cell_mag_at(xg, yg)
            } else {
                let dist = offx;
                let own = self.cell_mag_at(xg, yg);
                let nb = self.cell_mag_at(xg + 1, yg);
                fx_add(fx_mul(own, dist), fx_mul(nb, fx_sub(Fx { raw: FX_SCALE }, dist)))
            }
        };
        proof {
            assert(xb@ == xblend(ps, s, xg as int, yg as int, offx@));
            if offx@ < 0 && xg as int != 0 {
                lemma_sat_mul_nonneg(cell_mag(ps, s, xg as int, yg as int), -offx@);
                lemma_sat_mul_nonneg(cell_mag(ps, s, xg as int - 1, yg as int), sat_sub(FX_SCALE as int, -offx@));
            }
            if offx@ >= 0 && xg as int != s - 1 {
                lemma_sat_mul_nonneg(cell_mag(ps, s, xg as int, yg as int), offx@);
                lemma_sat_mul_nonneg(cell_mag(ps, s, xg as int + 1, yg as int), sat_sub(FX_SCALE as int, offx@));
            }
            assert(xb@ >= 0);
        }
        let yb = if offy.raw < 0 {
            if yg == 0 {
                self.cell_mag_at(xg, yg)
            } else {
                let dist = fx_abs(offy);
                let own = self.cell_mag_at(xg, yg);
                let nb = self.cell_mag_at(xg, yg - 1);
                fx_add(fx_mul(own, dist), fx_mul(nb, fx_sub(Fx { raw: FX_SCALE }, dist)))
            }
        } else {
            if yg == self.side - 1 {
                self.cell_mag_at(xg, yg)
            } else {
                let dist = offy;
                let own = self.cell_mag_at(xg, yg);
                let nb = self.cell_mag_at(xg, yg + 1);
                fx_add(fx_mul(own, dist), fx_mul(nb, fx_sub(Fx { raw: FX_SCALE }, dist)))
            }
        };
        proof {
            assert(yb@ == yblend(ps, s, xg as int, yg as int, offy@));
            if offy@ < 0 && yg as int != 0 {
                lemma_sat_mul_nonneg(cell_mag(ps, s, xg as int, yg as int), -offy@);
                lemma_sat_mul_nonneg(cell_mag(ps, s, xg as int, yg as int - 1), sat_sub(FX_SCALE as int, -offy@));
            }
            if offy@ >= 0 && yg as int != s - 1 {
                lemma_sat_mul_nonneg(cell_mag(ps, s, xg as int, yg as int), offy@);
                lemma_sat_mul_nonneg(cell_mag(ps, s, xg as int, yg as int + 1), sat_sub(FX_SCALE as int, offy@));
            }
            assert(yb@ >= 0);
        }
        let amp = fx_add(xb, yb);
        fx_half_nonneg(amp)
    }
}

/// Interpolation on an edge cell, with both fractional offsets pointing off
/// the grid, returns that cell's own magnitude exactly: missing outside
/// neighbors contribute nothing. (The magnitude must leave headroom for the
/// sum of the two blends, which the final halving undoes again.)
pub proof fn lemma_interpolate_edge(ps: Seq<PointModel>, side: int, x: int, y: int)
    requires
        side >= 1,
        ({
            let xg = x / (FX_SCALE as int);
            let offx = x % (FX_SCALE as int) - FX_HALF as int;
            (offx < 0 && xg == 0) || (offx >= 0 && xg == side - 1)
        }),
        ({
            let yg = y / (FX_SCALE as int);
            let offy = y % (FX_SCALE as int) - FX_HALF as int;
            (offy < 0 && yg == 0) || (offy >= 0 && yg == side - 1)
        }),
        2 * cell_mag(ps, side, x / (FX_SCALE as int), y / (FX_SCALE as int)) <= i64::MAX as int,
    ensures
        interp_at(ps, side, x, y) == cell_mag(ps, side, x / (FX_SCALE as int), y / (FX_SCALE as int)),
{
    let xg = x / (FX_SCALE as int);
    let yg = y / (FX_SCALE as int);
    let offx = x % (FX_SCALE as int) - FX_HALF as int;
    let offy = y % (FX_SCALE as int) - FX_HALF as int;
    let own = cell_mag(ps, side, xg, yg);
    assert(xblend(ps, side, xg, yg, offx) == own);
    assert(yblend(ps, side, xg, yg, offy) == own);
    assert(sat_add(own, own) == 2 * own);
    assert((2 * own) / 2 == own);
}

} // verus!
