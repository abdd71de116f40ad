use chladni::fixed::{Fx, FX_SCALE, FX_HALF};
use chladni::lattice2d::Lattice2D;
use chladni::particles::Particle;

fn fx(raw: i64) -> Fx {
    Fx { raw }
}

fn units(u: i64) -> Fx {
    Fx { raw: u * FX_SCALE }
}

#[test]
fn an_even_request_is_bumped_to_odd() {
    let plate = Lattice2D::new(4, units(200));
    assert_eq!(plate.side, 5);
    assert_eq!(plate.points.len(), 25);
    let plate = Lattice2D::new(3, units(200));
    assert_eq!(plate.side, 3);
    assert_eq!(plate.points.len(), 9);
}

#[test]
fn zero_plate_stays_at_zero() {
    // side 3: one center, one ring of 8; drive frozen at zero, no damping
    let mut plate = Lattice2D::new(3, units(200));
    plate.step(fx(0), fx(0), fx(0));
    for p in plate.points.iter() {
        assert_eq!(p.position.raw, 0);
        assert_eq!(p.velocity.raw, 0);
        assert_eq!(p.acceleration.raw, 0);
    }
    assert_eq!(plate.time.raw, 0);
}

#[test]
fn center_cell_tracks_the_drive_value() {
    let mut plate = Lattice2D::new(3, units(200));
    plate.step(fx(49152), units(1), fx(0));
    assert_eq!(plate.points[4].position.raw, 49152);
    assert_eq!(plate.time.raw, 64);
    plate.step(fx(-98304), units(1), fx(0));
    assert_eq!(plate.points[4].position.raw, -98304);
    assert_eq!(plate.time.raw, 128);
}

#[test]
fn two_steps_propagate_to_the_center_neighbors_exactly() {
    let mut plate = Lattice2D::new(3, units(1024));
    plate.step(units(1), fx(0), fx(0));
    // after one step only the center moved
    for (idx, p) in plate.points.iter().enumerate() {
        if idx == 4 {
            assert_eq!(p.position.raw, FX_SCALE);
        } else {
            assert_eq!(p.position.raw, 0);
        }
        assert_eq!(p.acceleration.raw, 0);
    }
    plate.step(units(1), fx(0), fx(0));
    // the four axis neighbors of the center felt one spring pull each
    for (idx, p) in plate.points.iter().enumerate() {
        match idx {
            4 => {
                assert_eq!(p.position.raw, FX_SCALE);
                assert_eq!(p.velocity.raw, 0);
            }
            1 | 3 | 5 | 7 => {
                assert_eq!(p.velocity.raw, FX_SCALE);
                assert_eq!(p.position.raw, 64);
            }
            _ => {
                assert_eq!(p.position.raw, 0);
                assert_eq!(p.velocity.raw, 0);
            }
        }
        assert_eq!(p.acceleration.raw, 0);
    }
}

#[test]
fn plate_reset_twice_equals_reset_once() {
    let mut plate = Lattice2D::new(3, units(200));
    for _ in 0..5 {
        plate.step(units(1), units(3), fx(500));
    }
    plate.reset();
    let once: Vec<i64> = plate.points.iter().map(|p| p.position.raw).collect();
    let t_once = plate.time.raw;
    plate.reset();
    let twice: Vec<i64> = plate.points.iter().map(|p| p.position.raw).collect();
    assert_eq!(once, twice);
    assert_eq!(t_once, plate.time.raw);
    assert_eq!(t_once, 0);
    for p in plate.points.iter() {
        assert_eq!(p.position.raw, 0);
        assert_eq!(p.velocity.raw, 0);
        assert_eq!(p.acceleration.raw, 0);
    }
}

#[test]
fn edge_interpolation_uses_only_the_cell_itself() {
    let mut plate = Lattice2D::new(3, units(200));
    // the corner cell holds -3.0; its magnitude is 3.0
    plate.points[0].position = units(-3);
    // both offsets at (0.25, 0.25) point off the grid
    let amp = plate.interpolate(fx(16384), fx(16384));
    assert_eq!(amp.raw, 3 * FX_SCALE);
}

#[test]
fn interior_interpolation_blends_both_axes_exactly() {
    let mut plate = Lattice2D::new(3, units(200));
    // cell (1,1) holds 1.0, cell (2,1) holds 2.0, cell (1,0) holds 4.0
    plate.points[4].position = units(1);
    plate.points[7].position = units(2);
    plate.points[3].position = units(4);
    // coordinate (1.75, 1.25): x blends (1,1) with (2,1) at distance 0.25,
    // y blends (1,1) with (1,0) at distance 0.25; the average is 2.5
    let amp = plate.interpolate(fx(114688), fx(81920));
    assert_eq!(amp.raw, 163840);
}

#[test]
fn advection_displaces_by_the_scaled_amplitude() {
    let mut plate = Lattice2D::new(3, units(200));
    plate.points[4].position = units(1);
    plate.points[7].position = units(2);
    plate.points[3].position = units(4);
    let mut p = Particle { x: fx(114688), y: fx(81920) };
    // amplitude there is 2.5; factors 0.125 and -0.125 move by +-0.3125
    plate.advect_particle(&mut p, fx(8192), fx(-8192));
    assert_eq!(p.x.raw, 135168);
    assert_eq!(p.y.raw, 61440);
}

#[test]
fn advection_on_a_quiet_field_leaves_the_tracer_in_place() {
    let plate = Lattice2D::new(3, units(200));
    let mut p = Particle { x: fx(100000), y: fx(120000) };
    // the field is all zero, so even a full-unit factor moves nothing
    plate.advect_particle(&mut p, units(1), units(-1));
    assert_eq!(p.x.raw, 100000);
    assert_eq!(p.y.raw, 120000);
    // and the drawn-factor variant cannot move it either
    plate.advect_particle_random(&mut p);
    assert_eq!(p.x.raw, 100000);
    assert_eq!(p.y.raw, 120000);
}

#[test]
fn advection_clamps_to_the_tracer_extent() {
    let mut plate = Lattice2D::new(3, units(200));
    // a huge magnitude everywhere near the corner
    plate.points[0].position = units(1000);
    let lo = FX_HALF;
    let hi = 3 * FX_SCALE - FX_HALF;
    let mut p = Particle { x: fx(40000), y: fx(40000) };
    plate.advect_particle(&mut p, units(1), units(-1));
    assert_eq!(p.x.raw, hi);
    assert_eq!(p.y.raw, lo);
}

#[test]
fn parallel_advection_keeps_every_tracer_in_the_extent() {
    let mut plate = Lattice2D::new(9, units(50000));
    // shake the plate a little so amplitudes are nonzero
    for _ in 0..20 {
        plate.step(units(1), units(2), fx(0));
    }
    let lo = FX_HALF;
    let hi = 9 * FX_SCALE - FX_HALF;
    let mut tracers: Vec<Particle> = Vec::new();
    for i in 0..500i64 {
        let c = lo + (i * 1117) % (hi - lo);
        tracers.push(Particle { x: fx(c), y: fx(hi - (c - lo)) });
    }
    for _ in 0..10 {
        plate.advect_particles(&mut tracers);
        for t in tracers.iter() {
            assert!(lo <= t.x.raw && t.x.raw <= hi);
            assert!(lo <= t.y.raw && t.y.raw <= hi);
        }
    }
    assert_eq!(tracers.len(), 500);
}
