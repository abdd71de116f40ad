use chladni::fixed::{Fx, FX_SCALE};
use chladni::point::PointState;
use chladni::lattice1d::Lattice1D;

fn fx(raw: i64) -> Fx {
    Fx { raw }
}

fn units(u: i64) -> Fx {
    Fx { raw: u * FX_SCALE }
}

#[test]
fn update_clears_the_accumulator() {
    let mut p = PointState {
        position: fx(0),
        velocity: fx(0),
        acceleration: units(1024),
    };
    p.update();
    // dt is 1/1024 of a unit: v = 1024 * dt = 1.0, pos = 1.0 * dt
    assert_eq!(p.velocity.raw, FX_SCALE);
    assert_eq!(p.position.raw, 64);
    assert_eq!(p.acceleration.raw, 0);
}

#[test]
fn new_chain_is_at_rest() {
    let chain = Lattice1D::new(7, units(35));
    assert_eq!(chain.points.len(), 7);
    for p in chain.points.iter() {
        assert_eq!(p.position.raw, 0);
        assert_eq!(p.velocity.raw, 0);
        assert_eq!(p.acceleration.raw, 0);
    }
    assert_eq!(chain.stiffness.raw, 35 * FX_SCALE);
    assert_eq!(chain.time.raw, 0);
}

#[test]
fn driven_boundary_tracks_the_drive_value() {
    let mut chain = Lattice1D::new(4, units(35));
    chain.step(fx(32768), units(1), fx(0), false);
    assert_eq!(chain.points[0].position.raw, 32768);
    // time advanced by dt * frequency = 64
    assert_eq!(chain.time.raw, 64);
    chain.step(fx(-12345), units(1), fx(0), false);
    assert_eq!(chain.points[0].position.raw, -12345);
    assert_eq!(chain.time.raw, 128);
}

#[test]
fn clamped_far_end_stays_at_zero() {
    let mut chain = Lattice1D::new(3, units(1024));
    for _ in 0..50 {
        chain.step(units(1), units(1), fx(0), true);
        assert_eq!(chain.points[2].position.raw, 0);
    }
}

#[test]
fn two_point_step_has_exact_values() {
    let mut chain = Lattice1D::new(2, units(1024));
    chain.step(units(1), fx(0), fx(0), false);
    // the driven point sits at the drive, the far point felt one spring pull
    assert_eq!(chain.points[0].position.raw, FX_SCALE);
    assert_eq!(chain.points[0].velocity.raw, 0);
    assert_eq!(chain.points[1].velocity.raw, FX_SCALE);
    assert_eq!(chain.points[1].position.raw, 64);
    assert_eq!(chain.points[1].acceleration.raw, 0);
}

#[test]
fn equilibrium_stays_at_zero() {
    // five points, stiffness 35, no damping, drive frozen at zero
    let mut chain = Lattice1D::new(5, units(35));
    for _ in 0..200 {
        chain.step(fx(0), fx(0), fx(0), false);
    }
    for p in chain.points.iter() {
        assert_eq!(p.position.raw, 0);
        assert_eq!(p.velocity.raw, 0);
        assert_eq!(p.acceleration.raw, 0);
    }
    assert_eq!(chain.time.raw, 0);
}

#[test]
fn reset_twice_equals_reset_once() {
    let mut chain = Lattice1D::new(4, units(35));
    for _ in 0..10 {
        chain.step(units(1), units(2), fx(6553), false);
    }
    chain.reset();
    let once: Vec<(i64, i64, i64)> = chain
        .points
        .iter()
        .map(|p| (p.position.raw, p.velocity.raw, p.acceleration.raw))
        .collect();
    let t_once = chain.time.raw;
    chain.reset();
    let twice: Vec<(i64, i64, i64)> = chain
        .points
        .iter()
        .map(|p| (p.position.raw, p.velocity.raw, p.acceleration.raw))
        .collect();
    assert_eq!(once, twice);
    assert_eq!(t_once, chain.time.raw);
    assert_eq!(t_once, 0);
    for &(pos, vel, acc) in once.iter() {
        assert_eq!(pos, 0);
        assert_eq!(vel, 0);
        assert_eq!(acc, 0);
    }
}

fn energy_of(chain: &Lattice1D) -> f64 {
    let scale = FX_SCALE as f64;
    let k = chain.stiffness.raw as f64 / scale;
    let mut kinetic = 0.0;
    let mut potential = 0.0;
    for p in chain.points.iter() {
        let v = p.velocity.raw as f64 / scale;
        kinetic += 0.5 * v * v;
    }
    for w in chain.points.windows(2) {
        let d = (w[1].position.raw - w[0].position.raw) as f64 / scale;
        potential += 0.5 * k * d * d;
    }
    kinetic + potential
}

#[test]
fn energy_does_not_increase_with_damping_and_no_drive() {
    let mut chain = Lattice1D::new(3, units(35));
    // displace the middle point, leave the rest at equilibrium
    chain.points[1].position = units(1);
    let e0 = energy_of(&chain);
    let mut prev = e0;
    for _ in 0..5000 {
        chain.step(fx(0), fx(0), fx(FX_SCALE / 2), false);
        let e = energy_of(&chain);
        assert!(e <= prev + 1e-3, "energy rose from {prev} to {e}");
        prev = e;
    }
    assert!(prev < e0, "energy did not decay: {e0} -> {prev}");
}
