use three_body::sim::simulate;
use three_body::sim::Body;
use three_body::sim::Position;
use three_body::sim::Step;
use three_body::sim::GRAVITATIONAL_CONSTANT_BITS;
use three_body::sim::UNIT_MASS_BITS;
use three_body::sim::ZERO_BITS;

fn pos(x: f64, y: f64) -> Position {
    Position {
        x: x.to_bits(),
        y: y.to_bits(),
    }
}

fn initial_step() -> Step {
    let first = Body::new(pos(0.3089693008, 0.4236727692));
    let second = Body::new(pos(-0.5, 0.0));
    let third = Body::new(pos(0.5, 0.0));
    Step::new(first, second, third)
}

/// The simulation derives the force direction from the displacement
/// components directly, where the reference values were produced through
/// the angle; the two agree to within about a unit in the last place, so
/// coordinates are compared with a relative tolerance of one part in 1e15.
fn close(a: f64, b: f64) {
    if a == b {
        return;
    }
    let scale = a.abs().max(b.abs()).max(1e-300);
    let rel = (a - b).abs() / scale;
    assert!(
        rel <= 1e-15,
        "value {:e} is not close to the expected {:e} (relative error {:e})",
        a,
        b,
        rel
    );
}

fn check_body(body: &Body, px: f64, py: f64, vx: f64, vy: f64) {
    assert_eq!(body.mass, 1.0f64.to_bits());
    close(f64::from_bits(body.position.x), px);
    close(f64::from_bits(body.position.y), py);
    close(f64::from_bits(body.velocity.x), vx);
    close(f64::from_bits(body.velocity.y), vy);
}

#[test]
fn test_simulate() {
    let steps = simulate(initial_step(), 5, 0.5f64.to_bits());

    assert_eq!(steps.len(), 5);
    for (i, step) in steps.iter().enumerate() {
        assert_eq!(step.step, i as u32);
        assert_eq!(step.time, (i as f64 * 0.5).to_bits());
    }

    check_body(
        &steps[0].bodies[0],
        0.30896930081402885,
        0.423672769120293,
        2.8057636600640765e-11,
        -1.5941407464626255e-10,
    );
    check_body(
        &steps[0].bodies[1],
        -0.49999999996558936,
        9.282862773097892e-12,
        6.882126950562697e-11,
        1.8565725546195783e-11,
    );
    check_body(
        &steps[0].bodies[2],
        0.4999999999515605,
        7.042417455003339e-11,
        -9.687890610626773e-11,
        1.4084834910006679e-10,
    );

    check_body(
        &steps[1].bodies[0],
        0.30896930084208646,
        0.4236727689608789,
        5.611527324112887e-11,
        -3.188281493901134e-10,
    );
    check_body(
        &steps[1].bodies[1],
        -0.4999999998967681,
        2.784858832017373e-11,
        1.3764253902280134e-10,
        3.713145109415168e-11,
    );
    check_body(
        &steps[1].bodies[2],
        0.49999999985468163,
        2.1127252369801421e-10,
        -1.937578122639302e-10,
        2.8169669829596167e-10,
    );

    check_body(
        &steps[2].bodies[0],
        0.3089693008841729,
        0.4236727687217578,
        8.417290996131172e-11,
        -4.782422243291407e-10,
    );
    check_body(
        &steps[2].bodies[1],
        -0.49999999979353615,
        5.569717664298761e-11,
        2.0646380856307043e-10,
        5.569717664562777e-11,
    );
    check_body(
        &steps[2].bodies[2],
        0.49999999970936326,
        4.2254504753977065e-10,
        -2.906367185243821e-10,
        4.225450476835129e-10,
    );

    check_body(
        &steps[3].bodies[0],
        0.3089693009402882,
        0.42367276840292967,
        1.1223054680103672e-10,
        -6.376562995609326e-10,
    );
    check_body(
        &steps[3].bodies[1],
        -0.4999999996558936,
        9.28286277441797e-11,
        2.752850781379816e-10,
        7.426290220238417e-11,
    );
    check_body(
        &steps[3].bodies[2],
        0.4999999995156055,
        7.042417462190449e-10,
        -3.8751562493901825e-10,
        5.633933973585484e-10,
    );

    check_body(
        &steps[4].bodies[0],
        0.3089693010104323,
        0.42367276800439446,
        1.402881838001512e-10,
        -7.970703751830775e-10,
    );
    check_body(
        &steps[4].bodies[1],
        -0.49999999948384044,
        1.3924294162727017e-10,
        3.4410634775908215e-10,
        9.282862776618096e-11,
    );
    check_body(
        &steps[4].bodies[2],
        0.4999999992734082,
        1.0563626199274932e-9,
        -4.843945315592333e-10,
        7.042417474168966e-10,
    );
}

#[test]
fn test_constants_hold_the_reference_values() {
    assert_eq!(GRAVITATIONAL_CONSTANT_BITS, 6.67430e-11f64.to_bits());
    assert_eq!(UNIT_MASS_BITS, 1.0f64.to_bits());
    assert_eq!(ZERO_BITS, 0.0f64.to_bits());
}

#[test]
fn test_body_new_has_unit_mass_and_zero_velocity() {
    let b = Body::new(pos(0.25, -0.75));
    assert_eq!(f64::from_bits(b.mass), 1.0);
    assert_eq!(f64::from_bits(b.position.x), 0.25);
    assert_eq!(f64::from_bits(b.position.y), -0.75);
    assert_eq!(f64::from_bits(b.velocity.x), 0.0);
    assert_eq!(f64::from_bits(b.velocity.y), 0.0);
}

#[test]
fn test_step_new_starts_the_clock_at_zero() {
    let s = initial_step();
    assert_eq!(f64::from_bits(s.time), 0.0);
    assert_eq!(s.step, 0);
    assert_eq!(f64::from_bits(s.bodies[0].position.x), 0.3089693008);
    assert_eq!(f64::from_bits(s.bodies[1].position.x), -0.5);
    assert_eq!(f64::from_bits(s.bodies[2].position.x), 0.5);
}

#[test]
fn test_tick_count_is_exact() {
    let dt = 0.5f64.to_bits();
    assert_eq!(simulate(initial_step(), 0, dt).len(), 0);
    assert_eq!(simulate(initial_step(), 1, dt).len(), 1);
    assert_eq!(simulate(initial_step(), 7, dt).len(), 7);
}

#[test]
fn test_clock_is_consistent() {
    let steps = simulate(initial_step(), 9, 0.1f64.to_bits());
    let mut expected_time: f64 = 0.0;
    for (i, step) in steps.iter().enumerate() {
        assert_eq!(step.step, i as u32);
        assert_eq!(step.time, expected_time.to_bits());
        expected_time += 0.1;
    }
}

#[test]
fn test_repeated_runs_are_bit_identical() {
    let dt = 0.5f64.to_bits();
    let first_run = simulate(initial_step(), 5, dt);
    let second_run = simulate(initial_step(), 5, dt);
    assert_eq!(first_run, second_run);
}

#[test]
fn test_attraction_points_toward_the_other_body() {
    let dt = 0.5f64.to_bits();
    let lower_left = Body::new(pos(-0.5, -0.25));
    let upper_right = Body::new(pos(0.5, 0.25));

    let pulled_right = lower_left.attracted_by(&upper_right, dt);
    assert!(f64::from_bits(pulled_right.velocity.x) > 0.0);
    assert!(f64::from_bits(pulled_right.velocity.y) > 0.0);

    let pulled_left = upper_right.attracted_by(&lower_left, dt);
    assert!(f64::from_bits(pulled_left.velocity.x) < 0.0);
    assert!(f64::from_bits(pulled_left.velocity.y) < 0.0);
}

#[test]
fn test_single_pull_matches_hardware_arithmetic() {
    let dt: f64 = 0.5;
    let target = Body::new(pos(0.125, -0.5));
    let attractor = Body::new(pos(-0.75, 1.0));
    let pulled = target.attracted_by(&attractor, dt.to_bits());

    let g = 6.67430e-11;
    let dx = -0.75 - 0.125f64;
    let dy = 1.0 - (-0.5f64);
    let r = (dx * dx + dy * dy).sqrt();
    let force = g * 1.0 * 1.0 / r / r;
    let fx = force * (dx / r);
    let fy = force * (dy / r);
    let vx = 0.0 + fx / 1.0 * dt;
    let vy = 0.0 + fy / 1.0 * dt;

    assert_eq!(pulled.velocity.x, vx.to_bits());
    assert_eq!(pulled.velocity.y, vy.to_bits());
    assert_eq!(pulled.position.x, 0.125f64.to_bits());
    assert_eq!(pulled.position.y, (-0.5f64).to_bits());
    assert_eq!(pulled.mass, 1.0f64.to_bits());
}

#[test]
fn test_position_update_uses_the_velocity() {
    let dt: f64 = 0.25;
    let mut b = Body::new(pos(1.5, -2.0));
    b.velocity = pos(0.5, -1.0);
    b.update(dt.to_bits());
    assert_eq!(b.position.x, (1.5 + 0.5 * dt).to_bits());
    assert_eq!(b.position.y, (-2.0 + -1.0 * dt).to_bits());
    assert_eq!(b.velocity.x, 0.5f64.to_bits());
    assert_eq!(b.velocity.y, (-1.0f64).to_bits());
}

#[test]
fn test_next_step_advances_the_clock_only() {
    let dt: f64 = 0.5;
    let s = initial_step();
    let n = s.next_step(dt.to_bits());
    assert_eq!(n.time, 0.5f64.to_bits());
    assert_eq!(n.step, 1);
    assert_eq!(n.bodies, s.bodies);
}

#[test]
fn test_calculate_step_touches_velocities_only() {
    let mut s = initial_step();
    let before = s;
    s.calculate_step(0.5f64.to_bits());
    assert_eq!(s.time, before.time);
    assert_eq!(s.step, before.step);
    for i in 0..3 {
        assert_eq!(s.bodies[i].position, before.bodies[i].position);
        assert_eq!(s.bodies[i].mass, before.bodies[i].mass);
        let vx = f64::from_bits(s.bodies[i].velocity.x);
        let vy = f64::from_bits(s.bodies[i].velocity.y);
        assert!(vx != 0.0 || vy != 0.0);
    }
}

#[test]
fn test_calculate_step_accumulates_pulls_in_index_order() {
    let dt = 0.5f64.to_bits();
    let mut s = initial_step();
    let b = s.bodies;
    s.calculate_step(dt);
    assert_eq!(s.bodies[0], b[0].attracted_by(&b[1], dt).attracted_by(&b[2], dt));
    assert_eq!(s.bodies[1], b[1].attracted_by(&b[0], dt).attracted_by(&b[2], dt));
    assert_eq!(s.bodies[2], b[2].attracted_by(&b[0], dt).attracted_by(&b[1], dt));
}

#[test]
fn test_coinciding_bodies_propagate_non_finite_values() {
    let dt = 0.5f64.to_bits();
    let here = Body::new(pos(0.25, 0.25));
    let also_here = Body::new(pos(0.25, 0.25));
    let pulled = here.attracted_by(&also_here, dt);
    assert!(!f64::from_bits(pulled.velocity.x).is_finite());
    assert!(!f64::from_bits(pulled.velocity.y).is_finite());
}
