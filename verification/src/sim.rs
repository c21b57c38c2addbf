//! The data model and the integrator.
//!
//! A `Body` is one point mass; a `Step` is the state of all three bodies at
//! one instant, together with the logical clock.  One tick first updates
//! every velocity from the pairwise gravitational pulls, then advances every
//! position with the updated velocity, and `simulate` repeats this for a
//! given number of ticks, collecting one `Step` per tick.
//!
//! Every scalar field holds the bit pattern of an IEEE 754 binary64 value;
//! the spec functions below describe each computation exactly, over the
//! named results of the binary64 operations (see `crate::fp`).

use vstd::prelude::*;

verus! {

use crate::fp::{add_bits, sub_bits, mul_bits, div_bits, sqrt_bits};
use crate::fp::{fp_add, fp_sub, fp_mul, fp_div, fp_sqrt};

/// The bit pattern of the binary64 value of the Newtonian gravitational
/// constant, 6.67430e-11.
pub const GRAVITATIONAL_CONSTANT_BITS: u64 = 0x3DD2_589E_FFED_8ACC;

/// The bit pattern of the binary64 value 1.0, the mass of every body.
pub const UNIT_MASS_BITS: u64 = 0x3FF0_0000_0000_0000;

/// The bit pattern of the binary64 value +0.0.
pub const ZERO_BITS: u64 = 0;

/// A two-dimensional coordinate or vector; each component is the bit
/// pattern of a binary64 value.
#[derive(Clone, Copy, PartialEq, Eq, Structural, Debug)]
pub struct Position {
    pub x: u64,
    pub y: u64,
}

/// One point mass.
#[derive(Clone, Copy, PartialEq, Eq, Structural, Debug)]
pub struct Body {
    pub mass: u64,
    pub position: Position,
    pub velocity: Position,
}

/// The pull of `attractor` on `target`: `target` with its velocity advanced
/// by the gravitational acceleration toward `attractor`, applied for one
/// time step.  With displacement `(dx, dy)` from `target` to `attractor`
/// and distance `r`, the force is `G * m_attractor * m_target / r / r`, and
/// its direction cosines are `dx / r` and `dy / r`, so the force attracts
/// `target` toward `attractor`.  Position and mass are untouched.
pub open spec fn pull(target: Body, attractor: Body, time_step: u64) -> Body {
    let dx = sub_bits(attractor.position.x, target.position.x);
    let dy = sub_bits(attractor.position.y, target.position.y);
    let r = sqrt_bits(add_bits(mul_bits(dx, dx), mul_bits(dy, dy)));
    let force = div_bits(
        div_bits(mul_bits(mul_bits(GRAVITATIONAL_CONSTANT_BITS, attractor.mass), target.mass), r),
        r,
    );
    let fx = mul_bits(force, div_bits(dx, r));
    let fy = mul_bits(force, div_bits(dy, r));
    Body {
        mass: target.mass,
        position: target.position,
        velocity: Position {
            x: add_bits(target.velocity.x, mul_bits(div_bits(fx, target.mass), time_step)),
            y: add_bits(target.velocity.y, mul_bits(div_bits(fy, target.mass), time_step)),
        },
    }
}

/// The pulls of a sequence of attractors on `target`, applied one after the
/// other, first attractor first.
pub open spec fn pull_all(target: Body, attractors: Seq<Body>, time_step: u64) -> Body
    decreases attractors.len(),
{
    if attractors.len() == 0 {
        target
    } else {
        pull_all(pull(target, attractors[0], time_step), attractors.skip(1), time_step)
    }
}

/// The bodies that act on the body at index `i`: every body but itself, in
/// index order.  A body exerts no force on itself.
pub open spec fn attractors_of(bodies: Seq<Body>, i: int) -> Seq<Body> {
    bodies.remove(i)
}

/// One velocity phase: every body's velocity advanced by the pulls of the
/// other bodies.  Only positions and masses enter the pulls, and the phase
/// changes neither, so each body is updated from the same starting state.
pub open spec fn gathered(bodies: Seq<Body>, time_step: u64) -> Seq<Body> {
    Seq::new(bodies.len(), |i: int| pull_all(bodies[i], attractors_of(bodies, i), time_step))
}

/// One position phase for one body: the position advanced by the velocity,
/// applied for one time step.
pub open spec fn drifted(b: Body, time_step: u64) -> Body {
    Body {
        mass: b.mass,
        position: Position {
            x: add_bits(b.position.x, mul_bits(b.velocity.x, time_step)),
            y: add_bits(b.position.y, mul_bits(b.velocity.y, time_step)),
        },
        velocity: b.velocity,
    }
}

impl Body {
    /// A body at `position` with unit mass and zero velocity.
    pub fn new(position: Position) -> (b: Body)
        ensures
            b.mass == UNIT_MASS_BITS,
            b.position == position,
            b.velocity == (Position { x: ZERO_BITS, y: ZERO_BITS }),
    {
        Body {
            mass: UNIT_MASS_BITS,
            position,
            velocity: Position { x: ZERO_BITS, y: ZERO_BITS },
        }
    }

    /// Advance the position by the velocity, applied for one time step.
    pub fn update(&mut self, time_step: u64)
        ensures
            *final(self) == drifted(*old(self), time_step),
    {
        self.position.x = fp_add(self.position.x, fp_mul(self.velocity.x, time_step));
        self.position.y = fp_add(self.position.y, fp_mul(self.velocity.y, time_step));
    }

    /// The pull of `attractor` on this body, applied for one time step.
    pub fn attracted_by(&self, attractor: &Body, time_step: u64) -> (r: Body)
        ensures
            r == pull(*self, *attractor, time_step),
    {
        let dx = fp_sub(attractor.position.x, self.position.x);
        let dy = fp_sub(attractor.position.y, self.position.y);
        let r_dist = fp_sqrt(fp_add(fp_mul(dx, dx), fp_mul(dy, dy)));
        let force = fp_div(
            fp_div(
                fp_mul(fp_mul(GRAVITATIONAL_CONSTANT_BITS, attractor.mass), self.mass),
                r_dist,
            ),
            r_dist,
        );
        let fx = fp_mul(force, fp_div(dx, r_dist));
        let fy = fp_mul(force, fp_div(dy, r_dist));
        Body {
            mass: self.mass,
            position: self.position,
            velocity: Position {
                x: fp_add(self.velocity.x, fp_mul(fp_div(fx, self.mass), time_step)),
                y: fp_add(self.velocity.y, fp_mul(fp_div(fy, self.mass), time_step)),
            },
        }
    }
}

/// The full state of the system at one instant: the elapsed simulated time,
/// the tick counter, and the three bodies.
#[derive(Clone, Copy, PartialEq, Debug)]
pub struct Step {
    pub time: u64,
    pub step: u32,
    pub bodies: [Body; 3],
}

/// The mathematical model of a `Step`: the same clock, with the bodies as a
/// sequence.
#[verifier::ext_equal]
pub struct StepModel {
    pub time: u64,
    pub step: u32,
    pub bodies: Seq<Body>,
}

impl View for Step {
    type V = StepModel;

    open spec fn view(&self) -> StepModel {
        StepModel { time: self.time, step: self.step, bodies: self.bodies@ }
    }
}

/// One whole tick: every velocity advanced by the pairwise pulls, then
/// every position advanced by the updated velocity.  The clock is untouched:
/// the produced state still carries the tick's own time and index.
pub open spec fn tick(m: StepModel, time_step: u64) -> StepModel {
    StepModel {
        time: m.time,
        step: m.step,
        bodies: gathered(m.bodies, time_step).map_values(|b: Body| drifted(b, time_step)),
    }
}

/// The start of the next tick: the same bodies, the time advanced by one
/// time step, the tick counter advanced by one.
pub open spec fn advance(m: StepModel, time_step: u64) -> StepModel {
    StepModel {
        time: add_bits(m.time, time_step),
        step: (m.step + 1) as u32,
        bodies: m.bodies,
    }
}

/// The state at which tick number `i` begins, starting from `m`.
pub open spec fn start_of(m: StepModel, i: nat, time_step: u64) -> StepModel
    decreases i,
{
    if i == 0 {
        m
    } else {
        advance(tick(start_of(m, (i - 1) as nat, time_step), time_step), time_step)
    }
}

/// The whole run: `count` states, the `i`-th being the outcome of tick `i`.
pub open spec fn sim(m: StepModel, count: nat, time_step: u64) -> Seq<StepModel> {
    Seq::new(count, |i: int| tick(start_of(m, i as nat, time_step), time_step))
}

/// The new value of the body at index `i` after one velocity phase over
/// `bodies`: the pulls of the other two bodies, in index order.
fn calculate_body(bodies: &[Body; 3], i: usize, time_step: u64) -> (r: Body)
    requires
        i < 3,
    ensures
        r == pull_all(bodies@[i as int], attractors_of(bodies@, i as int), time_step),
{
    let (j1, j2): (usize, usize) = if i == 0 {
        (1, 2)
    } else if i == 1 {
        (0, 2)
    } else {
        (0, 1)
    };
    let once = bodies[i].attracted_by(&bodies[j1], time_step);
    let twice = once.attracted_by(&bodies[j2], time_step);
    proof {
        reveal_with_fuel(pull_all, 4);
        let s = attractors_of(bodies@, i as int);
        assert(s =~= seq![bodies@[j1 as int], bodies@[j2 as int]]);
        assert(s.skip(1) =~= seq![bodies@[j2 as int]]);
        assert(s.skip(1).skip(1) =~= Seq::<Body>::empty());
        assert(pull_all(bodies@[i as int], s, time_step) == twice);
    }
    twice
}

impl Step {
    /// The initial state: time zero, tick zero, the three given bodies.
    pub fn new(first: Body, second: Body, third: Body) -> (s: Step)
        ensures
            s.time == ZERO_BITS,
            s.step == 0,
            s.bodies@ == seq![first, second, third],
    {
        let s = Step { time: ZERO_BITS, step: 0, bodies: [first, second, third] };
        proof {
            assert(s.bodies@ =~= seq![first, second, third]);
        }
        s
    }

    /// The velocity phase: every body's velocity advanced by the pulls of
    /// the other bodies.  Positions, masses and the clock are untouched.
    pub fn calculate_step(&mut self, time_step: u64)
        ensures
            final(self).bodies@ == gathered(old(self).bodies@, time_step),
            final(self).time == old(self).time,
            final(self).step == old(self).step,
    {
        let b0 = calculate_body(&self.bodies, 0, time_step);
        let b1 = calculate_body(&self.bodies, 1, time_step);
        let b2 = calculate_body(&self.bodies, 2, time_step);
        self.bodies = [b0, b1, b2];
        proof {
            assert(self.bodies@ =~= gathered(old(self).bodies@, time_step));
        }
    }

    /// One whole tick: the velocity phase, then the position phase.  The
    /// clock is untouched.
    pub fn update(&mut self, time_step: u64)
        ensures
            final(self)@ == tick(old(self)@, time_step),
    {
        self.calculate_step(time_step);
        let mut b0 = self.bodies[0];
        let mut b1 = self.bodies[1];
        let mut b2 = self.bodies[2];
        b0.update(time_step);
        b1.update(time_step);
        b2.update(time_step);
        self.bodies = [b0, b1, b2];
        proof {
            assert(self.bodies@ =~= tick(old(self)@, time_step).bodies);
            assert(self@ =~= tick(old(self)@, time_step));
        }
    }

    /// The start of the next tick, derived from this one.
    pub fn next_step(self, time_step: u64) -> (r: Step)
        requires
            self.step < u32::MAX,
        ensures
            r@ == advance(self@, time_step),
    {
        Step {
            time: fp_add(self.time, time_step),
            step: self.step + 1,
            bodies: self.bodies,
        }
    }
}

/// The models of a sequence of steps, in order.
pub open spec fn views_of(steps: Seq<Step>) -> Seq<StepModel> {
    Seq::new(steps.len(), |i: int| steps[i]@)
}

/// Run the simulation for `count` ticks and collect the outcome of each
/// tick, in order.  The result is a pure function of the three inputs: two
/// runs from the same arguments yield the same sequence.
pub fn simulate(step: Step, count: usize, time_step: u64) -> (steps: Vec<Step>)
    requires
        step.step + count <= u32::MAX,
    ensures
        steps@.len() == count,
        views_of(steps@) == sim(step@, count as nat, time_step),
{
    let mut steps: Vec<Step> = Vec::with_capacity(count);
    let mut current = step;
    let mut k: usize = 0;
    proof {
        assert(views_of(steps@) =~= sim(step@, 0, time_step));
    }
    while k < count
        invariant
            k <= count,
            steps@.len() == k,
            views_of(steps@) == sim(step@, k as nat, time_step),
            current@ == start_of(step@, k as nat, time_step),
            current.step as int == step.step + k,
            step.step + count <= u32::MAX,
        decreases count - k,
    {
        let ghost steps0 = steps@;
        let ghost k0 = k as nat;
        current.update(time_step);
        steps.push(current);
        current = current.next_step(time_step);
        k += 1;
        proof {
            assert(start_of(step@, (k0 + 1) as nat, time_step) == advance(
                tick(start_of(step@, k0, time_step), time_step),
                time_step,
            ));
            assert forall|i: int| 0 <= i < k0 + 1 implies views_of(steps@)[i] == sim(
                step@,
                (k0 + 1) as nat,
                time_step,
            )[i] by {
                if i < k0 {
                    assert(views_of(steps0)[i] == sim(step@, k0, time_step)[i]);
                    assert(steps@[i] == steps0[i]);
                }
            }
            assert(views_of(steps@) =~= sim(step@, (k0 + 1) as nat, time_step));
        }
    }
    steps
}

/// The time reached from `t0` by adding the time step `i` times, one
/// addition per elapsed tick.
pub open spec fn accumulated_time(t0: u64, i: nat, time_step: u64) -> u64
    decreases i,
{
    if i == 0 {
        t0
    } else {
        add_bits(accumulated_time(t0, (i - 1) as nat, time_step), time_step)
    }
}

/// The clock of the state at which tick `i` begins: the counter has grown
/// by `i`, and the time is `i` additions of the time step.
pub proof fn lemma_start_clock(m: StepModel, i: nat, time_step: u64)
    requires
        m.step + i <= u32::MAX,
    ensures
        start_of(m, i, time_step).step == m.step + i,
        start_of(m, i, time_step).time == accumulated_time(m.time, i, time_step),
    decreases i,
{
    if i > 0 {
        lemma_start_clock(m, (i - 1) as nat, time_step);
    }
}

/// Law: the simulation is deterministic.  The run is a function of the
/// initial state, the tick count and the time step alone: any two
/// sequences produced from the same three arguments are equal.
pub proof fn lemma_simulate_deterministic(
    m: StepModel,
    count: nat,
    time_step: u64,
    first_run: Seq<StepModel>,
    second_run: Seq<StepModel>,
)
    requires
        first_run == sim(m, count, time_step),
        second_run == sim(m, count, time_step),
    ensures
        first_run == second_run,
{
}

/// Law: a run of `count` ticks yields exactly `count` steps.
pub proof fn lemma_tick_count(m: StepModel, count: nat, time_step: u64)
    ensures
        sim(m, count, time_step).len() == count,
{
}

/// Law: the clock is consistent.  The `i`-th step of a run carries tick
/// counter `m.step + i`, and its time is the start time advanced by `i`
/// additions of the time step; from the usual initial state (counter zero,
/// time zero) the counter is exactly `i`.
pub proof fn lemma_clock_consistency(m: StepModel, count: nat, time_step: u64)
    requires
        m.step + count <= u32::MAX,
    ensures
        forall|i: int|
            0 <= i < count ==> (#[trigger] sim(m, count, time_step)[i]).step == m.step + i,
        forall|i: int|
            0 <= i < count ==> (#[trigger] sim(m, count, time_step)[i]).time
                == accumulated_time(m.time, i as nat, time_step),
{
    assert forall|i: int| 0 <= i < count implies (#[trigger] sim(m, count, time_step)[i]).step
        == m.step + i && sim(m, count, time_step)[i].time == accumulated_time(
        m.time,
        i as nat,
        time_step,
    ) by {
        lemma_start_clock(m, i as nat, time_step);
    }
}

/// Law: zero self-force.  A body on which no other body acts keeps its
/// velocity, its position and its mass: the velocity phase never lets a
/// body pull on itself, and with no attractors it is left exactly as it
/// was.
pub proof fn lemma_isolated_body_unchanged(b: Body, time_step: u64)
    ensures
        pull_all(b, Seq::<Body>::empty(), time_step) == b,
{
}

/// A pull changes the velocity of the target alone, so a chain of pulls
/// keeps its mass (and its position).
pub proof fn lemma_pull_all_keeps_mass(target: Body, attractors: Seq<Body>, time_step: u64)
    ensures
        pull_all(target, attractors, time_step).mass == target.mass,
        pull_all(target, attractors, time_step).position == target.position,
    decreases attractors.len(),
{
    if attractors.len() > 0 {
        lemma_pull_all_keeps_mass(pull(target, attractors[0], time_step), attractors.skip(1), time_step);
    }
}

/// One tick keeps the number of bodies and every body's mass.
pub proof fn lemma_tick_keeps_masses(m: StepModel, time_step: u64)
    ensures
        tick(m, time_step).bodies.len() == m.bodies.len(),
        forall|j: int|
            0 <= j < m.bodies.len() ==> (#[trigger] tick(m, time_step).bodies[j]).mass
                == m.bodies[j].mass,
{
    assert forall|j: int| 0 <= j < m.bodies.len() implies (#[trigger] tick(
        m,
        time_step,
    ).bodies[j]).mass == m.bodies[j].mass by {
        lemma_pull_all_keeps_mass(m.bodies[j], attractors_of(m.bodies, j), time_step);
    }
}

/// Every tick start keeps the number of bodies and every body's mass.
pub proof fn lemma_start_keeps_masses(m: StepModel, i: nat, time_step: u64)
    ensures
        start_of(m, i, time_step).bodies.len() == m.bodies.len(),
        forall|j: int|
            0 <= j < m.bodies.len() ==> (#[trigger] start_of(m, i, time_step).bodies[j]).mass
                == m.bodies[j].mass,
    decreases i,
{
    if i > 0 {
        lemma_start_keeps_masses(m, (i - 1) as nat, time_step);
        lemma_tick_keeps_masses(start_of(m, (i - 1) as nat, time_step), time_step);
    }
}

/// Law: a mass is fixed at construction and never mutated.  Every step of a
/// run carries as many bodies as the initial state, and each body's mass is
/// its initial mass.
pub proof fn lemma_masses_constant(m: StepModel, count: nat, time_step: u64)
    ensures
        forall|i: int|
            0 <= i < count ==> (#[trigger] sim(m, count, time_step)[i]).bodies.len()
                == m.bodies.len(),
        forall|i: int, j: int|
            0 <= i < count && 0 <= j < m.bodies.len() ==> (#[trigger] sim(
                m,
                count,
                time_step,
            )[i].bodies[j]).mass == m.bodies[j].mass,
{
    assert forall|i: int| 0 <= i < count implies (#[trigger] sim(m, count, time_step)[i]).bodies.len()
        == m.bodies.len() by {
        lemma_start_keeps_masses(m, i as nat, time_step);
        lemma_tick_keeps_masses(start_of(m, i as nat, time_step), time_step);
    }
    assert forall|i: int, j: int| 0 <= i < count && 0 <= j < m.bodies.len() implies (#[trigger] sim(
        m,
        count,
        time_step,
    )[i].bodies[j]).mass == m.bodies[j].mass by {
        lemma_start_keeps_masses(m, i as nat, time_step);
        lemma_tick_keeps_masses(start_of(m, i as nat, time_step), time_step);
    }
}

/// Law: in the velocity phase the body at index `i` is acted on by the
/// other bodies only, each exactly once, in index order; its own entry is
/// left out of its attractors.
pub proof fn lemma_no_self_pull(bodies: Seq<Body>, i: int)
    requires
        0 <= i < bodies.len(),
    ensures
        attractors_of(bodies, i).len() == bodies.len() - 1,
        forall|k: int| 0 <= k < i ==> #[trigger] attractors_of(bodies, i)[k] == bodies[k],
        forall|k: int|
            i <= k < bodies.len() - 1 ==> #[trigger] attractors_of(bodies, i)[k] == bodies[k + 1],
{
}

} // verus!
