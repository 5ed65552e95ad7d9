//! The simulation engine: a fixed set of particles in a square arena
//! `[0, L] x [0, L]`, advanced together one tick at a time.
use rand::Rng;
use vstd::prelude::*;

use crate::angle::{
    is_heading, lemma_reflect_x_mirrors, lemma_reflect_y_mirrors, reflect_x, reflect_x_heading,
    reflect_y, reflect_y_heading, sine,
};
use crate::angle::{HALF_PI_ANGLE, PI_ANGLE, TWO_PI_ANGLE};
use crate::particle::{
    advance_fits, advanced, displacement, lemma_advance_heading_half_pi, lemma_displacement_odd, lemma_advance_heading_pi,
    lemma_advance_heading_three_half_pi, lemma_advance_heading_zero,
    lemma_reflect_x_reverses_x_motion, lemma_reflect_y_reverses_y_motion, with_heading, Particle,
    ParticleState, MICROS_PER_SECOND, POSITION_SCALE,
};

verus! {

/// The largest arena side, in arena units, whose positions fit in an `i64`.
pub const MAX_ARENA_SIZE: i64 = 9_223_372_036_854;

/// The largest heading, in whole degrees, that random placement draws.
pub const RANDOM_HEADING_DEGREES_END: i64 = 360;

/// How a randomly placed simulation is set up.
#[derive(Debug, Clone, Copy, PartialEq, Eq, Structural)]
pub struct SimConfig {
    /// How many particles there are.
    pub particle_count: usize,
    /// The arena's side, in arena units.
    pub arena_size: i64,
    /// The least speed drawn, in arena units per second.
    pub speed_min: u32,
    /// The bound, not reached, of the speeds drawn.
    pub speed_max: u32,
    /// The time step of one tick, in microseconds.
    pub tick_micros: u32,
    /// The mass given to every particle.
    pub mass: i64,
}

impl SimConfig {
    /// Whether an engine can be built from this set-up.
    pub open spec fn valid(&self) -> bool {
        &&& 0 < self.arena_size <= MAX_ARENA_SIZE
        &&& self.speed_min < self.speed_max
    }
}

impl Default for SimConfig {
    /// Ten particles in an arena of side 1000, speeds in `[150, 400)`,
    /// ticks of a hundredth of a second.
    fn default() -> (r: SimConfig)
        ensures
            r == (SimConfig {
                particle_count: 10,
                arena_size: 1000,
                speed_min: 150,
                speed_max: 400,
                tick_micros: 10_000,
                mass: 10,
            }),
    {
        SimConfig {
            particle_count: 10,
            arena_size: 1000,
            speed_min: 150,
            speed_max: 400,
            tick_micros: 10_000,
            mass: 10,
        }
    }
}

/// What an engine is: its particles in order of creation, and the far side
/// of its arena in position units.
pub struct EngineState {
    pub particles: Seq<ParticleState>,
    pub arena_max: int,
}

/// Whether a coordinate lies on or beyond a wall of the arena `[0, arena_max]`.
pub open spec fn at_wall(c: int, arena_max: int) -> bool {
    c >= arena_max || c <= 0
}

/// The particle after the walls have turned it: the x reflection where x is
/// at a wall, then the y reflection, of the heading so far, where y is.
pub open spec fn bounced(p: ParticleState, arena_max: int) -> ParticleState {
    let h1 = if at_wall(p.x, arena_max) {
        reflect_x(p.heading)
    } else {
        p.heading
    };
    let h2 = if at_wall(p.y, arena_max) {
        reflect_y(h1)
    } else {
        h1
    };
    with_heading(p, h2)
}

/// The particle after one tick of `dt` microseconds.
pub open spec fn stepped(p: ParticleState, dt: int, arena_max: int) -> ParticleState {
    bounced(advanced(p, dt), arena_max)
}

/// Whether every particle can move for `dt` microseconds within `i64`.
pub open spec fn step_fits(s: EngineState, dt: int) -> bool {
    forall|i: int| 0 <= i < s.particles.len() ==> advance_fits(#[trigger] s.particles[i], dt)
}

/// The engine's particles and arena.
pub struct Engine {
    particles: Vec<Particle>,
    arena_max: i64,
}

impl View for Engine {
    type V = EngineState;

    closed spec fn view(&self) -> EngineState {
        EngineState {
            particles: self.particles@.map_values(|p: Particle| p@),
            arena_max: self.arena_max as int,
        }
    }
}

/// Relies on rand's `thread_rng` and `Rng::gen_range`, which draws an
/// integer in `[low, high)` and panics when that range is empty.
#[verifier::external_body]
fn random_in_range(low: i64, high: i64) -> (r: i64)
    requires
        low < high,
    ensures
        low <= r < high,
{
    rand::thread_rng().gen_range(low..high)
}

impl Engine {
    /// Every heading is in range and the arena is not empty.
    pub open spec fn wf(&self) -> bool {
        &&& 0 < self@.arena_max
        &&& forall|i: int|
            0 <= i < self@.particles.len() ==> is_heading(#[trigger] self@.particles[i].heading)
    }

    /// An engine over the given particles, in an arena of side `arena_size`
    /// arena units.
    pub fn new(arena_size: i64, particles: Vec<Particle>) -> (e: Engine)
        requires
            0 < arena_size <= MAX_ARENA_SIZE,
            forall|i: int| 0 <= i < particles.len() ==> (#[trigger] particles@[i]).wf(),
        ensures
            e.wf(),
            e@.arena_max == arena_size * POSITION_SCALE,
            e@.particles == particles@.map_values(|p: Particle| p@),
    {
        let e = Engine { particles, arena_max: arena_size * POSITION_SCALE };
        assert forall|i: int| 0 <= i < e@.particles.len() implies is_heading(
            #[trigger] e@.particles[i].heading,
        ) by {
            assert(e.particles@[i].wf());
        }
        e
    }

    /// An engine with `config.particle_count` particles, each placed at
    /// random in the arena with a random speed in
    /// `[config.speed_min, config.speed_max)` and a random heading of whole
    /// degrees in `[0, 360)`.
    pub fn new_random(config: &SimConfig) -> (e: Engine)
        requires
            config.valid(),
        ensures
            e.wf(),
            e@.arena_max == config.arena_size * POSITION_SCALE,
            e@.particles.len() == config.particle_count,
            forall|i: int|
                0 <= i < e@.particles.len() ==> {
                    let p = #[trigger] e@.particles[i];
                    &&& 0 <= p.x < e@.arena_max
                    &&& 0 <= p.y < e@.arena_max
                    &&& config.speed_min <= p.speed < config.speed_max
                    &&& 0 <= p.heading < TWO_PI_ANGLE
                    &&& p.mass == config.mass
                },
    {
        let arena_max = config.arena_size * POSITION_SCALE;
        let mut particles: Vec<Particle> = Vec::new();
        let mut i: usize = 0;
        while i < config.particle_count
            invariant
                i <= config.particle_count,
                particles.len() == i,
                arena_max == config.arena_size * POSITION_SCALE,
                0 < arena_max,
                config.valid(),
                forall|j: int|
                    0 <= j < i ==> {
                        let p = (#[trigger] particles@[j])@;
                        &&& particles@[j].wf()
                        &&& 0 <= p.x < arena_max
                        &&& 0 <= p.y < arena_max
                        &&& config.speed_min <= p.speed < config.speed_max
                        &&& 0 <= p.heading < TWO_PI_ANGLE
                            &&& p.mass == config.mass
                    },
            decreases config.particle_count - i,
        {
            let x = random_in_range(0, arena_max);
            let y = random_in_range(0, arena_max);
            let speed = random_in_range(config.speed_min as i64, config.speed_max as i64) as u32;
            let degrees = random_in_range(0, RANDOM_HEADING_DEGREES_END);
            let mut p = Particle::initialize(x, y, config.mass);
            let set = p.set_velocity(speed, degrees);
            assert(set is Ok);
            particles.push(p);
            i = i + 1;
        }
        Engine { particles, arena_max }
    }

    /// Whether every particle can move for `dt_micros` within `i64`.
    pub fn can_step(&self, dt_micros: u32) -> (r: bool)
        requires
            self.wf(),
        ensures
            r == step_fits(self@, dt_micros as int),
    {
        let mut i: usize = 0;
        while i < self.particles.len()
            invariant
                self.wf(),
                i <= self.particles.len(),
                forall|j: int| 0 <= j < i ==> advance_fits(#[trigger] self@.particles[j], dt_micros as int),
            decreases self.particles.len() - i,
        {
            assert(self.particles@[i as int]@ == self@.particles[i as int]);
            if !self.particles[i].can_advance(dt_micros) {
                return false;
            }
            i = i + 1;
        }
        true
    }

    /// Advances every particle by `dt_micros` microseconds, then turns each
    /// one that is on or beyond a wall.
    pub fn step(&mut self, dt_micros: u32)
        requires
            old(self).wf(),
            step_fits(old(self)@, dt_micros as int),
        ensures
            final(self).wf(),
            final(self)@.arena_max == old(self)@.arena_max,
            final(self)@.particles.len() == old(self)@.particles.len(),
            forall|i: int|
                0 <= i < old(self)@.particles.len() ==> #[trigger] final(self)@.particles[i]
                    == stepped(old(self)@.particles[i], dt_micros as int, old(self)@.arena_max),
    {
        let ghost before = self@;
        let n = self.particles.len();
        let mut i: usize = 0;
        while i < n
            invariant
                n == self.particles.len(),
                n == before.particles.len(),
                i <= n,
                self@.arena_max == before.arena_max,
                0 < before.arena_max,
                step_fits(before, dt_micros as int),
                forall|j: int| 0 <= j < n ==> is_heading(#[trigger] before.particles[j].heading),
                forall|j: int| 0 <= j < n ==> is_heading(#[trigger] self@.particles[j].heading),
                forall|j: int|
                    0 <= j < i ==> #[trigger] self@.particles[j] == stepped(
                        before.particles[j],
                        dt_micros as int,
                        before.arena_max,
                    ),
                forall|j: int| i <= j < n ==> #[trigger] self@.particles[j] == before.particles[j],
            decreases n - i,
        {
            assert(self.particles@[i as int]@ == self@.particles[i as int]);
            let mut p = self.particles[i];
            assert(advance_fits(before.particles[i as int], dt_micros as int));
            p.advance(dt_micros);
            if p.x() >= self.arena_max || p.x() <= 0 {
                let h = reflect_x_heading(p.heading());
                p.turn_to(h);
            }
            if p.y() >= self.arena_max || p.y() <= 0 {
                let h = reflect_y_heading(p.heading());
                p.turn_to(h);
            }
            let ghost old_view = self@;
            self.particles.set(i, p);
            assert(self@.particles =~= old_view.particles.update(i as int, p@));
            i = i + 1;
        }
    }

    /// The position of each particle, in order of creation.
    pub fn positions(&self) -> (r: Vec<(i64, i64)>)
        ensures
            r@.len() == self@.particles.len(),
            forall|i: int|
                0 <= i < r@.len() ==> (#[trigger] r@[i]).0 == self@.particles[i].x && r@[i].1
                    == self@.particles[i].y,
    {
        let mut r: Vec<(i64, i64)> = Vec::new();
        let mut i: usize = 0;
        while i < self.particles.len()
            invariant
                i <= self.particles.len(),
                r@.len() == i,
                forall|j: int|
                    0 <= j < i ==> (#[trigger] r@[j]).0 == self@.particles[j].x && r@[j].1
                        == self@.particles[j].y,
            decreases self.particles.len() - i,
        {
            assert(self.particles@[i as int]@ == self@.particles[i as int]);
            r.push((self.particles[i].x(), self.particles[i].y()));
            i = i + 1;
        }
        r
    }

    /// How many particles there are.
    pub fn particle_count(&self) -> (r: usize)
        ensures
            r == self@.particles.len(),
    {
        self.particles.len()
    }

    /// The particle at `index`, in order of creation.
    pub fn particle(&self, index: usize) -> (r: Particle)
        requires
            index < self@.particles.len(),
        ensures
            r@ == self@.particles[index as int],
    {
        self.particles[index]
    }

    /// The far side of the arena, in position units.
    pub fn arena_max(&self) -> (r: i64)
        ensures
            r == self@.arena_max,
    {
        self.arena_max
    }
}

/// A particle that a tick brings onto a wall parallel to the y axis, and not
/// onto one parallel to the x axis, has its heading `h` replaced by
/// `2 pi - h`; on its next tick it moves back along x as far as it came and
/// keeps its motion along y.
pub proof fn lemma_x_wall_turns_back(p: ParticleState, dt: nat, arena_max: int)
    requires
        is_heading(p.heading),
        at_wall(advanced(p, dt as int).x, arena_max),
        !at_wall(advanced(p, dt as int).y, arena_max),
    ensures
        ({
            let q = stepped(p, dt as int, arena_max);
            &&& q.heading == TWO_PI_ANGLE - p.heading
            &&& advanced(q, dt as int).x - q.x == -(advanced(p, dt as int).x - p.x)
            &&& advanced(q, dt as int).y - q.y == advanced(p, dt as int).y - p.y
        }),
{
    lemma_reflect_x_reverses_x_motion(p, dt);
}

/// A particle that a tick brings onto a wall parallel to the x axis, and not
/// onto one parallel to the y axis, has its heading `h` replaced by `pi - h`
/// when `h <= pi` and by `2 pi - h` otherwise. In the first case, on its
/// next tick it moves back along y as far as it came and keeps its motion
/// along x.
pub proof fn lemma_y_wall_turns_back(p: ParticleState, dt: nat, arena_max: int)
    requires
        is_heading(p.heading),
        !at_wall(advanced(p, dt as int).x, arena_max),
        at_wall(advanced(p, dt as int).y, arena_max),
    ensures
        ({
            let q = stepped(p, dt as int, arena_max);
            &&& p.heading <= PI_ANGLE ==> q.heading == PI_ANGLE - p.heading
            &&& p.heading > PI_ANGLE ==> q.heading == TWO_PI_ANGLE - p.heading
            &&& p.heading <= PI_ANGLE ==> advanced(q, dt as int).x - q.x == advanced(p, dt as int).x
                - p.x
            &&& p.heading <= PI_ANGLE ==> advanced(q, dt as int).y - q.y == -(advanced(
                p,
                dt as int,
            ).y - p.y)
        }),
{
    if p.heading <= PI_ANGLE {
        lemma_reflect_y_reverses_y_motion(p, dt);
    }
}

/// A particle that no wall touches after a tick keeps its heading.
pub proof fn lemma_inside_keeps_heading(p: ParticleState, dt: nat, arena_max: int)
    requires
        !at_wall(advanced(p, dt as int).x, arena_max),
        !at_wall(advanced(p, dt as int).y, arena_max),
    ensures
        stepped(p, dt as int, arena_max) == advanced(p, dt as int),
{
}

/// The distance, in position units, that a particle covers in one tick of
/// `dt` microseconds.
pub open spec fn tick_distance(p: ParticleState, dt: int) -> int {
    p.speed * dt * POSITION_SCALE / (MICROS_PER_SECOND as int)
}

/// A particle moving along +y from below the top wall, or along -y from
/// above the bottom wall, strictly between the side walls.
pub open spec fn vertical_bouncer(p: ParticleState, dt: int, arena_max: int) -> bool {
    let d = tick_distance(p, dt);
    &&& 0 < p.x < arena_max
    &&& {
        ||| p.heading == 0 && -d < p.y < arena_max
        ||| p.heading == PI_ANGLE && 0 < p.y < arena_max + d
    }
}

/// A particle moving along -x from right of the left wall, or along +x
/// from left of the right wall, strictly between the top and bottom walls.
pub open spec fn horizontal_bouncer(p: ParticleState, dt: int, arena_max: int) -> bool {
    let d = tick_distance(p, dt);
    &&& 0 < p.y < arena_max
    &&& {
        ||| p.heading == HALF_PI_ANGLE && -d < p.x < arena_max
        ||| p.heading == 3 * HALF_PI_ANGLE && 0 < p.x < arena_max + d
    }
}

/// A particle that moves along the y axis stays one: tick after tick it
/// bounces between the top and bottom walls, never more than one tick's
/// distance beyond either, and keeps its x coordinate.
pub proof fn lemma_vertical_bouncer_stays(p: ParticleState, dt: nat, arena_max: int)
    requires
        vertical_bouncer(p, dt as int, arena_max),
    ensures
        vertical_bouncer(stepped(p, dt as int, arena_max), dt as int, arena_max),
        -tick_distance(p, dt as int) < stepped(p, dt as int, arena_max).y < arena_max
            + tick_distance(p, dt as int),
        stepped(p, dt as int, arena_max).x == p.x,
{
    if p.heading == 0 {
        lemma_advance_heading_zero(p, dt);
    } else {
        lemma_advance_heading_pi(p, dt);
    }
}

/// A particle that moves along the x axis stays one: tick after tick it
/// bounces between the left and right walls, never more than one tick's
/// distance beyond either, and keeps its y coordinate.
pub proof fn lemma_horizontal_bouncer_stays(p: ParticleState, dt: nat, arena_max: int)
    requires
        horizontal_bouncer(p, dt as int, arena_max),
    ensures
        horizontal_bouncer(stepped(p, dt as int, arena_max), dt as int, arena_max),
        -tick_distance(p, dt as int) < stepped(p, dt as int, arena_max).x < arena_max
            + tick_distance(p, dt as int),
        stepped(p, dt as int, arena_max).y == p.y,
{
    if p.heading == HALF_PI_ANGLE {
        lemma_advance_heading_half_pi(p, dt);
    } else {
        lemma_advance_heading_three_half_pi(p, dt);
    }
}

/// The particle after `n` ticks of `dt` microseconds.
pub open spec fn run(p: ParticleState, dt: int, arena_max: int, n: nat) -> ParticleState
    decreases n,
{
    if n == 0 {
        p
    } else {
        stepped(run(p, dt, arena_max, (n - 1) as nat), dt, arena_max)
    }
}

proof fn lemma_tick_distance_nonnegative(p: ParticleState, dt: nat)
    ensures
        0 <= tick_distance(p, dt as int),
{
    assert(0 <= p.speed * dt * POSITION_SCALE) by (nonlinear_arith);
}

/// A particle that moves along the y axis, from inside the arena or within
/// one tick beyond the wall it moves away from, stays within one tick's
/// distance of the arena along y for any number of ticks, and keeps its x
/// coordinate and speed.
pub proof fn lemma_vertical_bouncer_contained(p: ParticleState, dt: nat, arena_max: int, n: nat)
    requires
        vertical_bouncer(p, dt as int, arena_max),
    ensures
        vertical_bouncer(run(p, dt as int, arena_max, n), dt as int, arena_max),
        -tick_distance(p, dt as int) < run(p, dt as int, arena_max, n).y < arena_max
            + tick_distance(p, dt as int),
        run(p, dt as int, arena_max, n).x == p.x,
        run(p, dt as int, arena_max, n).speed == p.speed,
    decreases n,
{
    lemma_tick_distance_nonnegative(p, dt);
    if n > 0 {
        lemma_vertical_bouncer_contained(p, dt, arena_max, (n - 1) as nat);
        lemma_vertical_bouncer_stays(run(p, dt as int, arena_max, (n - 1) as nat), dt, arena_max);
    }
}

/// A particle that moves along the x axis, from inside the arena or within
/// one tick beyond the wall it moves away from, stays within one tick's
/// distance of the arena along x for any number of ticks, and keeps its y
/// coordinate and speed.
pub proof fn lemma_horizontal_bouncer_contained(p: ParticleState, dt: nat, arena_max: int, n: nat)
    requires
        horizontal_bouncer(p, dt as int, arena_max),
    ensures
        horizontal_bouncer(run(p, dt as int, arena_max, n), dt as int, arena_max),
        -tick_distance(p, dt as int) < run(p, dt as int, arena_max, n).x < arena_max
            + tick_distance(p, dt as int),
        run(p, dt as int, arena_max, n).y == p.y,
        run(p, dt as int, arena_max, n).speed == p.speed,
    decreases n,
{
    lemma_tick_distance_nonnegative(p, dt);
    if n > 0 {
        lemma_horizontal_bouncer_contained(p, dt, arena_max, (n - 1) as nat);
        lemma_horizontal_bouncer_stays(run(p, dt as int, arena_max, (n - 1) as nat), dt, arena_max);
    }
}

/// How far, in position units, a particle moves along x on its next tick.
pub open spec fn x_move(p: ParticleState, dt: int) -> int {
    displacement(p.speed as int, sine(p.heading), dt)
}

/// The size of that move.
pub open spec fn x_speed(p: ParticleState, dt: int) -> int {
    if x_move(p, dt) < 0 {
        -x_move(p, dt)
    } else {
        x_move(p, dt)
    }
}

/// Whether the tick that starts from `p` ends with the particle on a side
/// wall and on the top or bottom wall at once.
pub open spec fn corner_tick(p: ParticleState, dt: int, arena_max: int) -> bool {
    at_wall(advanced(p, dt).x, arena_max) && at_wall(advanced(p, dt).y, arena_max)
}

/// A particle within one tick's move of the arena along x which, if it is
/// on or beyond a side wall and moves at all along x, is about to move back.
pub open spec fn x_contained(p: ParticleState, dt: int, arena_max: int) -> bool {
    let m = x_speed(p, dt);
    &&& is_heading(p.heading)
    &&& -m <= p.x <= arena_max + m
    &&& (p.x >= arena_max && m > 0 ==> x_move(p, dt) == -m && p.x < arena_max + m)
    &&& (p.x <= 0 && m > 0 ==> x_move(p, dt) == m && p.x > -m)
}

proof fn lemma_step_keeps_x_speed(p: ParticleState, dt: nat, arena_max: int)
    requires
        is_heading(p.heading),
    ensures
        x_speed(stepped(p, dt as int, arena_max), dt as int) == x_speed(p, dt as int),
        at_wall(advanced(p, dt as int).x, arena_max) && !at_wall(advanced(p, dt as int).y, arena_max)
            ==> x_move(stepped(p, dt as int, arena_max), dt as int) == -x_move(p, dt as int),
        is_heading(stepped(p, dt as int, arena_max).heading),
{
    let h = p.heading;
    let q = advanced(p, dt as int);
    lemma_reflect_x_mirrors(h);
    let h1 = if at_wall(q.x, arena_max) {
        reflect_x(h)
    } else {
        h
    };
    lemma_reflect_x_mirrors(h1);
    if h1 <= PI_ANGLE {
        lemma_reflect_y_mirrors(h1);
    }
    lemma_displacement_odd(p.speed as int, sine(h), dt as int);
    lemma_displacement_odd(p.speed as int, sine(h1), dt as int);
}

/// On a tick that does not end in a corner, a particle within one tick's
/// move of the arena along x, and about to move back if it is at a side
/// wall, stays so.
pub proof fn lemma_x_contained_stays(p: ParticleState, dt: nat, arena_max: int)
    requires
        0 < arena_max,
        x_contained(p, dt as int, arena_max),
        !corner_tick(p, dt as int, arena_max),
    ensures
        x_contained(stepped(p, dt as int, arena_max), dt as int, arena_max),
        x_speed(stepped(p, dt as int, arena_max), dt as int) == x_speed(p, dt as int),
{
    lemma_step_keeps_x_speed(p, dt, arena_max);
}

/// Over any number of ticks none of which ends in a corner, a particle that
/// starts within the arena never gets further from it along x than one
/// tick's move.
pub proof fn lemma_x_contained(p: ParticleState, dt: nat, arena_max: int, n: nat)
    requires
        0 < arena_max,
        x_contained(p, dt as int, arena_max),
        forall|k: nat| k < n ==> !corner_tick(#[trigger] run(p, dt as int, arena_max, k), dt as int, arena_max),
    ensures
        x_contained(run(p, dt as int, arena_max, n), dt as int, arena_max),
        x_speed(run(p, dt as int, arena_max, n), dt as int) == x_speed(p, dt as int),
        -x_speed(p, dt as int) <= run(p, dt as int, arena_max, n).x <= arena_max + x_speed(p, dt as int),
    decreases n,
{
    if n > 0 {
        let k = (n - 1) as nat;
        lemma_x_contained(p, dt, arena_max, k);
        assert(!corner_tick(run(p, dt as int, arena_max, k), dt as int, arena_max));
        lemma_x_contained_stays(run(p, dt as int, arena_max, k), dt, arena_max);
    }
}

} // verus!
