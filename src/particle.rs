//! A point mass with a position, a speed and a heading.
use vstd::arithmetic::div_mod::lemma_div_multiples_vanish_quotient;
use vstd::prelude::*;

use crate::angle::{
    cosine, cosine_of, is_heading, lemma_axis_values, lemma_reflect_x_mirrors,
    lemma_reflect_y_mirrors, reflect_x, reflect_y, sine, sine_of,
    HALF_PI_ANGLE, PI_ANGLE, TRIG_ONE,
};

verus! {

/// Position units in one arena unit.
pub const POSITION_SCALE: i64 = 1_000_000;

/// Microseconds in one second: time steps are given in microseconds.
pub const MICROS_PER_SECOND: i64 = 1_000_000;

/// The largest heading that a velocity may be given, in degrees.
pub const MAX_HEADING_DEGREES: i64 = 360;

/// Why a velocity change was refused.
#[derive(Debug, Clone, Copy, PartialEq, Eq, Structural)]
pub enum ParticleError {
    /// The heading lay outside `[0, 360]` degrees.
    InvalidHeading,
}

/// What a particle is: its position in position units, its speed in arena
/// units per second, its heading and its mass.
pub struct ParticleState {
    pub x: int,
    pub y: int,
    pub speed: nat,
    pub heading: int,
    pub mass: int,
}

/// A point mass moving at constant speed along its heading.
#[derive(Debug, Clone, Copy)]
pub struct Particle {
    x: i64,
    y: i64,
    speed: u32,
    heading: i64,
    mass: i64,
}

impl View for Particle {
    type V = ParticleState;

    closed spec fn view(&self) -> ParticleState {
        ParticleState {
            x: self.x as int,
            y: self.y as int,
            speed: self.speed as nat,
            heading: self.heading as int,
            mass: self.mass as int,
        }
    }
}

/// Whether a heading given in degrees is accepted.
pub open spec fn valid_heading_degrees(degrees: int) -> bool {
    0 <= degrees <= MAX_HEADING_DEGREES
}

/// How far, in position units, a particle with `speed` arena units per second
/// moves in `dt` microseconds along an axis whose trigonometric factor is
/// `trig`; the magnitude is rounded towards zero.
pub open spec fn displacement(speed: int, trig: int, dt: int) -> int {
    let magnitude = speed * (if trig < 0 { -trig } else { trig }) * dt * POSITION_SCALE / (
    TRIG_ONE * MICROS_PER_SECOND);
    if trig < 0 {
        -magnitude
    } else {
        magnitude
    }
}

/// The state after moving for `dt` microseconds along the heading.
pub open spec fn advanced(p: ParticleState, dt: int) -> ParticleState {
    ParticleState {
        x: p.x + displacement(p.speed as int, sine(p.heading), dt),
        y: p.y + displacement(p.speed as int, cosine(p.heading), dt),
        ..p
    }
}

/// Whether the position after moving for `dt` microseconds fits in an `i64`.
pub open spec fn advance_fits(p: ParticleState, dt: int) -> bool {
    let q = advanced(p, dt);
    i64::MIN <= q.x <= i64::MAX && i64::MIN <= q.y <= i64::MAX
}

/// The same particle with another heading.
pub open spec fn with_heading(p: ParticleState, heading: int) -> ParticleState {
    ParticleState { heading, ..p }
}

/// A bound on every displacement: 2 to the power 104.
const DISPLACEMENT_BOUND: i128 = 0x100_0000_0000_0000_0000_0000_0000;

fn displacement_of(speed: u32, trig: i64, dt: u32) -> (r: i128)
    requires
        -TRIG_ONE <= trig <= TRIG_ONE,
    ensures
        r == displacement(speed as int, trig as int, dt as int),
        -DISPLACEMENT_BOUND <= r <= DISPLACEMENT_BOUND,
{
    let t: u128 = if trig < 0 {
        (-trig) as u128
    } else {
        trig as u128
    };
    let s = speed as u128;
    let d = dt as u128;
    assert(s * t <= 0x1_0000_0000 * 0x10_0000) by (nonlinear_arith)
        requires
            s <= 0xffff_ffff,
            t <= TRIG_ONE,
    ;
    assert(s * t * d <= 0x1_0000_0000 * 0x10_0000 * 0x1_0000_0000) by (nonlinear_arith)
        requires
            s * t <= 0x1_0000_0000 * 0x10_0000,
            d <= 0xffff_ffff,
    ;
    assert(s * t * d * POSITION_SCALE <= 0x1_0000_0000 * 0x10_0000 * 0x1_0000_0000 * 0x10_0000)
        by (nonlinear_arith)
        requires
            s * t * d <= 0x1_0000_0000 * 0x10_0000 * 0x1_0000_0000,
    ;
    let product: u128 = s * t * d * (POSITION_SCALE as u128);
    let magnitude: u128 = product / ((TRIG_ONE as u128) * (MICROS_PER_SECOND as u128));
    assert(magnitude <= product) by (nonlinear_arith)
        requires
            magnitude as int == product as int / (TRIG_ONE * MICROS_PER_SECOND),
            0 <= product,
    ;
    if trig < 0 {
        -(magnitude as i128)
    } else {
        magnitude as i128
    }
}

impl Particle {
    /// Whether the particle's heading is in range.
    pub open spec fn wf(&self) -> bool {
        is_heading(self@.heading)
    }

    /// A particle at rest at `(x, y)`, heading 0.
    pub fn initialize(x: i64, y: i64, mass: i64) -> (p: Particle)
        ensures
            p@ == (ParticleState { x: x as int, y: y as int, speed: 0, heading: 0, mass: mass as int }),
            p.wf(),
    {
        Particle { x, y, speed: 0, heading: 0, mass }
    }

    /// Sets the speed, in arena units per second, and the heading, in
    /// degrees. A heading outside `[0, 360]` degrees is refused and leaves the
    /// particle as it was.
    pub fn set_velocity(&mut self, speed: u32, heading_degrees: i64) -> (r: Result<(), ParticleError>)
        requires
            old(self).wf(),
        ensures
            final(self).wf(),
            valid_heading_degrees(heading_degrees as int) ==> r is Ok && final(self)@ == (
            ParticleState {
                speed: speed as nat,
                heading: heading_degrees as int,
                ..old(self)@
            }),
            !valid_heading_degrees(heading_degrees as int) ==> r == Err::<(), ParticleError>(
                ParticleError::InvalidHeading,
            ) && final(self)@ == old(self)@,
    {
        if 0 <= heading_degrees && heading_degrees <= MAX_HEADING_DEGREES {
            self.speed = speed;
            self.heading = heading_degrees;
            Ok(())
        } else {
            Err(ParticleError::InvalidHeading)
        }
    }

    /// Whether moving for `dt_micros` keeps the position within `i64`.
    pub fn can_advance(&self, dt_micros: u32) -> (r: bool)
        requires
            self.wf(),
        ensures
            r == advance_fits(self@, dt_micros as int),
    {
        let dx = displacement_of(self.speed, sine_of(self.heading), dt_micros);
        let dy = displacement_of(self.speed, cosine_of(self.heading), dt_micros);
        let nx = self.x as i128 + dx;
        let ny = self.y as i128 + dy;
        i64::MIN as i128 <= nx && nx <= i64::MAX as i128 && i64::MIN as i128 <= ny && ny
            <= i64::MAX as i128
    }

    /// Moves the particle for `dt_micros` microseconds: the x coordinate
    /// changes by speed times the heading's sine, the y coordinate by speed
    /// times its cosine, each times the time step.
    pub fn advance(&mut self, dt_micros: u32)
        requires
            old(self).wf(),
            advance_fits(old(self)@, dt_micros as int),
        ensures
            final(self).wf(),
            final(self)@ == advanced(old(self)@, dt_micros as int),
    {
        let dx = displacement_of(self.speed, sine_of(self.heading), dt_micros);
        let dy = displacement_of(self.speed, cosine_of(self.heading), dt_micros);
        self.x = (self.x as i128 + dx) as i64;
        self.y = (self.y as i128 + dy) as i64;
    }

    /// Turns the particle to another heading.
    pub(crate) fn turn_to(&mut self, heading: i64)
        requires
            is_heading(heading as int),
        ensures
            final(self).wf(),
            final(self)@ == with_heading(old(self)@, heading as int),
    {
        self.heading = heading;
    }

    /// The x coordinate, in position units.
    pub fn x(&self) -> (r: i64)
        ensures
            r == self@.x,
    {
        self.x
    }

    /// The y coordinate, in position units.
    pub fn y(&self) -> (r: i64)
        ensures
            r == self@.y,
    {
        self.y
    }

    /// The speed, in arena units per second.
    pub fn speed(&self) -> (r: u32)
        ensures
            r == self@.speed,
    {
        self.speed
    }

    /// The heading, in degrees.
    pub fn heading(&self) -> (r: i64)
        ensures
            r == self@.heading,
    {
        self.heading
    }

    /// The mass, which the motion does not use.
    pub fn mass(&self) -> (r: i64)
        ensures
            r == self@.mass,
    {
        self.mass
    }
}

/// Reversing the trigonometric factor reverses the displacement.
pub proof fn lemma_displacement_odd(speed: int, trig: int, dt: int)
    ensures
        displacement(speed, -trig, dt) == -displacement(speed, trig, dt),
{
    if trig == 0 {
        assert(speed * 0 * dt * POSITION_SCALE == 0) by (nonlinear_arith);
    }
}

proof fn lemma_displacement_along_axis(speed: nat, dt: nat)
    ensures
        displacement(speed as int, TRIG_ONE as int, dt as int) == speed * dt * POSITION_SCALE
            / (MICROS_PER_SECOND as int),
        displacement(speed as int, 0, dt as int) == 0,
{
    let a = speed * dt * POSITION_SCALE;
    assert(speed * TRIG_ONE * dt * POSITION_SCALE == TRIG_ONE * a) by (nonlinear_arith)
        requires
            a == speed * dt * POSITION_SCALE,
    ;
    assert(0 <= a) by (nonlinear_arith)
        requires
            a == speed * dt * POSITION_SCALE,
    ;
    lemma_div_multiples_vanish_quotient(TRIG_ONE as int, a, MICROS_PER_SECOND as int);
    assert(speed * 0 * dt * POSITION_SCALE == 0) by (nonlinear_arith);
}

/// A particle heading 0 moves along +y only: by its speed times the time
/// step, in position units.
pub proof fn lemma_advance_heading_zero(p: ParticleState, dt: nat)
    requires
        p.heading == 0,
    ensures
        advanced(p, dt as int).x == p.x,
        advanced(p, dt as int).y == p.y + p.speed * dt * POSITION_SCALE / (MICROS_PER_SECOND as int),
{
    lemma_axis_values();
    lemma_displacement_along_axis(p.speed, dt);
}

/// A particle heading pi / 2 moves along +x only: by its speed times the
/// time step, in position units.
pub proof fn lemma_advance_heading_half_pi(p: ParticleState, dt: nat)
    requires
        p.heading == HALF_PI_ANGLE,
    ensures
        advanced(p, dt as int).x == p.x + p.speed * dt * POSITION_SCALE / (MICROS_PER_SECOND as int),
        advanced(p, dt as int).y == p.y,
{
    lemma_axis_values();
    lemma_displacement_along_axis(p.speed, dt);
}

/// A particle heading pi moves along -y only.
pub proof fn lemma_advance_heading_pi(p: ParticleState, dt: nat)
    requires
        p.heading == PI_ANGLE,
    ensures
        advanced(p, dt as int).x == p.x,
        advanced(p, dt as int).y == p.y - p.speed * dt * POSITION_SCALE / (MICROS_PER_SECOND as int),
{
    lemma_axis_values();
    lemma_displacement_along_axis(p.speed, dt);
    lemma_displacement_odd(p.speed as int, TRIG_ONE as int, dt as int);
}

/// A particle heading 3 pi / 2 moves along -x only.
pub proof fn lemma_advance_heading_three_half_pi(p: ParticleState, dt: nat)
    requires
        p.heading == 3 * HALF_PI_ANGLE,
    ensures
        advanced(p, dt as int).x == p.x - p.speed * dt * POSITION_SCALE / (MICROS_PER_SECOND as int),
        advanced(p, dt as int).y == p.y,
{
    lemma_axis_values();
    lemma_displacement_along_axis(p.speed, dt);
    lemma_displacement_odd(p.speed as int, TRIG_ONE as int, dt as int);
}

/// Turning a heading by the x reflection reverses the motion along x and
/// keeps the motion along y.
pub proof fn lemma_reflect_x_reverses_x_motion(p: ParticleState, dt: nat)
    requires
        is_heading(p.heading),
    ensures
        ({
            let q = with_heading(p, reflect_x(p.heading));
            &&& advanced(q, dt as int).x - q.x == -(advanced(p, dt as int).x - p.x)
            &&& advanced(q, dt as int).y - q.y == advanced(p, dt as int).y - p.y
        }),
{
    lemma_reflect_x_mirrors(p.heading);
    lemma_displacement_odd(p.speed as int, sine(p.heading), dt as int);
}

/// For a heading up to pi, turning it by the y reflection reverses the
/// motion along y and keeps the motion along x.
pub proof fn lemma_reflect_y_reverses_y_motion(p: ParticleState, dt: nat)
    requires
        0 <= p.heading <= PI_ANGLE,
    ensures
        ({
            let q = with_heading(p, reflect_y(p.heading));
            &&& advanced(q, dt as int).x - q.x == advanced(p, dt as int).x - p.x
            &&& advanced(q, dt as int).y - q.y == -(advanced(p, dt as int).y - p.y)
        }),
{
    lemma_reflect_y_mirrors(p.heading);
    lemma_displacement_odd(p.speed as int, cosine(p.heading), dt as int);
}

} // verus!
