use particle_sim::angle::{
    cosine_of, reflect_x_heading, reflect_y_heading, sine_of, HALF_PI_ANGLE, PI_ANGLE,
    TRIG_ONE, TWO_PI_ANGLE,
};
use particle_sim::engine::{Engine, SimConfig};
use particle_sim::particle::{Particle, ParticleError, POSITION_SCALE};

const TICK: u32 = 10_000;

fn moving(x: i64, y: i64, speed: u32, degrees: i64) -> Particle {
    let mut p = Particle::initialize(x * POSITION_SCALE, y * POSITION_SCALE, 10);
    assert_eq!(p.set_velocity(speed, degrees), Ok(()));
    p
}

#[test]
fn initialize_is_at_rest() {
    let p = Particle::initialize(3, -4, 10);
    assert_eq!((p.x(), p.y(), p.speed(), p.heading(), p.mass()), (3, -4, 0, 0, 10));
}

#[test]
fn set_velocity_converts_degrees() {
    let mut p = Particle::initialize(0, 0, 10);
    assert_eq!(p.set_velocity(250, 90), Ok(()));
    assert_eq!(p.speed(), 250);
    assert_eq!(p.heading(), HALF_PI_ANGLE);
    assert_eq!(p.set_velocity(150, 0), Ok(()));
    assert_eq!(p.heading(), 0);
    assert_eq!(p.set_velocity(150, 360), Ok(()));
    assert_eq!(p.heading(), TWO_PI_ANGLE);
    assert_eq!(p.set_velocity(151, 137), Ok(()));
    assert_eq!((p.speed(), p.heading()), (151, 137));
}

#[test]
fn set_velocity_rejects_out_of_range() {
    let mut p = moving(1, 2, 300, 45);
    assert_eq!(p.set_velocity(100, -1), Err(ParticleError::InvalidHeading));
    assert_eq!(p.set_velocity(100, 361), Err(ParticleError::InvalidHeading));
    assert_eq!(p.set_velocity(100, i64::MIN), Err(ParticleError::InvalidHeading));
    assert_eq!((p.speed(), p.heading()), (300, 45));
    assert_eq!((p.x(), p.y()), (POSITION_SCALE, 2 * POSITION_SCALE));
}

#[test]
fn advance_heading_zero_moves_along_y() {
    let mut p = moving(100, 100, 200, 0);
    p.advance(TICK);
    assert_eq!(p.x(), 100 * POSITION_SCALE);
    assert_eq!(p.y(), 102 * POSITION_SCALE);
}

#[test]
fn advance_heading_ninety_moves_along_x() {
    let mut p = moving(100, 100, 200, 90);
    p.advance(TICK);
    assert_eq!(p.x(), 102 * POSITION_SCALE);
    assert_eq!(p.y(), 100 * POSITION_SCALE);
}

#[test]
fn advance_heading_one_eighty_and_two_seventy() {
    let mut p = moving(100, 100, 300, 180);
    p.advance(1_000_000);
    assert_eq!((p.x(), p.y()), (100 * POSITION_SCALE, -200 * POSITION_SCALE));
    let mut q = moving(100, 100, 300, 270);
    q.advance(1_000_000);
    assert_eq!((q.x(), q.y()), (-200 * POSITION_SCALE, 100 * POSITION_SCALE));
}

#[test]
fn advance_at_thirty_degrees() {
    let mut p = moving(0, 0, 100, 30);
    p.advance(1_000_000);
    assert_eq!(p.x(), 50 * POSITION_SCALE);
    assert_eq!(p.y(), 86_602_500);
}

#[test]
fn trig_values() {
    assert_eq!(sine_of(0), 0);
    assert_eq!(cosine_of(0), TRIG_ONE);
    assert_eq!(sine_of(HALF_PI_ANGLE), TRIG_ONE);
    assert_eq!(cosine_of(HALF_PI_ANGLE), 0);
    assert_eq!(cosine_of(PI_ANGLE), -TRIG_ONE);
    assert_eq!(sine_of(270), -TRIG_ONE);
    assert_eq!(sine_of(30), 500_000);
    assert_eq!(cosine_of(60), 500_000);
    assert_eq!(sine_of(45), 707_107);
    assert_eq!(sine_of(315), -707_107);
    assert_eq!(cosine_of(315), 707_107);
}

#[test]
fn reflect_x_values() {
    assert_eq!(reflect_x_heading(HALF_PI_ANGLE), 270);
    assert_eq!(reflect_x_heading(0), TWO_PI_ANGLE);
    assert_eq!(reflect_x_heading(30), 330);
}

#[test]
fn reflect_y_values() {
    assert_eq!(reflect_y_heading(45), 135);
    assert_eq!(reflect_y_heading(270), 90);
    assert_eq!(reflect_y_heading(PI_ANGLE), 0);
    assert_eq!(reflect_y_heading(0), PI_ANGLE);
}

#[test]
fn x_wall_reflects_and_turns_back() {
    let mut e = Engine::new(1000, vec![moving(999, 500, 200, 90)]);
    e.step(TICK);
    let p = e.particle(0);
    assert_eq!(p.x(), 1001 * POSITION_SCALE);
    assert_eq!(p.heading(), 270);
    e.step(TICK);
    assert_eq!(e.particle(0).x(), 999 * POSITION_SCALE);
    assert_eq!(e.particle(0).heading(), 270);
}

#[test]
fn x_wall_containment_over_many_ticks() {
    let mut e = Engine::new(1000, vec![moving(500, 500, 350, 90), moving(10, 500, 150, 270)]);
    for _ in 0..20_000 {
        e.step(TICK);
        for (x, _) in e.positions() {
            assert!(x >= -4 * POSITION_SCALE && x <= 1004 * POSITION_SCALE);
        }
    }
}

#[test]
fn y_wall_reflects_low_heading() {
    let mut e = Engine::new(1000, vec![moving(500, 999, 200, 45)]);
    let before = e.particle(0).heading();
    e.step(TICK);
    assert_eq!(before, 45);
    assert_eq!(e.particle(0).heading(), 135);
}

#[test]
fn y_wall_reflects_high_heading() {
    let mut e = Engine::new(1000, vec![moving(500, 1, 200, 270)]);
    e.step(TICK);
    assert_eq!(e.particle(0).y(), POSITION_SCALE);
    assert_eq!(e.particle(0).heading(), 270);
    let mut f = Engine::new(1000, vec![moving(500, 1, 200, 225)]);
    f.step(TICK);
    assert_eq!(f.particle(0).heading(), 135);
}

#[test]
fn corner_applies_both_reflections() {
    // The x rule turns 45 degrees into 315, and the y rule, above pi, turns
    // that into 360 - 315.
    let mut e = Engine::new(1000, vec![moving(999, 999, 300, 45)]);
    e.step(TICK);
    assert_eq!(e.particle(0).heading(), 45);
}

#[test]
fn end_to_end_bounce_on_top_wall() {
    let mut e = Engine::new(1000, vec![moving(500, 500, 200, 0)]);
    for _ in 0..249 {
        e.step(TICK);
    }
    assert_eq!(e.particle(0).heading(), 0);
    e.step(TICK);
    assert_eq!(e.positions(), vec![(500 * POSITION_SCALE, 1000 * POSITION_SCALE)]);
    assert_eq!(e.particle(0).heading(), PI_ANGLE);
    for _ in 0..100_000 {
        e.step(TICK);
        let (x, y) = e.positions()[0];
        assert_eq!(x, 500 * POSITION_SCALE);
        assert!(y >= -2 * POSITION_SCALE && y <= 1002 * POSITION_SCALE);
    }
}

#[test]
fn positions_read_twice_are_equal() {
    let mut e = Engine::new(1000, vec![moving(1, 2, 200, 10), moving(3, 4, 300, 200)]);
    e.step(TICK);
    let a = e.positions();
    let b = e.positions();
    assert_eq!(a, b);
    assert_eq!(a.len(), 2);
}

#[test]
fn every_particle_moves_every_tick() {
    let ps: Vec<Particle> = (0..5).map(|i| moving(100 + 100 * i, 300, 200, 90 * (i % 4))).collect();
    let mut e = Engine::new(1000, ps);
    let before = e.positions();
    e.step(TICK);
    let after = e.positions();
    for i in 0..5 {
        assert_ne!(before[i], after[i]);
    }
    assert_eq!(after[0], (100 * POSITION_SCALE, 302 * POSITION_SCALE));
    assert_eq!(after[1], (202 * POSITION_SCALE, 300 * POSITION_SCALE));
    assert_eq!(after[2], (300 * POSITION_SCALE, 298 * POSITION_SCALE));
    assert_eq!(after[3], (398 * POSITION_SCALE, 300 * POSITION_SCALE));
}

#[test]
fn empty_engine_steps() {
    let mut e = Engine::new(1000, Vec::new());
    assert!(e.can_step(TICK));
    e.step(TICK);
    assert_eq!(e.positions(), Vec::new());
    assert_eq!(e.particle_count(), 0);
}

#[test]
fn can_step_detects_overflow() {
    let p = Particle::initialize(i64::MAX - 10, 0, 1);
    let mut q = p;
    assert_eq!(q.set_velocity(1000, 90), Ok(()));
    assert!(!q.can_advance(TICK));
    assert!(q.can_advance(0));
    let e = Engine::new(1000, vec![q]);
    assert!(!e.can_step(TICK));
    assert!(Engine::new(1000, vec![moving(5, 5, 400, 33)]).can_step(TICK));
}

#[test]
fn default_config() {
    let c = SimConfig::default();
    assert_eq!(
        (c.particle_count, c.arena_size, c.speed_min, c.speed_max, c.tick_micros, c.mass),
        (10, 1000, 150, 400, 10_000, 10)
    );
}

#[test]
fn random_engine_is_within_bounds() {
    let c = SimConfig::default();
    let e = Engine::new_random(&c);
    assert_eq!(e.particle_count(), 10);
    assert_eq!(e.arena_max(), 1000 * POSITION_SCALE);
    for i in 0..10 {
        let p = e.particle(i);
        assert!(p.x() >= 0 && p.x() < 1000 * POSITION_SCALE);
        assert!(p.y() >= 0 && p.y() < 1000 * POSITION_SCALE);
        assert!(p.speed() >= 150 && p.speed() < 400);
        assert!(p.heading() >= 0 && p.heading() < TWO_PI_ANGLE);
        assert_eq!(p.mass(), 10);
    }
    let positions = e.positions();
    assert!(positions.iter().any(|q| *q != positions[0]));
}

#[test]
fn advance_at_forty_five_degrees() {
    let mut p = moving(0, 0, 100, 45);
    p.advance(1_000_000);
    assert_eq!((p.x(), p.y()), (70_710_700, 70_710_700));
}

#[test]
fn x_containment_at_oblique_heading() {
    let mut e = Engine::new(1000, vec![moving(500, 500, 377, 30)]);
    for _ in 0..5_000 {
        e.step(TICK);
        let (x, _) = e.positions()[0];
        assert!(x >= -4 * POSITION_SCALE && x <= 1004 * POSITION_SCALE);
    }
}
