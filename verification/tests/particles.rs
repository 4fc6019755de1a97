use simcore::colors::RgbaColor;
use simcore::curve::{ColorCurve, Curve};
use simcore::geom2::Vector2i;
use simcore::geom2::{cos_milli, sin_milli};
use simcore::particle::{EmitterSource, Particle, ParticleEmitter, ParticlePool, ParticleScale};
use simcore::random::sample_in_range;

fn live_count(e: &ParticleEmitter) -> usize {
    e.particles.particles.iter().filter(|p| p.life > 0).count()
}

#[test]
fn pool_hands_out_each_free_index_once() {
    let mut pool = ParticlePool::of_size(3);
    let a = pool.get_available().unwrap();
    let b = pool.get_available().unwrap();
    let c = pool.get_available().unwrap();
    assert!(a != b && b != c && a != c);
    assert!(a < 3 && b < 3 && c < 3);
    assert!(pool.get_available().is_none());
    assert!(pool.get_available().is_none());
}

#[test]
fn empty_pool_never_hands_out_a_slot() {
    let mut pool = ParticlePool::of_size(0);
    assert!(pool.all_dead());
    assert!(pool.get_available().is_none());
}

#[test]
fn single_point_curve_is_constant() {
    let c = Curve::new(vec![500], vec![77]);
    assert_eq!(c.y(0), 77);
    assert_eq!(c.y(500), 77);
    assert_eq!(c.y(1000), 77);
}

#[test]
fn pool_all_dead_tracks_free_count() {
    let mut pool = ParticlePool::of_size(2);
    assert!(pool.all_dead());
    let _ = pool.get_available().unwrap();
    assert!(!pool.all_dead());
}

#[test]
fn emitter_rate_below_one_accumulates_exactly() {
    // 0.3 particles per frame: exactly 3 spawns over any 10 ticks.
    let mut e = ParticleEmitter::default();
    e.particle_number = 300;
    e.particle_life = 1000;
    let origin = Vector2i::new(0, 0);
    for _ in 0..10 {
        let alive = e.update(&origin, 16);
        assert!(alive);
    }
    assert_eq!(live_count(&e), 3);
    for _ in 0..10 {
        e.update(&origin, 16);
    }
    assert_eq!(live_count(&e), 6);
}

#[test]
fn emitter_one_per_frame_lifecycle() {
    // rate 1.0, life 10, non-burst: 10 live after 10 ticks; after the 11th
    // the first-spawned slot has returned to the free list.
    let mut e = ParticleEmitter::default();
    assert_eq!(e.particle_number, 1000);
    assert_eq!(e.particle_life, 10);
    let origin = Vector2i::new(0, 0);
    for _ in 0..10 {
        assert!(e.update(&origin, 16));
    }
    // liveness is free-list membership: a slot is live until recycled
    let capacity = e.particles.particles.len();
    assert_eq!(capacity - e.particles.free.len(), 10);

    assert!(e.update(&origin, 16));
    assert_eq!(capacity - e.particles.free.len(), 10);
    // the recycled slot is the one the first spawn claimed: the top of the
    // initial free stack
    assert_eq!(e.particles.free[0], 10);
}

#[test]
fn burst_emitter_spawns_once_then_requests_deletion() {
    let mut e = ParticleEmitter::default();
    e.burst = true;
    e.particle_number = 3000;
    e.particle_life = 2;
    let origin = Vector2i::new(0, 0);

    assert!(e.update(&origin, 16));
    assert_eq!(live_count(&e), 3);
    assert!(!e.enabled);

    // disabled: no further spawns, particles age out
    assert!(e.update(&origin, 16));
    assert_eq!(live_count(&e), 0);

    // dead slots recycled; every slot free again: request deletion
    assert!(!e.update(&origin, 16));
    assert_eq!(e.particles.free.len(), e.particles.particles.len());
}

#[test]
fn spawned_particles_inherit_configuration() {
    let mut e = ParticleEmitter::default();
    e.damping = 250;
    e.scale = ParticleScale::Constant(Vector2i::new(7000, 9000));
    e.particle_life = 5;
    let origin = Vector2i::new(1000, -2000);
    e.update(&origin, 0);
    let live: Vec<_> = e.particles.particles.iter().filter(|p| p.life > 0).collect();
    assert_eq!(live.len(), 1);
    let p = live[0];
    // dt = 0: the spawn position is the emitter position plus offset
    assert_eq!(p.position, origin);
    assert_eq!(p.scale, Vector2i::new(7000, 9000));
    assert_eq!(p.damping, 250);
    assert_eq!(p.initial_life, 5);
    assert_eq!(p.life, 4);
}

#[test]
fn line_source_spawns_on_segment() {
    let src = EmitterSource::Line(Vector2i::new(1000, 0), Vector2i::new(2000, 0));
    let origin = Vector2i::new(0, 0);
    for _ in 0..50 {
        let p = src.spawn_position(&origin);
        assert!(p.x >= -1000 && p.x <= 2000);
        assert_eq!(p.y, 0);
    }
    let point = EmitterSource::Point;
    assert_eq!(point.spawn_position(&origin), origin);
}

#[test]
fn sampling_respects_inclusive_bounds() {
    for _ in 0..200 {
        let r = sample_in_range(-5, 4);
        assert!(r >= -5 && r <= 4);
    }
    assert_eq!(sample_in_range(9, 9), 9);
}

#[test]
fn scalar_curve_interpolates_and_clamps() {
    let c = Curve::new(vec![0, 1000], vec![0, 1000]);
    assert_eq!(c.y(0), 0);
    assert_eq!(c.y(250), 250);
    assert_eq!(c.y(500), 500);
    assert_eq!(c.y(1000), 1000);
    // beyond the last control point: clamped to the last value
    assert_eq!(c.y(4000), 1000);

    let down = Curve::new(vec![100, 300], vec![800, -200]);
    // before the first control point: clamped to the first value
    assert_eq!(down.y(0), 800);
    assert_eq!(down.y(200), 300);
    assert_eq!(down.y(300), -200);
}

#[test]
fn color_curve_interpolates_channels() {
    let c = ColorCurve::new(
        vec![0, 1000],
        vec![RgbaColor::new(0, 100, 255, 255), RgbaColor::new(200, 100, 55, 255)],
    );
    let mid = c.y(500);
    assert_eq!(mid, RgbaColor::new(100, 100, 155, 255));
    assert_eq!(c.y(0), RgbaColor::new(0, 100, 255, 255));
    assert_eq!(c.y(1000), RgbaColor::new(200, 100, 55, 255));
}

#[test]
fn particle_age_and_color_follow_lifetime() {
    let mut e = ParticleEmitter::default();
    e.particle_life = 10;
    e.colors = ColorCurve::new(
        vec![0, 1000],
        vec![RgbaColor::new(200, 0, 0, 255), RgbaColor::new(0, 0, 0, 55)],
    );
    let origin = Vector2i::new(0, 0);
    e.update(&origin, 0);
    let idx = e
        .particles
        .particles
        .iter()
        .position(|p| p.life > 0)
        .unwrap();
    let p = &e.particles.particles[idx];
    // one frame of ten elapsed: age 100 per-mille
    assert_eq!(p.age(), 100);
    let c = p.color();
    assert_eq!(c, RgbaColor::new(180, 0, 0, 235));
}

#[test]
fn trig_table_hits_quarter_points() {
    assert_eq!(sin_milli(0), 0);
    assert_eq!(sin_milli(250), 1000);
    assert_eq!(sin_milli(500), 0);
    assert_eq!(sin_milli(750), -1000);
    assert_eq!(sin_milli(125), 707);
    assert_eq!(cos_milli(0), 1000);
    assert_eq!(cos_milli(250), 0);
    assert_eq!(cos_milli(500), -1000);
}

#[test]
fn kinematics_integrate_velocity_with_damping() {
    let mut p = Particle::default();
    p.life = 5;
    p.initial_life = 5;
    p.velocity = Vector2i::new(10_000, -4000);
    p.damping = 500;
    p.update(1000);
    // damping halves the velocity; one second of travel adds it to the position
    assert_eq!(p.velocity, Vector2i::new(5000, -2000));
    assert_eq!(p.position, Vector2i::new(5000, -2000));
    assert_eq!(p.life, 4);
}
