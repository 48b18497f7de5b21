//! Behavioural tests of the weather engine: pool bounds, culling, life
//! countdown, effect cycling, settings, and the spawn throttle.

use peppemon::engine::{CycleMode, Effect, ParticleSystem};
use peppemon::particle::{Particle, Rgb, POS_SCALE};
use peppemon::settings::{settings_change, SettingsRow};

const EPOCH_JULY: u64 = 1_752_537_600;

fn engine() -> ParticleSystem {
    ParticleSystem::new(42, 0, EPOCH_JULY)
}

fn assert_all_in_bounds(ps: &ParticleSystem, width: u16, height: u16) {
    for p in &ps.particles {
        assert!(p.y < (height as i64 + 1) * POS_SCALE);
        assert!(p.x >= -POS_SCALE);
        assert!(p.x < (width as i64 + 1) * POS_SCALE);
        assert!(p.life > 0);
    }
}

#[test]
fn pool_never_exceeds_capacity() {
    let mut ps = engine();
    settings_change(&mut ps, SettingsRow::Intensity, true, 0);
    settings_change(&mut ps, SettingsRow::Intensity, true, 0);
    for _ in 0..4 {
        settings_change(&mut ps, SettingsRow::Speed, false, 0);
    }
    assert_eq!(ps.intensity, 5);
    assert_eq!(ps.speed, 1);
    let mut max_len = 0;
    for _ in 0..1200 {
        ps.update(80, 24, 16, 0, EPOCH_JULY);
        if ps.particles.len() > max_len {
            max_len = ps.particles.len();
        }
        assert!(ps.particles.len() <= 100);
    }
    assert_eq!(max_len, 100);
}

#[test]
fn out_of_band_particles_are_culled() {
    let mut ps = engine();
    // plant particles that must be gone after the very next update:
    // below the bottom edge, past the right edge, and out of life
    ps.particles.push(Particle {
        x: 10 * POS_SCALE,
        y: 30 * POS_SCALE,
        glyph: '*',
        fg: Rgb { r: 1, g: 2, b: 3 },
        speed_y: 1000,
        drift_x: 0,
        life: 50,
    });
    ps.particles.push(Particle {
        x: 90 * POS_SCALE,
        y: 5 * POS_SCALE,
        glyph: '*',
        fg: Rgb { r: 1, g: 2, b: 3 },
        speed_y: 1000,
        drift_x: 0,
        life: 50,
    });
    ps.particles.push(Particle {
        x: 10 * POS_SCALE,
        y: 5 * POS_SCALE,
        glyph: '*',
        fg: Rgb { r: 1, g: 2, b: 3 },
        speed_y: 1000,
        drift_x: 0,
        life: 1,
    });
    ps.update(80, 24, 16, 0, EPOCH_JULY);
    assert_all_in_bounds(&ps, 80, 24);
    for _ in 0..200 {
        ps.update(80, 24, 16, 0, EPOCH_JULY);
        assert_all_in_bounds(&ps, 80, 24);
    }
}

#[test]
fn life_decreases_by_one_per_update() {
    let mut ps = engine();
    for _ in 0..6 {
        ps.update(80, 24, 16, 0, EPOCH_JULY);
    }
    assert!(ps.particles.len() > 0);
    let lives: Vec<u16> = ps.particles.iter().map(|p| p.life).collect();
    ps.update(80, 24, 16, 0, EPOCH_JULY);
    assert_eq!(ps.particles.len(), lives.len());
    for (p, old_life) in ps.particles.iter().zip(lives.iter()) {
        assert_eq!(p.life, old_life - 1);
    }
}

#[test]
fn auto_cycle_advances_after_45s() {
    let mut ps = engine();
    assert_eq!(ps.effect, Effect::Rain);
    let mut now = 0u64;
    while now < 45_000 {
        ps.update(80, 24, 16, now, EPOCH_JULY);
        assert_eq!(ps.effect, Effect::Rain);
        now += 1_000;
    }
    ps.update(80, 24, 16, 45_000, EPOCH_JULY);
    assert_eq!(ps.effect, Effect::Snow);
    assert_eq!(ps.transition_cooldown, 29);

    // the same boundary, subdivided differently
    let mut ps2 = engine();
    ps2.update(80, 24, 16, 15_000, EPOCH_JULY);
    ps2.update(80, 24, 16, 44_999, EPOCH_JULY);
    assert_eq!(ps2.effect, Effect::Rain);
    ps2.update(80, 24, 16, 45_000, EPOCH_JULY);
    assert_eq!(ps2.effect, Effect::Snow);
}

#[test]
fn pinned_mode_never_cycles() {
    let mut ps = engine();
    settings_change(&mut ps, SettingsRow::CycleMode, true, 0);
    assert_eq!(ps.cycle_mode, CycleMode::Pinned);
    for k in 0..200u64 {
        ps.update(80, 24, 16, k * 1_000, EPOCH_JULY);
    }
    assert_eq!(ps.effect, Effect::Rain);
}

#[test]
fn effect_change_clears_pool_immediately() {
    let mut ps = engine();
    for _ in 0..60 {
        ps.update(80, 24, 16, 0, EPOCH_JULY);
    }
    assert!(ps.particles.len() > 0);
    settings_change(&mut ps, SettingsRow::Effect, true, 123);
    assert_eq!(ps.particles.len(), 0);
    assert_eq!(ps.effect, Effect::Snow);
    assert_eq!(ps.transition_cooldown, 30);
    assert_eq!(ps.cycle_started_ms, 123);
}

#[test]
fn transition_cooldown_delays_spawning() {
    let mut ps = engine();
    settings_change(&mut ps, SettingsRow::Effect, true, 0);
    // 30 cooldown steps pass without any spawn, and spawning resumes only
    // on a sixth frame after that
    for _ in 0..30 {
        ps.update(80, 24, 16, 0, EPOCH_JULY);
        assert_eq!(ps.particles.len(), 0);
    }
    let mut seen = false;
    for _ in 0..6 {
        ps.update(80, 24, 16, 0, EPOCH_JULY);
        seen = seen || ps.particles.len() > 0;
    }
    assert!(seen);
}

#[test]
fn rain_spawns_only_every_sixth_call() {
    let mut ps = engine();
    assert_eq!(ps.effect, Effect::Rain);
    assert_eq!(ps.intensity, 3);
    for _ in 0..5 {
        ps.update(80, 24, 16, 0, EPOCH_JULY);
        assert_eq!(ps.particles.len(), 0);
    }
    ps.update(80, 24, 16, 0, EPOCH_JULY);
    assert_eq!(ps.particles.len(), 3);
}

#[test]
fn rain_classes_keep_their_kinematics() {
    let mut ps = engine();
    for _ in 0..600 {
        ps.update(80, 24, 16, 0, EPOCH_JULY);
    }
    assert!(ps.particles.len() > 10);
    for p in &ps.particles {
        match p.glyph {
            '\u{00b7}' => {
                // light mist: slow fall, no drift
                assert!((500..=799).contains(&p.speed_y));
                assert_eq!(p.drift_x, 0);
            }
            '\u{2502}' | '|' => {
                // heavy streak: fast fall, no drift
                assert!((800..=1399).contains(&p.speed_y));
                assert_eq!(p.drift_x, 0);
            }
            '/' => {
                // wind-caught heavy drop: fast fall, slight rightward drift
                assert!((800..=1399).contains(&p.speed_y));
                assert!((100..=199).contains(&p.drift_x));
            }
            g => panic!("unexpected rain glyph {:?}", g),
        }
    }
}

#[test]
fn speed_ten_moves_exactly_fifteen_times_speed_one() {
    let seed_particle = Particle {
        x: 0,
        y: 0,
        glyph: '*',
        fg: Rgb { r: 9, g: 9, b: 9 },
        speed_y: 1000,
        drift_x: 0,
        life: 100,
    };
    let mut slow = engine();
    for _ in 0..4 {
        settings_change(&mut slow, SettingsRow::Speed, false, 0);
    }
    assert_eq!(slow.speed, 1);
    slow.particles.push(seed_particle);
    slow.update(80, 24, 100, 0, EPOCH_JULY);

    let mut fast = engine();
    for _ in 0..5 {
        settings_change(&mut fast, SettingsRow::Speed, true, 0);
    }
    assert_eq!(fast.speed, 10);
    fast.particles.push(seed_particle);
    fast.update(80, 24, 100, 0, EPOCH_JULY);

    let dy_slow = slow.particles[0].y;
    let dy_fast = fast.particles[0].y;
    assert_eq!(dy_slow, 1000 * 9 * 100);
    assert_eq!(dy_fast, 1000 * 135 * 100);
    assert_eq!(dy_fast, 15 * dy_slow);
}

#[test]
fn delta_time_is_capped() {
    let mut ps = engine();
    ps.particles.push(Particle {
        x: 0,
        y: 0,
        glyph: '*',
        fg: Rgb { r: 9, g: 9, b: 9 },
        speed_y: 100,
        drift_x: 0,
        life: 100,
    });
    // an hour-long stall simulates only 150 ms
    ps.update(8000, 8000, 3_600_000, 0, EPOCH_JULY);
    assert_eq!(ps.particles[0].y, 100 * 65 * 150);
}

#[test]
fn intensity_and_speed_are_clamped() {
    let mut ps = engine();
    for _ in 0..20 {
        settings_change(&mut ps, SettingsRow::Intensity, true, 0);
        settings_change(&mut ps, SettingsRow::Speed, true, 0);
    }
    assert_eq!(ps.intensity, 5);
    assert_eq!(ps.speed, 10);
    for _ in 0..20 {
        settings_change(&mut ps, SettingsRow::Intensity, false, 0);
        settings_change(&mut ps, SettingsRow::Speed, false, 0);
    }
    assert_eq!(ps.intensity, 1);
    assert_eq!(ps.speed, 1);
}

#[test]
fn settings_rows_wrap_both_ways() {
    let rows = [
        SettingsRow::Effect,
        SettingsRow::CycleMode,
        SettingsRow::SeasonMode,
        SettingsRow::Intensity,
        SettingsRow::Speed,
    ];
    for (i, r) in rows.iter().enumerate() {
        assert_eq!(r.next(), rows[(i + 1) % rows.len()]);
        assert_eq!(rows[(i + 1) % rows.len()].prev(), *r);
    }
}

#[test]
fn disabled_engine_does_nothing() {
    let mut ps = engine();
    ps.enabled = false;
    for _ in 0..50 {
        ps.update(80, 24, 16, 0, EPOCH_JULY);
    }
    assert_eq!(ps.particles.len(), 0);
    assert_eq!(ps.frame_count, 0);
}
