//! The weather engine: the bounded particle pool and the effect, cycle and
//! season state machine that drives it.
//!
//! Each update advances every particle, drops the dead and the out-of-band
//! ones, and — on every sixth call, outside a transition cooldown — spawns
//! up to `intensity` particles under the active effect's rule, never letting
//! the pool exceed `MAX_PARTICLES`.

use vstd::prelude::*;

use crate::lightning::{
    spec_lightning_step, spec_lightning_unchanged, update_lightning, LightningState,
};
use crate::particle::{
    pool_view, spec_dtc, spec_mult_num, spec_move_pool, spec_step, spec_survives, wf_particle,
    Particle, ParticleModel, Rgb, DT_CAP_MS, POS_MILLI, POS_SCALE,
};
use crate::rng::{rng_below, rng_bool, rng_from_seed};
use crate::season::{
    detect_season, next_season, spec_month_from_epoch, spec_next_season, spec_season_of_month,
    Season, SeasonMode,
};

verus! {

/// Particle pool capacity; spawns are dropped once full, nothing is evicted.
pub const MAX_PARTICLES: usize = 100;

/// Milliseconds between automatic effect changes in auto-cycle mode.
pub const CYCLE_MS: u64 = 45_000;

/// Milliseconds between automatic season changes in auto-rotate mode.
pub const SEASON_MS: u64 = 15_000;

/// Update steps of the transition cooldown armed by an effect change.
pub const COOLDOWN_STEPS: u8 = 30;

/// Spawning happens only on every `SPAWN_PERIOD`-th update call.
pub const SPAWN_PERIOD: u32 = 6;

/// The active weather theme.
#[derive(Clone, Copy, PartialEq, Eq, Structural, Debug)]
pub enum Effect {
    Rain,
    Snow,
    Lightning,
    Seasons,
}

/// Whether the effect rotates on a timer or stays as chosen.
#[derive(Clone, Copy, PartialEq, Eq, Structural, Debug)]
pub enum CycleMode {
    Auto,
    Pinned,
}

/// The fixed rotation Rain -> Snow -> Lightning -> Seasons -> Rain.
pub open spec fn spec_next_effect(e: Effect) -> Effect {
    match e {
        Effect::Rain => Effect::Snow,
        Effect::Snow => Effect::Lightning,
        Effect::Lightning => Effect::Seasons,
        Effect::Seasons => Effect::Rain,
    }
}

/// The same rotation walked backwards.
pub open spec fn spec_prev_effect(e: Effect) -> Effect {
    match e {
        Effect::Rain => Effect::Seasons,
        Effect::Snow => Effect::Rain,
        Effect::Lightning => Effect::Snow,
        Effect::Seasons => Effect::Lightning,
    }
}

/// Advances the effect one step along the fixed rotation order.
pub fn next_effect(e: Effect) -> (r: Effect)
    ensures
        r == spec_next_effect(e),
{
    match e {
        Effect::Rain => Effect::Snow,
        Effect::Snow => Effect::Lightning,
        Effect::Lightning => Effect::Seasons,
        Effect::Seasons => Effect::Rain,
    }
}

/// Steps the effect backwards along the fixed rotation order.
pub fn prev_effect(e: Effect) -> (r: Effect)
    ensures
        r == spec_prev_effect(e),
{
    match e {
        Effect::Rain => Effect::Seasons,
        Effect::Snow => Effect::Rain,
        Effect::Lightning => Effect::Snow,
        Effect::Seasons => Effect::Lightning,
    }
}

/// The weather engine's state: the particle pool, the active effect and its
/// modes, and the timers that drive automatic rotation.
pub struct ParticleSystem {
    /// The bounded particle pool.
    pub particles: Vec<Particle>,
    /// Seedable source of every random draw.
    pub rng: fastrand::Rng,
    /// The active weather theme.
    pub effect: Effect,
    /// Auto-rotate the effect, or hold the chosen one.
    pub cycle_mode: CycleMode,
    /// How the Seasons effect picks the season of each spawn.
    pub season_mode: SeasonMode,
    /// Particles requested per spawn event, 1 to 5.
    pub intensity: u8,
    /// Velocity scale setting, 1 to 10.
    pub speed: u8,
    /// Season used by auto-rotate; advanced on its own timer.
    pub current_season: Season,
    /// Reference-clock reading when the season timer last restarted.
    pub season_started_ms: u64,
    /// Reference-clock reading when the effect-cycle timer last restarted.
    pub cycle_started_ms: u64,
    /// The lightning generator's state.
    pub lightning: LightningState,
    /// When false, updates are no-ops.
    pub enabled: bool,
    /// Update calls seen so far; drives the spawn throttle and the sway.
    pub frame_count: u32,
    /// Update steps left before spawning resumes after an effect change.
    pub transition_cooldown: u8,
}

/// Everything but the particle pool and the random generator is unchanged.
pub open spec fn spec_same_settings(s0: ParticleSystem, s1: ParticleSystem) -> bool {
    &&& s1.effect == s0.effect
    &&& s1.cycle_mode == s0.cycle_mode
    &&& s1.season_mode == s0.season_mode
    &&& s1.intensity == s0.intensity
    &&& s1.speed == s0.speed
    &&& s1.current_season == s0.current_season
    &&& s1.season_started_ms == s0.season_started_ms
    &&& s1.cycle_started_ms == s0.cycle_started_ms
    &&& s1.enabled == s0.enabled
    &&& s1.frame_count == s0.frame_count
    &&& s1.transition_cooldown == s0.transition_cooldown
    &&& spec_lightning_unchanged(s0.lightning, s1.lightning)
}

/// Nothing observable changed at all.
pub open spec fn spec_engine_unchanged(s0: ParticleSystem, s1: ParticleSystem) -> bool {
    &&& spec_same_settings(s0, s1)
    &&& s1.particles@ == s0.particles@
}

/// A spawned horizontal position: somewhere in the viewport columns, or
/// column zero when there are none.
pub open spec fn spec_spawn_x_ok(x: int, width: u16) -> bool {
    &&& 0 <= x
    &&& x < POS_SCALE * (if width == 0 {
        1int
    } else {
        width as int
    })
}

/// Shape of a heavy rain drop: it falls at 0.8 to 1.4 cells per step, and
/// either shows a vertical streak glyph with no drift, or was caught by
/// the wind and shows the diagonal glyph with a slight rightward drift.
pub open spec fn spec_rain_heavy_shape(p: ParticleModel) -> bool {
    &&& 800 <= p.speed_y <= 1399
    &&& if p.glyph == '/' {
        100 <= p.drift_x <= 199
    } else {
        (p.glyph == '\u{2502}' || p.glyph == '|') && p.drift_x == 0
    }
}

/// Shape of light mist: the small dot glyph, falling at 0.5 to 0.8 cells
/// per step, with no drift.
pub open spec fn spec_rain_mist_shape(p: ParticleModel) -> bool {
    &&& p.glyph == '\u{00b7}'
    &&& 500 <= p.speed_y <= 799
    &&& p.drift_x == 0
}

/// Shape of a rain particle at spawn: just above the top edge with 1200
/// steps of life, either a heavy drop or light mist.
pub open spec fn spec_rain_shape(p: ParticleModel, width: u16) -> bool {
    &&& p.life == 1200
    &&& spec_spawn_x_ok(p.x, width)
    &&& -3 * POS_SCALE < p.y <= 0
    &&& (spec_rain_heavy_shape(p) || spec_rain_mist_shape(p))
}


/// Shape of a snow particle at spawn: a small flake glyph just above the
/// top edge, falling at 0.15 to 0.5 cells per step with a gentle sway, with
/// 1800 steps of life.
pub open spec fn spec_snow_shape(p: ParticleModel, width: u16) -> bool {
    &&& (p.glyph == '*' || p.glyph == '\u{00b7}' || p.glyph == '\u{2022}' || p.glyph == '.')
    &&& p.life == 1800
    &&& spec_spawn_x_ok(p.x, width)
    &&& -2 * POS_SCALE < p.y <= 0
    &&& 150 <= p.speed_y <= 499
    &&& -300 <= p.drift_x <= 300
}

/// Shape of a spring particle: a blossom glyph drifting down slowly with a
/// gentle sway, 1500 steps of life.
pub open spec fn spec_spring_shape(p: ParticleModel, width: u16) -> bool {
    &&& (p.glyph == '*' || p.glyph == '.' || p.glyph == '\u{00b7}' || p.glyph == '\'')
    &&& p.life == 1500
    &&& spec_spawn_x_ok(p.x, width)
    &&& -2 * POS_SCALE < p.y <= 0
    &&& 150 <= p.speed_y <= 349
    &&& -250 <= p.drift_x <= 250
}

/// Shape of a summer particle: a firefly in the lower two fifths of the
/// viewport, hovering with near-zero vertical speed and a small jitter,
/// with a short randomized life.
pub open spec fn spec_summer_shape(p: ParticleModel, width: u16, height: u16) -> bool {
    &&& (p.glyph == '.' || p.glyph == '\u{00b7}' || p.glyph == '\u{00b0}' || p.glyph == '*')
    &&& 120 <= p.life <= 329
    &&& spec_spawn_x_ok(p.x, width)
    &&& 0 <= p.y
    &&& 10 * p.y >= 6 * POS_SCALE * height
    &&& 100 * p.y <= 98 * POS_SCALE * height
    &&& p.y <= POS_SCALE * height
    &&& -50 <= p.speed_y <= 49
    &&& -150 <= p.drift_x <= 149
}

/// Shape of an autumn particle: a leaf glyph falling faster with a wide
/// sway, 1200 steps of life.
pub open spec fn spec_autumn_shape(p: ParticleModel, width: u16) -> bool {
    &&& (p.glyph == '~' || p.glyph == '}' || p.glyph == '{' || p.glyph == '\\' || p.glyph == '/'
        || p.glyph == '_')
    &&& p.life == 1200
    &&& spec_spawn_x_ok(p.x, width)
    &&& -2 * POS_SCALE < p.y <= 0
    &&& 300 <= p.speed_y <= 799
    &&& -500 <= p.drift_x <= 500
}

/// Shape of a winter particle: a snow-like glyph, possibly a distant flake
/// at half speed, with 1800 steps of life.
pub open spec fn spec_winter_shape(p: ParticleModel, width: u16) -> bool {
    &&& (p.glyph == '*' || p.glyph == '.' || p.glyph == '\u{00b7}' || p.glyph == '\u{00b0}'
        || p.glyph == '+')
    &&& p.life == 1800
    &&& spec_spawn_x_ok(p.x, width)
    &&& -2 * POS_SCALE < p.y <= 0
    &&& 50 <= p.speed_y <= 449
    &&& -200 <= p.drift_x <= 200
}

/// Shape of a particle of the given season.
pub open spec fn spec_season_shape(
    p: ParticleModel,
    width: u16,
    height: u16,
    s: Season,
) -> bool {
    match s {
        Season::Spring => spec_spring_shape(p, width),
        Season::Summer => spec_summer_shape(p, width, height),
        Season::Autumn => spec_autumn_shape(p, width),
        Season::Winter => spec_winter_shape(p, width),
    }
}

/// What the Seasons effect may spawn: the season is fixed by the mode
/// (rotating season, real season) or, blending, any of the four.
pub open spec fn spec_season_pick_ok(
    mode: SeasonMode,
    current: Season,
    today: Season,
    p: ParticleModel,
    width: u16,
    height: u16,
) -> bool {
    match mode {
        SeasonMode::AutoRotate => spec_season_shape(p, width, height, current),
        SeasonMode::RealSeason => spec_season_shape(p, width, height, today),
        SeasonMode::NatureBlend => spec_season_shape(p, width, height, Season::Spring)
            || spec_season_shape(p, width, height, Season::Summer)
            || spec_season_shape(p, width, height, Season::Autumn)
            || spec_season_shape(p, width, height, Season::Winter),
    }
}

/// What one spawn event may add under each effect; `today` is the season
/// derived from the wall-clock date.
pub open spec fn spec_spawn_shape(
    effect: Effect,
    mode: SeasonMode,
    current: Season,
    today: Season,
    p: ParticleModel,
    width: u16,
    height: u16,
) -> bool {
    match effect {
        Effect::Rain => spec_rain_shape(p, width),
        Effect::Lightning => spec_rain_shape(p, width),
        Effect::Snow => spec_snow_shape(p, width),
        Effect::Seasons => spec_season_pick_ok(mode, current, today, p, width, height),
    }
}

/// Sine of half a turn in thousandths, by the classical rational
/// approximation: for `d` in 0..=180 degrees, `4000 d (180 - d)` over
/// `40500 - d (180 - d)`.
pub open spec fn spec_half_sin_milli(d: int) -> int {
    let t = d * (180 - d);
    4000 * t / (40500 - t)
}

/// Sine in thousandths of any angle in whole degrees.
pub open spec fn spec_sin_milli(deg: int) -> int {
    let d = deg % 360;
    if d <= 180 {
        spec_half_sin_milli(d)
    } else {
        -spec_half_sin_milli(d - 180)
    }
}

/// Sine in thousandths of `deg` degrees, within [-1000, 1000].
pub fn sin_milli(deg: u32) -> (r: i64)
    ensures
        r == spec_sin_milli(deg as int),
        -1000 <= r <= 1000,
{
    let d: u32 = deg % 360;
    let mag: u64 = if d <= 180 {
        d as u64
    } else {
        (d - 180) as u64
    };
    assert(mag * (180 - mag) <= 8100) by (nonlinear_arith)
        requires
            0 <= mag <= 180,
    ;
    assert(mag * (180 - mag) >= 0) by (nonlinear_arith)
        requires
            0 <= mag <= 180,
    ;
    let t: u64 = mag * (180 - mag);
    let q: u64 = 4000 * t / (40500 - t);
    proof {
        vstd::arithmetic::div_mod::lemma_div_is_ordered(
            4000 * t as int,
            (40500 - t) * 1000,
            40500 - t as int,
        );
        vstd::arithmetic::div_mod::lemma_div_multiples_vanish(1000, 40500 - t as int);
        vstd::arithmetic::div_mod::lemma_div_pos_is_pos(4000 * t as int, 40500 - t as int);
    }
    if d <= 180 {
        q as i64
    } else {
        -(q as i64)
    }
}


/// Exact relation of one enabled update step from `s0` to `s1`.
///
/// The frame counter wraps; in auto-cycle mode the effect advances along
/// the fixed rotation once 45 s have elapsed, arming the 30-step transition
/// cooldown and restarting the cycle timer; under the Seasons effect in
/// auto-rotate mode the season advances once 15 s have elapsed; every
/// particle is stepped and the survivors kept in order; and spawning
/// happens only with no cooldown pending and on every sixth frame, adding
/// exactly `intensity` particles shaped by the active effect, except that
/// the pool never exceeds `MAX_PARTICLES`. Under the Lightning effect a
/// spawning step also steps the lightning generator.
pub open spec fn spec_update_rel(
    s0: ParticleSystem,
    s1: ParticleSystem,
    width: u16,
    height: u16,
    dt_ms: u32,
    now_ms: u64,
    epoch_secs: u64,
) -> bool {
    let fc = if s0.frame_count == u32::MAX {
        0u32
    } else {
        (s0.frame_count + 1) as u32
    };
    let cycled = s0.cycle_mode == CycleMode::Auto && now_ms >= s0.cycle_started_ms + CYCLE_MS;
    let effect = if cycled {
        spec_next_effect(s0.effect)
    } else {
        s0.effect
    };
    let cd = if cycled {
        COOLDOWN_STEPS
    } else {
        s0.transition_cooldown
    };
    let rotated = effect == Effect::Seasons && s0.season_mode == SeasonMode::AutoRotate
        && now_ms >= s0.season_started_ms + SEASON_MS;
    let season = if rotated {
        spec_next_season(s0.current_season)
    } else {
        s0.current_season
    };
    let today = spec_season_of_month(spec_month_from_epoch(epoch_secs));
    let moved = spec_move_pool(
        pool_view(s0.particles@),
        spec_mult_num(s0.speed),
        spec_dtc(dt_ms),
        width,
        height,
    );
    let spawning = cd == 0 && fc % SPAWN_PERIOD == 0;
    &&& s1.frame_count == fc
    &&& s1.effect == effect
    &&& s1.cycle_started_ms == (if cycled {
        now_ms
    } else {
        s0.cycle_started_ms
    })
    &&& s1.current_season == season
    &&& s1.season_started_ms == (if rotated {
        now_ms
    } else {
        s0.season_started_ms
    })
    &&& s1.cycle_mode == s0.cycle_mode
    &&& s1.season_mode == s0.season_mode
    &&& s1.intensity == s0.intensity
    &&& s1.speed == s0.speed
    &&& s1.enabled == s0.enabled
    &&& s1.transition_cooldown == (if cd > 0 {
        (cd - 1) as u8
    } else {
        0u8
    })
    &&& pool_view(s1.particles@).take(moved.len() as int) == moved
    &&& if spawning {
        &&& s1.particles@.len() == (if moved.len() + s0.intensity <= MAX_PARTICLES {
            moved.len() + s0.intensity
        } else {
            MAX_PARTICLES as int
        })
        &&& forall|i: int|
            moved.len() <= i < s1.particles@.len() ==> spec_spawn_shape(
                effect,
                s0.season_mode,
                season,
                today,
                #[trigger] s1.particles@[i]@,
                width,
                height,
            )
        &&& if effect == Effect::Lightning {
            spec_lightning_step(s0.lightning, s1.lightning, width, height, now_ms)
        } else {
            spec_lightning_unchanged(s0.lightning, s1.lightning)
        }
    } else {
        &&& s1.particles@.len() == moved.len()
        &&& spec_lightning_unchanged(s0.lightning, s1.lightning)
    }
}

impl ParticleSystem {
    /// Well-formed engine: pool within capacity, every particle well
    /// formed, settings in their domains, cooldown bounded, lightning
    /// state well formed.
    pub open spec fn wf(self) -> bool {
        &&& self.particles@.len() <= MAX_PARTICLES
        &&& forall|i: int|
            0 <= i < self.particles@.len() ==> wf_particle(#[trigger] self.particles@[i]@)
        &&& 1 <= self.intensity <= 5
        &&& 1 <= self.speed <= 10
        &&& self.transition_cooldown <= COOLDOWN_STEPS
        &&& self.lightning.wf()
    }

    /// A fresh engine: empty pool, rain in auto-cycle, real-date seasons,
    /// intensity 3 and speed 5, all timers started at `now_ms`, the current
    /// season derived from `epoch_secs`, and every random draw determined
    /// by `seed`.
    pub fn new(seed: u64, now_ms: u64, epoch_secs: u64) -> (s: ParticleSystem)
        ensures
            s.wf(),
            s.particles@.len() == 0,
            s.effect == Effect::Rain,
            s.cycle_mode == CycleMode::Auto,
            s.season_mode == SeasonMode::RealSeason,
            s.intensity == 3,
            s.speed == 5,
            s.current_season == spec_season_of_month(spec_month_from_epoch(epoch_secs)),
            s.season_started_ms == now_ms,
            s.cycle_started_ms == now_ms,
            s.enabled,
            s.frame_count == 0,
            s.transition_cooldown == 0,
            !s.lightning.active,
            s.lightning.frames_remaining == 0,
            s.lightning.bolt@.len() == 0,
            s.lightning.next_strike_ms == 5_000,
            s.lightning.strike_timer_ms == now_ms,
    {
        ParticleSystem {
            particles: Vec::new(),
            rng: rng_from_seed(seed),
            effect: Effect::Rain,
            cycle_mode: CycleMode::Auto,
            season_mode: SeasonMode::RealSeason,
            intensity: 3,
            speed: 5,
            current_season: detect_season(epoch_secs),
            season_started_ms: now_ms,
            cycle_started_ms: now_ms,
            lightning: LightningState::new(now_ms),
            enabled: true,
            frame_count: 0,
            transition_cooldown: 0,
        }
    }

    /// Draws a spawn column: uniform over the viewport columns at
    /// milli-cell resolution, or column zero for an empty viewport.
    fn spawn_x(&mut self, width: u16) -> (x: i64)
        ensures
            spec_spawn_x_ok(x as int, width),
            spec_same_settings(*old(self), *final(self)),
            final(self).particles@ == old(self).particles@,
    {
        if width == 0 {
            0
        } else {
            let milli = rng_below(&mut self.rng, width as u32 * 1000);
            milli as i64 * POS_MILLI
        }
    }

    /// Draws a spawn row just above the top edge: within `cells` cells
    /// above row zero, at milli-cell resolution.
    fn spawn_y_above(&mut self, cells: u32) -> (y: i64)
        requires
            1 <= cells <= 3,
        ensures
            -(cells as int) * POS_SCALE < y <= 0,
            spec_same_settings(*old(self), *final(self)),
            final(self).particles@ == old(self).particles@,
    {
        let milli = rng_below(&mut self.rng, cells * 1000);
        -(milli as i64 * POS_MILLI)
    }

    /// Spawns up to `count` rain particles, dropping the remainder of the
    /// batch once the pool is full. Rain is also what the Lightning effect
    /// spawns. Heavy drops are streaks falling at 0.8 to 1.4 cells per
    /// step; mist falls at 0.5 to 0.8 with no drift; a roughly 12% wind
    /// chance turns a heavy drop diagonal with a slight rightward drift.
    pub fn spawn_rain(&mut self, width: u16, count: usize)
        requires
            old(self).wf(),
            count <= 5,
        ensures
            final(self).wf(),
            spec_same_settings(*old(self), *final(self)),
            final(self).particles@.len() == (if old(self).particles@.len() + count
                <= MAX_PARTICLES {
                old(self).particles@.len() + count
            } else {
                MAX_PARTICLES as int
            }),
            final(self).particles@.take(old(self).particles@.len() as int) == old(
                self,
            ).particles@,
            forall|i: int|
                old(self).particles@.len() <= i < final(self).particles@.len()
                    ==> spec_rain_shape(#[trigger] final(self).particles@[i]@, width)
                    && wf_particle(final(self).particles@[i]@),
    {
        let mut target: usize = self.particles.len() + count;
        if target > MAX_PARTICLES {
            target = MAX_PARTICLES;
        }
        while self.particles.len() < target
            invariant
                self.particles@.len() <= target <= MAX_PARTICLES,
                target <= old(self).particles@.len() + count,
                old(self).particles@.len() <= self.particles@.len(),
                spec_same_settings(*old(self), *self),
                self.particles@.take(old(self).particles@.len() as int) == old(self).particles@,
                forall|i: int|
                    0 <= i < old(self).particles@.len() ==> wf_particle(
                        #[trigger] self.particles@[i]@,
                    ),
                forall|i: int|
                    old(self).particles@.len() <= i < self.particles@.len()
                        ==> spec_rain_shape(#[trigger] self.particles@[i]@, width)
                        && wf_particle(self.particles@[i]@),
                1 <= self.intensity <= 5,
                1 <= self.speed <= 10,
            decreases target - self.particles@.len(),
        {
            let heavy = rng_bool(&mut self.rng);
            let (mut glyph, fg) = if heavy {
                let g = if rng_below(&mut self.rng, 2) == 0 {
                    '\u{2502}'
                } else {
                    '|'
                };
                let c = if rng_bool(&mut self.rng) {
                    Rgb { r: 40, g: 60, b: 90 }
                } else {
                    Rgb { r: 50, g: 80, b: 100 }
                };
                (g, c)
            } else {
                ('\u{00b7}', Rgb { r: 50, g: 50, b: 50 })
            };
            let wind = rng_below(&mut self.rng, 256) < 30 && heavy;
            if wind {
                glyph = '/';
            }
            let speed_y: i64 = if heavy {
                800 + rng_below(&mut self.rng, 600) as i64
            } else {
                500 + rng_below(&mut self.rng, 300) as i64
            };
            let drift_x: i64 = if wind {
                100 + rng_below(&mut self.rng, 100) as i64
            } else {
                0
            };
            let x = self.spawn_x(width);
            let y = self.spawn_y_above(3);
            let ghost snap = self.particles@;
            let p = Particle { x, y, glyph, fg, speed_y, drift_x, life: 1200 };
            assert(spec_rain_shape(p@, width) && wf_particle(p@));
            self.particles.push(p);
            proof {
                assert(self.particles@.take(old(self).particles@.len() as int) =~= old(
                    self,
                ).particles@);
            }
        }
    }

    /// Draws a sway drift: the sine, in thousandths, of a random phase
    /// advanced by the frame counter, scaled to at most `amp` milli-cells
    /// per step.
    fn sway(&mut self, step_deg: u32, amp: u64) -> (d: i64)
        requires
            1 <= step_deg <= 10,
            amp <= 1000,
        ensures
            -(amp as int) <= d <= amp as int,
            spec_same_settings(*old(self), *final(self)),
            final(self).particles@ == old(self).particles@,
    {
        let phase = rng_below(&mut self.rng, 360);
        let fcm: u32 = self.frame_count % 360;
        assert(fcm * step_deg <= 3590) by (nonlinear_arith)
            requires
                0 <= fcm <= 359,
                0 <= step_deg <= 10,
        ;
        let angle: u32 = phase + fcm * step_deg;
        let s = sin_milli(angle);
        let mag: u64 = if s < 0 {
            (-s) as u64
        } else {
            s as u64
        };
        assert(mag * amp <= 1000 * amp) by (nonlinear_arith)
            requires
                0 <= mag <= 1000,
                0 <= amp,
        ;
        proof {
            vstd::arithmetic::div_mod::lemma_div_is_ordered(
                mag * amp as int,
                1000 * amp as int,
                1000,
            );
            vstd::arithmetic::div_mod::lemma_div_multiples_vanish(amp as int, 1000);
            vstd::arithmetic::div_mod::lemma_div_pos_is_pos(mag * amp as int, 1000);
            assert(1000 * amp as int == amp as int * 1000) by (nonlinear_arith);
        }
        let scaled: u64 = mag * amp / 1000;
        if s < 0 {
            -(scaled as i64)
        } else {
            scaled as i64
        }
    }

    /// Spawns up to `count` snow particles, dropping the remainder of the
    /// batch once the pool is full. Foreground flakes are faster and
    /// brighter than background ones; the horizontal drift is a gentle
    /// sway from the per-particle phase and the frame counter.
    pub fn spawn_snow(&mut self, width: u16, count: usize)
        requires
            old(self).wf(),
            count <= 5,
        ensures
            final(self).wf(),
            spec_same_settings(*old(self), *final(self)),
            final(self).particles@.len() == (if old(self).particles@.len() + count
                <= MAX_PARTICLES {
                old(self).particles@.len() + count
            } else {
                MAX_PARTICLES as int
            }),
            final(self).particles@.take(old(self).particles@.len() as int) == old(
                self,
            ).particles@,
            forall|i: int|
                old(self).particles@.len() <= i < final(self).particles@.len()
                    ==> spec_snow_shape(#[trigger] final(self).particles@[i]@, width)
                    && wf_particle(final(self).particles@[i]@),
    {
        let mut target: usize = self.particles.len() + count;
        if target > MAX_PARTICLES {
            target = MAX_PARTICLES;
        }
        while self.particles.len() < target
            invariant
                self.particles@.len() <= target <= MAX_PARTICLES,
                target <= old(self).particles@.len() + count,
                old(self).particles@.len() <= self.particles@.len(),
                spec_same_settings(*old(self), *self),
                self.particles@.take(old(self).particles@.len() as int) == old(self).particles@,
                forall|i: int|
                    0 <= i < old(self).particles@.len() ==> wf_particle(
                        #[trigger] self.particles@[i]@,
                    ),
                forall|i: int|
                    old(self).particles@.len() <= i < self.particles@.len()
                        ==> spec_snow_shape(#[trigger] self.particles@[i]@, width)
                        && wf_particle(self.particles@[i]@),
                1 <= self.intensity <= 5,
                1 <= self.speed <= 10,
            decreases target - self.particles@.len(),
        {
            let foreground = rng_bool(&mut self.rng);
            let glyph = match rng_below(&mut self.rng, 4) {
                0 => '*',
                1 => '\u{00b7}',
                2 => '\u{2022}',
                _ => '.',
            };
            let fg = if foreground {
                Rgb { r: 120, g: 120, b: 130 }
            } else {
                Rgb { r: 70, g: 70, b: 80 }
            };
            let speed_y: i64 = if foreground {
                300 + rng_below(&mut self.rng, 200) as i64
            } else {
                150 + rng_below(&mut self.rng, 150) as i64
            };
            let drift_x = self.sway(6, 300);
            let x = self.spawn_x(width);
            let y = self.spawn_y_above(2);
            let p = Particle { x, y, glyph, fg, speed_y, drift_x, life: 1800 };
            assert(spec_snow_shape(p@, width) && wf_particle(p@));
            self.particles.push(p);
            proof {
                assert(self.particles@.take(old(self).particles@.len() as int) =~= old(
                    self,
                ).particles@);
            }
        }
    }

    /// Spawns one spring blossom.
    fn spawn_spring_one(&mut self, width: u16) -> (p: Particle)
        ensures
            spec_spring_shape(p@, width) && wf_particle(p@),
            spec_same_settings(*old(self), *final(self)),
            final(self).particles@ == old(self).particles@,
    {
        let glyph = match rng_below(&mut self.rng, 4) {
            0 => '*',
            1 => '.',
            2 => '\u{00b7}',
            _ => '\'',
        };
        let fg = match rng_below(&mut self.rng, 3) {
            0 => Rgb { r: 120, g: 60, b: 80 },
            1 => Rgb { r: 140, g: 80, b: 100 },
            _ => Rgb { r: 100, g: 70, b: 75 },
        };
        let speed_y: i64 = 150 + rng_below(&mut self.rng, 200) as i64;
        let drift_x = self.sway(5, 250);
        let x = self.spawn_x(width);
        let y = self.spawn_y_above(2);
        Particle { x, y, glyph, fg, speed_y, drift_x, life: 1500 }
    }

    /// Spawns one summer firefly, in the lower two fifths of the viewport.
    fn spawn_summer_one(&mut self, width: u16, height: u16) -> (p: Particle)
        ensures
            spec_summer_shape(p@, width, height) && wf_particle(p@),
            spec_same_settings(*old(self), *final(self)),
            final(self).particles@ == old(self).particles@,
    {
        let glyph = match rng_below(&mut self.rng, 4) {
            0 => '.',
            1 => '\u{00b7}',
            2 => '\u{00b0}',
            _ => '*',
        };
        let fg = match rng_below(&mut self.rng, 6) {
            0 => Rgb { r: 255, g: 200, b: 60 },
            1 => Rgb { r: 200, g: 160, b: 40 },
            2 => Rgb { r: 255, g: 180, b: 50 },
            3 => Rgb { r: 140, g: 110, b: 30 },
            4 => Rgb { r: 180, g: 140, b: 35 },
            _ => Rgb { r: 100, g: 80, b: 20 },
        };
        let band: i64 = 600 + rng_below(&mut self.rng, 380) as i64;
        let h: i64 = height as i64;
        assert(0 <= h * band <= 65535 * 979) by (nonlinear_arith)
            requires
                0 <= h <= 65535,
                600 <= band <= 979,
        ;
        let y: i64 = h * band * POS_MILLI;
        proof {
            assert(10 * (h * band * 4500) >= 6 * 4500000 * h) by (nonlinear_arith)
                requires
                    0 <= h,
                    600 <= band,
            ;
            assert(100 * (h * band * 4500) <= 98 * 4500000 * h) by (nonlinear_arith)
                requires
                    0 <= h,
                    band <= 979,
            ;
            assert(h * band * 4500 <= 4500000 * h) by (nonlinear_arith)
                requires
                    0 <= h,
                    band <= 1000,
            ;
        }
        let speed_y: i64 = rng_below(&mut self.rng, 100) as i64 - 50;
        let drift_x: i64 = rng_below(&mut self.rng, 300) as i64 - 150;
        let life: u16 = 120 + rng_below(&mut self.rng, 210) as u16;
        let x = self.spawn_x(width);
        Particle { x, y, glyph, fg, speed_y, drift_x, life }
    }

    /// Spawns one autumn leaf.
    fn spawn_autumn_one(&mut self, width: u16) -> (p: Particle)
        ensures
            spec_autumn_shape(p@, width) && wf_particle(p@),
            spec_same_settings(*old(self), *final(self)),
            final(self).particles@ == old(self).particles@,
    {
        let glyph = match rng_below(&mut self.rng, 6) {
            0 => '~',
            1 => '}',
            2 => '{',
            3 => '\\',
            4 => '/',
            _ => '_',
        };
        let fg = match rng_below(&mut self.rng, 4) {
            0 => Rgb { r: 130, g: 70, b: 0 },
            1 => Rgb { r: 110, g: 55, b: 15 },
            2 => Rgb { r: 100, g: 40, b: 30 },
            _ => Rgb { r: 120, g: 90, b: 20 },
        };
        let speed_y: i64 = 300 + rng_below(&mut self.rng, 500) as i64;
        let drift_x = self.sway(7, 500);
        let x = self.spawn_x(width);
        let y = self.spawn_y_above(2);
        Particle { x, y, glyph, fg, speed_y, drift_x, life: 1200 }
    }

    /// Spawns one winter flake, distant ones at half speed.
    fn spawn_winter_one(&mut self, width: u16) -> (p: Particle)
        ensures
            spec_winter_shape(p@, width) && wf_particle(p@),
            spec_same_settings(*old(self), *final(self)),
            final(self).particles@ == old(self).particles@,
    {
        let glyph = match rng_below(&mut self.rng, 5) {
            0 => '*',
            1 => '.',
            2 => '\u{00b7}',
            3 => '\u{00b0}',
            _ => '+',
        };
        let foreground = rng_bool(&mut self.rng);
        let fg = if foreground {
            Rgb { r: 100, g: 100, b: 110 }
        } else if rng_bool(&mut self.rng) {
            Rgb { r: 70, g: 85, b: 95 }
        } else {
            Rgb { r: 55, g: 55, b: 60 }
        };
        let base: u32 = if foreground {
            250 + rng_below(&mut self.rng, 200)
        } else {
            100 + rng_below(&mut self.rng, 150)
        };
        let distant = rng_below(&mut self.rng, 5) == 0;
        let speed_y: i64 = if distant {
            (base / 2) as i64
        } else {
            base as i64
        };
        let drift_x = self.sway(3, 200);
        let x = self.spawn_x(width);
        let y = self.spawn_y_above(2);
        Particle { x, y, glyph, fg, speed_y, drift_x, life: 1800 }
    }

    /// Spawns up to `count` seasonal particles, dropping the remainder of
    /// the batch once the pool is full. Each particle's season follows the
    /// season mode: the rotating season, the real season `today`, or a
    /// uniformly random season per particle when blending.
    pub fn spawn_season(&mut self, width: u16, height: u16, count: usize, today: Season)
        requires
            old(self).wf(),
            count <= 5,
        ensures
            final(self).wf(),
            spec_same_settings(*old(self), *final(self)),
            final(self).particles@.len() == (if old(self).particles@.len() + count
                <= MAX_PARTICLES {
                old(self).particles@.len() + count
            } else {
                MAX_PARTICLES as int
            }),
            final(self).particles@.take(old(self).particles@.len() as int) == old(
                self,
            ).particles@,
            forall|i: int|
                old(self).particles@.len() <= i < final(self).particles@.len()
                    ==> spec_season_pick_ok(
                    old(self).season_mode,
                    old(self).current_season,
                    today,
                    #[trigger] final(self).particles@[i]@,
                    width,
                    height,
                ) && wf_particle(final(self).particles@[i]@),
    {
        let mut target: usize = self.particles.len() + count;
        if target > MAX_PARTICLES {
            target = MAX_PARTICLES;
        }
        while self.particles.len() < target
            invariant
                self.particles@.len() <= target <= MAX_PARTICLES,
                target <= old(self).particles@.len() + count,
                old(self).particles@.len() <= self.particles@.len(),
                spec_same_settings(*old(self), *self),
                self.particles@.take(old(self).particles@.len() as int) == old(self).particles@,
                forall|i: int|
                    0 <= i < old(self).particles@.len() ==> wf_particle(
                        #[trigger] self.particles@[i]@,
                    ),
                forall|i: int|
                    old(self).particles@.len() <= i < self.particles@.len()
                        ==> spec_season_pick_ok(
                        old(self).season_mode,
                        old(self).current_season,
                        today,
                        #[trigger] self.particles@[i]@,
                        width,
                        height,
                    ) && wf_particle(self.particles@[i]@),
                1 <= self.intensity <= 5,
                1 <= self.speed <= 10,
            decreases target - self.particles@.len(),
        {
            let season = match self.season_mode {
                SeasonMode::RealSeason => today,
                SeasonMode::AutoRotate => self.current_season,
                SeasonMode::NatureBlend => match rng_below(&mut self.rng, 4) {
                    0 => Season::Spring,
                    1 => Season::Summer,
                    2 => Season::Autumn,
                    _ => Season::Winter,
                },
            };
            let p = match season {
                Season::Spring => self.spawn_spring_one(width),
                Season::Summer => self.spawn_summer_one(width, height),
                Season::Autumn => self.spawn_autumn_one(width),
                Season::Winter => self.spawn_winter_one(width),
            };
            assert(spec_season_pick_ok(
                self.season_mode,
                self.current_season,
                today,
                p@,
                width,
                height,
            ));
            self.particles.push(p);
            proof {
                assert(self.particles@.take(old(self).particles@.len() as int) =~= old(
                    self,
                ).particles@);
            }
        }
    }

    /// One animation step against viewport `width` by `height`, the elapsed
    /// time `dt_ms` since the previous step, the reference clock reading
    /// `now_ms` and the wall-clock date `epoch_secs`. A disabled engine does
    /// nothing; otherwise the step follows `spec_update_rel` exactly, the
    /// pool stays within capacity, and afterwards every pooled particle is
    /// alive and inside the visible band.
    pub fn update(&mut self, width: u16, height: u16, dt_ms: u32, now_ms: u64, epoch_secs: u64)
        requires
            old(self).wf(),
        ensures
            final(self).wf(),
            final(self).particles@.len() <= MAX_PARTICLES,
            !old(self).enabled ==> spec_engine_unchanged(*old(self), *final(self)),
            old(self).enabled ==> spec_update_rel(
                *old(self),
                *final(self),
                width,
                height,
                dt_ms,
                now_ms,
                epoch_secs,
            ),
            old(self).enabled ==> forall|i: int|
                0 <= i < final(self).particles@.len() ==> spec_survives(
                    #[trigger] final(self).particles@[i]@,
                    width,
                    height,
                ),
    {
        if !self.enabled {
            return ;
        }
        let ghost s0 = *self;
        self.frame_count = if self.frame_count == u32::MAX {
            0
        } else {
            self.frame_count + 1
        };
        if self.cycle_mode == CycleMode::Auto && now_ms.saturating_sub(self.cycle_started_ms)
            >= CYCLE_MS {
            self.effect = next_effect(self.effect);
            self.transition_cooldown = COOLDOWN_STEPS;
            self.cycle_started_ms = now_ms;
        }
        if self.effect == Effect::Seasons && self.season_mode == SeasonMode::AutoRotate
            && now_ms.saturating_sub(self.season_started_ms) >= SEASON_MS {
            self.current_season = next_season(self.current_season);
            self.season_started_ms = now_ms;
        }
        let mult: i64 = 9 + 14 * (self.speed as i64 - 1);
        let dtc: i64 = if dt_ms > DT_CAP_MS {
            DT_CAP_MS as i64
        } else {
            dt_ms as i64
        };
        assert(mult == spec_mult_num(s0.speed) && 9 <= mult <= 135);
        assert(dtc == spec_dtc(dt_ms) && 0 <= dtc <= 150);
        let ghost m0 = pool_view(self.particles@);
        let ghost moved = spec_move_pool(m0, mult as int, dtc as int, width, height);
        let mut kept: Vec<Particle> = Vec::new();
        let mut i: usize = 0;
        while i < self.particles.len()
            invariant
                i <= self.particles@.len(),
                m0 == pool_view(self.particles@),
                forall|j: int|
                    0 <= j < self.particles@.len() ==> wf_particle(
                        #[trigger] self.particles@[j]@,
                    ),
                9 <= mult <= 135,
                0 <= dtc <= 150,
                pool_view(kept@) == spec_move_pool(
                    m0.take(i as int),
                    mult as int,
                    dtc as int,
                    width,
                    height,
                ),
                forall|j: int|
                    0 <= j < kept@.len() ==> wf_particle(#[trigger] kept@[j]@) && spec_survives(
                        kept@[j]@,
                        width,
                        height,
                    ),
                kept@.len() <= i,
            decreases self.particles@.len() - i,
        {
            let p = self.particles[i];
            assert(p@ == m0[i as int]);
            assert(wf_particle(p@));
            assert(-270000 <= p.drift_x * mult <= 270000 && -270000 <= p.speed_y * mult
                <= 270000) by (nonlinear_arith)
                requires
                    -2000 <= p.drift_x <= 2000,
                    -2000 <= p.speed_y <= 2000,
                    9 <= mult <= 135,
            ;
            let a1: i64 = p.drift_x * mult;
            let a2: i64 = p.speed_y * mult;
            assert(-40500000 <= a1 * dtc <= 40500000 && -40500000 <= a2 * dtc <= 40500000)
                by (nonlinear_arith)
                requires
                    -270000 <= a1 <= 270000,
                    -270000 <= a2 <= 270000,
                    0 <= dtc <= 150,
            ;
            let dx: i64 = a1 * dtc;
            let dy: i64 = a2 * dtc;
            let nx: i64 = p.x + dx;
            let ny: i64 = p.y + dy;
            let nlife: u16 = p.life - 1;
            let q = Particle {
                x: nx,
                y: ny,
                glyph: p.glyph,
                fg: p.fg,
                speed_y: p.speed_y,
                drift_x: p.drift_x,
                life: nlife,
            };
            assert(q@ == spec_step(p@, mult as int, dtc as int));
            let hbound: i64 = (height as i64 + 1) * POS_SCALE;
            let wbound: i64 = (width as i64 + 1) * POS_SCALE;
            let ghost kept_pre = kept@;
            if ny < hbound && nx >= -POS_SCALE && nx < wbound && nlife > 0 {
                proof {
                    crate::particle::lemma_step_wf(p@, mult as int, dtc as int, width, height);
                }
                kept.push(q);
                proof {
                    assert(pool_view(kept@) =~= pool_view(kept_pre).push(q@));
                }
            }
            proof {
                let pre = m0.take(i as int);
                let post = m0.take(i as int + 1);
                assert(post.drop_last() =~= pre);
                assert(post.last() == m0[i as int]);
                assert(pool_view(kept@) == spec_move_pool(
                    post,
                    mult as int,
                    dtc as int,
                    width,
                    height,
                ));
            }
            i = i + 1;
        }
        proof {
            assert(m0.take(self.particles@.len() as int) =~= m0);
            assert(pool_view(kept@) == moved);
            crate::particle::lemma_move_pool_len(m0, mult as int, dtc as int, width, height);
        }
        self.particles = kept;
        proof {
            assert(pool_view(self.particles@).take(moved.len() as int) =~= moved);
        }
        if self.transition_cooldown > 0 {
            self.transition_cooldown = self.transition_cooldown - 1;
            return ;
        }
        if self.frame_count % SPAWN_PERIOD != 0 {
            return ;
        }
        let count = self.intensity as usize;
        let ghost mid = *self;
        match self.effect {
            Effect::Rain => self.spawn_rain(width, count),
            Effect::Snow => self.spawn_snow(width, count),
            Effect::Lightning => {
                self.spawn_rain(width, count);
                update_lightning(&mut self.lightning, &mut self.rng, width, height, now_ms);
            },
            Effect::Seasons => {
                let today = detect_season(epoch_secs);
                self.spawn_season(width, height, count, today);
            },
        }
        proof {
            let n = mid.particles@.len() as int;
            assert(self.particles@.take(n) == mid.particles@);
            assert(pool_view(self.particles@).take(n) =~= pool_view(mid.particles@));
            assert(pool_view(self.particles@).take(moved.len() as int) =~= moved);
            assert forall|j: int| 0 <= j < self.particles@.len() implies spec_survives(
                #[trigger] self.particles@[j]@,
                width,
                height,
            ) by {
                if j < n {
                    assert(self.particles@[j] == mid.particles@[j]);
                } else {
                    assert((height as int + 1) * POS_SCALE >= POS_SCALE);
                }
            }
        }
    }
}

} // verus!
