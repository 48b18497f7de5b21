//! Particles and their per-update kinematics.
//!
//! Positions and velocities are fixed-point integers. A terminal cell is
//! `POS_SCALE` position units wide, and velocities are in thousandths of a
//! cell per unit step. One unit step corresponds to a 100 ms update, the
//! speed setting scales it by `spec_mult_num(speed) / 45` (0.2 at speed 1 up
//! to 3.0 at speed 10), and the delta-time factor is the capped elapsed
//! milliseconds. `POS_SCALE` is 1000 (velocity scale) times 45 (multiplier
//! denominator) times 100 (milliseconds per unit step), so one update moves
//! a particle by exactly `velocity * spec_mult_num(speed) * dt_ms` position
//! units, with no rounding anywhere.

use vstd::prelude::*;

verus! {

/// A 24-bit colour.
#[derive(Clone, Copy, PartialEq, Eq, Structural, Debug)]
pub struct Rgb {
    pub r: u8,
    pub g: u8,
    pub b: u8,
}

/// Position units per terminal cell.
pub const POS_SCALE: i64 = 4_500_000;

/// Position units per thousandth of a cell.
pub const POS_MILLI: i64 = 4_500;

/// Updates longer than this are simulated as this long, so a stall never
/// produces a large jump.
pub const DT_CAP_MS: u32 = 150;

/// Bound on the magnitude of any spawned velocity, in milli-cells per step.
pub const VEL_LIMIT: i64 = 2_000;

/// Bound on how far one update can move a particle: `VEL_LIMIT` times the
/// largest speed multiplier numerator (135) times `DT_CAP_MS`.
pub const STEP_LIMIT: i64 = 40_500_000;

/// Bound on the life of any spawned particle, in update steps.
pub const LIFE_LIMIT: u16 = 1_800;

/// Largest viewport edge plus one: viewport dimensions are 16-bit.
pub const EDGE_LIMIT: i64 = 65_536;

/// One decorative glyph with position, velocity and a remaining lifetime.
#[derive(Clone, Copy)]
pub struct Particle {
    /// Horizontal position, `POS_SCALE` units per cell.
    pub x: i64,
    /// Vertical position, `POS_SCALE` units per cell; row 0 is the top.
    pub y: i64,
    /// The character drawn for this particle.
    pub glyph: char,
    /// Foreground colour of the glyph.
    pub fg: Rgb,
    /// Fall speed in milli-cells per unit step; negative drifts upward.
    pub speed_y: i64,
    /// Horizontal drift in milli-cells per unit step.
    pub drift_x: i64,
    /// Remaining life in update steps.
    pub life: u16,
}

/// The mathematical value of a particle.
pub ghost struct ParticleModel {
    pub x: int,
    pub y: int,
    pub glyph: char,
    pub fg: Rgb,
    pub speed_y: int,
    pub drift_x: int,
    pub life: int,
}

impl View for Particle {
    type V = ParticleModel;

    open spec fn view(&self) -> ParticleModel {
        ParticleModel {
            x: self.x as int,
            y: self.y as int,
            glyph: self.glyph,
            fg: self.fg,
            speed_y: self.speed_y as int,
            drift_x: self.drift_x as int,
            life: self.life as int,
        }
    }
}

/// The sequence of particle values held by a pool.
pub open spec fn pool_view(v: Seq<Particle>) -> Seq<ParticleModel> {
    v.map_values(|p: Particle| p@)
}

/// Numerator of the speed multiplier over the fixed denominator 45: the
/// linear map from speed 1..10 to the multipliers 0.2..3.0.
pub open spec fn spec_mult_num(speed: u8) -> int {
    9 + 14 * (speed - 1)
}

/// The delta-time factor actually simulated: the elapsed milliseconds,
/// capped at `DT_CAP_MS`.
pub open spec fn spec_dtc(dt_ms: u32) -> int {
    if dt_ms > DT_CAP_MS { DT_CAP_MS as int } else { dt_ms as int }
}

/// Coordinate change of one update: velocity (milli-cells per step) times
/// multiplier numerator times capped milliseconds, in position units.
pub open spec fn spec_disp(v: int, mult: int, dtc: int) -> int {
    v * mult * dtc
}

/// One kinematics step: both coordinates advance by their displacement and
/// the life counts down by one, floored at zero.
pub open spec fn spec_step(p: ParticleModel, mult: int, dtc: int) -> ParticleModel {
    ParticleModel {
        x: p.x + spec_disp(p.drift_x, mult, dtc),
        y: p.y + spec_disp(p.speed_y, mult, dtc),
        life: if p.life <= 0 { 0 } else { p.life - 1 },
        ..p
    }
}

/// A particle is retained only while it is alive and within the visible
/// band: above row `height + 1` and within one cell of the side edges.
pub open spec fn spec_survives(p: ParticleModel, width: u16, height: u16) -> bool {
    &&& p.y < (height + 1) * POS_SCALE
    &&& -POS_SCALE <= p.x
    &&& p.x < (width + 1) * POS_SCALE
    &&& p.life > 0
}

/// Well-formed particle: alive, with bounded life and velocities, within
/// the widest possible viewport band. The lower bound on `y` charges each
/// spent life step with the largest possible move, so it is preserved by
/// every kinematics step however the particle drifts upward.
pub open spec fn wf_particle(p: ParticleModel) -> bool {
    &&& p.glyph != ' '
    &&& 1 <= p.life <= LIFE_LIMIT
    &&& -VEL_LIMIT <= p.speed_y <= VEL_LIMIT
    &&& -VEL_LIMIT <= p.drift_x <= VEL_LIMIT
    &&& -POS_SCALE <= p.x <= EDGE_LIMIT * POS_SCALE
    &&& p.y <= EDGE_LIMIT * POS_SCALE
    &&& p.y >= -3 * POS_SCALE - (LIFE_LIMIT - p.life) * STEP_LIMIT
}

/// The pool after one kinematics pass: every particle stepped, the
/// survivors kept in order.
pub open spec fn spec_move_pool(
    s: Seq<ParticleModel>,
    mult: int,
    dtc: int,
    width: u16,
    height: u16,
) -> Seq<ParticleModel>
    decreases s.len(),
{
    if s.len() == 0 {
        Seq::empty()
    } else {
        let rest = spec_move_pool(s.drop_last(), mult, dtc, width, height);
        let q = spec_step(s.last(), mult, dtc);
        if spec_survives(q, width, height) {
            rest.push(q)
        } else {
            rest
        }
    }
}

/// A kinematics pass never grows the pool.
pub proof fn lemma_move_pool_len(
    s: Seq<ParticleModel>,
    mult: int,
    dtc: int,
    width: u16,
    height: u16,
)
    ensures
        spec_move_pool(s, mult, dtc, width, height).len() <= s.len(),
    decreases s.len(),
{
    if s.len() > 0 {
        lemma_move_pool_len(s.drop_last(), mult, dtc, width, height);
    }
}

/// Bound on one update's displacement for any well-formed velocity, speed
/// multiplier and capped delta-time.
pub proof fn lemma_disp_bound(v: int, mult: int, dtc: int)
    requires
        -VEL_LIMIT <= v <= VEL_LIMIT,
        0 <= mult <= 135,
        0 <= dtc <= DT_CAP_MS,
    ensures
        -STEP_LIMIT <= spec_disp(v, mult, dtc) <= STEP_LIMIT,
{
    assert(-(2000 * 135 * 150) <= v * mult * dtc <= 2000 * 135 * 150) by (nonlinear_arith)
        requires
            -2000 <= v <= 2000,
            0 <= mult <= 135,
            0 <= dtc <= 150,
    ;
}

/// Law: a particle that survives an update step has its life decreased by
/// exactly one by that step.
pub proof fn lemma_life_decrements(
    p: ParticleModel,
    mult: int,
    dtc: int,
    width: u16,
    height: u16,
)
    requires
        spec_survives(spec_step(p, mult, dtc), width, height),
    ensures
        spec_step(p, mult, dtc).life == p.life - 1,
{
}

/// Law: for the same velocity and delta-time, the displacement at speed 10
/// is exactly fifteen times the displacement at speed 1 (the multiplier
/// ratio 3.0 over 0.2).
pub proof fn lemma_speed_ratio(v: int, dtc: int)
    ensures
        spec_disp(v, spec_mult_num(10), dtc) == 15 * spec_disp(v, spec_mult_num(1), dtc),
{
    assert(v * 135 * dtc == 15 * (v * 9 * dtc)) by (nonlinear_arith);
}

/// Stepping a well-formed particle keeps it well formed whenever the step
/// leaves it within the visible band of any viewport.
pub proof fn lemma_step_wf(
    p: ParticleModel,
    mult: int,
    dtc: int,
    width: u16,
    height: u16,
)
    requires
        wf_particle(p),
        9 <= mult <= 135,
        0 <= dtc <= DT_CAP_MS,
        spec_survives(spec_step(p, mult, dtc), width, height),
    ensures
        wf_particle(spec_step(p, mult, dtc)),
{
    lemma_disp_bound(p.speed_y, mult, dtc);
    lemma_disp_bound(p.drift_x, mult, dtc);
    let q = spec_step(p, mult, dtc);
    assert(q.life == p.life - 1);
    assert(q.y >= p.y - STEP_LIMIT);
    assert(q.y >= -3 * POS_SCALE - (LIFE_LIMIT - q.life) * STEP_LIMIT);
}

} // verus!
