//! The settings surface of the weather engine: the rows of the settings
//! panel, the exact effect of changing each setting, and the process-list
//! sort labels shown beside them.

use vstd::prelude::*;

use crate::engine::{
    prev_effect, next_effect, spec_next_effect, spec_prev_effect, CycleMode, ParticleSystem,
    COOLDOWN_STEPS,
};
use crate::lightning::spec_lightning_unchanged;
use crate::season::SeasonMode;

verus! {

/// A row of the settings panel.
#[derive(Clone, Copy, PartialEq, Eq, Structural, Debug)]
pub enum SettingsRow {
    Effect,
    CycleMode,
    SeasonMode,
    Intensity,
    Speed,
}

/// The row below, wrapping from the last back to the first.
pub open spec fn spec_settings_row_next(r: SettingsRow) -> SettingsRow {
    match r {
        SettingsRow::Effect => SettingsRow::CycleMode,
        SettingsRow::CycleMode => SettingsRow::SeasonMode,
        SettingsRow::SeasonMode => SettingsRow::Intensity,
        SettingsRow::Intensity => SettingsRow::Speed,
        SettingsRow::Speed => SettingsRow::Effect,
    }
}

/// The row above, wrapping from the first back to the last.
pub open spec fn spec_settings_row_prev(r: SettingsRow) -> SettingsRow {
    match r {
        SettingsRow::Effect => SettingsRow::Speed,
        SettingsRow::CycleMode => SettingsRow::Effect,
        SettingsRow::SeasonMode => SettingsRow::CycleMode,
        SettingsRow::Intensity => SettingsRow::SeasonMode,
        SettingsRow::Speed => SettingsRow::Intensity,
    }
}

impl SettingsRow {
    /// Moves the selection one row down, wrapping at the bottom.
    pub fn next(self) -> (r: Self)
        ensures
            r == spec_settings_row_next(self),
    {
        match self {
            Self::Effect => Self::CycleMode,
            Self::CycleMode => Self::SeasonMode,
            Self::SeasonMode => Self::Intensity,
            Self::Intensity => Self::Speed,
            Self::Speed => Self::Effect,
        }
    }

    /// Moves the selection one row up, wrapping at the top.
    pub fn prev(self) -> (r: Self)
        ensures
            r == spec_settings_row_prev(self),
    {
        match self {
            Self::Effect => Self::Speed,
            Self::CycleMode => Self::Effect,
            Self::SeasonMode => Self::CycleMode,
            Self::Intensity => Self::SeasonMode,
            Self::Speed => Self::Intensity,
        }
    }
}

/// Season-mode rotation when stepping right.
pub open spec fn spec_next_season_mode(m: SeasonMode) -> SeasonMode {
    match m {
        SeasonMode::AutoRotate => SeasonMode::RealSeason,
        SeasonMode::RealSeason => SeasonMode::NatureBlend,
        SeasonMode::NatureBlend => SeasonMode::AutoRotate,
    }
}

/// Season-mode rotation when stepping left.
pub open spec fn spec_prev_season_mode(m: SeasonMode) -> SeasonMode {
    match m {
        SeasonMode::AutoRotate => SeasonMode::NatureBlend,
        SeasonMode::RealSeason => SeasonMode::AutoRotate,
        SeasonMode::NatureBlend => SeasonMode::RealSeason,
    }
}

/// Exact effect of one settings change on the engine.
///
/// Changing the effect empties the particle pool at once, arms the
/// transition cooldown and restarts the cycle timer; toggling the cycle
/// mode restarts the cycle timer; changing the season mode restarts the
/// season timer; intensity and speed are clamped into their domains and
/// change nothing else.
pub open spec fn spec_settings_change_rel(
    s0: ParticleSystem,
    s1: ParticleSystem,
    row: SettingsRow,
    right: bool,
    now_ms: u64,
) -> bool {
    &&& s1.enabled == s0.enabled
    &&& s1.frame_count == s0.frame_count
    &&& match row {
        SettingsRow::Effect => {
            &&& s1.effect == (if right {
                spec_next_effect(s0.effect)
            } else {
                spec_prev_effect(s0.effect)
            })
            &&& s1.particles@.len() == 0
            &&& s1.transition_cooldown == COOLDOWN_STEPS
            &&& s1.cycle_started_ms == now_ms
            &&& s1.cycle_mode == s0.cycle_mode
            &&& s1.season_mode == s0.season_mode
            &&& s1.intensity == s0.intensity
            &&& s1.speed == s0.speed
            &&& s1.current_season == s0.current_season
            &&& s1.season_started_ms == s0.season_started_ms
            &&& spec_lightning_unchanged(s0.lightning, s1.lightning)
        },
        SettingsRow::CycleMode => {
            &&& s1.cycle_mode == (if s0.cycle_mode == CycleMode::Auto {
                CycleMode::Pinned
            } else {
                CycleMode::Auto
            })
            &&& s1.cycle_started_ms == now_ms
            &&& s1.effect == s0.effect
            &&& s1.particles@ == s0.particles@
            &&& s1.transition_cooldown == s0.transition_cooldown
            &&& s1.season_mode == s0.season_mode
            &&& s1.intensity == s0.intensity
            &&& s1.speed == s0.speed
            &&& s1.current_season == s0.current_season
            &&& s1.season_started_ms == s0.season_started_ms
            &&& spec_lightning_unchanged(s0.lightning, s1.lightning)
        },
        SettingsRow::SeasonMode => {
            &&& s1.season_mode == (if right {
                spec_next_season_mode(s0.season_mode)
            } else {
                spec_prev_season_mode(s0.season_mode)
            })
            &&& s1.season_started_ms == now_ms
            &&& s1.effect == s0.effect
            &&& s1.particles@ == s0.particles@
            &&& s1.transition_cooldown == s0.transition_cooldown
            &&& s1.cycle_mode == s0.cycle_mode
            &&& s1.cycle_started_ms == s0.cycle_started_ms
            &&& s1.intensity == s0.intensity
            &&& s1.speed == s0.speed
            &&& s1.current_season == s0.current_season
            &&& spec_lightning_unchanged(s0.lightning, s1.lightning)
        },
        SettingsRow::Intensity => {
            &&& s1.intensity == (if right {
                if s0.intensity < 5 {
                    (s0.intensity + 1) as u8
                } else {
                    5u8
                }
            } else {
                if s0.intensity > 1 {
                    (s0.intensity - 1) as u8
                } else {
                    1u8
                }
            })
            &&& s1.effect == s0.effect
            &&& s1.particles@ == s0.particles@
            &&& s1.transition_cooldown == s0.transition_cooldown
            &&& s1.cycle_mode == s0.cycle_mode
            &&& s1.cycle_started_ms == s0.cycle_started_ms
            &&& s1.season_mode == s0.season_mode
            &&& s1.season_started_ms == s0.season_started_ms
            &&& s1.speed == s0.speed
            &&& s1.current_season == s0.current_season
            &&& spec_lightning_unchanged(s0.lightning, s1.lightning)
        },
        SettingsRow::Speed => {
            &&& s1.speed == (if right {
                if s0.speed < 10 {
                    (s0.speed + 1) as u8
                } else {
                    10u8
                }
            } else {
                if s0.speed > 1 {
                    (s0.speed - 1) as u8
                } else {
                    1u8
                }
            })
            &&& s1.effect == s0.effect
            &&& s1.particles@ == s0.particles@
            &&& s1.transition_cooldown == s0.transition_cooldown
            &&& s1.cycle_mode == s0.cycle_mode
            &&& s1.cycle_started_ms == s0.cycle_started_ms
            &&& s1.season_mode == s0.season_mode
            &&& s1.season_started_ms == s0.season_started_ms
            &&& s1.intensity == s0.intensity
            &&& s1.current_season == s0.current_season
            &&& spec_lightning_unchanged(s0.lightning, s1.lightning)
        },
    }
}

/// Applies one left or right key press on the selected settings row; see
/// `spec_settings_change_rel` for the exact outcome of each row.
pub fn settings_change(ps: &mut ParticleSystem, row: SettingsRow, right: bool, now_ms: u64)
    requires
        old(ps).wf(),
    ensures
        final(ps).wf(),
        spec_settings_change_rel(*old(ps), *final(ps), row, right, now_ms),
{
    match row {
        SettingsRow::Effect => {
            ps.effect = if right {
                next_effect(ps.effect)
            } else {
                prev_effect(ps.effect)
            };
            ps.particles = Vec::new();
            ps.transition_cooldown = COOLDOWN_STEPS;
            ps.cycle_started_ms = now_ms;
        },
        SettingsRow::CycleMode => {
            ps.cycle_mode = if ps.cycle_mode == CycleMode::Auto {
                CycleMode::Pinned
            } else {
                CycleMode::Auto
            };
            ps.cycle_started_ms = now_ms;
        },
        SettingsRow::SeasonMode => {
            ps.season_mode = if right {
                match ps.season_mode {
                    SeasonMode::AutoRotate => SeasonMode::RealSeason,
                    SeasonMode::RealSeason => SeasonMode::NatureBlend,
                    SeasonMode::NatureBlend => SeasonMode::AutoRotate,
                }
            } else {
                match ps.season_mode {
                    SeasonMode::AutoRotate => SeasonMode::NatureBlend,
                    SeasonMode::RealSeason => SeasonMode::AutoRotate,
                    SeasonMode::NatureBlend => SeasonMode::RealSeason,
                }
            };
            ps.season_started_ms = now_ms;
        },
        SettingsRow::Intensity => {
            if right {
                if ps.intensity < 5 {
                    ps.intensity = ps.intensity + 1;
                }
            } else {
                if ps.intensity > 1 {
                    ps.intensity = ps.intensity - 1;
                }
            }
        },
        SettingsRow::Speed => {
            if right {
                if ps.speed < 10 {
                    ps.speed = ps.speed + 1;
                }
            } else {
                if ps.speed > 1 {
                    ps.speed = ps.speed - 1;
                }
            }
        },
    }
}

/// How the process list is sorted.
#[derive(Clone, Copy, PartialEq, Eq, Structural, Debug)]
pub enum SortMode {
    Cpu,
    Memory,
    Pid,
}

/// The label of each sort mode.
pub open spec fn spec_sort_label(mode: SortMode) -> Seq<char> {
    match mode {
        SortMode::Cpu => "CPU"@,
        SortMode::Memory => "Memory"@,
        SortMode::Pid => "PID"@,
    }
}

/// The label shown for the active process sort mode.
pub fn sort_label(mode: SortMode) -> (r: &'static str)
    ensures
        r@ == spec_sort_label(mode),
{
    match mode {
        SortMode::Cpu => "CPU",
        SortMode::Memory => "Memory",
        SortMode::Pid => "PID",
    }
}

} // verus!
