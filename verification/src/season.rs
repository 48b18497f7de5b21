//! Seasons and the derivation of the current season from a calendar date.
//!
//! The date arithmetic follows the civil-from-days algorithm: the month is
//! recovered from a day count since the Unix epoch with integer divisions
//! only, and the season is the meteorological one for that month.

use vstd::prelude::*;

verus! {

/// One of the four seasonal particle themes.
#[derive(Clone, Copy, PartialEq, Eq, Structural, Debug)]
pub enum Season {
    Spring,
    Summer,
    Autumn,
    Winter,
}

/// How the Seasons effect chooses the season of a spawned particle.
#[derive(Clone, Copy, PartialEq, Eq, Structural, Debug)]
pub enum SeasonMode {
    AutoRotate,
    RealSeason,
    NatureBlend,
}

/// The fixed rotation order Spring -> Summer -> Autumn -> Winter -> Spring.
pub open spec fn spec_next_season(s: Season) -> Season {
    match s {
        Season::Spring => Season::Summer,
        Season::Summer => Season::Autumn,
        Season::Autumn => Season::Winter,
        Season::Winter => Season::Spring,
    }
}

/// Advances the season one step along the fixed rotation order.
pub fn next_season(s: Season) -> (r: Season)
    ensures
        r == spec_next_season(s),
{
    match s {
        Season::Spring => Season::Summer,
        Season::Summer => Season::Autumn,
        Season::Autumn => Season::Winter,
        Season::Winter => Season::Spring,
    }
}

/// Calendar month (1 to 12) of the civil date that lies `secs` seconds after
/// the Unix epoch, per the civil-from-days algorithm. The one deviation is a
/// clamp of the day-of-year at zero, so that the value is defined without
/// appeal to the algorithm's number-theoretic range argument.
pub open spec fn spec_month_from_epoch(secs: u64) -> int {
    let days = secs as int / 86400;
    let z = days + 719468;
    let era = z / 146097;
    let doe = z - era * 146097;
    let yoe = (doe - doe / 1460 + doe / 36524 - doe / 146096) / 365;
    let yd = 365 * yoe + yoe / 4 - yoe / 100;
    let doy = if yd <= doe { doe - yd } else { 0 };
    let mp = (5 * doy + 2) / 153;
    if mp < 10 { mp + 3 } else { mp - 9 }
}

/// The meteorological season of a calendar month: March through May is
/// spring, June through August summer, September through November autumn,
/// and the rest winter.
pub open spec fn spec_season_of_month(m: int) -> Season {
    if 3 <= m <= 5 {
        Season::Spring
    } else if 6 <= m <= 8 {
        Season::Summer
    } else if 9 <= m <= 11 {
        Season::Autumn
    } else {
        Season::Winter
    }
}

/// Derives the season from a wall-clock date given as seconds since the Unix
/// epoch.
pub fn detect_season(secs: u64) -> (r: Season)
    ensures
        r == spec_season_of_month(spec_month_from_epoch(secs)),
{
    let days: u64 = secs / 86400;
    let z: u64 = days + 719468;
    let era: u64 = z / 146097;
    let doe: u64 = z - era * 146097;
    proof {
        vstd::arithmetic::div_mod::lemma_fundamental_div_mod(z as int, 146097);
        vstd::arithmetic::div_mod::lemma_mod_bound(z as int, 146097);
        assert(doe == z as int % 146097);
        assert(doe <= 146096);
    }
    let a: u64 = doe / 1460;
    let b: u64 = doe / 36524;
    let c: u64 = doe / 146096;
    proof {
        vstd::arithmetic::div_mod::lemma_div_is_ordered_by_denominator(doe as int, 1460, 146096);
        vstd::arithmetic::div_mod::lemma_div_is_ordered_by_denominator(doe as int, 1460, 36524);
        vstd::arithmetic::div_mod::lemma_div_is_ordered(c as int, doe as int, 146096);
    }
    let num: u64 = doe - a + b - c;
    let yoe: u64 = num / 365;
    proof {
        vstd::arithmetic::div_mod::lemma_div_is_ordered(num as int, 146100, 365);
        assert(yoe <= 400);
        vstd::arithmetic::div_mod::lemma_div_is_ordered(yoe as int / 100, yoe as int, 1);
    }
    let yd: u64 = 365 * yoe + yoe / 4 - yoe / 100;
    let doy: u64 = if yd <= doe { doe - yd } else { 0 };
    let mp: u64 = (5 * doy + 2) / 153;
    let m: u64 = if mp < 10 { mp + 3 } else { mp - 9 };
    if 3 <= m && m <= 5 {
        Season::Spring
    } else if 6 <= m && m <= 8 {
        Season::Summer
    } else if 9 <= m && m <= 11 {
        Season::Autumn
    } else {
        Season::Winter
    }
}

} // verus!
