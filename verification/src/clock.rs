//! The ambient clock: time-of-day extraction and the bitmap font of the
//! large HH:MM display.
//!
//! Each of the eleven glyphs (digits and the colon) is a 5-row by 3-column
//! bitmap, packed as five octal digits, one per row, top row first; within
//! a row, bit 2 is the left column. Rendered doubled, a glyph covers 6 by 5
//! cells, glyphs sit 8 cells apart, and the five slots (hour tens, hour
//! ones, colon, minute tens, minute ones) span 38 cells. The colon blinks:
//! it is lit only on even seconds.

use vstd::prelude::*;

verus! {

/// Hour, minute and second of the day `secs` seconds after midnight of any
/// reference day (seconds beyond whole days are discarded).
pub fn local_hm(secs: u64) -> (r: (u8, u8, u8))
    ensures
        r.0 == (secs as int % 86400) / 3600,
        r.1 == (secs as int % 3600) / 60,
        r.2 == secs as int % 60,
        r.0 < 24,
        r.1 < 60,
        r.2 < 60,
{
    let day = secs % 86400;
    let h = (day / 3600) as u8;
    let m = ((secs % 3600) / 60) as u8;
    let s = (secs % 60) as u8;
    proof {
        vstd::arithmetic::div_mod::lemma_mod_bound(secs as int, 86400);
        vstd::arithmetic::div_mod::lemma_mod_bound(secs as int, 3600);
        vstd::arithmetic::div_mod::lemma_mod_bound(secs as int, 60);
        vstd::arithmetic::div_mod::lemma_div_is_ordered(day as int, 86399, 3600);
        vstd::arithmetic::div_mod::lemma_div_is_ordered((secs as int) % 3600, 3599, 60);
    }
    (h, m, s)
}

/// The packed rows of each clock glyph: glyphs 0 to 9 are the digits and
/// glyph 10 is the colon.
pub open spec fn spec_glyph_rows(g: int) -> u16 {
    if g == 0 {
        0o75557
    } else if g == 1 {
        0o26227
    } else if g == 2 {
        0o71747
    } else if g == 3 {
        0o71717
    } else if g == 4 {
        0o55711
    } else if g == 5 {
        0o74717
    } else if g == 6 {
        0o74757
    } else if g == 7 {
        0o71111
    } else if g == 8 {
        0o75757
    } else if g == 9 {
        0o75717
    } else if g == 10 {
        0o02020
    } else {
        0
    }
}

/// Whether the bitmap pixel of glyph `g` at `row` (0 at the top, below 5)
/// and `col` (0 at the left, below 3) is set.
pub open spec fn spec_glyph_pixel(g: int, row: int, col: int) -> bool {
    let enc = spec_glyph_rows(g) as int;
    let p = if row == 0 {
        4096int
    } else if row == 1 {
        512int
    } else if row == 2 {
        64int
    } else if row == 3 {
        8int
    } else {
        1int
    };
    let rb = (enc / p) % 8;
    let q = if col == 0 {
        4int
    } else if col == 1 {
        2int
    } else {
        1int
    };
    (rb / q) % 2 == 1
}

/// The glyph shown in display slot `gi`: hour tens, hour ones, the colon,
/// minute tens, minute ones.
pub open spec fn spec_slot_glyph(hour: u8, minute: u8, gi: int) -> int {
    if gi == 0 {
        hour as int / 10
    } else if gi == 1 {
        hour as int % 10
    } else if gi == 2 {
        10
    } else if gi == 3 {
        minute as int / 10
    } else {
        minute as int % 10
    }
}

/// Whether the clock lights the cell at `(x, y)` of a `w`-column grid: the
/// display is centred, one row below the top; doubled pixels are 2 cells
/// wide; the colon slot is lit only on even seconds.
pub open spec fn spec_clock_lit(
    hour: u8,
    minute: u8,
    second: u8,
    w: int,
    x: int,
    y: int,
) -> bool {
    let ox = (w - 38) / 2;
    &&& 1 <= y < 6
    &&& ox <= x < ox + 38
    &&& {
        let rel = x - ox;
        let gi = rel / 8;
        let ri = rel % 8;
        &&& ri < 6
        &&& (gi != 2 || second % 2 == 0)
        &&& spec_glyph_pixel(spec_slot_glyph(hour, minute, gi), y - 1, ri / 2)
    }
}

/// Whether the bitmap pixel of glyph `g` at `row`, `col` is set.
pub fn glyph_pixel(g: u16, row: u16, col: u16) -> (b: bool)
    ensures
        b == spec_glyph_pixel(g as int, row as int, col as int),
{
    let enc: u16 = if g == 0 {
        0o75557
    } else if g == 1 {
        0o26227
    } else if g == 2 {
        0o71747
    } else if g == 3 {
        0o71717
    } else if g == 4 {
        0o55711
    } else if g == 5 {
        0o74717
    } else if g == 6 {
        0o74757
    } else if g == 7 {
        0o71111
    } else if g == 8 {
        0o75757
    } else if g == 9 {
        0o75717
    } else if g == 10 {
        0o02020
    } else {
        0
    };
    let p: u16 = if row == 0 {
        4096
    } else if row == 1 {
        512
    } else if row == 2 {
        64
    } else if row == 3 {
        8
    } else {
        1
    };
    let rb: u16 = (enc / p) % 8;
    let q: u16 = if col == 0 {
        4
    } else if col == 1 {
        2
    } else {
        1
    };
    (rb / q) % 2 == 1
}

/// Whether the clock lights the cell at `(x, y)`; see `spec_clock_lit`.
pub fn clock_lit(hour: u8, minute: u8, second: u8, w: u16, x: u16, y: u16) -> (b: bool)
    requires
        w >= 42,
    ensures
        b == spec_clock_lit(hour, minute, second, w as int, x as int, y as int),
{
    let ox: u16 = (w - 38) / 2;
    if y < 1 || y >= 6 {
        return false;
    }
    if x < ox || x >= ox + 38 {
        return false;
    }
    let rel: u16 = x - ox;
    let gi: u16 = rel / 8;
    let ri: u16 = rel % 8;
    if ri >= 6 {
        return false;
    }
    if gi == 2 && second % 2 == 1 {
        return false;
    }
    let g: u16 = if gi == 0 {
        hour as u16 / 10
    } else if gi == 1 {
        hour as u16 % 10
    } else if gi == 2 {
        10
    } else if gi == 3 {
        minute as u16 / 10
    } else {
        minute as u16 % 10
    };
    glyph_pixel(g, y - 1, ri / 2)
}

} // verus!
