//! The layered compositor: draws the ambient clock, the lightning flash and
//! bolts, and the particles onto a pre-populated cell grid, never replacing
//! a glyph already placed by the widget layer. The two documented
//! exceptions touch only backgrounds: the clock's glow behind widget text
//! and the flash tint over blank cells.

use vstd::prelude::*;

use crate::clock::{clock_lit, spec_clock_lit};
use crate::engine::{Effect, ParticleSystem};
use crate::particle::{pool_view, Particle, ParticleModel, Rgb, POS_SCALE};

verus! {

/// One cell of the render grid: a glyph with its colours. A cell whose
/// glyph is the space character is blank.
#[derive(Clone, Copy, PartialEq, Eq, Structural, Debug)]
pub struct Cell {
    pub glyph: char,
    pub fg: Rgb,
    pub bg: Rgb,
}

impl Cell {
    /// A blank cell: a space over black.
    pub fn blank() -> (c: Cell)
        ensures
            c == (Cell { glyph: ' ', fg: Rgb { r: 0, g: 0, b: 0 }, bg: Rgb { r: 0, g: 0, b: 0 } }),
    {
        Cell { glyph: ' ', fg: Rgb { r: 0, g: 0, b: 0 }, bg: Rgb { r: 0, g: 0, b: 0 } }
    }
}

/// A rectangular grid of cells, row-major, exclusively owned for the
/// duration of one frame.
pub struct Grid {
    pub width: u16,
    pub height: u16,
    pub cells: Vec<Cell>,
}

/// Coordinates in range and cell indices agree: a flat index below
/// `w * h` decomposes into unique coordinates.
pub proof fn lemma_grid_index_injective(w: int, x1: int, y1: int, x2: int, y2: int)
    requires
        0 < w,
        0 <= x1 < w,
        0 <= x2 < w,
        y1 * w + x1 == y2 * w + x2,
    ensures
        x1 == x2,
        y1 == y2,
{
    let k = y1 * w + x1;
    vstd::arithmetic::div_mod::lemma_fundamental_div_mod_converse(k, w, y1, x1);
    vstd::arithmetic::div_mod::lemma_fundamental_div_mod_converse(k, w, y2, x2);
}

impl Grid {
    /// Well-formed grid: one cell per coordinate.
    pub open spec fn wf(self) -> bool {
        self.cells@.len() == self.width * self.height
    }

    /// The cell at the given coordinates.
    pub open spec fn spec_at(self, x: int, y: int) -> Cell {
        self.cells@[y * self.width + x]
    }

    /// Flat index of in-range coordinates, below the cell count.
    fn idx(&self, x: u16, y: u16) -> (i: usize)
        requires
            self.wf(),
            x < self.width,
            y < self.height,
        ensures
            i == y * self.width + x,
            i < self.cells@.len(),
    {
        assert(y * self.width + x < self.width * self.height) by (nonlinear_arith)
            requires
                x < self.width,
                y < self.height,
        ;
        assert(y * self.width <= 65535 * 65535) by (nonlinear_arith)
            requires
                y <= 65535,
                self.width <= 65535,
        ;
        y as usize * self.width as usize + x as usize
    }

    /// A fresh grid of blank cells.
    pub fn new(width: u16, height: u16) -> (g: Grid)
        ensures
            g.wf(),
            g.width == width,
            g.height == height,
            forall|x: int, y: int|
                0 <= x < width && 0 <= y < height ==> #[trigger] g.spec_at(x, y) == (Cell {
                    glyph: ' ',
                    fg: Rgb { r: 0, g: 0, b: 0 },
                    bg: Rgb { r: 0, g: 0, b: 0 },
                }),
    {
        assert(width * height <= 65535 * 65535) by (nonlinear_arith)
            requires
                width <= 65535,
                height <= 65535,
        ;
        let n: usize = width as usize * height as usize;
        let mut cells: Vec<Cell> = Vec::new();
        let mut i: usize = 0;
        while i < n
            invariant
                i <= n,
                cells@.len() == i,
                forall|j: int|
                    0 <= j < i ==> cells@[j] == (Cell {
                        glyph: ' ',
                        fg: Rgb { r: 0, g: 0, b: 0 },
                        bg: Rgb { r: 0, g: 0, b: 0 },
                    }),
            decreases n - i,
        {
            cells.push(Cell::blank());
            i = i + 1;
        }
        let g = Grid { width, height, cells };
        proof {
            assert forall|x: int, y: int|
                0 <= x < width && 0 <= y < height implies #[trigger] g.spec_at(x, y) == (Cell {
                glyph: ' ',
                fg: Rgb { r: 0, g: 0, b: 0 },
                bg: Rgb { r: 0, g: 0, b: 0 },
            }) by {
                assert(0 <= y * width + x < width * height) by (nonlinear_arith)
                    requires
                        0 <= x < width,
                        0 <= y < height,
                ;
            }
        }
        g
    }

    /// Reads the cell at in-range coordinates.
    pub fn cell(&self, x: u16, y: u16) -> (c: Cell)
        requires
            self.wf(),
            x < self.width,
            y < self.height,
        ensures
            c == self.spec_at(x as int, y as int),
    {
        let i = self.idx(x, y);
        self.cells[i]
    }

    /// True when the cell at in-range coordinates holds no glyph.
    pub fn is_blank(&self, x: u16, y: u16) -> (b: bool)
        requires
            self.wf(),
            x < self.width,
            y < self.height,
        ensures
            b == (self.spec_at(x as int, y as int).glyph == ' '),
    {
        let i = self.idx(x, y);
        self.cells[i].glyph == ' '
    }

    /// Replaces the cell at in-range coordinates; the caller's way of
    /// pre-populating the grid with widget content.
    pub fn set_cell(&mut self, x: u16, y: u16, c: Cell)
        requires
            old(self).wf(),
            x < old(self).width,
            y < old(self).height,
        ensures
            final(self).wf(),
            final(self).width == old(self).width,
            final(self).height == old(self).height,
            final(self).cells@ == old(self).cells@.update(
                y * old(self).width + x,
                c,
            ),
    {
        let i = self.idx(x, y);
        self.cells.set(i, c);
    }

    /// Writes a glyph and foreground onto the cell only if it is blank,
    /// keeping its background: the write-only-if-blank rule of every
    /// decorative layer.
    pub fn write_if_blank(&mut self, x: u16, y: u16, glyph: char, fg: Rgb)
        requires
            old(self).wf(),
            x < old(self).width,
            y < old(self).height,
        ensures
            final(self).wf(),
            final(self).width == old(self).width,
            final(self).height == old(self).height,
            final(self).cells@ == (if old(self).spec_at(x as int, y as int).glyph == ' ' {
                old(self).cells@.update(
                    y * old(self).width + x,
                    Cell { glyph, fg, bg: old(self).spec_at(x as int, y as int).bg },
                )
            } else {
                old(self).cells@
            }),
    {
        let i = self.idx(x, y);
        let c = self.cells[i];
        if c.glyph == ' ' {
            self.cells.set(i, Cell { glyph, fg, bg: c.bg });
        }
    }

    /// Tints only the background of the cell, keeping glyph and
    /// foreground: the clock's glow and the lightning flash.
    pub fn tint_bg(&mut self, x: u16, y: u16, bg: Rgb)
        requires
            old(self).wf(),
            x < old(self).width,
            y < old(self).height,
        ensures
            final(self).wf(),
            final(self).width == old(self).width,
            final(self).height == old(self).height,
            final(self).cells@ == old(self).cells@.update(
                y * old(self).width + x,
                Cell {
                    glyph: old(self).spec_at(x as int, y as int).glyph,
                    fg: old(self).spec_at(x as int, y as int).fg,
                    bg,
                },
            ),
    {
        let i = self.idx(x, y);
        let c = self.cells[i];
        self.cells.set(i, Cell { glyph: c.glyph, fg: c.fg, bg });
    }

    /// Tints the background of every blank cell, leaving occupied cells
    /// untouched: the lightning pre-flash.
    pub fn tint_blank(&mut self, bg: Rgb)
        requires
            old(self).wf(),
        ensures
            final(self).wf(),
            final(self).width == old(self).width,
            final(self).height == old(self).height,
            forall|x: int, y: int|
                0 <= x < old(self).width && 0 <= y < old(self).height
                    ==> #[trigger] final(self).spec_at(x, y) == (if old(self).spec_at(x, y).glyph
                    == ' ' {
                    Cell {
                        glyph: old(self).spec_at(x, y).glyph,
                        fg: old(self).spec_at(x, y).fg,
                        bg,
                    }
                } else {
                    old(self).spec_at(x, y)
                }),
    {
        let w = self.width;
        let h = self.height;
        let mut y: u16 = 0;
        while y < h
            invariant
                self.wf(),
                self.width == w,
                self.height == h,
                y <= h,
                forall|xx: int, yy: int|
                    0 <= xx < w && 0 <= yy < y ==> #[trigger] self.spec_at(xx, yy) == (if old(self).spec_at(xx, yy).glyph == ' ' {
                        Cell {
                            glyph: old(self).spec_at(xx, yy).glyph,
                            fg: old(self).spec_at(xx, yy).fg,
                            bg,
                        }
                    } else {
                        old(self).spec_at(xx, yy)
                    }),
                forall|xx: int, yy: int|
                    0 <= xx < w && y <= yy < h ==> #[trigger] self.spec_at(xx, yy) == old(self).spec_at(xx, yy),
            decreases h - y,
        {
            let mut x: u16 = 0;
            while x < w
                invariant
                    self.wf(),
                    self.width == w,
                    self.height == h,
                    y < h,
                    x <= w,
                    forall|xx: int, yy: int|
                        0 <= xx < w && 0 <= yy < y ==> #[trigger] self.spec_at(xx, yy) == (if old(self).spec_at(xx, yy).glyph == ' ' {
                            Cell {
                                glyph: old(self).spec_at(xx, yy).glyph,
                                fg: old(self).spec_at(xx, yy).fg,
                                bg,
                            }
                        } else {
                            old(self).spec_at(xx, yy)
                        }),
                    forall|xx: int|
                        0 <= xx < x ==> #[trigger] self.spec_at(xx, y as int) == (if old(self).spec_at(xx, y as int).glyph == ' ' {
                            Cell {
                                glyph: old(self).spec_at(xx, y as int).glyph,
                                fg: old(self).spec_at(xx, y as int).fg,
                                bg,
                            }
                        } else {
                            old(self).spec_at(xx, y as int)
                        }),
                    forall|xx: int|
                        x <= xx < w ==> #[trigger] self.spec_at(xx, y as int) == old(self).spec_at(
                            xx,
                            y as int,
                        ),
                    forall|xx: int, yy: int|
                        0 <= xx < w && y < yy < h ==> #[trigger] self.spec_at(xx, yy) == old(self).spec_at(xx, yy),
                decreases w - x,
            {
                let ghost pre = *self;
                let ghost k = y as int * w as int + x as int;
                proof {
                    assert(0 <= k < w * h) by (nonlinear_arith)
                        requires
                            0 <= x < w as int,
                            0 <= y < h as int,
                            k == y as int * w as int + x as int,
                    ;
                }
                let c = self.cell(x, y);
                if c.glyph == ' ' {
                    self.tint_bg(x, y, bg);
                    proof {
                        assert(self.cells@ == pre.cells@.update(
                            k,
                            Cell { glyph: c.glyph, fg: c.fg, bg },
                        ));
                    }
                } else {
                    proof {
                        assert(self.cells@ == pre.cells@);
                    }
                }
                proof {
                    assert forall|xx: int, yy: int|
                        0 <= xx < w && 0 <= yy < h && !(xx == x as int && yy == y as int)
                            implies #[trigger] self.spec_at(xx, yy) == pre.spec_at(xx, yy) by {
                        assert(0 <= yy * w + xx < w * h) by (nonlinear_arith)
                            requires
                                0 <= xx < w as int,
                                0 <= yy < h as int,
                        ;
                        if yy * w as int + xx == y as int * w as int + x as int {
                            lemma_grid_index_injective(
                                w as int,
                                xx,
                                yy,
                                x as int,
                                y as int,
                            );
                        }
                    }
                }
                x = x + 1;
            }
            y = y + 1;
        }
    }
}

/// The outcome of the clock layer on one cell: a lit pixel fills a blank
/// cell with the block glyph in the clock colour, and behind widget text it
/// sets only the glow background; unlit cells are untouched.
pub open spec fn spec_clock_cell(c0: Cell, lit: bool) -> Cell {
    if lit {
        if c0.glyph == ' ' {
            Cell { glyph: '\u{2588}', fg: Rgb { r: 70, g: 80, b: 130 }, bg: c0.bg }
        } else {
            Cell { glyph: c0.glyph, fg: c0.fg, bg: Rgb { r: 22, g: 24, b: 40 } }
        }
    } else {
        c0
    }
}

/// Draws the ambient clock: every cell becomes `spec_clock_cell` of its
/// old value and whether the HH:MM display lights it. Skipped entirely
/// when the viewport is smaller than the display plus margin, so no glyph
/// placed by the widget layer is ever replaced.
pub fn render_clock(grid: &mut Grid, hour: u8, minute: u8, second: u8)
    requires
        old(grid).wf(),
    ensures
        final(grid).wf(),
        final(grid).width == old(grid).width,
        final(grid).height == old(grid).height,
        (old(grid).width < 42 || old(grid).height < 9) ==> final(grid).cells@ == old(grid).cells@,
        (old(grid).width >= 42 && old(grid).height >= 9) ==> forall|x: int, y: int|
            0 <= x < old(grid).width && 0 <= y < old(grid).height ==> #[trigger] final(grid).spec_at(x, y) == spec_clock_cell(
                old(grid).spec_at(x, y),
                spec_clock_lit(hour, minute, second, old(grid).width as int, x, y),
            ),
{
    if grid.width < 42 || grid.height < 9 {
        return ;
    }
    let w = grid.width;
    let h = grid.height;
    let mut y: u16 = 0;
    while y < h
        invariant
            grid.wf(),
            grid.width == w,
            grid.height == h,
            w >= 42,
            h >= 9,
            y <= h,
            forall|xx: int, yy: int|
                0 <= xx < w && 0 <= yy < y ==> #[trigger] grid.spec_at(xx, yy) == spec_clock_cell(
                    old(grid).spec_at(xx, yy),
                    spec_clock_lit(hour, minute, second, w as int, xx, yy),
                ),
            forall|xx: int, yy: int|
                0 <= xx < w && y <= yy < h ==> #[trigger] grid.spec_at(xx, yy) == old(grid).spec_at(xx, yy),
        decreases h - y,
    {
        let mut x: u16 = 0;
        while x < w
            invariant
                grid.wf(),
                grid.width == w,
                grid.height == h,
                w >= 42,
                h >= 9,
                y < h,
                x <= w,
                forall|xx: int, yy: int|
                    0 <= xx < w && 0 <= yy < y ==> #[trigger] grid.spec_at(xx, yy)
                        == spec_clock_cell(
                        old(grid).spec_at(xx, yy),
                        spec_clock_lit(hour, minute, second, w as int, xx, yy),
                    ),
                forall|xx: int|
                    0 <= xx < x ==> #[trigger] grid.spec_at(xx, y as int) == spec_clock_cell(
                        old(grid).spec_at(xx, y as int),
                        spec_clock_lit(hour, minute, second, w as int, xx, y as int),
                    ),
                forall|xx: int|
                    x <= xx < w ==> #[trigger] grid.spec_at(xx, y as int) == old(grid).spec_at(
                        xx,
                        y as int,
                    ),
                forall|xx: int, yy: int|
                    0 <= xx < w && y < yy < h ==> #[trigger] grid.spec_at(xx, yy) == old(grid).spec_at(xx, yy),
            decreases w - x,
        {
            let ghost pre = *grid;
            let ghost k = y as int * w as int + x as int;
            proof {
                assert(0 <= k < w * h) by (nonlinear_arith)
                    requires
                        0 <= x < w as int,
                        0 <= y < h as int,
                        k == y as int * w as int + x as int,
                ;
            }
            if clock_lit(hour, minute, second, w, x, y) {
                let c = grid.cell(x, y);
                if c.glyph == ' ' {
                    grid.set_cell(
                        x,
                        y,
                        Cell { glyph: '\u{2588}', fg: Rgb { r: 70, g: 80, b: 130 }, bg: c.bg },
                    );
                } else {
                    grid.tint_bg(x, y, Rgb { r: 22, g: 24, b: 40 });
                }
            }
            proof {
                assert forall|xx: int, yy: int|
                    0 <= xx < w && 0 <= yy < h && !(xx == x as int && yy == y as int)
                        implies #[trigger] grid.spec_at(xx, yy) == pre.spec_at(xx, yy) by {
                    assert(0 <= yy * w + xx < w * h) by (nonlinear_arith)
                        requires
                            0 <= xx < w as int,
                            0 <= yy < h as int,
                    ;
                    if yy * w as int + xx == y as int * w as int + x as int {
                        lemma_grid_index_injective(w as int, xx, yy, x as int, y as int);
                    }
                }
            }
            x = x + 1;
        }
        y = y + 1;
    }
}

/// The glyph drawn for a bolt segment on row `y`: a backslash-, bar- or
/// slash-shaped stroke by row remainder.
pub open spec fn spec_bolt_glyph(y: int) -> char {
    if y % 3 == 0 {
        '\u{2572}'
    } else if y % 3 == 1 {
        '\u{2502}'
    } else {
        '\u{2571}'
    }
}

/// The glyph drawn for a bolt segment on row `y`.
pub fn bolt_glyph(y: u16) -> (c: char)
    ensures
        c == spec_bolt_glyph(y as int),
        c != ' ',
{
    let m = y % 3;
    if m == 0 {
        '\u{2572}'
    } else if m == 1 {
        '\u{2502}'
    } else {
        '\u{2571}'
    }
}

/// Whether some bolt segment covers the cell.
pub open spec fn spec_has_seg(segs: Seq<(u16, u16)>, x: int, y: int) -> bool {
    exists|i: int| 0 <= i < segs.len() && (#[trigger] segs[i]).0 == x && segs[i].1 == y
}

/// Draws the bolt strokes onto blank cells only: a blank cell covered by
/// any segment gets the row's stroke glyph in the bolt colour; everything
/// else is untouched.
pub fn render_bolts(grid: &mut Grid, segs: &Vec<(u16, u16)>)
    requires
        old(grid).wf(),
    ensures
        final(grid).wf(),
        final(grid).width == old(grid).width,
        final(grid).height == old(grid).height,
        forall|x: int, y: int|
            0 <= x < old(grid).width && 0 <= y < old(grid).height ==> #[trigger] final(grid).spec_at(x, y) == (if old(grid).spec_at(x, y).glyph == ' ' && spec_has_seg(
                segs@,
                x,
                y,
            ) {
                Cell {
                    glyph: spec_bolt_glyph(y),
                    fg: Rgb { r: 180, g: 180, b: 100 },
                    bg: old(grid).spec_at(x, y).bg,
                }
            } else {
                old(grid).spec_at(x, y)
            }),
{
    let w = grid.width;
    let h = grid.height;
    let mut i: usize = 0;
    while i < segs.len()
        invariant
            grid.wf(),
            grid.width == w,
            grid.height == h,
            i <= segs@.len(),
            forall|x: int, y: int|
                0 <= x < w && 0 <= y < h ==> #[trigger] grid.spec_at(x, y) == (if old(grid).spec_at(x, y).glyph == ' ' && spec_has_seg(segs@.take(i as int), x, y) {
                    Cell {
                        glyph: spec_bolt_glyph(y),
                        fg: Rgb { r: 180, g: 180, b: 100 },
                        bg: old(grid).spec_at(x, y).bg,
                    }
                } else {
                    old(grid).spec_at(x, y)
                }),
        decreases segs@.len() - i,
    {
        let (sx, sy) = segs[i];
        let ghost pre = *grid;
        if sx < w && sy < h {
            let g = bolt_glyph(sy);
            grid.write_if_blank(sx, sy, g, Rgb { r: 180, g: 180, b: 100 });
            proof {
                let ghost k = sy as int * w as int + sx as int;
                assert(0 <= k < w * h) by (nonlinear_arith)
                    requires
                        0 <= sx < w as int,
                        0 <= sy < h as int,
                        k == sy as int * w as int + sx as int,
                ;
            }
        }
        proof {
            assert forall|x: int, y: int|
                0 <= x < w && 0 <= y < h implies #[trigger] grid.spec_at(x, y) == (if old(grid).spec_at(x, y).glyph == ' ' && spec_has_seg(segs@.take(i as int + 1), x, y) {
                Cell {
                    glyph: spec_bolt_glyph(y),
                    fg: Rgb { r: 180, g: 180, b: 100 },
                    bg: old(grid).spec_at(x, y).bg,
                }
            } else {
                old(grid).spec_at(x, y)
            }) by {
                assert(0 <= y * w + x < w * h) by (nonlinear_arith)
                    requires
                        0 <= x < w as int,
                        0 <= y < h as int,
                ;
                assert(segs@.take(i as int + 1)[i as int] == segs@[i as int]);
                // a hit among the first i + 1 segments is a hit among the
                // first i or the current segment itself
                if spec_has_seg(segs@.take(i as int + 1), x, y) && !spec_has_seg(
                    segs@.take(i as int),
                    x,
                    y,
                ) {
                    let j = choose|j: int|
                        0 <= j < segs@.take(i as int + 1).len() && (#[trigger] segs@.take(
                            i as int + 1,
                        )[j]).0 == x && segs@.take(i as int + 1)[j].1 == y;
                    if j < i {
                        assert(segs@.take(i as int)[j] == segs@[j]);
                        assert(spec_has_seg(segs@.take(i as int), x, y));
                    }
                }
                if spec_has_seg(segs@.take(i as int), x, y) {
                    let j = choose|j: int|
                        0 <= j < segs@.take(i as int).len() && (#[trigger] segs@.take(
                            i as int,
                        )[j]).0 == x && segs@.take(i as int)[j].1 == y;
                    assert(segs@.take(i as int + 1)[j] == segs@[j]);
                    assert(spec_has_seg(segs@.take(i as int + 1), x, y));
                }
                if x == sx as int && y == sy as int {
                } else {
                    if y * w as int + x == sy as int * w as int + sx as int && sx < w && sy < h {
                        lemma_grid_index_injective(w as int, x, y, sx as int, sy as int);
                    }
                    assert(grid.spec_at(x, y) == pre.spec_at(x, y));
                }
            }
        }
        i = i + 1;
    }
    proof {
        assert(segs@.take(segs@.len() as int) =~= segs@);
    }
}

/// The cell column a particle is drawn in: its position truncated toward
/// zero, negatives landing in column zero.
pub open spec fn spec_px(p: ParticleModel) -> int {
    if p.x < 0 {
        0
    } else {
        p.x / (POS_SCALE as int)
    }
}

/// The cell row a particle is drawn in.
pub open spec fn spec_py(p: ParticleModel) -> int {
    if p.y < 0 {
        0
    } else {
        p.y / (POS_SCALE as int)
    }
}

/// Whether the particle is drawn at the in-viewport cell `(x, y)`.
pub open spec fn spec_hits(p: ParticleModel, x: int, y: int, w: int, h: int) -> bool {
    spec_px(p) == x && spec_py(p) == y && x < w && y < h
}

/// Index of the first particle drawn at `(x, y)`, or -1 if none: particles
/// are drawn in pool order and only the first to reach a blank cell shows.
pub open spec fn spec_first_hit(s: Seq<ParticleModel>, x: int, y: int, w: int, h: int) -> int
    decreases s.len(),
{
    if s.len() == 0 {
        -1
    } else if spec_hits(s[0], x, y, w, h) {
        0
    } else {
        let r = spec_first_hit(s.drop_first(), x, y, w, h);
        if r < 0 {
            -1
        } else {
            r + 1
        }
    }
}

/// The first-hit index is a valid index of a hitting particle, preceded
/// only by misses; -1 means no particle hits.
pub proof fn lemma_first_hit_props(s: Seq<ParticleModel>, x: int, y: int, w: int, h: int)
    ensures
        -1 <= spec_first_hit(s, x, y, w, h) < s.len(),
        spec_first_hit(s, x, y, w, h) >= 0 ==> spec_hits(s[spec_first_hit(s, x, y, w, h)], x, y, w, h),
        spec_first_hit(s, x, y, w, h) == -1 ==> forall|j: int|
            0 <= j < s.len() ==> !spec_hits(#[trigger] s[j], x, y, w, h),
        forall|j: int|
            0 <= j < spec_first_hit(s, x, y, w, h) ==> !spec_hits(#[trigger] s[j], x, y, w, h),
    decreases s.len(),
{
    if s.len() > 0 && !spec_hits(s[0], x, y, w, h) {
        lemma_first_hit_props(s.drop_first(), x, y, w, h);
        assert forall|j: int| 0 <= j < s.len() && j >= 1 implies s.drop_first()[j - 1] == #[trigger] s[j] by {}
    }
}

/// Appending a particle leaves the first hit unchanged unless nothing hit
/// before and the new particle does.
pub proof fn lemma_first_hit_push(
    s: Seq<ParticleModel>,
    p: ParticleModel,
    x: int,
    y: int,
    w: int,
    h: int,
)
    ensures
        spec_first_hit(s.push(p), x, y, w, h) == (if spec_first_hit(s, x, y, w, h) >= 0 {
            spec_first_hit(s, x, y, w, h)
        } else if spec_hits(p, x, y, w, h) {
            s.len() as int
        } else {
            -1int
        }),
    decreases s.len(),
{
    if s.len() == 0 {
        assert(s.push(p)[0] == p);
        assert(s.push(p).drop_first() =~= Seq::<ParticleModel>::empty());
        assert(spec_first_hit(Seq::<ParticleModel>::empty(), x, y, w, h) == -1);
        assert(spec_first_hit(s, x, y, w, h) == -1);
    } else {
        assert(s.push(p)[0] == s[0]);
        assert(s.push(p).drop_first() =~= s.drop_first().push(p));
        lemma_first_hit_push(s.drop_first(), p, x, y, w, h);
        lemma_first_hit_props(s.drop_first(), x, y, w, h);
        if spec_hits(s[0], x, y, w, h) {
            assert(spec_first_hit(s.push(p), x, y, w, h) == 0);
            assert(spec_first_hit(s, x, y, w, h) == 0);
        } else {
            let r = spec_first_hit(s.drop_first(), x, y, w, h);
            let rp = spec_first_hit(s.drop_first().push(p), x, y, w, h);
            assert(spec_first_hit(s.push(p), x, y, w, h) == (if rp < 0 {
                -1int
            } else {
                rp + 1
            }));
            assert(spec_first_hit(s, x, y, w, h) == (if r < 0 {
                -1int
            } else {
                r + 1
            }));
        }
    }
}

/// Draws the particles onto blank cells only, in pool order: of all
/// particles mapping to one blank cell, exactly the first in pool order
/// shows, with its glyph and colour; occupied cells are untouched.
pub fn render_particles(grid: &mut Grid, particles: &Vec<Particle>)
    requires
        old(grid).wf(),
        forall|i: int| 0 <= i < particles@.len() ==> (#[trigger] particles@[i]@).glyph != ' ',
    ensures
        final(grid).wf(),
        final(grid).width == old(grid).width,
        final(grid).height == old(grid).height,
        forall|x: int, y: int|
            0 <= x < old(grid).width && 0 <= y < old(grid).height ==> #[trigger] final(grid).spec_at(x, y) == (if old(grid).spec_at(x, y).glyph == ' ' && spec_first_hit(
                pool_view(particles@),
                x,
                y,
                old(grid).width as int,
                old(grid).height as int,
            ) >= 0 {
                Cell {
                    glyph: pool_view(particles@)[spec_first_hit(
                        pool_view(particles@),
                        x,
                        y,
                        old(grid).width as int,
                        old(grid).height as int,
                    )].glyph,
                    fg: pool_view(particles@)[spec_first_hit(
                        pool_view(particles@),
                        x,
                        y,
                        old(grid).width as int,
                        old(grid).height as int,
                    )].fg,
                    bg: old(grid).spec_at(x, y).bg,
                }
            } else {
                old(grid).spec_at(x, y)
            }),
{
    let w = grid.width;
    let h = grid.height;
    let ghost m = pool_view(particles@);
    let mut i: usize = 0;
    while i < particles.len()
        invariant
            grid.wf(),
            grid.width == w,
            grid.height == h,
            i <= particles@.len(),
            m == pool_view(particles@),
            forall|j: int| 0 <= j < particles@.len() ==> (#[trigger] particles@[j]@).glyph != ' ',
            forall|x: int, y: int|
                0 <= x < w && 0 <= y < h ==> #[trigger] grid.spec_at(x, y) == (if old(grid).spec_at(x, y).glyph == ' ' && spec_first_hit(
                    m.take(i as int),
                    x,
                    y,
                    w as int,
                    h as int,
                ) >= 0 {
                    Cell {
                        glyph: m[spec_first_hit(m.take(i as int), x, y, w as int, h as int)].glyph,
                        fg: m[spec_first_hit(m.take(i as int), x, y, w as int, h as int)].fg,
                        bg: old(grid).spec_at(x, y).bg,
                    }
                } else {
                    old(grid).spec_at(x, y)
                }),
        decreases particles@.len() - i,
    {
        let p = particles[i];
        assert(p@ == m[i as int]);
        let px64: u64 = if p.x < 0 {
            0
        } else {
            (p.x as u64) / (POS_SCALE as u64)
        };
        let py64: u64 = if p.y < 0 {
            0
        } else {
            (p.y as u64) / (POS_SCALE as u64)
        };
        assert(px64 == spec_px(p@) && py64 == spec_py(p@));
        let ghost pre = *grid;
        if px64 < w as u64 && py64 < h as u64 {
            let sx: u16 = px64 as u16;
            let sy: u16 = py64 as u16;
            grid.write_if_blank(sx, sy, p.glyph, p.fg);
            proof {
                let ghost k = sy as int * w as int + sx as int;
                assert(0 <= k < w * h) by (nonlinear_arith)
                    requires
                        0 <= sx < w as int,
                        0 <= sy < h as int,
                        k == sy as int * w as int + sx as int,
                ;
            }
        }
        proof {
            assert(m.take(i as int + 1) =~= m.take(i as int).push(m[i as int]));
            assert forall|x: int, y: int|
                0 <= x < w && 0 <= y < h implies #[trigger] grid.spec_at(x, y) == (if old(grid).spec_at(x, y).glyph == ' ' && spec_first_hit(
                m.take(i as int + 1),
                x,
                y,
                w as int,
                h as int,
            ) >= 0 {
                Cell {
                    glyph: m[spec_first_hit(m.take(i as int + 1), x, y, w as int, h as int)].glyph,
                    fg: m[spec_first_hit(m.take(i as int + 1), x, y, w as int, h as int)].fg,
                    bg: old(grid).spec_at(x, y).bg,
                }
            } else {
                old(grid).spec_at(x, y)
            }) by {
                assert(0 <= y * w + x < w * h) by (nonlinear_arith)
                    requires
                        0 <= x < w as int,
                        0 <= y < h as int,
                ;
                lemma_first_hit_push(m.take(i as int), m[i as int], x, y, w as int, h as int);
                lemma_first_hit_props(m.take(i as int), x, y, w as int, h as int);
                if x == spec_px(m[i as int]) && y == spec_py(m[i as int]) && spec_hits(
                    m[i as int],
                    x,
                    y,
                    w as int,
                    h as int,
                ) {
                } else {
                    if spec_px(m[i as int]) < w && spec_py(m[i as int]) < h && (y * w as int + x
                        == spec_py(m[i as int]) * w as int + spec_px(m[i as int])) {
                        lemma_grid_index_injective(
                            w as int,
                            x,
                            y,
                            spec_px(m[i as int]),
                            spec_py(m[i as int]),
                        );
                    }
                    assert(grid.spec_at(x, y) == pre.spec_at(x, y));
                }
            }
        }
        i = i + 1;
    }
    proof {
        assert(m.take(particles@.len() as int) =~= m);
    }
}

/// The flash tint of each tier of remaining flash frames: dimmer near the
/// start and end of the flash window, brightest mid-flash.
pub open spec fn spec_flash_tint(frames: u8) -> Rgb {
    if frames >= 13 {
        Rgb { r: 15, g: 15, b: 30 }
    } else if frames >= 7 {
        Rgb { r: 30, g: 30, b: 55 }
    } else {
        Rgb { r: 18, g: 18, b: 35 }
    }
}

/// What the lightning layers make of one cell: while a flash is active
/// under the Lightning effect, a blank cell's background takes the tier
/// tint, and during the brightest portion of the flash (12 or more frames
/// remaining) a blank cell covered by a bolt entry takes the row's stroke
/// glyph in the bolt colour. Occupied cells are untouched.
pub open spec fn spec_weather_mid(ps: ParticleSystem, c0: Cell, x: int, y: int) -> Cell {
    let flashing = ps.lightning.active && ps.effect == Effect::Lightning;
    let c1 = if flashing && c0.glyph == ' ' {
        Cell { glyph: c0.glyph, fg: c0.fg, bg: spec_flash_tint(ps.lightning.frames_remaining) }
    } else {
        c0
    };
    if flashing && ps.lightning.frames_remaining >= 12 && c1.glyph == ' ' && spec_has_seg(
        ps.lightning.bolt@,
        x,
        y,
    ) {
        Cell { glyph: spec_bolt_glyph(y), fg: Rgb { r: 180, g: 180, b: 100 }, bg: c1.bg }
    } else {
        c1
    }
}

/// What the whole weather layer makes of one cell: the lightning tint and
/// bolt strokes of `spec_weather_mid`, then the first pooled particle to
/// reach the cell, if it is still blank, shows its glyph and colour over
/// the tinted background. An occupied cell passes through unchanged.
pub open spec fn spec_weather_cell(
    ps: ParticleSystem,
    c0: Cell,
    x: int,
    y: int,
    w: int,
    h: int,
) -> Cell {
    let c2 = spec_weather_mid(ps, c0, x, y);
    let m = pool_view(ps.particles@);
    let fh = spec_first_hit(m, x, y, w, h);
    if c2.glyph == ' ' && fh >= 0 {
        Cell { glyph: m[fh].glyph, fg: m[fh].fg, bg: c2.bg }
    } else {
        c2
    }
}

/// Draws the whole weather layer in order: the lightning pre-flash tint,
/// the bolt strokes during the brightest part of the flash, then the
/// particles. A disabled engine draws nothing; otherwise every cell
/// becomes exactly `spec_weather_cell` of its old value. In particular no
/// cell occupied before the pass changes at all (the non-destructive
/// rule; the flash tint touches blank backgrounds only).
pub fn render_weather(grid: &mut Grid, ps: &ParticleSystem)
    requires
        old(grid).wf(),
        ps.wf(),
    ensures
        final(grid).wf(),
        final(grid).width == old(grid).width,
        final(grid).height == old(grid).height,
        !ps.enabled ==> final(grid).cells@ == old(grid).cells@,
        ps.enabled ==> forall|x: int, y: int|
            0 <= x < old(grid).width && 0 <= y < old(grid).height ==> #[trigger] final(grid).spec_at(x, y) == spec_weather_cell(
                *ps,
                old(grid).spec_at(x, y),
                x,
                y,
                old(grid).width as int,
                old(grid).height as int,
            ),
        forall|x: int, y: int|
            0 <= x < old(grid).width && 0 <= y < old(grid).height && old(grid).spec_at(
                x,
                y,
            ).glyph != ' ' ==> #[trigger] final(grid).spec_at(x, y) == old(grid).spec_at(x, y),
{
    if !ps.enabled {
        return ;
    }
    let ghost g0 = *grid;
    let w = grid.width;
    let h = grid.height;
    let flashing = ps.lightning.active && ps.effect == Effect::Lightning;
    if flashing {
        let f = ps.lightning.frames_remaining;
        let tint = if f >= 13 {
            Rgb { r: 15, g: 15, b: 30 }
        } else if f >= 7 {
            Rgb { r: 30, g: 30, b: 55 }
        } else {
            Rgb { r: 18, g: 18, b: 35 }
        };
        assert(tint == spec_flash_tint(f));
        grid.tint_blank(tint);
        let ghost gt = *grid;
        if f >= 12 {
            render_bolts(grid, &ps.lightning.bolt);
        }
        proof {
            assert forall|x: int, y: int|
                0 <= x < w && 0 <= y < h implies #[trigger] grid.spec_at(x, y)
                == spec_weather_mid(*ps, g0.spec_at(x, y), x, y) by {
                assert(gt.spec_at(x, y) == (if g0.spec_at(x, y).glyph == ' ' {
                    Cell {
                        glyph: g0.spec_at(x, y).glyph,
                        fg: g0.spec_at(x, y).fg,
                        bg: spec_flash_tint(f),
                    }
                } else {
                    g0.spec_at(x, y)
                }));
            }
        }
    } else {
        proof {
            assert forall|x: int, y: int|
                0 <= x < w && 0 <= y < h implies #[trigger] grid.spec_at(x, y)
                == spec_weather_mid(*ps, g0.spec_at(x, y), x, y) by {}
        }
    }
    let ghost g1 = *grid;
    render_particles(grid, &ps.particles);
    proof {
        assert forall|x: int, y: int|
            0 <= x < w && 0 <= y < h implies #[trigger] grid.spec_at(x, y) == spec_weather_cell(
                *ps,
                g0.spec_at(x, y),
                x,
                y,
                w as int,
                h as int,
            ) by {
            assert(g1.spec_at(x, y) == spec_weather_mid(*ps, g0.spec_at(x, y), x, y));
        }
    }
}

} // verus!
