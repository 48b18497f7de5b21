//! The lightning generator: a two-state machine (idle, active flash) with a
//! procedurally generated bolt.
//!
//! Idle becomes active once the time since the last strike reaches a target
//! interval sampled uniformly from 3 to 8 whole seconds. A strike lasts
//! `FLASH_FRAMES` generator steps and carries a bolt: one column walk from a
//! random starting column down the viewport, one row at a time, each row
//! optionally adding a branch one column to the side. Every bolt coordinate
//! is clamped into the viewport columns.

use vstd::prelude::*;

use crate::rng::{rng_below, rng_bool};

verus! {

/// Generator steps a flash lasts once a strike begins.
pub const FLASH_FRAMES: u8 = 18;

/// Shortest sampled interval between strikes, in milliseconds.
pub const STRIKE_MIN_MS: u64 = 3_000;

/// Longest sampled interval between strikes, in milliseconds.
pub const STRIKE_MAX_MS: u64 = 8_000;

/// State of the lightning generator.
pub struct LightningState {
    /// Whether a flash is in progress.
    pub active: bool,
    /// Generator steps left in the current flash; zero exactly when idle.
    pub frames_remaining: u8,
    /// Bolt coordinates (column, row) of the current strike, top to bottom,
    /// with branch entries interleaved after their row's main entry.
    pub bolt: Vec<(u16, u16)>,
    /// Target interval between strikes, sampled at the end of the previous
    /// strike (or at initialization), in milliseconds.
    pub next_strike_ms: u64,
    /// Reading of the reference clock when the interval timer last started.
    pub strike_timer_ms: u64,
}

impl LightningState {
    /// Well-formed generator state: the flash counter is bounded and is
    /// positive exactly while a flash is active, and the strike interval
    /// is one of the sampled whole seconds from 3 s to 8 s.
    pub open spec fn wf(self) -> bool {
        &&& self.frames_remaining <= FLASH_FRAMES
        &&& self.active <==> self.frames_remaining >= 1
        &&& STRIKE_MIN_MS <= self.next_strike_ms <= STRIKE_MAX_MS
        &&& self.next_strike_ms % 1000 == 0
    }

    /// Initial state: idle, with a 5 s interval until the first strike and
    /// the timer started at `now_ms`.
    pub fn new(now_ms: u64) -> (l: LightningState)
        ensures
            l.wf(),
            !l.active,
            l.frames_remaining == 0,
            l.bolt@.len() == 0,
            l.next_strike_ms == 5_000,
            l.strike_timer_ms == now_ms,
    {
        LightningState {
            active: false,
            frames_remaining: 0,
            bolt: Vec::new(),
            next_strike_ms: 5_000,
            strike_timer_ms: now_ms,
        }
    }
}

/// Both states hold the same values.
pub open spec fn spec_lightning_unchanged(l0: LightningState, l1: LightningState) -> bool {
    &&& l1.active == l0.active
    &&& l1.frames_remaining == l0.frames_remaining
    &&& l1.bolt@ == l0.bolt@
    &&& l1.next_strike_ms == l0.next_strike_ms
    &&& l1.strike_timer_ms == l0.strike_timer_ms
}

/// Some bolt entry lies on row `y`.
pub open spec fn spec_row_covered(segs: Seq<(u16, u16)>, y: int) -> bool {
    exists|i: int| 0 <= i < segs.len() && (#[trigger] segs[i]).1 == y
}

/// The step discipline of a bolt's entry list, read from the end: each
/// entry sits on the same row as its predecessor or one row below, never
/// above; within a row the column moves by at most two (a branch sits one
/// column beside the walked column, itself at most one from the row's own
/// entry), and down to the next row by at most one; and no three entries
/// share a row.
pub open spec fn spec_bolt_steps(segs: Seq<(u16, u16)>) -> bool
    decreases segs.len(),
{
    if segs.len() <= 1 {
        true
    } else {
        let q = segs[segs.len() - 2];
        let p = segs.last();
        &&& q.1 <= p.1 <= q.1 + 1
        &&& (q.1 == p.1 ==> q.0 <= p.0 + 2 && p.0 <= q.0 + 2)
        &&& (q.1 != p.1 ==> q.0 <= p.0 + 1 && p.0 <= q.0 + 1)
        &&& (segs.len() >= 3 ==> segs[segs.len() - 3].1 < p.1)
        &&& spec_bolt_steps(segs.drop_last())
    }
}

/// Structure of a generated bolt: every coordinate inside the viewport;
/// every row gets an entry and at most two, walked top to bottom under
/// `spec_bolt_steps`.
pub open spec fn spec_bolt_wf(segs: Seq<(u16, u16)>, width: u16, height: u16) -> bool {
    &&& height <= segs.len() <= 2 * height
    &&& forall|i: int|
        0 <= i < segs.len() ==> (#[trigger] segs[i]).0 < width && segs[i].1 < height
    &&& spec_bolt_steps(segs)
    &&& forall|y: int| 0 <= y < height ==> #[trigger] spec_row_covered(segs, y)
}

/// Appending an entry that steps correctly from the last one keeps the
/// step discipline.
pub proof fn lemma_bolt_steps_push(segs: Seq<(u16, u16)>, p: (u16, u16))
    requires
        spec_bolt_steps(segs),
        segs.len() > 0 ==> {
            let q = segs.last();
            &&& q.1 <= p.1 <= q.1 + 1
            &&& (q.1 == p.1 ==> q.0 <= p.0 + 2 && p.0 <= q.0 + 2)
            &&& (q.1 != p.1 ==> q.0 <= p.0 + 1 && p.0 <= q.0 + 1)
        },
        segs.len() >= 2 ==> segs[segs.len() - 2].1 < p.1,
    ensures
        spec_bolt_steps(segs.push(p)),
{
    let full = segs.push(p);
    assert(full.drop_last() =~= segs);
    assert(full.last() == p);
    if segs.len() > 0 {
        assert(full[full.len() - 2] == segs.last());
    }
    if segs.len() >= 2 {
        assert(full[full.len() - 3] == segs[segs.len() - 2]);
    }
}

/// Appending an entry keeps every covered row covered, and covers the
/// appended entry's own row.
pub proof fn lemma_row_covered_push(segs: Seq<(u16, u16)>, p: (u16, u16), bound: int)
    requires
        forall|y: int| 0 <= y < bound ==> #[trigger] spec_row_covered(segs, y),
    ensures
        forall|y: int| 0 <= y < bound ==> #[trigger] spec_row_covered(segs.push(p), y),
        spec_row_covered(segs.push(p), p.1 as int),
{
    assert(segs.push(p)[segs.len() as int] == p);
    assert((segs.push(p)[segs.len() as int]).1 == p.1);
    assert forall|y: int| 0 <= y < bound implies #[trigger] spec_row_covered(
        segs.push(p),
        y,
    ) by {
        assert(spec_row_covered(segs, y));
        let i = choose|i: int| 0 <= i < segs.len() && (#[trigger] segs[i]).1 == y;
        assert(segs.push(p)[i] == segs[i]);
        assert((segs.push(p)[i]).1 == y);
    }
}

/// One generator step. While a flash is active its counter decrements and
/// the flash ends at zero. While idle, once the sampled interval has
/// elapsed a strike begins: the flash counter restarts, a fresh bolt with
/// the walked-column structure of `spec_bolt_wf` is generated, a new
/// interval in [3 s, 8 s] is sampled, and the timer restarts at `now_ms`.
/// Otherwise nothing changes.
pub open spec fn spec_lightning_step(
    l0: LightningState,
    l1: LightningState,
    width: u16,
    height: u16,
    now_ms: u64,
) -> bool {
    if l0.active {
        &&& l1.active == (l0.frames_remaining > 1)
        &&& l1.frames_remaining == l0.frames_remaining - 1
        &&& l1.bolt@ == l0.bolt@
        &&& l1.next_strike_ms == l0.next_strike_ms
        &&& l1.strike_timer_ms == l0.strike_timer_ms
    } else if now_ms >= l0.strike_timer_ms + l0.next_strike_ms && width >= 1 {
        &&& l1.active
        &&& l1.frames_remaining == FLASH_FRAMES
        &&& spec_bolt_wf(l1.bolt@, width, height)
        &&& STRIKE_MIN_MS <= l1.next_strike_ms <= STRIKE_MAX_MS
        &&& l1.next_strike_ms % 1000 == 0
        &&& l1.strike_timer_ms == now_ms
    } else {
        spec_lightning_unchanged(l0, l1)
    }
}

/// Samples the interval until the next strike: a whole number of seconds,
/// uniform over 3 to 8 inclusive.
pub fn sample_strike_interval(rng: &mut fastrand::Rng) -> (ms: u64)
    ensures
        STRIKE_MIN_MS <= ms <= STRIKE_MAX_MS,
        ms % 1000 == 0,
{
    let secs: u64 = 3 + rng_below(rng, 6) as u64;
    secs * 1000
}

/// Generates the bolt of a new strike: a random starting column, clamped
/// into the viewport, walked down one row at a time, moving left, right or
/// not at all with equal probability, with a roughly 30% chance per row of
/// a branch one column to either side of the walked column. The result has
/// the full walked structure of `spec_bolt_wf`.
#[verifier::rlimit(40)]
pub fn generate_bolt(rng: &mut fastrand::Rng, width: u16, height: u16) -> (segs: Vec<(u16, u16)>)
    requires
        width >= 1,
    ensures
        spec_bolt_wf(segs@, width, height),
{
    let hi: u16 = if width >= 5 {
        width - 2
    } else {
        3
    };
    let start: u16 = 2 + rng_below(rng, (hi - 2) as u32) as u16;
    let mut x: u16 = if start < width {
        start
    } else {
        width - 1
    };
    let mut segs: Vec<(u16, u16)> = Vec::new();
    let mut row: u16 = 0;
    while row < height
        invariant
            width >= 1,
            x < width,
            row <= height,
            row <= segs@.len() <= 2 * row,
            forall|i: int|
                0 <= i < segs@.len() ==> (#[trigger] segs@[i]).0 < width && segs@[i].1 < row,
            row > 0 ==> segs@.len() > 0 && segs@.last().1 == row - 1 && segs@.last().0 <= x + 1
                && x <= segs@.last().0 + 1,
            spec_bolt_steps(segs@),
            forall|y: int| 0 <= y < row ==> #[trigger] spec_row_covered(segs@, y),
        decreases height - row,
    {
        let ghost pre = segs@;
        let ghost x_walk = x;
        proof {
            if pre.len() >= 2 {
                // the second-to-last entry belongs to a completed row
                assert(pre[pre.len() - 2].1 < row);
            }
            lemma_bolt_steps_push(pre, (x_walk, row));
            lemma_row_covered_push(pre, (x_walk, row), row as int);
        }
        segs.push((x, row));
        let mv = rng_below(rng, 3);
        if mv == 0 {
            x = if x > 0 {
                x - 1
            } else {
                0
            };
        } else if mv == 1 {
            x = if x + 1 < width {
                x + 1
            } else {
                width - 1
            };
        }
        assert(x < width && x_walk <= x + 1 && x <= x_walk + 1);
        if rng_below(rng, 10) < 3 {
            let bx: u16 = if rng_bool(rng) {
                if x > 0 {
                    x - 1
                } else {
                    0
                }
            } else {
                if x + 1 < width {
                    x + 1
                } else {
                    width - 1
                }
            };
            assert(bx < width && bx <= x + 1 && x <= bx + 1);
            let ghost pre2 = segs@;
            proof {
                assert(pre2.last() == (x_walk, row));
                assert(pre2.len() >= 2 ==> pre2[pre2.len() - 2] == pre[pre.len() - 1]);
                lemma_bolt_steps_push(pre2, (bx, row));
                lemma_row_covered_push(pre2, (bx, row), row as int + 1);
            }
            segs.push((bx, row));
        }
        row = row + 1;
    }
    segs
}

/// One step of the lightning generator against the reference clock reading
/// `now_ms`; see `spec_lightning_step` for the exact transition.
#[verifier::rlimit(40)]
pub fn update_lightning(
    l: &mut LightningState,
    rng: &mut fastrand::Rng,
    width: u16,
    height: u16,
    now_ms: u64,
)
    requires
        old(l).wf(),
    ensures
        final(l).wf(),
        spec_lightning_step(*old(l), *final(l), width, height, now_ms),
{
    if l.active {
        l.frames_remaining = l.frames_remaining - 1;
        if l.frames_remaining == 0 {
            l.active = false;
        }
    } else if now_ms.saturating_sub(l.strike_timer_ms) >= l.next_strike_ms && width >= 1 {
        l.active = true;
        l.frames_remaining = FLASH_FRAMES;
        l.bolt = generate_bolt(rng, width, height);
        l.next_strike_ms = sample_strike_interval(rng);
        l.strike_timer_ms = now_ms;
    }
}

} // verus!
