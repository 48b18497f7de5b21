//! Tests of the lightning generator, the compositor's layering rules, the
//! clock, the season derivation, the schedule decisions, and the counter
//! parsers.

use peppemon::clock::local_hm;
use peppemon::compositor::{render_clock, render_weather, Cell, Grid};
use peppemon::engine::{Effect, ParticleSystem};
use peppemon::lightning::{generate_bolt, sample_strike_interval, update_lightning, LightningState};
use peppemon::metrics::{read_disk_bytes, read_net_bytes};
use peppemon::particle::{Particle, Rgb, POS_SCALE};
use peppemon::scheduler::Cadence;
use peppemon::season::{detect_season, Season};
use peppemon::settings::{settings_change, sort_label, SettingsRow, SortMode};

const EPOCH_JULY: u64 = 1_752_537_600;

#[test]
fn bolt_columns_stay_in_viewport() {
    let mut rng = fastrand::Rng::with_seed(7);
    for width in [1u16, 2, 3, 5, 40, 80] {
        for _ in 0..20 {
            let segs = generate_bolt(&mut rng, width, 24);
            assert!(segs.len() >= 24);
            assert!(segs.len() <= 48);
            for &(x, y) in &segs {
                assert!(x < width);
                assert!(y < 24);
            }
        }
    }
}

#[test]
fn bolt_walks_down_one_row_at_a_time() {
    let mut rng = fastrand::Rng::with_seed(13);
    for _ in 0..50 {
        let segs = generate_bolt(&mut rng, 80, 24);
        // every row covered, at most twice
        let mut per_row = [0u8; 24];
        for &(_, y) in &segs {
            per_row[y as usize] += 1;
        }
        for count in per_row {
            assert!(count >= 1 && count <= 2);
        }
        // rows never decrease or skip; columns move by at most one down to
        // the next row and at most two within one (the branch)
        for i in 0..segs.len() - 1 {
            let (cx, cy) = segs[i];
            let (nx, ny) = segs[i + 1];
            assert!(cy == ny || cy + 1 == ny);
            let dx = cx.abs_diff(nx);
            if cy == ny {
                assert!(dx <= 2);
            } else {
                assert!(dx <= 1);
            }
        }
    }
}

#[test]
fn strike_intervals_stay_within_three_to_eight_seconds() {
    let mut rng = fastrand::Rng::with_seed(11);
    let mut seen = std::collections::BTreeSet::new();
    for _ in 0..200 {
        let ms = sample_strike_interval(&mut rng);
        assert!((3_000..=8_000).contains(&ms));
        assert_eq!(ms % 1_000, 0);
        seen.insert(ms);
    }
    assert!(seen.len() >= 2);
}

#[test]
fn lightning_state_machine_flashes_and_rearms() {
    let mut rng = fastrand::Rng::with_seed(3);
    let mut l = LightningState::new(0);
    assert!(!l.active);
    assert_eq!(l.next_strike_ms, 5_000);
    // not yet due
    update_lightning(&mut l, &mut rng, 80, 24, 4_999);
    assert!(!l.active);
    // due: a strike begins with a full flash and a fresh bolt
    update_lightning(&mut l, &mut rng, 80, 24, 5_000);
    assert!(l.active);
    assert_eq!(l.frames_remaining, 18);
    assert!(l.bolt.len() >= 24);
    assert_eq!(l.strike_timer_ms, 5_000);
    // the flash counts down to idle
    for k in (0..18u8).rev() {
        update_lightning(&mut l, &mut rng, 80, 24, 5_000);
        assert_eq!(l.frames_remaining, k);
    }
    assert!(!l.active);
    assert!((3_000..=8_000).contains(&l.next_strike_ms));
}

fn occupied(glyph: char) -> Cell {
    Cell {
        glyph,
        fg: Rgb { r: 200, g: 200, b: 200 },
        bg: Rgb { r: 0, g: 0, b: 0 },
    }
}

#[test]
fn widgets_are_never_overdrawn() {
    let mut ps = ParticleSystem::new(5, 0, EPOCH_JULY);
    for _ in 0..120 {
        ps.update(80, 24, 16, 0, EPOCH_JULY);
    }
    assert!(ps.particles.len() > 0);

    let mut grid = Grid::new(80, 24);
    // pre-mark a set of cells with widget content, including cells inside
    // the clock area
    let marked = [(0u16, 0u16), (10, 2), (21, 3), (40, 2), (50, 12), (79, 23)];
    for &(x, y) in &marked {
        grid.set_cell(x, y, occupied('W'));
    }
    render_clock(&mut grid, 12, 34, 56);
    render_weather(&mut grid, &ps);
    for &(x, y) in &marked {
        let c = grid.cell(x, y);
        assert_eq!(c.glyph, 'W');
        assert_eq!(c.fg, Rgb { r: 200, g: 200, b: 200 });
    }
}

#[test]
fn clock_draws_blocks_and_glows_behind_widgets() {
    let mut grid = Grid::new(80, 9);
    render_clock(&mut grid, 12, 34, 56);
    let mut blocks = 0;
    for y in 0..9u16 {
        for x in 0..80u16 {
            if grid.cell(x, y).glyph == '\u{2588}' {
                blocks += 1;
            }
        }
    }
    assert!(blocks > 0);

    // a widget cell on a lit pixel keeps its glyph but gains the glow
    let mut g2 = Grid::new(80, 9);
    let mut lit = None;
    for y in 0..9u16 {
        for x in 0..80u16 {
            if grid.cell(x, y).glyph == '\u{2588}' {
                lit = Some((x, y));
            }
        }
    }
    let (lx, ly) = lit.unwrap();
    g2.set_cell(lx, ly, occupied('W'));
    render_clock(&mut g2, 12, 34, 56);
    let c = g2.cell(lx, ly);
    assert_eq!(c.glyph, 'W');
    assert_eq!(c.bg, Rgb { r: 22, g: 24, b: 40 });
}

#[test]
fn clock_is_skipped_on_small_viewports() {
    let mut grid = Grid::new(41, 9);
    render_clock(&mut grid, 12, 34, 56);
    for y in 0..9u16 {
        for x in 0..41u16 {
            assert_eq!(grid.cell(x, y).glyph, ' ');
        }
    }
}

#[test]
fn colon_blinks_with_the_second() {
    let mut even = Grid::new(80, 9);
    render_clock(&mut even, 0, 0, 2);
    let mut odd = Grid::new(80, 9);
    render_clock(&mut odd, 0, 0, 3);
    let mut even_blocks = 0;
    let mut odd_blocks = 0;
    for y in 0..9u16 {
        for x in 0..80u16 {
            if even.cell(x, y).glyph == '\u{2588}' {
                even_blocks += 1;
            }
            if odd.cell(x, y).glyph == '\u{2588}' {
                odd_blocks += 1;
            }
        }
    }
    // the colon's two doubled pixels are visible only on the even second;
    // each zero digit has twelve set pixels, so 00:00 lights 4 * 24 cells
    // plus 4 for the colon
    assert_eq!(odd_blocks, 96);
    assert_eq!(even_blocks, 100);
}

#[test]
fn auto_rotating_season_advances_after_15s() {
    let mut ps = ParticleSystem::new(9, 0, EPOCH_JULY);
    assert_eq!(ps.current_season, Season::Summer);
    // pin the Seasons effect and switch the season mode to auto-rotate
    for _ in 0..3 {
        settings_change(&mut ps, SettingsRow::Effect, true, 0);
    }
    assert_eq!(ps.effect, Effect::Seasons);
    settings_change(&mut ps, SettingsRow::SeasonMode, false, 0);
    ps.update(80, 24, 16, 14_999, EPOCH_JULY);
    assert_eq!(ps.current_season, Season::Summer);
    ps.update(80, 24, 16, 15_000, EPOCH_JULY);
    assert_eq!(ps.current_season, Season::Autumn);
}

#[test]
fn first_particle_in_pool_order_wins_a_cell() {
    let mut ps = ParticleSystem::new(1, 0, EPOCH_JULY);
    let mk = |glyph: char| Particle {
        x: 5 * POS_SCALE + POS_SCALE / 2,
        y: 3 * POS_SCALE + POS_SCALE / 5,
        glyph,
        fg: Rgb { r: 1, g: 1, b: 1 },
        speed_y: 0,
        drift_x: 0,
        life: 10,
    };
    ps.particles.push(mk('A'));
    ps.particles.push(mk('B'));
    let mut grid = Grid::new(80, 24);
    render_weather(&mut grid, &ps);
    assert_eq!(grid.cell(5, 3).glyph, 'A');
}

#[test]
fn lightning_flash_tints_only_blank_cells() {
    let mut ps = ParticleSystem::new(2, 0, EPOCH_JULY);
    settings_change(&mut ps, SettingsRow::Effect, true, 0);
    settings_change(&mut ps, SettingsRow::Effect, true, 0);
    assert_eq!(ps.effect, Effect::Lightning);
    ps.lightning.active = true;
    ps.lightning.frames_remaining = 18;
    ps.lightning.bolt = vec![(4, 0), (5, 1)];
    let mut grid = Grid::new(20, 10);
    grid.set_cell(2, 2, occupied('W'));
    render_weather(&mut grid, &ps);
    // blank cells get the brightest-tier tint, widget cells keep theirs
    assert_eq!(grid.cell(0, 0).bg, Rgb { r: 15, g: 15, b: 30 });
    assert_eq!(grid.cell(2, 2).bg, Rgb { r: 0, g: 0, b: 0 });
    assert_eq!(grid.cell(2, 2).glyph, 'W');
    // bolt strokes land on blank cells, shaped by row
    assert_eq!(grid.cell(4, 0).glyph, '\u{2572}');
    assert_eq!(grid.cell(5, 1).glyph, '\u{2502}');

    // mid-flash the tint brightens and, below 12 remaining frames, no
    // strokes are drawn
    ps.lightning.frames_remaining = 10;
    let mut g2 = Grid::new(20, 10);
    render_weather(&mut g2, &ps);
    assert_eq!(g2.cell(0, 0).bg, Rgb { r: 30, g: 30, b: 55 });
    assert_eq!(g2.cell(4, 0).glyph, ' ');

    // near the end of the flash the tint dims again
    ps.lightning.frames_remaining = 3;
    let mut g3 = Grid::new(20, 10);
    render_weather(&mut g3, &ps);
    assert_eq!(g3.cell(0, 0).bg, Rgb { r: 18, g: 18, b: 35 });
}

#[test]
fn fresh_engine_arms_the_first_strike_in_five_seconds() {
    let ps = ParticleSystem::new(4, 77, EPOCH_JULY);
    assert!(!ps.lightning.active);
    assert_eq!(ps.lightning.frames_remaining, 0);
    assert_eq!(ps.lightning.bolt.len(), 0);
    assert_eq!(ps.lightning.next_strike_ms, 5_000);
    assert_eq!(ps.lightning.strike_timer_ms, 77);
}

#[test]
fn season_derivation_matches_the_calendar() {
    // mid-July and mid-January
    assert_eq!(detect_season(1_752_537_600), Season::Summer);
    assert_eq!(detect_season(1_736_899_200), Season::Winter);
    // mid-March and mid-October
    assert_eq!(detect_season(1_741_996_800), Season::Spring);
    assert_eq!(detect_season(1_760_486_400), Season::Autumn);
}

#[test]
fn local_hm_splits_the_day() {
    assert_eq!(local_hm(0), (0, 0, 0));
    assert_eq!(local_hm(3_661), (1, 1, 1));
    assert_eq!(local_hm(86_399), (23, 59, 59));
    assert_eq!(local_hm(86_400 + 7_200 + 180 + 4), (2, 3, 4));
}

#[test]
fn sort_labels() {
    assert_eq!(sort_label(SortMode::Cpu), "CPU");
    assert_eq!(sort_label(SortMode::Memory), "Memory");
    assert_eq!(sort_label(SortMode::Pid), "PID");
}

#[test]
fn scheduler_timeout_is_the_smaller_remainder() {
    let mut c = Cadence::new(0);
    assert_eq!(c.poll_timeout_ms(0), 16);
    assert_eq!(c.poll_timeout_ms(10), 6);
    assert_eq!(c.poll_timeout_ms(16), 0);
    assert!(c.anim_due(16));
    assert!(!c.data_due(16));
    let dt = c.begin_anim(16);
    assert_eq!(dt, 16);
    assert_eq!(c.poll_timeout_ms(20), 12);
    // a long stall caps the simulated delta-time
    let dt2 = c.begin_anim(5_000);
    assert_eq!(dt2, 150);
    assert!(c.data_due(5_000));
    c.begin_data(5_000);
    assert!(!c.data_due(5_100));
}

#[test]
fn net_counters_sum_over_non_loopback_interfaces() {
    let content = b"Inter-|   Receive                |  Transmit\n face |bytes    packets errs drop fifo frame compressed multicast |bytes packets\n    lo:     100 1 0 0 0 0 0 0      100 1 0 0 0 0 0 0\n  eth0:    1000 2 0 0 0 0 0 0     2000 3 0 0 0 0 0 0\n wlan0:      30 1 0 0 0 0 0 0       40 1 0 0 0 0 0 0\n"
        .to_vec();
    assert_eq!(read_net_bytes(&content), (1_030, 2_040));
}

#[test]
fn net_counters_tolerate_malformed_lines() {
    let content =
        b"h1\nh2\n eth0: 10 1 2 3 4 5 6 7 20\n bad line without colon\n x: 1 2\n eth1: zz 1 2 3 4 5 6 7 8\n"
            .to_vec();
    // eth0 counts; the short line and the non-numeric field read as zero
    assert_eq!(read_net_bytes(&content), (10, 28));
}

#[test]
fn net_counters_on_empty_input() {
    assert_eq!(read_net_bytes(&Vec::new()), (0, 0));
}

#[test]
fn disk_counters_skip_partitions_and_virtual_devices() {
    let content = b"   8       0 sda 10 20 30 100 50 60 70 200 90 100 110\n   8       1 sda1 10 20 30 999 50 60 70 999 90 100 110\n 259       0 nvme0n1 1 2 3 4 5 6 7 8 9 10 11\n 259       1 nvme0n1p1 1 2 3 999 5 6 7 999 9 10 11\n   7       0 loop0 1 2 3 999 5 6 7 999 9 10 11\n 253       0 dm-0 1 2 3 999 5 6 7 999 9 10 11\n"
        .to_vec();
    // sda reads 30 sectors and writes 70; nvme0n1 reads 3 and writes 7
    // (sectors read and written are the sixth and tenth fields)
    let (rd, wr) = read_disk_bytes(&content);
    assert_eq!(rd, (30 + 3) * 512);
    assert_eq!(wr, (70 + 7) * 512);
}

#[test]
fn disk_counters_ignore_short_lines() {
    let content = b"8 0 sda 1 2 3\n".to_vec();
    assert_eq!(read_disk_bytes(&content), (0, 0));
}

#[test]
fn plus_prefixed_counter_fields_are_accepted() {
    let content = b"h1\nh2\n eth0: +10 1 2 3 4 5 6 7 +20\n".to_vec();
    assert_eq!(read_net_bytes(&content), (10, 20));
    // a bare sign or a doubled sign is not a number
    let bad = b"h1\nh2\n eth0: + 1 2 3 4 5 6 7 ++9\n".to_vec();
    assert_eq!(read_net_bytes(&bad), (0, 0));
}

#[test]
fn overflowing_counter_fields_read_as_zero() {
    let content = b"h1\nh2\n eth0: 99999999999999999999999999 1 2 3 4 5 6 7 5\n".to_vec();
    assert_eq!(read_net_bytes(&content), (0, 5));
}
