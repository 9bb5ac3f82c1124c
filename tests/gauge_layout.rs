use sysmon::gauge::{filled_cells, render_gauge, EMPTY_GLYPH, FILLED_GLYPH, FULL_SCALE};
use sysmon::layout::{compute_layout, Rect};
use sysmon::metrics::{gib_hundredths, memory_percent};

fn filled(s: &str) -> usize {
    s.chars().filter(|c| *c == FILLED_GLYPH).count()
}

#[test]
fn gauge_has_width_glyphs() {
    for w in [0usize, 1, 7, 20, 30] {
        for p in [0i64, 1, 2500, 5000, 9999, 10000] {
            assert_eq!(render_gauge(p, w).chars().count(), w);
        }
    }
}

#[test]
fn gauge_zero_and_full() {
    assert_eq!(render_gauge(0, 5), "░░░░░");
    assert_eq!(render_gauge(FULL_SCALE, 5), "█████");
    assert!(render_gauge(0, 20).chars().all(|c| c == EMPTY_GLYPH));
    assert!(render_gauge(FULL_SCALE, 20).chars().all(|c| c == FILLED_GLYPH));
}

#[test]
fn gauge_empty_width() {
    assert_eq!(render_gauge(5000, 0), "");
}

#[test]
fn gauge_rounds_half_up() {
    // 12.5% of 20 cells is 2.5 cells.
    assert_eq!(filled_cells(1250, 20), 3);
    assert_eq!(render_gauge(1250, 20), "███░░░░░░░░░░░░░░░░░");
    assert_eq!(filled_cells(5000, 20), 10);
    assert_eq!(filled_cells(1249, 20), 2);
    assert_eq!(filled_cells(3333, 30), 10);
}

#[test]
fn gauge_monotonic_in_percentage() {
    let mut last = 0;
    for p in 0..=10000i64 {
        let n = filled(&render_gauge(p, 20));
        assert!(n >= last);
        last = n;
    }
    assert_eq!(last, 20);
}

#[test]
fn gauge_clamps_out_of_range() {
    assert_eq!(render_gauge(25000, 10), "██████████");
    assert_eq!(render_gauge(-500, 10), "░░░░░░░░░░");
    assert_eq!(filled_cells(i64::MAX, 30), 30);
    assert_eq!(filled_cells(i64::MIN, 30), 0);
    assert_eq!(render_gauge(i64::MAX, 4).chars().count(), 4);
}

#[test]
fn layout_standard_terminal() {
    let l = compute_layout(Rect { x: 0, y: 0, width: 80, height: 24 }, 4);
    assert_eq!(l.cpu, Rect { x: 1, y: 1, width: 78, height: 6 });
    assert_eq!(l.memory, Rect { x: 1, y: 7, width: 78, height: 3 });
    assert_eq!(l.remainder, Rect { x: 1, y: 10, width: 78, height: 13 });
}

#[test]
fn layout_short_terminal_clips() {
    let l = compute_layout(Rect { x: 0, y: 0, width: 40, height: 10 }, 16);
    assert_eq!(l.cpu, Rect { x: 1, y: 1, width: 38, height: 8 });
    assert_eq!(l.memory.height, 0);
    assert_eq!(l.remainder.height, 0);
    let tiny = compute_layout(Rect { x: 3, y: 4, width: 1, height: 1 }, 2);
    assert_eq!(tiny.cpu.height, 0);
    assert_eq!(tiny.cpu.width, 0);
}

#[test]
fn layout_regions_do_not_overlap() {
    for h in 0..40u16 {
        for cores in 0..20usize {
            let l = compute_layout(Rect { x: 2, y: 5, width: 60, height: h }, cores);
            assert!(l.cpu.y + l.cpu.height <= l.memory.y);
            assert!(l.memory.y + l.memory.height <= l.remainder.y);
            if h >= 2 {
                assert!(l.remainder.y + l.remainder.height <= 5 + h - 1);
            }
            if h as usize >= cores + 2 + 3 + 2 {
                assert_eq!(l.cpu.height as usize, cores + 2);
                assert_eq!(l.memory.height, 3);
            }
        }
    }
}

#[test]
fn memory_percent_values() {
    assert_eq!(memory_percent(512, 1024), 5000);
    assert_eq!(memory_percent(0, 1024), 0);
    assert_eq!(memory_percent(512, 0), 0);
    assert_eq!(memory_percent(0, 0), 0);
    assert_eq!(memory_percent(1, 3), 3333);
    assert_eq!(memory_percent(2, 3), 6667);
    assert_eq!(memory_percent(u64::MAX, u64::MAX), 10000);
    assert_eq!(memory_percent(2048, 1024), 10000);
}

#[test]
fn gib_values() {
    assert_eq!(gib_hundredths(1073741824), 100);
    assert_eq!(gib_hundredths(0), 0);
    assert_eq!(gib_hundredths(536870912), 50);
    assert_eq!(gib_hundredths(16 * 1073741824 + 536870912), 1650);
}
