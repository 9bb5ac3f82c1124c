//! Fixed-width textual gauges.
//!
//! A percentage is carried as a whole number of hundredths of a percent:
//! `10000` stands for 100%.
use vstd::prelude::*;
use vstd::arithmetic::div_mod::{lemma_div_is_ordered, lemma_div_pos_is_pos};
use vstd::string::*;

verus! {

/// The glyph of a filled cell.
pub const FILLED_GLYPH: char = '█';

/// The glyph of an empty cell.
pub const EMPTY_GLYPH: char = '░';

/// One hundred percent, in hundredths of a percent.
pub const FULL_SCALE: i64 = 10000;

/// `n / d` rounded to the nearest integer, halves away from zero.
pub open spec fn round_div(n: int, d: int) -> int
    recommends
        d > 0,
{
    if n >= 0 {
        (2 * n + d) / (2 * d)
    } else {
        -((-2 * n + d) / (2 * d))
    }
}

/// `v` brought into `[lo, hi]`.
pub open spec fn clamp(v: int, lo: int, hi: int) -> int {
    if v < lo {
        lo
    } else if v > hi {
        hi
    } else {
        v
    }
}

/// Filled cells of a gauge `width` cells wide at `pct` hundredths of a percent:
/// `round(pct / 10000 * width)`, clamped to `[0, width]`.
pub open spec fn filled_count(pct: int, width: int) -> int {
    clamp(round_div(pct * width, FULL_SCALE as int), 0, width)
}

/// `filled` filled glyphs followed by empty glyphs, `width` in all.
pub open spec fn gauge_glyphs(filled: int, width: nat) -> Seq<char> {
    Seq::new(width, |i: int| if i < filled { FILLED_GLYPH } else { EMPTY_GLYPH })
}

/// The text of a gauge `width` cells wide at `pct` hundredths of a percent.
pub open spec fn gauge_text(pct: int, width: nat) -> Seq<char> {
    gauge_glyphs(filled_count(pct, width as int), width)
}

/// Number of filled glyphs in `s`.
pub open spec fn count_filled(s: Seq<char>) -> nat
    decreases s.len(),
{
    if s.len() == 0 {
        0
    } else {
        count_filled(s.drop_last()) + if s.last() == FILLED_GLYPH { 1nat } else { 0nat }
    }
}

/// Number of cells to fill in a gauge `width` cells wide at `pct` hundredths
/// of a percent; out-of-range percentages are clamped.
pub fn filled_cells(pct: i64, width: usize) -> (r: usize)
    ensures
        r == filled_count(pct as int, width as int),
{
    let ghost n = pct as int * width as int;
    if pct <= 0 {
        assert(n <= 0) by (nonlinear_arith)
            requires
                n == pct as int * width as int,
                pct <= 0,
        ;
        assert(round_div(n, 10000) <= 0);
        0
    } else if pct >= FULL_SCALE {
        assert(n >= 10000 * width) by (nonlinear_arith)
            requires
                n == pct as int * width as int,
                pct >= 10000,
        ;
        assert((2 * n + 10000) / 20000 >= width as int) by (nonlinear_arith)
            requires
                n >= 10000 * width,
        ;
        width
    } else {
        assert(0 <= n <= 9999 * width) by (nonlinear_arith)
            requires
                n == pct as int * width as int,
                0 < pct < 10000,
        ;
        let m: u128 = pct as u128 * width as u128;
        let q: u128 = (2 * m + 10000) / 20000;
        assert(q <= width) by (nonlinear_arith)
            requires
                q == (2 * m + 10000) / 20000,
                0 <= m <= 9999 * width,
        ;
        q as usize
    }
}

/// A gauge `width` cells wide at `pct` hundredths of a percent: the filled
/// glyphs, then the empty ones.
pub fn render_gauge(pct: i64, width: usize) -> (r: String)
    ensures
        r@ == gauge_text(pct as int, width as nat),
{
    let filled = filled_cells(pct, width);
    let mut bar = String::new();
    let mut i: usize = 0;
    while i < width
        invariant
            i <= width,
            filled == filled_count(pct as int, width as int),
            bar@ =~= gauge_glyphs(filled as int, i as nat),
        decreases width - i,
    {
        proof {
            reveal_strlit("█");
            reveal_strlit("░");
        }
        if i < filled {
            bar.append("█");
            assert(bar@ =~= gauge_glyphs(filled as int, i as nat).push(FILLED_GLYPH));
        } else {
            bar.append("░");
            assert(bar@ =~= gauge_glyphs(filled as int, i as nat).push(EMPTY_GLYPH));
        }
        i = i + 1;
        assert(bar@ =~= gauge_glyphs(filled as int, i as nat));
    }
    bar
}

/// The filled glyphs of `gauge_glyphs(filled, width)` number `filled`, for
/// `filled` in `[0, width]`.
proof fn lemma_count_glyphs(filled: int, width: nat)
    requires
        0 <= filled <= width,
    ensures
        count_filled(gauge_glyphs(filled, width)) == filled,
    decreases width,
{
    let s = gauge_glyphs(filled, width);
    if width > 0 {
        if filled == width {
            lemma_count_glyphs(filled - 1, (width - 1) as nat);
            assert(s.drop_last() =~= gauge_glyphs(filled - 1, (width - 1) as nat));
        } else {
            lemma_count_glyphs(filled, (width - 1) as nat);
            assert(s.drop_last() =~= gauge_glyphs(filled, (width - 1) as nat));
        }
    }
}

/// Rounding a share of full scale never decreases as the numerator grows.
proof fn lemma_round_div_monotonic(n1: int, n2: int)
    requires
        n1 <= n2,
    ensures
        round_div(n1, FULL_SCALE as int) <= round_div(n2, FULL_SCALE as int),
{
    let d = 2 * FULL_SCALE;
    if n1 >= 0 {
        lemma_div_is_ordered(2 * n1 + FULL_SCALE, 2 * n2 + FULL_SCALE, d as int);
    } else if n2 < 0 {
        lemma_div_is_ordered(-2 * n2 + FULL_SCALE, -2 * n1 + FULL_SCALE, d as int);
    } else {
        lemma_div_pos_is_pos(-2 * n1 + FULL_SCALE, d as int);
        lemma_div_pos_is_pos(2 * n2 + FULL_SCALE, d as int);
    }
}

/// Whatever the percentage, a gauge is exactly `width` glyphs long, each of
/// them a filled or an empty glyph.
pub proof fn lemma_gauge_length(pct: int, width: nat)
    ensures
        gauge_text(pct, width).len() == width,
        forall|i: int|
            0 <= i < width ==> #[trigger] gauge_text(pct, width)[i] == FILLED_GLYPH
                || gauge_text(pct, width)[i] == EMPTY_GLYPH,
{
}

/// At 0% a gauge is all empty glyphs; at 100% it is all filled glyphs.
pub proof fn lemma_gauge_extremes(width: nat)
    ensures
        gauge_text(0, width) =~= Seq::new(width, |i: int| EMPTY_GLYPH),
        gauge_text(FULL_SCALE as int, width) =~= Seq::new(width, |i: int| FILLED_GLYPH),
{
    lemma_gauge_clamped(0, width);
    lemma_gauge_clamped(FULL_SCALE as int, width);
}

/// Whatever the percentage, out of range included, the filled glyphs number
/// between `0` and `width`, and they are the rounded share of `width` clamped
/// to that range.
pub proof fn lemma_gauge_clamped(pct: int, width: nat)
    ensures
        0 <= count_filled(gauge_text(pct, width)) <= width,
        count_filled(gauge_text(pct, width)) == filled_count(pct, width as int),
        pct <= 0 ==> count_filled(gauge_text(pct, width)) == 0,
        pct >= FULL_SCALE ==> count_filled(gauge_text(pct, width)) == width,
{
    lemma_count_glyphs(filled_count(pct, width as int), width);
    if pct <= 0 {
        assert(pct * width <= 0) by (nonlinear_arith)
            requires
                pct <= 0,
        ;
    }
    if pct >= FULL_SCALE {
        assert(pct * width >= FULL_SCALE * width) by (nonlinear_arith)
            requires
                pct >= FULL_SCALE,
        ;
    }
}

/// For a fixed width, a higher percentage never fills fewer glyphs.
pub proof fn lemma_gauge_monotonic(lo_pct: int, hi_pct: int, width: nat)
    requires
        lo_pct <= hi_pct,
    ensures
        count_filled(gauge_text(lo_pct, width)) <= count_filled(gauge_text(hi_pct, width)),
{
    assert(lo_pct * width <= hi_pct * width) by (nonlinear_arith)
        requires
            lo_pct <= hi_pct,
    ;
    lemma_round_div_monotonic(lo_pct * width, hi_pct * width);
    lemma_count_glyphs(filled_count(lo_pct, width as int), width);
    lemma_count_glyphs(filled_count(hi_pct, width as int), width);
}

} // verus!
