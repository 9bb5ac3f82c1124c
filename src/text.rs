//! The text of the panels: per-core labels and the memory summary, built
//! from whole numbers of hundredths.
use vstd::prelude::*;
use vstd::string::*;
use crate::gauge::round_div;
use crate::metrics::{gib_hundredths, memory_percent, memory_share, GIB};

verus! {

/// The decimal digit for `d` in `0..10`.
pub open spec fn digit(d: int) -> char {
    ((48 + d) as u8) as char
}

/// The decimal digits of `n`, without leading zeros.
pub open spec fn digits(n: nat) -> Seq<char>
    decreases n,
{
    if n < 10 {
        seq![digit(n as int)]
    } else {
        digits(n / 10).push(digit((n % 10) as int))
    }
}

/// `s` preceded by `fill` up to `width` characters.
pub open spec fn pad_left(s: Seq<char>, width: nat, fill: char) -> Seq<char> {
    if s.len() < width {
        Seq::new((width - s.len()) as nat, |i: int| fill) + s
    } else {
        s
    }
}

/// `h` hundredths written with two decimals: `1234` is `12.34`, `-5` is `-0.05`.
pub open spec fn hundredths_text(h: int) -> Seq<char> {
    let m = if h < 0 { -h } else { h };
    (if h < 0 { seq!['-'] } else { Seq::empty() }) + digits((m / 100) as nat) + seq!['.']
        + seq![digit((m % 100) / 10), digit(m % 10)]
}

/// `t` tenths written with one decimal: `505` is `50.5`.
pub open spec fn tenths_text(t: int) -> Seq<char> {
    let m = if t < 0 { -t } else { t };
    (if t < 0 { seq!['-'] } else { Seq::empty() }) + digits((m / 10) as nat) + seq!['.']
        + seq![digit(m % 10)]
}

/// The label of core `index` at `pct` hundredths of a percent:
/// `Core 03: 45.67% `, the index on two digits at least, the percentage
/// right-aligned on five characters at least.
pub open spec fn core_label_text(index: nat, pct: int) -> Seq<char> {
    "Core "@ + pad_left(digits(index), 2, '0') + ": "@ + pad_left(hundredths_text(pct), 5, ' ')
        + "% "@
}

/// The memory summary: `Memory: 3.50 / 15.61 GiB (22.4%)`, sizes in
/// hundredths of a GiB, the share in hundredths of a percent shown to tenths.
pub open spec fn memory_label_text(used_gib: int, total_gib: int, pct: int) -> Seq<char> {
    "Memory: "@ + hundredths_text(used_gib) + " / "@ + hundredths_text(total_gib) + " GiB ("@
        + tenths_text(round_div(pct, 10)) + "%)"@
}

/// Relies on `String::push`: appends one character.
#[verifier::external_body]
fn push_char(s: &mut String, c: char)
    ensures
        final(s)@ == old(s)@.push(c),
{
    s.push(c)
}

fn digit_char(d: u64) -> (r: char)
    requires
        d < 10,
    ensures
        r == digit(d as int),
{
    ((48 + d) as u8) as char
}

/// Appends the decimal digits of `n`.
fn push_digits(s: &mut String, n: u64)
    ensures
        final(s)@ == old(s)@ + digits(n as nat),
    decreases n,
{
    if n >= 10 {
        push_digits(s, n / 10);
    }
    push_char(s, digit_char(n % 10));
    assert(final(s)@ =~= old(s)@ + digits(n as nat));
}

/// Appends `count` copies of `fill`.
fn push_fill(s: &mut String, count: usize, fill: char)
    ensures
        final(s)@ == old(s)@ + Seq::new(count as nat, |i: int| fill),
{
    let mut k: usize = 0;
    let ghost start = s@;
    while k < count
        invariant
            k <= count,
            s@ =~= start + Seq::new(k as nat, |i: int| fill),
        decreases count - k,
    {
        push_char(s, fill);
        k = k + 1;
    }
}

/// Number of decimal digits of `n`.
fn digit_count(n: u64) -> (r: u64)
    ensures
        r == digits(n as nat).len(),
        1 <= r <= n as int + 1,
    decreases n,
{
    if n < 10 {
        1
    } else {
        digit_count(n / 10) + 1
    }
}

/// The magnitude of `v` as an unsigned integer.
fn magnitude(v: i64) -> (r: u64)
    ensures
        r == (if v < 0 { -(v as int) } else { v as int }),
{
    if v < 0 {
        if v == i64::MIN {
            9223372036854775808
        } else {
            (-v) as u64
        }
    } else {
        v as u64
    }
}

/// Appends `h` hundredths with two decimals.
fn push_hundredths(s: &mut String, h: i64)
    ensures
        final(s)@ == old(s)@ + hundredths_text(h as int),
{
    let ghost start = s@;
    let m = magnitude(h);
    if h < 0 {
        push_char(s, '-');
    }
    push_digits(s, m / 100);
    push_char(s, '.');
    push_char(s, digit_char((m % 100) / 10));
    push_char(s, digit_char(m % 10));
    assert(s@ =~= start + hundredths_text(h as int));
}

/// Appends `t` tenths with one decimal.
fn push_tenths(s: &mut String, t: i64)
    ensures
        final(s)@ == old(s)@ + tenths_text(t as int),
{
    let ghost start = s@;
    let m = magnitude(t);
    if t < 0 {
        push_char(s, '-');
    }
    push_digits(s, m / 10);
    push_char(s, '.');
    push_char(s, digit_char(m % 10));
    assert(s@ =~= start + tenths_text(t as int));
}

/// The label of core `index` at `pct` hundredths of a percent, as
/// `Core 03: 45.67% `.
pub fn core_label(index: usize, pct: i64) -> (r: String)
    ensures
        r@ == core_label_text(index as nat, pct as int),
{
    let mut s = String::new();
    s.append("Core ");
    let n = digit_count(index as u64);
    if n < 2 {
        push_fill(&mut s, (2 - n) as usize, '0');
    }
    push_digits(&mut s, index as u64);
    s.append(": ");
    let m = magnitude(pct);
    let len: u64 = (if pct < 0 { 1 } else { 0 }) + digit_count(m / 100) + 3;
    assert(len == hundredths_text(pct as int).len());
    if len < 5 {
        push_fill(&mut s, (5 - len) as usize, ' ');
    }
    push_hundredths(&mut s, pct);
    s.append("% ");
    assert(s@ =~= core_label_text(index as nat, pct as int));
    s
}

/// The memory summary for `used` of `total` bytes, as
/// `Memory: 3.50 / 15.61 GiB (22.4%)`.
pub fn memory_label(used: u64, total: u64) -> (r: String)
    ensures
        r@ == memory_label_text(
            round_div(used * 100, GIB as int),
            round_div(total * 100, GIB as int),
            memory_share(used as int, total as int),
        ),
{
    let used_gib = gib_hundredths(used);
    let total_gib = gib_hundredths(total);
    let pct = memory_percent(used, total);
    let tenths: i64 = (2 * pct + 10) / 20;
    assert(tenths == round_div(pct as int, 10));
    let mut s = String::new();
    s.append("Memory: ");
    push_hundredths(&mut s, used_gib as i64);
    s.append(" / ");
    push_hundredths(&mut s, total_gib as i64);
    s.append(" GiB (");
    push_tenths(&mut s, tenths);
    s.append("%)");
    assert(s@ =~= memory_label_text(used_gib as int, total_gib as int, pct as int));
    s
}

} // verus!
