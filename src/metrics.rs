//! Arithmetic on one sample of the metrics provider: memory share and sizes.
use vstd::prelude::*;
use crate::gauge::{round_div, FULL_SCALE};

verus! {

/// Bytes in one GiB.
pub const GIB: u64 = 1073741824;

/// The memory in use as hundredths of a percent of the total, rounded to the
/// nearest: `0` when the total is `0`, and full scale when the use reported
/// exceeds the total.
pub open spec fn memory_share(used: int, total: int) -> int {
    if total == 0 {
        0
    } else if used > total {
        FULL_SCALE as int
    } else {
        round_div(used * FULL_SCALE, total)
    }
}

/// The share of memory in use, in hundredths of a percent.
pub fn memory_percent(used: u64, total: u64) -> (r: i64)
    ensures
        r == memory_share(used as int, total as int),
        0 <= r <= FULL_SCALE,
{
    if total == 0 {
        0
    } else if used > total {
        FULL_SCALE
    } else {
        let n: u128 = used as u128 * 10000;
        let d: u128 = total as u128;
        let q: u128 = (2 * n + d) / (2 * d);
        assert(q <= 10000) by (nonlinear_arith)
            requires
                q == (2 * n + d) / (2 * d),
                n == used * 10000,
                used <= d,
                d > 0,
        ;
        q as i64
    }
}

/// A byte count in hundredths of a GiB, rounded to the nearest.
pub fn gib_hundredths(bytes: u64) -> (r: u64)
    ensures
        r == round_div(bytes * 100, GIB as int),
        r <= 1717986918400,
{
    let n: u128 = bytes as u128 * 100;
    let q: u128 = (2 * n + GIB as u128) / (2 * GIB as u128);
    assert(q <= 1717986918400) by (nonlinear_arith)
        requires
            q == (2 * n + 1073741824) / 2147483648,
            n <= 18446744073709551615 * 100,
    ;
    q as u64
}

} // verus!
