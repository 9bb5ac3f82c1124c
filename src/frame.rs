//! The content of one frame, built from one sample of the metrics provider.
use vstd::prelude::*;
use crate::gauge::{gauge_text, render_gauge, round_div};
use crate::metrics::{memory_percent, memory_share, GIB};
use crate::text::{core_label, core_label_text, memory_label, memory_label_text};

verus! {

/// Cells of each core's gauge.
pub const CPU_GAUGE_WIDTH: usize = 20;

/// Cells of the memory gauge.
pub const MEMORY_GAUGE_WIDTH: usize = 30;

/// One line of the CPU panel: the core's label, then its gauge.
pub struct CoreLine {
    pub label: String,
    pub bar: String,
}

/// The two lines of the memory panel: the summary, then the gauge.
pub struct MemoryPanel {
    pub label: String,
    pub bar: String,
}

/// The line of core `index` at `pct` hundredths of a percent.
pub open spec fn core_line_holds(l: CoreLine, index: nat, pct: int) -> bool {
    l.label@ == core_label_text(index, pct) && l.bar@ == gauge_text(pct, CPU_GAUGE_WIDTH as nat)
}

/// The lines of the CPU panel, one per core in order, for per-core usage in
/// hundredths of a percent.
pub fn cpu_lines(usages: &Vec<i64>) -> (r: Vec<CoreLine>)
    ensures
        r.len() == usages.len(),
        forall|i: int| 0 <= i < r.len() ==> core_line_holds(#[trigger] r[i], i as nat, usages[i] as int),
{
    let mut lines: Vec<CoreLine> = Vec::new();
    let mut i: usize = 0;
    while i < usages.len()
        invariant
            i <= usages.len(),
            lines.len() == i,
            forall|k: int| 0 <= k < i ==> core_line_holds(#[trigger] lines[k], k as nat, usages[k] as int),
        decreases usages.len() - i,
    {
        let pct = usages[i];
        let line = CoreLine { label: core_label(i, pct), bar: render_gauge(pct, CPU_GAUGE_WIDTH) };
        lines.push(line);
        i = i + 1;
    }
    lines
}

/// The memory panel for `used` of `total` bytes.
pub fn memory_panel(used: u64, total: u64) -> (r: MemoryPanel)
    ensures
        r.label@ == memory_label_text(
            round_div(used * 100, GIB as int),
            round_div(total * 100, GIB as int),
            memory_share(used as int, total as int),
        ),
        r.bar@ == gauge_text(memory_share(used as int, total as int), MEMORY_GAUGE_WIDTH as nat),
{
    let pct = memory_percent(used, total);
    MemoryPanel { label: memory_label(used, total), bar: render_gauge(pct, MEMORY_GAUGE_WIDTH) }
}

} // verus!
