//! Vertical stacking of the dashboard's panels inside the terminal area.
use vstd::prelude::*;

verus! {

/// A rectangle of terminal cells: its top-left corner and its size.
#[derive(Clone, Copy, Debug, PartialEq, Eq, Structural)]
pub struct Rect {
    pub x: u16,
    pub y: u16,
    pub width: u16,
    pub height: u16,
}

/// The regions of one frame, top to bottom: the CPU panel, the memory panel
/// and the space left below them.
#[derive(Clone, Copy, Debug, PartialEq, Eq, Structural)]
pub struct PanelLayout {
    pub cpu: Rect,
    pub memory: Rect,
    pub remainder: Rect,
}

/// Rows of the memory panel, border included.
pub const MEMORY_PANEL_HEIGHT: u16 = 3;

/// Rows that a panel's border adds to its content.
pub const BORDER_ROWS: usize = 2;

impl Rect {
    /// The rectangle lies in the 16-bit coordinate space of a terminal.
    pub open spec fn fits(self) -> bool {
        self.x + self.width <= u16::MAX && self.y + self.height <= u16::MAX
    }

    /// The rectangle holds no cell.
    pub open spec fn is_empty(self) -> bool {
        self.width == 0 || self.height == 0
    }

    /// The cell `(cx, cy)` lies in the rectangle.
    pub open spec fn contains(self, cx: int, cy: int) -> bool {
        self.x <= cx < self.x + self.width && self.y <= cy < self.y + self.height
    }

    /// Every cell of the rectangle lies in `outer`.
    pub open spec fn within(self, outer: Rect) -> bool {
        self.is_empty() || (outer.x <= self.x && self.x + self.width <= outer.x + outer.width
            && outer.y <= self.y && self.y + self.height <= outer.y + outer.height)
    }
}

/// No cell lies in both rectangles.
pub open spec fn disjoint(a: Rect, b: Rect) -> bool {
    forall|cx: int, cy: int| !(#[trigger] a.contains(cx, cy) && #[trigger] b.contains(cx, cy))
}

/// `area` without a margin of one cell on each side; an area too small for
/// the margin leaves an empty rectangle at its corner.
pub open spec fn inner_area(area: Rect) -> Rect {
    if area.width < 2 || area.height < 2 {
        Rect { x: area.x, y: area.y, width: 0, height: 0 }
    } else {
        Rect { x: (area.x + 1) as u16, y: (area.y + 1) as u16, width: (area.width - 2) as u16, height: (area.height - 2) as u16 }
    }
}

/// The smaller of two integers.
pub open spec fn min(a: int, b: int) -> int {
    if a <= b { a } else { b }
}

/// The rows of `inner` starting `top` rows down, `rows` high.
pub open spec fn band(inner: Rect, top: int, rows: int) -> Rect {
    Rect { x: inner.x, y: (inner.y + top) as u16, width: inner.width, height: rows as u16 }
}

/// The layout of a frame: inside a one-cell margin, the CPU panel takes
/// `core_count + 2` rows, the memory panel the next 3, the remainder what is
/// left; a panel that does not fit is cut at the bottom of the area.
pub open spec fn layout_of(area: Rect, core_count: int) -> PanelLayout {
    let inner = inner_area(area);
    let cpu_rows = min(core_count + BORDER_ROWS, inner.height as int);
    let memory_rows = min(MEMORY_PANEL_HEIGHT as int, inner.height - cpu_rows);
    PanelLayout {
        cpu: band(inner, 0, cpu_rows),
        memory: band(inner, cpu_rows, memory_rows),
        remainder: band(inner, cpu_rows + memory_rows, inner.height - cpu_rows - memory_rows),
    }
}

/// The regions of one frame for a terminal of size `area` and `core_count`
/// cores.
pub fn compute_layout(area: Rect, core_count: usize) -> (r: PanelLayout)
    requires
        area.fits(),
    ensures
        r == layout_of(area, core_count as int),
{
    let inner = if area.width < 2 || area.height < 2 {
        Rect { x: area.x, y: area.y, width: 0, height: 0 }
    } else {
        Rect { x: area.x + 1, y: area.y + 1, width: area.width - 2, height: area.height - 2 }
    };
    let cpu_rows: u16 = if core_count < inner.height as usize && inner.height as usize - core_count >= BORDER_ROWS {
        (core_count + BORDER_ROWS) as u16
    } else {
        inner.height
    };
    let left: u16 = inner.height - cpu_rows;
    let memory_rows: u16 = if MEMORY_PANEL_HEIGHT <= left { MEMORY_PANEL_HEIGHT } else { left };
    PanelLayout {
        cpu: Rect { x: inner.x, y: inner.y, width: inner.width, height: cpu_rows },
        memory: Rect { x: inner.x, y: inner.y + cpu_rows, width: inner.width, height: memory_rows },
        remainder: Rect {
            x: inner.x,
            y: inner.y + cpu_rows + memory_rows,
            width: inner.width,
            height: left - memory_rows,
        },
    }
}

/// The regions of a frame lie inside the terminal area and share no cell;
/// where the area has room for the margin and both panels, the CPU panel is `core_count + 2`
/// rows high and the memory panel 3.
pub proof fn lemma_layout_sound(area: Rect, core_count: nat)
    requires
        area.fits(),
    ensures
        ({
            let l = layout_of(area, core_count as int);
            &&& l.cpu.within(area)
            &&& l.memory.within(area)
            &&& l.remainder.within(area)
            &&& disjoint(l.cpu, l.memory)
            &&& disjoint(l.cpu, l.remainder)
            &&& disjoint(l.memory, l.remainder)
            &&& (area.width >= 2 && core_count + BORDER_ROWS + MEMORY_PANEL_HEIGHT <= area.height - 2
                ==> l.cpu.height
                == core_count + BORDER_ROWS && l.memory.height == MEMORY_PANEL_HEIGHT)
        }),
{
    let l = layout_of(area, core_count as int);
    let inner = inner_area(area);
    assert(l.cpu.y + l.cpu.height <= l.memory.y);
    assert(l.memory.y + l.memory.height <= l.remainder.y);
    assert(l.remainder.y + l.remainder.height == inner.y + inner.height);
    assert forall|cx: int, cy: int| !(#[trigger] l.cpu.contains(cx, cy) && #[trigger] l.memory.contains(cx, cy)) by {}
    assert forall|cx: int, cy: int| !(#[trigger] l.cpu.contains(cx, cy) && #[trigger] l.remainder.contains(cx, cy)) by {}
    assert forall|cx: int, cy: int| !(#[trigger] l.memory.contains(cx, cy) && #[trigger] l.remainder.contains(cx, cy)) by {}
    assert(l.cpu.within(area));
    assert(l.memory.within(area));
    assert(l.remainder.within(area));
    assert(disjoint(l.cpu, l.memory));
    assert(disjoint(l.cpu, l.remainder));
    assert(disjoint(l.memory, l.remainder));
}

} // verus!
