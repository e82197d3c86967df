//! Display dimensions, the orientation datatype, and the coordinate
//! transform from logical pixel space to physical buffer space.

use vstd::prelude::*;

verus! {

/// Physical width of the display in pixels.
pub const LCDWIDTH: usize = 84;

/// Physical height of the display in pixels.
pub const LCDHEIGHT: usize = 48;

/// Length of the framebuffer in bytes: one byte packs 8 vertically
/// stacked rows of one column.
pub const BUFFER_LEN: usize = 504;

/// The logical-to-physical coordinate transform selected by the caller.
/// The `bool` is the "flipped" variant of each of the two rotations.
#[derive(Clone, Copy, Debug, PartialEq, Eq, Structural)]
pub enum Orientation {
    Portrait(bool),
    Landscape(bool),
}

/// Physical coordinates of logical `(x, y)` under orientation `o`,
/// as unbounded integers (a transformed coordinate may be negative).
pub open spec fn phys(o: Orientation, x: int, y: int) -> (int, int) {
    match o {
        Orientation::Landscape(false) => (x, y),
        Orientation::Portrait(false) => (LCDWIDTH - 1 - y, x),
        Orientation::Landscape(true) => (y, LCDHEIGHT - 1 - x),
        Orientation::Portrait(true) => (LCDWIDTH - 1 - x, LCDHEIGHT - 1 - y),
    }
}

/// Whether logical `(x, y)` lands inside the physical pixel grid under `o`.
pub open spec fn in_range(o: Orientation, x: int, y: int) -> bool {
    let (px, py) = phys(o, x, y);
    &&& 0 <= px < LCDWIDTH
    &&& 0 <= py < LCDHEIGHT
}

/// Index of the buffer byte holding physical pixel `(px, py)`.
pub open spec fn byte_index(px: int, py: int) -> int {
    px + (py / 8) * LCDWIDTH
}

/// The transform is injective: distinct in-range logical coordinates
/// occupy distinct physical positions.
pub proof fn lemma_phys_injective(o: Orientation, x1: int, y1: int, x2: int, y2: int)
    requires
        in_range(o, x1, y1),
        in_range(o, x2, y2),
        (x1, y1) != (x2, y2),
    ensures
        phys(o, x1, y1) != phys(o, x2, y2),
{
}

/// A logical coordinate at or beyond 84 on either axis is out of range
/// under every orientation.
pub proof fn lemma_far_out_of_range(o: Orientation, x: int, y: int)
    requires
        x >= 84 || y >= 84,
    ensures
        !in_range(o, x, y),
{
}

} // verus!
