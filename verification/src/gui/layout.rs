//! Which parts of the window's shell are shown at which width.

use vstd::prelude::*;

verus! {

/// The widest window that counts as compact.
pub const COMPACT_MAX_WIDTH: u32 = 799;

/// What the window's shell shows.
#[derive(Debug, Clone, Copy, PartialEq, Eq, Structural)]
pub struct ShellLayout {
    pub header_switcher: bool,
    pub bottom_switcher: bool,
    pub inspector_pinned: bool,
}

/// What the window's shell shows at a width.
pub open spec fn layout_for(width: u32) -> ShellLayout {
    ShellLayout {
        header_switcher: width > COMPACT_MAX_WIDTH,
        bottom_switcher: width <= COMPACT_MAX_WIDTH,
        inspector_pinned: width > COMPACT_MAX_WIDTH,
    }
}

/// What the window's shell shows at a width.
pub fn shell_layout_for_width(width: u32) -> (layout: ShellLayout)
    ensures
        layout == layout_for(width),
{
    let compact = width <= COMPACT_MAX_WIDTH;
    ShellLayout {
        header_switcher: !compact,
        bottom_switcher: compact,
        inspector_pinned: !compact,
    }
}

/// There is exactly one switcher at every width.
pub proof fn one_switcher_at_every_width(width: u32)
    ensures
        layout_for(width).header_switcher != layout_for(width).bottom_switcher,
{
}

} // verus!
