//! Binary space partitioned layout generation for a tiling window host.
//!
//! The screen is divided recursively in two, alternating between vertical
//! and horizontal splits, so that the requested number of views ends up in
//! a grid of more-or-less evenly sized cells. Gaps between windows and
//! between windows and the screen edge, the share of space given to the
//! primary half of each split, the axis of the first split, and the order
//! of the produced cells are all configurable at runtime.
//!
//! Split shares are stored in ten-thousandths: a value of `5000` gives the
//! primary half of a split 50% of the available extent. A share is valid
//! for layout generation when it lies strictly between `0` and
//! [`PERC_SCALE`].

use vstd::prelude::*;

pub mod engine;
pub mod laws;
pub mod parse;
pub mod rect;
pub mod user_cmd;

pub use parse::parse_gap_cmd;
pub use parse::parse_split_cmd;
pub use rect::GeneratedLayout;
pub use rect::Rectangle;
pub use rect::Region;
pub use user_cmd::UserCmd;

verus! {

/// One whole, expressed in ten-thousandths. Split shares range strictly
/// between `0` and this value.
pub const PERC_SCALE: u32 = 10000;

/// Wrapper for errors relating to the operation of a `BSPLayout`.
#[derive(Debug)]
pub enum BSPLayoutError {
    /// Encountered when a failure occurs while interpreting a command
    CmdError(String),
    /// Encountered when a failure occurs while generating a layout
    LayoutError(String),
}

/// Create a binary space partitioned layout. This layout recursively
/// divides the screen in half, alternating between vertical and horizontal
/// splits, which results in a grid-like arrangement with more-or-less equal
/// sized windows evenly distributed across the screen.
#[derive(Clone, Copy)]
pub struct BSPLayout {
    /// Number of pixels to put between the left inside edge of adjacent windows
    pub ig_left: u32,
    /// Number of pixels to put between the right inside edge of adjacent windows
    pub ig_right: u32,
    /// Number of pixels to put between the bottom inside edge of adjacent windows
    pub ig_bottom: u32,
    /// Number of pixels to put between the top inside edge of adjacent windows
    pub ig_top: u32,
    /// Number of pixels to put between the left screen edge and the adjacent windows
    pub og_left: u32,
    /// Number of pixels to put between the right screen edge and the adjacent windows
    pub og_right: u32,
    /// Number of pixels to put between the bottom screen edge and the adjacent windows
    pub og_bottom: u32,
    /// Number of pixels to put between the top screen edge and the adjacent windows
    pub og_top: u32,
    /// The share of space, in ten-thousandths, occupied by the primary
    /// window when a horizontal split takes place
    pub hsplit_perc: u32,
    /// The share of space, in ten-thousandths, occupied by the primary
    /// window when a vertical split takes place
    pub vsplit_perc: u32,
    /// Whether the first split should be horizontal. If true, start by
    /// dividing the screen from top to bottom. If false, start by dividing
    /// it from left to right.
    pub start_hsplit: bool,
    /// If `true`, the spatial roles of the two halves of every split are
    /// swapped, as is the order of the produced cells.
    pub reversed: bool,
}

impl BSPLayout {
    /// Both split shares lie strictly inside the open unit interval, which
    /// layout generation demands.
    pub open spec fn percs_valid(self) -> bool {
        0 < self.vsplit_perc < PERC_SCALE && 0 < self.hsplit_perc < PERC_SCALE
    }

    /// Initialize a new instance of BSPLayout with inner gaps of 5 pixels
    /// and outer gaps of 10 pixels on each side, split shares of 50%, and
    /// starting on a vertical split.
    pub fn new() -> (b: BSPLayout)
        ensures
            b == (BSPLayout {
                ig_left: 5u32,
                ig_right: 5u32,
                ig_bottom: 5u32,
                ig_top: 5u32,
                og_left: 10u32,
                og_right: 10u32,
                og_top: 10u32,
                og_bottom: 10u32,
                hsplit_perc: 5000u32,
                vsplit_perc: 5000u32,
                reversed: false,
                start_hsplit: false,
            }),
    {
        BSPLayout {
            ig_left: 5,
            ig_right: 5,
            ig_bottom: 5,
            ig_top: 5,
            og_left: 10,
            og_right: 10,
            og_top: 10,
            og_bottom: 10,
            hsplit_perc: 5000,
            vsplit_perc: 5000,
            reversed: false,
            start_hsplit: false,
        }
    }

    /// Sets all sides of the outer gap to `new_gap`.
    pub fn set_all_outer_gaps(&mut self, new_gap: u32)
        ensures
            *final(self) == (BSPLayout {
                og_top: new_gap,
                og_bottom: new_gap,
                og_left: new_gap,
                og_right: new_gap,
                ..*old(self)
            }),
    {
        self.og_top = new_gap;
        self.og_bottom = new_gap;
        self.og_left = new_gap;
        self.og_right = new_gap;
    }

    /// Sets all inner gaps to `new_gap`.
    pub fn set_all_inner_gaps(&mut self, new_gap: u32)
        ensures
            *final(self) == (BSPLayout {
                ig_top: new_gap,
                ig_bottom: new_gap,
                ig_left: new_gap,
                ig_right: new_gap,
                ..*old(self)
            }),
    {
        self.ig_top = new_gap;
        self.ig_left = new_gap;
        self.ig_right = new_gap;
        self.ig_bottom = new_gap;
    }
}

} // verus!
