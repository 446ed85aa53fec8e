//! Centered layout columns, on plain coordinates.

use vstd::prelude::*;

verus! {

/// Minimum side gutter.
pub const GUTTER: u16 = 4;

/// The centered content column of an area starting at `x` and `width`
/// columns wide: at most `max_width` (never under 10) wide, with the
/// gutters taken off. Returns the column's start and width.
pub open spec fn spec_column(x: u16, width: u16, max_width: u16) -> (int, int) {
    let avail = if width > 8 {
        width - 8
    } else {
        0
    };
    let hi = if max_width > 10 {
        max_width as int
    } else {
        10
    };
    let w = if avail < 10 {
        10
    } else if avail > hi {
        hi
    } else {
        avail
    };
    let free = if width > w {
        width - w
    } else {
        0
    };
    (x + free / 2, w)
}

pub fn content_column(x: u16, width: u16, max_width: u16) -> (r: (u16, u16))
    requires
        x + width <= u16::MAX,
    ensures
        r.0 as int == spec_column(x, width, max_width).0,
        r.1 as int == spec_column(x, width, max_width).1,
{
    let avail = width.saturating_sub(GUTTER * 2);
    let hi = if max_width > 10 {
        max_width
    } else {
        10
    };
    let w = if avail < 10 {
        10
    } else if avail > hi {
        hi
    } else {
        avail
    };
    let free = width.saturating_sub(w);
    (x + free / 2, w)
}

/// A block of `height` rows centered in an area starting at row `y` and
/// `area_height` rows tall, biased slightly upward (two fifths of the spare
/// rows above). Returns the block's first row and height.
pub open spec fn spec_vcenter(y: u16, area_height: u16, height: u16) -> (int, int) {
    let h = if height < area_height {
        height
    } else {
        area_height
    };
    let free = area_height - h;
    (y + free * 2 / 5, h as int)
}

pub fn vcenter(y: u16, area_height: u16, height: u16) -> (r: (u16, u16))
    requires
        y + area_height <= u16::MAX,
    ensures
        r.0 as int == spec_vcenter(y, area_height, height).0,
        r.1 as int == spec_vcenter(y, area_height, height).1,
{
    let h = if height < area_height {
        height
    } else {
        area_height
    };
    let free = area_height - h;
    assert(free as int * 2 / 5 <= free as int);
    (y + (free as u32 * 2 / 5) as u16, h)
}


/// First row the command line and its suggestions occupy: the suggestions
/// grow upward from the last row of an area ending at `area_bottom`.
pub open spec fn spec_popup_top(area_bottom: u16, suggestions: nat) -> int {
    let bottom: int = if area_bottom > 0 {
        area_bottom - 1
    } else {
        0
    };
    bottom - if suggestions < bottom {
        suggestions as int
    } else {
        bottom
    }
}

pub fn popup_top(area_bottom: u16, suggestions: usize) -> (r: u16)
    ensures
        r as int == spec_popup_top(area_bottom, suggestions as nat),
{
    let bottom = area_bottom.saturating_sub(1);
    let n: u16 = if suggestions < bottom as usize {
        suggestions as u16
    } else {
        bottom
    };
    bottom - n
}

} // verus!
