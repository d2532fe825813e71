//! Geometry of overlays.

use vstd::prelude::*;

verus! {

/// A rectangle of terminal cells.
#[derive(Debug, Clone, Copy, PartialEq, Eq, Structural)]
pub struct Area {
    pub x: u16,
    pub y: u16,
    pub width: u16,
    pub height: u16,
}

/// The rectangle that takes up the given percentages of `area` and is centred in it.
pub open spec fn centered(percent_x: u16, percent_y: u16, area: Area) -> Area {
    let w = area.width * percent_x / 100;
    let h = area.height * percent_y / 100;
    Area {
        x: (area.x + (area.width - w) / 2) as u16,
        y: (area.y + (area.height - h) / 2) as u16,
        width: w as u16,
        height: h as u16,
    }
}

/// Calculate the centred rectangle for an overlay.
pub fn centered_rect(percent_x: u16, percent_y: u16, area: Area) -> (r: Area)
    requires
        percent_x <= 100,
        percent_y <= 100,
        area.x + area.width <= u16::MAX,
        area.y + area.height <= u16::MAX,
    ensures
        r == centered(percent_x, percent_y, area),
        area.x <= r.x && r.x + r.width <= area.x + area.width,
        area.y <= r.y && r.y + r.height <= area.y + area.height,
{
    assert(area.width * percent_x <= 6553500 && area.height * percent_y <= 6553500)
        by (nonlinear_arith)
        requires
            area.width <= 65535,
            area.height <= 65535,
            percent_x <= 100,
            percent_y <= 100,
    ;
    let w: u32 = (area.width as u32) * (percent_x as u32) / 100;
    let h: u32 = (area.height as u32) * (percent_y as u32) / 100;
    assert(w <= area.width) by (nonlinear_arith)
        requires
            w == (area.width as u32) * (percent_x as u32) / 100,
            percent_x <= 100,
    ;
    assert(h <= area.height) by (nonlinear_arith)
        requires
            h == (area.height as u32) * (percent_y as u32) / 100,
            percent_y <= 100,
    ;
    let w = w as u16;
    let h = h as u16;
    Area {
        x: area.x + (area.width - w) / 2,
        y: area.y + (area.height - h) / 2,
        width: w,
        height: h,
    }
}

} // verus!
