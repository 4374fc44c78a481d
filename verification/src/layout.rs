//! Areas of the screen, in cells.

use vstd::prelude::*;

verus! {

/// A rectangle of cells: its upper left corner and its size.
#[derive(Debug, Clone, Copy, PartialEq, Eq, Structural)]
pub struct Rect {
    pub x: u16,
    pub y: u16,
    pub width: u16,
    pub height: u16,
}

/// The size that fits behind a coordinate: what was asked for, cut where the
/// far edge would pass the largest coordinate.
pub open spec fn fitted(origin: u16, size: u16) -> u16 {
    if size > u16::MAX - origin {
        (u16::MAX - origin) as u16
    } else {
        size
    }
}

/// The share of `size` that `percent` stands for, rounded down.
pub open spec fn part(size: u16, percent: u16) -> int {
    size * percent / 100
}

impl Rect {
    /// Neither edge passes the largest coordinate.
    pub open spec fn fits(self) -> bool {
        self.x + self.width <= u16::MAX && self.y + self.height <= u16::MAX
    }

    /// The coordinate below the last row; the largest coordinate where the
    /// rectangle would pass it.
    pub open spec fn bottom_edge(self) -> u16 {
        if self.y + self.height > u16::MAX {
            u16::MAX
        } else {
            (self.y + self.height) as u16
        }
    }

    /// A rectangle at a corner, with its size cut to what fits.
    pub fn new(x: u16, y: u16, width: u16, height: u16) -> (r: Self)
        ensures
            r == (Rect { x, y, width: fitted(x, width), height: fitted(y, height) }),
            r.fits(),
    {
        let max_width = u16::MAX - x;
        let max_height = u16::MAX - y;
        let width = if width > max_width {
            max_width
        } else {
            width
        };
        let height = if height > max_height {
            max_height
        } else {
            height
        };
        Rect { x, y, width, height }
    }

    /// The coordinate below the last row.
    pub fn bottom(self) -> (r: u16)
        ensures
            r == self.bottom_edge(),
    {
        if self.height > u16::MAX - self.y {
            u16::MAX
        } else {
            self.y + self.height
        }
    }
}

/// The area of a popup in the middle of `area` that takes the given percent
/// of its width and of its height.
pub open spec fn popup_area(area: Rect, percent_x: u16, percent_y: u16) -> Rect {
    let width = part(area.width, percent_x);
    let height = part(area.height, percent_y);
    Rect {
        x: (area.x + (area.width - width) / 2) as u16,
        y: (area.y + (area.height - height) / 2) as u16,
        width: width as u16,
        height: height as u16,
    }
}

/// The area of a popup in the middle of `area` that takes the given percent
/// of its width and of its height.
pub fn calculate_popup_area(area: Rect, percent_x: u16, percent_y: u16) -> (r: Rect)
    requires
        area.fits(),
        percent_x <= 100,
        percent_y <= 100,
    ensures
        r == popup_area(area, percent_x, percent_y),
        r.fits(),
        area.x <= r.x && r.x + r.width <= area.x + area.width,
        area.y <= r.y && r.y + r.height <= area.y + area.height,
{
    assert(area.width * percent_x <= 6553500 && area.height * percent_y <= 6553500)
        by (nonlinear_arith)
        requires
            area.width <= 65535,
            area.height <= 65535,
            percent_x <= 100,
            percent_y <= 100,
    ;
    let w: u32 = area.width as u32 * percent_x as u32 / 100;
    let h: u32 = area.height as u32 * percent_y as u32 / 100;
    assert(w <= area.width) by (nonlinear_arith)
        requires
            w == area.width as u32 * percent_x as u32 / 100,
            percent_x <= 100,
    ;
    assert(h <= area.height) by (nonlinear_arith)
        requires
            h == area.height as u32 * percent_y as u32 / 100,
            percent_y <= 100,
    ;
    let popup_width = w as u16;
    let popup_height = h as u16;
    let popup_x = (area.width - popup_width) / 2;
    let popup_y = (area.height - popup_height) / 2;
    Rect::new(area.x + popup_x, area.y + popup_y, popup_width, popup_height)
}

/// The line for a footer below a popup: the row below the popup, as wide as
/// the popup, where the screen has a row left below it.
pub open spec fn footer_area(main_area: Rect, popup: Rect) -> Option<Rect> {
    if popup.bottom_edge() + 1 >= main_area.bottom_edge() {
        None
    } else {
        Some(Rect { x: popup.x, y: popup.bottom_edge(), width: popup.width, height: 1 })
    }
}

/// The line for a footer below a popup, if the screen has room for one.
pub fn get_footer_area(main_area: Rect, popup_area: Rect) -> (r: Option<Rect>)
    ensures
        r == footer_area(main_area, popup_area),
{
    let bottom = popup_area.bottom();
    if bottom as u32 + 1 >= main_area.bottom() as u32 {
        return None;
    }
    Some(Rect { x: popup_area.x, y: bottom, width: popup_area.width, height: 1 })
}

/// The area of a message in the upper right corner of the screen.
pub open spec fn corner_area(screen: Rect, width: u16, height: u16) -> Rect {
    let x = screen.x + if screen.width >= width {
        screen.width - width
    } else {
        0
    };
    Rect { x: x as u16, y: screen.y, width: fitted(x as u16, width), height: fitted(screen.y, height) }
}

/// The area of a message of the given size in the upper right corner of the
/// screen.
pub fn corner(screen: Rect, width: u16, height: u16) -> (r: Rect)
    requires
        screen.fits(),
    ensures
        r == corner_area(screen, width, height),
        r.fits(),
{
    let inset = if screen.width >= width {
        screen.width - width
    } else {
        0
    };
    Rect::new(screen.x + inset, screen.y, width, height)
}

} // verus!
