//! Ratios and rectangles.
//!
//! A split ratio is a fixed-point number: an integer count of millionths, so
//! that `500_000` is one half. Every ratio is brought into
//! `[MIN_RATIO, MAX_RATIO]` before it is stored or used to divide a rectangle.

use crate::model::Direction;
use vstd::prelude::*;

verus! {

/// One whole, in millionths.
pub const RATIO_UNIT: i64 = 1_000_000;

/// The smallest share a split may give its first child: one tenth.
pub const MIN_RATIO: i64 = 100_000;

/// The largest share a split may give its first child: nine tenths.
pub const MAX_RATIO: i64 = 900_000;

/// A rectangle of terminal cells: its top-left corner and its size.
#[derive(Debug, Clone, Copy, PartialEq, Eq, Structural)]
pub struct Rect {
    pub x: u16,
    pub y: u16,
    pub width: u16,
    pub height: u16,
}

impl Rect {
    /// The first column to the right of the rectangle.
    pub open spec fn right(self) -> int {
        self.x + self.width
    }

    /// The first row below the rectangle.
    pub open spec fn bottom(self) -> int {
        self.y + self.height
    }

    /// The rectangle lies within the coordinates a terminal can address.
    pub open spec fn on_screen(self) -> bool {
        self.right() <= u16::MAX && self.bottom() <= u16::MAX
    }

    /// The cell `(x, y)` lies inside the rectangle.
    pub open spec fn contains(self, x: int, y: int) -> bool {
        self.x <= x < self.right() && self.y <= y < self.bottom()
    }
}

/// `ratio` brought into `[MIN_RATIO, MAX_RATIO]`.
pub open spec fn clamp_ratio_spec(ratio: int) -> int {
    if ratio < MIN_RATIO {
        MIN_RATIO as int
    } else if ratio > MAX_RATIO {
        MAX_RATIO as int
    } else {
        ratio
    }
}

/// A coordinate held at the last addressable column or row.
pub open spec fn saturate(v: int) -> u16 {
    if v > u16::MAX {
        u16::MAX
    } else if v < 0 {
        0u16
    } else {
        v as u16
    }
}

/// How many of `extent` cells the first child of a split gets: the share
/// `ratio` of them, rounded to the nearest cell (a half rounds up), but at
/// least one cell and at most all but one.
pub open spec fn first_share(extent: int, ratio: int) -> int
    recommends
        extent >= 2,
{
    let rounded = (extent * clamp_ratio_spec(ratio) + RATIO_UNIT / 2) / (RATIO_UNIT as int);
    if rounded < 1 {
        1
    } else if rounded > extent - 1 {
        extent - 1
    } else {
        rounded
    }
}

/// The two rectangles into which a split divides `rect`. An axis of one cell
/// or none cannot be divided: the first child keeps all of `rect` and the
/// second is empty, placed just past it.
pub open spec fn split_rect_spec(rect: Rect, orientation: Direction, ratio: int) -> (Rect, Rect) {
    match orientation {
        Direction::Vertical => {
            if rect.width <= 1 {
                (rect, Rect { x: saturate(rect.right()), y: rect.y, width: 0, height: rect.height })
            } else {
                let w = first_share(rect.width as int, ratio);
                (
                    Rect { x: rect.x, y: rect.y, width: w as u16, height: rect.height },
                    Rect {
                        x: saturate(rect.x + w),
                        y: rect.y,
                        width: (rect.width - w) as u16,
                        height: rect.height,
                    },
                )
            }
        },
        Direction::Horizontal => {
            if rect.height <= 1 {
                (rect, Rect { x: rect.x, y: saturate(rect.bottom()), width: rect.width, height: 0 })
            } else {
                let h = first_share(rect.height as int, ratio);
                (
                    Rect { x: rect.x, y: rect.y, width: rect.width, height: h as u16 },
                    Rect {
                        x: rect.x,
                        y: saturate(rect.y + h),
                        width: rect.width,
                        height: (rect.height - h) as u16,
                    },
                )
            }
        },
    }
}

/// Brings a ratio into `[MIN_RATIO, MAX_RATIO]`.
pub fn clamp_ratio(ratio: i64) -> (r: i64)
    ensures
        r == clamp_ratio_spec(ratio as int),
        MIN_RATIO <= r <= MAX_RATIO,
        ratio <= MIN_RATIO ==> r == MIN_RATIO,
        ratio >= MAX_RATIO ==> r == MAX_RATIO,
{
    if ratio < MIN_RATIO {
        MIN_RATIO
    } else if ratio > MAX_RATIO {
        MAX_RATIO
    } else {
        ratio
    }
}

/// Clamping twice is clamping once.
pub proof fn lemma_clamp_ratio_idempotent(ratio: int)
    ensures
        clamp_ratio_spec(clamp_ratio_spec(ratio)) == clamp_ratio_spec(ratio),
{
}

/// Clamping keeps the order of two ratios.
pub proof fn lemma_clamp_ratio_monotone(a: int, b: int)
    requires
        a <= b,
    ensures
        clamp_ratio_spec(a) <= clamp_ratio_spec(b),
{
}

/// The first child's share of an axis of at least two cells leaves both
/// children at least one cell.
pub proof fn lemma_first_share_bounds(extent: int, ratio: int)
    requires
        extent >= 2,
    ensures
        1 <= first_share(extent, ratio) <= extent - 1,
{
}

/// A split of a rectangle on the screen gives two rectangles on the screen,
/// and every cell of the rectangle lies in exactly one of them.
pub proof fn lemma_split_rect_partition(
    rect: Rect,
    orientation: Direction,
    ratio: int,
    x: int,
    y: int,
)
    requires
        rect.on_screen(),
    ensures
        split_rect_spec(rect, orientation, ratio).0.on_screen(),
        split_rect_spec(rect, orientation, ratio).1.on_screen(),
        rect.contains(x, y) <==> (split_rect_spec(rect, orientation, ratio).0.contains(x, y)
            || split_rect_spec(rect, orientation, ratio).1.contains(x, y)),
        !(split_rect_spec(rect, orientation, ratio).0.contains(x, y) && split_rect_spec(
            rect,
            orientation,
            ratio,
        ).1.contains(x, y)),
{
    if rect.width >= 2 {
        lemma_first_share_bounds(rect.width as int, ratio);
    }
    if rect.height >= 2 {
        lemma_first_share_bounds(rect.height as int, ratio);
    }
}

fn share_of(extent: u16, ratio: i64) -> (w: u16)
    requires
        extent >= 2,
    ensures
        w == first_share(extent as int, ratio as int),
        1 <= w <= extent - 1,
{
    let clamped: u64 = clamp_ratio(ratio) as u64;
    assert(extent as u64 * clamped <= 65535 * 900_000) by (nonlinear_arith)
        requires
            extent <= 65535,
            clamped <= 900_000,
    ;
    let rounded: u64 = (extent as u64 * clamped + 500_000) / 1_000_000;
    if rounded < 1 {
        1
    } else if rounded > (extent - 1) as u64 {
        extent - 1
    } else {
        rounded as u16
    }
}

fn saturating_offset(start: u16, len: u16) -> (r: u16)
    ensures
        r == saturate(start + len),
{
    let sum: u32 = start as u32 + len as u32;
    if sum > 65535 {
        65535
    } else {
        sum as u16
    }
}

/// Divides `rect` between the two children of a split.
pub fn split_rect(rect: Rect, orientation: Direction, ratio: i64) -> (halves: (Rect, Rect))
    ensures
        halves == split_rect_spec(rect, orientation, ratio as int),
        orientation == Direction::Vertical && rect.width <= 1 ==> halves.0 == rect
            && halves.1.width == 0,
        orientation == Direction::Horizontal && rect.height <= 1 ==> halves.0 == rect
            && halves.1.height == 0,
{
    match orientation {
        Direction::Vertical => {
            if rect.width <= 1 {
                let x = saturating_offset(rect.x, rect.width);
                (rect, Rect { x, y: rect.y, width: 0, height: rect.height })
            } else {
                let w = share_of(rect.width, ratio);
                let x = saturating_offset(rect.x, w);
                (
                    Rect { x: rect.x, y: rect.y, width: w, height: rect.height },
                    Rect { x, y: rect.y, width: rect.width - w, height: rect.height },
                )
            }
        },
        Direction::Horizontal => {
            if rect.height <= 1 {
                let y = saturating_offset(rect.y, rect.height);
                (rect, Rect { x: rect.x, y, width: rect.width, height: 0 })
            } else {
                let h = share_of(rect.height, ratio);
                let y = saturating_offset(rect.y, h);
                (
                    Rect { x: rect.x, y: rect.y, width: rect.width, height: h },
                    Rect { x: rect.x, y, width: rect.width, height: rect.height - h },
                )
            }
        },
    }
}

/// Whether the cell `(x, y)` lies inside `rect`.
pub fn point_in_rect(rect: Rect, x: u16, y: u16) -> (inside: bool)
    ensures
        inside == rect.contains(x as int, y as int),
{
    let right: u32 = rect.x as u32 + rect.width as u32;
    let bottom: u32 = rect.y as u32 + rect.height as u32;
    x >= rect.x && (x as u32) < right && y >= rect.y && (y as u32) < bottom
}

} // verus!
