//! The parts of the screen: the area that the panes get, which is all rows
//! but the two of the status bar, and the place of a prompt in the middle of
//! the screen. The divisions are the terminal library's.

use crate::layout::geometry::Rect;
use ratatui::layout::{Constraint, Layout};
use vstd::prelude::*;

verus! {

/// The rows of `area` that can be addressed: all of them, unless they run
/// past the last row there is.
pub open spec fn rows_in_reach(area: Rect) -> int {
    if area.y + area.height > u16::MAX {
        u16::MAX - area.y
    } else {
        area.height as int
    }
}

/// The rows that the panes get of `area`: all but two, which are the status
/// bar's. Of fewer than three rows the panes get the first, if there is one.
pub open spec fn pane_rows(area: Rect) -> int {
    let rows = rows_in_reach(area);
    if rows >= 3 {
        rows - 2
    } else if rows >= 1 {
        1
    } else {
        0
    }
}

/// The part of the screen `area` that the panes are laid out in: its
/// columns, and from its first row on the rows that the status bar leaves.
pub open spec fn main_area_spec(area: Rect) -> Rect {
    Rect { x: area.x, y: area.y, width: area.width, height: pane_rows(area) as u16 }
}

/// The part of the screen `area` that the status bar is drawn in: its
/// columns, and the rows of it that follow those of the panes.
pub open spec fn status_area_spec(area: Rect) -> Rect {
    Rect {
        x: area.x,
        y: (area.y + pane_rows(area)) as u16,
        width: area.width,
        height: (rows_in_reach(area) - pane_rows(area)) as u16,
    }
}

/// How far before a part of `size` cells the cells of an axis of `extent`
/// start that are left over: half of what is left, rounded down.
pub open spec fn margin_before(extent: u16, size: u16) -> int {
    if extent >= size {
        (extent - size) / 2
    } else {
        0
    }
}

/// `a` or `b`, whichever is less.
pub open spec fn lesser(a: int, b: int) -> int {
    if a <= b {
        a
    } else {
        b
    }
}

/// The middle one of three parts into which an area is divided along one
/// axis, from top to bottom where `down` holds and from left to right else:
/// `lead` cells in, and `size` cells long but no longer than the axis has
/// cells left. Across the axis it is as the area.
pub open spec fn middle_spec(area: Rect, down: bool, lead: u16, size: u16) -> Rect {
    if down {
        Rect {
            x: area.x,
            y: (area.y + lead) as u16,
            width: area.width,
            height: lesser(size as int, area.height - lead) as u16,
        }
    } else {
        Rect {
            x: (area.x + lead) as u16,
            y: area.y,
            width: lesser(size as int, area.width - lead) as u16,
            height: area.height,
        }
    }
}

/// The rectangle of `width` by `height` cells in the middle of `area`, no
/// larger than `area` itself: what is left over is halved between its two
/// sides, the odd cell going behind it.
pub open spec fn centered_spec(width: u16, height: u16, area: Rect) -> Rect {
    Rect {
        x: (area.x + margin_before(area.width, width)) as u16,
        y: (area.y + margin_before(area.height, height)) as u16,
        width: lesser(width as int, area.width as int) as u16,
        height: lesser(height as int, area.height as int) as u16,
    }
}

/// `ratatui`'s `Layout::split`, asked to divide `area` from top to bottom
/// into a part of at least one row and a part of two rows, and the two
/// parts it returns.
///
/// Every part of such a division has the columns of `area`, and the parts
/// lie at the start of the rows from `area.y` to `area.bottom()`, which
/// `ratatui` holds at `u16::MAX`, with no room before or between them. The
/// strengths of its constraints settle the rest: two rows for the second
/// part count for more than the growth of the first, so that the first gets
/// all rows but two; and one row for the first counts for more than two for
/// the second, as the order of priorities among constraints has it, so that
/// of fewer than three rows the first still gets one and the second what is
/// left.
#[verifier::external_body]
fn rows_above_status(area: Rect) -> (parts: (Rect, Rect))
    ensures
        parts.0 == main_area_spec(area),
        parts.1 == status_area_spec(area),
{
    let given = ratatui::layout::Rect { x: area.x, y: area.y, width: area.width, height: area.height };
    let parts = Layout::vertical([Constraint::Min(1), Constraint::Length(2)]).split(given);
    (
        Rect { x: parts[0].x, y: parts[0].y, width: parts[0].width, height: parts[0].height },
        Rect { x: parts[1].x, y: parts[1].y, width: parts[1].width, height: parts[1].height },
    )
}

/// `ratatui`'s `Layout::split`, asked to divide `area` from top to bottom
/// into a part of `lead` rows, a part of `size` rows and a part of any
/// height, and the second of the parts it returns.
///
/// Every part has the columns of `area`. The parts follow one another from
/// the first row of `area` without room between them, and each of the first
/// two gets the rows asked for as far as there are rows. This is stated
/// where the area lies within the rows that can be addressed and the two
/// heights do not contend for rows: either both fit or the first is nothing.
/// Where they contend, the library's solver weighs one against the other,
/// and nothing is stated.
#[verifier::external_body]
fn middle_rows(area: Rect, lead: u16, size: u16) -> (middle: Rect)
    ensures
        area.bottom() <= u16::MAX && (lead == 0 || lead + size <= area.height) ==> middle
            == middle_spec(area, true, lead, size),
{
    let given = ratatui::layout::Rect { x: area.x, y: area.y, width: area.width, height: area.height };
    let parts = [Constraint::Length(lead), Constraint::Length(size), Constraint::Min(0)];
    let middle = Layout::vertical(parts).split(given)[1];
    Rect { x: middle.x, y: middle.y, width: middle.width, height: middle.height }
}

/// `ratatui`'s `Layout::split`, asked to divide `area` from left to right
/// into a part of `lead` columns, a part of `size` columns and a part of any
/// width, and the second of the parts it returns.
///
/// Every part has the rows of `area`. The parts follow one another from the
/// first column of `area` without room between them, and each of the first
/// two gets the columns asked for as far as there are columns. This is
/// stated where the area lies within the columns that can be addressed and
/// the two widths do not contend for columns: either both fit or the first
/// is nothing. Where they contend, the library's solver weighs one against
/// the other, and nothing is stated.
#[verifier::external_body]
fn middle_columns(area: Rect, lead: u16, size: u16) -> (middle: Rect)
    ensures
        area.right() <= u16::MAX && (lead == 0 || lead + size <= area.width) ==> middle
            == middle_spec(area, false, lead, size),
{
    let given = ratatui::layout::Rect { x: area.x, y: area.y, width: area.width, height: area.height };
    let parts = [Constraint::Length(lead), Constraint::Length(size), Constraint::Min(0)];
    let middle = Layout::horizontal(parts).split(given)[1];
    Rect { x: middle.x, y: middle.y, width: middle.width, height: middle.height }
}

/// The pane area is a part of the screen: it has the screen's columns and
/// starts at its first row, it is no higher than the screen, and it lies
/// within the cells that can be addressed where the screen does. The status
/// bar follows it, and the two hold the rows of the screen between them.
pub proof fn lemma_main_area_within(area: Rect)
    ensures
        main_area_spec(area).x == area.x,
        main_area_spec(area).y == area.y,
        main_area_spec(area).width == area.width,
        main_area_spec(area).height <= area.height,
        main_area_spec(area).bottom() <= u16::MAX,
        area.on_screen() ==> main_area_spec(area).on_screen(),
        forall|x: int, y: int| main_area_spec(area).contains(x, y) ==> area.contains(x, y),
        status_area_spec(area).y == main_area_spec(area).bottom(),
        main_area_spec(area).height + status_area_spec(area).height == rows_in_reach(area),
        status_area_spec(area).height <= 2,
{
}

/// The part of the screen `area` that the panes are laid out in: what is
/// left above the two rows of the status bar. It has the columns of `area`
/// and starts at its first row.
pub fn main_area(area: Rect) -> (main: Rect)
    ensures
        main == main_area_spec(area),
        main.x == area.x,
        main.y == area.y,
        main.width == area.width,
        main.height <= area.height,
        area.on_screen() ==> main.on_screen(),
{
    proof {
        lemma_main_area_within(area);
    }
    rows_above_status(area).0
}

/// The part of the screen `area` that the status bar is drawn in: the rows
/// that follow the pane area, two of them where the screen has three rows or
/// more.
pub fn status_area(area: Rect) -> (status: Rect)
    ensures
        status == status_area_spec(area),
{
    rows_above_status(area).1
}

/// The place of a prompt of `width` by `height` cells in the middle of
/// `area`: the middle rows of the area are taken first, then the middle
/// columns of those. For an area within the cells that can be addressed the
/// result is `centered_spec`; for one that runs past them, the lengths that
/// are asked for may contend for the cells that are there, and what comes of
/// it is the terminal library's to say.
pub fn centered_rect(width: u16, height: u16, area: Rect) -> (r: Rect)
    ensures
        area.on_screen() ==> r == centered_spec(width, height, area),
{
    let top = if area.height >= height {
        (area.height - height) / 2
    } else {
        0
    };
    let vertical = middle_rows(area, top, height);
    let left = if vertical.width >= width {
        (vertical.width - width) / 2
    } else {
        0
    };
    middle_columns(vertical, left, width)
}

} // verus!
