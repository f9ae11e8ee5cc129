//! Where things stand on the screen.

use vstd::prelude::*;

verus! {

/// A part of the screen, in character cells.
#[derive(Clone, Copy, Debug, PartialEq, Eq, Structural)]
pub struct Rect {
    pub x: u16,
    pub y: u16,
    pub width: u16,
    pub height: u16,
}

/// The first column to the right of an area, as far as columns are counted.
pub open spec fn right_edge(area: Rect) -> int {
    if area.x + area.width <= u16::MAX {
        area.x + area.width
    } else {
        u16::MAX as int
    }
}

/// The first row below an area, as far as rows are counted.
pub open spec fn bottom_edge(area: Rect) -> int {
    if area.y + area.height <= u16::MAX {
        area.y + area.height
    } else {
        u16::MAX as int
    }
}

/// Whether one area lies within another.
pub open spec fn lies_in(inner: Rect, outer: Rect) -> bool {
    &&& outer.x <= inner.x
    &&& inner.x + inner.width <= right_edge(outer)
    &&& outer.y <= inner.y
    &&& inner.y + inner.height <= bottom_edge(outer)
}

/// The size that is left of `size` from `at` on, as far as cells are counted.
pub open spec fn size_from(at: u16, size: u16) -> u16 {
    if at + size <= u16::MAX {
        size
    } else {
        (u16::MAX - at) as u16
    }
}

impl Rect {
    /// An area that begins at a cell. One that would go too far is cut off.
    pub fn new(x: u16, y: u16, width: u16, height: u16) -> (res: Rect)
        ensures
            res == (Rect { x, y, width: size_from(x, width), height: size_from(y, height) }),
    {
        let most_columns: u16 = u16::MAX - x;
        let most_rows: u16 = u16::MAX - y;
        Rect {
            x,
            y,
            width: if width > most_columns { most_columns } else { width },
            height: if height > most_rows { most_rows } else { height },
        }
    }
}

/// What is left on one side when `size` is put into the middle of `room`.
pub open spec fn side(room: u16, size: u16) -> u16 {
    if size < room {
        ((room - size) / 2) as u16
    } else {
        0
    }
}

/// Whether the middle of an area can be reached: its cells are counted that far.
pub open spec fn has_middle(width: u16, height: u16, area: Rect) -> bool {
    &&& area.x + side(area.width, width) <= u16::MAX
    &&& area.y + side(area.height, height) <= u16::MAX
}

/// The area of a size in the middle of another, no larger than that.
pub open spec fn centered(width: u16, height: u16, area: Rect) -> Rect {
    let x = (area.x + side(area.width, width)) as u16;
    let y = (area.y + side(area.height, height)) as u16;
    Rect {
        x,
        y,
        width: size_from(x, if width < area.width { width } else { area.width }),
        height: size_from(y, if height < area.height { height } else { area.height }),
    }
}

/// Finds the area of a size in the middle of another, no larger than that.
pub fn centered_rect(width: u16, height: u16, area: Rect) -> (res: Rect)
    requires
        has_middle(width, height, area),
    ensures
        res == centered(width, height, area),
{
    let left: u16 = area.width.saturating_sub(width) / 2;
    let top: u16 = area.height.saturating_sub(height) / 2;
    Rect::new(
        area.x + left,
        area.y + top,
        if width < area.width { width } else { area.width },
        if height < area.height { height } else { area.height },
    )
}

/// A centered area lies within the other, has the wanted size where there is room for it, and
/// leaves as much on one side as on the other, but for one cell.
pub proof fn law_centered(width: u16, height: u16, area: Rect)
    requires
        area.x + area.width <= u16::MAX,
        area.y + area.height <= u16::MAX,
    ensures
        has_middle(width, height, area),
        lies_in(centered(width, height, area), area),
        width <= area.width ==> ({
            let c = centered(width, height, area);
            let left = c.x - area.x;
            let right = area.x + area.width - (c.x + c.width);
            c.width == width && (right == left || right == left + 1)
        }),
        height <= area.height ==> ({
            let c = centered(width, height, area);
            let top = c.y - area.y;
            let bottom = area.y + area.height - (c.y + c.height);
            c.height == height && (bottom == top || bottom == top + 1)
        }),
{
}

/// The area within a border of one cell.
pub open spec fn within_border(area: Rect) -> Rect {
    Rect {
        x: if area.x < right_edge(area) {
            (area.x + 1) as u16
        } else {
            area.x
        },
        y: if area.y < bottom_edge(area) {
            (area.y + 1) as u16
        } else {
            area.y
        },
        width: if area.width >= 2 {
            (area.width - 2) as u16
        } else {
            0
        },
        height: if area.height >= 2 {
            (area.height - 2) as u16
        } else {
            0
        },
    }
}

/// Calls `ratatui::widgets::Block::inner` on a block with borders on all sides and nothing
/// else: each border takes one column or row, the area begins one cell further in where there
/// is one, and no size goes below zero.
#[verifier::external_body]
pub(crate) fn inside_border(area: Rect) -> (res: Rect)
    ensures
        res == within_border(area),
{
    let inner = ratatui::widgets::Block::bordered().inner(ratatui::layout::Rect {
        x: area.x,
        y: area.y,
        width: area.width,
        height: area.height,
    });
    Rect { x: inner.x, y: inner.y, width: inner.width, height: inner.height }
}

/// Whether three areas can be the rows of another: each is as wide as it and lies within.
pub open spec fn are_rows(rows: Seq<Rect>, area: Rect) -> bool {
    &&& rows.len() == 3
    &&& forall|i: int|
        0 <= i < 3 ==> {
            let row = #[trigger] rows[i];
            &&& row.x == area.x
            &&& row.width == area.width
            &&& area.y <= row.y
            &&& row.y + row.height <= bottom_edge(area)
        }
}

/// Whether three areas can be the columns of another: each is as high as it and lies within.
pub open spec fn are_columns(columns: Seq<Rect>, area: Rect) -> bool {
    &&& columns.len() == 3
    &&& forall|i: int|
        0 <= i < 3 ==> {
            let column = #[trigger] columns[i];
            &&& column.y == area.y
            &&& column.height == area.height
            &&& area.x <= column.x
            &&& column.x + column.width <= right_edge(area)
        }
}

/// Whether three rows have room in an area: a fixed height, at least a height, a fixed height.
/// The least height is counted up to `0x7fff`.
pub open spec fn rows_fit(area: Rect, top: u16, middle: u16, bottom: u16) -> bool {
    &&& area.y + area.height <= u16::MAX
    &&& top + middle + bottom <= area.height
    &&& middle <= 0x7fff
}

/// The rows of an area, from top to bottom: a fixed height, what is left, a fixed height.
pub open spec fn rows_of(area: Rect, top: u16, bottom: u16) -> Seq<Rect> {
    seq![
        Rect { height: top, ..area },
        Rect {
            y: (area.y + top) as u16,
            height: (area.height - top - bottom) as u16,
            ..area
        },
        Rect { y: (area.y + area.height - bottom) as u16, height: bottom, ..area },
    ]
}

/// Whether a column has room in the middle of an area, between two equal shares.
pub open spec fn columns_fit(area: Rect, left: u16, middle: u16, right: u16) -> bool {
    &&& area.x + area.width <= u16::MAX
    &&& middle <= area.width
    &&& left == right
    &&& left > 0
}

/// How many cells the left one of two equal shares has: an odd cell goes to it.
pub open spec fn left_share(area: Rect, middle: u16) -> int {
    (area.width - middle + 1) / 2
}

/// The columns of an area, from left to right: a share, a fixed width, a share.
pub open spec fn columns_of(area: Rect, middle: u16) -> Seq<Rect> {
    let share = left_share(area, middle);
    seq![
        Rect { width: share as u16, ..area },
        Rect { x: (area.x + share) as u16, width: middle, ..area },
        Rect {
            x: (area.x + share + middle) as u16,
            width: (area.width - middle - share) as u16,
            ..area
        },
    ]
}

/// Calls `ratatui::layout::Layout::split` on a vertical layout of a fixed height, a least
/// height and a fixed height. There is a row for each, as wide as the area and within it. Where
/// the heights have room, the fixed ones come out as asked for, with the middle row in all that
/// is left between them: a fixed length outweighs growth there, and the middle row grows before
/// the space behind the rows does. Where they have no room it is not said which of them gives
/// way.
#[verifier::external_body]
pub(crate) fn split_rows(area: Rect, top: u16, middle: u16, bottom: u16) -> (res: Vec<Rect>)
    ensures
        are_rows(res@, area),
        rows_fit(area, top, middle, bottom) ==> res@ == rows_of(area, top, bottom),
{
    let heights = [
        ratatui::layout::Constraint::Length(top),
        ratatui::layout::Constraint::Min(middle),
        ratatui::layout::Constraint::Length(bottom),
    ];
    let whole = ratatui::layout::Rect { x: area.x, y: area.y, width: area.width, height: area.height };
    let rows = ratatui::layout::Layout::vertical(heights).split(whole);
    rows.iter().map(|r| Rect { x: r.x, y: r.y, width: r.width, height: r.height }).collect()
}

/// Calls `ratatui::layout::Layout::split` on a horizontal layout of a share, a fixed width and
/// a share. There is a column for each, as high as the area and within it. Where the fixed width
/// has room and the shares are equal, it comes out as asked for and the shares part what is left
/// in two; an edge in the middle of a cell is rounded to the right, which gives the odd cell to
/// the left share. Where there is no room, or the shares differ, the widths are not said.
#[verifier::external_body]
pub(crate) fn split_columns(area: Rect, left: u16, middle: u16, right: u16) -> (res: Vec<Rect>)
    ensures
        are_columns(res@, area),
        columns_fit(area, left, middle, right) ==> res@ == columns_of(area, middle),
{
    let widths = [
        ratatui::layout::Constraint::Fill(left),
        ratatui::layout::Constraint::Length(middle),
        ratatui::layout::Constraint::Fill(right),
    ];
    let whole = ratatui::layout::Rect { x: area.x, y: area.y, width: area.width, height: area.height };
    let columns = ratatui::layout::Layout::horizontal(widths).split(whole);
    columns.iter().map(|r| Rect { x: r.x, y: r.y, width: r.width, height: r.height }).collect()
}

/// Rows that have room fill the area without a gap, one below the other.
pub proof fn law_rows_fill_the_area(area: Rect, top: u16, middle: u16, bottom: u16)
    requires
        rows_fit(area, top, middle, bottom),
    ensures
        ({
            let rows = rows_of(area, top, bottom);
            &&& are_rows(rows, area)
            &&& rows[0].y == area.y
            &&& rows[1].y == rows[0].y + rows[0].height
            &&& rows[2].y == rows[1].y + rows[1].height
            &&& rows[2].y + rows[2].height == area.y + area.height
            &&& rows[1].height >= middle
        }),
{
}

/// Columns that have room fill the area without a gap, one beside the other, and the shares
/// differ by one cell at most.
pub proof fn law_columns_fill_the_area(area: Rect, left: u16, middle: u16, right: u16)
    requires
        columns_fit(area, left, middle, right),
    ensures
        ({
            let columns = columns_of(area, middle);
            &&& are_columns(columns, area)
            &&& columns[0].x == area.x
            &&& columns[1].x == columns[0].x + columns[0].width
            &&& columns[2].x == columns[1].x + columns[1].width
            &&& columns[2].x + columns[2].width == area.x + area.width
            &&& columns[2].width <= columns[0].width <= columns[2].width + 1
        }),
{
}

/// The area within a border lies within the other.
pub proof fn law_within_border(area: Rect)
    requires
        area.x + area.width <= u16::MAX,
        area.y + area.height <= u16::MAX,
    ensures
        lies_in(within_border(area), area),
{
}

} // verus!
