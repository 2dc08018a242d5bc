use ratatui::layout::{Constraint, Direction, Layout, Rect};
use vstd::prelude::*;

verus! {

/// A rectangle of terminal cells: column, row, width and height.
pub type Area = (u16, u16, u16, u16);

/// The middle part when ratatui's `Layout` splits `area` in three by the percentages
/// `before`, `middle` and `after` (adding up to at most 100), top to bottom when
/// `vertical`, else left to right.
pub uninterp spec fn percent_split_middle(vertical: bool, before: u16, middle: u16, after: u16, area: (u16, u16, u16, u16)) -> (u16, u16, u16, u16);

/// The two parts when ratatui's `Layout` splits `area` top to bottom into a body of at
/// least 3 rows and a bar of 3 rows.
pub uninterp spec fn body_and_bar_split(area: (u16, u16, u16, u16)) -> ((u16, u16, u16, u16), (u16, u16, u16, u16));

/// `part` lies within `area`: along the split axis (rows when `vertical`, else columns) it
/// starts no earlier and ends no later, and on the other axis it is the same.
pub open spec fn part_within(vertical: bool, part: Area, area: Area) -> bool {
    if vertical {
        &&& part.0 == area.0
        &&& part.2 == area.2
        &&& area.1 <= part.1
        &&& part.1 + part.3 <= area.1 + area.3
    } else {
        &&& part.1 == area.1
        &&& part.3 == area.3
        &&& area.0 <= part.0
        &&& part.0 + part.2 <= area.0 + area.2
    }
}

/// `inner` lies within `outer` in both directions.
pub open spec fn area_within(inner: Area, outer: Area) -> bool {
    &&& outer.0 <= inner.0
    &&& inner.0 + inner.2 <= outer.0 + outer.2
    &&& outer.1 <= inner.1
    &&& inner.1 + inner.3 <= outer.1 + outer.3
}

/// `ratatui::layout::Layout::split` with three `Constraint::Percentage` constraints, of
/// which the middle part is returned. Which cells the middle part gets is named, not
/// stated: ratatui computes it with its constraint solver. Its default `Flex::Start`
/// packs the parts from the start of the area; when the percentages add up to at most
/// 100 they can all be met together, the leftover cells stay after the last part, and
/// the best split is unique, so it depends on the arguments alone (larger sums leave
/// several equally good splits, among which the solver picks by walking randomly seeded
/// hash maps, so they are left out). Stated besides, as ratatui's source shows: the
/// solver's required constraints keep every part within the area along the split axis,
/// and the part takes the other axis (position and length) from the area unchanged.
#[verifier::external_body]
fn split_percent_middle(vertical: bool, before: u16, middle: u16, after: u16, area: Area) -> (part: Area)
    requires
        before + middle + after <= 100,
    ensures
        part == percent_split_middle(vertical, before, middle, after, area),
        part_within(vertical, part, area),
{
    let direction = if vertical { Direction::Vertical } else { Direction::Horizontal };
    let rect = Rect { x: area.0, y: area.1, width: area.2, height: area.3 };
    let parts = Layout::default()
        .direction(direction)
        .constraints([Constraint::Percentage(before), Constraint::Percentage(middle), Constraint::Percentage(after)])
        .split(rect);
    (parts[1].x, parts[1].y, parts[1].width, parts[1].height)
}

/// `ratatui::layout::Layout::split`, top to bottom, with `Constraint::Min(3)` and
/// `Constraint::Length(3)`. Which rows each part gets is named, not stated: for these two
/// constraints the solver's best split is unique at every height, so it depends on the
/// area alone. Stated besides, as for `split_percent_middle`: both parts lie within the
/// area's rows and keep its columns.
#[verifier::external_body]
fn split_body_and_bar(area: Area) -> (parts: (Area, Area))
    ensures
        parts == body_and_bar_split(area),
        part_within(true, parts.0, area),
        part_within(true, parts.1, area),
{
    let rect = Rect { x: area.0, y: area.1, width: area.2, height: area.3 };
    let parts = Layout::default()
        .direction(Direction::Vertical)
        .constraints([Constraint::Min(3), Constraint::Length(3)])
        .split(rect);
    ((parts[0].x, parts[0].y, parts[0].width, parts[0].height), (parts[1].x, parts[1].y, parts[1].width, parts[1].height))
}

/// The margins that center a part of `percent` percent: half of the rest on each side.
pub open spec fn margin(percent: u16) -> u16 {
    ((100 - percent) / 2) as u16
}

/// A popup area of `percent_x` by `percent_y` percent, centered in `r`.
pub open spec fn centered_rect_spec(percent_x: u16, percent_y: u16, r: Area) -> Area {
    percent_split_middle(
        false,
        margin(percent_x),
        percent_x,
        margin(percent_x),
        percent_split_middle(true, margin(percent_y), percent_y, margin(percent_y), r),
    )
}

/// A popup area of `percent_x` by `percent_y` percent of `r`, centered in it.
pub fn centered_rect(percent_x: u16, percent_y: u16, r: Area) -> (popup: Area)
    requires
        percent_x <= 100,
        percent_y <= 100,
    ensures
        popup == centered_rect_spec(percent_x, percent_y, r),
        area_within(popup, r),
{
    let rows = split_percent_middle(true, (100 - percent_y) / 2, percent_y, (100 - percent_y) / 2, r);
    split_percent_middle(false, (100 - percent_x) / 2, percent_x, (100 - percent_x) / 2, rows)
}

/// The body and the help bar of a screen of area `area`.
pub fn screen_areas(area: Area) -> (parts: (Area, Area))
    ensures
        parts == body_and_bar_split(area),
        area_within(parts.0, area),
        area_within(parts.1, area),
{
    split_body_and_bar(area)
}

} // verus!
