//! How the screen is divided into the head, the page and the tab bar.

use crate::tabs::{tab_zones, zone, Area};
use ratatui::layout::{Constraint, Direction, Layout, Rect};
use vstd::prelude::*;

verus! {

/// How many rows a part of the screen takes.
#[derive(Clone, Copy, PartialEq, Eq, Structural, Debug)]
pub enum Rows {
    /// This many.
    Length(u16),
    /// At least this many, and what the others leave.
    Min(u16),
}

/// `area` without `margin` cells at each edge; empty where it is too small for that.
pub open spec fn inset(area: Area, margin: u16) -> Area {
    if area.width < 2 * margin || area.height < 2 * margin {
        Area { x: 0, y: 0, width: 0, height: 0 }
    } else {
        Area {
            x: (area.x + margin) as u16,
            y: (area.y + margin) as u16,
            width: (area.width - 2 * margin) as u16,
            height: (area.height - 2 * margin) as u16,
        }
    }
}

/// Three parts stand one below the other and fill `inner` without gaps. The
/// first one has `top` rows, the last one `bottom` rows, and the middle one the
/// rest. Where there are too few rows for that, the middle one has none, and
/// the outer ones have no more than theirs.
pub open spec fn stacked(parts: Seq<Area>, inner: Area, top: int, bottom: int) -> bool {
    &&& parts[0].y == inner.y
    &&& parts[1].y == parts[0].y + parts[0].height
    &&& parts[2].y == parts[1].y + parts[1].height
    &&& parts[2].y + parts[2].height == inner.y + inner.height
    &&& if top + bottom <= inner.height {
        parts[0].height == top && parts[2].height == bottom
    } else {
        parts[0].height <= top && parts[1].height == 0 && parts[2].height <= bottom
    }
}

/// Divides `area`, inside of a margin, into parts that stand one below the
/// other, by `ratatui::layout::Layout::split`.
///
/// Of its result it is claimed that there is a part for each of `rows`, that
/// each part is as wide as the area inside of the margin, and that its lower
/// edge has a coordinate. Where there are three parts, of which the outer ones
/// ask for so many rows and the middle one for none, it is claimed that they
/// fill the area inside of the margin from top to bottom, that the outer ones
/// get what they ask for and the middle one the rest, and that, where there are
/// too few rows, the middle one gets none and the outer ones no more than they
/// ask for. Nothing is claimed of how the outer ones then share the rows: the
/// solver that does so walks hash maps, and the outcome is not determined.
#[verifier::external_body]
fn split_rows(area: Area, margin: u16, rows: &Vec<Rows>) -> (parts: Vec<Area>)
    requires
        area.in_range(),
        margin < 0x8000,
    ensures
        parts@.len() == rows@.len(),
        forall|i: int|
            0 <= i < parts@.len() ==> {
                &&& (#[trigger] parts@[i]).x == inset(area, margin).x
                &&& parts@[i].width == inset(area, margin).width
                &&& parts@[i].y + parts@[i].height <= u16::MAX
            },
        rows@.len() == 3 && rows@[0] is Length && rows@[1] == Rows::Min(0) && rows@[2] is Length
            ==> stacked(
            parts@,
            inset(area, margin),
            rows@[0]->Length_0 as int,
            rows@[2]->Length_0 as int,
        ),
{
    let constraints = rows.iter().map(|r| match *r {
        Rows::Length(n) => Constraint::Length(n),
        Rows::Min(n) => Constraint::Min(n),
    });
    let rect = Rect { x: area.x, y: area.y, width: area.width, height: area.height };
    let layout = Layout::default().direction(Direction::Vertical).margin(margin);
    let parts = layout.constraints(constraints).split(rect);
    parts.iter().map(|p| Area { x: p.x, y: p.y, width: p.width, height: p.height }).collect()
}

/// The parts of the screen, and the zones of the tab bar.
#[derive(Clone, Copy, PartialEq, Eq, Debug)]
pub struct ScreenParts {
    pub head: Area,
    pub page: Area,
    pub bar: Area,
    pub zones: [Area; 3],
}

/// How many cells are left free at each edge of the screen.
pub const SCREEN_MARGIN: u16 = 1;

/// How many rows the head takes.
pub const HEAD_ROWS: u16 = 3;

/// How many rows the tab bar takes.
pub const BAR_ROWS: u16 = 3;

/// Divides the screen: the head at the top, the tab bar at the bottom, the page
/// between them, all inside of a margin.
pub fn divide(screen: Area) -> (parts: ScreenParts)
    requires
        screen.in_range(),
    ensures
        ({
            let inner = inset(screen, SCREEN_MARGIN);
            &&& parts.head.x == inner.x && parts.head.width == inner.width
            &&& parts.page.x == inner.x && parts.page.width == inner.width
            &&& parts.bar.x == inner.x && parts.bar.width == inner.width
            &&& stacked(
                seq![parts.head, parts.page, parts.bar],
                inner,
                HEAD_ROWS as int,
                BAR_ROWS as int,
            )
        }),
        parts.head.in_range(),
        parts.page.in_range(),
        parts.bar.in_range(),
        screen.width >= 2 && screen.height >= 2 ==> {
            &&& parts.head.x == screen.x + 1 && parts.head.width == screen.width - 2
            &&& parts.page.x == screen.x + 1 && parts.page.width == screen.width - 2
            &&& parts.bar.x == screen.x + 1 && parts.bar.width == screen.width - 2
            &&& parts.head.y == screen.y + 1
            &&& parts.page.y == parts.head.y + parts.head.height
            &&& parts.bar.y == parts.page.y + parts.page.height
            &&& parts.bar.y + parts.bar.height == screen.y + screen.height - 1
            &&& parts.head.height <= 3
            &&& parts.bar.height <= 3
        },
        screen.width >= 2 && screen.height >= 8 ==> {
            &&& parts.head.height == 3
            &&& parts.page.height == screen.height - 8
            &&& parts.bar.height == 3
        },
        screen.height < 8 ==> parts.page.height == 0,
        screen.width < 2 || screen.height < 2 ==> {
            &&& parts.head.width == 0 && parts.head.height == 0
            &&& parts.page.width == 0 && parts.page.height == 0
            &&& parts.bar.width == 0 && parts.bar.height == 0
        },
        forall|i: int| 0 <= i < 3 ==> parts.zones@[i] == #[trigger] zone(parts.bar, i),
        forall|i: int| 0 <= i < 3 ==> (#[trigger] parts.zones@[i]).in_range(),
{
    let mut rows: Vec<Rows> = Vec::new();
    rows.push(Rows::Length(HEAD_ROWS));
    rows.push(Rows::Min(0));
    rows.push(Rows::Length(BAR_ROWS));
    let parts = split_rows(screen, SCREEN_MARGIN, &rows);
    let bar: Area = parts[2];
    ScreenParts { head: parts[0], page: parts[1], bar, zones: tab_zones(&bar) }
}

/// A margin takes as many cells from each edge of a rectangle, so that its middle
/// stays where it is; of one that is too narrow or too low nothing is left.
pub proof fn a_margin_shrinks_all_edges(area: Area, margin: u16)
    requires
        area.in_range(),
    ensures
        ({
            let inner = inset(area, margin);
            &&& area.width >= 2 * margin && area.height >= 2 * margin ==> {
                &&& inner.x - area.x == margin
                &&& inner.y - area.y == margin
                &&& (area.x + area.width) - (inner.x + inner.width) == margin
                &&& (area.y + area.height) - (inner.y + inner.height) == margin
            }
            &&& area.width < 2 * margin || area.height < 2 * margin ==> inner.x == 0 && inner.y
                == 0 && inner.width == 0 && inner.height == 0
        }),
{
}

} // verus!
