//! The pages of the dashboard, and how keys and clicks move between them.

use vstd::prelude::*;

verus! {

/// A page of the dashboard.
#[derive(Clone, Copy, PartialEq, Eq, Structural, Debug)]
pub enum Tab {
    Hosts,
    RealtimeChart,
    MinuteChart,
}

impl Tab {
    /// The place of the page in the tab bar.
    pub open spec fn place(self) -> int {
        match self {
            Tab::Hosts => 0,
            Tab::RealtimeChart => 1,
            Tab::MinuteChart => 2,
        }
    }

    /// The page at place `i` of the tab bar, and the first one for any other number.
    pub open spec fn at_place(i: int) -> Tab {
        if i == 1 {
            Tab::RealtimeChart
        } else if i == 2 {
            Tab::MinuteChart
        } else {
            Tab::Hosts
        }
    }

    /// Tells the place of the page in the tab bar.
    pub fn index(self) -> (i: usize)
        ensures
            i == self.place(),
    {
        match self {
            Tab::Hosts => 0,
            Tab::RealtimeChart => 1,
            Tab::MinuteChart => 2,
        }
    }

    /// Tells the page at a place of the tab bar.
    pub fn from_index(i: usize) -> (tab: Tab)
        ensures
            tab == Tab::at_place(i as int),
            i < 3 ==> tab.place() == i,
            i >= 3 ==> tab == Tab::Hosts,
    {
        match i {
            1 => Tab::RealtimeChart,
            2 => Tab::MinuteChart,
            _ => Tab::Hosts,
        }
    }

    /// The page to the left, and the last one on the left of the first one.
    pub fn prev(self) -> (tab: Tab)
        ensures
            tab == Tab::at_place((self.place() + 2) % 3),
            self.place() > 0 ==> tab.place() == self.place() - 1,
            self.place() == 0 ==> tab.place() == 2,
    {
        Self::from_index(if self.index() == 0 { 2 } else { self.index() - 1 })
    }

    /// The page to the right, and the first one on the right of the last one.
    pub fn next(self) -> (tab: Tab)
        ensures
            tab == Tab::at_place((self.place() + 1) % 3),
            self.place() < 2 ==> tab.place() == self.place() + 1,
            self.place() == 2 ==> tab.place() == 0,
    {
        Self::from_index((self.index() + 1) % 3)
    }
}

/// A page and its place name each other.
pub proof fn places_and_pages_correspond(tab: Tab, i: int)
    requires
        0 <= i < 3,
    ensures
        0 <= tab.place() < 3,
        Tab::at_place(tab.place()) == tab,
        Tab::at_place(i).place() == i,
{
}

/// A step to the right and one to the left undo each other, and three steps
/// in one direction lead back.
pub proof fn steps_go_round(tab: Tab)
    ensures
        ({
            let next = |t: Tab| Tab::at_place((t.place() + 1) % 3);
            let prev = |t: Tab| Tab::at_place((t.place() + 2) % 3);
            &&& prev(next(tab)) == tab
            &&& next(prev(tab)) == tab
            &&& next(next(next(tab))) == tab
            &&& prev(prev(prev(tab))) == tab
        }),
{
}

/// A rectangle of terminal cells.
#[derive(Clone, Copy, PartialEq, Eq, Structural, Debug)]
pub struct Area {
    pub x: u16,
    pub y: u16,
    pub width: u16,
    pub height: u16,
}

impl Area {
    /// The edges on the right and at the bottom have coordinates.
    pub open spec fn in_range(&self) -> bool {
        self.x + self.width <= u16::MAX && self.y + self.height <= u16::MAX
    }

    /// The cell in column `column` and row `row` lies in the rectangle.
    pub open spec fn covers(&self, column: int, row: int) -> bool {
        self.x <= column < self.x + self.width && self.y <= row < self.y + self.height
    }

    /// Tells whether the edges on the right and at the bottom have coordinates.
    pub fn fits(&self) -> (yes: bool)
        ensures
            yes == self.in_range(),
            yes <==> self.x + self.width <= 0xffff && self.y + self.height <= 0xffff,
    {
        self.width <= u16::MAX - self.x && self.height <= u16::MAX - self.y
    }

    /// Tells whether a cell lies in the rectangle.
    pub fn contains(&self, column: u16, row: u16) -> (yes: bool)
        requires
            self.in_range(),
        ensures
            yes == self.covers(column as int, row as int),
            yes <==> self.x <= column && column - self.x < self.width && self.y <= row && row
                - self.y < self.height,
    {
        column >= self.x && column < self.x + self.width && row >= self.y && row < self.y
            + self.height
    }
}

/// The part of the tab bar `bar` in which a click means the page at place `i`:
/// the `i`-th third, rounded down to whole cells.
pub open spec fn zone(bar: Area, i: int) -> Area {
    Area {
        x: (bar.x + i * (bar.width / 3)) as u16,
        y: bar.y,
        width: bar.width / 3,
        height: bar.height,
    }
}

/// The parts of the tab bar in which a click means a page.
pub fn tab_zones(bar: &Area) -> (zones: [Area; 3])
    requires
        bar.x + 2 * (bar.width / 3) <= u16::MAX,
    ensures
        forall|i: int| 0 <= i < 3 ==> zones@[i] == #[trigger] zone(*bar, i),
        bar.in_range() ==> forall|i: int| 0 <= i < 3 ==> (#[trigger] zones@[i]).in_range(),
        zones@[0].x == bar.x,
        zones@[1].x == bar.x + bar.width / 3,
        zones@[2].x == bar.x + 2 * (bar.width / 3),
        forall|i: int|
            0 <= i < 3 ==> (#[trigger] zones@[i]).width == bar.width / 3 && zones@[i].y == bar.y
                && zones@[i].height == bar.height,
{
    let tab_w: u16 = bar.width / 3;
    let zones: [Area; 3] = [
        Area { x: bar.x, y: bar.y, width: tab_w, height: bar.height },
        Area { x: bar.x + tab_w, y: bar.y, width: tab_w, height: bar.height },
        Area { x: bar.x + 2 * tab_w, y: bar.y, width: tab_w, height: bar.height },
    ];
    proof {
        assert(zones@[0] == zone(*bar, 0));
        assert(zones@[1] == zone(*bar, 1));
        assert(zones@[2] == zone(*bar, 2));
    }
    zones
}

/// A key that was pressed.
#[derive(Clone, Copy, PartialEq, Eq, Structural, Debug)]
pub enum Key {
    Char(char),
    Tab,
    Left,
    Right,
    Other,
}

/// What the terminal reports.
#[derive(Clone, Copy, PartialEq, Eq, Structural, Debug)]
pub enum Input {
    Key(Key),
    /// A mouse button went down on a cell.
    Click { column: u16, row: u16 },
    Other,
}

/// What the dashboard does next.
#[derive(Clone, Copy, PartialEq, Eq, Structural, Debug)]
pub enum Reaction {
    Quit,
    Show(Tab),
}

/// The answer to a key.
pub open spec fn answer_to_key(tab: Tab, key: Key) -> Reaction {
    match key {
        Key::Char(c) => if c == 'q' {
            Reaction::Quit
        } else if c == '1' {
            Reaction::Show(Tab::Hosts)
        } else if c == '2' {
            Reaction::Show(Tab::RealtimeChart)
        } else if c == '3' {
            Reaction::Show(Tab::MinuteChart)
        } else {
            Reaction::Show(tab)
        },
        Key::Tab | Key::Right => Reaction::Show(Tab::at_place((tab.place() + 1) % 3)),
        Key::Left => Reaction::Show(Tab::at_place((tab.place() + 2) % 3)),
        Key::Other => Reaction::Show(tab),
    }
}

/// The answer to a click: the page of the first zone that covers the cell.
pub open spec fn answer_to_click(tab: Tab, zones: Seq<Area>, column: int, row: int) -> Reaction {
    if zones[0].covers(column, row) {
        Reaction::Show(Tab::Hosts)
    } else if zones[1].covers(column, row) {
        Reaction::Show(Tab::RealtimeChart)
    } else if zones[2].covers(column, row) {
        Reaction::Show(Tab::MinuteChart)
    } else {
        Reaction::Show(tab)
    }
}

/// Answers to what the terminal reports while `tab` is shown.
pub fn react(tab: Tab, zones: &[Area; 3], input: Input) -> (reaction: Reaction)
    requires
        forall|i: int| 0 <= i < 3 ==> (#[trigger] zones@[i]).in_range(),
    ensures
        reaction == match input {
            Input::Key(key) => answer_to_key(tab, key),
            Input::Click { column, row } => answer_to_click(
                tab,
                zones@,
                column as int,
                row as int,
            ),
            Input::Other => Reaction::Show(tab),
        },
        input == Input::Key(Key::Left) ==> reaction is Show && reaction->Show_0.place() == if tab
            == Tab::Hosts {
            2
        } else {
            tab.place() - 1
        },
        input == Input::Key(Key::Right) || input == Input::Key(Key::Tab) ==> reaction is Show
            && reaction->Show_0.place() == if tab == Tab::MinuteChart {
            0
        } else {
            tab.place() + 1
        },
        reaction is Quit <==> input == Input::Key(Key::Char('q')),
{
    match input {
        Input::Key(key) => match key {
            Key::Char('q') => Reaction::Quit,
            Key::Char('1') => Reaction::Show(Tab::Hosts),
            Key::Char('2') => Reaction::Show(Tab::RealtimeChart),
            Key::Char('3') => Reaction::Show(Tab::MinuteChart),
            Key::Tab | Key::Right => Reaction::Show(tab.next()),
            Key::Left => Reaction::Show(tab.prev()),
            _ => Reaction::Show(tab),
        },
        Input::Click { column, row } => {
            let mut i: usize = 0;
            while i < 3
                invariant
                    i <= 3,
                    input == (Input::Click { column, row }),
                    forall|j: int| 0 <= j < 3 ==> (#[trigger] zones@[j]).in_range(),
                    forall|j: int|
                        0 <= j < i ==> !(#[trigger] zones@[j]).covers(column as int, row as int),
                decreases 3 - i,
            {
                if zones[i].contains(column, row) {
                    assert(i > 0 ==> !zones@[0].covers(column as int, row as int));
                    assert(i > 1 ==> !zones@[1].covers(column as int, row as int));
                    return Reaction::Show(Tab::from_index(i));
                }
                i += 1;
            }
            Reaction::Show(tab)
        },
        Input::Other => Reaction::Show(tab),
    }
}

/// The zones of a bar lie in the bar, and no cell lies in two of them.
pub proof fn zones_are_disjoint_parts_of_the_bar(bar: Area, i: int, j: int, column: int, row: int)
    requires
        bar.in_range(),
        0 <= i < 3,
        0 <= j < 3,
        zone(bar, i).covers(column, row),
    ensures
        bar.covers(column, row),
        i != j ==> !zone(bar, j).covers(column, row),
{
    assert(i * (bar.width / 3) + bar.width / 3 <= bar.width) by (nonlinear_arith)
        requires
            0 <= i < 3,
            0 <= bar.width,
    ;
    assert(j * (bar.width / 3) + bar.width / 3 <= bar.width) by (nonlinear_arith)
        requires
            0 <= j < 3,
            0 <= bar.width,
    ;
    assert(i < j ==> i * (bar.width / 3) + bar.width / 3 <= j * (bar.width / 3))
        by (nonlinear_arith)
        requires
            0 <= bar.width,
    ;
    assert(j < i ==> j * (bar.width / 3) + bar.width / 3 <= i * (bar.width / 3))
        by (nonlinear_arith)
        requires
            0 <= bar.width,
    ;
}

/// A click in the zone of a page shows that page, whichever page was shown
/// before; a click outside of the bar changes nothing.
pub proof fn a_click_shows_the_page_of_its_zone(
    tab: Tab,
    bar: Area,
    zones: Seq<Area>,
    i: int,
    column: int,
    row: int,
)
    requires
        bar.in_range(),
        zones.len() == 3,
        forall|k: int| 0 <= k < 3 ==> zones[k] == #[trigger] zone(bar, k),
        0 <= i < 3,
    ensures
        zone(bar, i).covers(column, row) ==> answer_to_click(tab, zones, column, row)
            == Reaction::Show(Tab::at_place(i)),
        !bar.covers(column, row) ==> answer_to_click(tab, zones, column, row) == Reaction::Show(
            tab,
        ),
{
    assert(zones[0] == zone(bar, 0) && zones[1] == zone(bar, 1) && zones[2] == zone(bar, 2));
    if zone(bar, i).covers(column, row) {
        zones_are_disjoint_parts_of_the_bar(bar, i, 0, column, row);
        zones_are_disjoint_parts_of_the_bar(bar, i, 1, column, row);
        zones_are_disjoint_parts_of_the_bar(bar, i, 2, column, row);
    }
    if zone(bar, 0).covers(column, row) {
        zones_are_disjoint_parts_of_the_bar(bar, 0, 0, column, row);
    }
    if zone(bar, 1).covers(column, row) {
        zones_are_disjoint_parts_of_the_bar(bar, 1, 1, column, row);
    }
    if zone(bar, 2).covers(column, row) {
        zones_are_disjoint_parts_of_the_bar(bar, 2, 2, column, row);
    }
}

/// The dashboard quits on the key `q` and on nothing else.
pub proof fn only_q_quits(tab: Tab, key: Key, zones: Seq<Area>, column: int, row: int)
    ensures
        answer_to_key(tab, key) == Reaction::Quit <==> key == Key::Char('q'),
        answer_to_click(tab, zones, column, row) != Reaction::Quit,
{
}

/// The keys `1`, `2` and `3` show the pages in the order of the bar, whichever
/// page was shown before.
pub proof fn number_keys_show_the_pages_in_order(tab: Tab)
    ensures
        answer_to_key(tab, Key::Char('1')) == Reaction::Show(Tab::at_place(0)),
        answer_to_key(tab, Key::Char('2')) == Reaction::Show(Tab::at_place(1)),
        answer_to_key(tab, Key::Char('3')) == Reaction::Show(Tab::at_place(2)),
{
}

/// The key Left shows the page one place to the left, and the last page from the
/// first one. The keys Right and Tab show the page one place to the right, and
/// the first page from the last one.
pub proof fn arrow_keys_move_by_one_place(tab: Tab)
    ensures
        answer_to_key(tab, Key::Left) is Show,
        answer_to_key(tab, Key::Right) is Show,
        answer_to_key(tab, Key::Tab) is Show,
        ({
            let left = answer_to_key(tab, Key::Left)->Show_0;
            let right = answer_to_key(tab, Key::Right)->Show_0;
            let forward = answer_to_key(tab, Key::Tab)->Show_0;
            &&& tab.place() > 0 ==> left.place() == tab.place() - 1
            &&& tab.place() == 0 ==> left.place() == 2
            &&& tab.place() < 2 ==> right.place() == tab.place() + 1
            &&& tab.place() == 2 ==> right.place() == 0
            &&& forward == right
        }),
{
}

/// Left after Right leads back to the same page, and so does Right after Left;
/// Left after Tab and Tab after Left do too. Three times the same key leads
/// round, and no key of them stays where it is.
pub proof fn arrow_keys_undo_each_other(tab: Tab)
    ensures
        ({
            let left = |t: Tab| answer_to_key(t, Key::Left)->Show_0;
            let right = |t: Tab| answer_to_key(t, Key::Right)->Show_0;
            let forward = |t: Tab| answer_to_key(t, Key::Tab)->Show_0;
            &&& left(right(tab)) == tab
            &&& right(left(tab)) == tab
            &&& left(forward(tab)) == tab
            &&& forward(left(tab)) == tab
            &&& left(left(left(tab))) == tab
            &&& right(right(right(tab))) == tab
            &&& left(tab) != tab
            &&& right(tab) != tab
            &&& left(tab) != right(tab)
        }),
{
}

/// A key that is neither `q`, a number of a page, nor one of Left, Right and Tab
/// leaves the page as it is.
pub proof fn other_keys_change_nothing(tab: Tab, key: Key)
    requires
        key != Key::Left && key != Key::Right && key != Key::Tab,
        key != Key::Char('q'),
        key != Key::Char('1') && key != Key::Char('2') && key != Key::Char('3'),
    ensures
        answer_to_key(tab, key) == Reaction::Show(tab),
{
}

/// The keys `1`, `2` and `3` show the hosts, the real-time chart and the minute
/// chart, whichever page was shown before.
pub proof fn number_keys_name_the_pages(tab: Tab)
    ensures
        answer_to_key(tab, Key::Char('1')) == Reaction::Show(Tab::Hosts),
        answer_to_key(tab, Key::Char('2')) == Reaction::Show(Tab::RealtimeChart),
        answer_to_key(tab, Key::Char('3')) == Reaction::Show(Tab::MinuteChart),
{
}

/// There is no page at any place but the first three; what is found there is the
/// page of hosts.
pub proof fn no_page_lies_outside_of_the_bar(i: int)
    requires
        i < 0 || i > 2,
    ensures
        Tab::at_place(i) == Tab::Hosts,
{
}

/// A cell lies in a rectangle if and only if it is no further from the upper left
/// corner than the rectangle is wide and high, and not before it.
pub proof fn a_rectangle_covers_its_cells(area: Area, right: int, down: int)
    ensures
        area.covers(area.x + right, area.y + down) <==> 0 <= right < area.width && 0 <= down
            < area.height,
{
}

/// The zones begin at the left edge of the bar and stand side by side, equally
/// wide and as high as the bar; fewer than three columns are left over.
pub proof fn zones_stand_side_by_side(bar: Area)
    requires
        bar.in_range(),
    ensures
        zone(bar, 0).x == bar.x,
        zone(bar, 1).x == zone(bar, 0).x + zone(bar, 0).width,
        zone(bar, 2).x == zone(bar, 1).x + zone(bar, 1).width,
        zone(bar, 1).width == zone(bar, 0).width,
        zone(bar, 2).width == zone(bar, 0).width,
        3 * zone(bar, 0).width <= bar.width < 3 * zone(bar, 0).width + 3,
        forall|i: int|
            (#[trigger] zone(bar, i)).y == bar.y && zone(bar, i).height == bar.height,
{
}

/// A click that the first zone, else the second one, else the third one covers
/// shows the hosts, the real-time chart or the minute chart; one that none of
/// them covers changes nothing.
pub proof fn the_first_zone_that_is_hit_decides(
    tab: Tab,
    zones: Seq<Area>,
    column: int,
    row: int,
)
    requires
        zones.len() == 3,
    ensures
        ({
            let hit = |i: int|
                zones[i].x <= column < zones[i].x + zones[i].width && zones[i].y <= row
                    < zones[i].y + zones[i].height;
            let answer = answer_to_click(tab, zones, column, row);
            &&& hit(0) ==> answer == Reaction::Show(Tab::Hosts)
            &&& !hit(0) && hit(1) ==> answer == Reaction::Show(Tab::RealtimeChart)
            &&& !hit(0) && !hit(1) && hit(2) ==> answer == Reaction::Show(Tab::MinuteChart)
            &&& !hit(0) && !hit(1) && !hit(2) ==> answer == Reaction::Show(tab)
        }),
{
}

/// Which page a click on the bar shows is told by the third of the bar in which
/// its column lies. Above and below the bar, on its left, and in the columns
/// that the three thirds leave over, a click changes nothing.
pub proof fn a_click_goes_by_its_column(
    tab: Tab,
    bar: Area,
    zones: Seq<Area>,
    column: int,
    row: int,
)
    requires
        bar.in_range(),
        zones == seq![zone(bar, 0), zone(bar, 1), zone(bar, 2)],
    ensures
        ({
            let third = bar.width as int / 3;
            let right = column - bar.x;
            let answer = answer_to_click(tab, zones, column, row);
            let on_bar = bar.y <= row < bar.y + bar.height;
            &&& on_bar && 0 <= right < third ==> answer == Reaction::Show(Tab::Hosts)
            &&& on_bar && third <= right < 2 * third ==> answer == Reaction::Show(
                Tab::RealtimeChart,
            )
            &&& on_bar && 2 * third <= right < 3 * third ==> answer == Reaction::Show(
                Tab::MinuteChart,
            )
            &&& !on_bar || right < 0 || right >= 3 * third ==> answer == Reaction::Show(tab)
        }),
{
    zones_stand_side_by_side(bar);
}

} // verus!
