use system_monitor::tabs::{react, tab_zones, Area, Input, Key, Reaction, Tab};

const BAR: Area = Area { x: 1, y: 20, width: 98, height: 3 };

#[test]
fn pages_have_places() {
    assert_eq!(Tab::Hosts.index(), 0);
    assert_eq!(Tab::RealtimeChart.index(), 1);
    assert_eq!(Tab::MinuteChart.index(), 2);
    assert_eq!(Tab::from_index(0), Tab::Hosts);
    assert_eq!(Tab::from_index(1), Tab::RealtimeChart);
    assert_eq!(Tab::from_index(2), Tab::MinuteChart);
    assert_eq!(Tab::from_index(3), Tab::Hosts);
    assert_eq!(Tab::from_index(usize::MAX), Tab::Hosts);
}

#[test]
fn steps_lead_round_the_bar() {
    assert_eq!(Tab::Hosts.next(), Tab::RealtimeChart);
    assert_eq!(Tab::RealtimeChart.next(), Tab::MinuteChart);
    assert_eq!(Tab::MinuteChart.next(), Tab::Hosts);
    assert_eq!(Tab::Hosts.prev(), Tab::MinuteChart);
    for tab in [Tab::Hosts, Tab::RealtimeChart, Tab::MinuteChart] {
        assert_eq!(tab.next().prev(), tab);
        assert_eq!(tab.prev().next(), tab);
        assert_eq!(tab.next().next().next(), tab);
    }
}

#[test]
fn the_bar_has_three_zones() {
    let zones = tab_zones(&BAR);
    assert_eq!(zones[0], Area { x: 1, y: 20, width: 32, height: 3 });
    assert_eq!(zones[1], Area { x: 33, y: 20, width: 32, height: 3 });
    assert_eq!(zones[2], Area { x: 65, y: 20, width: 32, height: 3 });
}

#[test]
fn areas_cover_their_cells() {
    assert!(BAR.fits());
    assert!(BAR.contains(1, 20));
    assert!(BAR.contains(98, 22));
    assert!(!BAR.contains(0, 20));
    assert!(!BAR.contains(99, 20));
    assert!(!BAR.contains(1, 19));
    assert!(!BAR.contains(1, 23));
    assert!(!Area { x: 65000, y: 0, width: 600, height: 1 }.fits());
    assert!(!Area { x: 0, y: 65535, width: 1, height: 1 }.fits());
    assert!(Area { x: 65535, y: 65535, width: 0, height: 0 }.fits());
}

#[test]
fn clicks_show_the_page_of_their_zone() {
    let zones = tab_zones(&BAR);
    let click = |column, row| react(Tab::MinuteChart, &zones, Input::Click { column, row });
    assert_eq!(click(1, 20), Reaction::Show(Tab::Hosts));
    assert_eq!(click(32, 22), Reaction::Show(Tab::Hosts));
    assert_eq!(click(33, 21), Reaction::Show(Tab::RealtimeChart));
    assert_eq!(click(64, 20), Reaction::Show(Tab::RealtimeChart));
    assert_eq!(click(65, 20), Reaction::Show(Tab::MinuteChart));
    let hosts = |column, row| react(Tab::Hosts, &zones, Input::Click { column, row });
    assert_eq!(hosts(96, 20), Reaction::Show(Tab::MinuteChart));
    // The bar is not a multiple of three cells wide: the rest belongs to no zone.
    assert_eq!(hosts(97, 20), Reaction::Show(Tab::Hosts));
    assert_eq!(hosts(40, 19), Reaction::Show(Tab::Hosts));
    assert_eq!(hosts(40, 23), Reaction::Show(Tab::Hosts));
}

#[test]
fn keys_move_between_pages() {
    let zones = tab_zones(&BAR);
    let press = |tab, key| react(tab, &zones, Input::Key(key));
    assert_eq!(press(Tab::Hosts, Key::Char('q')), Reaction::Quit);
    assert_eq!(press(Tab::MinuteChart, Key::Char('1')), Reaction::Show(Tab::Hosts));
    assert_eq!(press(Tab::Hosts, Key::Char('2')), Reaction::Show(Tab::RealtimeChart));
    assert_eq!(press(Tab::Hosts, Key::Char('3')), Reaction::Show(Tab::MinuteChart));
    assert_eq!(press(Tab::RealtimeChart, Key::Char('x')), Reaction::Show(Tab::RealtimeChart));
    assert_eq!(press(Tab::RealtimeChart, Key::Char('Q')), Reaction::Show(Tab::RealtimeChart));
    assert_eq!(press(Tab::MinuteChart, Key::Tab), Reaction::Show(Tab::Hosts));
    assert_eq!(press(Tab::Hosts, Key::Right), Reaction::Show(Tab::RealtimeChart));
    assert_eq!(press(Tab::Hosts, Key::Left), Reaction::Show(Tab::MinuteChart));
    assert_eq!(press(Tab::RealtimeChart, Key::Other), Reaction::Show(Tab::RealtimeChart));
    assert_eq!(react(Tab::MinuteChart, &zones, Input::Other), Reaction::Show(Tab::MinuteChart));
}
