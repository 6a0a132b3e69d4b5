use system_monitor::hosts::{order_names, HostMap, NameOrder};

#[test]
fn names_are_ordered_as_strings_are() {
    let names = [
        "", "a", "A", "aa", "ab", "b", "host-1", "host-10", "host-2", "é", "z", "я", "漢", "\u{ffff}",
        "😀", "a\u{0}", "ab\u{7f}", "ab\u{80}",
    ];
    for a in names {
        for b in names {
            let expected = if a < b {
                NameOrder::Before
            } else if a == b {
                NameOrder::Same
            } else {
                NameOrder::After
            };
            assert_eq!(order_names(a, b), expected, "{a:?} {b:?}");
        }
    }
}

#[test]
fn a_map_is_walked_in_order() {
    let mut map: HostMap<u32> = HostMap::new();
    assert_eq!(map.len(), 0);
    for (i, name) in ["web", "db", "cache", "db", "app"].iter().enumerate() {
        map.insert(name.to_string(), i as u32);
    }
    let walked: Vec<(&str, u32)> =
        (0..map.len()).map(|i| (map.name_at(i).as_str(), *map.value_at(i))).collect();
    assert_eq!(walked, [("app", 4), ("cache", 2), ("db", 3), ("web", 0)]);
}

#[test]
fn a_map_gives_back_what_it_was_given() {
    let mut map: HostMap<&str> = HostMap::new();
    map.insert("b".to_string(), "first");
    map.insert("a".to_string(), "other");
    map.insert("b".to_string(), "second");
    assert_eq!(map.get("b"), Some(&"second"));
    assert_eq!(map.get("a"), Some(&"other"));
    assert_eq!(map.get("c"), None);
    assert_eq!(map.get(""), None);
    assert_eq!(map.len(), 2);
}

#[test]
fn a_removed_name_is_gone() {
    let mut map: HostMap<u8> = HostMap::new();
    map.insert("x".to_string(), 1);
    map.insert("y".to_string(), 2);
    assert_eq!(map.remove("x"), Some(1));
    assert_eq!(map.remove("x"), None);
    assert_eq!(map.get("x"), None);
    assert_eq!(map.get("y"), Some(&2));
    assert_eq!(map.len(), 1);
}
