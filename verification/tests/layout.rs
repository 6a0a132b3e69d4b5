use system_monitor::layout::divide;
use system_monitor::tabs::Area;

fn screen(width: u16, height: u16) -> Area {
    Area { x: 0, y: 0, width, height }
}

#[test]
fn an_ordinary_screen_is_divided() {
    let parts = divide(screen(80, 24));
    assert_eq!(parts.head, Area { x: 1, y: 1, width: 78, height: 3 });
    assert_eq!(parts.page, Area { x: 1, y: 4, width: 78, height: 16 });
    assert_eq!(parts.bar, Area { x: 1, y: 20, width: 78, height: 3 });
    assert_eq!(parts.zones[0], Area { x: 1, y: 20, width: 26, height: 3 });
    assert_eq!(parts.zones[1], Area { x: 27, y: 20, width: 26, height: 3 });
    assert_eq!(parts.zones[2], Area { x: 53, y: 20, width: 26, height: 3 });
}

#[test]
fn every_screen_with_enough_rows_is_stacked() {
    let mut height: u16 = 8;
    loop {
        let parts = divide(screen(50, height));
        assert_eq!((parts.head.y, parts.head.height), (1, 3), "{height}");
        assert_eq!((parts.page.y, parts.page.height), (4, height - 8), "{height}");
        assert_eq!((parts.bar.y, parts.bar.height), (height - 4, 3), "{height}");
        if height > 65000 {
            break;
        }
        height += if height < 1500 { 1 } else { 97 };
    }
}

#[test]
fn a_screen_that_starts_elsewhere_is_divided() {
    let parts = divide(Area { x: 10, y: 5, width: 40, height: 30 });
    assert_eq!(parts.head, Area { x: 11, y: 6, width: 38, height: 3 });
    assert_eq!(parts.page, Area { x: 11, y: 9, width: 38, height: 22 });
    assert_eq!(parts.bar, Area { x: 11, y: 31, width: 38, height: 3 });
}

#[test]
fn the_largest_screen_is_divided() {
    let parts = divide(screen(65535, 65535));
    assert_eq!(parts.bar, Area { x: 1, y: 65531, width: 65533, height: 3 });
    assert_eq!(parts.page.height, 65535 - 8);
    assert!(parts.zones[2].fits());
}

#[test]
fn small_screens_keep_their_columns() {
    for height in 2..8 {
        let parts = divide(screen(40, height));
        for part in [parts.head, parts.page, parts.bar] {
            assert_eq!((part.x, part.width), (1, 38));
            assert!(part.fits());
        }
    }
    for (width, height) in [(1, 24), (0, 24), (80, 1), (80, 0)] {
        let parts = divide(screen(width, height));
        for part in [parts.head, parts.page, parts.bar] {
            assert_eq!(part, Area { x: 0, y: 0, width: 0, height: 0 });
        }
        assert!(!parts.zones[0].contains(0, 0));
    }
}

#[test]
fn too_few_rows_are_shared_by_the_head_and_the_bar() {
    for x in 0..400 {
        for height in 2..8 {
            let parts = divide(Area { x, y: 3, width: 40, height });
            let (head, page, bar) = (parts.head, parts.page, parts.bar);
            assert_eq!(head.y, 4);
            assert_eq!(page.y, head.y + head.height);
            assert_eq!(page.height, 0);
            assert_eq!(bar.y, page.y);
            assert_eq!(head.height + bar.height, height - 2);
            assert!(head.height <= 3 && bar.height <= 3);
        }
    }
}
