use system_monitor::collector::MyCollector;
use system_monitor::history::History;
use system_monitor::metrics::{CoreData, MetricsRequest, Sample, Timestamp};
use system_monitor::render::{neon_color, Color, RenderState};

fn at(secs: i64) -> Timestamp {
    Timestamp { secs, nanos: 0 }
}

fn collector(hosts: &[&str]) -> MyCollector<f32, f64> {
    let mut collector = MyCollector::new();
    for (i, host) in hosts.iter().enumerate() {
        let report = MetricsRequest {
            hostname: host.to_string(),
            cores: vec![
                CoreData { core_id: 0, usage: i as f32 },
                CoreData { core_id: 7, usage: 10.0 },
            ],
            memory_usage: i as f32 + 0.5,
        };
        collector.send_metrics(report, at(1000 + i as i64), i as f64);
    }
    collector
}

#[test]
fn there_are_four_colours() {
    assert_eq!(neon_color(0), Color::Rgb(173, 255, 47));
    assert_eq!(neon_color(1), Color::Rgb(255, 0, 255));
    assert_eq!(neon_color(2), Color::Rgb(0, 255, 255));
    assert_eq!(neon_color(3), Color::Rgb(157, 0, 255));
    assert_eq!(neon_color(4), neon_color(0));
    assert_eq!(neon_color(7), neon_color(3));
}

#[test]
fn nothing_is_drawn_of_nothing() {
    let empty: RenderState<f32, f64> = RenderState::empty();
    assert!(empty.hosts.is_empty() && empty.realtime.is_empty() && empty.minute.is_empty());
    assert_eq!((empty.realtime_max_x, empty.minute_max_x), (60, 1));
    let c = collector(&[]);
    let drawn = RenderState::refresh(c.state(), c.realtime_history(), &History::new(), &at(0));
    assert!(drawn.hosts.is_empty() && drawn.realtime.is_empty() && drawn.minute.is_empty());
    assert_eq!((drawn.realtime_max_x, drawn.minute_max_x), (60, 1));
}

#[test]
fn hosts_are_drawn_in_the_order_of_their_names() {
    let c = collector(&["web", "db", "cache", "app", "zoo"]);
    let drawn = RenderState::refresh(c.state(), c.realtime_history(), &History::new(), &at(1004));
    let names: Vec<&str> = drawn.hosts.iter().map(|row| row.hostname.as_str()).collect();
    assert_eq!(names, ["app", "cache", "db", "web", "zoo"]);
    let labels: Vec<&str> = drawn.realtime.iter().map(|line| line.label.as_str()).collect();
    assert_eq!(labels, names);
    for i in 0..5 {
        assert_eq!(drawn.hosts[i].color, neon_color(i));
        assert_eq!(drawn.realtime[i].color, drawn.hosts[i].color);
    }
    assert_eq!(drawn.hosts[3].memory_gb, 0.5);
    assert_eq!(drawn.hosts[2].cores, [(0, 1.0), (7, 10.0)]);
}

#[test]
fn samples_lie_so_many_seconds_from_the_left() {
    let c = collector(&["a", "b"]);
    let now = Timestamp { secs: 1010, nanos: 250_000_000 };
    let drawn = RenderState::refresh(c.state(), c.realtime_history(), &History::new(), &now);
    assert_eq!(drawn.realtime[0].points, [(49_750_000_000, 0.0)]);
    assert_eq!(drawn.realtime[1].points, [(50_750_000_000, 1.0)]);
    let drawn = RenderState::refresh(c.state(), c.realtime_history(), &History::new(), &at(1000));
    assert_eq!(drawn.realtime[0].points[0].0, 60_000_000_000);
    assert_eq!(drawn.realtime[1].points[0].0, 61_000_000_000);
    let drawn = RenderState::refresh(c.state(), c.realtime_history(), &History::new(), &at(1100));
    assert_eq!(drawn.realtime[0].points[0].0, -40_000_000_000);
}

#[test]
fn minute_points_are_numbered() {
    let c = collector(&[]);
    let mut minutes: History<f64> = History::new();
    for i in 0..7 {
        minutes.append(&"b".to_string(), Sample { at: at(60 * i), value: i as f64 });
    }
    minutes.append(&"a".to_string(), Sample { at: at(0), value: 9.0 });
    let drawn = RenderState::refresh(c.state(), c.realtime_history(), &minutes, &at(0));
    assert_eq!(drawn.minute[0].label, "a");
    assert_eq!(drawn.minute[0].points, [(0, 9.0)]);
    assert_eq!(drawn.minute[1].points[6], (6, 6.0));
    assert_eq!(drawn.minute[1].points.len(), 7);
    assert_eq!(drawn.minute_max_x, 6);
}

#[test]
fn the_minute_chart_is_never_narrower_than_one() {
    let c = collector(&[]);
    let mut minutes: History<f64> = History::new();
    minutes.append(&"a".to_string(), Sample { at: at(0), value: 9.0 });
    let drawn = RenderState::refresh(c.state(), c.realtime_history(), &minutes, &at(0));
    assert_eq!(drawn.minute_max_x, 1);
    minutes.append(&"a".to_string(), Sample { at: at(60), value: 9.0 });
    let drawn = RenderState::refresh(c.state(), c.realtime_history(), &minutes, &at(0));
    assert_eq!(drawn.minute_max_x, 1);
    minutes.append(&"a".to_string(), Sample { at: at(120), value: 9.0 });
    let drawn = RenderState::refresh(c.state(), c.realtime_history(), &minutes, &at(0));
    assert_eq!(drawn.minute_max_x, 2);
}

#[test]
fn the_order_of_the_reports_is_not_seen() {
    let report = |host: &str| MetricsRequest {
        hostname: host.to_string(),
        cores: vec![CoreData { core_id: 0, usage: host.len() as f32 }],
        memory_usage: 1.0,
    };
    let seen = |order: [&str; 3]| {
        let mut c: MyCollector<f32, f64> = MyCollector::new();
        for host in order {
            c.send_metrics(report(host), at(1), 2.0);
        }
        let drawn = RenderState::refresh(c.state(), c.realtime_history(), &History::new(), &at(2));
        format!("{drawn:?}")
    };
    assert_eq!(seen(["a", "bb", "ccc"]), seen(["ccc", "a", "bb"]));
    assert_eq!(seen(["a", "bb", "ccc"]), seen(["bb", "ccc", "a"]));
}

#[test]
fn samples_drift_to_the_left() {
    let c = collector(&["a"]);
    let place = |secs: i64| {
        let drawn =
            RenderState::refresh(c.state(), c.realtime_history(), &History::new(), &at(secs));
        drawn.realtime[0].points[0].0
    };
    assert_eq!(place(1010) - place(1017), 7_000_000_000);
}

#[test]
fn points_run_from_old_to_new() {
    let mut c: MyCollector<f32, f64> = MyCollector::new();
    let mut minutes: History<f64> = History::new();
    for secs in [100, 101, 101, 105, 130] {
        let report =
            MetricsRequest { hostname: "a".to_string(), cores: Vec::new(), memory_usage: 0.0 };
        c.send_metrics(report, at(secs), secs as f64);
        minutes.append(&"a".to_string(), Sample { at: at(secs), value: secs as f64 });
    }
    let drawn = RenderState::refresh(c.state(), c.realtime_history(), &minutes, &at(140));
    let realtime: Vec<i128> = drawn.realtime[0].points.iter().map(|p| p.0 / 1_000_000_000).collect();
    assert_eq!(realtime, [20, 21, 21, 25, 50]);
    assert_eq!(drawn.minute[0].points, [(0, 100.0), (1, 101.0), (2, 101.0), (3, 105.0), (4, 130.0)]);
}
