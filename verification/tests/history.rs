use system_monitor::history::{History, MINUTE_MAX_POINTS, REALTIME_MAX_POINTS};
use system_monitor::metrics::{Sample, Timestamp};
use system_monitor::minute::{load_initial_history, record_minute, HistoryRow};

fn at(secs: i64) -> Timestamp {
    Timestamp { secs, nanos: 0 }
}

fn values(history: &History<f64>, host: &str) -> Vec<f64> {
    history.get(host).map(|points| points.iter().map(|p| p.value).collect()).unwrap_or_default()
}

#[test]
fn the_bounds_are_those_of_the_charts() {
    assert_eq!(REALTIME_MAX_POINTS, 60);
    assert_eq!(MINUTE_MAX_POINTS, 20);
}

#[test]
fn the_oldest_sample_makes_room() {
    let mut history: History<f64> = History::new();
    let host = "web".to_string();
    for i in 0..5 {
        history.record(&host, Sample { at: at(i), value: i as f64 }, 3);
    }
    assert_eq!(values(&history, "web"), [2.0, 3.0, 4.0]);
    assert_eq!(values(&history, "db"), Vec::<f64>::new());
    assert!(history.get("db").is_none());
    assert_eq!(history.len(), 1);
    assert_eq!(history.host_at(0), "web");
    assert_eq!(history.points_at(0).len(), 3);
}

#[test]
fn hosts_have_their_own_samples() {
    let mut history: History<f64> = History::new();
    let (a, b) = ("a".to_string(), "b".to_string());
    history.record(&b, Sample { at: at(1), value: 1.5 }, 2);
    history.record(&a, Sample { at: at(1), value: 2.5 }, 2);
    history.record(&b, Sample { at: at(2), value: 3.5 }, 2);
    assert_eq!(values(&history, "a"), [2.5]);
    assert_eq!(values(&history, "b"), [1.5, 3.5]);
    assert_eq!(history.host_at(0), "a");
    assert_eq!(history.host_at(1), "b");
}

#[test]
fn a_history_that_is_too_long_does_not_grow() {
    let mut history: History<f64> = History::new();
    let host = "a".to_string();
    for i in 0..25 {
        history.append(&host, Sample { at: at(i), value: i as f64 });
    }
    record_minute(&mut history, &host, at(25), 25.0);
    let kept = values(&history, "a");
    assert_eq!(kept.len(), 25);
    assert_eq!((kept[0], kept[24]), (1.0, 25.0));
}

#[test]
fn a_minute_adds_one_sample() {
    let mut history: History<f64> = History::new();
    let host = "a".to_string();
    for i in 0..21 {
        record_minute(&mut history, &host, at(60 * i), i as f64);
    }
    let kept = values(&history, "a");
    assert_eq!(kept.len(), 20);
    assert_eq!((kept[0], kept[19]), (1.0, 20.0));
    assert_eq!(history.points_at(0)[19].at, at(1200));
}

#[test]
fn rows_are_loaded_host_by_host() {
    let mut history: History<f64> = History::new();
    let row = |hostname: &str, secs, millis, avg_cpu| HistoryRow {
        hostname: hostname.to_string(),
        created_secs: secs,
        created_millis: millis,
        avg_cpu,
    };
    let rows =
        vec![row("a", 10, 250, 1.0), row("b", 5, 0, 2.0), row("a", 70, 999, 3.0), row("c", -1, 1999, 0.0)];
    load_initial_history(&mut history, &rows);
    assert_eq!(values(&history, "a"), [1.0, 3.0]);
    assert_eq!(values(&history, "b"), [2.0]);
    assert_eq!(values(&history, "c"), [0.0]);
    assert_eq!(history.len(), 3);
    assert_eq!(history.points_at(0)[0].at, Timestamp { secs: 10, nanos: 250_000_000 });
    assert_eq!(history.points_at(2)[0].at, Timestamp { secs: -1, nanos: 1_999_000_000 });
    load_initial_history(&mut history, &vec![row("b", 6, 0, 4.0)]);
    assert_eq!(values(&history, "b"), [2.0, 4.0]);
    load_initial_history(&mut history, &Vec::new());
    assert_eq!(history.len(), 3);
}

#[test]
fn rows_are_not_cut_off() {
    let mut history: History<f64> = History::new();
    let rows: Vec<HistoryRow<f64>> = (0..30)
        .map(|i| HistoryRow {
            hostname: "a".to_string(),
            created_secs: i,
            created_millis: 0,
            avg_cpu: i as f64,
        })
        .collect();
    load_initial_history(&mut history, &rows);
    assert_eq!(values(&history, "a").len(), 30);
}

#[test]
fn times_are_subtracted_to_the_nanosecond() {
    let a = Timestamp { secs: 100, nanos: 500_000_000 };
    let b = Timestamp { secs: 98, nanos: 750_000_001 };
    assert_eq!(a.nanos_after(&b), 1_749_999_999);
    assert_eq!(b.nanos_after(&a), -1_749_999_999);
    let first = Timestamp { secs: i64::MIN, nanos: 0 };
    let last = Timestamp { secs: i64::MAX, nanos: u64::MAX };
    assert_eq!(
        last.nanos_after(&first),
        (i64::MAX as i128 - i64::MIN as i128) * 1_000_000_000 + u64::MAX as i128
    );
    assert_eq!(
        Timestamp::from_secs_and_millis(7, 1500),
        Timestamp { secs: 7, nanos: 1_500_000_000 }
    );
}

#[test]
fn the_order_of_the_hosts_does_not_matter() {
    let sampled = |order: [(&str, f64); 4]| {
        let mut history: History<f64> = History::new();
        for (i, (host, value)) in order.iter().enumerate() {
            history.record(&host.to_string(), Sample { at: at(i as i64), value: *value }, 2);
        }
        (values(&history, "a"), values(&history, "b"))
    };
    let one = sampled([("a", 1.0), ("a", 2.0), ("b", 3.0), ("b", 4.0)]);
    let other = sampled([("b", 3.0), ("a", 1.0), ("b", 4.0), ("a", 2.0)]);
    assert_eq!(one, other);
}

#[test]
fn samples_stay_in_the_order_of_their_times() {
    let mut history: History<f64> = History::new();
    let host = "a".to_string();
    for i in 0..10 {
        history.record(&host, Sample { at: at(i * i), value: 0.0 }, 4);
    }
    let times: Vec<i64> = history.get("a").unwrap().iter().map(|p| p.at.secs).collect();
    assert_eq!(times, [36, 49, 64, 81]);
}

#[test]
fn twenty_loaded_rows_are_within_the_bound_of_the_minutes() {
    let mut history: History<f64> = History::new();
    let rows: Vec<HistoryRow<f64>> = (0..20)
        .map(|i| HistoryRow {
            hostname: "a".to_string(),
            created_secs: 60 * i,
            created_millis: 0,
            avg_cpu: i as f64,
        })
        .collect();
    load_initial_history(&mut history, &rows);
    record_minute(&mut history, &"a".to_string(), at(1200), 20.0);
    let kept = values(&history, "a");
    assert_eq!(kept.len(), 20);
    assert_eq!((kept[0], kept[19]), (1.0, 20.0));
}

#[test]
fn rows_in_time_order_are_loaded_oldest_first() {
    let mut history: History<f64> = History::new();
    let rows: Vec<HistoryRow<f64>> = [("a", 50, 0), ("b", 10, 0), ("a", 50, 500), ("b", 20, 0), ("a", 60, 0)]
        .iter()
        .map(|(host, secs, millis)| HistoryRow {
            hostname: host.to_string(),
            created_secs: *secs,
            created_millis: *millis,
            avg_cpu: 0.0,
        })
        .collect();
    load_initial_history(&mut history, &rows);
    for host in ["a", "b"] {
        let points = history.get(host).unwrap();
        assert!(points.windows(2).all(|pair| pair[1].at.nanos_after(&pair[0].at) >= 0));
    }
}
