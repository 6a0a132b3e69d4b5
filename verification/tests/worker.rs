use system_monitor::history::History;
use system_monitor::hosts::HostMap;
use system_monitor::metrics::{CoreData, MetricsRequest, Sample, Timestamp};
use system_monitor::worker::{snapshot, Action, Event, Worker};

fn report(hostname: &str, memory_usage: f32) -> MetricsRequest<f32> {
    MetricsRequest {
        hostname: hostname.to_string(),
        cores: vec![CoreData { core_id: 0, usage: 12.5 }],
        memory_usage,
    }
}

fn at(secs: i64) -> Timestamp {
    Timestamp { secs, nanos: 0 }
}

/// The action in a few characters.
fn short(action: &Action<f32>) -> String {
    match action {
        Action::Wait => "wait".to_string(),
        Action::Measure(report) => format!("measure {}", report.hostname),
        Action::Insert(report) => format!("insert {} {}", report.hostname, report.memory_usage),
        Action::Prune(host) => format!("prune {host}"),
    }
}

#[test]
fn a_minute_serves_every_host() {
    let mut worker: Worker<f32, f64> = Worker::new(History::new());
    let mut said = Vec::new();
    let events = vec![
        Event::Tick { now: at(60), snapshot: vec![report("a", 1.0), report("b", 2.0)] },
        Event::Measured(12.5),
        Event::Inserted(true),
        Event::Pruned,
        Event::Measured(50.0),
        Event::Inserted(false),
    ];
    for event in events {
        said.push(short(&worker.step(event)));
    }
    assert_eq!(said, [
            "measure a",
            "insert a 1",
            "prune a",
            "measure b",
            "insert b 2",
            "wait",
        ]);
    let history = worker.minute_history();
    assert_eq!(history.get("a").unwrap()[0], Sample { at: at(60), value: 12.5 });
    assert_eq!(history.get("b").unwrap()[0], Sample { at: at(60), value: 50.0 });
}

#[test]
fn a_minute_without_hosts_is_waited_out() {
    let mut worker: Worker<f32, f64> = Worker::new(History::new());
    let action = worker.step(Event::Tick { now: at(60), snapshot: Vec::new() });
    assert_eq!(short(&action), "wait");
    assert_eq!(worker.minute_history().len(), 0);
}

#[test]
fn the_sample_is_kept_though_the_insertion_fails() {
    let mut worker: Worker<f32, f64> = Worker::new(History::new());
    for minute in 1..=25 {
        worker.step(Event::Tick { now: at(60 * minute), snapshot: vec![report("a", 1.0)] });
        worker.step(Event::Measured(minute as f64));
        assert_eq!(short(&worker.step(Event::Inserted(false))), "wait");
    }
    let kept = worker.minute_history().get("a").unwrap();
    assert_eq!(kept.len(), 20);
    assert_eq!((kept[0].value, kept[19].value), (6.0, 25.0));
}

#[test]
fn events_that_were_not_awaited_change_nothing() {
    let mut worker: Worker<f32, f64> = Worker::new(History::new());
    assert_eq!(short(&worker.step(Event::Measured(1.0))), "wait");
    assert_eq!(short(&worker.step(Event::Inserted(true))), "wait");
    assert_eq!(short(&worker.step(Event::Pruned)), "wait");
    assert_eq!(worker.minute_history().len(), 0);
    worker.step(Event::Tick { now: at(60), snapshot: vec![report("a", 1.0)] });
    assert_eq!(short(&worker.step(Event::Pruned)), "wait");
    assert_eq!(short(&worker.step(Event::Tick { now: at(61), snapshot: Vec::new() })), "wait");
    assert_eq!(short(&worker.step(Event::Measured(2.0))), "insert a 1");
    assert_eq!(worker.minute_history().get("a").unwrap()[0].at, at(60));
}

#[test]
fn the_worker_goes_on_with_what_was_loaded() {
    let mut history: History<f64> = History::new();
    history.append(&"a".to_string(), Sample { at: at(1), value: 1.0 });
    let mut worker: Worker<f32, f64> = Worker::new(history);
    worker.step(Event::Tick { now: at(60), snapshot: vec![report("a", 1.0)] });
    worker.step(Event::Measured(2.0));
    let kept: Vec<f64> =
        worker.minute_history().get("a").unwrap().iter().map(|p| p.value).collect();
    assert_eq!(kept, [1.0, 2.0]);
}

#[test]
fn a_snapshot_holds_every_report() {
    let mut state: HostMap<MetricsRequest<f32>> = HostMap::new();
    for (name, memory) in [("b", 2.0), ("c", 3.0), ("a", 1.0)] {
        state.insert(name.to_string(), report(name, memory));
    }
    let taken = snapshot(&state);
    let seen: Vec<(&str, f32)> =
        taken.iter().map(|r| (r.hostname.as_str(), r.memory_usage)).collect();
    assert_eq!(seen, [("a", 1.0), ("b", 2.0), ("c", 3.0)]);
    assert_eq!(taken[0].cores, [CoreData { core_id: 0, usage: 12.5 }]);
}

#[test]
fn the_report_that_is_inserted_is_the_one_that_was_measured() {
    let mut worker: Worker<f32, f64> = Worker::new(History::new());
    let cores = vec![CoreData { core_id: 0, usage: 1.5 }, CoreData { core_id: 1, usage: 2.5 }];
    let full = MetricsRequest { hostname: "a".to_string(), cores, memory_usage: 3.5 };
    let first = worker.step(Event::Tick { now: at(60), snapshot: vec![full.clone()] });
    let second = worker.step(Event::Measured(2.0));
    match (first, second) {
        (Action::Measure(measured), Action::Insert(inserted)) => {
            for report in [measured, inserted] {
                assert_eq!(report.hostname, full.hostname);
                assert_eq!(report.cores, full.cores);
                assert_eq!(report.memory_usage, full.memory_usage);
            }
        }
        _ => panic!("a report is measured and inserted"),
    }
}

#[test]
fn minutes_are_kept_oldest_first() {
    let mut worker: Worker<f32, f64> = Worker::new(History::new());
    for minute in 1..=30 {
        worker.step(Event::Tick { now: at(60 * minute), snapshot: vec![report("a", 1.0)] });
        worker.step(Event::Measured(0.0));
        worker.step(Event::Inserted(true));
        worker.step(Event::Pruned);
    }
    let times: Vec<i64> =
        worker.minute_history().get("a").unwrap().iter().map(|p| p.at.secs).collect();
    assert_eq!(times, (11..=30).map(|minute| 60 * minute).collect::<Vec<i64>>());
}
