use system_monitor::collector::MyCollector;
use system_monitor::metrics::{CoreData, MetricsRequest, Timestamp};

fn report(hostname: &str, usages: &[f32], memory_usage: f32) -> MetricsRequest<f32> {
    MetricsRequest {
        hostname: hostname.to_string(),
        cores: usages
            .iter()
            .enumerate()
            .map(|(i, usage)| CoreData { core_id: i as u32, usage: *usage })
            .collect(),
        memory_usage,
    }
}

fn at(secs: i64) -> Timestamp {
    Timestamp { secs, nanos: 0 }
}

#[test]
fn a_report_is_accepted_and_remembered() {
    let mut collector: MyCollector<f32, f64> = MyCollector::new();
    assert_eq!(collector.state().len(), 0);
    let response = collector.send_metrics(report("web", &[10.0, 30.0], 4.5), at(100), 20.0);
    assert!(response.success);
    let latest = collector.state().get("web").unwrap();
    assert_eq!(latest.hostname, "web");
    assert_eq!(latest.cores, [CoreData { core_id: 0, usage: 10.0 }, CoreData { core_id: 1, usage: 30.0 }]);
    assert_eq!(latest.memory_usage, 4.5);
    let points = collector.realtime_history().get("web").unwrap();
    assert_eq!((points[0].at, points[0].value), (at(100), 20.0));
}

#[test]
fn the_latest_report_replaces_the_one_before() {
    let mut collector: MyCollector<f32, f64> = MyCollector::new();
    collector.send_metrics(report("web", &[10.0], 1.0), at(1), 10.0);
    collector.send_metrics(report("db", &[], 2.0), at(2), 0.0);
    collector.send_metrics(report("web", &[50.0, 60.0], 3.0), at(3), 55.0);
    assert_eq!(collector.state().len(), 2);
    assert_eq!(collector.state().get("web").unwrap().memory_usage, 3.0);
    assert_eq!(collector.state().get("web").unwrap().cores.len(), 2);
    assert_eq!(collector.state().get("db").unwrap().memory_usage, 2.0);
    let web: Vec<f64> =
        collector.realtime_history().get("web").unwrap().iter().map(|p| p.value).collect();
    assert_eq!(web, [10.0, 55.0]);
    assert_eq!(collector.realtime_history().get("db").unwrap().len(), 1);
}

#[test]
fn only_the_last_sixty_means_are_kept() {
    let mut collector: MyCollector<f32, f64> = MyCollector::new();
    for i in 0..60 {
        collector.send_metrics(report("web", &[], 0.0), at(i), i as f64);
    }
    assert_eq!(collector.realtime_history().get("web").unwrap().len(), 60);
    assert_eq!(collector.realtime_history().get("web").unwrap()[0].value, 0.0);
    collector.send_metrics(report("db", &[], 0.0), at(60), 7.0);
    for i in 60..75 {
        collector.send_metrics(report("web", &[], 0.0), at(i), i as f64);
    }
    let web = collector.realtime_history().get("web").unwrap();
    assert_eq!(web.len(), 60);
    assert_eq!((web[0].value, web[59].value), (15.0, 74.0));
    assert_eq!(collector.realtime_history().get("db").unwrap().len(), 1);
}

#[test]
fn the_collector_knows_the_same_hosts_twice() {
    let mut collector: MyCollector<f32, f64> = MyCollector::new();
    for name in ["c", "a", "b", "a"] {
        collector.send_metrics(report(name, &[1.0], 0.0), at(0), 1.0);
    }
    assert_eq!(collector.state().len(), 3);
    assert_eq!(collector.realtime_history().len(), 3);
    for i in 0..3 {
        assert_eq!(collector.state().name_at(i), collector.realtime_history().host_at(i));
        assert_eq!(collector.state().name_at(i), &collector.state().value_at(i).hostname);
    }
}

#[test]
fn a_copied_report_is_the_same_report() {
    let original = report("web", &[1.0, 2.0], 3.0);
    let copy = original.clone();
    assert_eq!(copy.hostname, original.hostname);
    assert_eq!(copy.cores, original.cores);
    assert_eq!(copy.memory_usage, original.memory_usage);
}
