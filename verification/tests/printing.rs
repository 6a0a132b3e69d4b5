use system_monitor::agent::{core_lines, cursor_home, memory_text, report, Reading};
use system_monitor::bar::make_bar;
use system_monitor::local::screen_lines;
use system_monitor::text::{align_right, decimal_text};
use system_monitor::{echo, metrics::CoreData};

fn reading(filled: usize, text: &str) -> Reading {
    Reading { filled, text: text.to_string() }
}

#[test]
fn bars_are_filled_from_the_left() {
    assert_eq!(make_bar(0, 20), "[....................]");
    assert_eq!(make_bar(7, 20), "[#######.............]");
    assert_eq!(make_bar(20, 20), "[####################]");
    assert_eq!(make_bar(21, 20), "[####################]");
    assert_eq!(make_bar(usize::MAX, 10), "[##########]");
    assert_eq!(make_bar(3, 10), "[###.......]");
    assert_eq!(make_bar(3, 0), "[]");
}

#[test]
fn numbers_are_written_in_decimal() {
    for n in [0, 1, 9, 10, 11, 99, 100, 1234567890, u32::MAX as u64, u64::MAX] {
        assert_eq!(decimal_text(n), format!("{n}"));
    }
}

#[test]
fn columns_are_aligned_to_the_right() {
    assert_eq!(align_right("7", 2), " 7");
    assert_eq!(align_right("12", 2), "12");
    assert_eq!(align_right("123", 2), "123");
    assert_eq!(align_right("é", 3), "  é");
    assert_eq!(align_right("", 3), "   ");
    assert_eq!(align_right("5.25", 5), format!("{:>5.2}", 5.25f32));
}

#[test]
fn the_agent_reports_its_cores_in_order() {
    let request = report(Some("web".to_string()), &vec![1.5f32, 2.5, 3.5], 7.75);
    assert_eq!(request.hostname, "web");
    assert_eq!(
        request.cores,
        [
            CoreData { core_id: 0, usage: 1.5 },
            CoreData { core_id: 1, usage: 2.5 },
            CoreData { core_id: 2, usage: 3.5 },
        ]
    );
    assert_eq!(request.memory_usage, 7.75);
}

#[test]
fn a_nameless_host_reports_all_the_same() {
    let request = report(None, &Vec::<f32>::new(), 0.0);
    assert_eq!(request.hostname, "unknown-host");
    assert!(request.cores.is_empty());
    assert_eq!(report(Some(String::new()), &Vec::<f32>::new(), 0.0).hostname, "");
}

#[test]
fn the_agent_prints_its_cores() {
    let lines = core_lines(&vec![reading(1, "3.10"), reading(20, "100.00")]);
    assert_eq!(
        lines,
        [
            "\x1B[2KCore  0: [#...................] |  3.10% |",
            "\x1B[2KCore  1: [####################] | 100.00% |",
            "--------------------------------|--------|",
        ]
    );
    let many: Vec<Reading> = (0..12).map(|_| reading(0, "0.00")).collect();
    assert_eq!(core_lines(&many)[11], "\x1B[2KCore 11: [....................] |  0.00% |");
    assert_eq!(core_lines(&Vec::new()).len(), 1);
}

#[test]
fn the_agent_prints_its_memory() {
    assert_eq!(memory_text(&reading(10, "7.9")), "\x1B[2KMem:     [##########..........] |  7.9Gb |");
    assert_eq!(memory_text(&reading(0, "15.93")), "\x1B[2KMem:     [....................] | 15.93Gb |");
}

#[test]
fn the_cursor_goes_back_over_all_lines() {
    assert_eq!(cursor_home(0), "\x1B[2A");
    assert_eq!(cursor_home(8), "\x1B[10A");
    assert_eq!(cursor_home(4), format!("\x1B[{}A", core_lines(&vec![
        reading(0, ""), reading(0, ""), reading(0, ""), reading(0, ""),
    ]).len() + 1));
}

#[test]
fn the_local_monitor_prints_a_round() {
    let lines = screen_lines(&vec![reading(4, "41.27"), reading(0, "0.00")], 6);
    assert_eq!(
        lines,
        [
            "\x1B[2KCore 0: [####......] | 41.27%",
            "\x1B[2KCore 1: [..........] | 0.00%",
            "-----------------------------",
            "\x1B[2KMem: [######....]",
        ]
    );
}

#[test]
fn the_echo_server_prints_and_accepts() {
    let collector = echo::MyCollector::default();
    let (line, response) = collector.send_metrics(3, "12.5");
    assert_eq!(line, "Received metrics: Core 3 -> 12.5%");
    assert!(response.success);
}

#[test]
fn bars_of_one_width_are_equally_long() {
    for filled in 0..25 {
        let (less, more) = (make_bar(filled, 20), make_bar(filled + 1, 20));
        assert_eq!(less.len(), 22);
        assert_eq!(more.len(), 22);
        let count = |bar: &str| bar.bytes().filter(|b| *b == b'#').count();
        assert_eq!(count(&less), filled.min(20));
        assert!(count(&less) <= count(&more));
        assert!(less.bytes().zip(more.bytes()).all(|(a, b)| a != b'#' || b == b'#'));
    }
}
