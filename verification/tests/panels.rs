use system_monitor::panels::{
    header, render_hosts, render_minute_chart, render_page, render_realtime_chart, tab_bar,
    ChartPage, GraphType, Line, Marker, Page, Style,
};
use system_monitor::render::{ChartSeries, Color, HostRow, RenderState};
use system_monitor::tabs::Tab;

fn texts(line: &Line) -> Vec<(&str, Color, bool)> {
    line.spans.iter().map(|s| (s.text.as_str(), s.style.fg, s.style.bold)).collect()
}

fn drawn() -> RenderState<String, f64> {
    let mut drawn: RenderState<String, f64> = RenderState::empty();
    drawn.hosts.push(HostRow {
        color: Color::Rgb(1, 2, 3),
        hostname: "web".to_string(),
        memory_gb: "7.25".to_string(),
        cores: vec![(0, "5.00".to_string()), (11, "99.90".to_string())],
    });
    drawn.hosts.push(HostRow {
        color: Color::Rgb(4, 5, 6),
        hostname: "".to_string(),
        memory_gb: "0.00".to_string(),
        cores: Vec::new(),
    });
    drawn
}

fn series() -> ChartSeries<f64> {
    ChartSeries { color: Color::Cyan, label: "web".to_string(), points: vec![(0, 1.0)] }
}

#[test]
fn hosts_are_listed_with_their_cores() {
    let page = render_hosts(&drawn());
    assert_eq!(page.title.text, " Connected Agents ");
    assert_eq!(page.title.style, Style { fg: Color::Magenta, bold: false });
    assert_eq!(page.border, Color::White);
    assert_eq!(page.items.len(), 2);
    let web = &page.items[0];
    assert_eq!(web.len(), 4);
    assert_eq!(
        texts(&web[0]),
        [(" HOST: web ", Color::Rgb(1, 2, 3), true), ("| MEM: 7.25 Gb", Color::Gray, false)]
    );
    assert_eq!(
        texts(&web[1]),
        [("  └─ Core 0: ", Color::Rgb(1, 2, 3), false), ("5.00%", Color::White, false)]
    );
    assert_eq!(
        texts(&web[2]),
        [("  └─ Core 11: ", Color::Rgb(1, 2, 3), false), ("99.90%", Color::White, false)]
    );
    assert!(texts(&web[3]).is_empty());
    let nameless = &page.items[1];
    assert_eq!(nameless.len(), 2);
    assert_eq!(nameless[0].spans[0].text, " HOST:  ");
}

#[test]
fn empty_charts_say_so() {
    let drawn = drawn();
    match render_realtime_chart(&drawn) {
        ChartPage::Waiting(notice) => {
            assert_eq!(notice.text.text, "Нет данных. Ожидание агентов...");
            assert_eq!(notice.text.style, Style { fg: Color::DarkGray, bold: false });
            assert_eq!(notice.title.as_deref(), Some(" Real-Time CPU (avg %) "));
            assert_eq!(notice.border, Color::White);
        }
        ChartPage::Chart { .. } => panic!("nothing to show"),
    }
    match render_minute_chart(&drawn) {
        ChartPage::Waiting(notice) => {
            assert_eq!(notice.text.text, "Нет данных. Первый снимок появится через минуту...");
            assert_eq!(notice.title.as_deref(), Some(" Minute CPU Chart "));
        }
        ChartPage::Chart { .. } => panic!("nothing to show"),
    }
}

#[test]
fn the_realtime_chart_has_its_axes() {
    let mut drawn = drawn();
    drawn.realtime.push(series());
    drawn.realtime.push(ChartSeries {
        color: Color::Magenta,
        label: "db".to_string(),
        points: vec![(7, 2.0), (8, 3.0)],
    });
    match render_realtime_chart(&drawn) {
        ChartPage::Waiting(_) => panic!("there is a line"),
        ChartPage::Chart { frame, plots } => {
            assert_eq!(frame.title.text, " Real-Time CPU avg % (last 60 s) ");
            assert_eq!(frame.title.style, Style { fg: Color::Cyan, bold: true });
            assert_eq!(frame.border, Color::White);
            assert_eq!(frame.x_axis.title, "Секунды");
            assert_eq!((frame.x_axis.low, frame.x_axis.high), (0, 60));
            assert_eq!(frame.x_axis.labels, ["−60s", "−30s", "сейчас"]);
            assert_eq!(frame.x_axis.color, Color::Gray);
            assert_eq!(frame.y_axis.title, "CPU %");
            assert_eq!((frame.y_axis.low, frame.y_axis.high), (0, 100));
            assert_eq!(frame.y_axis.labels, ["0", "25", "50", "75", "100"]);
            assert_eq!(plots.len(), 2);
            assert_eq!((plots[0].name.as_str(), plots[0].color), ("web", Color::Cyan));
            assert_eq!(plots[0].points, &[(0, 1.0)]);
            assert_eq!((plots[1].name.as_str(), plots[1].color), ("db", Color::Magenta));
            assert_eq!(plots[1].points, &[(7, 2.0), (8, 3.0)]);
            for plot in &plots {
                assert_eq!((plot.marker, plot.graph_type), (Marker::Braille, GraphType::Line));
            }
        }
    }
}

#[test]
fn the_minute_chart_has_its_axes() {
    let mut drawn = drawn();
    drawn.minute.push(series());
    drawn.minute_max_x = 13;
    match render_minute_chart(&drawn) {
        ChartPage::Waiting(_) => panic!("there is a line"),
        ChartPage::Chart { frame, plots } => {
            assert_eq!(frame.title.text, " CPU avg % — снимки каждую минуту (последние 20) ");
            assert_eq!(frame.x_axis.title, "Минуты");
            assert_eq!((frame.x_axis.low, frame.x_axis.high), (0, 13));
            assert_eq!(frame.x_axis.labels, ["старые", "", "свежие"]);
            assert_eq!((frame.y_axis.low, frame.y_axis.high), (0, 100));
            assert_eq!(plots.len(), 1);
            assert_eq!((plots[0].name.as_str(), plots[0].color), ("web", Color::Cyan));
            assert_eq!(plots[0].points, &[(0, 1.0)]);
            assert_eq!(plots[0].marker, Marker::Braille);
            assert_eq!(plots[0].graph_type, GraphType::Line);
        }
    }
}

#[test]
fn each_tab_has_its_page() {
    let mut drawn = drawn();
    drawn.minute.push(series());
    match render_page(Tab::Hosts, &drawn) {
        Page::Hosts(list) => assert_eq!(list.items.len(), 2),
        _ => panic!("the page of hosts"),
    }
    assert!(matches!(
        render_page(Tab::RealtimeChart, &drawn),
        Page::RealtimeChart(ChartPage::Waiting(_))
    ));
    assert!(matches!(
        render_page(Tab::MinuteChart, &drawn),
        Page::MinuteChart(ChartPage::Chart { .. })
    ));
}

#[test]
fn the_head_and_the_bar_are_fixed() {
    let head = header();
    assert_eq!(head.text.text, " RUST SYSTEM MONITOR [gRPC] ");
    assert_eq!(head.text.style, Style { fg: Color::Cyan, bold: true });
    assert!(head.title.is_none());
    assert_eq!(head.border, Color::White);
    let bar = tab_bar(Tab::MinuteChart);
    assert_eq!(bar.titles, [" [1] Hosts ", " [2] Real-Time Chart ", " [3] Minute Chart "]);
    assert_eq!(bar.selected, 2);
    assert_eq!(bar.style, Style { fg: Color::Gray, bold: false });
    assert_eq!(bar.highlight, Style { fg: Color::Cyan, bold: true });
    assert_eq!(bar.divider, "|");
    assert_eq!(bar.title.text, " Tabs (click / 1·2·3 / ←→ / Tab) | q — quit ");
    assert_eq!(bar.title.style.fg, Color::DarkGray);
    assert_eq!(bar.border, Color::White);
    assert_eq!(tab_bar(Tab::Hosts).selected, 0);
}
