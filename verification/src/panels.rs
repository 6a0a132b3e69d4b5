//! The parts of the screen: their texts, colours and axes.

use crate::render::{ChartSeries, Color, HostRow, RenderState};
use crate::tabs::Tab;
use crate::text::{decimal, decimal_text};
use vstd::prelude::*;

verus! {

/// How a text is printed.
#[derive(Clone, Copy, PartialEq, Eq, Structural, Debug)]
pub struct Style {
    pub fg: Color,
    pub bold: bool,
}

/// A text that is printed in one way.
#[derive(Debug)]
pub struct Span {
    pub text: String,
    pub style: Style,
}

/// A text as a mathematical value.
pub struct SpanView {
    pub text: Seq<char>,
    pub style: Style,
}

impl View for Span {
    type V = SpanView;

    open spec fn view(&self) -> SpanView {
        SpanView { text: self.text@, style: self.style }
    }
}

/// A line of texts. One without texts is blank.
#[derive(Debug)]
pub struct Line {
    pub spans: Vec<Span>,
}

impl View for Line {
    type V = Seq<SpanView>;

    open spec fn view(&self) -> Seq<SpanView> {
        self.spans@.map_values(|span: Span| span@)
    }
}

/// Ordinary print in this colour.
pub open spec fn plain(fg: Color) -> Style {
    Style { fg, bold: false }
}

/// Bold print in this colour.
pub open spec fn strong(fg: Color) -> Style {
    Style { fg, bold: true }
}

fn span(text: String, fg: Color, bold: bool) -> (made: Span)
    ensures
        made@ == (SpanView { text: text@, style: (Style { fg, bold }) }),
{
    Span { text, style: Style { fg, bold } }
}

fn line_of_two(first: Span, second: Span) -> (line: Line)
    ensures
        line@ == seq![first@, second@],
{
    let mut spans: Vec<Span> = Vec::new();
    spans.push(first);
    spans.push(second);
    let line = Line { spans };
    assert(line@ =~= seq![first@, second@]);
    line
}

/// The page of hosts: a framed list.
#[derive(Debug)]
pub struct HostList {
    pub title: Span,
    pub border: Color,
    pub items: Vec<Vec<Line>>,
}

/// Lines as mathematical values.
pub open spec fn lines_view(lines: Seq<Line>) -> Seq<Seq<SpanView>> {
    lines.map_values(|line: Line| line@)
}

/// The first line of a host: its name, and its memory in use.
pub open spec fn host_line(row: HostRow<String>) -> Seq<SpanView> {
    seq![
        SpanView { text: " HOST: "@ + row.hostname@ + " "@, style: strong(row.color) },
        SpanView { text: "| MEM: "@ + row.memory_gb@ + " Gb"@, style: plain(Color::Gray) },
    ]
}

/// The line of the core at place `c` of a host.
pub open spec fn core_line(row: HostRow<String>, c: int) -> Seq<SpanView> {
    seq![
        SpanView {
            text: "  └─ Core "@ + decimal(row.cores@[c].0 as nat) + ": "@,
            style: plain(row.color),
        },
        SpanView { text: row.cores@[c].1@ + "%"@, style: plain(Color::White) },
    ]
}

/// The lines of a host: its own, one for each core, and a blank one.
pub open spec fn host_lines(row: HostRow<String>) -> Seq<Seq<SpanView>> {
    seq![host_line(row)] + Seq::new(row.cores@.len(), |c: int| core_line(row, c)) + seq![
        Seq::<SpanView>::empty(),
    ]
}

/// The item of a host has a line for the host, one for each of its cores, none
/// left out, and a blank one. Line `c + 1` holds the number and the load of the
/// core at place `c`.
pub proof fn every_core_has_its_line(row: HostRow<String>, c: int)
    requires
        0 <= c < row.cores@.len(),
    ensures
        host_lines(row).len() == row.cores@.len() + 2,
        ({
            let line = host_lines(row)[c + 1];
            &&& line.len() == 2
            &&& line[0].text == "  └─ Core "@ + decimal(row.cores@[c].0 as nat) + ": "@
            &&& line[0].style.fg == row.color
            &&& !line[0].style.bold
            &&& line[1].text == row.cores@[c].1@ + "%"@
            &&& line[1].style.fg == Color::White
            &&& !line[1].style.bold
        }),
{
}

/// The first line of a host holds its name and its memory, and the last one, on
/// which nothing stands, comes behind the lines of its cores, however many.
pub proof fn the_lines_of_a_host_begin_with_its_name(row: HostRow<String>)
    ensures
        host_lines(row).len() == row.cores@.len() + 2,
        ({
            let line = host_lines(row)[0];
            &&& line.len() == 2
            &&& line[0].text == " HOST: "@ + row.hostname@ + " "@
            &&& line[0].style.fg == row.color
            &&& line[0].style.bold
            &&& line[1].text == "| MEM: "@ + row.memory_gb@ + " Gb"@
            &&& line[1].style.fg == Color::Gray
            &&& !line[1].style.bold
        }),
        host_lines(row)[(row.cores@.len() + 1) as int].len() == 0,
{
}

/// As a mathematical value a line holds all of its texts, each as it is.
pub proof fn a_line_is_taken_whole(line: Line)
    ensures
        line@.len() == line.spans@.len(),
        forall|i: int|
            0 <= i < line.spans@.len() ==> (#[trigger] line@[i]).text == line.spans@[i].text@
                && line@[i].style.fg == line.spans@[i].style.fg && line@[i].style.bold
                == line.spans@[i].style.bold,
{
}

/// As mathematical values lines are as many as they were, each as it is.
pub proof fn lines_are_taken_whole(lines: Seq<Line>)
    ensures
        lines_view(lines).len() == lines.len(),
        forall|i: int|
            0 <= i < lines.len() ==> #[trigger] lines_view(lines)[i] == lines[i]@,
{
}

fn host_item(row: &HostRow<String>) -> (lines: Vec<Line>)
    ensures
        lines_view(lines@) == host_lines(*row),
        lines@.len() == row.cores@.len() + 2,
        forall|c: int|
            0 <= c < row.cores@.len() ==> {
                let spans = (#[trigger] lines@[c + 1]).spans@;
                &&& spans.len() == 2
                &&& spans[0].text@ == "  └─ Core "@ + decimal(row.cores@[c].0 as nat) + ": "@
                &&& spans[1].text@ == row.cores@[c].1@ + "%"@
            },
{
    let mut name: String = " HOST: ".to_owned();
    name.append(row.hostname.as_str());
    name.append(" ");
    let mut memory: String = "| MEM: ".to_owned();
    memory.append(row.memory_gb.as_str());
    memory.append(" Gb");
    let mut lines: Vec<Line> = Vec::new();
    lines.push(line_of_two(span(name, row.color, true), span(memory, Color::Gray, false)));
    let mut c: usize = 0;
    while c < row.cores.len()
        invariant
            c <= row.cores.len(),
            lines@.len() == c + 1,
            lines@[0]@ == host_line(*row),
            forall|k: int| 0 <= k < c ==> (#[trigger] lines@[k + 1])@ == core_line(*row, k),
        decreases row.cores.len() - c,
    {
        let mut core: String = "  └─ Core ".to_owned();
        core.append(decimal_text(row.cores[c].0 as u64).as_str());
        core.append(": ");
        let mut usage: String = row.cores[c].1.clone();
        usage.append("%");
        let ghost before = lines@;
        lines.push(line_of_two(span(core, row.color, false), span(usage, Color::White, false)));
        c += 1;
        assert forall|k: int| 0 <= k < c implies (#[trigger] lines@[k + 1])@ == core_line(
            *row,
            k,
        ) by {
            if k < c - 1 {
                assert(lines@[k + 1] == before[k + 1]);
            }
        }
    }
    let blank = Line { spans: Vec::new() };
    assert(blank@ =~= Seq::<SpanView>::empty());
    lines.push(blank);
    proof {
        let all = lines_view(lines@);
        let expected = host_lines(*row);
        assert(all.len() == expected.len());
        assert forall|k: int| 0 <= k < all.len() implies all[k] == expected[k] by {
            if 0 < k <= row.cores@.len() {
                assert(lines@[(k - 1) + 1]@ == core_line(*row, k - 1));
            }
        }
        assert(all =~= expected);
        assert forall|c: int| 0 <= c < row.cores@.len() implies {
            let spans = (#[trigger] lines@[c + 1]).spans@;
            &&& spans.len() == 2
            &&& spans[0].text@ == "  └─ Core "@ + decimal(row.cores@[c].0 as nat) + ": "@
            &&& spans[1].text@ == row.cores@[c].1@ + "%"@
        } by {
            assert(all[c + 1] == lines@[c + 1]@);
            every_core_has_its_line(*row, c);
            a_line_is_taken_whole(lines@[c + 1]);
        }
    }
    lines
}

/// `page` is the framed list of `hosts`, with one item for each of them.
pub open spec fn is_host_page(page: HostList, hosts: Seq<HostRow<String>>) -> bool {
    &&& page.title@ == SpanView { text: " Connected Agents "@, style: plain(Color::Magenta) }
    &&& page.border == Color::White
    &&& page.items@.len() == hosts.len()
    &&& forall|i: int|
        0 <= i < hosts.len() ==> lines_view((#[trigger] page.items@[i])@) == host_lines(hosts[i])
}

/// The page of hosts. The numbers of the rows are texts by now.
pub fn render_hosts<G>(rs: &RenderState<String, G>) -> (page: HostList)
    ensures
        is_host_page(page, rs.hosts@),
        page.items@.len() == rs.hosts@.len(),
        forall|i: int|
            0 <= i < rs.hosts@.len() ==> (#[trigger] page.items@[i])@.len()
                == rs.hosts@[i].cores@.len() + 2,
{
    let mut items: Vec<Vec<Line>> = Vec::new();
    let mut i: usize = 0;
    while i < rs.hosts.len()
        invariant
            i <= rs.hosts.len(),
            items@.len() == i,
            forall|k: int|
                0 <= k < i ==> lines_view((#[trigger] items@[k])@) == host_lines(rs.hosts@[k])
                    && items@[k]@.len() == rs.hosts@[k].cores@.len() + 2,
        decreases rs.hosts.len() - i,
    {
        items.push(host_item(&rs.hosts[i]));
        i += 1;
    }
    HostList {
        title: span(" Connected Agents ".to_owned(), Color::Magenta, false),
        border: Color::White,
        items,
    }
}

/// A framed text.
#[derive(Debug)]
pub struct Notice {
    pub text: Span,
    /// The title of the frame, if it has one.
    pub title: Option<String>,
    pub border: Color,
}

/// A framed text as a mathematical value.
pub struct NoticeView {
    pub text: SpanView,
    pub title: Option<Seq<char>>,
    pub border: Color,
}

impl View for Notice {
    type V = NoticeView;

    open spec fn view(&self) -> NoticeView {
        NoticeView {
            text: self.text@,
            title: match self.title {
                Some(title) => Some(title@),
                None => None,
            },
            border: self.border,
        }
    }
}

/// An axis of a chart.
#[derive(Debug)]
pub struct Axis {
    pub title: String,
    pub color: Color,
    pub low: usize,
    pub high: usize,
    pub labels: Vec<String>,
}

/// An axis as a mathematical value.
pub struct AxisView {
    pub title: Seq<char>,
    pub color: Color,
    pub low: int,
    pub high: int,
    pub labels: Seq<Seq<char>>,
}

impl View for Axis {
    type V = AxisView;

    open spec fn view(&self) -> AxisView {
        AxisView {
            title: self.title@,
            color: self.color,
            low: self.low as int,
            high: self.high as int,
            labels: self.labels@.map_values(|label: String| label@),
        }
    }
}

/// The frame and the axes of a chart.
#[derive(Debug)]
pub struct ChartFrame {
    pub title: Span,
    pub border: Color,
    pub x_axis: Axis,
    pub y_axis: Axis,
}

/// The frame and the axes of a chart as mathematical values.
pub struct ChartFrameView {
    pub title: SpanView,
    pub border: Color,
    pub x_axis: AxisView,
    pub y_axis: AxisView,
}

impl View for ChartFrame {
    type V = ChartFrameView;

    open spec fn view(&self) -> ChartFrameView {
        ChartFrameView {
            title: self.title@,
            border: self.border,
            x_axis: self.x_axis@,
            y_axis: self.y_axis@,
        }
    }
}

/// What a point of a chart is drawn with.
#[derive(Clone, Copy, PartialEq, Eq, Structural, Debug)]
pub enum Marker {
    /// The dots of Braille patterns, eight to a cell.
    Braille,
}

/// How the points of a chart are connected.
#[derive(Clone, Copy, PartialEq, Eq, Structural, Debug)]
pub enum GraphType {
    /// Each point with the next one.
    Line,
}

/// The points of one host in a chart, and how they are drawn.
#[derive(Debug)]
pub struct Plot<'a, G> {
    pub name: &'a String,
    pub color: Color,
    pub points: &'a Vec<(i128, G)>,
    pub marker: Marker,
    pub graph_type: GraphType,
}

/// The page of a chart: a notice as long as there is nothing to show, else the
/// chart with what is plotted in it.
#[derive(Debug)]
pub enum ChartPage<'a, G> {
    Waiting(Notice),
    Chart { frame: ChartFrame, plots: Vec<Plot<'a, G>> },
}

/// There is a plot for each of `series`, in their order, with its name, colour
/// and points, drawn as a line in Braille dots.
pub open spec fn plots_of<G>(plots: Seq<Plot<'_, G>>, series: Seq<ChartSeries<G>>) -> bool {
    &&& plots.len() == series.len()
    &&& forall|i: int|
        0 <= i < plots.len() ==> {
            &&& (#[trigger] plots[i]).name@ == series[i].label@
            &&& plots[i].color == series[i].color
            &&& plots[i].points@ == series[i].points@
            &&& plots[i].marker == Marker::Braille
            &&& plots[i].graph_type == GraphType::Line
        }
}

/// The vertical axis of both charts.
pub open spec fn percent_axis() -> AxisView {
    AxisView {
        title: "CPU %"@,
        color: Color::Gray,
        low: 0,
        high: 100,
        labels: seq!["0"@, "25"@, "50"@, "75"@, "100"@],
    }
}

/// The notice on an empty real-time chart.
pub open spec fn realtime_notice() -> NoticeView {
    NoticeView {
        text: SpanView {
            text: "Нет данных. Ожидание агентов..."@,
            style: plain(Color::DarkGray),
        },
        title: Some(" Real-Time CPU (avg %) "@),
        border: Color::White,
    }
}

/// The real-time chart without its plots.
pub open spec fn realtime_frame(max_x: int) -> ChartFrameView {
    ChartFrameView {
        title: SpanView {
            text: " Real-Time CPU avg % (last 60 s) "@,
            style: strong(Color::Cyan),
        },
        border: Color::White,
        x_axis: AxisView {
            title: "Секунды"@,
            color: Color::Gray,
            low: 0,
            high: max_x,
            labels: seq!["−60s"@, "−30s"@, "сейчас"@],
        },
        y_axis: percent_axis(),
    }
}

/// The notice on an empty minute chart.
pub open spec fn minute_notice() -> NoticeView {
    NoticeView {
        text: SpanView {
            text: "Нет данных. Первый снимок появится через минуту..."@,
            style: plain(Color::DarkGray),
        },
        title: Some(" Minute CPU Chart "@),
        border: Color::White,
    }
}

/// The minute chart without its plots.
pub open spec fn minute_frame(max_x: int) -> ChartFrameView {
    ChartFrameView {
        title: SpanView {
            text: " CPU avg % — снимки каждую минуту (последние 20) "@,
            style: strong(Color::Cyan),
        },
        border: Color::White,
        x_axis: AxisView {
            title: "Минуты"@,
            color: Color::Gray,
            low: 0,
            high: max_x,
            labels: seq!["старые"@, ""@, "свежие"@],
        },
        y_axis: percent_axis(),
    }
}

fn notice(text: &str, title: &str) -> (made: Notice)
    ensures
        made@ == (NoticeView {
            text: (SpanView { text: text@, style: plain(Color::DarkGray) }),
            title: Some(title@),
            border: Color::White,
        }),
{
    Notice {
        text: span(text.to_owned(), Color::DarkGray, false),
        title: Some(title.to_owned()),
        border: Color::White,
    }
}

fn axis_of_three(title: &str, high: usize, left: &str, middle: &str, right: &str) -> (axis: Axis)
    ensures
        axis@ == (AxisView {
            title: title@,
            color: Color::Gray,
            low: 0,
            high: high as int,
            labels: seq![left@, middle@, right@],
        }),
{
    let mut labels: Vec<String> = Vec::new();
    labels.push(left.to_owned());
    labels.push(middle.to_owned());
    labels.push(right.to_owned());
    let axis = Axis { title: title.to_owned(), color: Color::Gray, low: 0, high, labels };
    assert(axis@.labels =~= seq![left@, middle@, right@]);
    axis
}

fn percents() -> (axis: Axis)
    ensures
        axis@ == percent_axis(),
{
    let mut labels: Vec<String> = Vec::new();
    labels.push("0".to_owned());
    labels.push("25".to_owned());
    labels.push("50".to_owned());
    labels.push("75".to_owned());
    labels.push("100".to_owned());
    let axis = Axis { title: "CPU %".to_owned(), color: Color::Gray, low: 0, high: 100, labels };
    assert(axis@.labels =~= percent_axis().labels);
    axis
}

fn plot_all<'a, G>(series: &'a Vec<ChartSeries<G>>) -> (plots: Vec<Plot<'a, G>>)
    ensures
        plots_of(plots@, series@),
{
    let mut plots: Vec<Plot<'a, G>> = Vec::new();
    let mut i: usize = 0;
    while i < series.len()
        invariant
            i <= series.len(),
            plots_of(plots@, series@.take(i as int)),
        decreases series.len() - i,
    {
        let one = &series[i];
        plots.push(
            Plot {
                name: &one.label,
                color: one.color,
                points: &one.points,
                marker: Marker::Braille,
                graph_type: GraphType::Line,
            },
        );
        i += 1;
    }
    assert(series@.take(i as int) =~= series@);
    plots
}

/// `page` is the real-time chart of `rs`.
pub open spec fn is_realtime_page<F, G>(page: ChartPage<'_, G>, rs: RenderState<F, G>) -> bool {
    if rs.realtime@.len() == 0 {
        page is Waiting && page->Waiting_0@ == realtime_notice()
    } else {
        page is Chart && page->frame@ == realtime_frame(rs.realtime_max_x as int) && plots_of(
            page->plots@,
            rs.realtime@,
        )
    }
}

/// The page of the real-time chart.
pub fn render_realtime_chart<F, G>(rs: &RenderState<F, G>) -> (page: ChartPage<'_, G>)
    ensures
        is_realtime_page(page, *rs),
{
    if rs.realtime.len() == 0 {
        return ChartPage::Waiting(
            notice("Нет данных. Ожидание агентов...", " Real-Time CPU (avg %) "),
        );
    }
    ChartPage::Chart {
        frame: ChartFrame {
            title: span(" Real-Time CPU avg % (last 60 s) ".to_owned(), Color::Cyan, true),
            border: Color::White,
            x_axis: axis_of_three("Секунды", rs.realtime_max_x, "−60s", "−30s", "сейчас"),
            y_axis: percents(),
        },
        plots: plot_all(&rs.realtime),
    }
}

/// `page` is the minute chart of `rs`.
pub open spec fn is_minute_page<F, G>(page: ChartPage<'_, G>, rs: RenderState<F, G>) -> bool {
    if rs.minute@.len() == 0 {
        page is Waiting && page->Waiting_0@ == minute_notice()
    } else {
        page is Chart && page->frame@ == minute_frame(rs.minute_max_x as int) && plots_of(
            page->plots@,
            rs.minute@,
        )
    }
}

/// The page of the minute chart.
pub fn render_minute_chart<F, G>(rs: &RenderState<F, G>) -> (page: ChartPage<'_, G>)
    ensures
        is_minute_page(page, *rs),
{
    if rs.minute.len() == 0 {
        return ChartPage::Waiting(
            notice("Нет данных. Первый снимок появится через минуту...", " Minute CPU Chart "),
        );
    }
    ChartPage::Chart {
        frame: ChartFrame {
            title: span(
                " CPU avg % — снимки каждую минуту (последние 20) ".to_owned(),
                Color::Cyan,
                true,
            ),
            border: Color::White,
            x_axis: axis_of_three("Минуты", rs.minute_max_x, "старые", "", "свежие"),
            y_axis: percents(),
        },
        plots: plot_all(&rs.minute),
    }
}

/// What stands between the head of the screen and the tab bar.
#[derive(Debug)]
pub enum Page<'a, G> {
    Hosts(HostList),
    RealtimeChart(ChartPage<'a, G>),
    MinuteChart(ChartPage<'a, G>),
}

/// The page `current`.
pub fn render_page<'a, G>(current: Tab, rs: &'a RenderState<String, G>) -> (page: Page<'a, G>)
    ensures
        match current {
            Tab::Hosts => page is Hosts && is_host_page(page->Hosts_0, rs.hosts@),
            Tab::RealtimeChart => page is RealtimeChart && is_realtime_page(
                page->RealtimeChart_0,
                *rs,
            ),
            Tab::MinuteChart => page is MinuteChart && is_minute_page(page->MinuteChart_0, *rs),
        },
{
    match current {
        Tab::Hosts => Page::Hosts(render_hosts(rs)),
        Tab::RealtimeChart => Page::RealtimeChart(render_realtime_chart(rs)),
        Tab::MinuteChart => Page::MinuteChart(render_minute_chart(rs)),
    }
}

/// The head of the screen.
pub fn header() -> (head: Notice)
    ensures
        head@ == (NoticeView {
            text: (SpanView {
                text: " RUST SYSTEM MONITOR [gRPC] "@,
                style: strong(Color::Cyan),
            }),
            title: None,
            border: Color::White,
        }),
{
    Notice {
        text: span(" RUST SYSTEM MONITOR [gRPC] ".to_owned(), Color::Cyan, true),
        title: None,
        border: Color::White,
    }
}

/// The bar that names the pages.
#[derive(Debug)]
pub struct TabBar {
    pub titles: Vec<String>,
    /// The place of the page that is shown.
    pub selected: usize,
    pub style: Style,
    /// How the name of the page that is shown is printed.
    pub highlight: Style,
    pub divider: String,
    pub title: Span,
    pub border: Color,
}

/// The name of a page in the bar.
pub open spec fn tab_title(tab: Tab) -> Seq<char> {
    match tab {
        Tab::Hosts => " [1] Hosts "@,
        Tab::RealtimeChart => " [2] Real-Time Chart "@,
        Tab::MinuteChart => " [3] Minute Chart "@,
    }
}

/// The bar while `current` is shown.
pub fn tab_bar(current: Tab) -> (bar: TabBar)
    ensures
        bar.titles@.len() == 3,
        forall|i: int|
            0 <= i < 3 ==> (#[trigger] bar.titles@[i])@ == tab_title(Tab::at_place(i)),
        bar.selected == current.place(),
        bar.style == plain(Color::Gray),
        bar.highlight == strong(Color::Cyan),
        bar.divider@ == "|"@,
        bar.title@ == (SpanView {
            text: " Tabs (click / 1·2·3 / ←→ / Tab) | q — quit "@,
            style: plain(Color::DarkGray),
        }),
        bar.border == Color::White,
{
    let mut titles: Vec<String> = Vec::new();
    titles.push(" [1] Hosts ".to_owned());
    titles.push(" [2] Real-Time Chart ".to_owned());
    titles.push(" [3] Minute Chart ".to_owned());
    TabBar {
        titles,
        selected: current.index(),
        style: Style { fg: Color::Gray, bold: false },
        highlight: Style { fg: Color::Cyan, bold: true },
        divider: "|".to_owned(),
        title: span(
            " Tabs (click / 1·2·3 / ←→ / Tab) | q — quit ".to_owned(),
            Color::DarkGray,
            false,
        ),
        border: Color::White,
    }
}

/// The page of hosts has an item for each host, in their order. Each of its
/// cores, and its name and memory, are found on the lines of the item.
pub proof fn every_host_has_its_item(page: HostList, hosts: Seq<HostRow<String>>, i: int, c: int)
    requires
        is_host_page(page, hosts),
        0 <= i < hosts.len(),
    ensures
        page.title.text@ == " Connected Agents "@,
        page.title.style.fg == Color::Magenta,
        !page.title.style.bold,
        page.border == Color::White,
        page.items@.len() == hosts.len(),
        page.items@[i]@.len() == hosts[i].cores@.len() + 2,
        ({
            let spans = page.items@[i]@[0].spans@;
            &&& spans.len() == 2
            &&& spans[0].text@ == " HOST: "@ + hosts[i].hostname@ + " "@
            &&& spans[1].text@ == "| MEM: "@ + hosts[i].memory_gb@ + " Gb"@
        }),
        0 <= c < hosts[i].cores@.len() ==> {
            let spans = page.items@[i]@[c + 1].spans@;
            &&& spans.len() == 2
            &&& spans[0].text@ == "  └─ Core "@ + decimal(hosts[i].cores@[c].0 as nat) + ": "@
            &&& spans[0].style.fg == hosts[i].color
            &&& spans[1].text@ == hosts[i].cores@[c].1@ + "%"@
            &&& spans[1].style.fg == Color::White
        },
{
    let lines = page.items@[i]@;
    assert(lines_view(lines) == host_lines(hosts[i]));
    lines_are_taken_whole(lines);
    the_lines_of_a_host_begin_with_its_name(hosts[i]);
    assert(lines_view(lines)[0] == lines[0]@);
    a_line_is_taken_whole(lines[0]);
    assert(lines[0]@[0].text == lines[0].spans@[0].text@);
    assert(lines[0]@[1].text == lines[0].spans@[1].text@);
    if 0 <= c < hosts[i].cores@.len() {
        every_core_has_its_line(hosts[i], c);
        assert(lines_view(lines)[c + 1] == lines[c + 1]@);
        a_line_is_taken_whole(lines[c + 1]);
        assert(lines[c + 1]@[0].text == lines[c + 1].spans@[0].text@);
        assert(lines[c + 1]@[1].text == lines[c + 1].spans@[1].text@);
    }
}

/// Ordinary and bold print differ in nothing but that.
pub proof fn print_is_plain_or_strong(fg: Color)
    ensures
        plain(fg).fg == fg,
        !plain(fg).bold,
        strong(fg).fg == fg,
        strong(fg).bold,
{
}

/// As mathematical values a notice, an axis and a frame are what their fields hold.
pub proof fn frames_are_taken_whole(notice: Notice, axis: Axis, frame: ChartFrame)
    ensures
        notice@.text.text == notice.text.text@,
        notice@.text.style == notice.text.style,
        notice@.title is Some <==> notice.title is Some,
        notice.title is Some ==> notice@.title->0 == notice.title->0@,
        notice@.border == notice.border,
        axis@.title == axis.title@,
        axis@.color == axis.color,
        axis@.low == axis.low,
        axis@.high == axis.high,
        axis@.labels.len() == axis.labels@.len(),
        forall|i: int|
            0 <= i < axis.labels@.len() ==> #[trigger] axis@.labels[i] == axis.labels@[i]@,
        frame@.title.text == frame.title.text@,
        frame@.title.style == frame.title.style,
        frame@.border == frame.border,
        frame@.x_axis == frame.x_axis@,
        frame@.y_axis == frame.y_axis@,
{
}

/// Both charts run from nothing to a hundred percent, and from their left edge,
/// which is zero, to whatever right edge they are given.
pub proof fn charts_span_what_they_are_given(max_x: int)
    ensures
        realtime_frame(max_x).x_axis.low == 0,
        realtime_frame(max_x).x_axis.high == max_x,
        realtime_frame(max_x).y_axis.low == 0,
        realtime_frame(max_x).y_axis.high == 100,
        minute_frame(max_x).x_axis.low == 0,
        minute_frame(max_x).x_axis.high == max_x,
        minute_frame(max_x).y_axis.low == 0,
        minute_frame(max_x).y_axis.high == 100,
{
}

/// The texts and colours of a chart do not depend on how wide it is.
pub proof fn charts_look_alike_at_any_width(a: int, b: int)
    ensures
        realtime_frame(a).title == realtime_frame(b).title,
        realtime_frame(a).border == realtime_frame(b).border,
        realtime_frame(a).y_axis == realtime_frame(b).y_axis,
        realtime_frame(a).x_axis.title == realtime_frame(b).x_axis.title,
        realtime_frame(a).x_axis.color == realtime_frame(b).x_axis.color,
        realtime_frame(a).x_axis.labels == realtime_frame(b).x_axis.labels,
        minute_frame(a).title == minute_frame(b).title,
        minute_frame(a).border == minute_frame(b).border,
        minute_frame(a).y_axis == minute_frame(b).y_axis,
        minute_frame(a).x_axis.title == minute_frame(b).x_axis.title,
        minute_frame(a).x_axis.color == minute_frame(b).x_axis.color,
        minute_frame(a).x_axis.labels == minute_frame(b).x_axis.labels,
{
}

/// The page of the real-time chart shows a chart if and only if there is a line
/// to draw. It then plots every line with all of its points and in its colour,
/// and is as wide as was worked out.
pub proof fn the_realtime_page_plots_every_line<F, G>(page: ChartPage<'_, G>, rs: RenderState<F, G>)
    requires
        is_realtime_page(page, rs),
    ensures
        page is Chart <==> rs.realtime@.len() > 0,
        page is Chart ==> {
            &&& page->frame.x_axis.low == 0
            &&& page->frame.x_axis.high == rs.realtime_max_x
            &&& page->frame.y_axis.low == 0
            &&& page->frame.y_axis.high == 100
            &&& page->plots@.len() == rs.realtime@.len()
            &&& forall|i: int|
                0 <= i < rs.realtime@.len() ==> {
                    &&& (#[trigger] page->plots@[i]).name@ == rs.realtime@[i].label@
                    &&& page->plots@[i].color == rs.realtime@[i].color
                    &&& page->plots@[i].points@.len() == rs.realtime@[i].points@.len()
                    &&& page->plots@[i].points@ == rs.realtime@[i].points@
                    &&& page->plots@[i].marker == Marker::Braille
                    &&& page->plots@[i].graph_type == GraphType::Line
                }
        },
{
}

/// The page of the minute chart shows a chart if and only if there is a line to
/// draw. It then plots every line with all of its points and in its colour, and
/// is as wide as was worked out.
pub proof fn the_minute_page_plots_every_line<F, G>(page: ChartPage<'_, G>, rs: RenderState<F, G>)
    requires
        is_minute_page(page, rs),
    ensures
        page is Chart <==> rs.minute@.len() > 0,
        page is Chart ==> {
            &&& page->frame.x_axis.low == 0
            &&& page->frame.x_axis.high == rs.minute_max_x
            &&& page->frame.y_axis.low == 0
            &&& page->frame.y_axis.high == 100
            &&& page->plots@.len() == rs.minute@.len()
            &&& forall|i: int|
                0 <= i < rs.minute@.len() ==> {
                    &&& (#[trigger] page->plots@[i]).name@ == rs.minute@[i].label@
                    &&& page->plots@[i].color == rs.minute@[i].color
                    &&& page->plots@[i].points@.len() == rs.minute@[i].points@.len()
                    &&& page->plots@[i].points@ == rs.minute@[i].points@
                    &&& page->plots@[i].marker == Marker::Braille
                    &&& page->plots@[i].graph_type == GraphType::Line
                }
        },
{
}

/// Both charts are dressed alike, at any width: a white frame with a bold title
/// in cyan, and gray axes, the vertical ones of which are the same. So are both
/// notices: a white frame round an ordinary text in dark gray.
pub proof fn both_charts_are_dressed_alike(a: int, b: int)
    ensures
        realtime_frame(a).border == Color::White,
        minute_frame(b).border == Color::White,
        realtime_frame(a).title.style.fg == Color::Cyan,
        realtime_frame(a).title.style.bold,
        minute_frame(b).title.style == realtime_frame(a).title.style,
        realtime_frame(a).x_axis.color == Color::Gray,
        minute_frame(b).x_axis.color == Color::Gray,
        realtime_frame(a).y_axis.color == Color::Gray,
        minute_frame(b).y_axis == realtime_frame(a).y_axis,
        realtime_notice().border == Color::White,
        minute_notice().border == Color::White,
        realtime_notice().text.style.fg == Color::DarkGray,
        !realtime_notice().text.style.bold,
        minute_notice().text.style == realtime_notice().text.style,
{
}

} // verus!
