use aether_dev::domain::{GitStatus, Project, ServiceState, ServiceStatus, Stack};
use aether_dev::tui::{key_hints, needs_scrollbar, Dashboard, Paint, StyledLine, Tab, Update, Width};
use ratatui::backend::TestBackend;
use ratatui::buffer::Buffer;
use ratatui::layout::{Alignment, Constraint, Layout, Margin, Rect};
use ratatui::style::{Color, Modifier, Style};
use ratatui::text::{Line, Span};
use ratatui::widgets::{
    Block, Cell, Padding, Paragraph, Row, Scrollbar, ScrollbarOrientation, ScrollbarState, Table,
    TableState, Tabs,
};
use ratatui::{Frame, Terminal};

fn style(paint: Paint) -> Style {
    match paint {
        Paint::Plain => Style::default(),
        Paint::Heading => Style::default().fg(Color::Cyan),
        Paint::Muted => Style::default().fg(Color::DarkGray),
        Paint::Good => Style::default().fg(Color::Green),
        Paint::Ready => Style::default()
            .fg(Color::Green)
            .add_modifier(Modifier::BOLD),
        Paint::Waiting => Style::default().fg(Color::Yellow),
        Paint::Bad => Style::default().fg(Color::Red),
        Paint::Changed => Style::default().fg(Color::Yellow),
        Paint::Untracked => Style::default().fg(Color::Blue),
    }
}

fn line(styled: &StyledLine) -> Line<'static> {
    Line::from(
        styled
            .spans
            .iter()
            .map(|span| Span::styled(span.text.clone(), style(span.paint)))
            .collect::<Vec<_>>(),
    )
}

fn draw_list(dashboard: &Dashboard, frame: &mut Frame, area: Rect) {
    let columns = dashboard.tab().columns();
    let header: Vec<&str> = columns.iter().map(|column| column.0).collect();
    let widths: Vec<Constraint> = columns
        .iter()
        .map(|column| match column.1 {
            Width::Fill(share) => Constraint::Fill(share),
            Width::Length(length) => Constraint::Length(length),
        })
        .collect();
    let rows: Vec<Row> = dashboard
        .list_rows()
        .iter()
        .map(|row| Row::new(row.cells.iter().map(|cell| Cell::from(line(cell)))))
        .collect();
    let table = Table::new(rows, widths)
        .header(
            Row::new(header).style(style(Paint::Muted).add_modifier(Modifier::BOLD)),
        )
        .block(
            Block::bordered()
                .border_style(style(Paint::Muted))
                .padding(Padding::horizontal(1))
                .title(Span::styled(
                    format!(" {} ", dashboard.tab().label()),
                    style(Paint::Heading).add_modifier(Modifier::BOLD),
                )),
        )
        .column_spacing(2)
        .row_highlight_style(Style::default().add_modifier(Modifier::REVERSED));
    let mut state = TableState::default().with_selected(Some(dashboard.selected()));
    frame.render_stateful_widget(table, area, &mut state);

    if needs_scrollbar(dashboard.row_count(), area.height) {
        let mut position = ScrollbarState::new(dashboard.row_count()).position(dashboard.selected());
        frame.render_stateful_widget(
            Scrollbar::new(ScrollbarOrientation::VerticalRight)
                .begin_symbol(None)
                .end_symbol(None)
                .track_symbol(Some("│"))
                .track_style(style(Paint::Muted))
                .thumb_style(style(Paint::Heading)),
            area.inner(Margin {
                vertical: 1,
                horizontal: 0,
            }),
            &mut position,
        );
    }
}

fn draw(dashboard: &Dashboard, frame: &mut Frame) {
    let [top, middle, bottom] = Layout::vertical([
        Constraint::Length(1),
        Constraint::Fill(1),
        Constraint::Length(1),
    ])
    .areas(frame.area());
    let [status, keys] =
        Layout::horizontal([Constraint::Fill(1), Constraint::Length(46)]).areas(bottom);
    let labels: Vec<&str> = Tab::all().into_iter().map(Tab::label).collect();
    frame.render_widget(
        Tabs::new(labels)
            .select(dashboard.tab().index())
            .style(style(Paint::Muted))
            .highlight_style(style(Paint::Heading).add_modifier(Modifier::BOLD))
            .divider(Span::styled("·", style(Paint::Muted))),
        top,
    );
    draw_list(dashboard, frame, middle);
    frame.render_widget(Paragraph::new(line(&dashboard.status_line())), status);
    frame.render_widget(
        Paragraph::new(Line::from(Span::styled(key_hints(), style(Paint::Muted))))
            .alignment(Alignment::Right),
        keys,
    );
}

fn project(name: &str) -> Project {
    Project {
        name: name.to_string(),
        category: Some("group".to_string()),
        path: name.to_string(),
        stack: Stack::Rust,
        framework: None,
        git: GitStatus::clean("main"),
    }
}

fn service(name: &str, port: u16, open: bool) -> ServiceStatus {
    ServiceStatus {
        container: format!("{name}-1"),
        service: name.to_string(),
        port: Some(port),
        state: ServiceState::Running,
        port_open: open,
        memory_bytes: None,
    }
}

fn with_projects(count: usize) -> Dashboard {
    let mut dashboard = Dashboard::new();
    for index in 0..count {
        dashboard.apply(Update::Project(project(&format!("p{index}"))));
    }
    dashboard.apply(Update::ScanFinished { scanned: count });
    dashboard
}

/// Draws onto a terminal that only exists in memory, so the tests can
/// assert on what a user would actually see rather than on internals.
fn drawn(dashboard: &mut Dashboard, width: u16, height: u16) -> Buffer {
    let mut terminal = Terminal::new(TestBackend::new(width, height)).unwrap();
    terminal.draw(|frame| draw(dashboard, frame)).unwrap();
    terminal.backend().buffer().clone()
}

fn lines(buffer: &Buffer) -> Vec<String> {
    (0..buffer.area.height)
        .map(|y| {
            (0..buffer.area.width)
                .map(|x| buffer[(x, y)].symbol())
                .collect::<String>()
        })
        .collect()
}

fn screen(buffer: &Buffer) -> String {
    lines(buffer).join("\n")
}

/// The style of the row whose text contains `needle`, taken from a cell
/// well inside it so the border is not what gets measured.
fn row_style(buffer: &Buffer, needle: &str) -> Option<Style> {
    lines(buffer)
        .iter()
        .position(|line| line.contains(needle))
        .map(|y| buffer[(2, y as u16)].style())
}

#[test]
fn projects_accumulate_as_they_arrive_rather_than_all_at_once() {
    let mut dashboard = Dashboard::new();
    assert_eq!(dashboard.row_count(), 0);
    dashboard.apply(Update::Project(project("alpha")));
    assert_eq!(dashboard.row_count(), 1);
    dashboard.apply(Update::Project(project("beta")));
    assert_eq!(dashboard.row_count(), 2);
}

#[test]
fn a_scan_is_marked_loading_until_it_reports_its_total() {
    let mut dashboard = Dashboard::new();
    assert!(dashboard.is_scanning());
    dashboard.apply(Update::Project(project("alpha")));
    assert!(
        dashboard.is_scanning(),
        "one result is not the end of the scan"
    );
    dashboard.apply(Update::ScanFinished { scanned: 4 });
    assert!(!dashboard.is_scanning());
}

#[test]
fn the_selection_cannot_leave_the_list() {
    let mut dashboard = with_projects(3);
    dashboard.move_selection(-1);
    assert_eq!(dashboard.selected(), 0, "moving up from the top must stay");
    dashboard.move_selection(10);
    assert_eq!(
        dashboard.selected(),
        2,
        "moving past the end must stop at the last row"
    );
}

#[test]
fn an_empty_list_keeps_the_selection_at_zero_instead_of_underflowing() {
    let mut dashboard = Dashboard::new();
    dashboard.move_selection(1);
    dashboard.move_selection(-1);
    assert_eq!(dashboard.selected(), 0);
}

#[test]
fn switching_tabs_resets_the_selection_so_it_cannot_point_past_a_shorter_list() {
    let mut dashboard = with_projects(5);
    dashboard.move_selection(4);
    assert_eq!(dashboard.selected(), 4);
    dashboard.next_tab();
    assert_eq!(dashboard.tab(), Tab::Services);
    assert_eq!(dashboard.selected(), 0);
}

#[test]
fn the_tabs_cycle_back_around() {
    let mut dashboard = Dashboard::new();
    assert_eq!(dashboard.tab(), Tab::Projects);
    dashboard.next_tab();
    dashboard.next_tab();
    assert_eq!(dashboard.tab(), Tab::Ports);
    dashboard.next_tab();
    assert_eq!(dashboard.tab(), Tab::Projects);
}

#[test]
fn ports_shows_only_services_that_publish_one() {
    let mut dashboard = Dashboard::new();
    let mut quiet = service("internal", 0, false);
    quiet.port = None;
    dashboard.apply(Update::Services(vec![service("mysql", 3306, true), quiet]));
    dashboard.next_tab();
    assert_eq!(dashboard.row_count(), 2, "services lists everything");
    dashboard.next_tab();
    assert_eq!(
        dashboard.row_count(),
        1,
        "ports lists only what is published"
    );
}

#[test]
fn a_docker_failure_is_shown_as_a_failure_not_as_zero_services() {
    let mut dashboard = Dashboard::new();
    dashboard.apply(Update::ServicesFailed("connection refused".to_string()));
    dashboard.next_tab();
    let view = screen(&drawn(&mut dashboard, 90, 12));
    assert!(
        view.contains("connection refused"),
        "the reason must reach the screen"
    );
    assert!(
        !view.contains("0 services"),
        "an unreachable daemon must not read as a daemon with nothing running"
    );
}

#[test]
fn the_view_reports_the_denominator_not_only_the_findings() {
    let mut dashboard = with_projects(0);
    let view = screen(&drawn(&mut dashboard, 90, 12));
    assert!(
        view.contains("0 projects") && view.contains("examined"),
        "'no projects' and 'nothing was examined' must not read the same"
    );
}

#[test]
fn the_current_row_is_drawn_differently_from_the_others() {
    let mut dashboard = with_projects(3);
    dashboard.move_selection(1);
    let buffer = drawn(&mut dashboard, 90, 12);

    let current = row_style(&buffer, "p1").expect("the selected row is on screen");
    let other = row_style(&buffer, "p2").expect("another row is on screen");
    assert_ne!(
        current, other,
        "a list where the current row looks like every other row cannot be navigated"
    );
}

#[test]
fn a_long_list_scrolls_to_keep_the_current_row_on_screen() {
    let mut dashboard = with_projects(200);
    dashboard.move_selection(150);
    let view = screen(&drawn(&mut dashboard, 90, 12));
    assert!(
        view.contains("p150"),
        "a selection the list has scrolled past is a selection nobody can see"
    );
}

#[test]
fn a_service_that_is_ready_is_not_drawn_like_one_that_is_stopped() {
    let mut dashboard = Dashboard::new();
    let mut stopped = service("redis", 6379, false);
    stopped.state = ServiceState::Stopped;
    dashboard.apply(Update::Services(vec![
        service("mysql", 3306, true),
        stopped,
    ]));
    dashboard.next_tab();
    let buffer = drawn(&mut dashboard, 90, 12);
    let view = screen(&buffer);

    assert!(view.contains("ready") && view.contains("stopped"));
    // Colour carries the same distinction the word does, so the state can
    // be read at a glance rather than word by word.
    let ready_row = lines(&buffer)
        .iter()
        .position(|line| line.contains("mysql"))
        .expect("mysql row");
    let stopped_row = lines(&buffer)
        .iter()
        .position(|line| line.contains("redis"))
        .expect("redis row");
    let rows = lines(&buffer);
    let ready_at = rows[ready_row].find("ready").expect("the word ready") as u16;
    let stopped_at = rows[stopped_row].find("stopped").expect("the word stopped") as u16;
    assert_ne!(
        buffer[(ready_at, ready_row as u16)].style().fg,
        buffer[(stopped_at, stopped_row as u16)].style().fg
    );
}

#[test]
fn the_tab_you_are_on_is_marked_in_the_strip() {
    let mut dashboard = Dashboard::new();
    let buffer = drawn(&mut dashboard, 90, 12);
    let strip = lines(&buffer)[0].clone();
    assert!(strip.contains("Projects") && strip.contains("Services"));

    let projects_at = strip.find("Projects").expect("Projects in the strip") as u16;
    let services_at = strip.find("Services").expect("Services in the strip") as u16;
    assert_ne!(
        buffer[(projects_at, 0)].style(),
        buffer[(services_at, 0)].style(),
        "if every tab looks the same, the strip does not say where you are"
    );
}

#[test]
fn the_frame_carries_the_name_of_the_list_being_shown() {
    let mut dashboard = with_projects(1);
    assert!(screen(&drawn(&mut dashboard, 90, 12)).contains("Projects"));
    dashboard.next_tab();
    assert!(screen(&drawn(&mut dashboard, 90, 12)).contains("Services"));
}

#[test]
fn a_list_that_fits_gets_no_scrollbar_and_a_longer_one_does() {
    let mut fits = with_projects(3);
    let mut overflows = with_projects(200);
    assert!(
        !screen(&drawn(&mut fits, 90, 12)).contains('█'),
        "a scrollbar on a list you can see all of takes a column and says nothing"
    );
    assert!(
        screen(&drawn(&mut overflows, 90, 12)).contains('█'),
        "without it there is no way to tell where in 200 rows you are"
    );
}
