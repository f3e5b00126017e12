//! The dashboard.
//!
//! State and drawing are separated on purpose. Everything the dashboard knows
//! is plain data; the layer that draws only turns it into cells and pushes keys
//! back in.
//!
//! Updates arrive as messages from collectors running elsewhere, and drawing
//! never waits on one.

use crate::domain::{
    GitStatus, GitStatusView, Project, ProjectView, ServiceState, ServiceStatus, ServiceStatusView,
    Stack,
};
use crate::text::{decimal, lemma_views_push, maybe_text, number_text, views};
use vstd::prelude::*;
use vstd::string::*;

verus! {

/// What a piece of text is drawn as: named by meaning rather than by colour, so
/// a row and the summary line below it cannot disagree about what "ready" looks
/// like.
#[derive(Debug, Clone, Copy, PartialEq, Eq, Structural)]
pub enum Paint {
    Plain,
    Heading,
    Muted,
    Good,
    /// Good, and worth noticing.
    Ready,
    Waiting,
    Bad,
    Changed,
    Untracked,
}

/// A piece of text and what it is drawn as.
#[derive(Debug, Clone, PartialEq, Eq)]
pub struct Styled {
    pub text: String,
    pub paint: Paint,
}

impl View for Styled {
    type V = (Seq<char>, Paint);

    open spec fn view(&self) -> (Seq<char>, Paint) {
        (self.text@, self.paint)
    }
}

/// A line made of pieces.
#[derive(Debug, Clone, PartialEq, Eq)]
pub struct StyledLine {
    pub spans: Vec<Styled>,
}

impl View for StyledLine {
    type V = Seq<(Seq<char>, Paint)>;

    open spec fn view(&self) -> Seq<(Seq<char>, Paint)> {
        views(self.spans@)
    }
}

/// A row made of cells.
#[derive(Debug, Clone, PartialEq, Eq)]
pub struct StyledRow {
    pub cells: Vec<StyledLine>,
}

impl View for StyledRow {
    type V = Seq<Seq<(Seq<char>, Paint)>>;

    open spec fn view(&self) -> Seq<Seq<(Seq<char>, Paint)>> {
        views(self.cells@)
    }
}

/// One piece on its own.
fn one(text: String, paint: Paint) -> (line: StyledLine)
    ensures
        line@ == seq![(text@, paint)],
{
    let line = StyledLine { spans: vec![Styled { text, paint }] };
    assert(line@ =~= seq![(text@, paint)]);
    line
}

/// How much room a column takes.
#[derive(Debug, Clone, Copy, PartialEq, Eq, Structural)]
pub enum Width {
    /// A share of what is left over.
    Fill(u16),
    /// A number of characters.
    Length(u16),
}

#[derive(Debug, Clone, Copy, PartialEq, Eq, Structural)]
pub enum Tab {
    Projects,
    Services,
    Ports,
}

impl Tab {
    /// The name on the strip.
    pub open spec fn name(self) -> Seq<char> {
        match self {
            Tab::Projects => "Projects"@,
            Tab::Services => "Services"@,
            Tab::Ports => "Ports"@,
        }
    }

    /// The place on the strip.
    pub open spec fn place(self) -> usize {
        match self {
            Tab::Projects => 0,
            Tab::Services => 1,
            Tab::Ports => 2,
        }
    }

    /// The tab after this one.
    pub open spec fn following(self) -> Tab {
        match self {
            Tab::Projects => Tab::Services,
            Tab::Services => Tab::Ports,
            Tab::Ports => Tab::Projects,
        }
    }

    pub fn label(self) -> (label: &'static str)
        ensures
            label@ == self.name(),
    {
        match self {
            Tab::Projects => "Projects",
            Tab::Services => "Services",
            Tab::Ports => "Ports",
        }
    }

    pub fn index(self) -> (index: usize)
        ensures
            index == self.place(),
    {
        match self {
            Tab::Projects => 0,
            Tab::Services => 1,
            Tab::Ports => 2,
        }
    }

    pub fn next(self) -> (tab: Tab)
        ensures
            tab == self.following(),
    {
        match self {
            Tab::Projects => Tab::Services,
            Tab::Services => Tab::Ports,
            Tab::Ports => Tab::Projects,
        }
    }

    pub fn previous(self) -> (tab: Tab)
        ensures
            tab.following() == self,
    {
        match self {
            Tab::Projects => Tab::Ports,
            Tab::Services => Tab::Projects,
            Tab::Ports => Tab::Services,
        }
    }

    /// Every tab, in the order of the strip.
    pub fn all() -> (tabs: Vec<Tab>)
        ensures
            tabs@ == seq![Tab::Projects, Tab::Services, Tab::Ports],
    {
        vec![Tab::Projects, Tab::Services, Tab::Ports]
    }

    /// The columns of the list. They differ per tab rather than being padded to
    /// a common shape: empty columns take the width that the branch names need.
    pub open spec fn column_list(self) -> Seq<(Seq<char>, Width)> {
        match self {
            Tab::Projects => seq![
                ("PROJECT"@, Width::Fill(3)),
                ("GROUP"@, Width::Length(12)),
                ("FRAMEWORK"@, Width::Length(17)),
                ("BRANCH"@, Width::Fill(3)),
                ("CHANGES"@, Width::Length(10)),
            ],
            Tab::Services => seq![
                ("SERVICE"@, Width::Length(18)),
                ("CONTAINER"@, Width::Fill(1)),
                ("PORT"@, Width::Length(7)),
                ("STATE"@, Width::Length(9)),
            ],
            Tab::Ports => seq![
                ("PORT"@, Width::Length(7)),
                ("SERVICE"@, Width::Length(26)),
                ("ANSWERS"@, Width::Fill(1)),
            ],
        }
    }

    /// The columns of the list.
    pub fn columns(self) -> (columns: Vec<(&'static str, Width)>)
        ensures
            columns@.map_values(|column: (&'static str, Width)| (column.0@, column.1))
                == self.column_list(),
    {
        let columns: Vec<(&'static str, Width)> = match self {
            Tab::Projects => vec![
                ("PROJECT", Width::Fill(3)),
                ("GROUP", Width::Length(12)),
                ("FRAMEWORK", Width::Length(17)),
                ("BRANCH", Width::Fill(3)),
                ("CHANGES", Width::Length(10)),
            ],
            Tab::Services => vec![
                ("SERVICE", Width::Length(18)),
                ("CONTAINER", Width::Fill(1)),
                ("PORT", Width::Length(7)),
                ("STATE", Width::Length(9)),
            ],
            Tab::Ports => vec![
                ("PORT", Width::Length(7)),
                ("SERVICE", Width::Length(26)),
                ("ANSWERS", Width::Fill(1)),
            ],
        };
        assert(columns@.map_values(|column: (&'static str, Width)| (column.0@, column.1))
            =~= self.column_list());
        columns
    }
}

/// Something a collector learned. Collectors never touch the dashboard
/// directly; they send one of these and carry on working.
#[derive(Debug)]
pub enum Update {
    Project(Project),
    ScanFailed { path: String, reason: String },
    ScanFinished { scanned: usize },
    Services(Vec<ServiceStatus>),
    ServicesFailed(String),
}

/// What an update says.
#[verifier::ext_equal]
pub enum UpdateView {
    Project(ProjectView),
    ScanFailed { path: Seq<char>, reason: Seq<char> },
    ScanFinished { scanned: usize },
    Services(Seq<ServiceStatusView>),
    ServicesFailed(Seq<char>),
}

impl View for Update {
    type V = UpdateView;

    open spec fn view(&self) -> UpdateView {
        match self {
            Update::Project(project) => UpdateView::Project(project@),
            Update::ScanFailed { path, reason } => UpdateView::ScanFailed {
                path: path@,
                reason: reason@,
            },
            Update::ScanFinished { scanned } => UpdateView::ScanFinished { scanned: *scanned },
            Update::Services(services) => UpdateView::Services(views(services@)),
            Update::ServicesFailed(reason) => UpdateView::ServicesFailed(reason@),
        }
    }
}

pub struct Dashboard {
    projects: Vec<Project>,
    scan_failures: Vec<(String, String)>,
    scanned: Option<usize>,
    services: Vec<ServiceStatus>,
    services_error: Option<String>,
    tab: Tab,
    selected: usize,
}

/// What a dashboard knows.
#[verifier::ext_equal]
pub struct DashboardView {
    pub projects: Seq<ProjectView>,
    pub scan_failures: Seq<(Seq<char>, Seq<char>)>,
    pub scanned: Option<usize>,
    pub services: Seq<ServiceStatusView>,
    pub services_error: Option<Seq<char>>,
    pub tab: Tab,
    pub selected: usize,
}

impl View for Dashboard {
    type V = DashboardView;

    closed spec fn view(&self) -> DashboardView {
        DashboardView {
            projects: views(self.projects@),
            scan_failures: views(self.scan_failures@),
            scanned: self.scanned,
            services: views(self.services@),
            services_error: maybe_text(self.services_error),
            tab: self.tab,
            selected: self.selected,
        }
    }
}

/// The services that publish a port.
pub open spec fn published_in(services: Seq<ServiceStatusView>) -> Seq<ServiceStatusView> {
    services.filter(|service: ServiceStatusView| service.port is Some)
}

impl DashboardView {
    /// A dashboard that has heard nothing yet.
    pub open spec fn fresh() -> DashboardView {
        DashboardView {
            projects: seq![],
            scan_failures: seq![],
            scanned: None,
            services: seq![],
            services_error: None,
            tab: Tab::Projects,
            selected: 0,
        }
    }

    /// How many rows the list has.
    pub open spec fn rows(self) -> nat {
        match self.tab {
            Tab::Projects => self.projects.len(),
            Tab::Services => self.services.len(),
            Tab::Ports => published_in(self.services).len(),
        }
    }

    /// The dashboard once it has heard an update.
    pub open spec fn after(self, update: UpdateView) -> DashboardView {
        match update {
            UpdateView::Project(project) => DashboardView {
                projects: self.projects.push(project),
                ..self
            },
            UpdateView::ScanFailed { path, reason } => DashboardView {
                scan_failures: self.scan_failures.push((path, reason)),
                ..self
            },
            UpdateView::ScanFinished { scanned } => DashboardView { scanned: Some(scanned), ..self },
            UpdateView::Services(services) => DashboardView {
                services,
                services_error: None,
                ..self
            },
            UpdateView::ServicesFailed(reason) => DashboardView {
                services_error: Some(reason),
                ..self
            },
        }
    }

    /// The project the cursor is on, where the list holds projects.
    pub open spec fn current_project(self) -> Option<ProjectView> {
        if self.tab == Tab::Projects && self.selected < self.projects.len() {
            Some(self.projects[self.selected as int])
        } else {
            None
        }
    }

    /// The service the cursor is on, where the list holds services or the ports
    /// they publish.
    pub open spec fn current_service(self) -> Option<ServiceStatusView> {
        let listed = match self.tab {
            Tab::Projects => seq![],
            Tab::Services => self.services,
            Tab::Ports => published_in(self.services),
        };
        if self.selected < listed.len() {
            Some(listed[self.selected as int])
        } else {
            None
        }
    }

    /// The dashboard on another tab. A row number taken from a longer list
    /// would point past the end of a shorter one, so it does not survive.
    pub open spec fn on(self, tab: Tab) -> DashboardView {
        DashboardView { tab, selected: 0, ..self }
    }

    /// The row that moving by `delta` leads to: never above the first, never
    /// below the last.
    pub open spec fn moved(self, delta: int) -> int {
        let target = self.selected + delta;
        let last = if self.rows() == 0 {
            0
        } else {
            self.rows() - 1
        };
        if target < 0 {
            0
        } else if target > last {
            last
        } else {
            target
        }
    }

    /// How many of these services are usable.
    pub open spec fn ready_count(self) -> nat {
        self.services.filter(|service: ServiceStatusView| service.reachable()).len()
    }

    /// How many published ports answer.
    pub open spec fn answering_count(self) -> nat {
        published_in(self.services).filter(|service: ServiceStatusView| service.port_open).len()
    }

    /// The line that says what the numbers add up to.
    pub open spec fn status(self) -> Seq<(Seq<char>, Paint)> {
        match self.tab {
            Tab::Projects => {
                let examined = match self.scanned {
                    Some(count) => decimal(count as nat) + " directories examined"@,
                    None => "scanning…"@,
                };
                let counted = seq![
                    (" "@ + decimal(self.projects.len()) + " projects"@, Paint::Good),
                    (" · "@ + examined, Paint::Muted),
                ];
                if self.scan_failures.len() > 0 {
                    counted.push(
                        (
                            " · "@ + decimal(self.scan_failures.len()) + " unreadable"@,
                            Paint::Bad,
                        ),
                    )
                } else {
                    counted
                }
            },
            _ => match self.services_error {
                Some(reason) => seq![(" docker unreachable: "@ + reason, Paint::Bad)],
                None => if self.tab == Tab::Services {
                    seq![
                        (" "@ + decimal(self.ready_count()) + " ready"@, Paint::Good),
                        (" · "@ + decimal(self.services.len()) + " services"@, Paint::Muted),
                    ]
                } else {
                    seq![
                        (" "@ + decimal(self.answering_count()) + " answering"@, Paint::Good),
                        (
                            " · "@ + decimal(published_in(self.services).len()) + " published"@,
                            Paint::Muted,
                        ),
                    ]
                },
            },
        }
    }
}

/// The name of a stack.
pub open spec fn stack_name(stack: Stack) -> Seq<char> {
    match stack {
        Stack::Laravel => "Laravel"@,
        Stack::Php => "Php"@,
        Stack::Node => "Node"@,
        Stack::Go => "Go"@,
        Stack::Rust => "Rust"@,
        Stack::Python => "Python"@,
        Stack::Unknown => "Unknown"@,
    }
}

/// The name of a stack.
pub fn stack_label(stack: Stack) -> (label: &'static str)
    ensures
        label@ == stack_name(stack),
{
    match stack {
        Stack::Laravel => "Laravel",
        Stack::Php => "Php",
        Stack::Node => "Node",
        Stack::Go => "Go",
        Stack::Rust => "Rust",
        Stack::Python => "Python",
        Stack::Unknown => "Unknown",
    }
}

/// The framework where it is known, else the stack.
pub open spec fn built_with(project: ProjectView) -> Seq<char> {
    match project.framework {
        Some(framework) => framework,
        None => stack_name(project.stack),
    }
}

/// The framework where it is known, else the stack.
pub fn framework_label(project: &Project) -> (label: String)
    ensures
        label@ == built_with(project@),
{
    match &project.framework {
        Some(framework) => framework.clone(),
        None => stack_label(project.stack).to_owned(),
    }
}

/// A text, or a dash where there is none.
pub open spec fn or_dash(text: Option<Seq<char>>) -> Seq<char> {
    match text {
        Some(text) => text,
        None => "-"@,
    }
}

/// A text, or a dash where there is none.
pub fn text_or_dash(text: &Option<String>) -> (shown: String)
    ensures
        shown@ == or_dash(maybe_text(*text)),
{
    match text {
        Some(text) => text.clone(),
        None => "-".to_owned(),
    }
}

/// A port, or a dash where there is none.
pub open spec fn port_or_dash(port: Option<u16>) -> Seq<char> {
    match port {
        Some(port) => decimal(port as nat),
        None => "-"@,
    }
}

/// A port, or a dash where there is none.
pub fn port_text(port: Option<u16>) -> (shown: String)
    ensures
        shown@ == port_or_dash(port),
{
    match port {
        Some(port) => number_text(port as u64),
        None => "-".to_owned(),
    }
}

/// Tracked changes and untracked files, coloured apart because they mean
/// different things: one is work in progress, the other is work not yet known
/// to git at all.
pub open spec fn change_spans(git: GitStatusView) -> Seq<(Seq<char>, Paint)> {
    let changed = ("*"@ + decimal(git.modified as nat), Paint::Changed);
    let added = ("?"@ + decimal(git.untracked as nat), Paint::Untracked);
    if git.modified > 0 && git.untracked > 0 {
        seq![changed, (" "@, Paint::Plain), added]
    } else if git.modified > 0 {
        seq![changed]
    } else if git.untracked > 0 {
        seq![added]
    } else {
        seq![]
    }
}

/// Tracked changes and untracked files.
pub fn changes(git: &GitStatus) -> (line: StyledLine)
    ensures
        line@ == change_spans(git@),
{
    broadcast use lemma_views_push;

    let mut spans: Vec<Styled> = Vec::new();
    if git.modified > 0 {
        let mut text = "*".to_owned();
        text.append(number_text(git.modified as u64).as_str());
        spans.push(Styled { text, paint: Paint::Changed });
    }
    if git.untracked > 0 {
        if git.modified > 0 {
            spans.push(Styled { text: " ".to_owned(), paint: Paint::Plain });
        }
        let mut text = "?".to_owned();
        text.append(number_text(git.untracked as u64).as_str());
        spans.push(Styled { text, paint: Paint::Untracked });
    }
    let line = StyledLine { spans };
    assert(line@ =~= change_spans(git@));
    line
}

/// What a service's condition is drawn as.
pub open spec fn condition_paint(service: ServiceStatusView) -> Paint {
    if service.state != ServiceState::Running {
        Paint::Muted
    } else if service.port_open {
        Paint::Ready
    } else {
        Paint::Waiting
    }
}

/// What a service's condition is drawn as.
pub fn condition_style(service: &ServiceStatus) -> (paint: Paint)
    ensures
        paint == condition_paint(service@),
{
    match service.state {
        ServiceState::Running => if service.port_open {
            Paint::Ready
        } else {
            Paint::Waiting
        },
        _ => Paint::Muted,
    }
}

/// The row of a project.
pub open spec fn project_cells(project: ProjectView) -> Seq<Seq<(Seq<char>, Paint)>> {
    seq![
        seq![(project.name, Paint::Plain)],
        seq![(or_dash(project.category), Paint::Muted)],
        seq![(built_with(project), Paint::Heading)],
        seq![(or_dash(project.git.branch), Paint::Plain)],
        change_spans(project.git),
    ]
}

/// The row of a service.
pub open spec fn service_cells(service: ServiceStatusView) -> Seq<Seq<(Seq<char>, Paint)>> {
    seq![
        seq![(service.service, Paint::Plain)],
        seq![(service.container, Paint::Muted)],
        seq![(port_or_dash(service.port), Paint::Plain)],
        seq![(service.condition_word(), condition_paint(service))],
    ]
}

/// The row of a published port.
pub open spec fn port_cells(service: ServiceStatusView) -> Seq<Seq<(Seq<char>, Paint)>> {
    seq![
        seq![(port_or_dash(service.port), Paint::Plain)],
        seq![(service.service, Paint::Plain)],
        seq![
            if service.port_open {
                ("answering"@, Paint::Good)
            } else {
                ("no answer"@, Paint::Bad)
            },
        ],
    ]
}

fn project_row(project: &Project) -> (row: StyledRow)
    ensures
        row@ == project_cells(project@),
{
    let row = StyledRow {
        cells: vec![
            one(project.name.clone(), Paint::Plain),
            one(text_or_dash(&project.category), Paint::Muted),
            one(framework_label(project), Paint::Heading),
            one(text_or_dash(&project.git.branch), Paint::Plain),
            changes(&project.git),
        ],
    };
    assert(row@ =~= project_cells(project@));
    row
}

fn service_row(service: &ServiceStatus) -> (row: StyledRow)
    ensures
        row@ == service_cells(service@),
{
    let row = StyledRow {
        cells: vec![
            one(service.service.clone(), Paint::Plain),
            one(service.container.clone(), Paint::Muted),
            one(port_text(service.port), Paint::Plain),
            one(service.condition().to_owned(), condition_style(service)),
        ],
    };
    assert(row@ =~= service_cells(service@));
    row
}

fn port_row(service: &ServiceStatus) -> (row: StyledRow)
    ensures
        row@ == port_cells(service@),
{
    let answer = if service.port_open {
        one("answering".to_owned(), Paint::Good)
    } else {
        one("no answer".to_owned(), Paint::Bad)
    };
    let row = StyledRow {
        cells: vec![
            one(port_text(service.port), Paint::Plain),
            one(service.service.clone(), Paint::Plain),
            answer,
        ],
    };
    assert(row@ =~= port_cells(service@));
    row
}

/// The rows of the list.
pub open spec fn row_cells(dashboard: DashboardView) -> Seq<Seq<Seq<(Seq<char>, Paint)>>> {
    match dashboard.tab {
        Tab::Projects => dashboard.projects.map_values(|project: ProjectView| project_cells(project)),
        Tab::Services => dashboard.services.map_values(
            |service: ServiceStatusView| service_cells(service),
        ),
        Tab::Ports => published_in(dashboard.services).map_values(
            |service: ServiceStatusView| port_cells(service),
        ),
    }
}

/// Whether a list of this many rows needs a scrollbar in an area this high,
/// three lines of which are the frame and the heading. A scrollbar on a list
/// that is entirely visible tells the reader nothing and takes a column doing
/// it.
pub fn needs_scrollbar(rows: usize, height: u16) -> (needs: bool)
    ensures
        needs == (height > 3 && rows > height - 3),
{
    height > 3 && rows > (height - 3) as usize
}

/// The keys, as the last line shows them.
pub fn key_hints() -> (hints: &'static str)
    ensures
        hints@ == "tab/1-3 switch · j/k move · r refresh · q quit "@,
{
    "tab/1-3 switch · j/k move · r refresh · q quit "
}

/// A number between two words.
fn counted(before: &str, count: u64, after: &str) -> (text: String)
    ensures
        text@ == before@ + decimal(count as nat) + after@,
{
    let mut text = before.to_owned();
    text.append(number_text(count).as_str());
    text.append(after);
    text
}

impl Default for Dashboard {
    fn default() -> (dashboard: Self)
        ensures
            dashboard@ == DashboardView::fresh(),
    {
        Dashboard::new()
    }
}

impl Dashboard {
    pub fn new() -> (dashboard: Self)
        ensures
            dashboard@ == DashboardView::fresh(),
    {
        let dashboard = Dashboard {
            projects: Vec::new(),
            scan_failures: Vec::new(),
            scanned: None,
            services: Vec::new(),
            services_error: None,
            tab: Tab::Projects,
            selected: 0,
        };
        assert(dashboard@ =~= DashboardView::fresh());
        dashboard
    }

    pub fn apply(&mut self, update: Update)
        ensures
            final(self)@ == old(self)@.after(update@),
    {
        broadcast use lemma_views_push;

        match update {
            Update::Project(project) => {
                self.projects.push(project);
            },
            Update::ScanFailed { path, reason } => {
                let ghost before = views(self.scan_failures@);
                let ghost failure = (path@, reason@);
                self.scan_failures.push((path, reason));
                assert(views(self.scan_failures@) =~= before.push(failure));
            },
            Update::ScanFinished { scanned } => {
                self.scanned = Some(scanned);
            },
            Update::Services(services) => {
                self.services = services;
                self.services_error = None;
            },
            Update::ServicesFailed(reason) => {
                self.services_error = Some(reason);
            },
        }
    }

    /// Clears what a refresh is about to replace, so a second run cannot stack
    /// its results on top of the first.
    pub fn begin_refresh(&mut self)
        ensures
            final(self)@ == (DashboardView {
                projects: seq![],
                scan_failures: seq![],
                scanned: None,
                selected: 0,
                ..old(self)@
            }),
    {
        self.projects = Vec::new();
        self.scan_failures = Vec::new();
        self.scanned = None;
        self.selected = 0;
        assert(views(self.projects@) =~= seq![]);
        assert(views(self.scan_failures@) =~= seq![]);
    }

    pub fn tab(&self) -> (tab: Tab)
        ensures
            tab == self@.tab,
    {
        self.tab
    }

    pub fn selected(&self) -> (selected: usize)
        ensures
            selected == self@.selected,
    {
        self.selected
    }

    pub fn is_scanning(&self) -> (scanning: bool)
        ensures
            scanning == (self@.scanned is None),
    {
        self.scanned.is_none()
    }

    pub fn next_tab(&mut self)
        ensures
            final(self)@ == old(self)@.on(old(self)@.tab.following()),
    {
        let tab = self.tab.next();
        self.set_tab(tab);
    }

    pub fn set_tab(&mut self, tab: Tab)
        ensures
            final(self)@ == old(self)@.on(tab),
    {
        self.tab = tab;
        self.selected = 0;
    }

    /// Moves the selection, which cannot leave the list.
    pub fn move_selection(&mut self, delta: isize)
        ensures
            final(self)@ == (DashboardView {
                selected: old(self)@.moved(delta as int) as usize,
                ..old(self)@
            }),
    {
        let rows: usize = self.row_count();
        let last: usize = if rows == 0 {
            0
        } else {
            rows - 1
        };
        let target: i128 = self.selected as i128 + delta as i128;
        self.selected = if target < 0 {
            0
        } else if target > last as i128 {
            last
        } else {
            target as usize
        };
    }

    pub fn row_count(&self) -> (count: usize)
        ensures
            count == self@.rows(),
    {
        match self.tab {
            Tab::Projects => self.projects.len(),
            Tab::Services => self.services.len(),
            Tab::Ports => self.published().len(),
        }
    }

    /// The project the cursor is on.
    pub fn selected_project(&self) -> (project: Option<&Project>)
        ensures
            (match project {
                Some(project) => Some(project@),
                None => None,
            }) == self@.current_project(),
    {
        match self.tab {
            Tab::Projects => if self.selected < self.projects.len() {
                Some(&self.projects[self.selected])
            } else {
                None
            },
            _ => None,
        }
    }

    /// The service the cursor is on, which on the list of ports is the one that
    /// publishes it.
    pub fn selected_service(&self) -> (service: Option<&ServiceStatus>)
        ensures
            (match service {
                Some(service) => Some(service@),
                None => None,
            }) == self@.current_service(),
    {
        match self.tab {
            Tab::Projects => None,
            Tab::Services => if self.selected < self.services.len() {
                Some(&self.services[self.selected])
            } else {
                None
            },
            Tab::Ports => {
                let published = self.published();
                let ghost listed = published@.map_values(|service: &ServiceStatus| service@);
                assert(listed.len() == published@.len());
                if self.selected < published.len() {
                    assert(listed[self.selected as int] == published@[self.selected as int]@);
                    Some(published[self.selected])
                } else {
                    None
                }
            },
        }
    }

    /// The services that publish a port.
    fn published(&self) -> (list: Vec<&ServiceStatus>)
        ensures
            list@.map_values(|service: &ServiceStatus| service@) == published_in(self@.services),
    {
        let ghost all = views(self.services@);
        let ghost keep = |service: ServiceStatusView| service.port is Some;
        let mut list: Vec<&ServiceStatus> = Vec::new();
        let mut i: usize = 0;
        proof {
            reveal(Seq::filter);
            assert(all.take(0).filter(keep) =~= seq![]);
            assert(list@.map_values(|service: &ServiceStatus| service@) =~= seq![]);
        }
        while i < self.services.len()
            invariant
                i <= self.services@.len(),
                all == views(self.services@),
                keep == (|service: ServiceStatusView| service.port is Some),
                list@.map_values(|service: &ServiceStatus| service@) == all.take(i as int).filter(
                    keep,
                ),
            decreases self.services@.len() - i,
        {
            proof {
                reveal(Seq::filter);
                assert(all.take(i + 1).drop_last() =~= all.take(i as int));
                assert(all.take(i + 1).last() == self.services@[i as int]@);
            }
            let ghost before = list@.map_values(|service: &ServiceStatus| service@);
            if self.services[i].port.is_some() {
                list.push(&self.services[i]);
                assert(list@.map_values(|service: &ServiceStatus| service@) =~= before.push(
                    self.services@[i as int]@,
                ));
            }
            i = i + 1;
        }
        assert(all.take(i as int) =~= all);
        list
    }

    fn count_ready(&self) -> (count: usize)
        ensures
            count == self@.ready_count(),
    {
        let ghost all = views(self.services@);
        let ghost keep = |service: ServiceStatusView| service.reachable();
        let mut count: usize = 0;
        let mut i: usize = 0;
        proof {
            reveal(Seq::filter);
            assert(all.take(0).filter(keep) =~= seq![]);
        }
        while i < self.services.len()
            invariant
                i <= self.services@.len(),
                count <= i,
                all == views(self.services@),
                keep == (|service: ServiceStatusView| service.reachable()),
                count == all.take(i as int).filter(keep).len(),
            decreases self.services@.len() - i,
        {
            proof {
                reveal(Seq::filter);
                assert(all.take(i + 1).drop_last() =~= all.take(i as int));
                assert(all.take(i + 1).last() == self.services@[i as int]@);
            }
            if self.services[i].is_reachable() {
                count = count + 1;
            }
            i = i + 1;
        }
        assert(all.take(i as int) =~= all);
        count
    }

    fn count_answering(published: &Vec<&ServiceStatus>) -> (count: usize)
        ensures
            count == published@.map_values(|service: &ServiceStatus| service@).filter(
                |service: ServiceStatusView| service.port_open,
            ).len(),
    {
        let ghost all = published@.map_values(|service: &ServiceStatus| service@);
        let ghost keep = |service: ServiceStatusView| service.port_open;
        let mut count: usize = 0;
        let mut i: usize = 0;
        proof {
            reveal(Seq::filter);
            assert(all.take(0).filter(keep) =~= seq![]);
        }
        while i < published.len()
            invariant
                i <= published@.len(),
                count <= i,
                all == published@.map_values(|service: &ServiceStatus| service@),
                keep == (|service: ServiceStatusView| service.port_open),
                count == all.take(i as int).filter(keep).len(),
            decreases published@.len() - i,
        {
            proof {
                reveal(Seq::filter);
                assert(all.take(i + 1).drop_last() =~= all.take(i as int));
                assert(all.take(i + 1).last() == published@[i as int]@);
            }
            if published[i].port_open {
                count = count + 1;
            }
            i = i + 1;
        }
        assert(all.take(i as int) =~= all);
        count
    }

    /// The rows of the list.
    pub fn list_rows(&self) -> (rows: Vec<StyledRow>)
        ensures
            views(rows@) == row_cells(self@),
    {
        broadcast use lemma_views_push;

        let ghost expected = row_cells(self@);
        let mut rows: Vec<StyledRow> = Vec::new();
        let mut i: usize = 0;
        match self.tab {
            Tab::Projects => {
                while i < self.projects.len()
                    invariant
                        i <= self.projects@.len(),
                        expected == row_cells(self@),
                        self.tab == Tab::Projects,
                        views(rows@) == expected.take(i as int),
                    decreases self.projects@.len() - i,
                {
                    rows.push(project_row(&self.projects[i]));
                    assert(expected[i as int] == project_cells(self.projects@[i as int]@));
                    assert(expected.take(i + 1) =~= expected.take(i as int).push(
                        expected[i as int],
                    ));
                    i = i + 1;
                }
            },
            Tab::Services => {
                while i < self.services.len()
                    invariant
                        i <= self.services@.len(),
                        expected == row_cells(self@),
                        self.tab == Tab::Services,
                        views(rows@) == expected.take(i as int),
                    decreases self.services@.len() - i,
                {
                    rows.push(service_row(&self.services[i]));
                    assert(expected[i as int] == service_cells(self.services@[i as int]@));
                    assert(expected.take(i + 1) =~= expected.take(i as int).push(
                        expected[i as int],
                    ));
                    i = i + 1;
                }
            },
            Tab::Ports => {
                let published = self.published();
                let ghost listed = published@.map_values(|service: &ServiceStatus| service@);
                while i < published.len()
                    invariant
                        i <= published@.len(),
                        expected == row_cells(self@),
                        self.tab == Tab::Ports,
                        listed == published@.map_values(|service: &ServiceStatus| service@),
                        listed == published_in(self@.services),
                        views(rows@) == expected.take(i as int),
                    decreases published@.len() - i,
                {
                    rows.push(port_row(published[i]));
                    assert(listed[i as int] == published@[i as int]@);
                    assert(expected[i as int] == port_cells(published@[i as int]@));
                    assert(expected.take(i + 1) =~= expected.take(i as int).push(
                        expected[i as int],
                    ));
                    i = i + 1;
                }
                assert(published@.len() == listed.len());
            },
        }
        assert(expected.take(i as int) =~= expected);
        rows
    }

    /// One line saying what the numbers add up to.
    pub fn status_line(&self) -> (line: StyledLine)
        ensures
            line@ == self@.status(),
    {
        broadcast use lemma_views_push;

        let mut spans: Vec<Styled> = Vec::new();
        match self.tab {
            Tab::Projects => {
                // The denominator is part of the answer: "no projects" and
                // "nothing was examined" are different facts.
                let mut examined = " · ".to_owned();
                match self.scanned {
                    Some(count) => {
                        examined.append(
                            counted("", count as u64, " directories examined").as_str(),
                        );
                        proof {
                            reveal_strlit("");
                            assert(""@ + decimal(count as nat) =~= decimal(count as nat));
                        }
                    },
                    None => {
                        examined.append("scanning…");
                    },
                }
                spans.push(
                    Styled {
                        text: counted(" ", self.projects.len() as u64, " projects"),
                        paint: Paint::Good,
                    },
                );
                spans.push(Styled { text: examined, paint: Paint::Muted });
                if self.scan_failures.len() > 0 {
                    spans.push(
                        Styled {
                            text: counted(" · ", self.scan_failures.len() as u64, " unreadable"),
                            paint: Paint::Bad,
                        },
                    );
                }
            },
            // An unreachable daemon must not read as a daemon with nothing
            // running, so the count is replaced rather than shown as zero.
            Tab::Services => match &self.services_error {
                Some(reason) => {
                    let mut text = " docker unreachable: ".to_owned();
                    text.append(reason.as_str());
                    spans.push(Styled { text, paint: Paint::Bad });
                },
                None => {
                    spans.push(
                        Styled {
                            text: counted(" ", self.count_ready() as u64, " ready"),
                            paint: Paint::Good,
                        },
                    );
                    spans.push(
                        Styled {
                            text: counted(" · ", self.services.len() as u64, " services"),
                            paint: Paint::Muted,
                        },
                    );
                },
            },
            Tab::Ports => match &self.services_error {
                Some(reason) => {
                    let mut text = " docker unreachable: ".to_owned();
                    text.append(reason.as_str());
                    spans.push(Styled { text, paint: Paint::Bad });
                },
                None => {
                    let published = self.published();
                    let answering: usize = Dashboard::count_answering(&published);
                    spans.push(
                        Styled {
                            text: counted(" ", answering as u64, " answering"),
                            paint: Paint::Good,
                        },
                    );
                    spans.push(
                        Styled {
                            text: counted(" · ", published.len() as u64, " published"),
                            paint: Paint::Muted,
                        },
                    );
                },
            },
        }
        let line = StyledLine { spans };
        assert(line@ =~= self@.status());
        line
    }
}

/// The tabs cycle back around.
pub proof fn law_the_tabs_cycle(tab: Tab)
    ensures
        tab.following().following().following() == tab,
        tab.following() != tab,
{
}

/// The selection cannot leave the list, and an empty list keeps it at zero.
pub proof fn law_the_selection_stays_in_the_list(dashboard: DashboardView, delta: int)
    ensures
        0 <= dashboard.moved(delta),
        dashboard.rows() > 0 ==> dashboard.moved(delta) < dashboard.rows(),
        dashboard.rows() == 0 ==> dashboard.moved(delta) == 0,
{
}

/// A docker failure is shown as a failure, not as a count.
pub proof fn law_an_unreachable_daemon_is_not_an_empty_one(
    dashboard: DashboardView,
    reason: Seq<char>,
)
    requires
        dashboard.tab != Tab::Projects,
        dashboard.services_error == Some(reason),
    ensures
        dashboard.status() == seq![(" docker unreachable: "@ + reason, Paint::Bad)],
{
}

/// A scan is marked loading until it reports its total, whatever else arrives.
pub proof fn law_scanning_until_the_total(dashboard: DashboardView, update: UpdateView)
    requires
        dashboard.scanned is None,
    ensures
        dashboard.after(update).scanned is None <==> !(update is ScanFinished),
{
}

/// Moving goes as far as it is told, and stops at the first and the last row.
pub proof fn law_a_move_goes_as_far_as_it_can(dashboard: DashboardView, delta: int)
    ensures
        0 <= dashboard.selected + delta < dashboard.rows() ==> dashboard.moved(delta)
            == dashboard.selected + delta,
        dashboard.selected + delta < 0 ==> dashboard.moved(delta) == 0,
        dashboard.rows() > 0 && dashboard.selected + delta >= dashboard.rows() ==> dashboard.moved(
            delta,
        ) == dashboard.rows() - 1,
{
}

/// What arrives is kept beside what was there: a project and a failure go to the
/// end of their lists, services replace those that were known and clear what
/// went wrong, and a daemon that cannot be asked leaves the last list standing.
pub proof fn law_an_update_changes_what_it_is_about(
    dashboard: DashboardView,
    project: ProjectView,
    path: Seq<char>,
    reason: Seq<char>,
    scanned: usize,
    services: Seq<ServiceStatusView>,
)
    ensures
        dashboard.after(UpdateView::Project(project)) == (DashboardView {
            projects: dashboard.projects.push(project),
            ..dashboard
        }),
        dashboard.after(UpdateView::ScanFailed { path, reason }) == (DashboardView {
            scan_failures: dashboard.scan_failures.push((path, reason)),
            ..dashboard
        }),
        dashboard.after(UpdateView::ScanFinished { scanned }) == (DashboardView {
            scanned: Some(scanned),
            ..dashboard
        }),
        dashboard.after(UpdateView::Services(services)) == (DashboardView {
            services,
            services_error: None,
            ..dashboard
        }),
        dashboard.after(UpdateView::ServicesFailed(reason)) == (DashboardView {
            services_error: Some(reason),
            ..dashboard
        }),
{
}

/// The tabs are projects, services and ports, in that order, and one that is
/// opened begins at its first row.
pub proof fn law_the_tabs_in_their_order(dashboard: DashboardView, tab: Tab)
    ensures
        Tab::Projects.following() is Services && Tab::Services.following() is Ports,
        Tab::Projects.place() == 0 && Tab::Services.place() == 1 && Tab::Ports.place() == 2,
        dashboard.on(tab).tab == tab && dashboard.on(tab).selected == 0,
        dashboard.on(tab).projects == dashboard.projects && dashboard.on(tab).services
            == dashboard.services,
        dashboard.on(Tab::Projects).rows() == dashboard.projects.len(),
        dashboard.on(Tab::Services).rows() == dashboard.services.len(),
{
}

/// The ports tab lists the services that have a port, in the order of the
/// services, and what is selected on a tab is the row at that place.
pub proof fn law_the_ports_are_those_of_the_services(
    services: Seq<ServiceStatusView>,
    service: ServiceStatusView,
    dashboard: DashboardView,
)
    ensures
        published_in(services.push(service)) == (if service.port is Some {
            published_in(services).push(service)
        } else {
            published_in(services)
        }),
        published_in(seq![]).len() == 0,
        dashboard.tab is Projects && dashboard.selected < dashboard.projects.len()
            ==> dashboard.current_project() == Some(
            dashboard.projects[dashboard.selected as int],
        ) && dashboard.current_service() is None,
        dashboard.tab is Services && dashboard.selected < dashboard.services.len()
            ==> dashboard.current_service() == Some(
            dashboard.services[dashboard.selected as int],
        ) && dashboard.current_project() is None,
        dashboard.tab is Ports && dashboard.selected < published_in(dashboard.services).len()
            ==> dashboard.current_service() == Some(
            published_in(dashboard.services)[dashboard.selected as int],
        ),
{
    reveal(Seq::filter);
    assert(services.push(service).drop_last() =~= services);
}

/// The status line counts what its tab lists: projects with the directories that
/// were examined and what could not be read, services with those that are ready,
/// and ports with those that answer.
pub proof fn law_the_status_counts_what_is_listed(
    dashboard: DashboardView,
    service: ServiceStatusView,
)
    ensures
        dashboard.tab is Projects ==> {
            let status = dashboard.status();
            &&& status[0].0 == " "@ + decimal(dashboard.projects.len()) + " projects"@
            &&& dashboard.scanned is None ==> status[1].0 == " · "@ + "scanning…"@
            &&& dashboard.scanned is Some ==> status[1].0 == " · "@ + (decimal(
                dashboard.scanned->0 as nat,
            ) + " directories examined"@)
            &&& status.len() == (if dashboard.scan_failures.len() > 0 {
                3nat
            } else {
                2nat
            })
            &&& dashboard.scan_failures.len() > 0 ==> status[2].0 == " · "@ + decimal(
                dashboard.scan_failures.len(),
            ) + " unreadable"@
        },
        dashboard.tab is Services && dashboard.services_error is None ==> {
            let status = dashboard.status();
            &&& status[0].0 == " "@ + decimal(dashboard.ready_count()) + " ready"@
            &&& status[1].0 == " · "@ + decimal(dashboard.services.len()) + " services"@
        },
        dashboard.tab is Ports && dashboard.services_error is None ==> {
            let status = dashboard.status();
            &&& status[0].0 == " "@ + decimal(dashboard.answering_count()) + " answering"@
            &&& status[1].0 == " · "@ + decimal(published_in(dashboard.services).len())
                + " published"@
        },
        ({
            let more = DashboardView { services: dashboard.services.push(service), ..dashboard };
            &&& more.ready_count() == dashboard.ready_count() + (if service.state is Running
                && service.port_open {
                1nat
            } else {
                0nat
            })
            &&& more.answering_count() == dashboard.answering_count() + (if service.port is Some
                && service.port_open {
                1nat
            } else {
                0nat
            })
        }),
{
    reveal(Seq::filter);
    law_the_ports_are_those_of_the_services(dashboard.services, service, dashboard);
    assert(dashboard.services.push(service).drop_last() =~= dashboard.services);
    let published = published_in(dashboard.services);
    assert(published.push(service).drop_last() =~= published);
}

/// A row shows what it is about: a project its name, category, framework, branch
/// and changes; a service its name, container, port and condition; a port its
/// service and whether it answers.
pub proof fn law_a_row_shows_its_fields(project: ProjectView, service: ServiceStatusView)
    ensures
        ({
            let cells = project_cells(project);
            &&& cells.len() == 5
            &&& cells[0][0].0 == project.name
            &&& cells[1][0].0 == (if project.category is Some {
                project.category->0
            } else {
                "-"@
            })
            &&& cells[2][0].0 == (if project.framework is Some {
                project.framework->0
            } else {
                stack_name(project.stack)
            })
            &&& cells[3][0].0 == (if project.git.branch is Some {
                project.git.branch->0
            } else {
                "-"@
            })
        }),
        ({
            let cells = service_cells(service);
            &&& cells.len() == 4
            &&& cells[0][0].0 == service.service
            &&& cells[1][0].0 == service.container
            &&& cells[2][0].0 == (if service.port is Some {
                decimal(service.port->0 as nat)
            } else {
                "-"@
            })
            &&& cells[3][0].0 == service.condition_word()
        }),
        ({
            let cells = port_cells(service);
            &&& cells.len() == 3
            &&& cells[0] == service_cells(service)[2]
            &&& cells[1] == service_cells(service)[0]
            &&& cells[2][0] == (if service.port_open {
                ("answering"@, Paint::Good)
            } else {
                ("no answer"@, Paint::Bad)
            })
        }),
{
}

/// The spans of the changes are the badge, cut into its parts, each in its own
/// colour.
pub proof fn law_the_changes_read_as_the_badge(git: GitStatusView)
    ensures
        git.modified == 0 && git.untracked == 0 ==> change_spans(git).len() == 0,
        git.modified > 0 && git.untracked == 0 ==> change_spans(git) == seq![
            (git.badge_text(), Paint::Changed),
        ],
        git.modified == 0 && git.untracked > 0 ==> change_spans(git) == seq![
            (git.badge_text(), Paint::Untracked),
        ],
        git.modified > 0 && git.untracked > 0 ==> {
            let spans = change_spans(git);
            &&& spans.len() == 3
            &&& spans[0].0 + spans[1].0 + spans[2].0 == git.badge_text()
            &&& spans[0].1 is Changed && spans[2].1 is Untracked
        },
{
}

/// A condition is shown in the colour of how ready it is.
pub proof fn law_a_condition_has_its_colour(service: ServiceStatusView)
    ensures
        condition_paint(service) is Ready <==> service.state is Running && service.port_open,
        condition_paint(service) is Waiting <==> service.state is Running && !service.port_open,
        condition_paint(service) is Muted <==> !(service.state is Running),
{
}

/// A tab lists its own rows, one for each, in order, under its own columns, and a
/// dashboard begins empty on the projects.
pub proof fn law_a_tab_lists_its_own_rows(dashboard: DashboardView, i: int)
    ensures
        dashboard.tab is Projects && 0 <= i < dashboard.projects.len() ==> row_cells(dashboard)[i]
            == project_cells(dashboard.projects[i]),
        dashboard.tab is Services && 0 <= i < dashboard.services.len() ==> row_cells(dashboard)[i]
            == service_cells(dashboard.services[i]),
        dashboard.tab is Ports && 0 <= i < published_in(dashboard.services).len() ==> row_cells(
            dashboard,
        )[i] == port_cells(published_in(dashboard.services)[i]),
        row_cells(dashboard).len() == dashboard.rows(),
        Tab::Projects.column_list().map_values(|column: (Seq<char>, Width)| column.0) == seq![
            "PROJECT"@,
            "GROUP"@,
            "FRAMEWORK"@,
            "BRANCH"@,
            "CHANGES"@,
        ],
        Tab::Services.column_list().map_values(|column: (Seq<char>, Width)| column.0) == seq![
            "SERVICE"@,
            "CONTAINER"@,
            "PORT"@,
            "STATE"@,
        ],
        Tab::Ports.column_list().map_values(|column: (Seq<char>, Width)| column.0) == seq![
            "PORT"@,
            "SERVICE"@,
            "ANSWERS"@,
        ],
        DashboardView::fresh().rows() == 0 && DashboardView::fresh().tab is Projects
            && DashboardView::fresh().scanned is None && DashboardView::fresh().services.len() == 0
            && DashboardView::fresh().services_error is None,
{
}

} // verus!
