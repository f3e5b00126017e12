//! What a key does.
//!
//! The dashboard reads a key, asks here what it means on the screen as it is,
//! and carries out the effects in their order. Nothing here draws, reads a
//! file or talks to docker, so every keystroke's meaning is a function of what
//! is on the screen.

use crate::domain::{ServiceStatus, ServiceStatusView};
use crate::lifecycle::{local_address, local_url, Action};
use crate::listen::{Listener, ListenerView};
use crate::text::{
    chars_of, decimal, is_white, law_trimming_keeps_the_core, lemma_views_push, maybe_text,
    number_text, string_of, trim, trimmed, views,
};
use crate::tui::Tab;
use vstd::prelude::*;
use vstd::string::*;

verus! {

/// A key that was pressed.
#[derive(Debug, Clone, Copy, PartialEq, Eq, Structural)]
pub enum Key {
    Enter,
    Esc,
    Tab,
    BackTab,
    Left,
    Right,
    Up,
    Down,
    PageUp,
    PageDown,
    Backspace,
    Char(char),
    Other,
}

/// An action held back until the user says yes.
///
/// Only for what cannot be undone. Everything else in the dashboard - start,
/// stop, open, backup - either reverses or only creates, and asking about
/// those would teach the habit of pressing y without reading.
#[derive(Debug, Clone, PartialEq, Eq)]
pub enum Pending {
    Kill { pid: u32, label: String },
    /// Loading a dump replaces what is in the database. It is the only thing
    /// here that destroys something git does not also hold.
    Import { service: String, database: String, file: String },
    RemoveDomain { host: String },
}

/// What a held back action says.
#[verifier::ext_equal]
pub enum PendingView {
    Kill { pid: u32, label: Seq<char> },
    Import { service: Seq<char>, database: Seq<char>, file: Seq<char> },
    RemoveDomain { host: Seq<char> },
}

impl View for Pending {
    type V = PendingView;

    open spec fn view(&self) -> PendingView {
        match self {
            Pending::Kill { pid, label } => PendingView::Kill { pid: *pid, label: label@ },
            Pending::Import { service, database, file } => PendingView::Import {
                service: service@,
                database: database@,
                file: file@,
            },
            Pending::RemoveDomain { host } => PendingView::RemoveDomain { host: host@ },
        }
    }
}

/// What a half finished prompt is collecting, and what it is for.
///
/// A dump needs a file and then a database; a route needs a host and then an
/// upstream. The screen holds only the characters typed, so the sequence they
/// belong to lives here.
#[derive(Debug, Clone, PartialEq, Eq)]
pub enum Asking {
    ExportDatabase { service: String },
    ImportFile { service: String },
    ImportDatabase { service: String, file: String },
    SwitchDotenv { path: String },
    DomainHost,
    DomainUpstream { host: String },
    DomainRemove,
    ExecCommand { project: String },
}

/// What a prompt is for.
#[verifier::ext_equal]
pub enum AskingView {
    ExportDatabase { service: Seq<char> },
    ImportFile { service: Seq<char> },
    ImportDatabase { service: Seq<char>, file: Seq<char> },
    SwitchDotenv { path: Seq<char> },
    DomainHost,
    DomainUpstream { host: Seq<char> },
    DomainRemove,
    ExecCommand { project: Seq<char> },
}

impl View for Asking {
    type V = AskingView;

    open spec fn view(&self) -> AskingView {
        match self {
            Asking::ExportDatabase { service } => AskingView::ExportDatabase { service: service@ },
            Asking::ImportFile { service } => AskingView::ImportFile { service: service@ },
            Asking::ImportDatabase { service, file } => AskingView::ImportDatabase {
                service: service@,
                file: file@,
            },
            Asking::SwitchDotenv { path } => AskingView::SwitchDotenv { path: path@ },
            Asking::DomainHost => AskingView::DomainHost,
            Asking::DomainUpstream { host } => AskingView::DomainUpstream { host: host@ },
            Asking::DomainRemove => AskingView::DomainRemove,
            Asking::ExecCommand { project } => AskingView::ExecCommand { project: project@ },
        }
    }
}

/// What kind of news a line is.
#[derive(Debug, Clone, Copy, PartialEq, Eq, Structural)]
pub enum News {
    Working,
    Done,
    Failed,
}

/// Why the dashboard closed. Anything that takes over the terminal happens
/// after it has been handed back, rather than fighting the drawing for it.
#[derive(Debug, Clone, PartialEq, Eq)]
pub enum Leave {
    Quit,
    Run(String),
    Shell(String),
    /// A project and one command to run in it, with its toolchain in front.
    Exec(String, String),
}

/// What leaving says.
#[verifier::ext_equal]
pub enum LeaveView {
    Quit,
    Run(Seq<char>),
    Shell(Seq<char>),
    Exec(Seq<char>, Seq<char>),
}

impl View for Leave {
    type V = LeaveView;

    open spec fn view(&self) -> LeaveView {
        match self {
            Leave::Quit => LeaveView::Quit,
            Leave::Run(project) => LeaveView::Run(project@),
            Leave::Shell(project) => LeaveView::Shell(project@),
            Leave::Exec(project, command) => LeaveView::Exec(project@, command@),
        }
    }
}

/// An entry of the menu: what it does, and the key that does the same.
#[derive(Debug, Clone, PartialEq, Eq)]
pub struct MenuItem {
    pub label: &'static str,
    pub key: char,
}

impl View for MenuItem {
    type V = (Seq<char>, char);

    open spec fn view(&self) -> (Seq<char>, char) {
        (self.label@, self.key)
    }
}

impl MenuItem {
    pub fn new(label: &'static str, key: char) -> (item: Self)
        ensures
            item@ == (label@, key),
    {
        MenuItem { label, key }
    }
}

/// Something the dashboard does because of a key.
#[derive(Debug, Clone, PartialEq, Eq)]
pub enum Effect {
    /// Say something on the line for news.
    Say(News, String),
    /// Put the question away.
    Dismiss,
    /// Put a yes or no question.
    Ask(String),
    /// Open a prompt for a text.
    AskFor(&'static str),
    CancelPrompt,
    /// Take what was typed and close the prompt.
    TakeTyped,
    Backspace,
    Type(char),
    CloseDetail,
    CloseLogs,
    ScrollLogs(i32),
    OpenLogs { container: String },
    OpenMenu { subject: String, items: Vec<MenuItem> },
    CloseMenu,
    MoveMenu(i32),
    ToggleHelp,
    ToggleSettings,
    FocusNext,
    FocusPrevious,
    FocusOn(Tab),
    MoveSelection(i32),
    BeginRefresh,
    CollectProjects,
    CollectServices,
    CollectPorts,
    Act { container: String, action: Action },
    Kill { pid: u32, label: String },
    Import { service: String, database: String, file: String },
    Export { service: String, database: String },
    Backup { container: String },
    AddDomain { host: String, upstream: String },
    RemoveDomain { host: String },
    SwitchDotenv { path: String, wanted: String },
    ShowDotenv { name: String, path: String },
    ShowToolchains { name: String, path: String },
    /// Show every hostname; where that fails, say so or show the failure.
    ShowDomains { failure_as_detail: bool },
    OpenUrl(String),
    /// Open the address a project would serve on.
    OpenProject { name: String, path: String },
    OpenFolder(String),
    Leave(Leave),
}

/// What an effect says.
#[verifier::ext_equal]
pub enum EffectView {
    Say(News, Seq<char>),
    Dismiss,
    Ask(Seq<char>),
    AskFor(Seq<char>),
    CancelPrompt,
    TakeTyped,
    Backspace,
    Type(char),
    CloseDetail,
    CloseLogs,
    ScrollLogs(int),
    OpenLogs { container: Seq<char> },
    OpenMenu { subject: Seq<char>, items: Seq<(Seq<char>, char)> },
    CloseMenu,
    MoveMenu(int),
    ToggleHelp,
    ToggleSettings,
    FocusNext,
    FocusPrevious,
    FocusOn(Tab),
    MoveSelection(int),
    BeginRefresh,
    CollectProjects,
    CollectServices,
    CollectPorts,
    Act { container: Seq<char>, action: Action },
    Kill { pid: u32, label: Seq<char> },
    Import { service: Seq<char>, database: Seq<char>, file: Seq<char> },
    Export { service: Seq<char>, database: Seq<char> },
    Backup { container: Seq<char> },
    AddDomain { host: Seq<char>, upstream: Seq<char> },
    RemoveDomain { host: Seq<char> },
    SwitchDotenv { path: Seq<char>, wanted: Seq<char> },
    ShowDotenv { name: Seq<char>, path: Seq<char> },
    ShowToolchains { name: Seq<char>, path: Seq<char> },
    ShowDomains { failure_as_detail: bool },
    OpenUrl(Seq<char>),
    OpenProject { name: Seq<char>, path: Seq<char> },
    OpenFolder(Seq<char>),
    Leave(LeaveView),
}

impl View for Effect {
    type V = EffectView;

    open spec fn view(&self) -> EffectView {
        match self {
            Effect::Say(news, text) => EffectView::Say(*news, text@),
            Effect::Dismiss => EffectView::Dismiss,
            Effect::Ask(text) => EffectView::Ask(text@),
            Effect::AskFor(text) => EffectView::AskFor(text@),
            Effect::CancelPrompt => EffectView::CancelPrompt,
            Effect::TakeTyped => EffectView::TakeTyped,
            Effect::Backspace => EffectView::Backspace,
            Effect::Type(c) => EffectView::Type(*c),
            Effect::CloseDetail => EffectView::CloseDetail,
            Effect::CloseLogs => EffectView::CloseLogs,
            Effect::ScrollLogs(rows) => EffectView::ScrollLogs(*rows as int),
            Effect::OpenLogs { container } => EffectView::OpenLogs { container: container@ },
            Effect::OpenMenu { subject, items } => EffectView::OpenMenu {
                subject: subject@,
                items: views(items@),
            },
            Effect::CloseMenu => EffectView::CloseMenu,
            Effect::MoveMenu(rows) => EffectView::MoveMenu(*rows as int),
            Effect::ToggleHelp => EffectView::ToggleHelp,
            Effect::ToggleSettings => EffectView::ToggleSettings,
            Effect::FocusNext => EffectView::FocusNext,
            Effect::FocusPrevious => EffectView::FocusPrevious,
            Effect::FocusOn(tab) => EffectView::FocusOn(*tab),
            Effect::MoveSelection(rows) => EffectView::MoveSelection(*rows as int),
            Effect::BeginRefresh => EffectView::BeginRefresh,
            Effect::CollectProjects => EffectView::CollectProjects,
            Effect::CollectServices => EffectView::CollectServices,
            Effect::CollectPorts => EffectView::CollectPorts,
            Effect::Act { container, action } => EffectView::Act {
                container: container@,
                action: *action,
            },
            Effect::Kill { pid, label } => EffectView::Kill { pid: *pid, label: label@ },
            Effect::Import { service, database, file } => EffectView::Import {
                service: service@,
                database: database@,
                file: file@,
            },
            Effect::Export { service, database } => EffectView::Export {
                service: service@,
                database: database@,
            },
            Effect::Backup { container } => EffectView::Backup { container: container@ },
            Effect::AddDomain { host, upstream } => EffectView::AddDomain {
                host: host@,
                upstream: upstream@,
            },
            Effect::RemoveDomain { host } => EffectView::RemoveDomain { host: host@ },
            Effect::SwitchDotenv { path, wanted } => EffectView::SwitchDotenv {
                path: path@,
                wanted: wanted@,
            },
            Effect::ShowDotenv { name, path } => EffectView::ShowDotenv {
                name: name@,
                path: path@,
            },
            Effect::ShowToolchains { name, path } => EffectView::ShowToolchains {
                name: name@,
                path: path@,
            },
            Effect::ShowDomains { failure_as_detail } => EffectView::ShowDomains {
                failure_as_detail: *failure_as_detail,
            },
            Effect::OpenUrl(url) => EffectView::OpenUrl(url@),
            Effect::OpenProject { name, path } => EffectView::OpenProject {
                name: name@,
                path: path@,
            },
            Effect::OpenFolder(path) => EffectView::OpenFolder(path@),
            Effect::Leave(leave) => EffectView::Leave(leave@),
        }
    }
}

/// The project the cursor is on.
#[derive(Debug, Clone, PartialEq, Eq)]
pub struct ProjectRef {
    pub name: String,
    pub path: String,
}

impl View for ProjectRef {
    type V = (Seq<char>, Seq<char>);

    open spec fn view(&self) -> (Seq<char>, Seq<char>) {
        (self.name@, self.path@)
    }
}

/// What is on the screen when a key is pressed.
#[derive(Debug, Clone)]
pub struct Screen {
    /// A yes or no question is open.
    pub confirming: bool,
    /// What has been typed into an open prompt.
    pub typed: Option<String>,
    /// A log is open.
    pub logs: bool,
    /// A menu is open: the key its current entry names, where it has one.
    pub menu: Option<Option<char>>,
    pub help: bool,
    pub detail: bool,
    pub focus: Tab,
    /// What the cursor is on, where that is a project, a service or a port.
    pub project: Option<ProjectRef>,
    pub service: Option<ServiceStatus>,
    pub port: Option<Listener>,
    /// The page the service says is worth opening.
    pub panel: Option<String>,
}

/// What a screen says.
#[verifier::ext_equal]
pub struct ScreenView {
    pub confirming: bool,
    pub typed: Option<Seq<char>>,
    pub logs: bool,
    pub menu: Option<Option<char>>,
    pub help: bool,
    pub detail: bool,
    pub focus: Tab,
    pub project: Option<(Seq<char>, Seq<char>)>,
    pub service: Option<ServiceStatusView>,
    pub port: Option<ListenerView>,
    pub panel: Option<Seq<char>>,
}

impl View for Screen {
    type V = ScreenView;

    open spec fn view(&self) -> ScreenView {
        ScreenView {
            confirming: self.confirming,
            typed: maybe_text(self.typed),
            logs: self.logs,
            menu: self.menu,
            help: self.help,
            detail: self.detail,
            focus: self.focus,
            project: match self.project {
                Some(project) => Some(project@),
                None => None,
            },
            service: match self.service {
                Some(service) => Some(service@),
                None => None,
            },
            port: match self.port {
                Some(port) => Some(port@),
                None => None,
            },
            panel: maybe_text(self.panel),
        }
    }
}

/// What a key comes to: the effects, and what is held back and asked for
/// afterwards.
#[derive(Debug)]
pub struct Outcome {
    pub effects: Vec<Effect>,
    pub pending: Option<Pending>,
    pub asking: Option<Asking>,
}

/// What an outcome says.
#[verifier::ext_equal]
pub struct OutcomeView {
    pub effects: Seq<EffectView>,
    pub pending: Option<PendingView>,
    pub asking: Option<AskingView>,
}

/// What an optional pending action says.
pub open spec fn maybe_pending(pending: Option<Pending>) -> Option<PendingView> {
    match pending {
        Some(pending) => Some(pending@),
        None => None,
    }
}

/// What an optional prompt is for.
pub open spec fn maybe_asking(asking: Option<Asking>) -> Option<AskingView> {
    match asking {
        Some(asking) => Some(asking@),
        None => None,
    }
}

impl View for Outcome {
    type V = OutcomeView;

    open spec fn view(&self) -> OutcomeView {
        OutcomeView {
            effects: views(self.effects@),
            pending: maybe_pending(self.pending),
            asking: maybe_asking(self.asking),
        }
    }
}

/// What a key means while a question is open. Only an explicit y goes ahead:
/// anything else, including a stray arrow key, is a no, so there is no
/// keystroke that destroys something by accident.
pub open spec fn on_question(
    key: Key,
    pending: Option<PendingView>,
    asking: Option<AskingView>,
) -> OutcomeView {
    let carried = if key != Key::Char('y') && key != Key::Char('Y') {
        seq![EffectView::Say(News::Done, "left alone"@)]
    } else {
        match pending {
            Some(PendingView::Kill { pid, label }) => seq![
                EffectView::Say(News::Working, "killing "@ + label),
                EffectView::Kill { pid, label },
            ],
            Some(PendingView::Import { service, database, file }) => seq![
                EffectView::Say(News::Working, "loading into "@ + database),
                EffectView::Import { service, database, file },
            ],
            Some(PendingView::RemoveDomain { host }) => seq![EffectView::RemoveDomain { host }],
            None => seq![],
        }
    };
    OutcomeView { effects: seq![EffectView::Dismiss] + carried, pending: None, asking }
}

/// What a typed answer leads to.
pub open spec fn on_answer(
    typed: Seq<char>,
    asking: Option<AskingView>,
    pending: Option<PendingView>,
) -> OutcomeView {
    let nothing = OutcomeView { effects: seq![], pending, asking: None };
    match asking {
        Some(AskingView::ExportDatabase { service }) => OutcomeView {
            effects: seq![
                EffectView::Say(News::Working, "dumping "@ + typed),
                EffectView::Export { service, database: typed },
            ],
            ..nothing
        },
        Some(AskingView::ImportFile { service }) => OutcomeView {
            effects: seq![EffectView::AskFor("into which database"@)],
            asking: Some(AskingView::ImportDatabase { service, file: typed }),
            ..nothing
        },
        // The last gate before something is overwritten, naming both ends so a
        // wrong answer is visible before it is given.
        Some(AskingView::ImportDatabase { service, file }) => OutcomeView {
            effects: seq![
                EffectView::Ask("replace "@ + typed + " on "@ + service + " with "@ + file + "?"@),
            ],
            pending: Some(PendingView::Import { service, database: typed, file }),
            ..nothing
        },
        Some(AskingView::SwitchDotenv { path }) => OutcomeView {
            effects: seq![EffectView::SwitchDotenv { path, wanted: typed }],
            ..nothing
        },
        Some(AskingView::DomainHost) => OutcomeView {
            effects: seq![EffectView::AskFor("pointing at (container:port)"@)],
            asking: Some(AskingView::DomainUpstream { host: typed }),
            ..nothing
        },
        Some(AskingView::DomainUpstream { host }) => OutcomeView {
            effects: seq![EffectView::AddDomain { host, upstream: typed }],
            ..nothing
        },
        Some(AskingView::DomainRemove) => OutcomeView {
            effects: seq![EffectView::Ask("stop routing "@ + typed + "?"@)],
            pending: Some(PendingView::RemoveDomain { host: typed }),
            ..nothing
        },
        Some(AskingView::ExecCommand { project }) => OutcomeView {
            effects: seq![EffectView::Leave(LeaveView::Exec(project, typed))],
            ..nothing
        },
        None => nothing,
    }
}

/// What a key means while a prompt is open. A prompt takes every key, or j and
/// k would move a list instead of landing in the name being typed.
pub open spec fn on_prompt(
    key: Key,
    typed: Seq<char>,
    pending: Option<PendingView>,
    asking: Option<AskingView>,
) -> OutcomeView {
    match key {
        Key::Esc => OutcomeView {
            effects: seq![EffectView::CancelPrompt, EffectView::CloseDetail],
            pending,
            asking: None,
        },
        Key::Backspace => OutcomeView { effects: seq![EffectView::Backspace], pending, asking },
        Key::Char(c) => OutcomeView { effects: seq![EffectView::Type(c)], pending, asking },
        Key::Enter => {
            let taken = seq![EffectView::TakeTyped, EffectView::CloseDetail];
            if trimmed(typed).len() == 0 {
                OutcomeView {
                    effects: taken.push(
                        EffectView::Say(News::Failed, "nothing typed, nothing done"@),
                    ),
                    pending,
                    asking: None,
                }
            } else {
                let answered = on_answer(trimmed(typed), asking, pending);
                OutcomeView { effects: taken + answered.effects, ..answered }
            }
        },
        _ => OutcomeView { effects: seq![], pending, asking },
    }
}

/// What a key means while a log is open. A log takes the screen, so it takes
/// the keys too.
pub open spec fn on_log(key: Key) -> Seq<EffectView> {
    match key {
        Key::Esc => seq![EffectView::CloseLogs],
        Key::Down => seq![EffectView::ScrollLogs(1)],
        Key::Up => seq![EffectView::ScrollLogs(-1)],
        Key::PageDown => seq![EffectView::ScrollLogs(10)],
        Key::PageUp => seq![EffectView::ScrollLogs(-10)],
        Key::Char(c) => if c == 'q' || c == 'l' {
            seq![EffectView::CloseLogs]
        } else if c == '?' {
            seq![EffectView::ToggleHelp]
        } else if c == 'j' {
            seq![EffectView::ScrollLogs(1)]
        } else if c == 'k' {
            seq![EffectView::ScrollLogs(-1)]
        } else {
            seq![]
        },
        _ => seq![],
    }
}

/// The actions the menu offers on the focused list. Ending a process is there
/// only where there is one to end, and never near the top: a menu that puts
/// "kill" under the resting cursor is a trap.
pub open spec fn menu_actions(focus: Tab, killable: bool) -> Seq<(Seq<char>, char)> {
    match focus {
        Tab::Projects => seq![
            ("run it"@, 'p'),
            ("open a shell in it"@, 't'),
            ("run one command in it"@, ':'),
            ("open its folder"@, 'e'),
            ("open it in a browser"@, 'o'),
            ("which .env it uses"@, '.'),
            ("which toolchain versions"@, 'v'),
        ],
        _ => {
            let actions = seq![
                ("start it"@, 's'),
                ("stop it"@, 'x'),
                ("restart it"@, 'S'),
                ("read its log"@, 'l'),
                ("open it in a browser"@, 'o'),
                ("back up all its databases"@, 'b'),
                ("dump one database"@, 'E'),
                ("load a dump into it"@, 'I'),
            ];
            if killable {
                actions.push(("end what holds this port"@, 'K'))
            } else {
                actions
            }
        },
    }
}

/// The entries the menu has everywhere.
pub open spec fn menu_everywhere() -> Seq<(Seq<char>, char)> {
    seq![
        ("routed hostnames"@, 'd'),
        ("refresh this pane"@, 'r'),
        ("settings"@, 'g'),
        ("every key"@, '?'),
    ]
}

/// What the menu is about, where something is selected.
pub open spec fn menu_subject(screen: ScreenView) -> Option<Seq<char>> {
    match screen.focus {
        Tab::Projects => match screen.project {
            Some((name, _)) => Some(name),
            None => None,
        },
        Tab::Services => match screen.service {
            Some(service) => Some(service.service),
            None => None,
        },
        Tab::Ports => match screen.port {
            Some(listener) => Some(
                decimal(listener.port as nat) + " · "@ + match screen.service {
                    Some(service) => service.service,
                    None => match listener.process {
                        Some(process) => process,
                        None => "unknown"@,
                    },
                },
            ),
            None => None,
        },
    }
}

/// Whether the selected port has a process to end.
pub open spec fn has_process(screen: ScreenView) -> bool {
    screen.port matches Some(listener) && listener.pid is Some
}

/// What is said where a key needs something selected that is not.
pub open spec fn failed(text: Seq<char>) -> Seq<EffectView> {
    seq![EffectView::Say(News::Failed, text)]
}

/// The process a port's listener names, with its number and the port.
pub open spec fn kill_label(process: Option<Seq<char>>, pid: u32, port: u16) -> Seq<char> {
    (match process {
        Some(process) => process,
        None => "that process"@,
    }) + " (pid "@ + decimal(pid as nat) + ") on "@ + decimal(port as nat)
}

/// What the address key opens. Every pane has something worth opening: a
/// service's declared page or its port, a project's address, or just the port a
/// stray listener holds.
pub open spec fn opened(screen: ScreenView) -> Seq<EffectView> {
    let nowhere = failed("nothing here says which address to open"@);
    match screen.focus {
        Tab::Projects => match screen.project {
            Some((name, path)) => seq![EffectView::OpenProject { name, path }],
            None => nowhere,
        },
        _ => {
            let own = match screen.service {
                Some(service) => match screen.panel {
                    Some(panel) => Some(panel),
                    None => match service.port {
                        Some(port) => Some(local_address(port)),
                        None => None,
                    },
                },
                None => None,
            };
            match own {
                Some(url) => seq![EffectView::OpenUrl(url)],
                None => match screen.port {
                    Some(listener) => seq![EffectView::OpenUrl(local_address(listener.port))],
                    None => nowhere,
                },
            }
        },
    }
}

/// What refreshing does: what you are looking at, and no more. The ports name
/// the container behind each port, so they need the services too.
pub open spec fn refreshed(focus: Tab) -> Seq<EffectView> {
    match focus {
        Tab::Projects => seq![
            EffectView::BeginRefresh,
            EffectView::Say(News::Working, "rescanning projects"@),
            EffectView::CollectProjects,
        ],
        Tab::Services => seq![
            EffectView::Say(News::Working, "rereading services"@),
            EffectView::CollectServices,
        ],
        Tab::Ports => seq![
            EffectView::Say(News::Working, "rereading ports"@),
            EffectView::CollectServices,
            EffectView::CollectPorts,
        ],
    }
}

/// What a letter means on the lists.
pub open spec fn on_letter(
    c: char,
    screen: ScreenView,
    pending: Option<PendingView>,
    asking: Option<AskingView>,
) -> OutcomeView {
    let plain = |effects: Seq<EffectView>| OutcomeView { effects, pending, asking };
    if c == '?' {
        plain(seq![EffectView::ToggleHelp])
    } else if c == 'g' {
        plain(seq![EffectView::ToggleSettings])
    } else if c == 'l' {
        plain(
            match screen.service {
                Some(service) => seq![EffectView::OpenLogs { container: service.container }],
                None => failed(
                    "l reads a service's log — move to the services or ports pane first"@,
                ),
            },
        )
    } else if c == 'q' {
        plain(seq![EffectView::Leave(LeaveView::Quit)])
    } else if c == '1' {
        plain(seq![EffectView::FocusOn(Tab::Projects)])
    } else if c == '2' {
        plain(seq![EffectView::FocusOn(Tab::Services)])
    } else if c == '3' {
        plain(seq![EffectView::FocusOn(Tab::Ports)])
    } else if c == 'j' {
        plain(seq![EffectView::MoveSelection(1)])
    } else if c == 'k' {
        plain(seq![EffectView::MoveSelection(-1)])
    } else if c == 'r' {
        plain(refreshed(screen.focus))
    } else if c == 'R' {
        plain(
            seq![
                EffectView::BeginRefresh,
                EffectView::Say(News::Working, "refreshing everything"@),
                EffectView::CollectProjects,
                EffectView::CollectServices,
                EffectView::CollectPorts,
            ],
        )
    } else if c == 's' || c == 'x' || c == 'S' {
        plain(
            match screen.service {
                Some(service) => seq![
                    EffectView::Act {
                        container: service.container,
                        action: if c == 's' {
                            Action::Start
                        } else if c == 'x' {
                            Action::Stop
                        } else {
                            Action::Restart
                        },
                    },
                ],
                None => failed("no service here — move to the services or ports pane first"@),
            },
        )
    } else if c == 'o' {
        plain(opened(screen))
    } else if c == 'b' {
        plain(
            match screen.service {
                Some(service) => seq![
                    EffectView::Say(News::Working, "backing up "@ + service.service),
                    EffectView::Backup { container: service.container },
                ],
                None => failed(
                    "b backs up a service — move to the services or ports pane first"@,
                ),
            },
        )
    } else if c == 'K' {
        match screen.port {
            Some(ListenerView { port, pid: Some(pid), process }) => {
                let label = kill_label(process, pid, port);
                OutcomeView {
                    effects: seq![EffectView::Ask("kill "@ + label + "?"@)],
                    pending: Some(PendingView::Kill { pid, label }),
                    asking,
                }
            },
            _ => plain(failed("K ends what holds a port — move to the ports pane first"@)),
        }
    } else if c == 'E' {
        match screen.service {
            Some(service) => OutcomeView {
                effects: seq![EffectView::AskFor("which database to dump"@)],
                pending,
                asking: Some(AskingView::ExportDatabase { service: service.service }),
            },
            None => plain(
                failed("E dumps one database — move to the services or ports pane first"@),
            ),
        }
    } else if c == 'I' {
        match screen.service {
            Some(service) => OutcomeView {
                effects: seq![EffectView::AskFor("dump file to load"@)],
                pending,
                asking: Some(AskingView::ImportFile { service: service.service }),
            },
            None => plain(failed("I loads a dump — move to the services or ports pane first"@)),
        }
    } else if c == '.' {
        match screen.project {
            Some((name, path)) => OutcomeView {
                effects: seq![
                    EffectView::ShowDotenv { name, path },
                    EffectView::AskFor("switch .env to"@),
                ],
                pending,
                asking: Some(AskingView::SwitchDotenv { path }),
            },
            None => plain(
                failed(". shows a project's .env — move to the projects pane first"@),
            ),
        }
    } else if c == 'A' {
        OutcomeView {
            effects: seq![EffectView::AskFor("hostname to route"@)],
            pending,
            asking: Some(AskingView::DomainHost),
        }
    } else if c == 'X' {
        OutcomeView {
            effects: seq![
                EffectView::ShowDomains { failure_as_detail: true },
                EffectView::AskFor("hostname to stop routing"@),
            ],
            pending,
            asking: Some(AskingView::DomainRemove),
        }
    } else if c == ':' {
        match screen.project {
            Some((name, _)) => OutcomeView {
                effects: seq![EffectView::AskFor("command to run in it"@)],
                pending,
                asking: Some(AskingView::ExecCommand { project: name }),
            },
            None => plain(
                failed(": runs a command in a project — move to the projects pane first"@),
            ),
        }
    } else if c == 'v' {
        plain(
            match screen.project {
                Some((name, path)) => seq![EffectView::ShowToolchains { name, path }],
                None => failed(
                    "v shows a project's toolchains — move to the projects pane first"@,
                ),
            },
        )
    } else if c == 'd' {
        plain(seq![EffectView::ShowDomains { failure_as_detail: false }])
    } else if c == 'e' {
        plain(
            match screen.project {
                Some((_, path)) => seq![EffectView::OpenFolder(path)],
                None => failed("e opens a project's folder — move to the projects pane first"@),
            },
        )
    } else if c == 'p' {
        plain(
            match screen.project {
                Some((name, _)) => seq![EffectView::Leave(LeaveView::Run(name))],
                None => failed("p starts a project — move to the projects pane first"@),
            },
        )
    } else if c == 't' {
        plain(
            match screen.project {
                Some((name, _)) => seq![EffectView::Leave(LeaveView::Shell(name))],
                None => failed("t opens a shell in a project — move to the projects pane first"@),
            },
        )
    } else {
        plain(seq![])
    }
}

/// What a key means on the lists.
pub open spec fn on_lists(
    key: Key,
    screen: ScreenView,
    pending: Option<PendingView>,
    asking: Option<AskingView>,
) -> OutcomeView {
    let plain = |effects: Seq<EffectView>| OutcomeView { effects, pending, asking };
    match key {
        Key::Char(c) => on_letter(c, screen, pending, asking),
        Key::Enter => plain(
            match menu_subject(screen) {
                Some(subject) => seq![
                    EffectView::OpenMenu {
                        subject,
                        items: menu_actions(screen.focus, has_process(screen)) + menu_everywhere(),
                    },
                ],
                None => failed("nothing is selected here yet"@),
            },
        ),
        // Esc closes what is open, and only quits when there is nothing left to
        // close.
        Key::Esc => plain(
            if screen.help {
                seq![EffectView::ToggleHelp]
            } else if screen.detail {
                seq![EffectView::CloseDetail]
            } else {
                seq![EffectView::Leave(LeaveView::Quit)]
            },
        ),
        Key::Tab => plain(seq![EffectView::FocusNext]),
        Key::Right => plain(seq![EffectView::FocusNext]),
        Key::BackTab => plain(seq![EffectView::FocusPrevious]),
        Key::Left => plain(seq![EffectView::FocusPrevious]),
        Key::Down => plain(seq![EffectView::MoveSelection(1)]),
        Key::Up => plain(seq![EffectView::MoveSelection(-1)]),
        Key::PageDown => plain(seq![EffectView::MoveSelection(10)]),
        Key::PageUp => plain(seq![EffectView::MoveSelection(-10)]),
        Key::Backspace => plain(seq![]),
        Key::Other => plain(seq![]),
    }
}

/// What a key means while a menu is open. The menu is a way of finding the
/// keys, not a second path to the actions: choosing an entry becomes the
/// keystroke it names. Anything else is a slip, not a command meant for the
/// screen behind it.
pub open spec fn on_menu(
    key: Key,
    choice: Option<char>,
    screen: ScreenView,
    pending: Option<PendingView>,
    asking: Option<AskingView>,
) -> OutcomeView {
    let plain = |effects: Seq<EffectView>| OutcomeView { effects, pending, asking };
    match key {
        Key::Esc => plain(seq![EffectView::CloseMenu]),
        Key::Down => plain(seq![EffectView::MoveMenu(1)]),
        Key::Up => plain(seq![EffectView::MoveMenu(-1)]),
        Key::Char(c) => if c == 'q' {
            plain(seq![EffectView::CloseMenu])
        } else if c == 'j' {
            plain(seq![EffectView::MoveMenu(1)])
        } else if c == 'k' {
            plain(seq![EffectView::MoveMenu(-1)])
        } else {
            plain(seq![])
        },
        Key::Enter => match choice {
            Some(c) => {
                let chosen = on_lists(Key::Char(c), screen, pending, asking);
                OutcomeView { effects: seq![EffectView::CloseMenu] + chosen.effects, ..chosen }
            },
            None => plain(seq![EffectView::CloseMenu]),
        },
        _ => plain(seq![]),
    }
}

/// What a key means. A question outranks a prompt, a prompt a log, a log a
/// menu, and a menu the lists.
pub open spec fn on_key(
    key: Key,
    screen: ScreenView,
    pending: Option<PendingView>,
    asking: Option<AskingView>,
) -> OutcomeView {
    if screen.confirming {
        on_question(key, pending, asking)
    } else if screen.typed is Some {
        on_prompt(key, screen.typed->0, pending, asking)
    } else if screen.logs {
        OutcomeView { effects: on_log(key), pending, asking }
    } else {
        match screen.menu {
            Some(choice) => on_menu(key, choice, screen, pending, asking),
            None => on_lists(key, screen, pending, asking),
        }
    }
}

/// One effect.
fn one(effect: Effect) -> (effects: Vec<Effect>)
    ensures
        views(effects@) == seq![effect@],
{
    let mut effects: Vec<Effect> = Vec::new();
    effects.push(effect);
    assert(views(effects@) =~= seq![effect@]);
    effects
}

/// Two effects in order.
fn two(first: Effect, second: Effect) -> (effects: Vec<Effect>)
    ensures
        views(effects@) == seq![first@, second@],
{
    broadcast use lemma_views_push;

    let mut effects = one(first);
    effects.push(second);
    assert(views(effects@) =~= seq![first@, second@]);
    effects
}

/// Three effects in order.
fn three(first: Effect, second: Effect, third: Effect) -> (effects: Vec<Effect>)
    ensures
        views(effects@) == seq![first@, second@, third@],
{
    broadcast use lemma_views_push;

    let mut effects = two(first, second);
    effects.push(third);
    assert(views(effects@) =~= seq![first@, second@, third@]);
    effects
}

/// No effect.
fn nothing() -> (effects: Vec<Effect>)
    ensures
        views(effects@) == Seq::<EffectView>::empty(),
{
    let effects: Vec<Effect> = Vec::new();
    assert(views(effects@) =~= Seq::<EffectView>::empty());
    effects
}

/// The effects with others in front.
fn after(mut front: Vec<Effect>, mut rest: Vec<Effect>) -> (effects: Vec<Effect>)
    ensures
        views(effects@) == views(front@) + views(rest@),
{
    let ghost before = front@;
    let ghost behind = rest@;
    front.append(&mut rest);
    assert(views(front@) =~= views(before) + views(behind));
    front
}

/// News with what it is about behind the words.
fn say(news: News, words: &str, about: &str) -> (effect: Effect)
    ensures
        effect@ == EffectView::Say(news, words@ + about@),
{
    let mut text = words.to_owned();
    text.append(about);
    Effect::Say(news, text)
}

/// What could not be done.
fn cannot(text: &str) -> (effects: Vec<Effect>)
    ensures
        views(effects@) == failed(text@),
{
    one(Effect::Say(News::Failed, text.to_owned()))
}

/// Answers an open question.
fn answer_question(key: Key, pending: Option<Pending>, asking: Option<Asking>) -> (outcome: Outcome)
    ensures
        outcome@ == on_question(key, maybe_pending(pending), maybe_asking(asking)),
{
    let carried = if key != Key::Char('y') && key != Key::Char('Y') {
        one(Effect::Say(News::Done, "left alone".to_owned()))
    } else {
        match pending {
            Some(Pending::Kill { pid, label }) => two(
                say(News::Working, "killing ", label.as_str()),
                Effect::Kill { pid, label },
            ),
            Some(Pending::Import { service, database, file }) => two(
                say(News::Working, "loading into ", database.as_str()),
                Effect::Import { service, database, file },
            ),
            Some(Pending::RemoveDomain { host }) => one(Effect::RemoveDomain { host }),
            None => nothing(),
        }
    };
    Outcome { effects: after(one(Effect::Dismiss), carried), pending: None, asking }
}

/// Goes on with a typed answer.
fn take_answer(typed: String, asking: Option<Asking>, pending: Option<Pending>) -> (outcome: Outcome)
    ensures
        outcome@ == on_answer(typed@, maybe_asking(asking), maybe_pending(pending)),
{
    match asking {
        Some(Asking::ExportDatabase { service }) => Outcome {
            effects: two(
                say(News::Working, "dumping ", typed.as_str()),
                Effect::Export { service, database: typed },
            ),
            pending,
            asking: None,
        },
        Some(Asking::ImportFile { service }) => Outcome {
            effects: one(Effect::AskFor("into which database")),
            pending,
            asking: Some(Asking::ImportDatabase { service, file: typed }),
        },
        Some(Asking::ImportDatabase { service, file }) => {
            let mut question = "replace ".to_owned();
            question.append(typed.as_str());
            question.append(" on ");
            question.append(service.as_str());
            question.append(" with ");
            question.append(file.as_str());
            question.append("?");
            Outcome {
                effects: one(Effect::Ask(question)),
                pending: Some(Pending::Import { service, database: typed, file }),
                asking: None,
            }
        },
        Some(Asking::SwitchDotenv { path }) => Outcome {
            effects: one(Effect::SwitchDotenv { path, wanted: typed }),
            pending,
            asking: None,
        },
        Some(Asking::DomainHost) => Outcome {
            effects: one(Effect::AskFor("pointing at (container:port)")),
            pending,
            asking: Some(Asking::DomainUpstream { host: typed }),
        },
        Some(Asking::DomainUpstream { host }) => Outcome {
            effects: one(Effect::AddDomain { host, upstream: typed }),
            pending,
            asking: None,
        },
        Some(Asking::DomainRemove) => {
            let mut question = "stop routing ".to_owned();
            question.append(typed.as_str());
            question.append("?");
            Outcome {
                effects: one(Effect::Ask(question)),
                pending: Some(Pending::RemoveDomain { host: typed }),
                asking: None,
            }
        },
        Some(Asking::ExecCommand { project }) => Outcome {
            effects: one(Effect::Leave(Leave::Exec(project, typed))),
            pending,
            asking: None,
        },
        None => Outcome { effects: nothing(), pending, asking: None },
    }
}

/// Takes a key into an open prompt.
fn type_key(key: Key, typed: &str, pending: Option<Pending>, asking: Option<Asking>) -> (outcome:
    Outcome)
    ensures
        outcome@ == on_prompt(key, typed@, maybe_pending(pending), maybe_asking(asking)),
{
    match key {
        Key::Esc => Outcome {
            effects: two(Effect::CancelPrompt, Effect::CloseDetail),
            pending,
            asking: None,
        },
        Key::Backspace => Outcome { effects: one(Effect::Backspace), pending, asking },
        Key::Char(c) => Outcome { effects: one(Effect::Type(c)), pending, asking },
        Key::Enter => {
            let chars = chars_of(typed);
            let answer = trim(chars.as_slice());
            if answer.len() == 0 {
                let effects = three(
                    Effect::TakeTyped,
                    Effect::CloseDetail,
                    Effect::Say(News::Failed, "nothing typed, nothing done".to_owned()),
                );
                assert(views(effects@) =~= seq![
                    EffectView::TakeTyped,
                    EffectView::CloseDetail,
                ].push(EffectView::Say(News::Failed, "nothing typed, nothing done"@)));
                Outcome { effects, pending, asking: None }
            } else {
                let answered = take_answer(string_of(answer), asking, pending);
                Outcome {
                    effects: after(two(Effect::TakeTyped, Effect::CloseDetail), answered.effects),
                    pending: answered.pending,
                    asking: answered.asking,
                }
            }
        },
        _ => Outcome { effects: nothing(), pending, asking },
    }
}

/// Takes a key into an open log.
fn log_key(key: Key) -> (effects: Vec<Effect>)
    ensures
        views(effects@) == on_log(key),
{
    match key {
        Key::Esc => one(Effect::CloseLogs),
        Key::Down => one(Effect::ScrollLogs(1)),
        Key::Up => one(Effect::ScrollLogs(-1)),
        Key::PageDown => one(Effect::ScrollLogs(10)),
        Key::PageUp => one(Effect::ScrollLogs(-10)),
        Key::Char(c) => if c == 'q' || c == 'l' {
            one(Effect::CloseLogs)
        } else if c == '?' {
            one(Effect::ToggleHelp)
        } else if c == 'j' {
            one(Effect::ScrollLogs(1))
        } else if c == 'k' {
            one(Effect::ScrollLogs(-1))
        } else {
            nothing()
        },
        _ => nothing(),
    }
}

/// The entries of the menu on the focused list.
fn menu_items(focus: Tab, killable: bool) -> (items: Vec<MenuItem>)
    ensures
        views(items@) == menu_actions(focus, killable) + menu_everywhere(),
{
    broadcast use lemma_views_push;

    let mut items: Vec<MenuItem> = Vec::new();
    match focus {
        Tab::Projects => {
            items.push(MenuItem::new("run it", 'p'));
            items.push(MenuItem::new("open a shell in it", 't'));
            items.push(MenuItem::new("run one command in it", ':'));
            items.push(MenuItem::new("open its folder", 'e'));
            items.push(MenuItem::new("open it in a browser", 'o'));
            items.push(MenuItem::new("which .env it uses", '.'));
            items.push(MenuItem::new("which toolchain versions", 'v'));
        },
        _ => {
            items.push(MenuItem::new("start it", 's'));
            items.push(MenuItem::new("stop it", 'x'));
            items.push(MenuItem::new("restart it", 'S'));
            items.push(MenuItem::new("read its log", 'l'));
            items.push(MenuItem::new("open it in a browser", 'o'));
            items.push(MenuItem::new("back up all its databases", 'b'));
            items.push(MenuItem::new("dump one database", 'E'));
            items.push(MenuItem::new("load a dump into it", 'I'));
            if killable {
                items.push(MenuItem::new("end what holds this port", 'K'));
            }
        },
    }
    assert(views(items@) =~= menu_actions(focus, killable));
    let ghost actions = views(items@);
    items.push(MenuItem::new("routed hostnames", 'd'));
    items.push(MenuItem::new("refresh this pane", 'r'));
    items.push(MenuItem::new("settings", 'g'));
    items.push(MenuItem::new("every key", '?'));
    assert(views(items@) =~= actions + menu_everywhere());
    items
}

/// What can be done to the row the cursor is on, in words.
///
/// Every entry carries the key that does the same thing, and choosing one is
/// the same as pressing that key - so this is a way of finding the actions,
/// never a second copy of them. Nothing here has to be remembered, and anyone
/// who would rather stop opening the menu has already been shown how.
pub fn menu_for(screen: &Screen) -> (menu: Option<(String, Vec<MenuItem>)>)
    ensures
        match menu {
            Some((subject, items)) => menu_subject(screen@) == Some(subject@) && views(items@)
                == menu_actions(screen.focus, has_process(screen@)) + menu_everywhere(),
            None => menu_subject(screen@) is None,
        },
{
    let killable = match &screen.port {
        Some(listener) => listener.pid.is_some(),
        None => false,
    };
    let subject = match screen.focus {
        Tab::Projects => match &screen.project {
            Some(project) => project.name.clone(),
            None => {
                return None;
            },
        },
        Tab::Services => match &screen.service {
            Some(service) => service.service.clone(),
            None => {
                return None;
            },
        },
        Tab::Ports => match &screen.port {
            Some(listener) => {
                let mut subject = number_text(listener.port as u64);
                subject.append(" · ");
                match &screen.service {
                    Some(service) => {
                        subject.append(service.service.as_str());
                    },
                    None => match &listener.process {
                        Some(process) => {
                            subject.append(process.as_str());
                        },
                        None => {
                            subject.append("unknown");
                        },
                    },
                }
                subject
            },
            None => {
                return None;
            },
        },
    };
    Some((subject, menu_items(screen.focus, killable)))
}

/// What the address key opens.
fn open_key(screen: &Screen) -> (effects: Vec<Effect>)
    ensures
        views(effects@) == opened(screen@),
{
    match screen.focus {
        Tab::Projects => match &screen.project {
            Some(project) => one(
                Effect::OpenProject { name: project.name.clone(), path: project.path.clone() },
            ),
            None => cannot("nothing here says which address to open"),
        },
        _ => {
            let own = match &screen.service {
                Some(service) => match &screen.panel {
                    Some(panel) => Some(panel.clone()),
                    None => match service.port {
                        Some(port) => Some(local_url(port)),
                        None => None,
                    },
                },
                None => None,
            };
            match own {
                Some(url) => one(Effect::OpenUrl(url)),
                None => match &screen.port {
                    Some(listener) => one(Effect::OpenUrl(local_url(listener.port))),
                    None => cannot("nothing here says which address to open"),
                },
            }
        },
    }
}

/// Refreshes what is being looked at.
fn refresh_key(focus: Tab) -> (effects: Vec<Effect>)
    ensures
        views(effects@) == refreshed(focus),
{
    match focus {
        Tab::Projects => three(
            Effect::BeginRefresh,
            Effect::Say(News::Working, "rescanning projects".to_owned()),
            Effect::CollectProjects,
        ),
        Tab::Services => two(
            Effect::Say(News::Working, "rereading services".to_owned()),
            Effect::CollectServices,
        ),
        Tab::Ports => three(
            Effect::Say(News::Working, "rereading ports".to_owned()),
            Effect::CollectServices,
            Effect::CollectPorts,
        ),
    }
}

/// What a key that needs a service comes to, for those that ask nothing.
fn service_letter(c: char, screen: &Screen) -> (effects: Vec<Effect>)
    requires
        c == 'l' || c == 's' || c == 'x' || c == 'S' || c == 'b',
    ensures
        forall|pending: Option<PendingView>, asking: Option<AskingView>|
            #[trigger] on_letter(c, screen@, pending, asking) == (OutcomeView {
                effects: views(effects@),
                pending,
                asking,
            }),
{
    match &screen.service {
        Some(service) => if c == 'l' {
            one(Effect::OpenLogs { container: service.container.clone() })
        } else if c == 'b' {
            two(
                say(News::Working, "backing up ", service.service.as_str()),
                Effect::Backup { container: service.container.clone() },
            )
        } else {
            let action = if c == 's' {
                Action::Start
            } else if c == 'x' {
                Action::Stop
            } else {
                Action::Restart
            };
            one(Effect::Act { container: service.container.clone(), action })
        },
        None => if c == 'l' {
            cannot("l reads a service's log — move to the services or ports pane first")
        } else if c == 'b' {
            cannot("b backs up a service — move to the services or ports pane first")
        } else {
            cannot("no service here — move to the services or ports pane first")
        },
    }
}

/// What a key that needs a project comes to, for those that ask nothing.
fn project_letter(c: char, screen: &Screen) -> (effects: Vec<Effect>)
    requires
        c == 'v' || c == 'e' || c == 'p' || c == 't',
    ensures
        forall|pending: Option<PendingView>, asking: Option<AskingView>|
            #[trigger] on_letter(c, screen@, pending, asking) == (OutcomeView {
                effects: views(effects@),
                pending,
                asking,
            }),
{
    match &screen.project {
        Some(project) => if c == 'v' {
            one(Effect::ShowToolchains { name: project.name.clone(), path: project.path.clone() })
        } else if c == 'e' {
            one(Effect::OpenFolder(project.path.clone()))
        } else if c == 'p' {
            one(Effect::Leave(Leave::Run(project.name.clone())))
        } else {
            one(Effect::Leave(Leave::Shell(project.name.clone())))
        },
        None => if c == 'v' {
            cannot("v shows a project's toolchains — move to the projects pane first")
        } else if c == 'e' {
            cannot("e opens a project's folder — move to the projects pane first")
        } else if c == 'p' {
            cannot("p starts a project — move to the projects pane first")
        } else {
            cannot("t opens a shell in a project — move to the projects pane first")
        },
    }
}

/// Asks before ending what holds a port.
fn kill_key(screen: &Screen, pending: Option<Pending>, asking: Option<Asking>) -> (outcome: Outcome)
    ensures
        outcome@ == on_letter('K', screen@, maybe_pending(pending), maybe_asking(asking)),
{
    if let Some(listener) = &screen.port {
        if let Some(pid) = listener.pid {
            let mut label = match &listener.process {
                Some(process) => process.clone(),
                None => "that process".to_owned(),
            };
            label.append(" (pid ");
            label.append(number_text(pid as u64).as_str());
            label.append(") on ");
            label.append(number_text(listener.port as u64).as_str());
            let mut question = "kill ".to_owned();
            question.append(label.as_str());
            question.append("?");
            return Outcome {
                effects: one(Effect::Ask(question)),
                pending: Some(Pending::Kill { pid, label }),
                asking,
            };
        }
    }
    Outcome {
        effects: cannot("K ends what holds a port — move to the ports pane first"),
        pending,
        asking,
    }
}

/// What a key that opens a prompt comes to.
fn prompt_letter(c: char, screen: &Screen, pending: Option<Pending>, asking: Option<Asking>) -> (outcome:
    Outcome)
    requires
        c == 'E' || c == 'I' || c == '.' || c == 'A' || c == 'X' || c == ':',
    ensures
        outcome@ == on_letter(c, screen@, maybe_pending(pending), maybe_asking(asking)),
{
    if c == 'A' {
        return Outcome {
            effects: one(Effect::AskFor("hostname to route")),
            pending,
            asking: Some(Asking::DomainHost),
        };
    }
    if c == 'X' {
        return Outcome {
            effects: two(
                Effect::ShowDomains { failure_as_detail: true },
                Effect::AskFor("hostname to stop routing"),
            ),
            pending,
            asking: Some(Asking::DomainRemove),
        };
    }
    if c == 'E' || c == 'I' {
        return match &screen.service {
            Some(service) => if c == 'E' {
                Outcome {
                    effects: one(Effect::AskFor("which database to dump")),
                    pending,
                    asking: Some(Asking::ExportDatabase { service: service.service.clone() }),
                }
            } else {
                Outcome {
                    effects: one(Effect::AskFor("dump file to load")),
                    pending,
                    asking: Some(Asking::ImportFile { service: service.service.clone() }),
                }
            },
            None => Outcome {
                effects: if c == 'E' {
                    cannot("E dumps one database — move to the services or ports pane first")
                } else {
                    cannot("I loads a dump — move to the services or ports pane first")
                },
                pending,
                asking,
            },
        };
    }
    match &screen.project {
        Some(project) => if c == '.' {
            Outcome {
                effects: two(
                    Effect::ShowDotenv { name: project.name.clone(), path: project.path.clone() },
                    Effect::AskFor("switch .env to"),
                ),
                pending,
                asking: Some(Asking::SwitchDotenv { path: project.path.clone() }),
            }
        } else {
            Outcome {
                effects: one(Effect::AskFor("command to run in it")),
                pending,
                asking: Some(Asking::ExecCommand { project: project.name.clone() }),
            }
        },
        None => Outcome {
            effects: if c == '.' {
                cannot(". shows a project's .env — move to the projects pane first")
            } else {
                cannot(": runs a command in a project — move to the projects pane first")
            },
            pending,
            asking,
        },
    }
}

/// Takes a letter on the lists.
fn letter_key(c: char, screen: &Screen, pending: Option<Pending>, asking: Option<Asking>) -> (outcome:
    Outcome)
    ensures
        outcome@ == on_letter(c, screen@, maybe_pending(pending), maybe_asking(asking)),
{
    if c == 'K' {
        return kill_key(screen, pending, asking);
    }
    if c == 'E' || c == 'I' || c == '.' || c == 'A' || c == 'X' || c == ':' {
        return prompt_letter(c, screen, pending, asking);
    }
    let effects = if c == 'l' || c == 's' || c == 'x' || c == 'S' || c == 'b' {
        service_letter(c, screen)
    } else if c == 'v' || c == 'e' || c == 'p' || c == 't' {
        project_letter(c, screen)
    } else if c == '?' {
        one(Effect::ToggleHelp)
    } else if c == 'g' {
        one(Effect::ToggleSettings)
    } else if c == 'q' {
        one(Effect::Leave(Leave::Quit))
    } else if c == '1' {
        one(Effect::FocusOn(Tab::Projects))
    } else if c == '2' {
        one(Effect::FocusOn(Tab::Services))
    } else if c == '3' {
        one(Effect::FocusOn(Tab::Ports))
    } else if c == 'j' {
        one(Effect::MoveSelection(1))
    } else if c == 'k' {
        one(Effect::MoveSelection(-1))
    } else if c == 'r' {
        refresh_key(screen.focus)
    } else if c == 'R' {
        let effects = after(
            two(
                Effect::BeginRefresh,
                Effect::Say(News::Working, "refreshing everything".to_owned()),
            ),
            three(Effect::CollectProjects, Effect::CollectServices, Effect::CollectPorts),
        );
        assert(views(effects@) =~= seq![
            EffectView::BeginRefresh,
            EffectView::Say(News::Working, "refreshing everything"@),
            EffectView::CollectProjects,
            EffectView::CollectServices,
            EffectView::CollectPorts,
        ]);
        effects
    } else if c == 'o' {
        open_key(screen)
    } else if c == 'd' {
        one(Effect::ShowDomains { failure_as_detail: false })
    } else {
        nothing()
    };
    Outcome { effects, pending, asking }
}

/// Takes a key on the lists.
fn list_key(key: Key, screen: &Screen, pending: Option<Pending>, asking: Option<Asking>) -> (outcome:
    Outcome)
    ensures
        outcome@ == on_lists(key, screen@, maybe_pending(pending), maybe_asking(asking)),
{
    let effects = match key {
        Key::Char(c) => {
            return letter_key(c, screen, pending, asking);
        },
        Key::Enter => match menu_for(screen) {
            Some((subject, items)) => one(Effect::OpenMenu { subject, items }),
            None => cannot("nothing is selected here yet"),
        },
        Key::Esc => if screen.help {
            one(Effect::ToggleHelp)
        } else if screen.detail {
            one(Effect::CloseDetail)
        } else {
            one(Effect::Leave(Leave::Quit))
        },
        Key::Tab => one(Effect::FocusNext),
        Key::Right => one(Effect::FocusNext),
        Key::BackTab => one(Effect::FocusPrevious),
        Key::Left => one(Effect::FocusPrevious),
        Key::Down => one(Effect::MoveSelection(1)),
        Key::Up => one(Effect::MoveSelection(-1)),
        Key::PageDown => one(Effect::MoveSelection(10)),
        Key::PageUp => one(Effect::MoveSelection(-10)),
        Key::Backspace => nothing(),
        Key::Other => nothing(),
    };
    Outcome { effects, pending, asking }
}

/// Takes a key into an open menu.
fn menu_key(
    key: Key,
    choice: Option<char>,
    screen: &Screen,
    pending: Option<Pending>,
    asking: Option<Asking>,
) -> (outcome: Outcome)
    ensures
        outcome@ == on_menu(key, choice, screen@, maybe_pending(pending), maybe_asking(asking)),
{
    let effects = match key {
        Key::Esc => one(Effect::CloseMenu),
        Key::Down => one(Effect::MoveMenu(1)),
        Key::Up => one(Effect::MoveMenu(-1)),
        Key::Char(c) => if c == 'q' {
            one(Effect::CloseMenu)
        } else if c == 'j' {
            one(Effect::MoveMenu(1))
        } else if c == 'k' {
            one(Effect::MoveMenu(-1))
        } else {
            nothing()
        },
        Key::Enter => match choice {
            Some(c) => {
                let chosen = list_key(Key::Char(c), screen, pending, asking);
                return Outcome {
                    effects: after(one(Effect::CloseMenu), chosen.effects),
                    pending: chosen.pending,
                    asking: chosen.asking,
                };
            },
            None => one(Effect::CloseMenu),
        },
        _ => nothing(),
    };
    Outcome { effects, pending, asking }
}

/// What a key does on the screen as it is: the effects to carry out in their
/// order, and what is held back and asked for from then on.
pub fn press(key: Key, screen: &Screen, pending: Option<Pending>, asking: Option<Asking>) -> (outcome:
    Outcome)
    ensures
        outcome@ == on_key(key, screen@, maybe_pending(pending), maybe_asking(asking)),
{
    if screen.confirming {
        return answer_question(key, pending, asking);
    }
    if let Some(typed) = &screen.typed {
        return type_key(key, typed.as_str(), pending, asking);
    }
    if screen.logs {
        return Outcome { effects: log_key(key), pending, asking };
    }
    match screen.menu {
        Some(choice) => menu_key(key, choice, screen, pending, asking),
        None => list_key(key, screen, pending, asking),
    }
}

/// Whether an effect destroys something that nothing else here keeps.
pub open spec fn destroys(effect: EffectView) -> bool {
    effect is Kill || effect is Import || effect is RemoveDomain
}

/// Nothing is destroyed by accident: an effect that destroys something comes
/// only from an explicit y to an open question, and it is the very action that
/// was held back.
pub proof fn law_only_a_yes_destroys(
    key: Key,
    screen: ScreenView,
    pending: Option<PendingView>,
    asking: Option<AskingView>,
    at: int,
)
    requires
        0 <= at < on_key(key, screen, pending, asking).effects.len(),
        destroys(on_key(key, screen, pending, asking).effects[at]),
    ensures
        screen.confirming,
        key == Key::Char('y') || key == Key::Char('Y'),
        match on_key(key, screen, pending, asking).effects[at] {
            EffectView::Kill { pid, label } => pending == Some(PendingView::Kill { pid, label }),
            EffectView::Import { service, database, file } => pending == Some(
                PendingView::Import { service, database, file },
            ),
            EffectView::RemoveDomain { host } => pending == Some(
                PendingView::RemoveDomain { host },
            ),
            _ => false,
        },
{
}

/// A question is answered once: whatever the key, the question is put away and
/// nothing is held back any more.
pub proof fn law_a_question_is_answered_once(
    key: Key,
    screen: ScreenView,
    pending: Option<PendingView>,
    asking: Option<AskingView>,
)
    requires
        screen.confirming,
    ensures
        on_key(key, screen, pending, asking).effects[0] == EffectView::Dismiss,
        on_key(key, screen, pending, asking).pending is None,
        key != Key::Char('y') && key != Key::Char('Y') ==> on_key(
            key,
            screen,
            pending,
            asking,
        ).effects == seq![EffectView::Dismiss, EffectView::Say(News::Done, "left alone"@)],
{
}

/// What is held back is exactly what the question on the screen names: an
/// action is held back only where a question is put, and never without one.
pub proof fn law_nothing_is_held_back_unasked(
    key: Key,
    screen: ScreenView,
    asking: Option<AskingView>,
)
    ensures
        match on_key(key, screen, None, asking).pending {
            Some(PendingView::Kill { label, .. }) => on_key(
                key,
                screen,
                None,
                asking,
            ).effects.last() == EffectView::Ask("kill "@ + label + "?"@),
            Some(PendingView::Import { service, database, file }) => on_key(
                key,
                screen,
                None,
                asking,
            ).effects.last() == EffectView::Ask(
                "replace "@ + database + " on "@ + service + " with "@ + file + "?"@,
            ),
            Some(PendingView::RemoveDomain { host }) => on_key(
                key,
                screen,
                None,
                asking,
            ).effects.last() == EffectView::Ask("stop routing "@ + host + "?"@),
            None => true,
        },
{
}

/// A prompt takes every letter: what is typed lands in the name being typed
/// and does nothing else.
pub proof fn law_a_prompt_takes_every_letter(
    c: char,
    screen: ScreenView,
    pending: Option<PendingView>,
    asking: Option<AskingView>,
)
    requires
        !screen.confirming,
        screen.typed is Some,
    ensures
        on_key(Key::Char(c), screen, pending, asking) == (OutcomeView {
            effects: seq![EffectView::Type(c)],
            pending,
            asking,
        }),
{
}

/// An empty answer does nothing: whatever the prompt was for, it is closed and
/// dropped.
pub proof fn law_nothing_typed_nothing_done(
    screen: ScreenView,
    pending: Option<PendingView>,
    asking: Option<AskingView>,
)
    requires
        !screen.confirming,
        screen.typed matches Some(typed) && trimmed(typed).len() == 0,
    ensures
        on_key(Key::Enter, screen, pending, asking) == (OutcomeView {
            effects: seq![
                EffectView::TakeTyped,
                EffectView::CloseDetail,
                EffectView::Say(News::Failed, "nothing typed, nothing done"@),
            ],
            pending,
            asking: None,
        }),
{
}

/// Choosing a menu entry is the same as pressing the key it names, once the
/// menu is closed.
pub proof fn law_choosing_is_pressing(
    c: char,
    screen: ScreenView,
    pending: Option<PendingView>,
    asking: Option<AskingView>,
)
    requires
        !screen.confirming,
        screen.typed is None,
        !screen.logs,
        screen.menu == Some(Some(c)),
    ensures
        ({
            let closed = ScreenView { menu: None, ..screen };
            let pressed = on_key(Key::Char(c), closed, pending, asking);
            on_key(Key::Enter, screen, pending, asking) == OutcomeView {
                effects: seq![EffectView::CloseMenu] + pressed.effects,
                ..pressed
            }
        }),
{
}

/// Esc leaves only when there is nothing left to close.
pub proof fn law_esc_closes_before_it_leaves(
    screen: ScreenView,
    pending: Option<PendingView>,
    asking: Option<AskingView>,
)
    ensures
        on_key(Key::Esc, screen, pending, asking).effects.contains(
            EffectView::Leave(LeaveView::Quit),
        ) <==> !screen.confirming && screen.typed is None && !screen.logs && screen.menu is None
            && !screen.help && !screen.detail,
{
    let outcome = on_key(Key::Esc, screen, pending, asking);
    if !screen.confirming && screen.typed is None && !screen.logs && screen.menu is None
        && !screen.help && !screen.detail {
        assert(outcome.effects[0] == EffectView::Leave(LeaveView::Quit));
    }
}

/// Every entry of the menu names a key that does something, whatever is
/// selected: no entry is dead.
pub proof fn law_every_menu_entry_does_something(
    screen: ScreenView,
    pending: Option<PendingView>,
    asking: Option<AskingView>,
    at: int,
)
    requires
        0 <= at < (menu_actions(screen.focus, has_process(screen)) + menu_everywhere()).len(),
    ensures
        on_letter(
            (menu_actions(screen.focus, has_process(screen)) + menu_everywhere())[at].1,
            screen,
            pending,
            asking,
        ).effects.len() > 0,
{
}

/// Whether a key goes to the lists: no question is open, nothing is being typed,
/// and neither a log nor a menu is in front.
pub open spec fn goes_to_the_lists(screen: ScreenView) -> bool {
    !screen.confirming && screen.typed is None && !screen.logs && screen.menu is None
}

/// The arrows and their letters move by one row, the page keys by ten, and the
/// other arrows and the tab key from pane to pane; a digit opens its pane.
pub proof fn law_movement_keys_move(
    screen: ScreenView,
    pending: Option<PendingView>,
    asking: Option<AskingView>,
)
    requires
        goes_to_the_lists(screen),
    ensures
        ({
            let does = |key: Key| on_key(key, screen, pending, asking).effects;
            &&& does(Key::Down) == seq![EffectView::MoveSelection(1)]
            &&& does(Key::Char('j')) == does(Key::Down)
            &&& does(Key::Up) == seq![EffectView::MoveSelection(-1)]
            &&& does(Key::Char('k')) == does(Key::Up)
            &&& does(Key::PageDown) == seq![EffectView::MoveSelection(10)]
            &&& does(Key::PageUp) == seq![EffectView::MoveSelection(-10)]
            &&& does(Key::Tab) == seq![EffectView::FocusNext]
            &&& does(Key::Right) == does(Key::Tab)
            &&& does(Key::BackTab) == seq![EffectView::FocusPrevious]
            &&& does(Key::Left) == does(Key::BackTab)
            &&& does(Key::Char('1')) == seq![EffectView::FocusOn(Tab::Projects)]
            &&& does(Key::Char('2')) == seq![EffectView::FocusOn(Tab::Services)]
            &&& does(Key::Char('3')) == seq![EffectView::FocusOn(Tab::Ports)]
            &&& does(Key::Char('?')) == seq![EffectView::ToggleHelp]
            &&& does(Key::Char('g')) == seq![EffectView::ToggleSettings]
            &&& does(Key::Char('q')) == seq![EffectView::Leave(LeaveView::Quit)]
            &&& does(Key::Char('d')) == seq![
                EffectView::ShowDomains { failure_as_detail: false },
            ]
        }),
{
}

/// The letters of a service act on the container of the one that is selected; of
/// its databases they ask first.
pub proof fn law_service_letters_act_on_the_service(
    screen: ScreenView,
    pending: Option<PendingView>,
    asking: Option<AskingView>,
    service: ServiceStatusView,
)
    requires
        goes_to_the_lists(screen),
        screen.service == Some(service),
    ensures
        ({
            let pressed = |c: char| on_key(Key::Char(c), screen, pending, asking);
            let container = service.container;
            &&& pressed('s').effects == seq![EffectView::Act { container, action: Action::Start }]
            &&& pressed('x').effects == seq![EffectView::Act { container, action: Action::Stop }]
            &&& pressed('S').effects == seq![EffectView::Act { container, action: Action::Restart }]
            &&& pressed('l').effects == seq![EffectView::OpenLogs { container }]
            &&& pressed('b').effects == seq![
                EffectView::Say(News::Working, "backing up "@ + service.service),
                EffectView::Backup { container },
            ]
            &&& pressed('E').effects == seq![EffectView::AskFor("which database to dump"@)]
            &&& pressed('E').asking == Some(
                AskingView::ExportDatabase { service: service.service },
            )
            &&& pressed('I').effects == seq![EffectView::AskFor("dump file to load"@)]
            &&& pressed('I').asking == Some(AskingView::ImportFile { service: service.service })
        }),
{
}

/// The letters of a project are about the one that is selected: they run it, open
/// a shell or its folder, show its toolchains and its variants, or ask for a
/// command to run in it.
pub proof fn law_project_letters_are_about_the_project(
    screen: ScreenView,
    pending: Option<PendingView>,
    asking: Option<AskingView>,
    name: Seq<char>,
    path: Seq<char>,
)
    requires
        goes_to_the_lists(screen),
        screen.project == Some((name, path)),
    ensures
        ({
            let pressed = |c: char| on_key(Key::Char(c), screen, pending, asking);
            &&& pressed('p').effects == seq![EffectView::Leave(LeaveView::Run(name))]
            &&& pressed('t').effects == seq![EffectView::Leave(LeaveView::Shell(name))]
            &&& pressed('e').effects == seq![EffectView::OpenFolder(path)]
            &&& pressed('v').effects == seq![EffectView::ShowToolchains { name, path }]
            &&& pressed('.').effects == seq![
                EffectView::ShowDotenv { name, path },
                EffectView::AskFor("switch .env to"@),
            ]
            &&& pressed('.').asking == Some(AskingView::SwitchDotenv { path })
            &&& pressed(':').effects == seq![EffectView::AskFor("command to run in it"@)]
            &&& pressed(':').asking == Some(AskingView::ExecCommand { project: name })
        }),
{
}

/// A letter that needs a service or a project does nothing without one but say
/// so: it asks nothing, holds nothing back and leaves nothing.
pub proof fn law_a_letter_without_its_subject_only_complains(
    c: char,
    screen: ScreenView,
    pending: Option<PendingView>,
    asking: Option<AskingView>,
)
    requires
        goes_to_the_lists(screen),
        (screen.service is None && (c == 's' || c == 'x' || c == 'S' || c == 'l' || c == 'b' || c
            == 'E' || c == 'I')) || (screen.project is None && (c == 'p' || c == 't' || c == 'e'
            || c == 'v' || c == '.' || c == ':')) || (c == 'K' && !has_process(screen)),
    ensures
        ({
            let pressed = on_key(Key::Char(c), screen, pending, asking);
            &&& pressed.effects.len() == 1
            &&& pressed.effects[0] matches EffectView::Say(News::Failed, _)
            &&& pressed.pending == pending
            &&& pressed.asking == asking
        }),
{
}

/// What is asked about is what is done: a yes ends the process, loads the dump or
/// removes the host that the question named.
pub proof fn law_a_yes_does_what_was_asked(
    c: char,
    screen: ScreenView,
    asking: Option<AskingView>,
    pending: PendingView,
)
    requires
        screen.confirming,
        c == 'y' || c == 'Y',
    ensures
        on_key(Key::Char(c), screen, Some(pending), asking).effects.last() == (match pending {
            PendingView::Kill { pid, label } => EffectView::Kill { pid, label },
            PendingView::Import { service, database, file } => EffectView::Import {
                service,
                database,
                file,
            },
            PendingView::RemoveDomain { host } => EffectView::RemoveDomain { host },
        }),
{
}

/// Ending what holds a port asks first, about the process that holds the selected
/// port.
pub proof fn law_ending_a_process_asks_about_that_process(
    screen: ScreenView,
    pending: Option<PendingView>,
    asking: Option<AskingView>,
    port: u16,
    pid: u32,
    process: Option<Seq<char>>,
)
    requires
        goes_to_the_lists(screen),
        screen.port == Some(ListenerView { port, pid: Some(pid), process }),
    ensures
        ({
            let label = (if process is Some {
                process->0
            } else {
                "that process"@
            }) + " (pid "@ + decimal(pid as nat) + ") on "@ + decimal(port as nat);
            let pressed = on_key(Key::Char('K'), screen, pending, asking);
            &&& pressed.pending == Some(PendingView::Kill { pid, label })
            &&& pressed.effects == seq![EffectView::Ask("kill "@ + label + "?"@)]
        }),
{
}

/// An import is asked for in two answers and a question: the file, the database,
/// and whether to replace the one with the other. What was typed is what is
/// loaded.
#[verifier::rlimit(40)]
pub proof fn law_an_import_keeps_what_was_typed(
    screen: ScreenView,
    service: Seq<char>,
    file: Seq<char>,
    database: Seq<char>,
)
    requires
        !screen.confirming,
        file.len() > 0 && !is_white(file[0]) && !is_white(file.last()),
        database.len() > 0 && !is_white(database[0]) && !is_white(database.last()),
    ensures
        ({
            let named = on_key(
                Key::Enter,
                ScreenView { typed: Some(file), ..screen },
                None,
                Some(AskingView::ImportFile { service }),
            );
            let chosen = on_key(
                Key::Enter,
                ScreenView { typed: Some(database), ..screen },
                None,
                named.asking,
            );
            let agreed = on_key(
                Key::Char('y'),
                ScreenView { confirming: true, ..screen },
                chosen.pending,
                None,
            );
            &&& named.pending is None
            &&& chosen.effects.last() == EffectView::Ask(
                "replace "@ + database + " on "@ + service + " with "@ + file + "?"@,
            )
            &&& agreed.effects.last() == (EffectView::Import { service, database, file })
        }),
{
    let none = Seq::<char>::empty();
    law_trimming_keeps_the_core(none, file, none);
    law_trimming_keeps_the_core(none, database, none);
    assert(none + file + none =~= file);
    assert(none + database + none =~= database);
}

/// An answer does what its prompt was opened for, with what was typed.
#[verifier::rlimit(40)]
pub proof fn law_an_answer_goes_where_it_was_asked_for(
    screen: ScreenView,
    pending: Option<PendingView>,
    typed: Seq<char>,
    subject: Seq<char>,
)
    requires
        !screen.confirming,
        screen.typed == Some(typed),
        typed.len() > 0 && !is_white(typed[0]) && !is_white(typed.last()),
    ensures
        ({
            let answered = |asking: AskingView| on_key(Key::Enter, screen, pending, Some(asking));
            &&& answered(AskingView::ExportDatabase { service: subject }).effects.last() == (
            EffectView::Export { service: subject, database: typed })
            &&& answered(AskingView::SwitchDotenv { path: subject }).effects.last() == (
            EffectView::SwitchDotenv { path: subject, wanted: typed })
            &&& answered(AskingView::DomainHost).asking == Some(
                AskingView::DomainUpstream { host: typed },
            )
            &&& answered(AskingView::DomainUpstream { host: subject }).effects.last() == (
            EffectView::AddDomain { host: subject, upstream: typed })
            &&& answered(AskingView::DomainRemove).pending == Some(
                PendingView::RemoveDomain { host: typed },
            )
            &&& answered(AskingView::ExecCommand { project: subject }).effects.last()
                == EffectView::Leave(LeaveView::Exec(subject, typed))
        }),
{
    let none = Seq::<char>::empty();
    law_trimming_keeps_the_core(none, typed, none);
    assert(none + typed + none =~= typed);
}

/// A refresh rereads what its pane shows, and no more; the capital letter rereads
/// everything.
pub proof fn law_a_refresh_rereads_its_pane(
    screen: ScreenView,
    pending: Option<PendingView>,
    asking: Option<AskingView>,
)
    requires
        goes_to_the_lists(screen),
    ensures
        ({
            let one = on_key(Key::Char('r'), screen, pending, asking).effects;
            let all = on_key(Key::Char('R'), screen, pending, asking).effects;
            &&& one.contains(EffectView::CollectProjects) <==> screen.focus is Projects
            &&& one.contains(EffectView::CollectServices) <==> !(screen.focus is Projects)
            &&& one.contains(EffectView::CollectPorts) <==> screen.focus is Ports
            &&& all.contains(EffectView::CollectProjects) && all.contains(
                EffectView::CollectServices,
            ) && all.contains(EffectView::CollectPorts)
        }),
{
    let one = on_key(Key::Char('r'), screen, pending, asking).effects;
    let all = on_key(Key::Char('R'), screen, pending, asking).effects;
    assert(all[2] is CollectProjects && all[3] is CollectServices && all[4] is CollectPorts);
    match screen.focus {
        Tab::Projects => {
            assert(one[2] is CollectProjects);
        },
        Tab::Services => {
            assert(one[1] is CollectServices);
        },
        Tab::Ports => {
            assert(one[1] is CollectServices && one[2] is CollectPorts);
        },
    }
}

/// What is opened is what is selected: the project, or the panel of the service,
/// or its port, or the port that something listens on.
pub proof fn law_what_is_selected_is_opened(
    screen: ScreenView,
    pending: Option<PendingView>,
    asking: Option<AskingView>,
)
    requires
        goes_to_the_lists(screen),
    ensures
        ({
            let effects = on_key(Key::Char('o'), screen, pending, asking).effects;
            &&& screen.focus is Projects ==> (screen.project matches Some((name, path))
                ==> effects == seq![EffectView::OpenProject { name, path }])
            &&& !(screen.focus is Projects) && screen.service is Some && screen.panel is Some
                ==> effects == seq![EffectView::OpenUrl(screen.panel->0)]
            &&& !(screen.focus is Projects) && screen.service is Some && screen.panel is None
                && screen.service->0.port is Some ==> effects == seq![
                EffectView::OpenUrl(
                    "http://localhost:"@ + decimal(screen.service->0.port->0 as nat),
                ),
            ]
            &&& !(screen.focus is Projects) && screen.service is None && screen.port is Some
                ==> effects == seq![
                EffectView::OpenUrl("http://localhost:"@ + decimal(screen.port->0.port as nat)),
            ]
        }),
{
}

/// A log is scrolled by the keys that move, and closed by the key that opened it
/// as well as by those that leave.
pub proof fn law_a_log_is_scrolled_and_closed(
    screen: ScreenView,
    pending: Option<PendingView>,
    asking: Option<AskingView>,
)
    requires
        !screen.confirming,
        screen.typed is None,
        screen.logs,
    ensures
        ({
            let does = |key: Key| on_key(key, screen, pending, asking).effects;
            &&& does(Key::Down) == seq![EffectView::ScrollLogs(1)]
            &&& does(Key::Char('j')) == does(Key::Down)
            &&& does(Key::Up) == seq![EffectView::ScrollLogs(-1)]
            &&& does(Key::Char('k')) == does(Key::Up)
            &&& does(Key::PageDown) == seq![EffectView::ScrollLogs(10)]
            &&& does(Key::PageUp) == seq![EffectView::ScrollLogs(-10)]
            &&& does(Key::Esc) == seq![EffectView::CloseLogs]
            &&& does(Key::Char('q')) == does(Key::Esc)
            &&& does(Key::Char('l')) == does(Key::Esc)
            &&& does(Key::Char('?')) == seq![EffectView::ToggleHelp]
        }),
{
}

/// A menu is moved through and closed, and its letters do nothing else.
pub proof fn law_a_menu_is_moved_through(
    screen: ScreenView,
    pending: Option<PendingView>,
    asking: Option<AskingView>,
    c: char,
)
    requires
        !screen.confirming,
        screen.typed is None,
        !screen.logs,
        screen.menu is Some,
    ensures
        ({
            let does = |key: Key| on_key(key, screen, pending, asking).effects;
            &&& does(Key::Down) == seq![EffectView::MoveMenu(1)]
            &&& does(Key::Char('j')) == does(Key::Down)
            &&& does(Key::Up) == seq![EffectView::MoveMenu(-1)]
            &&& does(Key::Char('k')) == does(Key::Up)
            &&& does(Key::Esc) == seq![EffectView::CloseMenu]
            &&& does(Key::Char('q')) == does(Key::Esc)
            &&& c != 'j' && c != 'k' && c != 'q' ==> does(Key::Char(c)).len() == 0
        }),
{
}

/// A menu entry is the letter of what its label says; ending what holds a port is
/// offered only where a process is known.
pub proof fn law_menu_entries_are_letters(killable: bool)
    ensures
        menu_actions(Tab::Projects, killable) == seq![
            ("run it"@, 'p'),
            ("open a shell in it"@, 't'),
            ("run one command in it"@, ':'),
            ("open its folder"@, 'e'),
            ("open it in a browser"@, 'o'),
            ("which .env it uses"@, '.'),
            ("which toolchain versions"@, 'v'),
        ],
        menu_actions(Tab::Services, killable) == menu_actions(Tab::Ports, killable),
        menu_actions(Tab::Ports, false) == seq![
            ("start it"@, 's'),
            ("stop it"@, 'x'),
            ("restart it"@, 'S'),
            ("read its log"@, 'l'),
            ("open it in a browser"@, 'o'),
            ("back up all its databases"@, 'b'),
            ("dump one database"@, 'E'),
            ("load a dump into it"@, 'I'),
        ],
        menu_actions(Tab::Ports, true) == menu_actions(Tab::Ports, false).push(
            ("end what holds this port"@, 'K'),
        ),
        menu_everywhere() == seq![
            ("routed hostnames"@, 'd'),
            ("refresh this pane"@, 'r'),
            ("settings"@, 'g'),
            ("every key"@, '?'),
        ],
{
}

/// A menu is about what is selected in its pane: the project, the service, or the
/// port with who holds it.
pub proof fn law_a_menu_is_about_what_is_selected(screen: ScreenView)
    ensures
        screen.focus is Projects ==> match screen.project {
            Some((name, _)) => menu_subject(screen) == Some(name),
            None => menu_subject(screen) is None,
        },
        screen.focus is Services ==> match screen.service {
            Some(service) => menu_subject(screen) == Some(service.service),
            None => menu_subject(screen) is None,
        },
        screen.focus is Ports ==> match screen.port {
            Some(listener) => menu_subject(screen) == Some(
                decimal(listener.port as nat) + " · "@ + (if screen.service is Some {
                    screen.service->0.service
                } else if listener.process is Some {
                    listener.process->0
                } else {
                    "unknown"@
                }),
            ),
            None => menu_subject(screen) is None,
        },
{
}

/// Adding a hostname asks for it, and removing one shows those there are and asks
/// which.
pub proof fn law_hostname_letters_ask_for_a_hostname(
    screen: ScreenView,
    pending: Option<PendingView>,
    asking: Option<AskingView>,
)
    requires
        goes_to_the_lists(screen),
    ensures
        on_key(Key::Char('A'), screen, pending, asking) == (OutcomeView {
            effects: seq![EffectView::AskFor("hostname to route"@)],
            pending,
            asking: Some(AskingView::DomainHost),
        }),
        on_key(Key::Char('X'), screen, pending, asking) == (OutcomeView {
            effects: seq![
                EffectView::ShowDomains { failure_as_detail: true },
                EffectView::AskFor("hostname to stop routing"@),
            ],
            pending,
            asking: Some(AskingView::DomainRemove),
        }),
{
}

/// A prompt that is left asks nothing any more, and one that is corrected goes on
/// asking.
pub proof fn law_a_prompt_can_be_left_and_corrected(
    screen: ScreenView,
    pending: Option<PendingView>,
    asking: Option<AskingView>,
)
    requires
        !screen.confirming,
        screen.typed is Some,
    ensures
        on_key(Key::Esc, screen, pending, asking) == (OutcomeView {
            effects: seq![EffectView::CancelPrompt, EffectView::CloseDetail],
            pending,
            asking: None,
        }),
        on_key(Key::Backspace, screen, pending, asking) == (OutcomeView {
            effects: seq![EffectView::Backspace],
            pending,
            asking,
        }),
{
}

} // verus!
