//! What the commands print.

use crate::domain::{Project, ProjectView, ServiceStatus, ServiceStatusView};
use crate::dotenv::BACKUP;
use crate::listen::{Listener, ListenerView};
use crate::memory::Reading;
use crate::ports::{ScanOutcome, ScanOutcomeView};
use crate::table::{column, fit, indent, indented, megabytes, megabytes_text, pad, padded};
use crate::text::{
    copy_maybe, decimal, has_text, join, joined, lemma_views_push, maybe_text, number_text, same, views,
};
use crate::tui::{
    built_with, framework_label, or_dash, port_or_dash, port_text, stack_name, text_or_dash,
};
use vstd::prelude::*;
use vstd::string::*;

verus! {

/// The line about a project.
pub open spec fn project_line(project: ProjectView) -> Seq<char> {
    column(project.name, 30) + " "@ + column(or_dash(project.category), 14) + " "@ + column(
        built_with(project),
        18,
    ) + " "@ + column(or_dash(project.git.branch), 22) + " "@ + project.git.badge_text()
}

/// The line about a directory that could not be read. "skipped", not "failed":
/// the commonest cause is a root on a drive that is not plugged in, and calling
/// that a failure reads as damage.
pub open spec fn skipped_line(failure: (Seq<char>, Seq<char>)) -> Seq<char> {
    padded("! skipped"@, 30) + " "@ + failure.0 + " ("@ + failure.1 + ")"@
}

/// The line that adds a scan up. The denominator is printed on purpose: "no
/// projects" and "nothing was examined" are different answers and must not read
/// the same.
pub open spec fn scan_total(outcome: ScanOutcomeView, elapsed: Seq<char>) -> Seq<char> {
    decimal(outcome.projects.len()) + " projects, "@ + decimal(outcome.failures.len())
        + " roots skipped, "@ + (match outcome.scanned {
        Some(count) => decimal(count as nat),
        None => "?"@,
    }) + " directories examined in "@ + elapsed + "s"@
}

/// What is said when a scan comes back empty: which directories, and what named
/// them. The suggestion goes last and only when no configuration file was found
/// at all.
pub open spec fn nothing_text(roots: Seq<Seq<char>>, chosen: Option<Seq<char>>) -> Seq<Seq<char>> {
    seq!["looked in "@ + joined(roots, ", "@)] + match chosen {
        Some(path) => seq!["as "@ + path + " says to"@],
        None => seq![
            "no configuration file was found, so that is the default"@,
            ""@,
            "adev config --init writes one describing this machine, which is the quickest way to point this at your projects"@,
        ],
    }
}

/// What a scan prints.
pub open spec fn scan_text(
    outcome: ScanOutcomeView,
    elapsed: Seq<char>,
    roots: Seq<Seq<char>>,
    chosen: Option<Seq<char>>,
) -> Seq<Seq<char>> {
    outcome.projects.map_values(|project: ProjectView| project_line(project))
        + outcome.failures.map_values(|failure: (Seq<char>, Seq<char>)| skipped_line(failure))
        + seq![""@, scan_total(outcome, elapsed)] + if outcome.projects.len() == 0 {
        nothing_text(roots, chosen)
    } else {
        seq![]
    }
}

fn project_text(project: &Project) -> (line: String)
    ensures
        line@ == project_line(project@),
{
    let mut line = fit(project.name.as_str(), 30);
    line.append(" ");
    line.append(fit(text_or_dash(&project.category).as_str(), 14).as_str());
    line.append(" ");
    line.append(fit(framework_label(project).as_str(), 18).as_str());
    line.append(" ");
    line.append(fit(text_or_dash(&project.git.branch).as_str(), 22).as_str());
    line.append(" ");
    line.append(project.git.badge().as_str());
    line
}

/// Says that a scan came back empty.
pub fn nothing_found(roots: &[String], chosen: &Option<String>) -> (lines: Vec<String>)
    ensures
        views(lines@) == nothing_text(views(roots@), maybe_text(*chosen)),
{
    let mut looked = "looked in ".to_owned();
    looked.append(join(roots, ", ").as_str());
    let mut lines = vec![looked];
    match chosen {
        Some(path) => {
            let mut says = "as ".to_owned();
            says.append(path.as_str());
            says.append(" says to");
            lines.push(says);
        },
        None => {
            lines.push("no configuration file was found, so that is the default".to_owned());
            lines.push("".to_owned());
            lines.push(
                "adev config --init writes one describing this machine, which is the quickest way to point this at your projects".to_owned(),
            );
        },
    }
    assert(views(lines@) =~= nothing_text(views(roots@), maybe_text(*chosen)));
    lines
}

/// Says what a scan found.
pub fn scan_lines(
    outcome: &ScanOutcome,
    elapsed: &str,
    roots: &[String],
    chosen: &Option<String>,
) -> (lines: Vec<String>)
    ensures
        views(lines@) == scan_text(outcome@, elapsed@, views(roots@), maybe_text(*chosen)),
{
    broadcast use lemma_views_push;

    let ghost found = outcome@.projects.map_values(|project: ProjectView| project_line(project));
    let ghost missed = outcome@.failures.map_values(
        |failure: (Seq<char>, Seq<char>)| skipped_line(failure),
    );
    let mut lines: Vec<String> = Vec::new();
    let mut i: usize = 0;
    while i < outcome.projects.len()
        invariant
            i <= outcome.projects@.len(),
            found == outcome@.projects.map_values(|project: ProjectView| project_line(project)),
            views(lines@) == found.take(i as int),
        decreases outcome.projects@.len() - i,
    {
        lines.push(project_text(&outcome.projects[i]));
        assert(found[i as int] == project_line(outcome.projects@[i as int]@));
        assert(found.take(i + 1) =~= found.take(i as int).push(found[i as int]));
        i = i + 1;
    }
    assert(found.take(i as int) =~= found);
    let mut k: usize = 0;
    assert(found + missed.take(0) =~= found);
    while k < outcome.failures.len()
        invariant
            k <= outcome.failures@.len(),
            missed == outcome@.failures.map_values(
                |failure: (Seq<char>, Seq<char>)| skipped_line(failure),
            ),
            views(lines@) == found + missed.take(k as int),
        decreases outcome.failures@.len() - k,
    {
        let mut line = pad("! skipped", 30);
        line.append(" ");
        line.append(outcome.failures[k].0.as_str());
        line.append(" (");
        line.append(outcome.failures[k].1.as_str());
        line.append(")");
        lines.push(line);
        assert(missed[k as int] == skipped_line(outcome.failures@[k as int]@));
        assert(found + missed.take(k + 1) =~= (found + missed.take(k as int)).push(
            missed[k as int],
        ));
        k = k + 1;
    }
    assert(missed.take(k as int) =~= missed);
    let mut total = number_text(outcome.projects.len() as u64);
    total.append(" projects, ");
    total.append(number_text(outcome.failures.len() as u64).as_str());
    total.append(" roots skipped, ");
    match outcome.scanned {
        Some(count) => {
            total.append(number_text(count as u64).as_str());
        },
        None => {
            total.append("?");
        },
    }
    total.append(" directories examined in ");
    total.append(elapsed);
    total.append("s");
    lines.push("".to_owned());
    lines.push(total);
    let ghost so_far = views(lines@);
    assert(so_far =~= found + missed + seq![""@, scan_total(outcome@, elapsed@)]);
    if outcome.projects.len() == 0 {
        let mut rest = nothing_found(roots, chosen);
        let ghost more = views(rest@);
        lines.append(&mut rest);
        assert(views(lines@) =~= so_far + more);
    } else {
        assert(so_far + Seq::<Seq<char>>::empty() =~= so_far);
    }
    lines
}

/// The line about a service. The last column only appears when it was asked
/// for, so the usual listing is not padded with dashes for a reading nobody
/// wanted.
pub open spec fn service_line(service: ServiceStatusView, memory: bool) -> Seq<char> {
    column(service.service, 18) + " "@ + column(service.container, 24) + " "@ + padded(
        port_or_dash(service.port),
        7,
    ) + " "@ + padded(service.condition_word(), 9) + if memory {
        "  "@ + indented(megabytes_text(service.memory_bytes), 9)
    } else {
        ""@
    }
}

/// How many of the services are usable.
pub open spec fn ready_among(services: Seq<ServiceStatusView>) -> nat {
    services.filter(|service: ServiceStatusView| service.reachable()).len()
}

/// What a list of services prints.
pub open spec fn services_text(services: Seq<ServiceStatusView>, memory: bool) -> Seq<Seq<char>> {
    services.map_values(|service: ServiceStatusView| service_line(service, memory)) + seq![
        ""@,
        decimal(services.len()) + " services, "@ + decimal(ready_among(services)) + " ready"@,
    ]
}

/// Lists services.
pub fn services_lines(services: &[ServiceStatus], memory: bool) -> (lines: Vec<String>)
    ensures
        views(lines@) == services_text(views(services@), memory),
{
    broadcast use lemma_views_push;

    let ghost all = views(services@);
    let ghost shown = all.map_values(
        |service: ServiceStatusView| service_line(service, memory),
    );
    let ghost keep = |service: ServiceStatusView| service.reachable();
    let mut lines: Vec<String> = Vec::new();
    let mut ready: usize = 0;
    let mut i: usize = 0;
    proof {
        reveal(Seq::filter);
        assert(all.take(0).filter(keep) =~= seq![]);
    }
    while i < services.len()
        invariant
            i <= services@.len(),
            ready <= i,
            all == views(services@),
            shown == all.map_values(|service: ServiceStatusView| service_line(service, memory)),
            keep == (|service: ServiceStatusView| service.reachable()),
            ready == all.take(i as int).filter(keep).len(),
            views(lines@) == shown.take(i as int),
        decreases services@.len() - i,
    {
        proof {
            reveal(Seq::filter);
            assert(all.take(i + 1).drop_last() =~= all.take(i as int));
            assert(all.take(i + 1).last() == services@[i as int]@);
        }
        let service = &services[i];
        let mut line = fit(service.service.as_str(), 18);
        line.append(" ");
        line.append(fit(service.container.as_str(), 24).as_str());
        line.append(" ");
        line.append(pad(port_text(service.port).as_str(), 7).as_str());
        line.append(" ");
        line.append(pad(service.condition(), 9).as_str());
        if memory {
            let mut usage = "  ".to_owned();
            usage.append(indent(megabytes(service.memory_bytes).as_str(), 9).as_str());
            line.append(usage.as_str());
        } else {
            line.append("");
        }
        lines.push(line);
        if service.is_reachable() {
            ready = ready + 1;
        }
        assert(shown[i as int] == service_line(service@, memory));
        assert(shown.take(i + 1) =~= shown.take(i as int).push(shown[i as int]));
        i = i + 1;
    }
    assert(all.take(i as int) =~= all);
    assert(shown.take(i as int) =~= shown);
    let mut total = number_text(services.len() as u64);
    total.append(" services, ");
    total.append(number_text(ready as u64).as_str());
    total.append(" ready");
    lines.push("".to_owned());
    lines.push(total);
    assert(views(lines@) =~= services_text(all, memory));
    lines
}

/// What a memory reading prints.
pub open spec fn reading_text(guest: Option<u64>, host: Option<(Seq<char>, u64)>) -> Seq<Seq<char>> {
    let inside = match guest {
        Some(bytes) => seq![megabytes_text(Some(bytes)) + " in use where the containers run"@],
        None => seq![],
    };
    let outside = match host {
        Some((process, bytes)) => seq![
            megabytes_text(Some(bytes)) + " of this machine, as "@ + process,
        ],
        None => seq![],
    };
    inside + outside
}

/// What the process behind a reading says.
pub open spec fn host_view(host: Option<(String, u64)>) -> Option<(Seq<char>, u64)> {
    match host {
        Some((process, bytes)) => Some((process@, bytes)),
        None => None,
    }
}

/// Says what the containers cost this machine.
pub fn reading_lines(reading: &Reading) -> (lines: Vec<String>)
    ensures
        views(lines@) == reading_text(reading.guest_bytes, host_view(reading.host)),
{
    let mut lines: Vec<String> = Vec::new();
    if let Some(bytes) = reading.guest_bytes {
        let mut line = megabytes(Some(bytes));
        line.append(" in use where the containers run");
        lines.push(line);
    }
    if let Some((process, bytes)) = &reading.host {
        let mut line = megabytes(Some(*bytes));
        line.append(" of this machine, as ");
        line.append(process.as_str());
        lines.push(line);
    }
    assert(views(lines@) =~= reading_text(reading.guest_bytes, host_view(reading.host)));
    lines
}

/// The service that publishes a port; of several, the last.
pub open spec fn publisher_of(services: Seq<ServiceStatusView>, port: u16) -> Option<
    ServiceStatusView,
>
    decreases services.len(),
{
    if services.len() == 0 {
        None
    } else if services.last().port == Some(port) {
        Some(services.last())
    } else {
        publisher_of(services.drop_last(), port)
    }
}

fn find_publisher<'a>(services: &'a [ServiceStatus], port: u16) -> (found: Option<
    &'a ServiceStatus,
>)
    ensures
        match found {
            Some(service) => publisher_of(views(services@), port) == Some(service@),
            None => publisher_of(views(services@), port) is None,
        },
{
    let ghost all = views(services@);
    let mut i: usize = services.len();
    assert(all.take(i as int) =~= all);
    while i > 0
        invariant
            i <= services@.len(),
            all == views(services@),
            publisher_of(all, port) == publisher_of(all.take(i as int), port),
        decreases i,
    {
        assert(all.take(i as int).drop_last() =~= all.take(i - 1));
        assert(all.take(i as int).last() == services@[i - 1]@);
        i = i - 1;
        if let Some(published) = services[i].port {
            if published == port {
                return Some(&services[i]);
            }
        }
    }
    None
}

/// What is listening on a port, with the docker service named where one is
/// docker.
#[derive(Debug, Clone, PartialEq, Eq)]
pub struct PortRow {
    pub port: u16,
    pub process: Option<String>,
    pub pid: Option<u32>,
    pub service: Option<String>,
    pub answering: bool,
}

/// What a row says.
#[verifier::ext_equal]
pub struct PortRowView {
    pub port: u16,
    pub process: Option<Seq<char>>,
    pub pid: Option<u32>,
    pub service: Option<Seq<char>>,
    pub answering: bool,
}

impl View for PortRow {
    type V = PortRowView;

    open spec fn view(&self) -> PortRowView {
        PortRowView {
            port: self.port,
            process: maybe_text(self.process),
            pid: self.pid,
            service: maybe_text(self.service),
            answering: self.answering,
        }
    }
}

/// The row about a listener.
pub open spec fn port_row_of(listener: ListenerView, services: Seq<ServiceStatusView>) -> PortRowView {
    PortRowView {
        port: listener.port,
        process: listener.process,
        pid: listener.pid,
        service: match publisher_of(services, listener.port) {
            Some(service) => Some(service.service),
            None => None,
        },
        answering: publisher_of(services, listener.port) matches Some(service)
            && service.port_open,
    }
}

/// The rows about all listeners.
pub open spec fn port_rows_of(
    listeners: Seq<ListenerView>,
    services: Seq<ServiceStatusView>,
) -> Seq<PortRowView> {
    listeners.map_values(|listener: ListenerView| port_row_of(listener, services))
}

/// Everything listening on this machine, with the docker service named where
/// one of them is docker.
///
/// The question a developer asks is "what is on 8000", and the answer is often
/// a stray dev server rather than a container. Listing only what docker
/// published answers a narrower question than the one being asked.
pub fn port_rows(listeners: &[Listener], services: &[ServiceStatus]) -> (rows: Vec<PortRow>)
    ensures
        views(rows@) == port_rows_of(views(listeners@), views(services@)),
{
    broadcast use lemma_views_push;

    let ghost expected = port_rows_of(views(listeners@), views(services@));
    let mut rows: Vec<PortRow> = Vec::new();
    let mut i: usize = 0;
    while i < listeners.len()
        invariant
            i <= listeners@.len(),
            expected == port_rows_of(views(listeners@), views(services@)),
            views(rows@) == expected.take(i as int),
        decreases listeners@.len() - i,
    {
        let listener = &listeners[i];
        let (service, answering): (Option<String>, bool) = match find_publisher(
            services,
            listener.port,
        ) {
            Some(found) => (Some(found.service.clone()), found.port_open),
            None => (None, false),
        };
        rows.push(
            PortRow {
                port: listener.port,
                process: copy_maybe(&listener.process),
                pid: listener.pid,
                service,
                answering,
            },
        );
        assert(expected[i as int] == port_row_of(listener@, views(services@)));
        assert(expected.take(i + 1) =~= expected.take(i as int).push(expected[i as int]));
        i = i + 1;
    }
    assert(expected.take(i as int) =~= expected);
    rows
}

/// The line about a row.
pub open spec fn port_line(row: PortRowView) -> Seq<char> {
    indented(decimal(row.port as nat), 6) + "  "@ + column(or_dash(row.process), 28) + " "@
        + padded(
        match row.pid {
            Some(pid) => decimal(pid as nat),
            None => "-"@,
        },
        8,
    ) + " "@ + match row.service {
        Some(service) => service,
        None => ""@,
    }
}

/// How many of the rows are docker services.
pub open spec fn docker_rows(rows: Seq<PortRowView>) -> nat {
    rows.filter(|row: PortRowView| row.service is Some).len()
}

/// What a list of ports prints.
pub open spec fn ports_text(rows: Seq<PortRowView>) -> Seq<Seq<char>> {
    rows.map_values(|row: PortRowView| port_line(row)) + seq![
        ""@,
        decimal(rows.len()) + " ports listening, "@ + decimal(docker_rows(rows))
            + " of them docker services"@,
    ]
}

/// Lists ports.
pub fn ports_lines(rows: &[PortRow]) -> (lines: Vec<String>)
    ensures
        views(lines@) == ports_text(views(rows@)),
{
    broadcast use lemma_views_push;

    let ghost all = views(rows@);
    let ghost shown = all.map_values(|row: PortRowView| port_line(row));
    let ghost keep = |row: PortRowView| row.service is Some;
    let mut lines: Vec<String> = Vec::new();
    let mut docker: usize = 0;
    let mut i: usize = 0;
    proof {
        reveal(Seq::filter);
        assert(all.take(0).filter(keep) =~= seq![]);
    }
    while i < rows.len()
        invariant
            i <= rows@.len(),
            docker <= i,
            all == views(rows@),
            shown == all.map_values(|row: PortRowView| port_line(row)),
            keep == (|row: PortRowView| row.service is Some),
            docker == all.take(i as int).filter(keep).len(),
            views(lines@) == shown.take(i as int),
        decreases rows@.len() - i,
    {
        proof {
            reveal(Seq::filter);
            assert(all.take(i + 1).drop_last() =~= all.take(i as int));
            assert(all.take(i + 1).last() == rows@[i as int]@);
        }
        let row = &rows[i];
        let mut line = indent(number_text(row.port as u64).as_str(), 6);
        line.append("  ");
        line.append(fit(text_or_dash(&row.process).as_str(), 28).as_str());
        line.append(" ");
        let pid = match row.pid {
            Some(pid) => number_text(pid as u64),
            None => "-".to_owned(),
        };
        line.append(pad(pid.as_str(), 8).as_str());
        line.append(" ");
        match &row.service {
            Some(service) => {
                line.append(service.as_str());
                docker = docker + 1;
            },
            None => {
                line.append("");
            },
        }
        lines.push(line);
        assert(shown[i as int] == port_line(row@));
        assert(shown.take(i + 1) =~= shown.take(i as int).push(shown[i as int]));
        i = i + 1;
    }
    assert(all.take(i as int) =~= all);
    assert(shown.take(i as int) =~= shown);
    let mut total = number_text(rows.len() as u64);
    total.append(" ports listening, ");
    total.append(number_text(docker as u64).as_str());
    total.append(" of them docker services");
    lines.push("".to_owned());
    lines.push(total);
    assert(views(lines@) =~= ports_text(all));
    lines
}

/// The first listener on a port.
pub open spec fn listener_on(listeners: Seq<ListenerView>, port: u16) -> Option<ListenerView>
    decreases listeners.len(),
{
    if listeners.len() == 0 {
        None
    } else if listeners[0].port == port {
        Some(listeners[0])
    } else {
        listener_on(listeners.skip(1), port)
    }
}

/// The process to end to free a port, and its name; or why there is none.
pub open spec fn kill_target_of(listeners: Seq<ListenerView>, port: u16) -> Result<
    (u32, Seq<char>),
    Seq<char>,
> {
    match listener_on(listeners, port) {
        None => Err("nothing is listening on "@ + decimal(port as nat)),
        Some(listener) => match listener.pid {
            None => Err(
                decimal(port as nat) + " is held by a process this system would not name"@,
            ),
            Some(pid) => Ok(
                (
                    pid,
                    match listener.process {
                        Some(process) => process,
                        None => "unnamed process"@,
                    },
                ),
            ),
        },
    }
}

/// Finds the process to end to free a port.
pub fn kill_target(listeners: &[Listener], port: u16) -> (target: Result<(u32, String), String>)
    ensures
        match target {
            Ok((pid, name)) => kill_target_of(views(listeners@), port) == Ok::<
                (u32, Seq<char>),
                Seq<char>,
            >((pid, name@)),
            Err(reason) => kill_target_of(views(listeners@), port) == Err::<
                (u32, Seq<char>),
                Seq<char>,
            >(reason@),
        },
{
    let ghost all = views(listeners@);
    let mut i: usize = 0;
    assert(all.skip(0) =~= all);
    while i < listeners.len()
        invariant
            i <= listeners@.len(),
            all == views(listeners@),
            listener_on(all, port) == listener_on(all.skip(i as int), port),
        decreases listeners@.len() - i,
    {
        assert(all.skip(i as int)[0] == listeners@[i as int]@);
        assert(all.skip(i as int).skip(1) =~= all.skip(i + 1));
        if listeners[i].port == port {
            return match listeners[i].pid {
                None => {
                    let mut reason = number_text(port as u64);
                    reason.append(" is held by a process this system would not name");
                    Err(reason)
                },
                Some(pid) => {
                    let name = match &listeners[i].process {
                        Some(process) => process.clone(),
                        None => "unnamed process".to_owned(),
                    };
                    Ok((pid, name))
                },
            };
        }
        i = i + 1;
    }
    let mut reason = "nothing is listening on ".to_owned();
    reason.append(number_text(port as u64).as_str());
    Err(reason)
}

/// What ending a process says: that it would, or that it has.
pub open spec fn kill_text(pid: u32, name: Seq<char>, port: u16, dry_run: bool) -> Seq<char> {
    let process = name + " ("@ + decimal(pid as nat) + ")"@;
    if dry_run {
        "would end "@ + process + ", which holds "@ + decimal(port as nat)
    } else {
        "ended "@ + process + "; "@ + decimal(port as nat) + " is free"@
    }
}

/// Says that a process would be ended, or that it has been.
pub fn kill_line(pid: u32, name: &str, port: u16, dry_run: bool) -> (line: String)
    ensures
        line@ == kill_text(pid, name@, port, dry_run),
{
    let mut process = name.to_owned();
    process.append(" (");
    process.append(number_text(pid as u64).as_str());
    process.append(")");
    if dry_run {
        let mut line = "would end ".to_owned();
        line.append(process.as_str());
        line.append(", which holds ");
        line.append(number_text(port as u64).as_str());
        line
    } else {
        let mut line = "ended ".to_owned();
        line.append(process.as_str());
        line.append("; ");
        line.append(number_text(port as u64).as_str());
        line.append(" is free");
        line
    }
}

/// The line about a variant of `.env`.
pub open spec fn variant_line(name: Seq<char>, in_use: Option<Seq<char>>) -> Seq<char> {
    (if in_use == Some(name) {
        "*"@
    } else {
        " "@
    }) + " "@ + name
}

/// What the variants of a project's `.env` print. The one in use is named only
/// when the contents actually match: a .env edited by hand is nobody's copy.
pub open spec fn dotenv_text(
    project: Seq<char>,
    names: Seq<Seq<char>>,
    has_env: bool,
    in_use: Option<Seq<char>>,
) -> Seq<Seq<char>> {
    if names.len() == 0 {
        seq![project + " has no .env variants to switch between"@]
    } else {
        names.map_values(|name: Seq<char>| variant_line(name, in_use)) + seq![
            ""@,
            if !has_env {
                project + " has no .env at all"@
            } else if in_use is None {
                ".env matches none of these; it was edited or written by hand"@
            } else {
                "* is the one .env currently matches"@
            },
        ]
    }
}

/// Lists the variants of a project's `.env`.
pub fn dotenv_lines(
    project: &str,
    names: &[String],
    has_env: bool,
    in_use: &Option<String>,
) -> (lines: Vec<String>)
    ensures
        views(lines@) == dotenv_text(project@, views(names@), has_env, maybe_text(*in_use)),
{
    broadcast use lemma_views_push;

    let ghost shown = views(names@).map_values(
        |name: Seq<char>| variant_line(name, maybe_text(*in_use)),
    );
    let mut lines: Vec<String> = Vec::new();
    if names.len() == 0 {
        let mut line = project.to_owned();
        line.append(" has no .env variants to switch between");
        lines.push(line);
        assert(views(lines@) =~= dotenv_text(project@, views(names@), has_env, maybe_text(*in_use)));
        return lines;
    }
    let mut i: usize = 0;
    while i < names.len()
        invariant
            i <= names@.len(),
            shown == views(names@).map_values(
                |name: Seq<char>| variant_line(name, maybe_text(*in_use)),
            ),
            views(lines@) == shown.take(i as int),
        decreases names@.len() - i,
    {
        let marked = match in_use {
            Some(active) => same(active.as_str(), names[i].as_str()),
            None => false,
        };
        let mut line = if marked {
            "*".to_owned()
        } else {
            " ".to_owned()
        };
        line.append(" ");
        line.append(names[i].as_str());
        lines.push(line);
        assert(shown[i as int] == variant_line(names@[i as int]@, maybe_text(*in_use)));
        assert(shown.take(i + 1) =~= shown.take(i as int).push(shown[i as int]));
        i = i + 1;
    }
    assert(shown.take(i as int) =~= shown);
    lines.push("".to_owned());
    if !has_env {
        let mut line = project.to_owned();
        line.append(" has no .env at all");
        lines.push(line);
    } else if in_use.is_none() {
        lines.push(".env matches none of these; it was edited or written by hand".to_owned());
    } else {
        lines.push("* is the one .env currently matches".to_owned());
    }
    assert(views(lines@) =~= dotenv_text(project@, views(names@), has_env, maybe_text(*in_use)));
    lines
}

/// The names, or that there are none.
pub open spec fn names_or_none(names: Seq<Seq<char>>) -> Seq<char> {
    if names.len() == 0 {
        "none"@
    } else {
        joined(names, ", "@)
    }
}

fn listed(names: &[String]) -> (text: String)
    ensures
        text@ == names_or_none(views(names@)),
{
    if names.len() == 0 {
        "none".to_owned()
    } else {
        join(names, ", ")
    }
}

/// Why a project cannot be switched to a file, where it cannot: only a variant
/// can be switched to.
pub fn switch_problem(project: &str, names: &[String], wanted: &str) -> (problem: Option<String>)
    ensures
        match problem {
            None => views(names@).contains(wanted@),
            Some(reason) => !views(names@).contains(wanted@) && reason@ == project@ + " has no "@
                + wanted@ + "; it has "@ + names_or_none(views(names@)),
        },
{
    if has_text(names, wanted) {
        return None;
    }
    let mut reason = project.to_owned();
    reason.append(" has no ");
    reason.append(wanted);
    reason.append("; it has ");
    reason.append(listed(names).as_str());
    Some(reason)
}

/// Why the dashboard cannot switch to a file, where it cannot.
pub fn switch_refusal(names: &[String], wanted: &str) -> (problem: Option<String>)
    ensures
        match problem {
            None => views(names@).contains(wanted@),
            Some(reason) => !views(names@).contains(wanted@) && reason@ == wanted@
                + " is not one of: "@ + names_or_none(views(names@)),
        },
{
    if has_text(names, wanted) {
        return None;
    }
    let mut reason = wanted.to_owned();
    reason.append(" is not one of: ");
    reason.append(listed(names).as_str());
    Some(reason)
}

/// What a switch prints. The file that was replaced is kept, and said to be.
pub open spec fn switched_text(project: Seq<char>, wanted: Seq<char>, kept: bool) -> Seq<Seq<char>> {
    let now = seq![project + " now uses "@ + wanted];
    if kept {
        now.push("the previous .env is "@ + ".env.bak"@)
    } else {
        now
    }
}

/// Says that a switch was made.
pub fn switched_lines(project: &str, wanted: &str, kept: bool) -> (lines: Vec<String>)
    ensures
        views(lines@) == switched_text(project@, wanted@, kept),
{
    let mut line = project.to_owned();
    line.append(" now uses ");
    line.append(wanted);
    let mut lines = vec![line];
    if kept {
        let mut previous = "the previous .env is ".to_owned();
        previous.append(BACKUP);
        lines.push(previous);
    }
    assert(views(lines@) =~= switched_text(project@, wanted@, kept));
    lines
}

/// A listing always ends with its denominator, however little was found.
pub proof fn law_the_denominator_is_always_printed(
    outcome: ScanOutcomeView,
    elapsed: Seq<char>,
    roots: Seq<Seq<char>>,
    chosen: Option<Seq<char>>,
)
    ensures
        scan_text(outcome, elapsed, roots, chosen).contains(scan_total(outcome, elapsed)),
{
    let lines = scan_text(outcome, elapsed, roots, chosen);
    let at = outcome.projects.len() + outcome.failures.len() + 1;
    assert(lines[at as int] == scan_total(outcome, elapsed));
}

/// Somebody who has a configuration is not told how to write one.
pub proof fn law_guidance_only_without_a_file(roots: Seq<Seq<char>>, chosen: Option<Seq<char>>)
    ensures
        nothing_text(roots, chosen).len() == (if chosen is Some {
            2nat
        } else {
            4nat
        }),
{
}

/// A port belongs to the last service that publishes it, which the row names and
/// asks whether it answers; a port that none publishes has no service and is not
/// said to answer. The rest of the row is the listener's.
pub proof fn law_a_port_belongs_to_its_publisher(
    listener: ListenerView,
    services: Seq<ServiceStatusView>,
    service: ServiceStatusView,
)
    ensures
        ({
            let row = port_row_of(listener, services.push(service));
            &&& row.port == listener.port && row.pid == listener.pid && row.process
                == listener.process
            &&& service.port == Some(listener.port) ==> row.service == Some(service.service)
                && row.answering == service.port_open
            &&& service.port != Some(listener.port) ==> row == port_row_of(listener, services)
        }),
        port_row_of(listener, seq![]).service is None && !port_row_of(listener, seq![]).answering,
{
    assert(services.push(service).drop_last() =~= services);
}

/// What is ended is the process on the port that was named, by the number and the
/// name the system gave; a port that is free, or held by a process the system
/// would not name, is refused.
pub proof fn law_what_holds_the_port_is_ended(
    listeners: Seq<ListenerView>,
    port: u16,
    at: int,
)
    ensures
        (forall|i: int| 0 <= i < listeners.len() ==> (#[trigger] listeners[i]).port != port)
            ==> kill_target_of(listeners, port) == Err::<(u32, Seq<char>), Seq<char>>(
            "nothing is listening on "@ + decimal(port as nat),
        ),
        0 <= at < listeners.len() && listeners[at].port == port && (forall|i: int|
            0 <= i < at ==> (#[trigger] listeners[i]).port != port) ==> {
            let listener = listeners[at];
            &&& listener.pid is None ==> kill_target_of(listeners, port) == Err::<
                (u32, Seq<char>),
                Seq<char>,
            >(decimal(port as nat) + " is held by a process this system would not name"@)
            &&& listener.pid is Some && listener.process is Some ==> kill_target_of(listeners, port)
                == Ok::<(u32, Seq<char>), Seq<char>>((listener.pid->0, listener.process->0))
            &&& listener.pid is Some && listener.process is None ==> kill_target_of(listeners, port)
                == Ok::<(u32, Seq<char>), Seq<char>>((listener.pid->0, "unnamed process"@))
        },
    decreases listeners.len(),
{
    if listeners.len() > 0 {
        let rest = listeners.skip(1);
        law_what_holds_the_port_is_ended(rest, port, at - 1);
        assert forall|i: int| 0 <= i < rest.len() implies #[trigger] rest[i] == listeners[i
            + 1] by {}
        if 0 < at < listeners.len() {
            assert(rest[at - 1] == listeners[at]);
        }
    }
}

/// A listing ends with what it counted: the services and those of them that are
/// reachable, the ports and those of them that docker publishes.
pub proof fn law_a_listing_ends_with_its_counts(
    services: Seq<ServiceStatusView>,
    service: ServiceStatusView,
    memory: bool,
    rows: Seq<PortRowView>,
    row: PortRowView,
)
    ensures
        services_text(services, memory).len() == services.len() + 2,
        services_text(services, memory).last() == decimal(services.len()) + " services, "@ + decimal(
            ready_among(services),
        ) + " ready"@,
        ready_among(services.push(service)) == ready_among(services) + (if service.state is Running
            && service.port_open {
            1nat
        } else {
            0nat
        }),
        ready_among(seq![]) == 0,
        ports_text(rows).len() == rows.len() + 2,
        ports_text(rows).last() == decimal(rows.len()) + " ports listening, "@ + decimal(
            docker_rows(rows),
        ) + " of them docker services"@,
        docker_rows(rows.push(row)) == docker_rows(rows) + (if row.service is Some {
            1nat
        } else {
            0nat
        }),
        docker_rows(seq![]) == 0,
{
    reveal(Seq::filter);
    assert(services.push(service).drop_last() =~= services);
    assert(rows.push(row).drop_last() =~= rows);
}

/// A line shows its fields in their columns.
pub proof fn law_a_line_shows_its_fields(
    project: ProjectView,
    service: ServiceStatusView,
    row: PortRowView,
)
    ensures
        project_line(project) == column(project.name, 30) + " "@ + column(
            if project.category is Some {
                project.category->0
            } else {
                "-"@
            },
            14,
        ) + " "@ + column(
            if project.framework is Some {
                project.framework->0
            } else {
                stack_name(project.stack)
            },
            18,
        ) + " "@ + column(
            if project.git.branch is Some {
                project.git.branch->0
            } else {
                "-"@
            },
            22,
        ) + " "@ + project.git.badge_text(),
        service_line(service, true) == service_line(service, false) + "  "@ + indented(
            megabytes_text(service.memory_bytes),
            9,
        ),
        service_line(service, false) == column(service.service, 18) + " "@ + column(
            service.container,
            24,
        ) + " "@ + padded(
            if service.port is Some {
                decimal(service.port->0 as nat)
            } else {
                "-"@
            },
            7,
        ) + " "@ + padded(service.condition_word(), 9),
        port_line(row) == indented(decimal(row.port as nat), 6) + "  "@ + column(
            if row.process is Some {
                row.process->0
            } else {
                "-"@
            },
            28,
        ) + " "@ + padded(
            if row.pid is Some {
                decimal(row.pid->0 as nat)
            } else {
                "-"@
            },
            8,
        ) + " "@ + (if row.service is Some {
            row.service->0
        } else {
            ""@
        }),
{
    reveal_strlit("");
    let plain = column(service.service, 18) + " "@ + column(service.container, 24) + " "@ + padded(
        port_or_dash(service.port),
        7,
    ) + " "@ + padded(service.condition_word(), 9);
    assert(plain + ""@ =~= plain);
    let memory = indented(megabytes_text(service.memory_bytes), 9);
    assert(plain + ("  "@ + memory) =~= plain + "  "@ + memory);
}

/// A scan tells how many projects there are, how many roots were skipped, and
/// how many directories were looked into, where that is known.
pub proof fn law_a_scan_tells_its_totals(outcome: ScanOutcomeView, elapsed: Seq<char>)
    ensures
        scan_total(outcome, elapsed) == decimal(outcome.projects.len()) + " projects, "@ + decimal(
            outcome.failures.len(),
        ) + " roots skipped, "@ + (if outcome.scanned is Some {
            decimal(outcome.scanned->0 as nat)
        } else {
            "?"@
        }) + " directories examined in "@ + elapsed + "s"@,
{
}

/// What would be ended is told before it is, and what was ended after.
pub proof fn law_an_ended_process_is_told(pid: u32, name: Seq<char>, port: u16)
    ensures
        kill_text(pid, name, port, true) == "would end "@ + (name + " ("@ + decimal(pid as nat)
            + ")"@) + ", which holds "@ + decimal(port as nat),
        kill_text(pid, name, port, false) == "ended "@ + (name + " ("@ + decimal(pid as nat) + ")"@)
            + "; "@ + decimal(port as nat) + " is free"@,
{
}

/// The variants of a project are listed with a star before the one in use, and
/// what the listing ends with says whether one is.
pub proof fn law_the_variant_in_use_has_a_star(
    project: Seq<char>,
    names: Seq<Seq<char>>,
    has_env: bool,
    in_use: Option<Seq<char>>,
    i: int,
)
    requires
        0 <= i < names.len(),
    ensures
        ({
            let lines = dotenv_text(project, names, has_env, in_use);
            &&& lines.len() == names.len() + 2
            &&& in_use == Some(names[i]) ==> lines[i] == "*"@ + " "@ + names[i]
            &&& in_use != Some(names[i]) ==> lines[i] == " "@ + " "@ + names[i]
            &&& !has_env ==> lines.last() == project + " has no .env at all"@
            &&& has_env && in_use is None ==> lines.last()
                == ".env matches none of these; it was edited or written by hand"@
            &&& has_env && in_use is Some ==> lines.last() == "* is the one .env currently matches"@
        }),
        dotenv_text(project, seq![], has_env, in_use) == seq![
            project + " has no .env variants to switch between"@,
        ],
{
}

/// Memory is told where the containers run and on this machine, each where it is
/// known.
pub proof fn law_memory_is_told_where_it_is_known(bytes: u64, process: Seq<char>, cost: u64)
    ensures
        reading_text(None, None).len() == 0,
        reading_text(Some(bytes), None) == seq![
            megabytes_text(Some(bytes)) + " in use where the containers run"@,
        ],
        reading_text(None, Some((process, cost))) == seq![
            megabytes_text(Some(cost)) + " of this machine, as "@ + process,
        ],
        reading_text(Some(bytes), Some((process, cost))) == reading_text(Some(bytes), None)
            + reading_text(None, Some((process, cost))),
{
    assert(reading_text(Some(bytes), None) =~= seq![
        megabytes_text(Some(bytes)) + " in use where the containers run"@,
    ]);
    assert(reading_text(None, Some((process, cost))) =~= seq![
        megabytes_text(Some(cost)) + " of this machine, as "@ + process,
    ]);
}

/// A scan lists every project and then every root that was skipped, in order, an
/// empty line and the totals; where there is no project it goes on to say where
/// was looked.
pub proof fn law_a_scan_lists_everything_it_found(
    outcome: ScanOutcomeView,
    elapsed: Seq<char>,
    roots: Seq<Seq<char>>,
    chosen: Option<Seq<char>>,
    i: int,
)
    ensures
        ({
            let lines = scan_text(outcome, elapsed, roots, chosen);
            let (found, failed) = (outcome.projects.len(), outcome.failures.len());
            &&& 0 <= i < found ==> lines[i] == project_line(outcome.projects[i])
            &&& 0 <= i < failed ==> lines[found + i] == padded("! skipped"@, 30) + " "@
                + outcome.failures[i].0 + " ("@ + outcome.failures[i].1 + ")"@
            &&& lines[(found + failed + 1) as int] == scan_total(outcome, elapsed)
            &&& found > 0 ==> lines.len() == found + failed + 2
            &&& found == 0 ==> lines.skip((failed + 2) as int) == nothing_text(roots, chosen)
        }),
{
    let lines = scan_text(outcome, elapsed, roots, chosen);
    if outcome.projects.len() == 0 {
        assert(lines.skip((outcome.failures.len() + 2) as int) =~= nothing_text(roots, chosen));
    }
}

} // verus!
