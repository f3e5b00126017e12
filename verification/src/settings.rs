//! What is in force, in words.

use crate::catalog::{ServiceConfig, ServiceConfigView};
use crate::config::{Config, ConfigView};
use crate::order::{in_order, lemma_not_after_orders, precedes, sort, text_precedes, Ranked};
use crate::table::{pad, padded};
use crate::text::{
    debug_text, decimal, join, joined, lemma_views_push, maybe_text, number_text, quoted, views,
};
use crate::toolchain::{Installed, InstalledView, ToolConfigView};
use vstd::prelude::*;
use vstd::string::*;

verus! {

/// Two texts behind each other.
fn with(start: &str, text: &str) -> (line: String)
    ensures
        line@ == start@ + text@,
{
    let mut line = start.to_owned();
    line.append(text);
    line
}

proof fn lemma_add_associates(a: Seq<Seq<char>>, b: Seq<Seq<char>>, c: Seq<Seq<char>>)
    ensures
        (a + b) + c == a + (b + c),
{
    assert((a + b) + c =~= a + (b + c));
}

/// A list of texts, each in quotes.
pub open spec fn quoted_list(texts: Seq<Seq<char>>) -> Seq<char> {
    "["@ + joined(texts.map_values(|text: Seq<char>| debug_text(text)), ", "@) + "]"@
}

fn quoted_texts(texts: &[String]) -> (list: String)
    ensures
        list@ == quoted_list(views(texts@)),
{
    broadcast use lemma_views_push;

    let ghost all = views(texts@).map_values(|text: Seq<char>| debug_text(text));
    let mut parts: Vec<String> = Vec::new();
    let mut i: usize = 0;
    while i < texts.len()
        invariant
            i <= texts@.len(),
            all == views(texts@).map_values(|text: Seq<char>| debug_text(text)),
            views(parts@) == all.take(i as int),
        decreases texts@.len() - i,
    {
        parts.push(quoted(texts[i].as_str()));
        assert(all[i as int] == debug_text(texts@[i as int]@));
        assert(all.take(i + 1) =~= all.take(i as int).push(all[i as int]));
        i = i + 1;
    }
    assert(all.take(i as int) =~= all);
    let mut list = "[".to_owned();
    list.append(join(parts.as_slice(), ", ").as_str());
    list.append("]");
    list
}

/// True or false, in words.
pub open spec fn flag_text(flag: bool) -> Seq<char> {
    if flag {
        "true"@
    } else {
        "false"@
    }
}

/// The lines about the sections every configuration has.
pub open spec fn fixed_lines(
    config: ConfigView,
    chosen: Option<Seq<char>>,
    target: Seq<char>,
) -> Seq<Seq<char>> {
    seq![
        match chosen {
            Some(path) => "read from "@ + path,
            None => "no configuration file was found — every default is in force"@,
        },
        "would be written to "@ + target,
        ""@,
        "[project]"@,
        "  roots       "@ + quoted_list(config.project.roots),
        "  max_depth   "@ + decimal(config.project.max_depth as nat),
        "[scan]"@,
        "  workers     "@ + decimal(config.scan.workers as nat),
        "[docker]"@,
        "  endpoint    "@ + config.docker.endpoint,
        "[caddy]"@,
        "  container   "@ + config.caddy.container,
        "  caddyfile   "@ + config.caddy.caddyfile,
        "  domains     "@ + config.caddy.domains,
        "[open]"@,
        "  browser     "@ + joined(config.open.browser, " "@),
        "  file_manager "@ + joined(config.open.file_manager, " "@),
        "[backup]"@,
        "  directory   "@ + config.backup.directory,
        "  gzip        "@ + flag_text(config.backup.gzip),
        "[memory]"@,
        "  interval    "@ + decimal(config.memory.interval_secs as nat) + "s"@,
        "  guest       "@ + joined(config.memory.guest, " "@),
        "  host_process "@ + joined(config.memory.host_process, ", "@),
    ]
}

/// A line that is only there where there is something to say.
pub open spec fn maybe_line(start: Seq<char>, text: Option<Seq<char>>) -> Seq<Seq<char>> {
    match text {
        Some(text) => seq![start + text],
        None => seq![],
    }
}

/// What is said of a service's password: which variable, never what is in it.
/// This output gets pasted into bug reports.
pub open spec fn password_lines(settings: ServiceConfigView) -> Seq<Seq<char>> {
    match settings.password_env {
        Some(variable) => seq!["  password    read from "@ + variable],
        None => if settings.password is Some {
            seq!["  password    set in this file"@]
        } else {
            seq![]
        },
    }
}

/// The port as a text.
pub open spec fn port_words(port: Option<u16>) -> Option<Seq<char>> {
    match port {
        Some(port) => Some(decimal(port as nat)),
        None => None,
    }
}

/// The lines about one declared service.
pub open spec fn service_block(declared: (Seq<char>, ServiceConfigView)) -> Seq<Seq<char>> {
    let (name, settings) = declared;
    seq![""@, "[service."@ + name + "]"@, "  container   "@ + settings.container_of(name)]
        + maybe_line("  port        "@, port_words(settings.port)) + maybe_line(
        "  domain      "@,
        settings.domain,
    ) + maybe_line("  panel       "@, settings.panel) + maybe_line(
        "  user        "@,
        settings.user,
    ) + password_lines(settings)
}

/// The lines about the declared services.
pub open spec fn service_blocks(declared: Seq<(Seq<char>, ServiceConfigView)>) -> Seq<Seq<char>>
    decreases declared.len(),
{
    if declared.len() == 0 {
        seq![]
    } else {
        service_blocks(declared.drop_last()) + service_block(declared.last())
    }
}

/// The line about one install.
pub open spec fn installed_line(installed: InstalledView) -> Seq<char> {
    "  "@ + padded(installed.version.text(), 12) + " "@ + installed.path
}

/// The lines about one tool and what is installed of it.
pub open spec fn tool_block(name: Seq<char>, installed: Seq<InstalledView>) -> Seq<Seq<char>> {
    seq![
        ""@,
        "[toolchain."@ + name + "]  "@ + (if installed.len() == 0 {
            "none"@
        } else {
            decimal(installed.len())
        }) + " installed"@,
    ] + installed.map_values(|one: InstalledView| installed_line(one))
}

/// The lines about the configured tools.
pub open spec fn tool_blocks(
    tools: Seq<(Seq<char>, ToolConfigView)>,
    found: Seq<Seq<InstalledView>>,
) -> Seq<Seq<char>>
    decreases tools.len(),
{
    if tools.len() == 0 {
        seq![]
    } else {
        tool_blocks(tools.drop_last(), found) + tool_block(
            tools.last().0,
            found[tools.len() - 1],
        )
    }
}

/// What `adev config` prints: where the configuration came from and what is in
/// force.
pub open spec fn settings_text(
    config: ConfigView,
    chosen: Option<Seq<char>>,
    target: Seq<char>,
    found: Seq<Seq<InstalledView>>,
) -> Seq<Seq<char>> {
    fixed_lines(config, chosen, target) + (if config.service.len() == 0 {
        seq![""@, "[service]  none declared — the list is whatever docker reports"@]
    } else {
        service_blocks(config.service)
    }) + (if config.toolchain.len() == 0 {
        seq![""@, "[toolchain]  nothing configured — adev config --init finds what is here"@]
    } else {
        tool_blocks(config.toolchain, found)
    })
}

fn fixed_part(config: &Config, chosen: &Option<String>, target: &str) -> (lines: Vec<String>)
    ensures
        views(lines@) == fixed_lines(config@, maybe_text(*chosen), target@),
{
    let source = match chosen {
        Some(path) => with("read from ", path.as_str()),
        // Said plainly, because "why is it not seeing my roots" is almost
        // always this.
        None => "no configuration file was found — every default is in force".to_owned(),
    };
    let gzip: &str = if config.backup.gzip {
        "true"
    } else {
        "false"
    };
    let mut interval = with("  interval    ", number_text(config.memory.interval_secs).as_str());
    interval.append("s");
    let lines = vec![
        source,
        with("would be written to ", target),
        "".to_owned(),
        "[project]".to_owned(),
        with("  roots       ", quoted_texts(config.project.roots.as_slice()).as_str()),
        with("  max_depth   ", number_text(config.project.max_depth as u64).as_str()),
        "[scan]".to_owned(),
        with("  workers     ", number_text(config.scan.workers as u64).as_str()),
        "[docker]".to_owned(),
        with("  endpoint    ", config.docker.endpoint.as_str()),
        "[caddy]".to_owned(),
        with("  container   ", config.caddy.container.as_str()),
        with("  caddyfile   ", config.caddy.caddyfile.as_str()),
        with("  domains     ", config.caddy.domains.as_str()),
        "[open]".to_owned(),
        with("  browser     ", join(config.open.browser.as_slice(), " ").as_str()),
        with("  file_manager ", join(config.open.file_manager.as_slice(), " ").as_str()),
        "[backup]".to_owned(),
        with("  directory   ", config.backup.directory.as_str()),
        with("  gzip        ", gzip),
        "[memory]".to_owned(),
        interval,
        with("  guest       ", join(config.memory.guest.as_slice(), " ").as_str()),
        with("  host_process ", join(config.memory.host_process.as_slice(), ", ").as_str()),
    ];
    assert(views(lines@) =~= fixed_lines(config@, maybe_text(*chosen), target@));
    lines
}

fn push_maybe(lines: &mut Vec<String>, start: &str, text: &Option<String>)
    ensures
        views(final(lines)@) == views(old(lines)@) + maybe_line(start@, maybe_text(*text)),
{
    broadcast use lemma_views_push;

    let ghost before = views(lines@);
    if let Some(text) = text {
        lines.push(with(start, text.as_str()));
    }
    assert(views(lines@) =~= before + maybe_line(start@, maybe_text(*text)));
}

fn push_service(lines: &mut Vec<String>, name: &str, settings: &ServiceConfig)
    ensures
        views(final(lines)@) == views(old(lines)@) + service_block((name@, settings@)),
{
    broadcast use lemma_views_push;

    let ghost before = views(lines@);
    let mut heading = with("[service.", name);
    heading.append("]");
    lines.push("".to_owned());
    lines.push(heading);
    lines.push(with("  container   ", settings.container_for(name).as_str()));
    let ghost head = seq![
        ""@,
        "[service."@ + name@ + "]"@,
        "  container   "@ + settings@.container_of(name@),
    ];
    assert(views(lines@) =~= before + head);
    let port: Option<String> = match settings.port {
        Some(port) => Some(number_text(port as u64)),
        None => None,
    };
    push_maybe(lines, "  port        ", &port);
    push_maybe(lines, "  domain      ", &settings.domain);
    push_maybe(lines, "  panel       ", &settings.panel);
    push_maybe(lines, "  user        ", &settings.user);
    let ghost so_far = views(lines@);
    proof {
        let ported = maybe_line("  port        "@, port_words(settings@.port));
        let domained = maybe_line("  domain      "@, settings@.domain);
        let panelled = maybe_line("  panel       "@, settings@.panel);
        let used = maybe_line("  user        "@, settings@.user);
        lemma_add_associates(before, head, ported);
        lemma_add_associates(before, head + ported, domained);
        lemma_add_associates(before, head + ported + domained, panelled);
        lemma_add_associates(before, head + ported + domained + panelled, used);
        lemma_add_associates(
            before,
            head + ported + domained + panelled + used,
            password_lines(settings@),
        );
    }
    match &settings.password_env {
        Some(variable) => {
            lines.push(with("  password    read from ", variable.as_str()));
        },
        None => {
            if settings.password.is_some() {
                lines.push("  password    set in this file".to_owned());
            }
        },
    }
    assert(views(lines@) =~= so_far + password_lines(settings@));
}

fn push_tool(lines: &mut Vec<String>, name: &str, installed: &Vec<Installed>)
    ensures
        views(final(lines)@) == views(old(lines)@) + tool_block(name@, views(installed@)),
{
    broadcast use lemma_views_push;

    let ghost before = views(lines@);
    let mut heading = with("[toolchain.", name);
    heading.append("]  ");
    if installed.len() == 0 {
        heading.append("none");
    } else {
        heading.append(number_text(installed.len() as u64).as_str());
    }
    heading.append(" installed");
    let ghost head = seq![""@, heading@];
    lines.push("".to_owned());
    lines.push(heading);
    let ghost shown = views(installed@).map_values(|one: InstalledView| installed_line(one));
    assert(views(lines@) =~= before + (head + shown.take(0)));
    let mut i: usize = 0;
    while i < installed.len()
        invariant
            i <= installed@.len(),
            shown == views(installed@).map_values(|one: InstalledView| installed_line(one)),
            views(lines@) == before + (head + shown.take(i as int)),
        decreases installed@.len() - i,
    {
        let mut line = with("  ", pad(installed[i].version.to_string().as_str(), 12).as_str());
        line.append(" ");
        line.append(installed[i].path.as_str());
        lines.push(line);
        assert(shown[i as int] == installed_line(installed@[i as int]@));
        assert(before + (head + shown.take(i + 1)) =~= (before + (head + shown.take(i as int))).push(
            shown[i as int],
        ));
        i = i + 1;
    }
    assert(shown.take(i as int) =~= shown);
}

/// Says where the configuration came from and what is in force. `found` holds
/// what is installed of each configured tool.
pub fn settings_report(
    config: &Config,
    chosen: &Option<String>,
    target: &str,
    found: &Vec<Vec<Installed>>,
) -> (lines: Vec<String>)
    requires
        found@.len() == config.toolchain@.len(),
    ensures
        views(lines@) == settings_text(
            config@,
            maybe_text(*chosen),
            target@,
            found@.map_values(|list: Vec<Installed>| views(list@)),
        ),
{
    broadcast use lemma_views_push;

    let ghost all_found = found@.map_values(|list: Vec<Installed>| views(list@));
    let mut lines = fixed_part(config, chosen, target);
    let ghost head = views(lines@);
    let ghost services = config@.service;
    if config.service.len() == 0 {
        lines.push("".to_owned());
        lines.push("[service]  none declared — the list is whatever docker reports".to_owned());
        assert(views(lines@) =~= head + seq![
            ""@,
            "[service]  none declared — the list is whatever docker reports"@,
        ]);
    } else {
        let mut i: usize = 0;
        assert(services.take(0) =~= seq![]);
        assert(views(lines@) =~= head + service_blocks(services.take(0)));
        while i < config.service.len()
            invariant
                i <= config.service@.len(),
                services == views(config.service@),
                views(lines@) == head + service_blocks(services.take(i as int)),
            decreases config.service@.len() - i,
        {
            assert(services.take(i + 1).drop_last() =~= services.take(i as int));
            assert(services.take(i + 1).last() == config.service@[i as int]@);
            push_service(&mut lines, config.service[i].0.as_str(), &config.service[i].1);
            assert(views(lines@) =~= head + (service_blocks(services.take(i as int))
                + service_block(config.service@[i as int]@)));
            i = i + 1;
        }
        assert(services.take(i as int) =~= services);
    }
    let ghost middle = views(lines@);
    let ghost tools = config@.toolchain;
    if config.toolchain.len() == 0 {
        lines.push("".to_owned());
        lines.push(
            "[toolchain]  nothing configured — adev config --init finds what is here".to_owned(),
        );
        assert(views(lines@) =~= middle + seq![
            ""@,
            "[toolchain]  nothing configured — adev config --init finds what is here"@,
        ]);
    } else {
        let mut k: usize = 0;
        assert(tools.take(0) =~= seq![]);
        assert(views(lines@) =~= middle + tool_blocks(tools.take(0), all_found));
        while k < config.toolchain.len()
            invariant
                k <= config.toolchain@.len(),
                found@.len() == config.toolchain@.len(),
                all_found == found@.map_values(|list: Vec<Installed>| views(list@)),
                tools == views(config.toolchain@),
                views(lines@) == middle + tool_blocks(tools.take(k as int), all_found),
            decreases config.toolchain@.len() - k,
        {
            assert(tools.take(k + 1).drop_last() =~= tools.take(k as int));
            assert(tools.take(k + 1).last() == config.toolchain@[k as int]@);
            assert(all_found[k as int] == views(found@[k as int]@));
            push_tool(&mut lines, config.toolchain[k].0.as_str(), &found[k]);
            assert(views(lines@) =~= middle + (tool_blocks(tools.take(k as int), all_found)
                + tool_block(config.toolchain@[k as int].0@, all_found[k as int])));
            k = k + 1;
        }
        assert(tools.take(k as int) =~= tools);
    }
    lines
}

/// A setting and what it is.
#[derive(Debug, Clone, PartialEq, Eq)]
pub struct Setting {
    pub label: String,
    pub text: String,
}

impl View for Setting {
    type V = (Seq<char>, Seq<char>);

    open spec fn view(&self) -> (Seq<char>, Seq<char>) {
        (self.label@, self.text@)
    }
}

impl Ranked for Setting {
    open spec fn ranks(a: (Seq<char>, Seq<char>), b: (Seq<char>, Seq<char>)) -> bool {
        !precedes(b.0, a.0)
    }

    proof fn ranks_totally(
        a: (Seq<char>, Seq<char>),
        b: (Seq<char>, Seq<char>),
        c: (Seq<char>, Seq<char>),
    ) {
        lemma_not_after_orders(a.0, b.0, c.0);
    }

    fn not_after(&self, other: &Self) -> bool {
        !text_precedes(other.label.as_str(), self.label.as_str())
    }
}

fn setting(label: &str, text: String) -> (line: Setting)
    ensures
        line@ == (label@, text@),
{
    Setting { label: label.to_owned(), text }
}

/// The settings every configuration has.
pub open spec fn fixed_settings(config: ConfigView, chosen: Option<Seq<char>>) -> Seq<
    (Seq<char>, Seq<char>),
> {
    seq![
        (
            "file"@,
            match chosen {
                Some(path) => path,
                None => "none found — every default is in force"@,
            },
        ),
        ("project.roots"@, joined(config.project.roots, ", "@)),
        ("scan.workers"@, decimal(config.scan.workers as nat)),
        ("docker.endpoint"@, config.docker.endpoint),
        ("caddy.container"@, config.caddy.container),
        ("backup.directory"@, config.backup.directory),
        ("open.browser"@, joined(config.open.browser, " "@)),
        ("open.file_manager"@, joined(config.open.file_manager, " "@)),
    ]
}

/// What is shown of a declared service: the container, the port and the domain,
/// as far as they are declared.
pub open spec fn service_parts(declared: (Seq<char>, ServiceConfigView)) -> Seq<Seq<char>> {
    let (name, settings) = declared;
    seq![settings.container_of(name)] + maybe_line("port "@, port_words(settings.port))
        + maybe_line(""@, settings.domain)
}

/// The setting of a declared service.
pub open spec fn service_setting(declared: (Seq<char>, ServiceConfigView)) -> (
    Seq<char>,
    Seq<char>,
) {
    ("service."@ + declared.0, joined(service_parts(declared), " · "@))
}

/// The setting of a configured tool. The count is the point: a path that turns
/// out to hold nothing looks identical to one that was never set until you see
/// a zero.
pub open spec fn tool_setting(tool: (Seq<char>, ToolConfigView), installed: usize) -> (
    Seq<char>,
    Seq<char>,
) {
    (
        "toolchain."@ + tool.0,
        decimal(installed as nat) + " installed · "@ + joined(tool.1.search, ", "@),
    )
}

/// The settings of the configured tools.
pub open spec fn tool_settings(
    tools: Seq<(Seq<char>, ToolConfigView)>,
    installed: Seq<usize>,
) -> Seq<(Seq<char>, Seq<char>)> {
    Seq::new(tools.len(), |i: int| tool_setting(tools[i], installed[i]))
}

/// The settings the dashboard shows.
pub open spec fn all_settings(
    config: ConfigView,
    chosen: Option<Seq<char>>,
    installed: Seq<usize>,
) -> Seq<(Seq<char>, Seq<char>)> {
    fixed_settings(config, chosen) + (if config.service.len() == 0 {
        seq![("service"@, "none declared — the list is whatever docker reports"@)]
    } else {
        config.service.map_values(
            |declared: (Seq<char>, ServiceConfigView)| service_setting(declared),
        )
    }) + (if config.toolchain.len() == 0 {
        seq![("toolchain"@, "none — adev config --init finds what is here"@)]
    } else {
        in_order::<Setting>(tool_settings(config.toolchain, installed))
    })
}

fn service_line(name: &str, settings: &ServiceConfig) -> (line: Setting)
    ensures
        line@ == service_setting((name@, settings@)),
{
    broadcast use lemma_views_push;

    let mut parts: Vec<String> = vec![settings.container_for(name)];
    assert(views(parts@) =~= seq![settings@.container_of(name@)]);
    let port: Option<String> = match settings.port {
        Some(port) => Some(number_text(port as u64)),
        None => None,
    };
    push_maybe(&mut parts, "port ", &port);
    push_maybe(&mut parts, "", &settings.domain);
    assert(views(parts@) =~= service_parts((name@, settings@)));
    Setting { label: with("service.", name), text: join(parts.as_slice(), " · ") }
}

/// The settings the dashboard shows, flattened to lines here so the dashboard
/// itself never has to know what a configuration file is. `installed` counts
/// what is installed of each configured tool.
pub fn settings_lines(config: &Config, chosen: &Option<String>, installed: &Vec<usize>) -> (lines:
    Vec<Setting>)
    requires
        installed@.len() == config.toolchain@.len(),
    ensures
        views(lines@) == all_settings(config@, maybe_text(*chosen), installed@),
{
    broadcast use lemma_views_push;

    let file = match chosen {
        Some(path) => path.clone(),
        // Almost always the answer to "why is it not seeing my roots".
        None => "none found — every default is in force".to_owned(),
    };
    let mut lines = vec![
        setting("file", file),
        setting("project.roots", join(config.project.roots.as_slice(), ", ")),
        setting("scan.workers", number_text(config.scan.workers as u64)),
        setting("docker.endpoint", config.docker.endpoint.clone()),
        setting("caddy.container", config.caddy.container.clone()),
        setting("backup.directory", config.backup.directory.clone()),
        setting("open.browser", join(config.open.browser.as_slice(), " ")),
        setting("open.file_manager", join(config.open.file_manager.as_slice(), " ")),
    ];
    let ghost head = fixed_settings(config@, maybe_text(*chosen));
    assert(views(lines@) =~= head);
    // What is declared, not what docker happens to be running: this screen
    // answers "what did I configure", and the services pane answers the rest.
    let ghost services = config@.service.map_values(
        |declared: (Seq<char>, ServiceConfigView)| service_setting(declared),
    );
    if config.service.len() == 0 {
        lines.push(
            setting("service", "none declared — the list is whatever docker reports".to_owned()),
        );
    } else {
        let mut i: usize = 0;
        assert(views(lines@) =~= head + services.take(0));
        while i < config.service.len()
            invariant
                i <= config.service@.len(),
                services == views(config.service@).map_values(
                    |declared: (Seq<char>, ServiceConfigView)| service_setting(declared),
                ),
                views(lines@) == head + services.take(i as int),
            decreases config.service@.len() - i,
        {
            lines.push(service_line(config.service[i].0.as_str(), &config.service[i].1));
            assert(services[i as int] == service_setting(config.service@[i as int]@));
            assert(head + services.take(i + 1) =~= (head + services.take(i as int)).push(
                services[i as int],
            ));
            i = i + 1;
        }
        assert(services.take(i as int) =~= services);
    }
    let ghost middle = views(lines@);
    if config.toolchain.len() == 0 {
        lines.push(setting("toolchain", "none — adev config --init finds what is here".to_owned()));
    } else {
        let ghost expected = tool_settings(config@.toolchain, installed@);
        let mut tools: Vec<Setting> = Vec::new();
        let mut k: usize = 0;
        while k < config.toolchain.len()
            invariant
                k <= config.toolchain@.len(),
                installed@.len() == config.toolchain@.len(),
                expected == tool_settings(views(config.toolchain@), installed@),
                views(tools@) == expected.take(k as int),
            decreases config.toolchain@.len() - k,
        {
            let tool = &config.toolchain[k];
            let mut text = number_text(installed[k] as u64);
            text.append(" installed · ");
            text.append(join(tool.1.search.as_slice(), ", ").as_str());
            tools.push(Setting { label: with("toolchain.", tool.0.as_str()), text });
            assert(expected[k as int] == tool_setting(
                config.toolchain@[k as int]@,
                installed@[k as int],
            ));
            assert(expected.take(k + 1) =~= expected.take(k as int).push(expected[k as int]));
            k = k + 1;
        }
        assert(expected.take(k as int) =~= expected);
        let mut sorted = sort(tools);
        let ghost last = views(sorted@);
        lines.append(&mut sorted);
        assert(views(lines@) =~= middle + last);
    }
    assert(views(lines@) =~= all_settings(config@, maybe_text(*chosen), installed@));
    lines
}

/// What is printed of a service never depends on what its password is.
pub proof fn law_a_password_is_never_printed(
    name: Seq<char>,
    settings: ServiceConfigView,
    other: Seq<char>,
)
    requires
        settings.password is Some,
    ensures
        service_block((name, settings)) == service_block(
            (name, ServiceConfigView { password: Some(other), ..settings }),
        ),
        service_setting((name, settings)) == service_setting(
            (name, ServiceConfigView { password: Some(other), ..settings }),
        ),
{
}

/// A report shows each setting behind its name.
pub proof fn law_a_report_shows_each_setting(
    config: ConfigView,
    chosen: Option<Seq<char>>,
    target: Seq<char>,
    path: Seq<char>,
)
    ensures
        fixed_lines(config, Some(path), target)[0] == "read from "@ + path,
        fixed_lines(config, None, target)[0]
            == "no configuration file was found — every default is in force"@,
        ({
            let lines = fixed_lines(config, chosen, target);
            &&& lines[1] == "would be written to "@ + target
            &&& lines[4] == "  roots       "@ + quoted_list(config.project.roots)
            &&& lines[5] == "  max_depth   "@ + decimal(config.project.max_depth as nat)
            &&& lines[7] == "  workers     "@ + decimal(config.scan.workers as nat)
            &&& lines[9] == "  endpoint    "@ + config.docker.endpoint
            &&& lines[11] == "  container   "@ + config.caddy.container
            &&& lines[12] == "  caddyfile   "@ + config.caddy.caddyfile
            &&& lines[13] == "  domains     "@ + config.caddy.domains
            &&& lines[15] == "  browser     "@ + joined(config.open.browser, " "@)
            &&& lines[16] == "  file_manager "@ + joined(config.open.file_manager, " "@)
            &&& lines[18] == "  directory   "@ + config.backup.directory
            &&& lines[19] == "  gzip        "@ + (if config.backup.gzip {
                "true"@
            } else {
                "false"@
            })
            &&& lines[21] == "  interval    "@ + decimal(config.memory.interval_secs as nat) + "s"@
            &&& lines[22] == "  guest       "@ + joined(config.memory.guest, " "@)
            &&& lines[23] == "  host_process "@ + joined(config.memory.host_process, ", "@)
        }),
{
}

/// A declared service is reported with what is declared of it and no more: its
/// container, and each other setting only where there is one.
pub proof fn law_a_service_is_reported_as_declared(name: Seq<char>, settings: ServiceConfigView)
    ensures
        ({
            let lines = service_block((name, settings));
            let container = if settings.container is Some {
                settings.container->0
            } else {
                name
            };
            let count = |is: bool| if is {
                1int
            } else {
                0int
            };
            &&& lines[1] == "[service."@ + name + "]"@
            &&& lines[2] == "  container   "@ + container
            &&& lines.len() == 3 + count(settings.port is Some) + count(settings.domain is Some)
                + count(settings.panel is Some) + count(settings.user is Some) + count(
                settings.password_env is Some || settings.password is Some,
            )
            &&& settings.port is Some ==> lines[3] == "  port        "@ + decimal(
                settings.port->0 as nat,
            )
            &&& settings.password_env is Some ==> lines.last() == "  password    read from "@
                + settings.password_env->0
            &&& settings.password_env is None && settings.password is Some ==> lines.last()
                == "  password    set in this file"@
        }),
{
}

/// A tool is reported with how many of it are installed and where each lies.
pub proof fn law_a_tool_is_reported_with_its_installs(
    name: Seq<char>,
    installed: Seq<InstalledView>,
    i: int,
)
    ensures
        tool_block(name, installed).len() == installed.len() + 2,
        installed.len() > 0 ==> tool_block(name, installed)[1] == "[toolchain."@ + name + "]  "@
            + decimal(installed.len()) + " installed"@,
        installed.len() == 0 ==> tool_block(name, installed)[1] == "[toolchain."@ + name + "]  "@
            + "none"@ + " installed"@,
        0 <= i < installed.len() ==> tool_block(name, installed)[i + 2] == "  "@ + padded(
            installed[i].version.text(),
            12,
        ) + " "@ + installed[i].path,
{
}

/// The settings of the dashboard are the file, the fixed ones and then what is
/// declared, each behind its name.
pub proof fn law_each_setting_stands_behind_its_name(
    config: ConfigView,
    chosen: Option<Seq<char>>,
    installed: Seq<usize>,
    path: Seq<char>,
    i: int,
)
    ensures
        fixed_settings(config, Some(path))[0] == ("file"@, path),
        ({
            let fixed = fixed_settings(config, chosen);
            &&& fixed.len() == 8
            &&& fixed[1] == ("project.roots"@, joined(config.project.roots, ", "@))
            &&& fixed[2] == ("scan.workers"@, decimal(config.scan.workers as nat))
            &&& fixed[3] == ("docker.endpoint"@, config.docker.endpoint)
            &&& fixed[4] == ("caddy.container"@, config.caddy.container)
            &&& fixed[5] == ("backup.directory"@, config.backup.directory)
            &&& fixed[6] == ("open.browser"@, joined(config.open.browser, " "@))
            &&& fixed[7] == ("open.file_manager"@, joined(config.open.file_manager, " "@))
        }),
        0 <= i < config.service.len() ==> all_settings(config, chosen, installed)[8 + i].0
            == "service."@ + config.service[i].0,
        all_settings(config, chosen, installed).take(8) == fixed_settings(config, chosen),
{
    let all = all_settings(config, chosen, installed);
    assert(all.take(8) =~= fixed_settings(config, chosen));
}

} // verus!
