//! Everything the user is allowed to change. No path, port, or root directory
//! is a constant in the code: a layout that is hard-coded can only ever run on
//! one machine.

use crate::catalog::{ServiceConfig, ServiceConfigView};
use crate::entries::{entry_of, find_entry};
use crate::listen::{
    default_kill, default_ports, kill_on, Format, PortsConfig, PortsConfigView, Probe, ProbeView,
};
use crate::memory::{default_memory, MemoryConfig, MemoryConfigView};
use crate::open::{browser_on, file_manager_on, OpenConfig, OpenConfigView};
use crate::platform::Platform;
use crate::recipe::{RunOverride, RunOverrideView};
use crate::sections::{
    all_texts, as_table, check_keys, first_unknown, flag_key, lemma_a_problem_is_found,
    lemma_first_unknown, lemma_items_view, lemma_read_one_by_one, maybe_parts, number_key, parse,
    problem_text, read_flag, read_number, read_section, read_sections, read_text, read_texts,
    section_of, sections_of, table_of, text_key, texts_key, toml_document, wrong_kind, Problem,
    ProblemView, Section, Toml, TomlView,
};
use crate::text::{
    chars_of, is_white, law_only_blank_texts_trim_to_nothing, leading_white, lemma_views_push,
    owned, parts_of, same, trim, trimmed, views,
};
use crate::toolchain::{ToolConfig, ToolConfigView};
use vstd::prelude::*;
use vstd::string::*;

verus! {

#[derive(Debug)]
pub enum ConfigError {
    Parse(String),
    Io { path: String, reason: String },
    Invalid { field: &'static str, reason: &'static str },
}

/// What a refusal says.
#[verifier::ext_equal]
pub enum ConfigErrorView {
    Parse(Seq<char>),
    Io { path: Seq<char>, reason: Seq<char> },
    Invalid { field: Seq<char>, reason: Seq<char> },
}

impl View for ConfigError {
    type V = ConfigErrorView;

    open spec fn view(&self) -> ConfigErrorView {
        match self {
            ConfigError::Parse(reason) => ConfigErrorView::Parse(reason@),
            ConfigError::Io { path, reason } => ConfigErrorView::Io {
                path: path@,
                reason: reason@,
            },
            ConfigError::Invalid { field, reason } => ConfigErrorView::Invalid {
                field: field@,
                reason: reason@,
            },
        }
    }
}

/// The sentence that reports a refusal.
pub open spec fn config_error_text(error: ConfigErrorView) -> Seq<char> {
    match error {
        ConfigErrorView::Parse(reason) => "config is not valid TOML: "@ + reason,
        ConfigErrorView::Io { path, reason } => "cannot read "@ + path + ": "@ + reason,
        ConfigErrorView::Invalid { field, reason } => "invalid config: "@ + field + " "@ + reason,
    }
}

impl ConfigError {
    /// The sentence that reports this refusal.
    pub fn to_string(&self) -> (text: String)
        ensures
            text@ == config_error_text(self@),
    {
        match self {
            ConfigError::Parse(reason) => {
                let mut text = "config is not valid TOML: ".to_owned();
                text.append(reason.as_str());
                text
            },
            ConfigError::Io { path, reason } => {
                let mut text = "cannot read ".to_owned();
                text.append(path.as_str());
                text.append(": ");
                text.append(reason.as_str());
                text
            },
            ConfigError::Invalid { field, reason } => {
                let mut text = "invalid config: ".to_owned();
                text.append(field);
                text.append(" ");
                text.append(reason);
                text
            },
        }
    }
}

/// What was found, or else what holds without it.
pub open spec fn found_or<T>(found: Option<T>, fallback: T) -> T {
    match found {
        Some(value) => value,
        None => fallback,
    }
}

fn value_or<T>(found: Option<T>, fallback: T) -> (value: T)
    ensures
        value == found_or(found, fallback),
{
    match found {
        Some(value) => value,
        None => fallback,
    }
}

#[derive(Debug, Clone, PartialEq, Eq)]
pub struct ProjectConfig {
    /// Directories to scan for projects.
    pub roots: Vec<String>,
    /// How deep to descend below each root before giving up.
    pub max_depth: usize,
    /// Directory names never descended into.
    pub ignore: Vec<String>,
}

/// What the section says.
#[verifier::ext_equal]
pub struct ProjectConfigView {
    pub roots: Seq<Seq<char>>,
    pub max_depth: usize,
    pub ignore: Seq<Seq<char>>,
}

impl View for ProjectConfig {
    type V = ProjectConfigView;

    open spec fn view(&self) -> ProjectConfigView {
        ProjectConfigView {
            roots: views(self.roots@),
            max_depth: self.max_depth,
            ignore: views(self.ignore@),
        }
    }
}

/// The current directory, deliberately: a default that named one developer's
/// folder could not be a default. Real roots belong in the user's config file.
pub open spec fn default_project() -> ProjectConfigView {
    ProjectConfigView {
        roots: seq!["."@],
        max_depth: 3,
        ignore: seq!["node_modules"@, "vendor"@, "target"@, ".git"@],
    }
}

impl Default for ProjectConfig {
    fn default() -> (config: Self)
        ensures
            config@ == default_project(),
    {
        let config = ProjectConfig {
            roots: owned(&["."]),
            max_depth: 3,
            ignore: owned(&["node_modules", "vendor", "target", ".git"]),
        };
        assert(config@ =~~= default_project());
        config
    }
}

impl Section for ProjectConfig {
    open spec fn absent(platform: Platform) -> ProjectConfigView {
        default_project()
    }

    open spec fn read_from(
        platform: Platform,
        section: Seq<char>,
        table: Seq<(Seq<char>, TomlView)>,
    ) -> Result<ProjectConfigView, ProblemView> {
        let roots = texts_key(section, table, "roots"@);
        let max_depth = number_key(section, table, "max_depth"@, usize::MAX as nat);
        let ignore = texts_key(section, table, "ignore"@);
        match first_unknown(table, seq!["roots"@, "max_depth"@, "ignore"@]) {
            Some(key) => Err(ProblemView::UnknownKey { section, key }),
            None => if roots is Err {
                Err(roots->Err_0)
            } else if max_depth is Err {
                Err(max_depth->Err_0)
            } else if ignore is Err {
                Err(ignore->Err_0)
            } else {
                Ok(
                    ProjectConfigView {
                        roots: found_or(roots->Ok_0, default_project().roots),
                        max_depth: found_or(max_depth->Ok_0, 3) as usize,
                        ignore: found_or(ignore->Ok_0, default_project().ignore),
                    },
                )
            },
        }
    }

    open spec fn keys() -> Option<Seq<Seq<char>>> {
        Some(seq!["roots"@, "max_depth"@, "ignore"@])
    }

    fn key_names() -> Option<Vec<&'static str>> {
        let names: Vec<&'static str> = vec!["roots", "max_depth", "ignore"];
        assert(parts_of(names@) =~= seq!["roots"@, "max_depth"@, "ignore"@]);
        Some(names)
    }

    fn fallback(platform: Platform) -> Self {
        ProjectConfig::default()
    }

    fn read(platform: Platform, section: &str, table: &[(String, Toml)]) -> Result<Self, Problem> {
        let known: [&str; 3] = ["roots", "max_depth", "ignore"];
        assert(parts_of(known@) =~= seq!["roots"@, "max_depth"@, "ignore"@]);
        if let Err(problem) = check_keys(section, table, &known) {
            return Err(problem);
        }
        let fallback = ProjectConfig::default();
        let roots = match read_texts(section, table, "roots") {
            Ok(roots) => value_or(roots, fallback.roots),
            Err(problem) => {
                return Err(problem);
            },
        };
        let max_depth = match read_number(section, table, "max_depth", usize::MAX as u64) {
            Ok(max_depth) => value_or(max_depth, 3) as usize,
            Err(problem) => {
                return Err(problem);
            },
        };
        let ignore = match read_texts(section, table, "ignore") {
            Ok(ignore) => value_or(ignore, fallback.ignore),
            Err(problem) => {
                return Err(problem);
            },
        };
        Ok(ProjectConfig { roots, max_depth, ignore })
    }
}

#[derive(Debug, Clone, PartialEq, Eq)]
pub struct ScanConfig {
    /// How many repositories are inspected at once. Measured on one machine, 24
    /// repositories took 5,983 ms one at a time and 850 ms in parallel.
    pub workers: usize,
    /// A repository that takes longer than this is reported as unknown rather
    /// than allowed to stall the scan.
    pub git_timeout_ms: u64,
    /// How long a completed scan stays fresh before it is worth repeating.
    pub cache_ttl_secs: u64,
}

/// What the section says.
#[verifier::ext_equal]
pub struct ScanConfigView {
    pub workers: usize,
    pub git_timeout_ms: u64,
    pub cache_ttl_secs: u64,
}

impl View for ScanConfig {
    type V = ScanConfigView;

    open spec fn view(&self) -> ScanConfigView {
        ScanConfigView {
            workers: self.workers,
            git_timeout_ms: self.git_timeout_ms,
            cache_ttl_secs: self.cache_ttl_secs,
        }
    }
}

/// What holds where nothing is said about scanning.
pub open spec fn default_scan() -> ScanConfigView {
    ScanConfigView { workers: 12, git_timeout_ms: 2000, cache_ttl_secs: 30 }
}

impl Default for ScanConfig {
    fn default() -> (config: Self)
        ensures
            config@ == default_scan(),
    {
        ScanConfig { workers: 12, git_timeout_ms: 2000, cache_ttl_secs: 30 }
    }
}

impl Section for ScanConfig {
    open spec fn absent(platform: Platform) -> ScanConfigView {
        default_scan()
    }

    open spec fn read_from(
        platform: Platform,
        section: Seq<char>,
        table: Seq<(Seq<char>, TomlView)>,
    ) -> Result<ScanConfigView, ProblemView> {
        let workers = number_key(section, table, "workers"@, usize::MAX as nat);
        let timeout = number_key(section, table, "git_timeout_ms"@, u64::MAX as nat);
        let ttl = number_key(section, table, "cache_ttl_secs"@, u64::MAX as nat);
        match first_unknown(table, seq!["workers"@, "git_timeout_ms"@, "cache_ttl_secs"@]) {
            Some(key) => Err(ProblemView::UnknownKey { section, key }),
            None => if workers is Err {
                Err(workers->Err_0)
            } else if timeout is Err {
                Err(timeout->Err_0)
            } else if ttl is Err {
                Err(ttl->Err_0)
            } else {
                Ok(
                    ScanConfigView {
                        workers: found_or(workers->Ok_0, 12) as usize,
                        git_timeout_ms: found_or(timeout->Ok_0, 2000) as u64,
                        cache_ttl_secs: found_or(ttl->Ok_0, 30) as u64,
                    },
                )
            },
        }
    }

    open spec fn keys() -> Option<Seq<Seq<char>>> {
        Some(seq!["workers"@, "git_timeout_ms"@, "cache_ttl_secs"@])
    }

    fn key_names() -> Option<Vec<&'static str>> {
        let names: Vec<&'static str> = vec!["workers", "git_timeout_ms", "cache_ttl_secs"];
        assert(parts_of(names@) =~= seq!["workers"@, "git_timeout_ms"@, "cache_ttl_secs"@]);
        Some(names)
    }

    fn fallback(platform: Platform) -> Self {
        ScanConfig::default()
    }

    fn read(platform: Platform, section: &str, table: &[(String, Toml)]) -> Result<Self, Problem> {
        let known: [&str; 3] = ["workers", "git_timeout_ms", "cache_ttl_secs"];
        assert(parts_of(known@) =~= seq!["workers"@, "git_timeout_ms"@, "cache_ttl_secs"@]);
        if let Err(problem) = check_keys(section, table, &known) {
            return Err(problem);
        }
        let workers = match read_number(section, table, "workers", usize::MAX as u64) {
            Ok(workers) => value_or(workers, 12) as usize,
            Err(problem) => {
                return Err(problem);
            },
        };
        let git_timeout_ms = match read_number(section, table, "git_timeout_ms", u64::MAX) {
            Ok(timeout) => value_or(timeout, 2000),
            Err(problem) => {
                return Err(problem);
            },
        };
        let cache_ttl_secs = match read_number(section, table, "cache_ttl_secs", u64::MAX) {
            Ok(ttl) => value_or(ttl, 30),
            Err(problem) => {
                return Err(problem);
            },
        };
        Ok(ScanConfig { workers, git_timeout_ms, cache_ttl_secs })
    }
}

#[derive(Debug, Clone, PartialEq, Eq)]
pub struct DockerConfig {
    /// How to reach the Docker daemon. `auto` means "work it out at connect
    /// time", from `DOCKER_HOST`.
    pub endpoint: String,
}

/// What the section says.
#[verifier::ext_equal]
pub struct DockerConfigView {
    pub endpoint: Seq<char>,
}

impl View for DockerConfig {
    type V = DockerConfigView;

    open spec fn view(&self) -> DockerConfigView {
        DockerConfigView { endpoint: self.endpoint@ }
    }
}

impl Default for DockerConfig {
    fn default() -> (config: Self)
        ensures
            config@ == (DockerConfigView { endpoint: "auto"@ }),
    {
        DockerConfig { endpoint: "auto".to_owned() }
    }
}

impl Section for DockerConfig {
    open spec fn absent(platform: Platform) -> DockerConfigView {
        DockerConfigView { endpoint: "auto"@ }
    }

    open spec fn read_from(
        platform: Platform,
        section: Seq<char>,
        table: Seq<(Seq<char>, TomlView)>,
    ) -> Result<DockerConfigView, ProblemView> {
        let endpoint = text_key(section, table, "endpoint"@);
        match first_unknown(table, seq!["endpoint"@]) {
            Some(key) => Err(ProblemView::UnknownKey { section, key }),
            None => if endpoint is Err {
                Err(endpoint->Err_0)
            } else {
                Ok(DockerConfigView { endpoint: found_or(endpoint->Ok_0, "auto"@) })
            },
        }
    }

    open spec fn keys() -> Option<Seq<Seq<char>>> {
        Some(seq!["endpoint"@])
    }

    fn key_names() -> Option<Vec<&'static str>> {
        let names: Vec<&'static str> = vec!["endpoint"];
        assert(parts_of(names@) =~= seq!["endpoint"@]);
        Some(names)
    }

    fn fallback(platform: Platform) -> Self {
        DockerConfig::default()
    }

    fn read(platform: Platform, section: &str, table: &[(String, Toml)]) -> Result<Self, Problem> {
        let known: [&str; 1] = ["endpoint"];
        assert(parts_of(known@) =~= seq!["endpoint"@]);
        if let Err(problem) = check_keys(section, table, &known) {
            return Err(problem);
        }
        match read_text(section, table, "endpoint") {
            Ok(endpoint) => Ok(
                DockerConfig { endpoint: value_or(endpoint, "auto".to_owned()) },
            ),
            Err(problem) => Err(problem),
        }
    }
}

#[derive(Debug, Clone, PartialEq, Eq)]
pub struct CaddyConfig {
    /// Container restarted so the proxy picks up a regenerated config.
    pub container: String,
    /// The generated reverse-proxy config. Overwritten without asking, so it
    /// is an output of this tool rather than something to edit.
    pub caddyfile: String,
    /// The source of truth for local hostnames.
    pub domains: String,
}

/// What the section says.
#[verifier::ext_equal]
pub struct CaddyConfigView {
    pub container: Seq<char>,
    pub caddyfile: Seq<char>,
    pub domains: Seq<char>,
}

impl View for CaddyConfig {
    type V = CaddyConfigView;

    open spec fn view(&self) -> CaddyConfigView {
        CaddyConfigView {
            container: self.container@,
            caddyfile: self.caddyfile@,
            domains: self.domains@,
        }
    }
}

/// What holds where nothing is said about the proxy.
pub open spec fn default_caddy() -> CaddyConfigView {
    CaddyConfigView {
        container: "caddy-proxy"@,
        caddyfile: "Caddyfile"@,
        domains: "domains.toml"@,
    }
}

impl Default for CaddyConfig {
    fn default() -> (config: Self)
        ensures
            config@ == default_caddy(),
    {
        CaddyConfig {
            container: "caddy-proxy".to_owned(),
            caddyfile: "Caddyfile".to_owned(),
            domains: "domains.toml".to_owned(),
        }
    }
}

impl Section for CaddyConfig {
    open spec fn absent(platform: Platform) -> CaddyConfigView {
        default_caddy()
    }

    open spec fn read_from(
        platform: Platform,
        section: Seq<char>,
        table: Seq<(Seq<char>, TomlView)>,
    ) -> Result<CaddyConfigView, ProblemView> {
        let container = text_key(section, table, "container"@);
        let caddyfile = text_key(section, table, "caddyfile"@);
        let domains = text_key(section, table, "domains"@);
        match first_unknown(table, seq!["container"@, "caddyfile"@, "domains"@]) {
            Some(key) => Err(ProblemView::UnknownKey { section, key }),
            None => if container is Err {
                Err(container->Err_0)
            } else if caddyfile is Err {
                Err(caddyfile->Err_0)
            } else if domains is Err {
                Err(domains->Err_0)
            } else {
                Ok(
                    CaddyConfigView {
                        container: found_or(container->Ok_0, default_caddy().container),
                        caddyfile: found_or(caddyfile->Ok_0, default_caddy().caddyfile),
                        domains: found_or(domains->Ok_0, default_caddy().domains),
                    },
                )
            },
        }
    }

    open spec fn keys() -> Option<Seq<Seq<char>>> {
        Some(seq!["container"@, "caddyfile"@, "domains"@])
    }

    fn key_names() -> Option<Vec<&'static str>> {
        let names: Vec<&'static str> = vec!["container", "caddyfile", "domains"];
        assert(parts_of(names@) =~= seq!["container"@, "caddyfile"@, "domains"@]);
        Some(names)
    }

    fn fallback(platform: Platform) -> Self {
        CaddyConfig::default()
    }

    fn read(platform: Platform, section: &str, table: &[(String, Toml)]) -> Result<Self, Problem> {
        let known: [&str; 3] = ["container", "caddyfile", "domains"];
        assert(parts_of(known@) =~= seq!["container"@, "caddyfile"@, "domains"@]);
        if let Err(problem) = check_keys(section, table, &known) {
            return Err(problem);
        }
        let fallback = CaddyConfig::default();
        let container = match read_text(section, table, "container") {
            Ok(container) => value_or(container, fallback.container),
            Err(problem) => {
                return Err(problem);
            },
        };
        let caddyfile = match read_text(section, table, "caddyfile") {
            Ok(caddyfile) => value_or(caddyfile, fallback.caddyfile),
            Err(problem) => {
                return Err(problem);
            },
        };
        let domains = match read_text(section, table, "domains") {
            Ok(domains) => value_or(domains, fallback.domains),
            Err(problem) => {
                return Err(problem);
            },
        };
        Ok(CaddyConfig { container, caddyfile, domains })
    }
}

/// Entries that are texts, such as the versions a project is pinned to.
#[derive(Debug, Clone, PartialEq, Eq)]
pub struct TextEntries {
    pub entries: Vec<(String, String)>,
}

impl View for TextEntries {
    type V = Seq<(Seq<char>, Seq<char>)>;

    open spec fn view(&self) -> Seq<(Seq<char>, Seq<char>)> {
        views(self.entries@)
    }
}

impl TextEntries {
    /// What the entry of this name says.
    pub fn get(&self, name: &str) -> (value: Option<&String>)
        ensures
            match value {
                Some(value) => entry_of(self@, name@) == Some(value@),
                None => entry_of(self@, name@) is None,
            },
    {
        find_entry(self.entries.as_slice(), name)
    }
}

/// The texts a table holds, every one or the first that is something else.
pub open spec fn text_entries(section: Seq<char>, table: Seq<(Seq<char>, TomlView)>) -> Result<
    Seq<(Seq<char>, Seq<char>)>,
    ProblemView,
>
    decreases table.len(),
{
    if table.len() == 0 {
        Ok(seq![])
    } else {
        match text_entries(section, table.drop_last()) {
            Err(problem) => Err(problem),
            Ok(before) => match table.last().1 {
                TomlView::Text(text) => Ok(before.push((table.last().0, text))),
                _ => Err(wrong_kind(section, table.last().0, "a text"@)),
            },
        }
    }
}

proof fn lemma_first_wrong_entry_stands(
    section: Seq<char>,
    table: Seq<(Seq<char>, TomlView)>,
    n: int,
)
    requires
        0 <= n <= table.len(),
        text_entries(section, table.take(n)) is Err,
    ensures
        text_entries(section, table) == text_entries(section, table.take(n)),
    decreases table.len() - n,
{
    if n < table.len() {
        assert(table.take(n + 1).drop_last() =~= table.take(n));
        lemma_first_wrong_entry_stands(section, table, n + 1);
    } else {
        assert(table.take(n) =~= table);
    }
}

pub(crate) fn read_text_entries(section: &str, table: &[(String, Toml)]) -> (list: Result<
    Vec<(String, String)>,
    Problem,
>)
    ensures
        match list {
            Ok(list) => text_entries(section@, views(table@)) == Ok::<
                Seq<(Seq<char>, Seq<char>)>,
                ProblemView,
            >(views(list@)),
            Err(problem) => text_entries(section@, views(table@)) == Err::<
                Seq<(Seq<char>, Seq<char>)>,
                ProblemView,
            >(problem@),
        },
{
    let ghost all = views(table@);
    let mut list: Vec<(String, String)> = Vec::new();
    let mut i: usize = 0;
    assert(views(list@) =~= seq![]);
    while i < table.len()
        invariant
            i <= table@.len(),
            all == views(table@),
            text_entries(section@, all.take(i as int)) == Ok::<
                Seq<(Seq<char>, Seq<char>)>,
                ProblemView,
            >(views(list@)),
        decreases table@.len() - i,
    {
        assert(all.take(i + 1).drop_last() =~= all.take(i as int));
        assert(all.take(i + 1).last() == table@[i as int]@);
        match &table[i].1 {
            Toml::Text(text) => {
                let ghost before = views(list@);
                list.push((table[i].0.clone(), text.clone()));
                assert(views(list@) =~= before.push((table@[i as int].0@, text@)));
            },
            _ => {
                proof {
                    lemma_first_wrong_entry_stands(section@, all, i + 1);
                }
                return Err(
                    Problem::WrongKind {
                        section: section.to_owned(),
                        key: table[i].0.clone(),
                        wanted: "a text",
                    },
                );
            },
        }
        i = i + 1;
    }
    assert(all.take(i as int) =~= all);
    Ok(list)
}

impl Section for TextEntries {
    open spec fn absent(platform: Platform) -> Seq<(Seq<char>, Seq<char>)> {
        seq![]
    }

    open spec fn read_from(
        platform: Platform,
        section: Seq<char>,
        table: Seq<(Seq<char>, TomlView)>,
    ) -> Result<Seq<(Seq<char>, Seq<char>)>, ProblemView> {
        text_entries(section, table)
    }

    open spec fn keys() -> Option<Seq<Seq<char>>> {
        None
    }

    fn key_names() -> Option<Vec<&'static str>> {
        None
    }

    fn fallback(platform: Platform) -> Self {
        let none = TextEntries { entries: Vec::new() };
        assert(none@ =~= seq![]);
        none
    }

    fn read(platform: Platform, section: &str, table: &[(String, Toml)]) -> Result<Self, Problem> {
        match read_text_entries(section, table) {
            Ok(entries) => Ok(TextEntries { entries }),
            Err(problem) => Err(problem),
        }
    }
}

/// A tool about which nothing is said.
pub open spec fn default_tool() -> ToolConfigView {
    ToolConfigView { search: seq![], binary: seq![], bin_subdir: None, versions: seq![] }
}

impl Section for ToolConfig {
    open spec fn absent(platform: Platform) -> ToolConfigView {
        default_tool()
    }

    open spec fn read_from(
        platform: Platform,
        section: Seq<char>,
        table: Seq<(Seq<char>, TomlView)>,
    ) -> Result<ToolConfigView, ProblemView> {
        let search = texts_key(section, table, "search"@);
        let binary = text_key(section, table, "binary"@);
        let bin_subdir = text_key(section, table, "bin_subdir"@);
        let versions = section_of::<TextEntries>(platform, table, "versions"@);
        match first_unknown(table, seq!["search"@, "binary"@, "bin_subdir"@, "versions"@]) {
            Some(key) => Err(ProblemView::UnknownKey { section, key }),
            None => if search is Err {
                Err(search->Err_0)
            } else if binary is Err {
                Err(binary->Err_0)
            } else if bin_subdir is Err {
                Err(bin_subdir->Err_0)
            } else if versions is Err {
                Err(versions->Err_0)
            } else {
                Ok(
                    ToolConfigView {
                        search: found_or(search->Ok_0, seq![]),
                        binary: found_or(binary->Ok_0, seq![]),
                        bin_subdir: bin_subdir->Ok_0,
                        versions: versions->Ok_0,
                    },
                )
            },
        }
    }

    open spec fn keys() -> Option<Seq<Seq<char>>> {
        Some(seq!["search"@, "binary"@, "bin_subdir"@, "versions"@])
    }

    fn key_names() -> Option<Vec<&'static str>> {
        let names: Vec<&'static str> = vec!["search", "binary", "bin_subdir", "versions"];
        assert(parts_of(names@) =~= seq!["search"@, "binary"@, "bin_subdir"@, "versions"@]);
        Some(names)
    }

    fn fallback(platform: Platform) -> Self {
        ToolConfig::default()
    }

    fn read(platform: Platform, section: &str, table: &[(String, Toml)]) -> Result<Self, Problem> {
        let known: [&str; 4] = ["search", "binary", "bin_subdir", "versions"];
        assert(parts_of(known@) =~= seq!["search"@, "binary"@, "bin_subdir"@, "versions"@]);
        if let Err(problem) = check_keys(section, table, &known) {
            return Err(problem);
        }
        let fallback = ToolConfig::default();
        let search = match read_texts(section, table, "search") {
            Ok(search) => value_or(search, fallback.search),
            Err(problem) => {
                return Err(problem);
            },
        };
        let binary = match read_text(section, table, "binary") {
            Ok(binary) => value_or(binary, fallback.binary),
            Err(problem) => {
                return Err(problem);
            },
        };
        let bin_subdir = match read_text(section, table, "bin_subdir") {
            Ok(bin_subdir) => bin_subdir,
            Err(problem) => {
                return Err(problem);
            },
        };
        match read_section::<TextEntries>(platform, table, "versions") {
            Ok(versions) => Ok(
                ToolConfig { search, binary, bin_subdir, versions: versions.entries },
            ),
            Err(problem) => Err(problem),
        }
    }
}

impl Section for RunOverride {
    open spec fn absent(platform: Platform) -> RunOverrideView {
        nothing_overridden()
    }

    open spec fn read_from(
        platform: Platform,
        section: Seq<char>,
        table: Seq<(Seq<char>, TomlView)>,
    ) -> Result<RunOverrideView, ProblemView> {
        let command = text_key(section, table, "command"@);
        let port = number_key(section, table, "port"@, u16::MAX as nat);
        match first_unknown(table, seq!["command"@, "port"@]) {
            Some(key) => Err(ProblemView::UnknownKey { section, key }),
            None => if command is Err {
                Err(command->Err_0)
            } else if port is Err {
                Err(port->Err_0)
            } else {
                Ok(RunOverrideView { command: command->Ok_0, port: as_port(port->Ok_0) })
            },
        }
    }

    open spec fn keys() -> Option<Seq<Seq<char>>> {
        Some(seq!["command"@, "port"@])
    }

    fn key_names() -> Option<Vec<&'static str>> {
        let names: Vec<&'static str> = vec!["command", "port"];
        assert(parts_of(names@) =~= seq!["command"@, "port"@]);
        Some(names)
    }

    fn fallback(platform: Platform) -> Self {
        RunOverride::default()
    }

    fn read(platform: Platform, section: &str, table: &[(String, Toml)]) -> Result<Self, Problem> {
        let known: [&str; 2] = ["command", "port"];
        assert(parts_of(known@) =~= seq!["command"@, "port"@]);
        if let Err(problem) = check_keys(section, table, &known) {
            return Err(problem);
        }
        let command = match read_text(section, table, "command") {
            Ok(command) => command,
            Err(problem) => {
                return Err(problem);
            },
        };
        match read_port(section, table) {
            Ok(port) => Ok(RunOverride { command, port }),
            Err(problem) => Err(problem),
        }
    }
}

/// A number that was held to be a port.
pub open spec fn as_port(number: Option<nat>) -> Option<u16> {
    match number {
        Some(port) => Some(port as u16),
        None => None,
    }
}

fn read_port(section: &str, table: &[(String, Toml)]) -> (port: Result<Option<u16>, Problem>)
    ensures
        match port {
            Ok(port) => number_key(section@, views(table@), "port"@, u16::MAX as nat) matches Ok(
                number,
            ) && port == as_port(number),
            Err(problem) => number_key(section@, views(table@), "port"@, u16::MAX as nat) == Err::<
                Option<nat>,
                ProblemView,
            >(problem@),
        },
{
    match read_number(section, table, "port", u16::MAX as u64) {
        Ok(Some(port)) => Ok(Some(port as u16)),
        Ok(None) => Ok(None),
        Err(problem) => Err(problem),
    }
}

impl Section for ServiceConfig {
    open spec fn absent(platform: Platform) -> ServiceConfigView {
        ServiceConfigView::nothing()
    }

    open spec fn read_from(
        platform: Platform,
        section: Seq<char>,
        table: Seq<(Seq<char>, TomlView)>,
    ) -> Result<ServiceConfigView, ProblemView> {
        let container = text_key(section, table, "container"@);
        let port = number_key(section, table, "port"@, u16::MAX as nat);
        let panel = text_key(section, table, "panel"@);
        let domain = text_key(section, table, "domain"@);
        let user = text_key(section, table, "user"@);
        let password_env = text_key(section, table, "password_env"@);
        let password = text_key(section, table, "password"@);
        match first_unknown(
            table,
            seq![
                "container"@,
                "port"@,
                "panel"@,
                "domain"@,
                "user"@,
                "password_env"@,
                "password"@,
            ],
        ) {
            Some(key) => Err(ProblemView::UnknownKey { section, key }),
            None => if container is Err {
                Err(container->Err_0)
            } else if port is Err {
                Err(port->Err_0)
            } else if panel is Err {
                Err(panel->Err_0)
            } else if domain is Err {
                Err(domain->Err_0)
            } else if user is Err {
                Err(user->Err_0)
            } else if password_env is Err {
                Err(password_env->Err_0)
            } else if password is Err {
                Err(password->Err_0)
            } else {
                Ok(
                    ServiceConfigView {
                        container: container->Ok_0,
                        port: as_port(port->Ok_0),
                        panel: panel->Ok_0,
                        domain: domain->Ok_0,
                        user: user->Ok_0,
                        password_env: password_env->Ok_0,
                        password: password->Ok_0,
                    },
                )
            },
        }
    }

    open spec fn keys() -> Option<Seq<Seq<char>>> {
        Some(seq!["container"@, "port"@, "panel"@, "domain"@, "user"@, "password_env"@, "password"@])
    }

    fn key_names() -> Option<Vec<&'static str>> {
        let names: Vec<&'static str> = vec!["container", "port", "panel", "domain", "user", "password_env", "password"];
        assert(parts_of(names@) =~= seq!["container"@, "port"@, "panel"@, "domain"@, "user"@, "password_env"@, "password"@]);
        Some(names)
    }

    fn fallback(platform: Platform) -> Self {
        ServiceConfig::default()
    }

    fn read(platform: Platform, section: &str, table: &[(String, Toml)]) -> Result<Self, Problem> {
        let known: [&str; 7] = [
            "container",
            "port",
            "panel",
            "domain",
            "user",
            "password_env",
            "password",
        ];
        assert(parts_of(known@) =~= seq![
            "container"@,
            "port"@,
            "panel"@,
            "domain"@,
            "user"@,
            "password_env"@,
            "password"@,
        ]);
        if let Err(problem) = check_keys(section, table, &known) {
            return Err(problem);
        }
        let container = match read_text(section, table, "container") {
            Ok(container) => container,
            Err(problem) => {
                return Err(problem);
            },
        };
        let port = match read_port(section, table) {
            Ok(port) => port,
            Err(problem) => {
                return Err(problem);
            },
        };
        let panel = match read_text(section, table, "panel") {
            Ok(panel) => panel,
            Err(problem) => {
                return Err(problem);
            },
        };
        let domain = match read_text(section, table, "domain") {
            Ok(domain) => domain,
            Err(problem) => {
                return Err(problem);
            },
        };
        let user = match read_text(section, table, "user") {
            Ok(user) => user,
            Err(problem) => {
                return Err(problem);
            },
        };
        let password_env = match read_text(section, table, "password_env") {
            Ok(password_env) => password_env,
            Err(problem) => {
                return Err(problem);
            },
        };
        match read_text(section, table, "password") {
            Ok(password) => Ok(
                ServiceConfig { container, port, panel, domain, user, password_env, password },
            ),
            Err(problem) => Err(problem),
        }
    }
}

impl Section for OpenConfig {
    open spec fn absent(platform: Platform) -> OpenConfigView {
        OpenConfigView { browser: browser_on(platform), file_manager: file_manager_on(platform) }
    }

    open spec fn read_from(
        platform: Platform,
        section: Seq<char>,
        table: Seq<(Seq<char>, TomlView)>,
    ) -> Result<OpenConfigView, ProblemView> {
        let browser = texts_key(section, table, "browser"@);
        let file_manager = texts_key(section, table, "file_manager"@);
        match first_unknown(table, seq!["browser"@, "file_manager"@]) {
            Some(key) => Err(ProblemView::UnknownKey { section, key }),
            None => if browser is Err {
                Err(browser->Err_0)
            } else if file_manager is Err {
                Err(file_manager->Err_0)
            } else {
                Ok(
                    OpenConfigView {
                        browser: found_or(browser->Ok_0, browser_on(platform)),
                        file_manager: found_or(file_manager->Ok_0, file_manager_on(platform)),
                    },
                )
            },
        }
    }

    open spec fn keys() -> Option<Seq<Seq<char>>> {
        Some(seq!["browser"@, "file_manager"@])
    }

    fn key_names() -> Option<Vec<&'static str>> {
        let names: Vec<&'static str> = vec!["browser", "file_manager"];
        assert(parts_of(names@) =~= seq!["browser"@, "file_manager"@]);
        Some(names)
    }

    fn fallback(platform: Platform) -> Self {
        OpenConfig::default(platform)
    }

    fn read(platform: Platform, section: &str, table: &[(String, Toml)]) -> Result<Self, Problem> {
        let known: [&str; 2] = ["browser", "file_manager"];
        assert(parts_of(known@) =~= seq!["browser"@, "file_manager"@]);
        if let Err(problem) = check_keys(section, table, &known) {
            return Err(problem);
        }
        let fallback = OpenConfig::default(platform);
        let browser = match read_texts(section, table, "browser") {
            Ok(browser) => value_or(browser, fallback.browser),
            Err(problem) => {
                return Err(problem);
            },
        };
        match read_texts(section, table, "file_manager") {
            Ok(file_manager) => Ok(
                OpenConfig {
                    browser,
                    file_manager: value_or(file_manager, fallback.file_manager),
                },
            ),
            Err(problem) => Err(problem),
        }
    }
}

impl Section for MemoryConfig {
    open spec fn absent(platform: Platform) -> MemoryConfigView {
        default_memory(platform)
    }

    open spec fn read_from(
        platform: Platform,
        section: Seq<char>,
        table: Seq<(Seq<char>, TomlView)>,
    ) -> Result<MemoryConfigView, ProblemView> {
        let interval = number_key(section, table, "interval_secs"@, u64::MAX as nat);
        let guest = texts_key(section, table, "guest"@);
        let host_process = texts_key(section, table, "host_process"@);
        match first_unknown(table, seq!["interval_secs"@, "guest"@, "host_process"@]) {
            Some(key) => Err(ProblemView::UnknownKey { section, key }),
            None => if interval is Err {
                Err(interval->Err_0)
            } else if guest is Err {
                Err(guest->Err_0)
            } else if host_process is Err {
                Err(host_process->Err_0)
            } else {
                Ok(
                    MemoryConfigView {
                        interval_secs: found_or(interval->Ok_0, 5) as u64,
                        guest: found_or(guest->Ok_0, default_memory(platform).guest),
                        host_process: found_or(
                            host_process->Ok_0,
                            default_memory(platform).host_process,
                        ),
                    },
                )
            },
        }
    }

    open spec fn keys() -> Option<Seq<Seq<char>>> {
        Some(seq!["interval_secs"@, "guest"@, "host_process"@])
    }

    fn key_names() -> Option<Vec<&'static str>> {
        let names: Vec<&'static str> = vec!["interval_secs", "guest", "host_process"];
        assert(parts_of(names@) =~= seq!["interval_secs"@, "guest"@, "host_process"@]);
        Some(names)
    }

    fn fallback(platform: Platform) -> Self {
        MemoryConfig::default(platform)
    }

    fn read(platform: Platform, section: &str, table: &[(String, Toml)]) -> Result<Self, Problem> {
        let known: [&str; 3] = ["interval_secs", "guest", "host_process"];
        assert(parts_of(known@) =~= seq!["interval_secs"@, "guest"@, "host_process"@]);
        if let Err(problem) = check_keys(section, table, &known) {
            return Err(problem);
        }
        let fallback = MemoryConfig::default(platform);
        let interval_secs = match read_number(section, table, "interval_secs", u64::MAX) {
            Ok(interval) => value_or(interval, 5),
            Err(problem) => {
                return Err(problem);
            },
        };
        let guest = match read_texts(section, table, "guest") {
            Ok(guest) => value_or(guest, fallback.guest),
            Err(problem) => {
                return Err(problem);
            },
        };
        match read_texts(section, table, "host_process") {
            Ok(host_process) => Ok(
                MemoryConfig {
                    interval_secs,
                    guest,
                    host_process: value_or(host_process, fallback.host_process),
                },
            ),
            Err(problem) => Err(problem),
        }
    }
}

#[derive(Debug, Clone, PartialEq, Eq)]
pub struct ToolsConfig {
    /// The git to run. A bare "git" is found on PATH, which is right almost
    /// always and wrong on a machine with more than one.
    pub git: String,
    /// What ends a process. Empty where nothing is to end one.
    pub kill: Vec<String>,
}

/// What the section says.
#[verifier::ext_equal]
pub struct ToolsConfigView {
    pub git: Seq<char>,
    pub kill: Seq<Seq<char>>,
}

impl View for ToolsConfig {
    type V = ToolsConfigView;

    open spec fn view(&self) -> ToolsConfigView {
        ToolsConfigView { git: self.git@, kill: views(self.kill@) }
    }
}

impl Section for ToolsConfig {
    open spec fn absent(platform: Platform) -> ToolsConfigView {
        ToolsConfigView { git: "git"@, kill: kill_on(platform) }
    }

    open spec fn read_from(
        platform: Platform,
        section: Seq<char>,
        table: Seq<(Seq<char>, TomlView)>,
    ) -> Result<ToolsConfigView, ProblemView> {
        let git = text_key(section, table, "git"@);
        let kill = texts_key(section, table, "kill"@);
        match first_unknown(table, seq!["git"@, "kill"@]) {
            Some(key) => Err(ProblemView::UnknownKey { section, key }),
            None => if git is Err {
                Err(git->Err_0)
            } else if kill is Err {
                Err(kill->Err_0)
            } else {
                Ok(
                    ToolsConfigView {
                        git: found_or(git->Ok_0, "git"@),
                        kill: found_or(kill->Ok_0, kill_on(platform)),
                    },
                )
            },
        }
    }

    open spec fn keys() -> Option<Seq<Seq<char>>> {
        Some(seq!["git"@, "kill"@])
    }

    fn key_names() -> Option<Vec<&'static str>> {
        let names: Vec<&'static str> = vec!["git", "kill"];
        assert(parts_of(names@) =~= seq!["git"@, "kill"@]);
        Some(names)
    }

    fn fallback(platform: Platform) -> Self {
        ToolsConfig { git: "git".to_owned(), kill: default_kill(platform) }
    }

    fn read(platform: Platform, section: &str, table: &[(String, Toml)]) -> Result<Self, Problem> {
        let known: [&str; 2] = ["git", "kill"];
        assert(parts_of(known@) =~= seq!["git"@, "kill"@]);
        if let Err(problem) = check_keys(section, table, &known) {
            return Err(problem);
        }
        let git = match read_text(section, table, "git") {
            Ok(git) => value_or(git, "git".to_owned()),
            Err(problem) => {
                return Err(problem);
            },
        };
        match read_texts(section, table, "kill") {
            Ok(kill) => Ok(ToolsConfig { git, kill: value_or(kill, default_kill(platform)) }),
            Err(problem) => Err(problem),
        }
    }
}

#[derive(Debug, Clone, PartialEq, Eq)]
pub struct BackupConfig {
    /// Where the dashboard writes dumps.
    pub directory: String,
    /// Whether they are compressed.
    pub gzip: bool,
}

/// What the section says.
#[verifier::ext_equal]
pub struct BackupConfigView {
    pub directory: Seq<char>,
    pub gzip: bool,
}

impl View for BackupConfig {
    type V = BackupConfigView;

    open spec fn view(&self) -> BackupConfigView {
        BackupConfigView { directory: self.directory@, gzip: self.gzip }
    }
}

impl Section for BackupConfig {
    open spec fn absent(platform: Platform) -> BackupConfigView {
        BackupConfigView { directory: "backups"@, gzip: false }
    }

    open spec fn read_from(
        platform: Platform,
        section: Seq<char>,
        table: Seq<(Seq<char>, TomlView)>,
    ) -> Result<BackupConfigView, ProblemView> {
        let directory = text_key(section, table, "directory"@);
        let gzip = flag_key(section, table, "gzip"@);
        match first_unknown(table, seq!["directory"@, "gzip"@]) {
            Some(key) => Err(ProblemView::UnknownKey { section, key }),
            None => if directory is Err {
                Err(directory->Err_0)
            } else if gzip is Err {
                Err(gzip->Err_0)
            } else {
                Ok(
                    BackupConfigView {
                        directory: found_or(directory->Ok_0, "backups"@),
                        gzip: found_or(gzip->Ok_0, false),
                    },
                )
            },
        }
    }

    open spec fn keys() -> Option<Seq<Seq<char>>> {
        Some(seq!["directory"@, "gzip"@])
    }

    fn key_names() -> Option<Vec<&'static str>> {
        let names: Vec<&'static str> = vec!["directory", "gzip"];
        assert(parts_of(names@) =~= seq!["directory"@, "gzip"@]);
        Some(names)
    }

    fn fallback(platform: Platform) -> Self {
        BackupConfig { directory: "backups".to_owned(), gzip: false }
    }

    fn read(platform: Platform, section: &str, table: &[(String, Toml)]) -> Result<Self, Problem> {
        let known: [&str; 2] = ["directory", "gzip"];
        assert(parts_of(known@) =~= seq!["directory"@, "gzip"@]);
        if let Err(problem) = check_keys(section, table, &known) {
            return Err(problem);
        }
        let directory = match read_text(section, table, "directory") {
            Ok(directory) => value_or(directory, "backups".to_owned()),
            Err(problem) => {
                return Err(problem);
            },
        };
        match read_flag(section, table, "gzip") {
            Ok(gzip) => Ok(BackupConfig { directory, gzip: value_or(gzip, false) }),
            Err(problem) => Err(problem),
        }
    }
}

/// The format a name stands for.
pub open spec fn format_named(name: Seq<char>) -> Option<Format> {
    if name == "windows-netstat"@ {
        Some(Format::WindowsNetstat)
    } else if name == "linux-netstat"@ {
        Some(Format::LinuxNetstat)
    } else if name == "ss"@ {
        Some(Format::Ss)
    } else {
        None
    }
}

/// What is said of a format nobody knows.
pub open spec fn format_wanted() -> Seq<char> {
    "windows-netstat, linux-netstat or ss"@
}

/// What a table makes of a probe. It has to name a command and a format.
pub open spec fn probe_from(section: Seq<char>, table: Seq<(Seq<char>, TomlView)>) -> Result<
    ProbeView,
    ProblemView,
> {
    let command = texts_key(section, table, "command"@);
    let format = text_key(section, table, "format"@);
    match first_unknown(table, seq!["command"@, "format"@]) {
        Some(key) => Err(ProblemView::UnknownKey { section, key }),
        None => match command {
            Err(problem) => Err(problem),
            Ok(None) => Err(wrong_kind(section, "command"@, "a list of texts"@)),
            Ok(Some(command)) => match format {
                Err(problem) => Err(problem),
                Ok(None) => Err(wrong_kind(section, "format"@, format_wanted())),
                Ok(Some(name)) => match format_named(name) {
                    Some(format) => Ok(ProbeView { command, format }),
                    None => Err(wrong_kind(section, "format"@, format_wanted())),
                },
            },
        },
    }
}

fn read_probe(section: &str, table: &[(String, Toml)]) -> (probe: Result<Probe, Problem>)
    ensures
        match probe {
            Ok(probe) => probe_from(section@, views(table@)) == Ok::<ProbeView, ProblemView>(
                probe@,
            ),
            Err(problem) => probe_from(section@, views(table@)) == Err::<ProbeView, ProblemView>(
                problem@,
            ),
        },
{
    let known: [&str; 2] = ["command", "format"];
    assert(parts_of(known@) =~= seq!["command"@, "format"@]);
    if let Err(problem) = check_keys(section, table, &known) {
        return Err(problem);
    }
    let command = match read_texts(section, table, "command") {
        Ok(Some(command)) => command,
        Ok(None) => {
            return Err(
                Problem::WrongKind {
                    section: section.to_owned(),
                    key: "command".to_owned(),
                    wanted: "a list of texts",
                },
            );
        },
        Err(problem) => {
            return Err(problem);
        },
    };
    let name = match read_text(section, table, "format") {
        Ok(name) => name,
        Err(problem) => {
            return Err(problem);
        },
    };
    let format: Option<Format> = match &name {
        Some(name) => if same(name.as_str(), "windows-netstat") {
            Some(Format::WindowsNetstat)
        } else if same(name.as_str(), "linux-netstat") {
            Some(Format::LinuxNetstat)
        } else if same(name.as_str(), "ss") {
            Some(Format::Ss)
        } else {
            None
        },
        None => None,
    };
    match format {
        Some(format) => Ok(Probe { command, format }),
        None => Err(
            Problem::WrongKind {
                section: section.to_owned(),
                key: "format".to_owned(),
                wanted: "windows-netstat, linux-netstat or ss",
            },
        ),
    }
}

/// The keys of a probe, in the order in which a list gives their values.
pub open spec fn probe_keys() -> Seq<Seq<char>> {
    seq!["command"@, "format"@]
}

/// What a list of tables makes of the probes, every one or the first problem.
pub open spec fn probes_from(section: Seq<char>, items: Seq<TomlView>) -> Result<
    Seq<ProbeView>,
    ProblemView,
>
    decreases items.len(),
{
    if items.len() == 0 {
        Ok(seq![])
    } else {
        match probes_from(section, items.drop_last()) {
            Err(problem) => Err(problem),
            Ok(before) => match table_of(Some(probe_keys()), items.last()) {
                Some(table) => match probe_from(section + ".probe"@, table) {
                    Ok(probe) => Ok(before.push(probe)),
                    Err(problem) => Err(problem),
                },
                None => Err(wrong_kind(section, "probe"@, "a list of tables"@)),
            },
        }
    }
}

proof fn lemma_first_wrong_probe_stands(section: Seq<char>, items: Seq<TomlView>, n: int)
    requires
        0 <= n <= items.len(),
        probes_from(section, items.take(n)) is Err,
    ensures
        probes_from(section, items) == probes_from(section, items.take(n)),
    decreases items.len() - n,
{
    if n < items.len() {
        assert(items.take(n + 1).drop_last() =~= items.take(n));
        lemma_first_wrong_probe_stands(section, items, n + 1);
    } else {
        assert(items.take(n) =~= items);
    }
}

fn not_probes(section: &str) -> (problem: Problem)
    ensures
        problem@ == wrong_kind(section@, "probe"@, "a list of tables"@),
{
    Problem::WrongKind {
        section: section.to_owned(),
        key: "probe".to_owned(),
        wanted: "a list of tables",
    }
}

fn read_probe_items(section: &str, items: &Vec<Toml>) -> (probes: Result<Vec<Probe>, Problem>)
    ensures
        match probes {
            Ok(probes) => probes_from(section@, views(items@)) == Ok::<
                Seq<ProbeView>,
                ProblemView,
            >(views(probes@)),
            Err(problem) => probes_from(section@, views(items@)) == Err::<
                Seq<ProbeView>,
                ProblemView,
            >(problem@),
        },
{
    broadcast use lemma_views_push;

    let ghost all = views(items@);
    let mut inner = section.to_owned();
    inner.append(".probe");
    let names: Vec<&'static str> = vec!["command", "format"];
    assert(parts_of(names@) =~= probe_keys());
    let keys = Some(names);
    let mut probes: Vec<Probe> = Vec::new();
    let mut i: usize = 0;
    assert(views(probes@) =~= seq![]);
    while i < items.len()
        invariant
            i <= items@.len(),
            all == views(items@),
            inner@ == section@ + ".probe"@,
            maybe_parts(keys) == Some(probe_keys()),
            probes_from(section@, all.take(i as int)) == Ok::<Seq<ProbeView>, ProblemView>(
                views(probes@),
            ),
        decreases items@.len() - i,
    {
        assert(all.take(i + 1).drop_last() =~= all.take(i as int));
        assert(all.take(i + 1).last() == items@[i as int]@);
        match as_table(&keys, &items[i]) {
            Some(table) => {
                match read_probe(inner.as_str(), table.as_slice()) {
                    Ok(probe) => {
                        let ghost before = views(probes@);
                        let ghost said = probe@;
                        probes.push(probe);
                        assert(views(probes@) =~= before.push(said));
                    },
                    Err(problem) => {
                        proof {
                            lemma_first_wrong_probe_stands(section@, all, i + 1);
                        }
                        return Err(problem);
                    },
                }
            },
            None => {
                proof {
                    lemma_first_wrong_probe_stands(section@, all, i + 1);
                }
                return Err(not_probes(section));
            },
        }
        i = i + 1;
    }
    assert(all.take(i as int) =~= all);
    Ok(probes)
}

/// The probes a section lists, or nothing where it does not mention them.
pub open spec fn probes_key(section: Seq<char>, table: Seq<(Seq<char>, TomlView)>) -> Result<
    Option<Seq<ProbeView>>,
    ProblemView,
> {
    match entry_of(table, "probe"@) {
        None => Ok(None),
        Some(TomlView::Items(items)) => match probes_from(section, items) {
            Ok(probes) => Ok(Some(probes)),
            Err(problem) => Err(problem),
        },
        Some(_) => Err(wrong_kind(section, "probe"@, "a list of tables"@)),
    }
}

impl Section for PortsConfig {
    open spec fn absent(platform: Platform) -> PortsConfigView {
        default_ports(platform)
    }

    open spec fn read_from(
        platform: Platform,
        section: Seq<char>,
        table: Seq<(Seq<char>, TomlView)>,
    ) -> Result<PortsConfigView, ProblemView> {
        let probe = probes_key(section, table);
        let names = texts_key(section, table, "names"@);
        match first_unknown(table, seq!["probe"@, "names"@]) {
            Some(key) => Err(ProblemView::UnknownKey { section, key }),
            None => if probe is Err {
                Err(probe->Err_0)
            } else if names is Err {
                Err(names->Err_0)
            } else {
                Ok(
                    PortsConfigView {
                        probe: found_or(probe->Ok_0, default_ports(platform).probe),
                        names: found_or(names->Ok_0, default_ports(platform).names),
                    },
                )
            },
        }
    }

    open spec fn keys() -> Option<Seq<Seq<char>>> {
        Some(seq!["probe"@, "names"@])
    }

    fn key_names() -> Option<Vec<&'static str>> {
        let names: Vec<&'static str> = vec!["probe", "names"];
        assert(parts_of(names@) =~= seq!["probe"@, "names"@]);
        Some(names)
    }

    fn fallback(platform: Platform) -> Self {
        PortsConfig::default(platform)
    }

    fn read(platform: Platform, section: &str, table: &[(String, Toml)]) -> Result<Self, Problem> {
        let known: [&str; 2] = ["probe", "names"];
        assert(parts_of(known@) =~= seq!["probe"@, "names"@]);
        if let Err(problem) = check_keys(section, table, &known) {
            return Err(problem);
        }
        let fallback = PortsConfig::default(platform);
        let probe = match find_entry(table, "probe") {
            None => fallback.probe,
            Some(Toml::Items(items)) => {
                proof {
                    lemma_items_view(*items);
                }
                match read_probe_items(section, items) {
                    Ok(probes) => probes,
                    Err(problem) => {
                        return Err(problem);
                    },
                }
            },
            Some(_) => {
                return Err(not_probes(section));
            },
        };
        match read_texts(section, table, "names") {
            Ok(names) => Ok(PortsConfig { probe, names: value_or(names, fallback.names) }),
            Err(problem) => Err(problem),
        }
    }
}

#[derive(Debug, Clone, PartialEq, Eq)]
pub struct Config {
    pub project: ProjectConfig,
    pub scan: ScanConfig,
    pub docker: DockerConfig,
    pub caddy: CaddyConfig,
    /// Where each tool's versions live. Empty by default: nobody can guess
    /// where somebody installed their interpreters.
    pub toolchain: Vec<(String, ToolConfig)>,
    /// Versions chosen by hand per project, for the legacy ones whose manifest
    /// says nothing about what they need.
    pub pin: Vec<(String, TextEntries)>,
    /// What starts every project of one kind.
    pub recipe: Vec<(String, RunOverride)>,
    /// What starts one project.
    pub run: Vec<(String, RunOverride)>,
    /// The services this machine is meant to have.
    pub service: Vec<(String, ServiceConfig)>,
    pub ports: PortsConfig,
    pub open: OpenConfig,
    pub memory: MemoryConfig,
    pub tools: ToolsConfig,
    pub backup: BackupConfig,
}

/// What a configuration says.
#[verifier::ext_equal]
pub struct ConfigView {
    pub project: ProjectConfigView,
    pub scan: ScanConfigView,
    pub docker: DockerConfigView,
    pub caddy: CaddyConfigView,
    pub toolchain: Seq<(Seq<char>, ToolConfigView)>,
    pub pin: Seq<(Seq<char>, Seq<(Seq<char>, Seq<char>)>)>,
    pub recipe: Seq<(Seq<char>, RunOverrideView)>,
    pub run: Seq<(Seq<char>, RunOverrideView)>,
    pub service: Seq<(Seq<char>, ServiceConfigView)>,
    pub ports: PortsConfigView,
    pub open: OpenConfigView,
    pub memory: MemoryConfigView,
    pub tools: ToolsConfigView,
    pub backup: BackupConfigView,
}

impl View for Config {
    type V = ConfigView;

    open spec fn view(&self) -> ConfigView {
        ConfigView {
            project: self.project@,
            scan: self.scan@,
            docker: self.docker@,
            caddy: self.caddy@,
            toolchain: views(self.toolchain@),
            pin: views(self.pin@),
            recipe: views(self.recipe@),
            run: views(self.run@),
            service: views(self.service@),
            ports: self.ports@,
            open: self.open@,
            memory: self.memory@,
            tools: self.tools@,
            backup: self.backup@,
        }
    }
}

/// The configuration of a machine nobody has configured.
pub open spec fn default_config(platform: Platform) -> ConfigView {
    ConfigView {
        project: ProjectConfig::absent(platform),
        scan: ScanConfig::absent(platform),
        docker: DockerConfig::absent(platform),
        caddy: CaddyConfig::absent(platform),
        toolchain: seq![],
        pin: seq![],
        recipe: seq![],
        run: seq![],
        service: seq![],
        ports: PortsConfig::absent(platform),
        open: OpenConfig::absent(platform),
        memory: MemoryConfig::absent(platform),
        tools: ToolsConfig::absent(platform),
        backup: BackupConfig::absent(platform),
    }
}

/// The sections a configuration file may hold.
pub open spec fn known_sections() -> Seq<Seq<char>> {
    seq![
        "project"@,
        "scan"@,
        "docker"@,
        "caddy"@,
        "toolchain"@,
        "pin"@,
        "recipe"@,
        "run"@,
        "service"@,
        "ports"@,
        "open"@,
        "memory"@,
        "tools"@,
        "backup"@,
    ]
}

/// What a document makes of the configuration: a section it does not mention
/// keeps its default, and a key nobody reads is a problem.
pub open spec fn config_from(platform: Platform, table: Seq<(Seq<char>, TomlView)>) -> Result<
    ConfigView,
    ProblemView,
> {
    let project = section_of::<ProjectConfig>(platform, table, "project"@);
    let scan = section_of::<ScanConfig>(platform, table, "scan"@);
    let docker = section_of::<DockerConfig>(platform, table, "docker"@);
    let caddy = section_of::<CaddyConfig>(platform, table, "caddy"@);
    let toolchain = sections_of::<ToolConfig>(platform, table, "toolchain"@);
    let pin = sections_of::<TextEntries>(platform, table, "pin"@);
    let recipe = sections_of::<RunOverride>(platform, table, "recipe"@);
    let run = sections_of::<RunOverride>(platform, table, "run"@);
    let service = sections_of::<ServiceConfig>(platform, table, "service"@);
    let ports = section_of::<PortsConfig>(platform, table, "ports"@);
    let open = section_of::<OpenConfig>(platform, table, "open"@);
    let memory = section_of::<MemoryConfig>(platform, table, "memory"@);
    let tools = section_of::<ToolsConfig>(platform, table, "tools"@);
    let backup = section_of::<BackupConfig>(platform, table, "backup"@);
    if let Some(key) = first_unknown(table, known_sections()) {
        Err(ProblemView::UnknownKey { section: seq![], key })
    } else if project is Err {
        Err(project->Err_0)
    } else if scan is Err {
        Err(scan->Err_0)
    } else if docker is Err {
        Err(docker->Err_0)
    } else if caddy is Err {
        Err(caddy->Err_0)
    } else if toolchain is Err {
        Err(toolchain->Err_0)
    } else if pin is Err {
        Err(pin->Err_0)
    } else if recipe is Err {
        Err(recipe->Err_0)
    } else if run is Err {
        Err(run->Err_0)
    } else if service is Err {
        Err(service->Err_0)
    } else if ports is Err {
        Err(ports->Err_0)
    } else if open is Err {
        Err(open->Err_0)
    } else if memory is Err {
        Err(memory->Err_0)
    } else if tools is Err {
        Err(tools->Err_0)
    } else if backup is Err {
        Err(backup->Err_0)
    } else {
        Ok(
            ConfigView {
                project: project->Ok_0,
                scan: scan->Ok_0,
                docker: docker->Ok_0,
                caddy: caddy->Ok_0,
                toolchain: toolchain->Ok_0,
                pin: pin->Ok_0,
                recipe: recipe->Ok_0,
                run: run->Ok_0,
                service: service->Ok_0,
                ports: ports->Ok_0,
                open: open->Ok_0,
                memory: memory->Ok_0,
                tools: tools->Ok_0,
                backup: backup->Ok_0,
            },
        )
    }
}

/// Why a tool's configuration cannot work.
pub open spec fn invalid_tool(tool: ToolConfigView) -> Option<(Seq<char>, Seq<char>)> {
    if tool.search.len() == 0 && tool.versions.len() == 0 {
        Some(
            (
                "toolchain.search"@,
                "must list a directory to look in, or name versions directly"@,
            ),
        )
    } else if trimmed(tool.binary).len() == 0 {
        Some(
            (
                "toolchain.binary"@,
                "must name the file that marks a directory as an install"@,
            ),
        )
    } else {
        None
    }
}

/// Why the first tool that cannot work cannot.
pub open spec fn invalid_tools(tools: Seq<(Seq<char>, ToolConfigView)>) -> Option<
    (Seq<char>, Seq<char>),
>
    decreases tools.len(),
{
    if tools.len() == 0 {
        None
    } else if invalid_tool(tools[0].1) is Some {
        invalid_tool(tools[0].1)
    } else {
        invalid_tools(tools.skip(1))
    }
}

/// Which field keeps a configuration from working, and why.
pub open spec fn invalid_in(config: ConfigView) -> Option<(Seq<char>, Seq<char>)> {
    if config.project.roots.len() == 0 {
        Some(("project.roots"@, "must list at least one directory to scan"@))
    } else if config.scan.workers == 0 {
        Some(("scan.workers"@, "must be at least 1"@))
    } else if invalid_tools(config.toolchain) is Some {
        invalid_tools(config.toolchain)
    } else if trimmed(config.caddy.container).len() == 0 {
        Some(("caddy.container"@, "must name the container to restart after a change"@))
    } else if config.scan.git_timeout_ms == 0 {
        Some(("scan.git_timeout_ms"@, "must be greater than zero"@))
    } else {
        None
    }
}

/// What a document becomes: a configuration that can work, or a refusal.
pub open spec fn configured(
    platform: Platform,
    document: Result<Seq<(Seq<char>, TomlView)>, Seq<char>>,
) -> Result<ConfigView, ConfigErrorView> {
    match document {
        Err(reason) => Err(ConfigErrorView::Parse(reason)),
        Ok(table) => match config_from(platform, table) {
            Err(problem) => Err(ConfigErrorView::Parse(problem_text(problem))),
            Ok(config) => match invalid_in(config) {
                Some((field, reason)) => Err(ConfigErrorView::Invalid { field, reason }),
                None => Ok(config),
            },
        },
    }
}

/// What a configuration or a refusal says.
pub open spec fn config_result(result: Result<Config, ConfigError>) -> Result<
    ConfigView,
    ConfigErrorView,
> {
    match result {
        Ok(config) => Ok(config@),
        Err(error) => Err(error@),
    }
}

fn check_tool(tool: &ToolConfig) -> (checked: Result<(), ConfigError>)
    ensures
        match checked {
            Ok(_) => invalid_tool(tool@) is None,
            Err(error) => invalid_tool(tool@) matches Some((field, reason)) && error@ == (
            ConfigErrorView::Invalid { field, reason }),
        },
{
    // A tool with nowhere to look finds nothing, and finding nothing looks
    // exactly like having nothing installed. Say which it is.
    if tool.search.len() == 0 && tool.versions.len() == 0 {
        return Err(
            ConfigError::Invalid {
                field: "toolchain.search",
                reason: "must list a directory to look in, or name versions directly",
            },
        );
    }
    if trim(chars_of(tool.binary.as_str()).as_slice()).len() == 0 {
        return Err(
            ConfigError::Invalid {
                field: "toolchain.binary",
                reason: "must name the file that marks a directory as an install",
            },
        );
    }
    Ok(())
}

fn check_tools(tools: &Vec<(String, ToolConfig)>) -> (checked: Result<(), ConfigError>)
    ensures
        match checked {
            Ok(_) => invalid_tools(views(tools@)) is None,
            Err(error) => invalid_tools(views(tools@)) matches Some((field, reason)) && error@ == (
            ConfigErrorView::Invalid { field, reason }),
        },
{
    let ghost all = views(tools@);
    let mut i: usize = 0;
    assert(all.skip(0) =~= all);
    while i < tools.len()
        invariant
            i <= tools@.len(),
            all == views(tools@),
            invalid_tools(all) == invalid_tools(all.skip(i as int)),
        decreases tools@.len() - i,
    {
        assert(all.skip(i as int)[0] == tools@[i as int]@);
        assert(all.skip(i as int).skip(1) =~= all.skip(i + 1));
        if let Err(error) = check_tool(&tools[i].1) {
            return Err(error);
        }
        i = i + 1;
    }
    Ok(())
}

impl Config {
    /// The configuration of a platform on which nothing has been configured.
    pub fn default(platform: Platform) -> (config: Self)
        ensures
            config@ == default_config(platform),
    {
        let config = Config {
            project: ProjectConfig::default(),
            scan: ScanConfig::default(),
            docker: DockerConfig::default(),
            caddy: CaddyConfig::default(),
            toolchain: Vec::new(),
            pin: Vec::new(),
            recipe: Vec::new(),
            run: Vec::new(),
            service: Vec::new(),
            ports: PortsConfig::default(platform),
            open: OpenConfig::default(platform),
            memory: MemoryConfig::default(platform),
            tools: ToolsConfig::fallback(platform),
            backup: BackupConfig::fallback(platform),
        };
        assert(config@ =~= default_config(platform));
        config
    }

    /// Reads a configuration out of the tables of a file.
    fn read(platform: Platform, table: &[(String, Toml)]) -> (config: Result<Self, Problem>)
        ensures
            match config {
                Ok(config) => config_from(platform, views(table@)) == Ok::<
                    ConfigView,
                    ProblemView,
                >(config@),
                Err(problem) => config_from(platform, views(table@)) == Err::<
                    ConfigView,
                    ProblemView,
                >(problem@),
            },
    {
        let known: [&str; 14] = [
            "project",
            "scan",
            "docker",
            "caddy",
            "toolchain",
            "pin",
            "recipe",
            "run",
            "service",
            "ports",
            "open",
            "memory",
            "tools",
            "backup",
        ];
        proof {
            assert(parts_of(known@) =~= known_sections());
            reveal_strlit("");
            assert(""@ =~= seq![]);
        }
        if let Err(problem) = check_keys("", table, &known) {
            return Err(problem);
        }
        let project = match read_section::<ProjectConfig>(platform, table, "project") {
            Ok(project) => project,
            Err(problem) => {
                return Err(problem);
            },
        };
        let scan = match read_section::<ScanConfig>(platform, table, "scan") {
            Ok(scan) => scan,
            Err(problem) => {
                return Err(problem);
            },
        };
        let docker = match read_section::<DockerConfig>(platform, table, "docker") {
            Ok(docker) => docker,
            Err(problem) => {
                return Err(problem);
            },
        };
        let caddy = match read_section::<CaddyConfig>(platform, table, "caddy") {
            Ok(caddy) => caddy,
            Err(problem) => {
                return Err(problem);
            },
        };
        let toolchain = match read_sections::<ToolConfig>(platform, table, "toolchain") {
            Ok(toolchain) => toolchain,
            Err(problem) => {
                return Err(problem);
            },
        };
        let pin = match read_sections::<TextEntries>(platform, table, "pin") {
            Ok(pin) => pin,
            Err(problem) => {
                return Err(problem);
            },
        };
        let recipe = match read_sections::<RunOverride>(platform, table, "recipe") {
            Ok(recipe) => recipe,
            Err(problem) => {
                return Err(problem);
            },
        };
        let run = match read_sections::<RunOverride>(platform, table, "run") {
            Ok(run) => run,
            Err(problem) => {
                return Err(problem);
            },
        };
        let service = match read_sections::<ServiceConfig>(platform, table, "service") {
            Ok(service) => service,
            Err(problem) => {
                return Err(problem);
            },
        };
        let ports = match read_section::<PortsConfig>(platform, table, "ports") {
            Ok(ports) => ports,
            Err(problem) => {
                return Err(problem);
            },
        };
        let open = match read_section::<OpenConfig>(platform, table, "open") {
            Ok(open) => open,
            Err(problem) => {
                return Err(problem);
            },
        };
        let memory = match read_section::<MemoryConfig>(platform, table, "memory") {
            Ok(memory) => memory,
            Err(problem) => {
                return Err(problem);
            },
        };
        let tools = match read_section::<ToolsConfig>(platform, table, "tools") {
            Ok(tools) => tools,
            Err(problem) => {
                return Err(problem);
            },
        };
        let backup = match read_section::<BackupConfig>(platform, table, "backup") {
            Ok(backup) => backup,
            Err(problem) => {
                return Err(problem);
            },
        };
        Ok(
            Config {
                project,
                scan,
                docker,
                caddy,
                toolchain,
                pin,
                recipe,
                run,
                service,
                ports,
                open,
                memory,
                tools,
                backup,
            },
        )
    }

    /// Rejects configurations that parse but cannot possibly work, so the
    /// failure lands at startup with a name attached rather than as an empty
    /// screen later.
    pub fn validate(&self) -> (checked: Result<(), ConfigError>)
        ensures
            match checked {
                Ok(_) => invalid_in(self@) is None,
                Err(error) => invalid_in(self@) matches Some((field, reason)) && error@ == (
                ConfigErrorView::Invalid { field, reason }),
            },
    {
        if self.project.roots.len() == 0 {
            return Err(
                ConfigError::Invalid {
                    field: "project.roots",
                    reason: "must list at least one directory to scan",
                },
            );
        }
        if self.scan.workers == 0 {
            return Err(
                ConfigError::Invalid { field: "scan.workers", reason: "must be at least 1" },
            );
        }
        if let Err(error) = check_tools(&self.toolchain) {
            return Err(error);
        }
        if trim(chars_of(self.caddy.container.as_str()).as_slice()).len() == 0 {
            return Err(
                ConfigError::Invalid {
                    field: "caddy.container",
                    reason: "must name the container to restart after a change",
                },
            );
        }
        if self.scan.git_timeout_ms == 0 {
            return Err(
                ConfigError::Invalid {
                    field: "scan.git_timeout_ms",
                    reason: "must be greater than zero",
                },
            );
        }
        Ok(())
    }

    /// What the tables of a file become: a configuration that can work, or a
    /// refusal.
    pub fn from_tables(platform: Platform, table: &[(String, Toml)]) -> (config: Result<
        Self,
        ConfigError,
    >)
        ensures
            config_result(config) == configured(platform, Ok(views(table@))),
    {
        match Config::read(platform, table) {
            Err(problem) => Err(ConfigError::Parse(problem.to_string())),
            Ok(config) => match config.validate() {
                Ok(_) => Ok(config),
                Err(error) => Err(error),
            },
        }
    }

    /// Reads a configuration file for a platform.
    pub fn from_toml_str(platform: Platform, text: &str) -> (config: Result<Self, ConfigError>)
        ensures
            config_result(config) == configured(platform, toml_document(text@)),
    {
        match parse(text) {
            Err(reason) => Err(ConfigError::Parse(reason)),
            Ok(table) => Config::from_tables(platform, table.as_slice()),
        }
    }

    /// The configuration that a file gives, from its path and what reading it
    /// came to. With no file the defaults apply, which is a working
    /// configuration rather than an error: the tool should start before it is
    /// configured.
    pub fn load(platform: Platform, file: Option<(&str, Result<String, String>)>) -> (config: Result<
        Self,
        ConfigError,
    >)
        ensures
            config_result(config) == (match file {
                None => Ok(default_config(platform)),
                Some((path, Err(reason))) => Err(
                    ConfigErrorView::Io { path: path@, reason: reason@ },
                ),
                Some((_, Ok(text))) => configured(platform, toml_document(text@)),
            }),
    {
        match file {
            None => Ok(Config::default(platform)),
            Some((path, Err(reason))) => Err(
                ConfigError::Io { path: path.to_owned(), reason },
            ),
            Some((_, Ok(text))) => Config::from_toml_str(platform, text.as_str()),
        }
    }
}

/// An empty file is valid and yields the defaults.
pub proof fn law_an_empty_file_yields_the_defaults(platform: Platform)
    ensures
        configured(platform, Ok(seq![])) == Ok::<ConfigView, ConfigErrorView>(
            default_config(platform),
        ),
{
    let table = Seq::<(Seq<char>, TomlView)>::empty();
    assert(first_unknown(table, known_sections()) is None);
    assert(invalid_in(default_config(platform)) is None) by {
        let name = "caddy-proxy"@;
        reveal_strlit("caddy-proxy");
        assert(!is_white(name[0]));
        assert(leading_white(name) == 0);
        assert(name.skip(0) =~= name);
        assert(!is_white(name[name.len() - 1]));
        assert(trimmed(name) == name);
    }
}

/// The keys that a section of the file may hold, where it is one that has its own
/// keys.
pub open spec fn section_keys(name: Seq<char>) -> Option<Seq<Seq<char>>> {
    if name == "project"@ {
        ProjectConfig::keys()
    } else if name == "scan"@ {
        ScanConfig::keys()
    } else if name == "docker"@ {
        DockerConfig::keys()
    } else if name == "caddy"@ {
        CaddyConfig::keys()
    } else if name == "ports"@ {
        PortsConfig::keys()
    } else if name == "open"@ {
        OpenConfig::keys()
    } else if name == "memory"@ {
        MemoryConfig::keys()
    } else if name == "tools"@ {
        ToolsConfig::keys()
    } else if name == "backup"@ {
        BackupConfig::keys()
    } else {
        None
    }
}

/// The keys that every section under a name may hold, where there are such.
pub open spec fn named_section_keys(name: Seq<char>) -> Option<Seq<Seq<char>>> {
    if name == "toolchain"@ {
        ToolConfig::keys()
    } else if name == "recipe"@ {
        RunOverride::keys()
    } else if name == "run"@ {
        RunOverride::keys()
    } else if name == "service"@ {
        ServiceConfig::keys()
    } else {
        None
    }
}

/// Whether a key of a table is none of those it may hold.
pub open spec fn is_unknown(
    keys: Option<Seq<Seq<char>>>,
    table: Seq<(Seq<char>, TomlView)>,
    i: int,
) -> bool {
    keys matches Some(keys) && 0 <= i < table.len() && !keys.contains(table[i].0)
}

/// An unknown key is an error rather than a typo that passes silently, whether
/// it names a section or stands in one.
pub proof fn law_unknown_keys_are_refused(
    platform: Platform,
    table: Seq<(Seq<char>, TomlView)>,
    name: Seq<char>,
    section: Seq<(Seq<char>, TomlView)>,
    i: int,
)
    requires
        is_unknown(Some(known_sections()), table, i) || (entry_of(table, name) == Some(
            TomlView::Table(section),
        ) && is_unknown(section_keys(name), section, i)),
    ensures
        configured(platform, Ok(table)) matches Err(ConfigErrorView::Parse(_)),
{
    lemma_first_unknown(table, known_sections());
    if is_unknown(Some(known_sections()), table, i) {
        assert(first_unknown(table, known_sections()) is Some);
    } else {
        let known = section_keys(name)->0;
        lemma_first_unknown(section, known);
        assert(first_unknown(section, known) is Some);
        if name == "project"@ {
            assert(section_of::<ProjectConfig>(platform, table, "project"@) is Err);
        } else if name == "scan"@ {
            assert(section_of::<ScanConfig>(platform, table, "scan"@) is Err);
        } else if name == "docker"@ {
            assert(section_of::<DockerConfig>(platform, table, "docker"@) is Err);
        } else if name == "caddy"@ {
            assert(section_of::<CaddyConfig>(platform, table, "caddy"@) is Err);
        } else if name == "ports"@ {
            assert(section_of::<PortsConfig>(platform, table, "ports"@) is Err);
        } else if name == "open"@ {
            assert(section_of::<OpenConfig>(platform, table, "open"@) is Err);
        } else if name == "memory"@ {
            assert(section_of::<MemoryConfig>(platform, table, "memory"@) is Err);
        } else if name == "tools"@ {
            assert(section_of::<ToolsConfig>(platform, table, "tools"@) is Err);
        } else if name == "backup"@ {
            assert(section_of::<BackupConfig>(platform, table, "backup"@) is Err);
        }
    }
}

/// An unknown key is an error in every toolchain, recipe, run and service too.
pub proof fn law_unknown_keys_of_named_sections_are_refused(
    platform: Platform,
    table: Seq<(Seq<char>, TomlView)>,
    name: Seq<char>,
    named: Seq<(Seq<char>, TomlView)>,
    j: int,
    section: Seq<(Seq<char>, TomlView)>,
    i: int,
)
    requires
        entry_of(table, name) == Some(TomlView::Table(named)),
        0 <= j < named.len(),
        named[j].1 == TomlView::Table(section),
        is_unknown(named_section_keys(name), section, i),
    ensures
        configured(platform, Ok(table)) matches Err(ConfigErrorView::Parse(_)),
{
    let known = named_section_keys(name)->0;
    lemma_first_unknown(section, known);
    assert(first_unknown(section, known) is Some);
    if name == "toolchain"@ {
        lemma_a_problem_is_found::<ToolConfig>(platform, name, named, j);
        assert(sections_of::<ToolConfig>(platform, table, "toolchain"@) is Err);
    } else if name == "recipe"@ {
        lemma_a_problem_is_found::<RunOverride>(platform, name, named, j);
        assert(sections_of::<RunOverride>(platform, table, "recipe"@) is Err);
    } else if name == "run"@ {
        lemma_a_problem_is_found::<RunOverride>(platform, name, named, j);
        assert(sections_of::<RunOverride>(platform, table, "run"@) is Err);
    } else if name == "service"@ {
        lemma_a_problem_is_found::<ServiceConfig>(platform, name, named, j);
        assert(sections_of::<ServiceConfig>(platform, table, "service"@) is Err);
    }
}

proof fn lemma_a_wrong_probe_is_found(section: Seq<char>, items: Seq<TomlView>, j: int)
    requires
        0 <= j < items.len(),
        table_of(Some(probe_keys()), items[j]) matches Some(table) ==> probe_from(
            section + ".probe"@,
            table,
        ) is Err,
    ensures
        probes_from(section, items) is Err,
    decreases items.len(),
{
    if j < items.len() - 1 {
        assert(items.drop_last()[j] == items[j]);
        lemma_a_wrong_probe_is_found(section, items.drop_last(), j);
    }
}

/// An unknown key is an error in every probe for ports too.
pub proof fn law_unknown_keys_of_probes_are_refused(
    platform: Platform,
    table: Seq<(Seq<char>, TomlView)>,
    ports: Seq<(Seq<char>, TomlView)>,
    probes: Seq<TomlView>,
    j: int,
    probe: Seq<(Seq<char>, TomlView)>,
    i: int,
)
    requires
        entry_of(table, "ports"@) == Some(TomlView::Table(ports)),
        entry_of(ports, "probe"@) == Some(TomlView::Items(probes)),
        0 <= j < probes.len(),
        probes[j] == TomlView::Table(probe),
        is_unknown(Some(probe_keys()), probe, i),
    ensures
        configured(platform, Ok(table)) matches Err(ConfigErrorView::Parse(_)),
{
    lemma_first_unknown(probe, probe_keys());
    assert(first_unknown(probe, probe_keys()) is Some);
    lemma_a_wrong_probe_is_found("ports"@, probes, j);
    assert(probes_key("ports"@, ports) is Err);
    assert(section_of::<PortsConfig>(platform, table, "ports"@) is Err);
}

/// Whether a file says nothing of one key of a section: it does not have the
/// section, or not the key in it.
pub open spec fn leaves_out<T: Section>(
    table: Seq<(Seq<char>, TomlView)>,
    name: Seq<char>,
    key: Seq<char>,
) -> bool {
    match entry_of(table, name) {
        None => true,
        Some(value) => table_of(T::keys(), value) matches Some(section) && entry_of(section, key)
            is None,
    }
}

/// A section that a file does not mention is the default one.
pub proof fn law_a_section_that_is_not_mentioned_keeps_its_default(
    platform: Platform,
    table: Seq<(Seq<char>, TomlView)>,
)
    ensures
        configured(platform, Ok(table)) matches Ok(config) ==> {
            let usual = default_config(platform);
            &&& entry_of(table, "project"@) is None ==> config.project == usual.project
            &&& entry_of(table, "scan"@) is None ==> config.scan == usual.scan
            &&& entry_of(table, "docker"@) is None ==> config.docker == usual.docker
            &&& entry_of(table, "caddy"@) is None ==> config.caddy == usual.caddy
            &&& entry_of(table, "toolchain"@) is None ==> config.toolchain == usual.toolchain
            &&& entry_of(table, "pin"@) is None ==> config.pin == usual.pin
            &&& entry_of(table, "recipe"@) is None ==> config.recipe == usual.recipe
            &&& entry_of(table, "run"@) is None ==> config.run == usual.run
            &&& entry_of(table, "service"@) is None ==> config.service == usual.service
            &&& entry_of(table, "ports"@) is None ==> config.ports == usual.ports
            &&& entry_of(table, "open"@) is None ==> config.open == usual.open
            &&& entry_of(table, "memory"@) is None ==> config.memory == usual.memory
            &&& entry_of(table, "tools"@) is None ==> config.tools == usual.tools
            &&& entry_of(table, "backup"@) is None ==> config.backup == usual.backup
        },
{
}

/// A key that a file does not mention keeps its default, in every section,
/// whatever else the section says.
pub proof fn law_what_is_not_mentioned_keeps_its_default(
    platform: Platform,
    table: Seq<(Seq<char>, TomlView)>,
)
    ensures
        configured(platform, Ok(table)) matches Ok(config) ==> {
            let usual = default_config(platform);
            &&& leaves_out::<ProjectConfig>(table, "project"@, "roots"@) ==> config.project.roots
                == usual.project.roots
            &&& leaves_out::<ProjectConfig>(table, "project"@, "max_depth"@) ==> config.project.max_depth
                == usual.project.max_depth
            &&& leaves_out::<ProjectConfig>(table, "project"@, "ignore"@) ==> config.project.ignore
                == usual.project.ignore
            &&& leaves_out::<ScanConfig>(table, "scan"@, "workers"@) ==> config.scan.workers
                == usual.scan.workers
            &&& leaves_out::<ScanConfig>(table, "scan"@, "git_timeout_ms"@) ==> config.scan.git_timeout_ms
                == usual.scan.git_timeout_ms
            &&& leaves_out::<ScanConfig>(table, "scan"@, "cache_ttl_secs"@) ==> config.scan.cache_ttl_secs
                == usual.scan.cache_ttl_secs
            &&& leaves_out::<DockerConfig>(table, "docker"@, "endpoint"@) ==> config.docker.endpoint
                == usual.docker.endpoint
            &&& leaves_out::<CaddyConfig>(table, "caddy"@, "container"@) ==> config.caddy.container
                == usual.caddy.container
            &&& leaves_out::<CaddyConfig>(table, "caddy"@, "caddyfile"@) ==> config.caddy.caddyfile
                == usual.caddy.caddyfile
            &&& leaves_out::<CaddyConfig>(table, "caddy"@, "domains"@) ==> config.caddy.domains
                == usual.caddy.domains
            &&& leaves_out::<PortsConfig>(table, "ports"@, "probe"@) ==> config.ports.probe
                == usual.ports.probe
            &&& leaves_out::<PortsConfig>(table, "ports"@, "names"@) ==> config.ports.names
                == usual.ports.names
            &&& leaves_out::<OpenConfig>(table, "open"@, "browser"@) ==> config.open.browser
                == usual.open.browser
            &&& leaves_out::<OpenConfig>(table, "open"@, "file_manager"@) ==> config.open.file_manager
                == usual.open.file_manager
            &&& leaves_out::<MemoryConfig>(table, "memory"@, "interval_secs"@) ==> config.memory.interval_secs
                == usual.memory.interval_secs
            &&& leaves_out::<MemoryConfig>(table, "memory"@, "guest"@) ==> config.memory.guest
                == usual.memory.guest
            &&& leaves_out::<MemoryConfig>(table, "memory"@, "host_process"@) ==> config.memory.host_process
                == usual.memory.host_process
            &&& leaves_out::<ToolsConfig>(table, "tools"@, "git"@) ==> config.tools.git
                == usual.tools.git
            &&& leaves_out::<ToolsConfig>(table, "tools"@, "kill"@) ==> config.tools.kill
                == usual.tools.kill
            &&& leaves_out::<BackupConfig>(table, "backup"@, "directory"@) ==> config.backup.directory
                == usual.backup.directory
            &&& leaves_out::<BackupConfig>(table, "backup"@, "gzip"@) ==> config.backup.gzip
                == usual.backup.gzip
        },
{
}

/// What an override that says nothing says.
pub open spec fn nothing_overridden() -> RunOverrideView {
    RunOverrideView { command: None, port: None }
}

/// A key that the toolchain section does not mention keeps its default.
pub proof fn law_a_toolchain_keeps_its_defaults(
    platform: Platform,
    table: Seq<(Seq<char>, TomlView)>,
    named: Seq<(Seq<char>, TomlView)>,
    i: int,
    section: Seq<(Seq<char>, TomlView)>,
)
    requires
        entry_of(table, "toolchain"@) == Some(TomlView::Table(named)),
        0 <= i < named.len(),
        table_of(ToolConfig::keys(), named[i].1) == Some(section),
    ensures
        configured(platform, Ok(table)) matches Ok(config) ==> {
            &&& config.toolchain.len() == named.len()
            &&& config.toolchain[i].0 == named[i].0
            &&& entry_of(section, "search"@) is None ==> config.toolchain[i].1.search
                == default_tool().search
            &&& entry_of(section, "binary"@) is None ==> config.toolchain[i].1.binary
                == default_tool().binary
            &&& entry_of(section, "bin_subdir"@) is None ==> config.toolchain[i].1.bin_subdir
                == default_tool().bin_subdir
            &&& entry_of(section, "versions"@) is None ==> config.toolchain[i].1.versions
                == default_tool().versions
        },
{
    lemma_read_one_by_one::<ToolConfig>(platform, "toolchain"@, named);
}

/// A key that the recipe section does not mention keeps its default.
pub proof fn law_a_recipe_keeps_its_defaults(
    platform: Platform,
    table: Seq<(Seq<char>, TomlView)>,
    named: Seq<(Seq<char>, TomlView)>,
    i: int,
    section: Seq<(Seq<char>, TomlView)>,
)
    requires
        entry_of(table, "recipe"@) == Some(TomlView::Table(named)),
        0 <= i < named.len(),
        table_of(RunOverride::keys(), named[i].1) == Some(section),
    ensures
        configured(platform, Ok(table)) matches Ok(config) ==> {
            &&& config.recipe.len() == named.len()
            &&& config.recipe[i].0 == named[i].0
            &&& entry_of(section, "command"@) is None ==> config.recipe[i].1.command
                == nothing_overridden().command
            &&& entry_of(section, "port"@) is None ==> config.recipe[i].1.port
                == nothing_overridden().port
        },
{
    lemma_read_one_by_one::<RunOverride>(platform, "recipe"@, named);
}

/// A key that the run section does not mention keeps its default.
pub proof fn law_a_run_keeps_its_defaults(
    platform: Platform,
    table: Seq<(Seq<char>, TomlView)>,
    named: Seq<(Seq<char>, TomlView)>,
    i: int,
    section: Seq<(Seq<char>, TomlView)>,
)
    requires
        entry_of(table, "run"@) == Some(TomlView::Table(named)),
        0 <= i < named.len(),
        table_of(RunOverride::keys(), named[i].1) == Some(section),
    ensures
        configured(platform, Ok(table)) matches Ok(config) ==> {
            &&& config.run.len() == named.len()
            &&& config.run[i].0 == named[i].0
            &&& entry_of(section, "command"@) is None ==> config.run[i].1.command
                == nothing_overridden().command
            &&& entry_of(section, "port"@) is None ==> config.run[i].1.port
                == nothing_overridden().port
        },
{
    lemma_read_one_by_one::<RunOverride>(platform, "run"@, named);
}

/// A key that the service section does not mention keeps its default.
pub proof fn law_a_service_keeps_its_defaults(
    platform: Platform,
    table: Seq<(Seq<char>, TomlView)>,
    named: Seq<(Seq<char>, TomlView)>,
    i: int,
    section: Seq<(Seq<char>, TomlView)>,
)
    requires
        entry_of(table, "service"@) == Some(TomlView::Table(named)),
        0 <= i < named.len(),
        table_of(ServiceConfig::keys(), named[i].1) == Some(section),
    ensures
        configured(platform, Ok(table)) matches Ok(config) ==> {
            &&& config.service.len() == named.len()
            &&& config.service[i].0 == named[i].0
            &&& entry_of(section, "container"@) is None ==> config.service[i].1.container
                == ServiceConfigView::nothing().container
            &&& entry_of(section, "port"@) is None ==> config.service[i].1.port
                == ServiceConfigView::nothing().port
            &&& entry_of(section, "panel"@) is None ==> config.service[i].1.panel
                == ServiceConfigView::nothing().panel
            &&& entry_of(section, "domain"@) is None ==> config.service[i].1.domain
                == ServiceConfigView::nothing().domain
            &&& entry_of(section, "user"@) is None ==> config.service[i].1.user
                == ServiceConfigView::nothing().user
            &&& entry_of(section, "password_env"@) is None ==> config.service[i].1.password_env
                == ServiceConfigView::nothing().password_env
            &&& entry_of(section, "password"@) is None ==> config.service[i].1.password
                == ServiceConfigView::nothing().password
        },
{
    lemma_read_one_by_one::<ServiceConfig>(platform, "service"@, named);
}

/// A configuration that is accepted can work: there is something to scan and
/// somebody to do it, every tool has somewhere to look and something to look
/// for, and no repository is abandoned before it was asked.
pub proof fn law_an_accepted_configuration_can_work(
    platform: Platform,
    document: Result<Seq<(Seq<char>, TomlView)>, Seq<char>>,
)
    ensures
        configured(platform, document) matches Ok(config) ==> {
            &&& config.project.roots.len() > 0
            &&& config.scan.workers > 0
            &&& config.scan.git_timeout_ms > 0
            &&& trimmed(config.caddy.container).len() > 0
            &&& forall|i: int|
                0 <= i < config.toolchain.len() ==> invalid_tool((#[trigger] config.toolchain[i]).1)
                    is None
        },
{
    if let Ok(config) = configured(platform, document) {
        lemma_valid_tools(config.toolchain);
    }
}

proof fn lemma_valid_tools(tools: Seq<(Seq<char>, ToolConfigView)>)
    ensures
        invalid_tools(tools) is None ==> forall|i: int|
            0 <= i < tools.len() ==> invalid_tool((#[trigger] tools[i]).1) is None,
    decreases tools.len(),
{
    if tools.len() > 0 && invalid_tools(tools) is None {
        let rest = tools.skip(1);
        lemma_valid_tools(rest);
        assert forall|i: int| 0 <= i < tools.len() implies invalid_tool((#[trigger] tools[i]).1)
            is None by {
            if i > 0 {
                assert(rest[i - 1] == tools[i]);
            }
        }
    }
}

/// What a configuration falls back to, section by section.
pub proof fn law_what_the_defaults_are(platform: Platform)
    ensures
        ({
            let usual = default_config(platform);
            &&& usual.project.roots == seq!["."@]
            &&& usual.project.max_depth == 3
            &&& usual.project.ignore == seq!["node_modules"@, "vendor"@, "target"@, ".git"@]
            &&& usual.scan.workers == 12
            &&& usual.scan.git_timeout_ms == 2000
            &&& usual.scan.cache_ttl_secs == 30
            &&& usual.docker.endpoint == "auto"@
            &&& usual.caddy.container == "caddy-proxy"@
            &&& usual.caddy.caddyfile == "Caddyfile"@
            &&& usual.caddy.domains == "domains.toml"@
            &&& usual.tools.git == "git"@
            &&& usual.tools.kill == kill_on(platform)
            &&& usual.backup.directory == "backups"@
            &&& !usual.backup.gzip
            &&& usual.memory == default_memory(platform)
            &&& usual.ports == default_ports(platform)
            &&& usual.toolchain.len() == 0 && usual.pin.len() == 0 && usual.recipe.len() == 0
                && usual.run.len() == 0 && usual.service.len() == 0
        }),
{
}

/// What a configuration says of a key is what is used.
#[verifier::rlimit(40)]
pub proof fn law_what_is_mentioned_is_used(
    platform: Platform,
    table: Seq<(Seq<char>, TomlView)>,
    section: Seq<(Seq<char>, TomlView)>,
    text: Seq<char>,
    number: i64,
    flag: bool,
    items: Seq<TomlView>,
    texts: Seq<Seq<char>>,
)
    requires
        all_texts(items) == Some(texts),
    ensures
        configured(platform, Ok(table)) matches Ok(config) ==> {
            let said = |name: Seq<char>, key: Seq<char>, value: TomlView|
                entry_of(table, name) == Some(TomlView::Table(section)) && entry_of(section, key)
                    == Some(value);
            let (list, word, count) = (
                TomlView::Items(items),
                TomlView::Text(text),
                TomlView::Integer(number),
            );
            &&& said("project"@, "roots"@, list) ==> config.project.roots == texts
            &&& said("project"@, "max_depth"@, count) ==> config.project.max_depth == number
            &&& said("project"@, "ignore"@, list) ==> config.project.ignore == texts
            &&& said("scan"@, "workers"@, count) ==> config.scan.workers == number
            &&& said("scan"@, "git_timeout_ms"@, count) ==> config.scan.git_timeout_ms == number
            &&& said("scan"@, "cache_ttl_secs"@, count) ==> config.scan.cache_ttl_secs == number
            &&& said("docker"@, "endpoint"@, word) ==> config.docker.endpoint == text
            &&& said("caddy"@, "container"@, word) ==> config.caddy.container == text
            &&& said("caddy"@, "caddyfile"@, word) ==> config.caddy.caddyfile == text
            &&& said("caddy"@, "domains"@, word) ==> config.caddy.domains == text
            &&& said("ports"@, "names"@, list) ==> config.ports.names == texts
            &&& said("open"@, "browser"@, list) ==> config.open.browser == texts
            &&& said("open"@, "file_manager"@, list) ==> config.open.file_manager == texts
            &&& said("memory"@, "interval_secs"@, count) ==> config.memory.interval_secs == number
            &&& said("memory"@, "guest"@, list) ==> config.memory.guest == texts
            &&& said("memory"@, "host_process"@, list) ==> config.memory.host_process == texts
            &&& said("tools"@, "git"@, word) ==> config.tools.git == text
            &&& said("tools"@, "kill"@, list) ==> config.tools.kill == texts
            &&& said("backup"@, "directory"@, word) ==> config.backup.directory == text
            &&& said("backup"@, "gzip"@, TomlView::Boolean(flag)) ==> config.backup.gzip == flag
        },
{
}

/// A configuration that cannot work is refused by the field that is wrong: no
/// roots, no workers, a tool with nowhere to look or nothing to look for, no
/// container to restart, or no time for git, in that order.
pub proof fn law_a_refusal_names_the_field(config: ConfigView)
    ensures
        config.project.roots.len() == 0 ==> (invalid_in(config) matches Some((field, _)) && field
            == "project.roots"@),
        config.project.roots.len() > 0 && config.scan.workers == 0 ==> (invalid_in(
            config,
        ) matches Some((field, _)) && field == "scan.workers"@),
        config.project.roots.len() > 0 && config.scan.workers > 0 && invalid_tools(config.toolchain)
            is None ==> {
            &&& trimmed(config.caddy.container).len() == 0 ==> (invalid_in(config) matches Some(
                (field, _),
            ) && field == "caddy.container"@)
            &&& trimmed(config.caddy.container).len() > 0 && config.scan.git_timeout_ms == 0 ==> (
            invalid_in(config) matches Some((field, _)) && field == "scan.git_timeout_ms"@)
            &&& trimmed(config.caddy.container).len() > 0 && config.scan.git_timeout_ms > 0
                ==> invalid_in(config) is None
        },
        config.project.roots.len() > 0 && config.scan.workers > 0 && invalid_tools(config.toolchain)
            is Some ==> invalid_in(config) == invalid_tools(config.toolchain),
{
}

/// A tool can be found where it has a directory to search or versions named by
/// hand, and a file that marks an install.
pub proof fn law_a_tool_needs_somewhere_to_look(tool: ToolConfigView)
    ensures
        invalid_tool(tool) is None <==> (tool.search.len() > 0 || tool.versions.len() > 0) && exists|
            i: int,
        | 0 <= i < tool.binary.len() && !is_white(#[trigger] tool.binary[i]),
        tool.search.len() == 0 && tool.versions.len() == 0 ==> (invalid_tool(tool) matches Some(
            (field, _),
        ) && field == "toolchain.search"@),
{
    law_only_blank_texts_trim_to_nothing(tool.binary);
}

/// A probe is read in the format its name says, and no other name is known.
pub proof fn law_a_format_is_known_by_its_name(name: Seq<char>)
    ensures
        format_named("windows-netstat"@) == Some(Format::WindowsNetstat),
        format_named("linux-netstat"@) == Some(Format::LinuxNetstat),
        format_named("ss"@) == Some(Format::Ss),
        name != "windows-netstat"@ && name != "linux-netstat"@ && name != "ss"@ ==> format_named(
            name,
        ) is None,
{
    reveal_strlit("windows-netstat");
    reveal_strlit("linux-netstat");
    reveal_strlit("ss");
    assert("windows-netstat"@.len() == 15 && "linux-netstat"@.len() == 13 && "ss"@.len() == 2);
}

/// What the configuration says of a service, a run, a recipe or a tool is what is
/// used, under the name it is said of.
#[verifier::rlimit(40)]
pub proof fn law_what_is_said_of_a_name_is_used(
    platform: Platform,
    table: Seq<(Seq<char>, TomlView)>,
    named: Seq<(Seq<char>, TomlView)>,
    i: int,
    section: Seq<(Seq<char>, TomlView)>,
    text: Seq<char>,
    port: i64,
    items: Seq<TomlView>,
    texts: Seq<Seq<char>>,
)
    requires
        0 <= i < named.len(),
        named[i].1 == TomlView::Table(section),
        all_texts(items) == Some(texts),
    ensures
        configured(platform, Ok(table)) matches Ok(config) ==> {
            let says = |key: Seq<char>, value: TomlView| entry_of(section, key) == Some(value);
            let under = |name: Seq<char>| entry_of(table, name) == Some(TomlView::Table(named));
            let (word, count) = (TomlView::Text(text), TomlView::Integer(port));
            &&& under("service"@) ==> {
                let (name, service) = config.service[i];
                &&& name == named[i].0
                &&& says("container"@, word) ==> service.container == Some(text)
                &&& says("port"@, count) ==> service.port == Some(port as u16) && port <= 65535
                &&& says("panel"@, word) ==> service.panel == Some(text)
                &&& says("domain"@, word) ==> service.domain == Some(text)
                &&& says("user"@, word) ==> service.user == Some(text)
                &&& says("password_env"@, word) ==> service.password_env == Some(text)
                &&& says("password"@, word) ==> service.password == Some(text)
            }
            &&& under("run"@) ==> {
                let (name, run) = config.run[i];
                &&& name == named[i].0
                &&& says("command"@, word) ==> run.command == Some(text)
                &&& says("port"@, count) ==> run.port == Some(port as u16) && port <= 65535
            }
            &&& under("recipe"@) ==> {
                let (name, recipe) = config.recipe[i];
                &&& name == named[i].0
                &&& says("command"@, word) ==> recipe.command == Some(text)
                &&& says("port"@, count) ==> recipe.port == Some(port as u16) && port <= 65535
            }
            &&& under("toolchain"@) ==> {
                let (name, tool) = config.toolchain[i];
                &&& name == named[i].0
                &&& says("search"@, TomlView::Items(items)) ==> tool.search == texts
                &&& says("binary"@, word) ==> tool.binary == text
                &&& says("bin_subdir"@, word) ==> tool.bin_subdir == Some(text)
            }
        },
{
    lemma_read_one_by_one::<ServiceConfig>(platform, "service"@, named);
    lemma_read_one_by_one::<RunOverride>(platform, "run"@, named);
    lemma_read_one_by_one::<RunOverride>(platform, "recipe"@, named);
    lemma_read_one_by_one::<ToolConfig>(platform, "toolchain"@, named);
}

/// A refusal says whether the file could not be read, was not TOML, or which of
/// its fields cannot work.
pub proof fn law_a_configuration_error_says_why(path: Seq<char>, reason: Seq<char>)
    ensures
        config_error_text(ConfigErrorView::Parse(reason)) == "config is not valid TOML: "@ + reason,
        config_error_text(ConfigErrorView::Io { path, reason }) == "cannot read "@ + path + ": "@
            + reason,
        config_error_text(ConfigErrorView::Invalid { field: path, reason }) == "invalid config: "@
            + path + " "@ + reason,
{
}

/// A table of texts gives every entry in its place, and one that holds anything
/// else is refused by the first key that does.
pub proof fn law_a_table_of_texts_is_read_whole(
    section: Seq<char>,
    table: Seq<(Seq<char>, TomlView)>,
    key: Seq<char>,
    value: TomlView,
    text: Seq<char>,
)
    ensures
        text_entries(section, seq![]) == Ok::<Seq<(Seq<char>, Seq<char>)>, ProblemView>(seq![]),
        ({
            let before = text_entries(section, table);
            let all = text_entries(section, table.push((key, value)));
            &&& before is Err ==> all == before
            &&& before is Ok && value == TomlView::Text(text) ==> all == Ok::<
                Seq<(Seq<char>, Seq<char>)>,
                ProblemView,
            >(before->Ok_0.push((key, text)))
            &&& before is Ok && !(value is Text) ==> all == Err::<
                Seq<(Seq<char>, Seq<char>)>,
                ProblemView,
            >(ProblemView::WrongKind { section, key, wanted: "a text"@ })
        }),
{
    assert(table.push((key, value)).drop_last() =~= table);
}

/// A probe is its command and the format it names; without either, or with a
/// format that is not known, it is refused.
pub proof fn law_a_probe_is_a_command_and_a_format(
    section: Seq<char>,
    table: Seq<(Seq<char>, TomlView)>,
    items: Seq<TomlView>,
    command: Seq<Seq<char>>,
    name: Seq<char>,
)
    requires
        first_unknown(table, seq!["command"@, "format"@]) is None,
        all_texts(items) == Some(command),
    ensures
        entry_of(table, "command"@) == Some(TomlView::Items(items)) && entry_of(table, "format"@)
            == Some(TomlView::Text(name)) ==> match format_named(name) {
            Some(format) => probe_from(section, table) == Ok::<ProbeView, ProblemView>(
                ProbeView { command, format },
            ),
            None => probe_from(section, table) is Err,
        },
        entry_of(table, "command"@) is None || entry_of(table, "format"@) is None ==> probe_from(
            section,
            table,
        ) is Err,
{
}

} // verus!
