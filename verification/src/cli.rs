//! What can be asked for without the dashboard. Every capability lives here
//! first; the terminal UI is a convenience layer that calls the same functions.
//!
//! This ordering is deliberate. Anything reachable only by navigating a TUI
//! cannot be put in a scheduler, cannot be piped, and cannot be tested without
//! driving a terminal.

use crate::arguments::{
    call_plainly, clap_reading, command_of, flag_of, lemma_called_plainly,
    option_of, place_of, plainly_called, read, Argument, ArgumentView,
    Definition, DefinitionView, Level, LevelView, Refusal, Takes,
};
use crate::entries::{entry_of, find_entry};
use crate::lifecycle::Action;
use crate::text::{
    chars_of, copy_texts, decimal, lemma_decimal_reads_back, maybe_text, number_in, parse_number,
    same, views,
};
use vstd::prelude::*;
use vstd::string::*;

verus! {

/// What was asked for, and the configuration file that was named.
#[derive(Debug, Clone, PartialEq, Eq)]
pub struct Cli {
    /// Configuration file to read instead of the default location.
    pub config: Option<String>,
    pub command: Command,
}

#[derive(Debug, Clone, PartialEq, Eq)]
pub enum Command {
    /// List projects with their stack and git status.
    Scan { json: bool },
    /// Show the state of the containers defined by the compose file.
    Services { json: bool, memory: bool },
    /// Show which service ports are answering.
    Ports { json: bool },
    /// Dump and restore databases.
    Db(DbCommand),
    /// Manage the local reverse-proxy hostnames.
    Domains(DomainCommand),
    /// Start services that already exist but are stopped.
    Start { services: Vec<String>, all: bool },
    /// Stop running services, leaving their containers in place.
    Stop { services: Vec<String>, all: bool },
    /// Restart services.
    Restart { services: Vec<String>, all: bool },
    /// Show which .env a project is running with, or switch it.
    Dotenv { project: String, use_file: Option<String> },
    /// Open a service or a project in a browser.
    Open { target: String },
    /// End whatever is holding a port.
    Kill { port: u16, dry_run: bool },
    /// Follow what a service is writing.
    Logs { service: String, follow: bool, tail: Option<u32> },
    /// Start a project, with its own toolchain in front on PATH and the dev
    /// command its kind of project uses.
    Run { project: String, print: bool },
    /// Show which toolchain versions a project resolves to, and why.
    Env { project: String },
    /// Run a command with the project's toolchain in front on PATH.
    Exec { project: String, command: Vec<String> },
    /// Start a shell with the project's toolchain in front on PATH.
    Shell { project: String, shell: Option<String> },
    /// Show the settings in force, write a first file, or open it.
    Config { init: bool, edit: bool, force: bool },
    /// Open the interactive dashboard.
    Tui,
}

#[derive(Debug, Clone, PartialEq, Eq)]
pub enum DbCommand {
    /// Write a database to a file.
    Export { service: String, database: String, out: String, gzip: bool, force: bool },
    /// Dump every database on every database service.
    Backup { out: String, gzip: bool },
    /// Load a dump file into a database.
    Import { service: String, database: String, file: String },
}

#[derive(Debug, Clone, PartialEq, Eq)]
pub enum DomainCommand {
    /// Show the configured hostnames and what they point at.
    List,
    /// Route a hostname to a container inside the docker network.
    Add { host: String, upstream: String, no_reload: bool },
    /// Stop routing a hostname.
    Remove { host: String, no_reload: bool },
}

/// What a request asks for.
#[verifier::ext_equal]
pub struct CliView {
    pub config: Option<Seq<char>>,
    pub command: CommandView,
}

/// What a command asks for.
#[verifier::ext_equal]
pub enum CommandView {
    Scan { json: bool },
    Services { json: bool, memory: bool },
    Ports { json: bool },
    Db(DbCommandView),
    Domains(DomainCommandView),
    Start { services: Seq<Seq<char>>, all: bool },
    Stop { services: Seq<Seq<char>>, all: bool },
    Restart { services: Seq<Seq<char>>, all: bool },
    Dotenv { project: Seq<char>, use_file: Option<Seq<char>> },
    Open { target: Seq<char> },
    Kill { port: u16, dry_run: bool },
    Logs { service: Seq<char>, follow: bool, tail: Option<u32> },
    Run { project: Seq<char>, print: bool },
    Env { project: Seq<char> },
    Exec { project: Seq<char>, command: Seq<Seq<char>> },
    Shell { project: Seq<char>, shell: Option<Seq<char>> },
    Config { init: bool, edit: bool, force: bool },
    Tui,
}

/// What a database command asks for.
#[verifier::ext_equal]
pub enum DbCommandView {
    Export {
        service: Seq<char>,
        database: Seq<char>,
        out: Seq<char>,
        gzip: bool,
        force: bool,
    },
    Backup { out: Seq<char>, gzip: bool },
    Import { service: Seq<char>, database: Seq<char>, file: Seq<char> },
}

/// What a hostname command asks for.
#[verifier::ext_equal]
pub enum DomainCommandView {
    List,
    Add { host: Seq<char>, upstream: Seq<char>, no_reload: bool },
    Remove { host: Seq<char>, no_reload: bool },
}

impl View for DbCommand {
    type V = DbCommandView;

    open spec fn view(&self) -> DbCommandView {
        match *self {
            DbCommand::Export { service, database, out, gzip, force } => DbCommandView::Export {
                service: service@,
                database: database@,
                out: out@,
                gzip,
                force,
            },
            DbCommand::Backup { out, gzip } => DbCommandView::Backup { out: out@, gzip },
            DbCommand::Import { service, database, file } => DbCommandView::Import {
                service: service@,
                database: database@,
                file: file@,
            },
        }
    }
}

impl View for DomainCommand {
    type V = DomainCommandView;

    open spec fn view(&self) -> DomainCommandView {
        match *self {
            DomainCommand::List => DomainCommandView::List,
            DomainCommand::Add { host, upstream, no_reload } => DomainCommandView::Add {
                host: host@,
                upstream: upstream@,
                no_reload,
            },
            DomainCommand::Remove { host, no_reload } => DomainCommandView::Remove {
                host: host@,
                no_reload,
            },
        }
    }
}

impl View for Command {
    type V = CommandView;

    open spec fn view(&self) -> CommandView {
        match *self {
            Command::Scan { json } => CommandView::Scan { json },
            Command::Services { json, memory } => CommandView::Services { json, memory },
            Command::Ports { json } => CommandView::Ports { json },
            Command::Db(command) => CommandView::Db(command@),
            Command::Domains(command) => CommandView::Domains(command@),
            Command::Start { services, all } => CommandView::Start {
                services: views(services@),
                all,
            },
            Command::Stop { services, all } => CommandView::Stop { services: views(services@), all },
            Command::Restart { services, all } => CommandView::Restart {
                services: views(services@),
                all,
            },
            Command::Dotenv { project, use_file } => CommandView::Dotenv {
                project: project@,
                use_file: maybe_text(use_file),
            },
            Command::Open { target } => CommandView::Open { target: target@ },
            Command::Kill { port, dry_run } => CommandView::Kill { port, dry_run },
            Command::Logs { service, follow, tail } => CommandView::Logs {
                service: service@,
                follow,
                tail,
            },
            Command::Run { project, print } => CommandView::Run { project: project@, print },
            Command::Env { project } => CommandView::Env { project: project@ },
            Command::Exec { project, command } => CommandView::Exec {
                project: project@,
                command: views(command@),
            },
            Command::Shell { project, shell } => CommandView::Shell {
                project: project@,
                shell: maybe_text(shell),
            },
            Command::Config { init, edit, force } => CommandView::Config { init, edit, force },
            Command::Tui => CommandView::Tui,
        }
    }
}

impl View for Cli {
    type V = CliView;

    open spec fn view(&self) -> CliView {
        CliView { config: maybe_text(self.config), command: self.command@ }
    }
}

impl Command {
    /// Whether the configuration file has to be there. The one command whose
    /// job is to create the file cannot require it to already exist, or naming
    /// somewhere new fails before it can write there.
    pub fn reads_configuration(&self) -> (reads: bool)
        ensures
            reads <==> !(*self matches Command::Config { init: true, .. }),
    {
        match self {
            Command::Config { init, .. } => !*init,
            _ => true,
        }
    }

    /// What a command does to the services it names, where it acts on any.
    pub fn action(&self) -> (action: Option<Action>)
        ensures
            action == match *self {
                Command::Start { .. } => Some(Action::Start),
                Command::Stop { .. } => Some(Action::Stop),
                Command::Restart { .. } => Some(Action::Restart),
                _ => None,
            },
    {
        match self {
            Command::Start { .. } => Some(Action::Start),
            Command::Stop { .. } => Some(Action::Stop),
            Command::Restart { .. } => Some(Action::Restart),
            _ => None,
        }
    }
}

/// `adev db export`.
pub open spec fn defined_db_export() -> DefinitionView {
    command_of("export"@, "Write a database to a file"@)
        .with(place_of("service"@, "SERVICE"@).helped_by("Service the database lives in, as named in the compose file"@))
        .with(option_of("database"@, "database"@, "DATABASE"@).needed())
        .with(option_of("out"@, "out"@, "FILE"@).helped_by("Destination file. Required: a dump written somewhere the caller did not choose is a dump the caller will not find"@).needed())
        .with(flag_of("gzip"@, "gzip"@).helped_by("Compress the dump with gzip"@))
        .with(flag_of("force"@, "force"@).helped_by("Overwrite the destination if it already exists. Without this an existing file is left alone, because it is somebody's backup"@))
}

fn define_db_export() -> (definition: Definition)
    ensures
        definition@ == defined_db_export(),
{
    Definition::command("export", "Write a database to a file")
        .argument(Argument::place("service", "SERVICE").help("Service the database lives in, as named in the compose file"))
        .argument(Argument::option("database", "database", "DATABASE").need())
        .argument(Argument::option("out", "out", "FILE").help("Destination file. Required: a dump written somewhere the caller did not choose is a dump the caller will not find").need())
        .argument(Argument::flag("gzip", "gzip").help("Compress the dump with gzip"))
        .argument(Argument::flag("force", "force").help("Overwrite the destination if it already exists. Without this an existing file is left alone, because it is somebody's backup"))
}

/// `adev db backup`.
pub open spec fn defined_db_backup() -> DefinitionView {
    command_of("backup"@, "Dump every database on every database service"@)
        .with(option_of("out"@, "out"@, "DIR"@).helped_by("Where to write. A timestamped directory is created inside it, so one backup never overwrites another"@).needed())
        .with(flag_of("gzip"@, "gzip"@))
}

fn define_db_backup() -> (definition: Definition)
    ensures
        definition@ == defined_db_backup(),
{
    Definition::command("backup", "Dump every database on every database service")
        .argument(Argument::option("out", "out", "DIR").help("Where to write. A timestamped directory is created inside it, so one backup never overwrites another").need())
        .argument(Argument::flag("gzip", "gzip"))
}

/// `adev db import`.
pub open spec fn defined_db_import() -> DefinitionView {
    command_of("import"@, "Load a dump file into a database"@)
        .with(place_of("service"@, "SERVICE"@))
        .with(option_of("database"@, "database"@, "DATABASE"@).needed())
        .with(option_of("file"@, "file"@, "FILE"@).needed())
}

fn define_db_import() -> (definition: Definition)
    ensures
        definition@ == defined_db_import(),
{
    Definition::command("import", "Load a dump file into a database")
        .argument(Argument::place("service", "SERVICE"))
        .argument(Argument::option("database", "database", "DATABASE").need())
        .argument(Argument::option("file", "file", "FILE").need())
}

/// `adev domains list`.
pub open spec fn defined_domains_list() -> DefinitionView {
    command_of("list"@, "Show the configured hostnames and what they point at"@)
}

fn define_domains_list() -> (definition: Definition)
    ensures
        definition@ == defined_domains_list(),
{
    Definition::command("list", "Show the configured hostnames and what they point at")
}

/// `adev domains add`.
pub open spec fn defined_domains_add() -> DefinitionView {
    command_of("add"@, "Route a hostname to a container inside the docker network"@)
        .with(place_of("host"@, "HOST"@).helped_by("Hostname to serve, such as db.localhost"@))
        .with(place_of("upstream"@, "UPSTREAM"@).helped_by("Container and the port it listens on inside the network, written as container:port. Not the port published to this machine"@))
        .with(flag_of("no_reload"@, "no-reload"@))
}

fn define_domains_add() -> (definition: Definition)
    ensures
        definition@ == defined_domains_add(),
{
    Definition::command("add", "Route a hostname to a container inside the docker network")
        .argument(Argument::place("host", "HOST").help("Hostname to serve, such as db.localhost"))
        .argument(Argument::place("upstream", "UPSTREAM").help("Container and the port it listens on inside the network, written as container:port. Not the port published to this machine"))
        .argument(Argument::flag("no_reload", "no-reload"))
}

/// `adev domains remove`.
pub open spec fn defined_domains_remove() -> DefinitionView {
    command_of("remove"@, "Stop routing a hostname"@)
        .with(place_of("host"@, "HOST"@))
        .with(flag_of("no_reload"@, "no-reload"@))
}

fn define_domains_remove() -> (definition: Definition)
    ensures
        definition@ == defined_domains_remove(),
{
    Definition::command("remove", "Stop routing a hostname")
        .argument(Argument::place("host", "HOST"))
        .argument(Argument::flag("no_reload", "no-reload"))
}

/// `adev scan`.
pub open spec fn defined_scan() -> DefinitionView {
    command_of("scan"@, "List projects with their stack and git status"@)
        .with(flag_of("json"@, "json"@).helped_by("Emit JSON instead of a table, for scripts"@))
}

fn define_scan() -> (definition: Definition)
    ensures
        definition@ == defined_scan(),
{
    Definition::command("scan", "List projects with their stack and git status")
        .argument(Argument::flag("json", "json").help("Emit JSON instead of a table, for scripts"))
}

/// `adev services`.
pub open spec fn defined_services() -> DefinitionView {
    command_of("services"@, "Show the state of the containers defined by the compose file"@)
        .with(flag_of("json"@, "json"@))
        .with(flag_of("memory"@, "memory"@).helped_by("Also report how much memory each one is using. Left out by default because the daemon takes about a second and a half per container to answer, which would make the common listing pay for the rare one"@))
}

fn define_services() -> (definition: Definition)
    ensures
        definition@ == defined_services(),
{
    Definition::command("services", "Show the state of the containers defined by the compose file")
        .argument(Argument::flag("json", "json"))
        .argument(Argument::flag("memory", "memory").help("Also report how much memory each one is using. Left out by default because the daemon takes about a second and a half per container to answer, which would make the common listing pay for the rare one"))
}

/// `adev ports`.
pub open spec fn defined_ports() -> DefinitionView {
    command_of("ports"@, "Show which service ports are answering"@)
        .with(flag_of("json"@, "json"@))
}

fn define_ports() -> (definition: Definition)
    ensures
        definition@ == defined_ports(),
{
    Definition::command("ports", "Show which service ports are answering")
        .argument(Argument::flag("json", "json"))
}

/// `adev db`.
pub open spec fn defined_db() -> DefinitionView {
    command_of("db"@, "Dump and restore databases"@)
        .over(defined_db_export())
        .over(defined_db_backup())
        .over(defined_db_import())
}

fn define_db() -> (definition: Definition)
    ensures
        definition@ == defined_db(),
{
    Definition::command("db", "Dump and restore databases")
        .below(define_db_export())
        .below(define_db_backup())
        .below(define_db_import())
}

/// `adev domains`.
pub open spec fn defined_domains() -> DefinitionView {
    command_of("domains"@, "Manage the local reverse-proxy hostnames"@)
        .over(defined_domains_list())
        .over(defined_domains_add())
        .over(defined_domains_remove())
}

fn define_domains() -> (definition: Definition)
    ensures
        definition@ == defined_domains(),
{
    Definition::command("domains", "Manage the local reverse-proxy hostnames")
        .below(define_domains_list())
        .below(define_domains_add())
        .below(define_domains_remove())
}

/// `adev start`.
pub open spec fn defined_start() -> DefinitionView {
    command_of("start"@, "Start services that already exist but are stopped"@)
        .told("Start services that already exist but are stopped.\n\nThis starts existing containers. A service the compose file defines but that has never been created has no container to start, and is reported as such rather than silently skipped."@)
        .with(place_of("services"@, "SERVICES"@).with_values(Takes::Texts).needed_without("all"@))
        .with(flag_of("all"@, "all"@).helped_by("Every service that has a container, rather than naming them"@))
}

fn define_start() -> (definition: Definition)
    ensures
        definition@ == defined_start(),
{
    Definition::command("start", "Start services that already exist but are stopped")
        .tell("Start services that already exist but are stopped.\n\nThis starts existing containers. A service the compose file defines but that has never been created has no container to start, and is reported as such rather than silently skipped.")
        .argument(Argument::place("services", "SERVICES").taking(Takes::Texts).need_without("all"))
        .argument(Argument::flag("all", "all").help("Every service that has a container, rather than naming them"))
}

/// `adev stop`.
pub open spec fn defined_stop() -> DefinitionView {
    command_of("stop"@, "Stop running services, leaving their containers in place"@)
        .with(place_of("services"@, "SERVICES"@).with_values(Takes::Texts).needed_without("all"@))
        .with(flag_of("all"@, "all"@))
}

fn define_stop() -> (definition: Definition)
    ensures
        definition@ == defined_stop(),
{
    Definition::command("stop", "Stop running services, leaving their containers in place")
        .argument(Argument::place("services", "SERVICES").taking(Takes::Texts).need_without("all"))
        .argument(Argument::flag("all", "all"))
}

/// `adev restart`.
pub open spec fn defined_restart() -> DefinitionView {
    command_of("restart"@, "Restart services"@)
        .with(place_of("services"@, "SERVICES"@).with_values(Takes::Texts).needed_without("all"@))
        .with(flag_of("all"@, "all"@))
}

fn define_restart() -> (definition: Definition)
    ensures
        definition@ == defined_restart(),
{
    Definition::command("restart", "Restart services")
        .argument(Argument::place("services", "SERVICES").taking(Takes::Texts).need_without("all"))
        .argument(Argument::flag("all", "all"))
}

/// `adev dotenv`.
pub open spec fn defined_dotenv() -> DefinitionView {
    command_of("dotenv"@, "Show which .env a project is running with, or switch it"@)
        .with(place_of("project"@, "PROJECT"@))
        .with(option_of("use_file"@, "use"@, "FILE"@).helped_by("The file to copy over .env. The one being replaced is kept as .env.bak, so a switch can be undone"@))
}

fn define_dotenv() -> (definition: Definition)
    ensures
        definition@ == defined_dotenv(),
{
    Definition::command("dotenv", "Show which .env a project is running with, or switch it")
        .argument(Argument::place("project", "PROJECT"))
        .argument(Argument::option("use_file", "use", "FILE").help("The file to copy over .env. The one being replaced is kept as .env.bak, so a switch can be undone"))
}

/// `adev open`.
pub open spec fn defined_open() -> DefinitionView {
    command_of("open"@, "Open a service or a project in a browser"@)
        .with(place_of("target"@, "TARGET"@).helped_by("A service name, or a project name — services are looked at first"@))
}

fn define_open() -> (definition: Definition)
    ensures
        definition@ == defined_open(),
{
    Definition::command("open", "Open a service or a project in a browser")
        .argument(Argument::place("target", "TARGET").help("A service name, or a project name — services are looked at first"))
}

/// `adev kill`.
pub open spec fn defined_kill() -> DefinitionView {
    command_of("kill"@, "End whatever is holding a port"@)
        .with(place_of("port"@, "PORT"@).with_values(Takes::Number(65535)))
        .with(flag_of("dry_run"@, "dry-run"@).helped_by("Say what would be ended, without ending it"@))
}

fn define_kill() -> (definition: Definition)
    ensures
        definition@ == defined_kill(),
{
    Definition::command("kill", "End whatever is holding a port")
        .argument(Argument::place("port", "PORT").taking(Takes::Number(65535)))
        .argument(Argument::flag("dry_run", "dry-run").help("Say what would be ended, without ending it"))
}

/// `adev logs`.
pub open spec fn defined_logs() -> DefinitionView {
    command_of("logs"@, "Follow what a service is writing"@)
        .with(place_of("service"@, "SERVICE"@).helped_by("Service or container to read"@))
        .with(flag_of("follow"@, "follow"@).helped_by("Keep the stream open and print new lines as they arrive"@).lettered('f'))
        .with(option_of("tail"@, "tail"@, "TAIL"@).helped_by("Start this many lines back instead of at the beginning"@).lettered('n').with_values(Takes::Number(4294967295)))
}

fn define_logs() -> (definition: Definition)
    ensures
        definition@ == defined_logs(),
{
    Definition::command("logs", "Follow what a service is writing")
        .argument(Argument::place("service", "SERVICE").help("Service or container to read"))
        .argument(Argument::flag("follow", "follow").help("Keep the stream open and print new lines as they arrive").letter('f'))
        .argument(Argument::option("tail", "tail", "TAIL").help("Start this many lines back instead of at the beginning").letter('n').taking(Takes::Number(4294967295)))
}

/// `adev run`.
pub open spec fn defined_run() -> DefinitionView {
    command_of("run"@, "Start a project, with its own toolchain in front on PATH and the dev command its kind of project uses"@)
        .with(place_of("project"@, "PROJECT"@))
        .with(flag_of("print"@, "print"@).helped_by("Say what would run, and on which port, without running it"@))
}

fn define_run() -> (definition: Definition)
    ensures
        definition@ == defined_run(),
{
    Definition::command("run", "Start a project, with its own toolchain in front on PATH and the dev command its kind of project uses")
        .argument(Argument::place("project", "PROJECT"))
        .argument(Argument::flag("print", "print").help("Say what would run, and on which port, without running it"))
}

/// `adev env`.
pub open spec fn defined_env() -> DefinitionView {
    command_of("env"@, "Show which toolchain versions a project resolves to, and why"@)
        .with(place_of("project"@, "PROJECT"@))
}

fn define_env() -> (definition: Definition)
    ensures
        definition@ == defined_env(),
{
    Definition::command("env", "Show which toolchain versions a project resolves to, and why")
        .argument(Argument::place("project", "PROJECT"))
}

/// `adev exec`.
pub open spec fn defined_exec() -> DefinitionView {
    command_of("exec"@, "Run a command with the project's toolchain in front on PATH"@)
        .with(place_of("project"@, "PROJECT"@))
        .with(place_of("command"@, "COMMAND"@).helped_by("Everything after `--`. Taken whole so the command's own flags are never mistaken for this tool's"@).with_values(Takes::Rest))
}

fn define_exec() -> (definition: Definition)
    ensures
        definition@ == defined_exec(),
{
    Definition::command("exec", "Run a command with the project's toolchain in front on PATH")
        .argument(Argument::place("project", "PROJECT"))
        .argument(Argument::place("command", "COMMAND").help("Everything after `--`. Taken whole so the command's own flags are never mistaken for this tool's").taking(Takes::Rest))
}

/// `adev shell`.
pub open spec fn defined_shell() -> DefinitionView {
    command_of("shell"@, "Start a shell with the project's toolchain in front on PATH"@)
        .with(place_of("project"@, "PROJECT"@))
        .with(option_of("shell"@, "shell"@, "SHELL"@).helped_by("Which shell to start. Without this, SHELL is used on unix and ComSpec on Windows"@))
}

fn define_shell() -> (definition: Definition)
    ensures
        definition@ == defined_shell(),
{
    Definition::command("shell", "Start a shell with the project's toolchain in front on PATH")
        .argument(Argument::place("project", "PROJECT"))
        .argument(Argument::option("shell", "shell", "SHELL").help("Which shell to start. Without this, SHELL is used on unix and ComSpec on Windows"))
}

/// `adev config`.
pub open spec fn defined_config() -> DefinitionView {
    command_of("config"@, "Show the settings in force, write a first file, or open it"@)
        .with(flag_of("init"@, "init"@).helped_by("Write a configuration describing this machine"@))
        .with(flag_of("edit"@, "edit"@).helped_by("Open the configuration in an editor"@))
        .with(flag_of("force"@, "force"@).helped_by("Replace a configuration that is already there"@))
}

fn define_config() -> (definition: Definition)
    ensures
        definition@ == defined_config(),
{
    Definition::command("config", "Show the settings in force, write a first file, or open it")
        .argument(Argument::flag("init", "init").help("Write a configuration describing this machine"))
        .argument(Argument::flag("edit", "edit").help("Open the configuration in an editor"))
        .argument(Argument::flag("force", "force").help("Replace a configuration that is already there"))
}

/// `adev tui`.
pub open spec fn defined_tui() -> DefinitionView {
    command_of("tui"@, "Open the interactive dashboard"@)
}

fn define_tui() -> (definition: Definition)
    ensures
        definition@ == defined_tui(),
{
    Definition::command("tui", "Open the interactive dashboard")
}

/// The whole command line. A command has to be chosen: the dashboard is one among
/// the others, not the default.
pub open spec fn command_line() -> DefinitionView {
    command_of("adev"@, "Terminal dashboard for a local development environment"@)
        .released_as("0.1.0"@)
        .with(option_of("config"@, "config"@, "FILE"@).helped_by("Configuration file to read instead of the default location"@).everywhere())
        .over(defined_scan())
        .over(defined_services())
        .over(defined_ports())
        .over(defined_db())
        .over(defined_domains())
        .over(defined_start())
        .over(defined_stop())
        .over(defined_restart())
        .over(defined_dotenv())
        .over(defined_open())
        .over(defined_kill())
        .over(defined_logs())
        .over(defined_run())
        .over(defined_env())
        .over(defined_exec())
        .over(defined_shell())
        .over(defined_config())
        .over(defined_tui())
}

fn define_command_line() -> (definition: Definition)
    ensures
        definition@ == command_line(),
{
    Definition::command("adev", "Terminal dashboard for a local development environment")
        .release("0.1.0")
        .argument(Argument::option("config", "config", "FILE").help("Configuration file to read instead of the default location").anywhere())
        .below(define_scan())
        .below(define_services())
        .below(define_ports())
        .below(define_db())
        .below(define_domains())
        .below(define_start())
        .below(define_stop())
        .below(define_restart())
        .below(define_dotenv())
        .below(define_open())
        .below(define_kill())
        .below(define_logs())
        .below(define_run())
        .below(define_env())
        .below(define_exec())
        .below(define_shell())
        .below(define_config())
        .below(define_tui())
}

/// The values given to an argument, none where it was left out.
pub open spec fn values_in(level: LevelView, id: Seq<char>) -> Seq<Seq<char>> {
    match entry_of(level.given, id) {
        Some(values) => values,
        None => seq![],
    }
}

fn values(level: &Level, id: &str) -> (values: Vec<String>)
    ensures
        views(values@) == values_in(level@, id@),
{
    match find_entry(level.given.as_slice(), id) {
        Some(given) => copy_texts(given.values.as_slice()),
        None => {
            let none: Vec<String> = Vec::new();
            assert(views(none@) =~= seq![]);
            none
        },
    }
}

/// The value given to an argument, where it was given one.
pub open spec fn text_in(level: LevelView, id: Seq<char>) -> Option<Seq<char>> {
    let values = values_in(level, id);
    if values.len() > 0 {
        Some(values[0])
    } else {
        None
    }
}

fn text(level: &Level, id: &str) -> (text: Option<String>)
    ensures
        maybe_text(text) == text_in(level@, id@),
{
    let values = values(level, id);
    if values.len() > 0 {
        assert(views(values@)[0] == values@[0]@);
        Some(values[0].clone())
    } else {
        None
    }
}

/// The path given to an argument. An empty one names nothing, so it counts as
/// none.
pub open spec fn path_in(level: LevelView, id: Seq<char>) -> Option<Seq<char>> {
    match text_in(level, id) {
        Some(path) => if path.len() > 0 {
            Some(path)
        } else {
            None
        },
        None => None,
    }
}

fn path(level: &Level, id: &str) -> (path: Option<String>)
    ensures
        maybe_text(path) == path_in(level@, id@),
{
    match text(level, id) {
        Some(path) => if chars_of(path.as_str()).len() > 0 {
            Some(path)
        } else {
            None
        },
        None => None,
    }
}

/// Whether a flag was given.
pub open spec fn flag_in(level: LevelView, id: Seq<char>) -> bool {
    text_in(level, id) == Some("true"@)
}

fn flag(level: &Level, id: &str) -> (given: bool)
    ensures
        given == flag_in(level@, id@),
{
    match text(level, id) {
        Some(text) => same(text.as_str(), "true"),
        None => false,
    }
}

/// The number given to an argument, where it was given one up to a limit.
pub open spec fn number_given(level: LevelView, id: Seq<char>, limit: nat) -> Option<nat> {
    match text_in(level, id) {
        Some(text) => number_in(text, limit),
        None => None,
    }
}

fn number(level: &Level, id: &str, limit: u64) -> (number: Option<u64>)
    ensures
        match number {
            Some(number) => number_given(level@, id@, limit as nat) == Some(number as nat)
                && number <= limit,
            None => number_given(level@, id@, limit as nat) is None,
        },
{
    match text(level, id) {
        Some(text) => parse_number(chars_of(text.as_str()).as_slice(), limit),
        None => None,
    }
}

/// The database command that was chosen.
pub open spec fn db_command_in(level: LevelView) -> Option<DbCommandView> {
    let service = text_in(level, "service"@);
    let database = text_in(level, "database"@);
    let out = path_in(level, "out"@);
    let file = path_in(level, "file"@);
    if level.name == "export"@ {
        if service is Some && database is Some && out is Some {
            Some(
                DbCommandView::Export {
                    service: service->0,
                    database: database->0,
                    out: out->0,
                    gzip: flag_in(level, "gzip"@),
                    force: flag_in(level, "force"@),
                },
            )
        } else {
            None
        }
    } else if level.name == "backup"@ {
        if out is Some {
            Some(DbCommandView::Backup { out: out->0, gzip: flag_in(level, "gzip"@) })
        } else {
            None
        }
    } else if level.name == "import"@ {
        if service is Some && database is Some && file is Some {
            Some(
                DbCommandView::Import {
                    service: service->0,
                    database: database->0,
                    file: file->0,
                },
            )
        } else {
            None
        }
    } else {
        None
    }
}

/// Reads the database command that was chosen.
pub fn db_command(level: &Level) -> (command: Option<DbCommand>)
    ensures
        match command {
            Some(command) => db_command_in(level@) == Some(command@),
            None => db_command_in(level@) is None,
        },
{
    let name = level.name.as_str();
    if same(name, "export") {
        match (text(level, "service"), text(level, "database"), path(level, "out")) {
            (Some(service), Some(database), Some(out)) => Some(
                DbCommand::Export {
                    service,
                    database,
                    out,
                    gzip: flag(level, "gzip"),
                    force: flag(level, "force"),
                },
            ),
            _ => None,
        }
    } else if same(name, "backup") {
        match path(level, "out") {
            Some(out) => Some(DbCommand::Backup { out, gzip: flag(level, "gzip") }),
            None => None,
        }
    } else if same(name, "import") {
        match (text(level, "service"), text(level, "database"), path(level, "file")) {
            (Some(service), Some(database), Some(file)) => Some(
                DbCommand::Import { service, database, file },
            ),
            _ => None,
        }
    } else {
        None
    }
}

/// The hostname command that was chosen.
pub open spec fn domain_command_in(level: LevelView) -> Option<DomainCommandView> {
    let host = text_in(level, "host"@);
    let upstream = text_in(level, "upstream"@);
    if level.name == "list"@ {
        Some(DomainCommandView::List)
    } else if level.name == "add"@ {
        if host is Some && upstream is Some {
            Some(
                DomainCommandView::Add {
                    host: host->0,
                    upstream: upstream->0,
                    no_reload: flag_in(level, "no_reload"@),
                },
            )
        } else {
            None
        }
    } else if level.name == "remove"@ {
        if host is Some {
            Some(
                DomainCommandView::Remove {
                    host: host->0,
                    no_reload: flag_in(level, "no_reload"@),
                },
            )
        } else {
            None
        }
    } else {
        None
    }
}

/// Reads the hostname command that was chosen.
pub fn domain_command(level: &Level) -> (command: Option<DomainCommand>)
    ensures
        match command {
            Some(command) => domain_command_in(level@) == Some(command@),
            None => domain_command_in(level@) is None,
        },
{
    let name = level.name.as_str();
    if same(name, "list") {
        Some(DomainCommand::List)
    } else if same(name, "add") {
        match (text(level, "host"), text(level, "upstream")) {
            (Some(host), Some(upstream)) => Some(
                DomainCommand::Add { host, upstream, no_reload: flag(level, "no_reload") },
            ),
            _ => None,
        }
    } else if same(name, "remove") {
        match text(level, "host") {
            Some(host) => Some(DomainCommand::Remove { host, no_reload: flag(level, "no_reload") }),
            None => None,
        }
    } else {
        None
    }
}

/// A command that needs one text more than its flags.
pub open spec fn about_one(name: Seq<char>, level: LevelView, of: Seq<char>) -> Option<
    CommandView,
> {
    if name == "dotenv"@ {
        Some(CommandView::Dotenv { project: of, use_file: text_in(level, "use_file"@) })
    } else if name == "open"@ {
        Some(CommandView::Open { target: of })
    } else if name == "logs"@ {
        Some(
            CommandView::Logs {
                service: of,
                follow: flag_in(level, "follow"@),
                tail: match number_given(level, "tail"@, u32::MAX as nat) {
                    Some(lines) => Some(lines as u32),
                    None => None,
                },
            },
        )
    } else if name == "run"@ {
        Some(CommandView::Run { project: of, print: flag_in(level, "print"@) })
    } else if name == "env"@ {
        Some(CommandView::Env { project: of })
    } else if name == "exec"@ {
        Some(CommandView::Exec { project: of, command: values_in(level, "command"@) })
    } else if name == "shell"@ {
        Some(CommandView::Shell { project: of, shell: text_in(level, "shell"@) })
    } else {
        None
    }
}

fn read_about_one(level: &Level, of: String) -> (command: Option<Command>)
    ensures
        match command {
            Some(command) => about_one(level@.name, level@, of@) == Some(command@),
            None => about_one(level@.name, level@, of@) is None,
        },
{
    let name = level.name.as_str();
    if same(name, "dotenv") {
        Some(Command::Dotenv { project: of, use_file: text(level, "use_file") })
    } else if same(name, "open") {
        Some(Command::Open { target: of })
    } else if same(name, "logs") {
        let tail: Option<u32> = match number(level, "tail", u32::MAX as u64) {
            Some(lines) => Some(lines as u32),
            None => None,
        };
        Some(Command::Logs { service: of, follow: flag(level, "follow"), tail })
    } else if same(name, "run") {
        Some(Command::Run { project: of, print: flag(level, "print") })
    } else if same(name, "env") {
        Some(Command::Env { project: of })
    } else if same(name, "exec") {
        Some(Command::Exec { project: of, command: values(level, "command") })
    } else if same(name, "shell") {
        Some(Command::Shell { project: of, shell: text(level, "shell") })
    } else {
        None
    }
}

/// What the commands that need a text call it.
pub open spec fn subject_of(name: Seq<char>) -> Seq<char> {
    if name == "open"@ {
        "target"@
    } else if name == "logs"@ {
        "service"@
    } else {
        "project"@
    }
}

/// A command that needs nothing but its flags, or the services it acts on.
pub open spec fn about_none(level: LevelView) -> Option<CommandView> {
    let name = level.name;
    let services = values_in(level, "services"@);
    let all = flag_in(level, "all"@);
    if name == "scan"@ {
        Some(CommandView::Scan { json: flag_in(level, "json"@) })
    } else if name == "services"@ {
        Some(
            CommandView::Services { json: flag_in(level, "json"@), memory: flag_in(level, "memory"@) },
        )
    } else if name == "ports"@ {
        Some(CommandView::Ports { json: flag_in(level, "json"@) })
    } else if name == "start"@ {
        Some(CommandView::Start { services, all })
    } else if name == "stop"@ {
        Some(CommandView::Stop { services, all })
    } else if name == "restart"@ {
        Some(CommandView::Restart { services, all })
    } else if name == "config"@ {
        Some(
            CommandView::Config {
                init: flag_in(level, "init"@),
                edit: flag_in(level, "edit"@),
                force: flag_in(level, "force"@),
            },
        )
    } else if name == "tui"@ {
        Some(CommandView::Tui)
    } else {
        None
    }
}

fn read_about_none(level: &Level) -> (command: Option<Command>)
    ensures
        match command {
            Some(command) => about_none(level@) == Some(command@),
            None => about_none(level@) is None,
        },
{
    let name = level.name.as_str();
    if same(name, "scan") {
        Some(Command::Scan { json: flag(level, "json") })
    } else if same(name, "services") {
        Some(Command::Services { json: flag(level, "json"), memory: flag(level, "memory") })
    } else if same(name, "ports") {
        Some(Command::Ports { json: flag(level, "json") })
    } else if same(name, "start") {
        Some(Command::Start { services: values(level, "services"), all: flag(level, "all") })
    } else if same(name, "stop") {
        Some(Command::Stop { services: values(level, "services"), all: flag(level, "all") })
    } else if same(name, "restart") {
        Some(Command::Restart { services: values(level, "services"), all: flag(level, "all") })
    } else if same(name, "config") {
        Some(
            Command::Config {
                init: flag(level, "init"),
                edit: flag(level, "edit"),
                force: flag(level, "force"),
            },
        )
    } else if same(name, "tui") {
        Some(Command::Tui)
    } else {
        None
    }
}

/// The command that was chosen, from the first level below the program on.
pub open spec fn command_in(levels: Seq<LevelView>) -> Option<CommandView> {
    if levels.len() == 0 {
        None
    } else if levels[0].name == "db"@ {
        if levels.len() > 1 {
            match db_command_in(levels[1]) {
                Some(command) => Some(CommandView::Db(command)),
                None => None,
            }
        } else {
            None
        }
    } else if levels[0].name == "domains"@ {
        if levels.len() > 1 {
            match domain_command_in(levels[1]) {
                Some(command) => Some(CommandView::Domains(command)),
                None => None,
            }
        } else {
            None
        }
    } else if levels[0].name == "kill"@ {
        match number_given(levels[0], "port"@, u16::MAX as nat) {
            Some(port) => Some(
                CommandView::Kill { port: port as u16, dry_run: flag_in(levels[0], "dry_run"@) },
            ),
            None => None,
        }
    } else {
        match about_none(levels[0]) {
            Some(command) => Some(command),
            None => match text_in(levels[0], subject_of(levels[0].name)) {
                Some(subject) => about_one(levels[0].name, levels[0], subject),
                None => None,
            },
        }
    }
}

/// What a command line asks for, by the levels found on it.
pub open spec fn request_in(levels: Seq<LevelView>) -> Option<CliView> {
    if levels.len() == 0 || text_in(levels[0], "config"@) != path_in(levels[0], "config"@) {
        None
    } else {
        match command_in(levels.skip(1)) {
            Some(command) => Some(CliView { config: path_in(levels[0], "config"@), command }),
            None => None,
        }
    }
}

/// Reads the command that was chosen: `at` is its level.
fn read_command(levels: &[Level], at: usize) -> (command: Option<Command>)
    requires
        at <= levels@.len(),
    ensures
        match command {
            Some(command) => command_in(views(levels@).skip(at as int)) == Some(command@),
            None => command_in(views(levels@).skip(at as int)) is None,
        },
{
    let ghost rest = views(levels@).skip(at as int);
    if at == levels.len() {
        return None;
    }
    let level = &levels[at];
    assert(rest[0] == level@);
    let name = level.name.as_str();
    let below = levels.len() - at > 1;
    if same(name, "db") {
        if below {
            assert(rest[1] == levels@[at + 1]@);
            match db_command(&levels[at + 1]) {
                Some(command) => Some(Command::Db(command)),
                None => None,
            }
        } else {
            None
        }
    } else if same(name, "domains") {
        if below {
            assert(rest[1] == levels@[at + 1]@);
            match domain_command(&levels[at + 1]) {
                Some(command) => Some(Command::Domains(command)),
                None => None,
            }
        } else {
            None
        }
    } else if same(name, "kill") {
        match number(level, "port", u16::MAX as u64) {
            Some(port) => Some(
                Command::Kill { port: port as u16, dry_run: flag(level, "dry_run") },
            ),
            None => None,
        }
    } else {
        match read_about_none(level) {
            Some(command) => Some(command),
            None => {
                let subject = if same(name, "open") {
                    "target"
                } else if same(name, "logs") {
                    "service"
                } else {
                    "project"
                };
                match text(level, subject) {
                    Some(subject) => read_about_one(level, subject),
                    None => None,
                }
            },
        }
    }
}

/// What is said of a command line that was found in order and still lacks what
/// its command needs.
pub open spec fn incomplete() -> (Seq<char>, bool) {
    ("the command is missing something it needs"@, true)
}

/// What a command line asks for, or why it is refused.
pub open spec fn asked(reading: Result<Seq<LevelView>, (Seq<char>, bool)>) -> Result<
    CliView,
    (Seq<char>, bool),
> {
    match reading {
        Err(refusal) => Err(refusal),
        Ok(levels) => match request_in(levels) {
            Some(cli) => Ok(cli),
            None => Err(incomplete()),
        },
    }
}

/// What a request or a refusal says.
pub open spec fn answer_view(answer: Result<Cli, Refusal>) -> Result<CliView, (Seq<char>, bool)> {
    match answer {
        Ok(cli) => Ok(cli@),
        Err(refusal) => Err(refusal@),
    }
}

impl Cli {
    /// What the levels found on a command line ask for.
    pub fn from_levels(levels: &[Level]) -> (cli: Option<Cli>)
        ensures
            match cli {
                Some(cli) => request_in(views(levels@)) == Some(cli@),
                None => request_in(views(levels@)) is None,
            },
    {
        if levels.len() == 0 {
            return None;
        }
        assert(views(levels@)[0] == levels@[0]@);
        let config = path(&levels[0], "config");
        if config.is_none() && text(&levels[0], "config").is_some() {
            return None;
        }
        match read_command(levels, 1) {
            Some(command) => Some(Cli { config, command }),
            None => None,
        }
    }

    /// Reads a command line, the path the program was started by in front. Only
    /// the name in that path is shown, and only where it is a plain one.
    pub fn try_parse_from(arguments: &[String]) -> (answer: Result<Cli, Refusal>)
        ensures
            answer_view(answer) == asked(
                clap_reading(command_line(), plainly_called(views(arguments@), "adev"@)),
            ),
    {
        let called = call_plainly(arguments, "adev");
        proof {
            reveal_strlit("adev");
            assert("adev"@.len() == 4 && "adev"@[0] == 'a' && "adev"@[1] == 'd' && "adev"@[2]
                == 'e' && "adev"@[3] == 'v');
            lemma_called_plainly(views(arguments@), "adev"@);
            if called@.len() > 0 {
                assert(views(called@)[0] == called@[0]@);
            }
        }
        match read(&define_command_line(), called.as_slice()) {
            Ok(levels) => match Cli::from_levels(levels.as_slice()) {
                Some(cli) => Ok(cli),
                None => Err(
                    Refusal {
                        text: "the command is missing something it needs".to_owned(),
                        is_error: true,
                    },
                ),
            },
            Err(refusal) => Err(refusal),
        }
    }
}

/// Running with no command says so rather than silently picking one.
pub proof fn law_no_command_is_the_default(levels: Seq<LevelView>)
    requires
        levels.len() <= 1,
    ensures
        request_in(levels) is None,
{
}

/// A flag that is not given is off, whatever the command.
pub proof fn law_a_flag_is_off_unless_given(level: LevelView, id: Seq<char>)
    requires
        entry_of(level.given, id) is None,
    ensures
        !flag_in(level, id),
{
}

/// Whether an argument that has to be there was given something it takes: a path
/// that names something, where it is one.
pub open spec fn is_supplied(level: LevelView, argument: ArgumentView) -> bool {
    argument.required ==> match argument.takes {
        Takes::Number(limit) => number_given(level, argument.id, limit as nat) is Some,
        _ => if argument.id == "out"@ || argument.id == "file"@ {
            path_in(level, argument.id) is Some
        } else {
            text_in(level, argument.id) is Some
        },
    }
}

/// Whether a level is a command as it is defined, with all that it needs.
pub open spec fn is_one_of(level: LevelView, command: DefinitionView) -> bool {
    &&& level.name == command.name
    &&& forall|i: int|
        0 <= i < command.arguments.len() ==> is_supplied(level, #[trigger] command.arguments[i])
}

/// How long the names of the commands are and how they begin, which tells any
/// two of them apart.
proof fn lemma_names_differ()
    ensures
        "scan"@.len() == 4 && "scan"@[0] == 's' && "scan"@[1] == 'c',
        "services"@.len() == 8 && "services"@[0] == 's' && "services"@[1] == 'e',
        "ports"@.len() == 5 && "ports"@[0] == 'p' && "ports"@[1] == 'o',
        "db"@.len() == 2 && "db"@[0] == 'd' && "db"@[1] == 'b',
        "domains"@.len() == 7 && "domains"@[0] == 'd' && "domains"@[1] == 'o',
        "start"@.len() == 5 && "start"@[0] == 's' && "start"@[1] == 't',
        "stop"@.len() == 4 && "stop"@[0] == 's' && "stop"@[1] == 't',
        "restart"@.len() == 7 && "restart"@[0] == 'r' && "restart"@[1] == 'e',
        "dotenv"@.len() == 6 && "dotenv"@[0] == 'd' && "dotenv"@[1] == 'o',
        "open"@.len() == 4 && "open"@[0] == 'o' && "open"@[1] == 'p',
        "kill"@.len() == 4 && "kill"@[0] == 'k' && "kill"@[1] == 'i',
        "logs"@.len() == 4 && "logs"@[0] == 'l' && "logs"@[1] == 'o',
        "run"@.len() == 3 && "run"@[0] == 'r' && "run"@[1] == 'u',
        "env"@.len() == 3 && "env"@[0] == 'e' && "env"@[1] == 'n',
        "exec"@.len() == 4 && "exec"@[0] == 'e' && "exec"@[1] == 'x',
        "shell"@.len() == 5 && "shell"@[0] == 's' && "shell"@[1] == 'h',
        "config"@.len() == 6 && "config"@[0] == 'c' && "config"@[1] == 'o',
        "tui"@.len() == 3 && "tui"@[0] == 't' && "tui"@[1] == 'u',
        "export"@.len() == 6 && "export"@[0] == 'e' && "export"@[1] == 'x',
        "backup"@.len() == 6 && "backup"@[0] == 'b' && "backup"@[1] == 'a',
        "import"@.len() == 6 && "import"@[0] == 'i' && "import"@[1] == 'm',
        "list"@.len() == 4 && "list"@[0] == 'l' && "list"@[1] == 'i',
        "add"@.len() == 3 && "add"@[0] == 'a' && "add"@[1] == 'd',
        "remove"@.len() == 6 && "remove"@[0] == 'r' && "remove"@[1] == 'e',
{
    reveal_strlit("scan");
    reveal_strlit("services");
    reveal_strlit("ports");
    reveal_strlit("db");
    reveal_strlit("domains");
    reveal_strlit("start");
    reveal_strlit("stop");
    reveal_strlit("restart");
    reveal_strlit("dotenv");
    reveal_strlit("open");
    reveal_strlit("kill");
    reveal_strlit("logs");
    reveal_strlit("run");
    reveal_strlit("env");
    reveal_strlit("exec");
    reveal_strlit("shell");
    reveal_strlit("config");
    reveal_strlit("tui");
    reveal_strlit("export");
    reveal_strlit("backup");
    reveal_strlit("import");
    reveal_strlit("list");
    reveal_strlit("add");
    reveal_strlit("remove");
}

/// Every command that is defined is understood: given all that its definition
/// asks for, it asks for something.
pub proof fn law_every_command_is_understood(level: LevelView, i: int)
    requires
        0 <= i < command_line().commands.len(),
        command_line().commands[i].commands.len() == 0,
        is_one_of(level, command_line().commands[i]),
    ensures
        command_in(seq![level]) is Some,
{
    lemma_names_differ();
    let command = command_line().commands[i];
    assert(command_line().commands.len() == 18);
    assert(seq![level][0] == level);
    if command.arguments.len() > 0 {
        assert(is_supplied(level, command.arguments[0]));
    }
}

/// Every database command that is defined is understood.
pub proof fn law_every_database_command_is_understood(level: LevelView, i: int)
    requires
        0 <= i < defined_db().commands.len(),
        is_one_of(level, defined_db().commands[i]),
    ensures
        db_command_in(level) is Some,
{
    lemma_names_differ();
    let command = defined_db().commands[i];
    assert(defined_db().commands.len() == 3);
    assert(is_supplied(level, command.arguments[0]));
    if command.arguments.len() > 2 {
        assert(is_supplied(level, command.arguments[1]));
        assert(is_supplied(level, command.arguments[2]));
    }
}

/// Every hostname command that is defined is understood.
pub proof fn law_every_hostname_command_is_understood(level: LevelView, i: int)
    requires
        0 <= i < defined_domains().commands.len(),
        is_one_of(level, defined_domains().commands[i]),
    ensures
        domain_command_in(level) is Some,
{
    lemma_names_differ();
    let command = defined_domains().commands[i];
    assert(defined_domains().commands.len() == 3);
    if command.arguments.len() > 1 {
        assert(is_supplied(level, command.arguments[0]));
        assert(is_supplied(level, command.arguments[1]));
    }
}

#[verifier::rlimit(40)]
proof fn lemma_command_names_differ()
    ensures
        "db"@.len() == 2 && "domains"@.len() == 7 && "kill"@.len() == 4 && "scan"@.len() == 4,
        "services"@.len() == 8 && "ports"@.len() == 5 && "start"@.len() == 5 && "stop"@.len() == 4,
        "restart"@.len() == 7 && "dotenv"@.len() == 6 && "open"@.len() == 4 && "logs"@.len() == 4,
        "run"@.len() == 3 && "env"@.len() == 3 && "exec"@.len() == 4 && "shell"@.len() == 5,
        "config"@.len() == 6 && "tui"@.len() == 3,
        "kill"@[0] == 'k' && "scan"@[0] == 's' && "scan"@[1] == 'c' && "stop"@[0] == 's'
            && "stop"@[1] == 't' && "open"@[0] == 'o' && "logs"@[0] == 'l' && "exec"@[0] == 'e',
        "domains"@[0] == 'd' && "restart"@[0] == 'r',
        "ports"@[0] == 'p' && "start"@[0] == 's' && "start"@[1] == 't' && "shell"@[0] == 's'
            && "shell"@[1] == 'h',
        "dotenv"@[0] == 'd' && "config"@[0] == 'c',
        "run"@[0] == 'r' && "env"@[0] == 'e' && "tui"@[0] == 't',
{
    reveal_strlit("db");
    reveal_strlit("domains");
    reveal_strlit("kill");
    reveal_strlit("scan");
    reveal_strlit("services");
    reveal_strlit("ports");
    reveal_strlit("start");
    reveal_strlit("stop");
    reveal_strlit("restart");
    reveal_strlit("dotenv");
    reveal_strlit("open");
    reveal_strlit("logs");
    reveal_strlit("run");
    reveal_strlit("env");
    reveal_strlit("exec");
    reveal_strlit("shell");
    reveal_strlit("config");
    reveal_strlit("tui");
}

/// A command that is about one thing is about what was given for it, with the
/// options that were given.
#[verifier::rlimit(40)]
pub proof fn law_a_command_is_about_what_was_given(level: LevelView, subject: Seq<char>)
    ensures
        ({
            let command = command_in(seq![level]);
            let given = |id: Seq<char>| text_in(level, id) == Some(subject);
            let on = |id: Seq<char>| text_in(level, id) == Some("true"@);
            &&& level.name == "dotenv"@ && given("project"@) ==> command == Some(
                CommandView::Dotenv { project: subject, use_file: text_in(level, "use_file"@) },
            )
            &&& level.name == "open"@ && given("target"@) ==> command == Some(
                CommandView::Open { target: subject },
            )
            &&& level.name == "run"@ && given("project"@) ==> command == Some(
                CommandView::Run { project: subject, print: on("print"@) },
            )
            &&& level.name == "env"@ && given("project"@) ==> command == Some(
                CommandView::Env { project: subject },
            )
            &&& level.name == "exec"@ && given("project"@) ==> command == Some(
                CommandView::Exec { project: subject, command: values_in(level, "command"@) },
            )
            &&& level.name == "shell"@ && given("project"@) ==> command == Some(
                CommandView::Shell { project: subject, shell: text_in(level, "shell"@) },
            )
        }),
{
    lemma_command_names_differ();
    assert(seq![level][0] == level);
}

/// A log is read of the service that was given, followed where that was asked,
/// from as many lines back as were asked; a port that is ended is the one that
/// was given.
pub proof fn law_numbers_on_the_command_line_are_kept(
    level: LevelView,
    service: Seq<char>,
    lines: u32,
    port: u16,
)
    ensures
        level.name == "logs"@ && text_in(level, "service"@) == Some(service) && text_in(
            level,
            "tail"@,
        ) == Some(decimal(lines as nat)) ==> command_in(seq![level]) == Some(
            CommandView::Logs { service, follow: flag_in(level, "follow"@), tail: Some(lines) },
        ),
        level.name == "logs"@ && text_in(level, "service"@) == Some(service) && text_in(
            level,
            "tail"@,
        ) is None ==> command_in(seq![level]) == Some(
            CommandView::Logs { service, follow: flag_in(level, "follow"@), tail: None },
        ),
        level.name == "kill"@ && text_in(level, "port"@) == Some(decimal(port as nat))
            ==> command_in(seq![level]) == Some(
            CommandView::Kill { port, dry_run: flag_in(level, "dry_run"@) },
        ),
{
    lemma_command_names_differ();
    lemma_decimal_reads_back(lines as nat, u32::MAX as nat);
    lemma_decimal_reads_back(port as nat, u16::MAX as nat);
    assert(seq![level][0] == level);
}

/// A command that is about nothing in particular has the flags and the names
/// that were given.
#[verifier::rlimit(40)]
pub proof fn law_a_command_has_the_flags_that_were_given(level: LevelView)
    ensures
        ({
            let command = command_in(seq![level]);
            let on = |id: Seq<char>| text_in(level, id) == Some("true"@);
            let services = values_in(level, "services"@);
            &&& level.name == "scan"@ ==> command == Some(CommandView::Scan { json: on("json"@) })
            &&& level.name == "services"@ ==> command == Some(
                CommandView::Services { json: on("json"@), memory: on("memory"@) },
            )
            &&& level.name == "ports"@ ==> command == Some(CommandView::Ports { json: on("json"@) })
            &&& level.name == "start"@ ==> command == Some(
                CommandView::Start { services, all: on("all"@) },
            )
            &&& level.name == "stop"@ ==> command == Some(
                CommandView::Stop { services, all: on("all"@) },
            )
            &&& level.name == "restart"@ ==> command == Some(
                CommandView::Restart { services, all: on("all"@) },
            )
            &&& level.name == "config"@ ==> command == Some(
                CommandView::Config { init: on("init"@), edit: on("edit"@), force: on("force"@) },
            )
            &&& level.name == "tui"@ ==> command == Some(CommandView::Tui)
        }),
{
    lemma_command_names_differ();
    assert(seq![level][0] == level);
}

/// The commands under `db` and `domains` have what was given for each part.
#[verifier::rlimit(40)]
pub proof fn law_a_nested_command_has_what_was_given(
    outer: LevelView,
    level: LevelView,
    service: Seq<char>,
    database: Seq<char>,
    path: Seq<char>,
    host: Seq<char>,
    upstream: Seq<char>,
)
    requires
        path.len() > 0,
    ensures
        ({
            let command = command_in(seq![outer, level]);
            let given = |id: Seq<char>, value: Seq<char>| text_in(level, id) == Some(value);
            let on = |id: Seq<char>| text_in(level, id) == Some("true"@);
            &&& outer.name == "db"@ && level.name == "export"@ && given("service"@, service)
                && given("database"@, database) && given("out"@, path) ==> command == Some(
                CommandView::Db(
                    DbCommandView::Export {
                        service,
                        database,
                        out: path,
                        gzip: on("gzip"@),
                        force: on("force"@),
                    },
                ),
            )
            &&& outer.name == "db"@ && level.name == "backup"@ && given("out"@, path) ==> command
                == Some(CommandView::Db(DbCommandView::Backup { out: path, gzip: on("gzip"@) }))
            &&& outer.name == "db"@ && level.name == "import"@ && given("service"@, service)
                && given("database"@, database) && given("file"@, path) ==> command == Some(
                CommandView::Db(DbCommandView::Import { service, database, file: path }),
            )
            &&& outer.name == "domains"@ && level.name == "list"@ ==> command == Some(
                CommandView::Domains(DomainCommandView::List),
            )
            &&& outer.name == "domains"@ && level.name == "add"@ && given("host"@, host) && given(
                "upstream"@,
                upstream,
            ) ==> command == Some(
                CommandView::Domains(
                    DomainCommandView::Add { host, upstream, no_reload: on("no_reload"@) },
                ),
            )
            &&& outer.name == "domains"@ && level.name == "remove"@ && given("host"@, host)
                ==> command == Some(
                CommandView::Domains(
                    DomainCommandView::Remove { host, no_reload: on("no_reload"@) },
                ),
            )
        }),
{
    lemma_command_names_differ();
    reveal_strlit("export");
    reveal_strlit("backup");
    reveal_strlit("import");
    reveal_strlit("list");
    reveal_strlit("add");
    reveal_strlit("remove");
    assert("export"@.len() == 6 && "backup"@.len() == 6 && "import"@.len() == 6);
    assert("export"@[0] == 'e' && "backup"@[0] == 'b' && "import"@[0] == 'i');
    assert("list"@.len() == 4 && "add"@.len() == 3 && "remove"@.len() == 6);
    assert(seq![outer, level][0] == outer && seq![outer, level][1] == level);
}

/// A request is the command and the configuration file that was named, which may
/// not be an empty name.
pub proof fn law_a_request_keeps_its_configuration_file(
    top: LevelView,
    rest: Seq<LevelView>,
    command: CommandView,
    path: Seq<char>,
)
    requires
        command_in(rest) == Some(command),
    ensures
        text_in(top, "config"@) is None ==> request_in(seq![top] + rest) == Some(
            CliView { config: None, command },
        ),
        text_in(top, "config"@) == Some(path) && path.len() > 0 ==> request_in(seq![top] + rest)
            == Some(CliView { config: Some(path), command }),
        text_in(top, "config"@) == Some(path) && path.len() == 0 ==> request_in(seq![top] + rest)
            is None,
{
    let levels = seq![top] + rest;
    assert(levels[0] == top);
    assert(levels.skip(1) =~= rest);
}

/// Whether an argument is an option that is written `--long`, takes this, and has
/// to be given.
pub open spec fn is_option(
    argument: ArgumentView,
    id: Seq<char>,
    long: Seq<char>,
    takes: Takes,
    required: bool,
) -> bool {
    argument.id == id && argument.long == Some(long) && argument.takes == takes && argument.required
        == required && argument.unless is None
}

/// Whether an argument is given by its place, takes this, and has to be given.
pub open spec fn is_place(argument: ArgumentView, id: Seq<char>, takes: Takes) -> bool {
    argument.id == id && argument.long is None && argument.takes == takes && argument.required
        && argument.unless is None
}

/// What the database commands take.
pub proof fn law_what_the_database_commands_take()
    ensures
        ({
            let (export, backup, import) = (
                defined_db_export().arguments,
                defined_db_backup().arguments,
                defined_db_import().arguments,
            );
            &&& export.len() == 5
            &&& is_place(export[0], "service"@, Takes::Text)
            &&& is_option(export[1], "database"@, "database"@, Takes::Text, true)
            &&& is_option(export[2], "out"@, "out"@, Takes::Text, true)
            &&& is_option(export[3], "gzip"@, "gzip"@, Takes::Flag, false)
            &&& is_option(export[4], "force"@, "force"@, Takes::Flag, false)
            &&& backup.len() == 2
            &&& is_option(backup[0], "out"@, "out"@, Takes::Text, true)
            &&& is_option(backup[1], "gzip"@, "gzip"@, Takes::Flag, false)
            &&& import.len() == 3
            &&& is_place(import[0], "service"@, Takes::Text)
            &&& is_option(import[1], "database"@, "database"@, Takes::Text, true)
            &&& is_option(import[2], "file"@, "file"@, Takes::Text, true)
            &&& defined_db().commands == seq![
                defined_db_export(),
                defined_db_backup(),
                defined_db_import(),
            ]
        }),
{
    assert(defined_db().commands =~= seq![
        defined_db_export(),
        defined_db_backup(),
        defined_db_import(),
    ]);
}

/// What the hostname commands take.
pub proof fn law_what_the_hostname_commands_take()
    ensures
        ({
            let (new, remove) = (
                defined_domains_add().arguments,
                defined_domains_remove().arguments,
            );
            &&& new.len() == 3
            &&& is_place(new[0], "host"@, Takes::Text)
            &&& is_place(new[1], "upstream"@, Takes::Text)
            &&& is_option(new[2], "no_reload"@, "no-reload"@, Takes::Flag, false)
            &&& remove.len() == 2
            &&& is_place(remove[0], "host"@, Takes::Text)
            &&& is_option(remove[1], "no_reload"@, "no-reload"@, Takes::Flag, false)
            &&& defined_domains_list().arguments.len() == 0
            &&& defined_domains().commands == seq![
                defined_domains_list(),
                defined_domains_add(),
                defined_domains_remove(),
            ]
        }),
{
    assert(defined_domains().commands =~= seq![
        defined_domains_list(),
        defined_domains_add(),
        defined_domains_remove(),
    ]);
}

/// What the commands on services and ports take: names unless all are meant, a
/// port that a port can be, and how far back a log begins.
pub proof fn law_what_the_service_commands_take()
    ensures
        ({
            let (services, logs, kill) = (
                defined_services().arguments,
                defined_logs().arguments,
                defined_kill().arguments,
            );
            &&& is_option(services[0], "json"@, "json"@, Takes::Flag, false)
            &&& is_option(services[1], "memory"@, "memory"@, Takes::Flag, false)
            &&& is_option(defined_scan().arguments[0], "json"@, "json"@, Takes::Flag, false)
            &&& is_option(defined_ports().arguments[0], "json"@, "json"@, Takes::Flag, false)
            &&& logs.len() == 3
            &&& is_place(logs[0], "service"@, Takes::Text)
            &&& is_option(logs[1], "follow"@, "follow"@, Takes::Flag, false)
            &&& logs[1].short == Some('f')
            &&& is_option(logs[2], "tail"@, "tail"@, Takes::Number(4294967295), false)
            &&& logs[2].short == Some('n')
            &&& kill.len() == 2
            &&& is_place(kill[0], "port"@, Takes::Number(65535))
            &&& is_option(kill[1], "dry_run"@, "dry-run"@, Takes::Flag, false)
            &&& forall|command: DefinitionView|
                command == defined_start() || command == defined_stop() || command
                    == defined_restart() ==> {
                    &&& (#[trigger] command.arguments).len() == 2
                    &&& command.arguments[0].id == "services"@
                    &&& command.arguments[0].long is None
                    &&& command.arguments[0].takes == Takes::Texts
                    &&& !command.arguments[0].required
                    &&& command.arguments[0].unless == Some("all"@)
                    &&& is_option(command.arguments[1], "all"@, "all"@, Takes::Flag, false)
                }
        }),
{
}

/// What the commands on projects take; all that follows the two dashes is the
/// command to run.
pub proof fn law_what_the_project_commands_take()
    ensures
        ({
            let (dotenv, run, exec, shell, config) = (
                defined_dotenv().arguments,
                defined_run().arguments,
                defined_exec().arguments,
                defined_shell().arguments,
                defined_config().arguments,
            );
            &&& is_place(dotenv[0], "project"@, Takes::Text)
            &&& is_option(dotenv[1], "use_file"@, "use"@, Takes::Text, false)
            &&& is_place(run[0], "project"@, Takes::Text)
            &&& is_option(run[1], "print"@, "print"@, Takes::Flag, false)
            &&& is_place(defined_env().arguments[0], "project"@, Takes::Text)
            &&& is_place(exec[0], "project"@, Takes::Text)
            &&& is_place(exec[1], "command"@, Takes::Rest)
            &&& is_place(shell[0], "project"@, Takes::Text)
            &&& is_option(shell[1], "shell"@, "shell"@, Takes::Text, false)
            &&& is_place(defined_open().arguments[0], "target"@, Takes::Text)
            &&& is_option(config[0], "init"@, "init"@, Takes::Flag, false)
            &&& is_option(config[1], "edit"@, "edit"@, Takes::Flag, false)
            &&& is_option(config[2], "force"@, "force"@, Takes::Flag, false)
            &&& command_line().arguments.len() == 1
            &&& is_option(command_line().arguments[0], "config"@, "config"@, Takes::Text, false)
            &&& command_line().arguments[0].global
        }),
{
}

/// The commands, by their names, in the order they are listed.
pub proof fn law_the_commands_and_their_names()
    ensures
        command_line().name == "adev"@,
        command_line().commands.map_values(|command: DefinitionView| command.name) == seq![
            "scan"@,
            "services"@,
            "ports"@,
            "db"@,
            "domains"@,
            "start"@,
            "stop"@,
            "restart"@,
            "dotenv"@,
            "open"@,
            "kill"@,
            "logs"@,
            "run"@,
            "env"@,
            "exec"@,
            "shell"@,
            "config"@,
            "tui"@,
        ],
{
}

} // verus!
