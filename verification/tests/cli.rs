use aether_dev::arguments::{Given, Level, Refusal};
use aether_dev::cli::{Cli, Command, DbCommand, DomainCommand};

fn try_parse(arguments: &[&str]) -> Result<Cli, Refusal> {
    let arguments: Vec<String> = arguments.iter().map(|text| text.to_string()).collect();
    Cli::try_parse_from(&arguments)
}

fn parse(arguments: &[&str]) -> Cli {
    try_parse(arguments).unwrap()
}

#[test]
fn the_command_definition_is_internally_consistent() {
    // Asking a command for help has it built and checked.
    let commands = [
        "scan", "services", "ports", "db", "domains", "start", "stop", "restart", "dotenv", "open",
        "kill", "logs", "run", "env", "exec", "shell", "config", "tui",
    ];
    for command in commands {
        let refusal = try_parse(&["adev", command, "--help"]).unwrap_err();
        assert!(!refusal.is_error, "{command}: {}", refusal.text);
        assert!(refusal.text.contains(&format!("Usage: adev {command}")));
    }
    for command in ["export", "backup", "import"] {
        let refusal = try_parse(&["adev", "db", command, "--help"]).unwrap_err();
        assert!(!refusal.is_error, "{command}: {}", refusal.text);
    }
    for command in ["list", "add", "remove"] {
        let refusal = try_parse(&["adev", "domains", command, "--help"]).unwrap_err();
        assert!(!refusal.is_error, "{command}: {}", refusal.text);
    }
}

#[test]
fn listing_commands_are_human_readable_unless_json_is_asked_for() {
    assert_eq!(
        parse(&["adev", "scan"]).command,
        Command::Scan { json: false }
    );
    assert_eq!(
        parse(&["adev", "scan", "--json"]).command,
        Command::Scan { json: true }
    );
    assert_eq!(
        parse(&["adev", "services", "--json"]).command,
        Command::Services {
            json: true,
            memory: false
        }
    );
    assert_eq!(
        parse(&["adev", "ports", "--json"]).command,
        Command::Ports { json: true }
    );
}

#[test]
fn a_database_export_names_the_service_the_database_and_the_destination() {
    let cli = parse(&[
        "adev",
        "db",
        "export",
        "mysql",
        "--database",
        "shop",
        "--out",
        "shop.sql",
    ]);
    assert_eq!(
        cli.command,
        Command::Db(DbCommand::Export {
            service: "mysql".to_string(),
            database: "shop".to_string(),
            out: String::from("shop.sql"),
            gzip: false,
            force: false,
        })
    );
}

#[test]
fn an_export_without_a_destination_is_refused_rather_than_guessed() {
    assert!(
        try_parse(&["adev", "db", "export", "mysql", "--database", "shop"]).is_err()
    );
}

#[test]
fn a_database_import_names_the_file_it_reads() {
    let cli = parse(&[
        "adev",
        "db",
        "import",
        "postgres",
        "--database",
        "shop",
        "--file",
        "dump.sql",
    ]);
    assert_eq!(
        cli.command,
        Command::Db(DbCommand::Import {
            service: "postgres".to_string(),
            database: "shop".to_string(),
            file: String::from("dump.sql"),
        })
    );
}

#[test]
fn domains_can_be_listed_added_and_removed() {
    assert_eq!(
        parse(&["adev", "domains", "list"]).command,
        Command::Domains(DomainCommand::List)
    );
    assert_eq!(
        parse(&["adev", "domains", "add", "db.localhost", "localhost:19000"]).command,
        Command::Domains(DomainCommand::Add {
            host: "db.localhost".to_string(),
            upstream: "localhost:19000".to_string(),
            no_reload: false,
        })
    );
    assert_eq!(
        parse(&["adev", "domains", "remove", "db.localhost"]).command,
        Command::Domains(DomainCommand::Remove {
            host: "db.localhost".to_string(),
            no_reload: false,
        })
    );
}

#[test]
fn the_terminal_ui_is_one_subcommand_among_the_others_not_the_default() {
    assert_eq!(parse(&["adev", "tui"]).command, Command::Tui);
    assert!(
        try_parse(&["adev"]).is_err(),
        "running with no subcommand must say so rather than silently pick one"
    );
}

#[test]
fn the_config_path_is_accepted_before_or_after_the_subcommand() {
    assert_eq!(
        parse(&["adev", "--config", "a.toml", "scan"]).config,
        Some(String::from("a.toml"))
    );
    assert_eq!(
        parse(&["adev", "scan", "--config", "a.toml"]).config,
        Some(String::from("a.toml"))
    );
}
#[test]
fn a_domain_change_can_be_written_without_restarting_the_proxy() {
    assert_eq!(
        parse(&["adev", "domains", "add", "db.localhost", "dbgate-ui:3000"]).command,
        Command::Domains(DomainCommand::Add {
            host: "db.localhost".to_string(),
            upstream: "dbgate-ui:3000".to_string(),
            no_reload: false,
        })
    );
    assert_eq!(
        parse(&["adev", "domains", "remove", "db.localhost", "--no-reload"]).command,
        Command::Domains(DomainCommand::Remove {
            host: "db.localhost".to_string(),
            no_reload: true,
        })
    );
}
#[test]
fn an_export_refuses_to_overwrite_unless_told_to() {
    let plain = parse(&[
        "adev",
        "db",
        "export",
        "mysql",
        "--database",
        "shop",
        "--out",
        "shop.sql",
    ]);
    assert_eq!(
        plain.command,
        Command::Db(DbCommand::Export {
            service: "mysql".to_string(),
            database: "shop".to_string(),
            out: String::from("shop.sql"),
            gzip: false,
            force: false,
        })
    );
    let forced = parse(&[
        "adev",
        "db",
        "export",
        "mysql",
        "--database",
        "shop",
        "--out",
        "shop.sql",
        "--force",
    ]);
    assert!(matches!(
        forced.command,
        Command::Db(DbCommand::Export { force: true, .. })
    ));
}

#[test]
fn logs_name_a_service_and_can_follow_or_limit_how_far_back_they_start() {
    assert_eq!(
        parse(&["adev", "logs", "mysql"]).command,
        Command::Logs {
            service: "mysql".to_string(),
            follow: false,
            tail: None,
        }
    );
    assert_eq!(
        parse(&["adev", "logs", "mysql", "--follow", "--tail", "50"]).command,
        Command::Logs {
            service: "mysql".to_string(),
            follow: true,
            tail: Some(50),
        }
    );
}

#[test]
fn services_can_be_started_stopped_and_restarted_by_name() {
    assert_eq!(
        parse(&["adev", "start", "mysql", "postgres"]).command,
        Command::Start {
            services: vec!["mysql".to_string(), "postgres".to_string()],
            all: false,
        }
    );
    assert_eq!(
        parse(&["adev", "stop", "mysql"]).command,
        Command::Stop {
            services: vec!["mysql".to_string()],
            all: false,
        }
    );
    assert_eq!(
        parse(&["adev", "restart", "caddy"]).command,
        Command::Restart {
            services: vec!["caddy".to_string()],
            all: false,
        }
    );
}

#[test]
fn an_action_with_no_service_named_is_refused_rather_than_applied_to_everything() {
    assert!(
        try_parse(&["adev", "stop"]).is_err(),
        "stopping every service because none was named is not a plausible intent"
    );
    assert!(try_parse(&["adev", "start"]).is_err());
    assert!(try_parse(&["adev", "restart"]).is_err());
}

#[test]
fn memory_is_asked_for_explicitly_because_it_is_slow() {
    assert_eq!(
        parse(&["adev", "services"]).command,
        Command::Services {
            json: false,
            memory: false
        },
        "a listing must stay fast by default"
    );
    assert_eq!(
        parse(&["adev", "services", "--memory"]).command,
        Command::Services {
            json: false,
            memory: true
        }
    );
}

#[test]
fn a_backup_names_a_directory_rather_than_a_file() {
    assert_eq!(
        parse(&["adev", "db", "backup", "--out", "backups"]).command,
        Command::Db(DbCommand::Backup {
            out: String::from("backups"),
            gzip: false,
        })
    );
    assert!(
        try_parse(&["adev", "db", "backup"]).is_err(),
        "writing a backup somewhere the caller did not choose is not a default"
    );
}

#[test]
fn a_project_can_be_asked_what_toolchain_it_resolves_to() {
    assert_eq!(
        parse(&["adev", "env", "legacy-billing"]).command,
        Command::Env {
            project: "legacy-billing".to_string()
        }
    );
}

#[test]
fn a_command_runs_after_a_separator_so_its_own_flags_are_left_alone() {
    let cli = parse(&["adev", "exec", "old-shop", "--", "php", "-v"]);
    assert_eq!(
        cli.command,
        Command::Exec {
            project: "old-shop".to_string(),
            command: vec!["php".to_string(), "-v".to_string()],
        }
    );

    let with_flags = parse(&["adev", "exec", "old-shop", "--", "php", "--version"]);
    assert!(
        matches!(with_flags.command, Command::Exec { .. }),
        "--version belongs to php, not to adev"
    );
}

#[test]
fn exec_without_a_command_is_refused_rather_than_running_nothing() {
    assert!(try_parse(&["adev", "exec", "old-shop"]).is_err());
}

#[test]
fn a_shell_can_be_named_when_the_environment_does_not_say() {
    assert_eq!(
        parse(&["adev", "shell", "old-shop"]).command,
        Command::Shell {
            project: "old-shop".to_string(),
            shell: None,
        }
    );
    assert_eq!(
        parse(&["adev", "shell", "old-shop", "--shell", "pwsh"]).command,
        Command::Shell {
            project: "old-shop".to_string(),
            shell: Some("pwsh".to_string()),
        }
    );
}

#[test]
fn a_project_can_be_started_or_only_described() {
    assert_eq!(
        parse(&["adev", "run", "sapta-web"]).command,
        Command::Run {
            project: "sapta-web".to_string(),
            print: false,
        }
    );
    assert_eq!(
        parse(&["adev", "run", "sapta-web", "--print"]).command,
        Command::Run {
            project: "sapta-web".to_string(),
            print: true,
        }
    );
    assert!(
        try_parse(&["adev", "run"]).is_err(),
        "there is no sensible project to start when none was named"
    );
}

#[test]
fn freeing_a_port_names_the_port_and_can_be_asked_first() {
    assert_eq!(
        parse(&["adev", "kill", "8000"]).command,
        Command::Kill {
            port: 8000,
            dry_run: false,
        }
    );
    assert!(matches!(
        parse(&["adev", "kill", "8000", "--dry-run"]).command,
        Command::Kill { dry_run: true, .. }
    ));
    assert!(
        try_parse(&["adev", "kill"]).is_err(),
        "killing whatever happens to be listening is not a default"
    );
    assert!(
        try_parse(&["adev", "kill", "not-a-port"]).is_err(),
        "a port is a number, and refusing early beats failing later"
    );
}

#[test]
fn every_service_can_be_acted_on_at_once_but_only_when_asked() {
    assert_eq!(
        parse(&["adev", "stop", "--all"]).command,
        Command::Stop {
            services: vec![],
            all: true,
        }
    );
    assert_eq!(
        parse(&["adev", "start", "mysql"]).command,
        Command::Start {
            services: vec!["mysql".to_string()],
            all: false,
        }
    );
    assert!(
        try_parse(&["adev", "stop"]).is_err(),
        "stopping everything because nothing was named is not a plausible intent"
    );
}

#[test]
fn opening_something_in_a_browser_names_what_to_open() {
    assert_eq!(
        parse(&["adev", "open", "dbgate"]).command,
        Command::Open {
            target: "dbgate".to_string()
        }
    );
    assert!(try_parse(&["adev", "open"]).is_err());
}

#[test]
fn the_env_file_in_use_can_be_listed_or_swapped() {
    assert_eq!(
        parse(&["adev", "dotenv", "old-billing"]).command,
        Command::Dotenv {
            project: "old-billing".to_string(),
            use_file: None,
        }
    );
    assert_eq!(
        parse(&["adev", "dotenv", "old-billing", "--use", ".env.staging"]).command,
        Command::Dotenv {
            project: "old-billing".to_string(),
            use_file: Some(".env.staging".to_string()),
        }
    );
}

fn level(name: &str, given: &[(&str, &[&str])]) -> Level {
    Level {
        name: name.to_string(),
        given: given
            .iter()
            .map(|(id, values)| {
                let values = values.iter().map(|value| value.to_string()).collect();
                (id.to_string(), Given { values })
            })
            .collect(),
    }
}

#[test]
fn help_and_the_version_are_not_errors() {
    let help = try_parse(&["adev", "--help"]).unwrap_err();
    assert!(!help.is_error);
    assert_eq!(help.exit_code(), 0);
    for command in ["scan", "services", "domains", "tui"] {
        assert!(help.text.contains(command));
    }
    let version = try_parse(&["adev", "--version"]).unwrap_err();
    assert_eq!(version.text, "adev 0.1.0\n");
    assert!(!version.is_error);
    let wrong = try_parse(&["adev", "scna"]).unwrap_err();
    assert!(wrong.is_error);
    assert_eq!(wrong.exit_code(), 2);
    assert!(wrong.text.contains("unrecognized subcommand"));
}

#[test]
fn logs_start_so_many_lines_back_by_letter_too() {
    assert_eq!(
        parse(&["adev", "logs", "mysql", "-f", "-n", "20"]).command,
        Command::Logs {
            service: "mysql".to_string(),
            follow: true,
            tail: Some(20),
        }
    );
    assert!(try_parse(&["adev", "logs", "mysql", "-n", "4294967296"]).is_err());
    assert!(try_parse(&["adev", "kill", "65536"]).is_err());
    assert!(matches!(
        parse(&["adev", "kill", "65535"]).command,
        Command::Kill { port: 65535, .. }
    ));
}

#[test]
fn the_configuration_can_be_written_and_edited() {
    assert_eq!(
        parse(&["adev", "config", "--init", "--force"]).command,
        Command::Config {
            init: true,
            edit: false,
            force: true,
        }
    );
}

#[test]
fn what_was_found_is_a_request_or_nothing() {
    let root = level("adev", &[("config", &["a.toml"])]);
    let found = vec![root.clone(), level("run", &[("project", &["shop"]), ("print", &["true"])])];
    assert_eq!(
        Cli::from_levels(&found),
        Some(Cli {
            config: Some("a.toml".to_string()),
            command: Command::Run {
                project: "shop".to_string(),
                print: true,
            },
        })
    );
    assert_eq!(Cli::from_levels(&[]), None);
    assert_eq!(Cli::from_levels(&[root.clone()]), None);
    assert_eq!(Cli::from_levels(&[root.clone(), level("run", &[])]), None);
    assert_eq!(Cli::from_levels(&[root.clone(), level("db", &[])]), None);
    assert_eq!(Cli::from_levels(&[root, level("juggle", &[])]), None);
}

#[test]
fn a_database_import_lacks_nothing() {
    assert!(try_parse(&["adev", "db", "import", "mysql", "--database", "shop"]).is_err());
    assert!(try_parse(&["adev", "db"]).unwrap_err().is_error);
}

#[test]
fn an_empty_path_names_nothing() {
    assert!(try_parse(&["adev", "--config", "", "scan"]).unwrap_err().is_error);
    assert!(try_parse(&["adev", "db", "backup", "--out", ""]).is_err());
    let import = ["adev", "db", "import", "mysql", "--database", "shop", "--file", ""];
    assert!(try_parse(&import).is_err());
}

#[test]
fn the_program_is_shown_by_its_name_alone() {
    let usage = |program: &str| try_parse(&[program, "--help"]).unwrap_err().text;
    assert!(usage("/usr/local/bin/adev-next").contains("Usage: adev-next "));
    assert!(usage("C:\\tools\\adev.exe").contains("Usage: adev.exe "));
    assert!(usage("").contains("Usage: adev "));
    assert!(usage("/opt/..").contains("Usage: adev "));
    assert!(try_parse(&[]).is_err());
}
