use aether_dev::catalog::{merge, ServiceConfig};
use aether_dev::config::Config;
use aether_dev::db::{dump_plan, restore_plan, value_of, Engine};
use aether_dev::docker::parse_containers;
use aether_dev::domain::{GitStatus, Project, ServiceState, ServiceStatus, Stack};
use aether_dev::dotenv::{active, candidates};
use aether_dev::framework::{detect, go_directive, loosen, toml_string_value, Manifests};
use aether_dev::git::parse_porcelain;
use aether_dev::listen::{parse_netstat, parse_ss};
use aether_dev::open::command_line;
use aether_dev::recipe::{plan_for, split, RunOverride};
use aether_dev::scan::{markers_in, walks_into};
use aether_dev::toolchain::{resolve, select, version_in, Installed, Reason, Version};
use aether_dev::tui::{Dashboard, Tab, Update};
use aether_dev::platform::Platform;

fn texts(of: &[&str]) -> Vec<String> {
    of.iter().map(|text| (*text).to_string()).collect()
}

fn service(container: &str, service: &str) -> ServiceStatus {
    ServiceStatus {
        container: container.to_string(),
        service: service.to_string(),
        port: Some(80),
        state: ServiceState::Running,
        port_open: true,
        memory_bytes: None,
    }
}

#[test]
fn every_declared_and_every_running_service_is_listed_once() {
    let declared = vec![
        ("db".to_string(), ServiceConfig::default()),
        (
            "mail".to_string(),
            ServiceConfig {
                container: Some("mailpit".to_string()),
                ..ServiceConfig::default()
            },
        ),
    ];
    let rows = merge(&declared, &[service("mailpit", "mailpit"), service("stray", "stray")]);
    let names: Vec<&str> = rows.iter().map(|row| row.service.as_str()).collect();
    assert_eq!(names, vec!["db", "mail", "stray"]);
    assert_eq!(rows[0].state, ServiceState::Absent);
}

#[test]
fn an_empty_file_is_the_defaults() {
    assert_eq!(Config::from_toml_str(Platform::Linux, "").unwrap(), Config::default(Platform::Linux));
    let one = Config::from_toml_str(Platform::Linux, "[backup]\ngzip = true\n").unwrap();
    assert!(one.backup.gzip);
    assert_eq!(one.ports, Config::default(Platform::Linux).ports);
    assert_eq!(one.backup.directory, Config::default(Platform::Linux).backup.directory);
}

#[test]
fn the_password_does_not_change_the_command() {
    let with = |password: &str| vec![format!("MYSQL_ROOT_PASSWORD={password}")];
    let one = dump_plan(Engine::MySql, "shop", &with("a=b")).unwrap();
    let other = dump_plan(Engine::MySql, "shop", &with("c")).unwrap();
    assert_eq!(one.command, other.command);
    assert_eq!(one.env, vec!["MYSQL_PWD=a=b"]);
    assert_eq!(value_of(&with("a=b"), "MYSQL_ROOT_PASSWORD").as_deref(), Some("a=b"));
}

#[test]
fn the_restore_script_does_not_depend_on_what_is_restored() {
    let env = texts(&["MYSQL_ROOT_PASSWORD=x"]);
    let one = restore_plan(Engine::MySql, "shop", "/tmp/a", &env).unwrap();
    let other = restore_plan(Engine::MySql, "api", "/tmp/b; rm", &env).unwrap();
    assert_eq!(one.command[2], other.command[2]);
    assert_eq!(one.command[2], "mysql --user=root \"$1\" < \"$2\"");
    assert_eq!(other.command[5], "/tmp/b; rm");
}

#[test]
fn docker_is_read_whichever_way_a_record_is_written() {
    let read = |json: &str| parse_containers(json).unwrap();
    let one = read(
        r#"[{"Names":["/web"],"State":"running","Ports":[{"PublicPort":443,"Type":"tcp"},{"PublicPort":80,"Type":"tcp"}],"Labels":{}}]"#,
    );
    assert_eq!(one[0].port, Some(80));
    assert!(!one[0].is_reachable(), "listed is not reachable");
    assert!(parse_containers("[{\"State\":1}]").is_err());
    assert!(parse_containers("{}").is_err());
}

#[test]
fn a_stack_does_not_depend_on_the_order_of_its_markers() {
    let forward = ["package.json", "artisan", "composer.json"];
    let backward = ["composer.json", "artisan", "package.json"];
    assert_eq!(Stack::from_markers(&forward), Stack::from_markers(&backward));
    assert_eq!(GitStatus::clean("main").badge(), "");
}

#[test]
fn what_is_active_is_a_copy_of_it() {
    let offered = candidates(&texts(&[".env", ".env.a", ".envrc", ".env.bak"]));
    assert_eq!(offered, texts(&[".env.a", ".envrc"]));
    let variants = vec![
        (".env.a".to_string(), "X=1".to_string()),
        (".env.b".to_string(), "X=1".to_string()),
    ];
    assert_eq!(active("X=1", &variants).as_deref(), Some(".env.a"));
    assert_eq!(active("X=2", &variants), None);
}

#[test]
fn the_pieces_of_a_framework_are_read() {
    assert_eq!(loosen("^11.0").as_deref(), Some("11.0"));
    assert_eq!(loosen("latest"), None);
    assert_eq!(go_directive("module x\n\ngo 1.22\n").as_deref(), Some("1.22"));
    assert_eq!(
        toml_string_value("name = \"x\"\nedition = \"2021\"\n", "edition").as_deref(),
        Some("2021")
    );
    let both = Manifests {
        laravel_application_php: Some("const VERSION = '11.9.2';"),
        ..Manifests::default()
    };
    assert_eq!(detect(&both).as_deref(), Some("Laravel 11.9.2"));
    assert_eq!(detect(&Manifests::default()), None);
}

#[test]
fn every_entry_of_git_is_counted_once() {
    let (modified, untracked) = parse_porcelain(" M a\n?? b\nD  c\n\n");
    assert_eq!(modified + untracked, 3);
}

#[test]
fn a_port_is_listed_once_and_in_order() {
    let found = parse_netstat(
        "TCP 0.0.0.0:445 0.0.0.0:0 LISTENING 4\nTCP [::]:445 [::]:0 LISTENING 4\n\
         TCP 0.0.0.0:22 0.0.0.0:0 LISTENING 9\n",
    );
    let ports: Vec<u16> = found.iter().map(|listener| listener.port).collect();
    assert_eq!(ports, vec![22, 445]);
    let found = parse_ss("LISTEN 0 1 *:9 *:*\nLISTEN 0 1 *:8 *:*\n");
    assert_eq!(found[0].port, 8);
}

#[test]
fn a_command_opens_its_target_whether_or_not_it_says_where() {
    for template in [texts(&["open"]), texts(&["open", "{}"])] {
        assert_eq!(command_line(&template, "x").unwrap(), texts(&["open", "x"]));
    }
}

#[test]
fn a_project_beats_its_recipe_and_nothing_is_guessed() {
    let over = |command: &str| RunOverride {
        command: Some(command.to_string()),
        port: None,
    };
    let recipes = vec![("laravel".to_string(), over("recipe"))];
    let projects = vec![("shop".to_string(), over("project"))];
    let plan = |name: &str, present: &[&str]| plan_for(name, present, &recipes, &projects);
    assert_eq!(plan("shop", &["artisan"]).unwrap().command, "project");
    assert_eq!(plan("api", &["artisan"]).unwrap().command, "recipe");
    assert!(plan("api", &["README.md"]).is_none());
}

#[test]
fn a_command_splits_into_words_and_quoted_arguments() {
    assert_eq!(split(" a  b "), texts(&["a", "b"]));
    assert_eq!(split("sh -c 'a b' \"c d\""), texts(&["sh", "-c", "a b", "c d"]));
}

#[test]
fn hidden_and_ignored_directories_are_never_entered() {
    let config = Config::default(Platform::Linux).project;
    assert!(!walks_into(&config, "node_modules"));
    assert!(!walks_into(&config, ".git"));
    assert!(!walks_into(&config, ".cache"));
    assert!(walks_into(&config, "src"));
    assert_eq!(markers_in(&vec![false; 6]), Vec::<String>::new());
}

fn installed(labels: &[&str]) -> Vec<Installed> {
    labels
        .iter()
        .map(|label| Installed {
            label: (*label).to_string(),
            version: version_in(label).unwrap(),
            path: format!("/{label}"),
        })
        .collect()
}

#[test]
fn a_written_version_reads_back() {
    let version = Version {
        major: 8,
        minor: 3,
        patch: 6,
    };
    assert_eq!(version_in(&version.to_string()), Some(version));
    assert_eq!(version_in("php-8.3.6"), Some(version));
    assert_eq!(version_in("8.3").unwrap().to_string(), "8.3.0");
    assert_eq!(version_in("php-8.1-Win32"), version_in("8.1.0"));
    assert_eq!(version_in("08.1.0"), None, "no number has a zero in front of it");
    assert_eq!(version_in("99999999999999999999.1.0"), None);
}

#[test]
fn a_bare_version_is_pinned_and_a_caret_is_not() {
    let choices = installed(&["8.1.2", "8.1.9", "8.3.6", "9.0.0"]);
    assert_eq!(select(&choices, "8.1").unwrap().label, "8.1.9");
    assert_eq!(select(&choices, "8.1.2").unwrap().label, "8.1.2");
    assert_eq!(select(&choices, "8").unwrap().label, "8.3.6");
    assert_eq!(select(&choices, "^8.1").unwrap().label, "8.3.6");
    assert!(select(&choices, "7.4").is_none());
}

#[test]
fn the_reasons_are_told_apart() {
    let choices = installed(&["8.1.2"]);
    assert_eq!(resolve(&choices, Some("8.1"), Some("^7.0")).reason, Reason::Pinned);
    assert_eq!(resolve(&choices, None, Some("^8.0")).reason, Reason::Declared);
    assert_eq!(resolve(&choices, None, None).reason, Reason::Newest);
    assert_eq!(
        resolve(&choices, Some("^9.0"), None).reason,
        Reason::NothingSatisfies
    );
    assert_eq!(resolve(&[], None, None).reason, Reason::NoneInstalled);
}

#[test]
fn the_cursor_is_on_what_the_list_shows() {
    let mut dashboard = Dashboard::new();
    dashboard.apply(Update::Project(Project {
        name: "shop".to_string(),
        category: None,
        path: "/srv/shop".to_string(),
        stack: Stack::Rust,
        framework: None,
        git: GitStatus::clean("main"),
    }));
    let mut quiet = service("worker", "worker");
    quiet.port = None;
    dashboard.apply(Update::Services(vec![quiet, service("web", "web")]));
    assert_eq!(dashboard.selected_project().unwrap().name, "shop");
    assert!(dashboard.selected_service().is_none());
    dashboard.set_tab(Tab::Services);
    assert!(dashboard.selected_project().is_none());
    assert_eq!(dashboard.selected_service().unwrap().service, "worker");
    dashboard.set_tab(Tab::Ports);
    assert_eq!(dashboard.selected_service().unwrap().service, "web");
    assert_eq!(Tab::Projects.previous(), Tab::Ports);
    dashboard.begin_refresh();
    dashboard.set_tab(Tab::Projects);
    assert!(dashboard.selected_project().is_none());
}

#[test]
fn an_unknown_key_is_refused_in_every_section() {
    for section in [
        "project", "scan", "docker", "caddy", "ports", "open", "memory", "tools", "backup",
        "toolchain.php", "recipe.laravel", "run.shop", "service.mysql",
    ] {
        let error = Config::from_toml_str(Platform::Linux, &format!("[{section}]\ntypo = 1\n"));
        assert_eq!(
            error.unwrap_err().to_string(),
            format!("config is not valid TOML: unknown key `typo` in [{section}]")
        );
    }
    let probe = "[ports]\nprobe = [{ command = [\"ss\"], format = \"ss\", typo = 1 }]\n";
    assert!(Config::from_toml_str(Platform::Linux, probe).is_err());
}

#[test]
fn a_key_that_is_not_mentioned_keeps_its_default() {
    for platform in [Platform::Linux, Platform::MacOs, Platform::Windows, Platform::Other] {
        let usual = Config::default(platform);
        let text = "[project]\nmax_depth = 9\n[caddy]\ncontainer = \"edge\"\n[open]\nbrowser = []\n\
                    [memory]\ninterval_secs = 7\n[tools]\ngit = \"hub\"\n[ports]\nnames = []\n\
                    [service.db]\nport = 3306\n[run.shop]\nport = 80\n";
        let config = Config::from_toml_str(platform, text).unwrap();
        assert_eq!(config.project.roots, usual.project.roots);
        assert_eq!(config.project.ignore, usual.project.ignore);
        assert_eq!(config.caddy.domains, usual.caddy.domains);
        assert_eq!(config.open.file_manager, usual.open.file_manager);
        assert_eq!(config.memory.guest, usual.memory.guest);
        assert_eq!(config.tools.kill, usual.tools.kill);
        assert_eq!(config.ports.probe, usual.ports.probe);
        assert_eq!(config.service[0].1.container, None);
        assert_eq!(config.run[0].1.command, None);
        assert_eq!(config.backup, usual.backup);
    }
}
