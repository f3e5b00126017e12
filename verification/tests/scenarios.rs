use aether_dev::config::{Config, ConfigError};
use aether_dev::docker::HttpDockerClient;
use aether_dev::domain::{GitStatus, Project, Stack};
use aether_dev::environment::{env_lines, toolchains_for};
use aether_dev::launch::locate_project;
use aether_dev::platform::Platform;
use aether_dev::ports::{collect, ScanEvent, ScanOutcome};
use aether_dev::report::scan_lines;
use aether_dev::routes::{listing, routes_of};
use aether_dev::scan::{report, walk, Entry, Found};
use aether_dev::settings::settings_report;
use aether_dev::starter::{starter, FoundTool};

fn directory(name: &str, markers: &[&str]) -> Entry {
    Entry {
        name: name.to_string(),
        path: format!("projects/{name}"),
        is_dir: true,
        markers: markers.iter().map(|marker| (*marker).to_string()).collect(),
    }
}

/// A directory holding two projects: one Laravel, one plain Node.
fn workspace() -> ScanOutcome {
    let entries = vec![
        directory("shop-web", &["artisan", "composer.json"]),
        directory("tools-ui", &["package.json"]),
    ];
    let visit = walk(&Config::default(Platform::Linux).project, &None, 1, &entries);
    let mut events: Vec<ScanEvent> = visit
        .found
        .into_iter()
        .map(|found| match found {
            Found::Project(candidate) => {
                report(candidate, None, Ok(GitStatus::not_a_repository()))
            }
            Found::Descend { name, .. } => panic!("{name} is a project"),
        })
        .collect();
    events.push(ScanEvent::Finished {
        scanned: visit.examined,
    });
    collect(events)
}

fn nothing() -> ScanOutcome {
    collect(vec![ScanEvent::Finished { scanned: 0 }])
}

fn roots() -> Vec<String> {
    vec!["projects".to_string()]
}

#[test]
fn scanning_finds_the_projects_and_says_what_each_one_is_built_with() {
    let text = scan_lines(&workspace(), "0.01", &roots(), &None).join("\n");
    assert!(text.contains("shop-web"), "got {text}");
    assert!(text.contains("tools-ui"), "got {text}");
    assert!(
        text.contains("Laravel"),
        "artisan beside composer.json is Laravel, not plain PHP; got {text}"
    );
    assert!(text.contains("2 projects"), "got {text}");
}

#[test]
fn a_first_run_with_no_configuration_says_where_it_looked_and_what_to_do() {
    let text = scan_lines(&nothing(), "0.01", &roots(), &None).join("\n");
    assert!(text.contains("0 projects"), "got {text}");
    assert!(text.contains("looked in"), "where it looked; got {text}");
    assert!(
        text.contains("adev config --init"),
        "and what to do about it; got {text}"
    );
}

#[test]
fn a_configuration_that_was_found_is_not_told_how_to_write_one() {
    let chosen = Some("explicit.toml".to_string());
    let text = scan_lines(&nothing(), "0.01", &roots(), &chosen).join("\n");
    assert!(text.contains("0 projects"));
    assert!(
        !text.contains("adev config --init"),
        "somebody who has a configuration and meant to scan an empty directory \
         does not need setting up; got {text}"
    );
}

#[test]
fn config_says_which_file_it_read_and_what_is_in_force() {
    let chosen = Some("aether.toml".to_string());
    let text = settings_report(&Config::default(Platform::Linux), &chosen, "aether.toml", &vec![]).join("\n");
    assert!(text.contains("aether.toml"), "which file; got {text}");
    assert!(
        text.contains("[project]") && text.contains("[docker]"),
        "got {text}"
    );
}

#[test]
fn what_config_init_writes_is_a_file_the_next_run_can_read() {
    let tools = [FoundTool {
        tool: "php".to_string(),
        search: "C:\\laragon\\bin\\php".to_string(),
        binary: "php.exe".to_string(),
    }];
    let places = vec!["C:\\My \"Work\"".to_string(), "/srv".to_string()];
    let written = starter(&places, "tcp://localhost:2375", &tools);
    let reread = Config::from_toml_str(Platform::Linux, &written).expect("a generated config that will not load");
    assert_eq!(reread.project.roots, places);
    assert_eq!(reread.docker.endpoint, "tcp://localhost:2375");
    assert_eq!(reread.toolchain[0].0, "php");
    assert_eq!(reread.toolchain[0].1.search, vec!["C:\\laragon\\bin\\php"]);
    assert_eq!(reread.toolchain[0].1.binary, "php.exe");
}

#[test]
fn an_unknown_setting_is_refused_rather_than_ignored() {
    let error = Config::from_toml_str(Platform::Linux, "[scan]\nworkerz = 4\n").unwrap_err();
    assert!(
        error.to_string().contains("workerz"),
        "the message has to name it; got {error:?}"
    );
}

#[test]
fn a_configuration_file_that_is_not_there_is_an_error_naming_it() {
    let missing = Some(("nowhere.toml", Err("not found".to_string())));
    let error = Config::load(Platform::Linux, missing).unwrap_err();
    assert!(error.to_string().contains("nowhere.toml"), "got {error:?}");
}

#[test]
fn a_setting_that_parses_but_cannot_work_is_refused_at_startup() {
    let error = Config::from_toml_str(Platform::Linux, "[scan]\nworkers = 0\n").unwrap_err();
    assert!(matches!(error, ConfigError::Invalid { .. }));
    assert!(
        error.to_string().contains("workers"),
        "the field has to be named; got {error:?}"
    );
}

#[test]
fn a_service_command_without_docker_says_so_instead_of_reporting_nothing() {
    let config = Config::from_toml_str(Platform::Linux, "[docker]\nendpoint = \"tcp://127.0.0.1:1\"\n").unwrap();
    let client = HttpDockerClient::new(&config.docker.endpoint, None).ok().unwrap();
    let complaint = client
        .services(Err("connection refused".to_string()))
        .unwrap_err()
        .to_string();
    assert!(
        complaint.contains("127.0.0.1:1"),
        "it has to say what it could not reach; got {complaint}"
    );
}

#[test]
fn domains_reports_where_its_answer_came_from_even_when_there_is_none() {
    let config = Config::from_toml_str(Platform::Linux, "").unwrap();
    let routes = routes_of(&[], &[], &config.caddy.domains).unwrap();
    let text = listing(&[], &routes, &config.caddy.domains).join("\n");
    assert!(
        text.contains("0 routed") && text.contains("domains.toml"),
        "an unconfigured file and no routes look the same unless it says which; got {text}"
    );
}

#[test]
fn a_project_with_no_toolchain_configured_is_told_so_plainly() {
    let choices = toolchains_for(&[], &["artisan", "composer.json"]);
    let (lines, unresolved) = env_lines("shop-web", "projects/shop-web", &choices);
    assert!(!unresolved);
    assert!(lines.join("\n").contains("resolves no toolchain"));
}

#[test]
fn naming_a_project_that_does_not_exist_fails_and_says_which_one() {
    let found: Vec<Project> = workspace().projects;
    assert_eq!(found[0].stack, Stack::Laravel);
    let reason = locate_project(&found, "no-such-project").unwrap_err();
    assert!(reason.contains("no-such-project"), "got {reason}");
}
