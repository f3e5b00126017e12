use aether_dev::domain::{GitStatus, Project, ServiceState, ServiceStatus, Stack};
use aether_dev::listen::Listener;
use aether_dev::memory::Reading;
use aether_dev::ports::ScanOutcome;
use aether_dev::report::{
    dotenv_lines, kill_line, kill_target, nothing_found, port_rows, ports_lines, reading_lines,
    scan_lines, services_lines, switch_problem, switch_refusal, switched_lines,
};

fn texts(of: &[&str]) -> Vec<String> {
    of.iter().map(|text| (*text).to_string()).collect()
}

fn mysql() -> ServiceStatus {
    ServiceStatus {
        container: "mysql-db".to_string(),
        service: "mysql".to_string(),
        port: Some(3306),
        state: ServiceState::Running,
        port_open: true,
        memory_bytes: Some(5 * 1024 * 1024),
    }
}

fn listener(port: u16, pid: Option<u32>, process: Option<&str>) -> Listener {
    Listener {
        port,
        pid,
        process: process.map(str::to_string),
    }
}

#[test]
fn a_scan_prints_its_projects_its_failures_and_its_denominator() {
    let outcome = ScanOutcome {
        projects: vec![Project {
            name: "shop".to_string(),
            category: None,
            path: "/srv/shop".to_string(),
            stack: Stack::Laravel,
            framework: Some("Laravel 11.9.2".to_string()),
            git: GitStatus {
                branch: Some("main".to_string()),
                modified: 3,
                untracked: 2,
            },
        }],
        failures: vec![("locked".to_string(), "permission denied".to_string())],
        scanned: Some(7),
    };
    assert_eq!(
        scan_lines(&outcome, "0.42", &texts(&["."]), &None),
        vec![
            format!(
                "{:<30} {:<14} {:<18} {:<22} *3 ?2",
                "shop", "-", "Laravel 11.9.2", "main"
            ),
            format!("{:<30} locked (permission denied)", "! skipped"),
            String::new(),
            "1 projects, 1 roots skipped, 7 directories examined in 0.42s".to_string(),
        ]
    );
}

#[test]
fn a_scan_that_found_nothing_says_where_it_looked() {
    let nothing = ScanOutcome {
        projects: vec![],
        failures: vec![],
        scanned: None,
    };
    let lines = scan_lines(&nothing, "0.01", &texts(&[".", "/srv"]), &None);
    assert_eq!(lines[1], "0 projects, 0 roots skipped, ? directories examined in 0.01s");
    assert_eq!(lines[2], "looked in ., /srv");
    assert_eq!(lines[3], "no configuration file was found, so that is the default");
    assert_eq!(
        nothing_found(&texts(&["."]), &Some("aether.toml".to_string())),
        texts(&["looked in .", "as aether.toml says to"])
    );
}

#[test]
fn services_are_listed_with_what_they_are_good_for() {
    assert_eq!(
        services_lines(&[mysql()], false),
        vec![
            format!("{:<18} {:<24} {:<7} {:<9}", "mysql", "mysql-db", "3306", "ready"),
            String::new(),
            "1 services, 1 ready".to_string(),
        ]
    );
    assert_eq!(
        services_lines(&[mysql()], true)[0],
        format!(
            "{:<18} {:<24} {:<7} {:<9}  {:>9}",
            "mysql", "mysql-db", "3306", "ready", "5 MB"
        )
    );
}

#[test]
fn the_reading_names_both_sides() {
    let reading = Reading {
        guest_bytes: Some(3 * 1024 * 1024),
        host: Some(("vmmem".to_string(), 1024 * 1024)),
    };
    assert_eq!(
        reading_lines(&reading),
        texts(&["3 MB in use where the containers run", "1 MB of this machine, as vmmem"])
    );
    assert!(reading_lines(&Reading::default()).is_empty());
}

#[test]
fn a_port_names_the_service_behind_it() {
    let rows = port_rows(
        &[listener(22, None, None), listener(3306, Some(1085), Some("docker-proxy"))],
        &[mysql()],
    );
    assert_eq!(rows[0].service, None);
    assert_eq!(rows[1].service.as_deref(), Some("mysql"));
    assert!(rows[1].answering);
    assert_eq!(
        ports_lines(&rows),
        vec![
            format!("{:>6}  {:<28} {:<8} ", 22, "-", "-"),
            format!("{:>6}  {:<28} {:<8} mysql", 3306, "docker-proxy", 1085),
            String::new(),
            "2 ports listening, 1 of them docker services".to_string(),
        ]
    );
}

#[test]
fn what_holds_a_port_is_named_before_it_is_ended() {
    let listening = [listener(8000, Some(42), Some("php")), listener(22, None, None)];
    assert_eq!(kill_target(&listening, 8000), Ok((42, "php".to_string())));
    assert_eq!(
        kill_target(&listening, 22),
        Err("22 is held by a process this system would not name".to_string())
    );
    assert_eq!(
        kill_target(&listening, 9),
        Err("nothing is listening on 9".to_string())
    );
    assert_eq!(kill_line(42, "php", 8000, true), "would end php (42), which holds 8000");
    assert_eq!(kill_line(42, "php", 8000, false), "ended php (42); 8000 is free");
}

#[test]
fn the_dotenv_listing_marks_the_one_in_use() {
    let names = texts(&[".env.local", ".env.staging"]);
    assert_eq!(
        dotenv_lines("shop", &names, true, &Some(".env.local".to_string())),
        texts(&[
            "* .env.local",
            "  .env.staging",
            "",
            "* is the one .env currently matches"
        ])
    );
    assert_eq!(
        dotenv_lines("shop", &names, true, &None)[3],
        ".env matches none of these; it was edited or written by hand"
    );
    assert_eq!(dotenv_lines("shop", &names, false, &None)[3], "shop has no .env at all");
    assert_eq!(
        dotenv_lines("shop", &[], true, &None),
        texts(&["shop has no .env variants to switch between"])
    );
}

#[test]
fn only_a_variant_can_be_switched_to() {
    let names = texts(&[".env.local", ".env.staging"]);
    assert_eq!(switch_problem("shop", &names, ".env.local"), None);
    assert_eq!(
        switch_problem("shop", &names, ".env.prod").unwrap(),
        "shop has no .env.prod; it has .env.local, .env.staging"
    );
    assert_eq!(
        switch_problem("shop", &[], ".env.prod").unwrap(),
        "shop has no .env.prod; it has none"
    );
    assert_eq!(switch_refusal(&names, ".env.local"), None);
    assert_eq!(
        switch_refusal(&names, "x").unwrap(),
        "x is not one of: .env.local, .env.staging"
    );
}

#[test]
fn a_switch_says_where_the_old_file_is() {
    assert_eq!(
        switched_lines("shop", ".env.local", true),
        texts(&["shop now uses .env.local", "the previous .env is .env.bak"])
    );
    assert_eq!(
        switched_lines("shop", ".env.local", false),
        texts(&["shop now uses .env.local"])
    );
}
