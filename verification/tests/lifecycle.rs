use aether_dev::catalog::ServiceConfig;
use aether_dev::domain::{ServiceState, ServiceStatus};
use aether_dev::lifecycle::{
    account_for, container_of, ended_with, fill_memory, find_service, local_url, panel_for,
    report_action, say, service_url, steps, Action, Step,
};

fn service(name: &str, state: ServiceState) -> ServiceStatus {
    ServiceStatus {
        container: format!("{name}-db"),
        service: name.to_string(),
        port: None,
        state,
        port_open: false,
        memory_bytes: None,
    }
}

fn services() -> Vec<ServiceStatus> {
    vec![
        service("mysql", ServiceState::Running),
        service("redis", ServiceState::Stopped),
        service("mongo", ServiceState::Absent),
    ]
}

fn names(of: &[&str]) -> Vec<String> {
    of.iter().map(|name| (*name).to_string()).collect()
}

#[test]
fn a_service_goes_by_its_name_and_by_its_container() {
    assert_eq!(find_service(&services(), "mysql").unwrap().container, "mysql-db");
    assert_eq!(find_service(&services(), "redis-db").unwrap().service, "redis");
    assert!(find_service(&services(), "kafka").is_none());
}

#[test]
fn every_name_gets_its_own_answer() {
    let planned = steps(&services(), &names(&["mysql", "kafka", "mongo"]), false);
    assert_eq!(planned.len(), 3);
    assert!(matches!(&planned[0], Step::Act { container } if container == "mysql-db"));
    assert!(matches!(&planned[1], Step::Refuse(text) if text == "no service called \"kafka\""));
    assert!(matches!(
        &planned[2],
        Step::Refuse(text) if text == "\"mongo\" is declared but has no container called \
            \"mongo-db\" — create it first (docker compose up -d mongo)"
    ));
}

#[test]
fn all_means_every_service_that_has_a_container() {
    let planned = steps(&services(), &[], true);
    assert_eq!(planned.len(), 2);
    assert!(planned.iter().all(|step| matches!(step, Step::Act { .. })));
}

#[test]
fn a_name_nobody_knows_is_answered_with_those_that_are() {
    assert_eq!(container_of(&services(), "redis").unwrap(), "redis-db");
    assert_eq!(
        container_of(&services(), "kafka").unwrap_err(),
        "no service called \"kafka\"; known: mysql, redis, mongo"
    );
    assert!(container_of(&services(), "mongo").unwrap_err().contains("create it first"));
}

#[test]
fn what_was_done_is_said() {
    assert_eq!(
        report_action(Action::Start, "mysql-db", &None),
        Ok("started mysql-db".to_string())
    );
    assert_eq!(
        report_action(Action::Stop, "mysql-db", &Some("gone".to_string())),
        Err("mysql-db could not be stopped: gone".to_string())
    );
    assert_eq!(Action::Restart.done(), "restarted");
    assert_eq!(Action::Restart.doing(), "restarting");
}

#[test]
fn the_account_is_the_one_declared_for_the_service_or_its_container() {
    let declared = vec![(
        "db".to_string(),
        ServiceConfig {
            container: Some("mysql-db".to_string()),
            user: Some("dump".to_string()),
            panel: Some("http://localhost:8080".to_string()),
            ..ServiceConfig::default()
        },
    )];
    assert_eq!(account_for(&declared, "db").user.as_deref(), Some("dump"));
    assert_eq!(account_for(&declared, "mysql-db").user.as_deref(), Some("dump"));
    assert_eq!(account_for(&declared, "other").user, None);
    assert_eq!(
        panel_for(&declared, "mysql-db").as_deref(),
        Some("http://localhost:8080")
    );
    assert_eq!(panel_for(&declared, "other"), None);
}

#[test]
fn a_service_opens_at_the_port_it_publishes() {
    let mut known = services();
    known[0].port = Some(3306);
    assert_eq!(local_url(3306), "http://localhost:3306");
    assert_eq!(
        service_url(&known, "mysql"),
        Some(Ok("http://localhost:3306".to_string()))
    );
    assert_eq!(
        service_url(&known, "redis"),
        Some(Err("redis publishes no port to open".to_string()))
    );
    assert_eq!(service_url(&known, "shop"), None);
}

#[test]
fn only_a_running_service_uses_memory() {
    let mut known = services();
    fill_memory(&mut known, &vec![Some(10), Some(20), Some(30)]);
    assert_eq!(known[0].memory_bytes, Some(10));
    assert_eq!(known[1].memory_bytes, None);
    assert_eq!(known[2].memory_bytes, None);
}

#[test]
fn a_command_succeeds_only_where_every_name_was_acted_on() {
    let act = |asked: &[&str], failure: Option<&str>| {
        let said: Vec<Result<String, String>> = steps(&services(), &names(asked), false)
            .iter()
            .map(|step| say(Action::Start, step, &failure.map(str::to_string)))
            .collect();
        ended_with(&said)
    };
    assert_eq!(act(&["mysql", "redis"], None), 0);
    assert_eq!(act(&["mysql", "kafka", "redis"], None), 2);
    assert_eq!(act(&["mongo"], None), 2);
    assert_eq!(act(&["mysql"], Some("refused")), 2);
    assert_eq!(act(&[], None), 0);
    let refused = Step::Refuse("no".to_string());
    assert_eq!(say(Action::Stop, &refused, &None).unwrap_err(), "no");
}
