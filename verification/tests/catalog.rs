use aether_dev::catalog::{merge, service_domains, ServiceConfig};
use aether_dev::domain::{ServiceState, ServiceStatus};

fn declared(entries: &[(&str, ServiceConfig)]) -> Vec<(String, ServiceConfig)> {
    entries
        .iter()
        .map(|(name, settings)| ((*name).to_string(), settings.clone()))
        .collect()
}

fn running(container: &str, service: &str, port: Option<u16>) -> ServiceStatus {
    ServiceStatus {
        container: container.to_string(),
        service: service.to_string(),
        port,
        state: ServiceState::Running,
        port_open: true,
        memory_bytes: None,
    }
}

#[test]
fn a_service_nobody_has_started_is_still_listed() {
    let merged = merge(
        &declared(&[(
            "mongodb",
            ServiceConfig {
                container: Some("mongo-db".to_string()),
                port: Some(27017),
                ..ServiceConfig::default()
            },
        )]),
        &[],
    );
    assert_eq!(merged.len(), 1);
    assert_eq!(merged[0].state, ServiceState::Absent);
    assert_eq!(
        merged[0].port,
        Some(27017),
        "a service you cannot see is a service you cannot start"
    );
}

#[test]
fn a_stopped_container_keeps_the_port_it_was_declared_with() {
    let stopped = ServiceStatus {
        state: ServiceState::Stopped,
        port_open: false,
        // Docker reports no ports for a container that is not running.
        ..running("pg", "postgres", None)
    };
    let merged = merge(
        &declared(&[(
            "postgres",
            ServiceConfig {
                container: Some("pg".to_string()),
                port: Some(5432),
                ..ServiceConfig::default()
            },
        )]),
        &[stopped],
    );
    assert_eq!(
        merged[0].port,
        Some(5432),
        "a row that loses its port the moment it stops cannot be used to start it"
    );
}

#[test]
fn a_running_container_keeps_the_port_it_actually_published() {
    let merged = merge(
        &declared(&[(
            "mysql",
            ServiceConfig {
                container: Some("mysql-db".to_string()),
                port: Some(3306),
                ..ServiceConfig::default()
            },
        )]),
        &[running("mysql-db", "mysql", Some(33061))],
    );
    assert_eq!(
        merged[0].port,
        Some(33061),
        "what is actually published beats what somebody wrote down"
    );
}

#[test]
fn a_container_nobody_declared_is_not_hidden() {
    let merged = merge(&[], &[running("stray", "stray", Some(9999))]);
    assert_eq!(merged.len(), 1);
    assert_eq!(merged[0].service, "stray");
}

#[test]
fn the_declared_name_is_the_one_shown() {
    let merged = merge(
        &declared(&[(
            "primary-database",
            ServiceConfig {
                container: Some("mysql-db".to_string()),
                ..ServiceConfig::default()
            },
        )]),
        &[running("mysql-db", "mysql", Some(3306))],
    );
    assert_eq!(merged.len(), 1, "the same container is not listed twice");
    assert_eq!(merged[0].service, "primary-database");
}

#[test]
fn a_service_that_names_no_container_uses_its_own_name() {
    let settings = ServiceConfig::default();
    assert_eq!(settings.container_for("redis"), "redis");
    let named = ServiceConfig {
        container: Some("redis-db".to_string()),
        ..ServiceConfig::default()
    };
    assert_eq!(named.container_for("redis"), "redis-db");
}

#[test]
fn a_service_that_names_a_domain_asks_for_a_route_to_its_container() {
    let routes = service_domains(&declared(&[(
        "dbgate",
        ServiceConfig {
            container: Some("dbgate-ui".to_string()),
            port: Some(19000),
            domain: Some("db.test".to_string()),
            ..ServiceConfig::default()
        },
    )]))
    .unwrap();
    assert_eq!(
        routes,
        vec![("db.test".to_string(), "dbgate-ui:19000".to_string())],
        "the proxy sits on docker's network, where the container is the address"
    );
}

#[test]
fn a_service_with_no_domain_asks_for_no_route() {
    let routes = service_domains(&declared(&[(
        "mysql",
        ServiceConfig {
            port: Some(3306),
            ..ServiceConfig::default()
        },
    )]))
    .unwrap();
    assert!(routes.is_empty());
}

#[test]
fn a_domain_with_no_port_behind_it_is_refused_by_name() {
    let err = service_domains(&declared(&[(
        "mailpit",
        ServiceConfig {
            domain: Some("mail.test".to_string()),
            ..ServiceConfig::default()
        },
    )]))
    .unwrap_err();
    assert!(
        err.to_string().contains("mailpit"),
        "a route to nowhere fails at request time, far from the config that caused it; \
         got {err:?}"
    );
}

#[test]
fn services_come_back_in_a_stable_order() {
    let merged = merge(
        &declared(&[
            ("zeta", ServiceConfig::default()),
            ("alpha", ServiceConfig::default()),
        ]),
        &[running("middle", "middle", None)],
    );
    let names: Vec<&str> = merged.iter().map(|s| s.service.as_str()).collect();
    assert_eq!(names, vec!["alpha", "middle", "zeta"]);
}
