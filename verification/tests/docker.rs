use aether_dev::docker::{
    base_url, is_localhost, parse_containers, record_probes, DockerError, HttpDockerClient,
};
use aether_dev::domain::ServiceState;

/// Trimmed from a real daemon (API 1.55), so the field names
/// and shapes are the real ones rather than a guess about Docker's format.
const REAL_RESPONSE: &str = r#"[
  {
    "Names": ["/caddy-proxy"],
    "Image": "caddy:alpine",
    "State": "running",
    "Status": "Up 27 minutes",
    "Ports": [
      {"IP":"0.0.0.0","PrivatePort":80,"PublicPort":80,"Type":"tcp"},
      {"IP":"::","PrivatePort":80,"PublicPort":80,"Type":"tcp"},
      {"IP":"","PrivatePort":2019,"Type":"tcp"},
      {"IP":"","PrivatePort":443,"Type":"udp"}
    ],
    "Labels": {"com.docker.compose.service":"caddy","com.docker.compose.project":"db-stack"}
  },
  {
    "Names": ["/docker-tcp-proxy"],
    "Image": "alpine/socat",
    "State": "exited",
    "Status": "Exited (0) 2 minutes ago",
    "Ports": [],
    "Labels": {}
  }
]"#;

#[test]
fn a_service_takes_its_name_from_the_compose_label() {
    let services = parse_containers(REAL_RESPONSE).unwrap();
    assert_eq!(services[0].container, "caddy-proxy");
    assert_eq!(services[0].service, "caddy");
}

#[test]
fn a_container_outside_compose_falls_back_to_its_own_name() {
    let services = parse_containers(REAL_RESPONSE).unwrap();
    assert_eq!(services[1].container, "docker-tcp-proxy");
    assert_eq!(services[1].service, "docker-tcp-proxy");
}

#[test]
fn only_published_tcp_ports_count_as_the_service_port() {
    let services = parse_containers(REAL_RESPONSE).unwrap();
    assert_eq!(
        services[0].port,
        Some(80),
        "2019 is unpublished and 443 is udp; neither is how you reach this service"
    );
    assert_eq!(services[1].port, None);
}

#[test]
fn a_state_other_than_running_is_stopped() {
    let services = parse_containers(REAL_RESPONSE).unwrap();
    assert_eq!(services[0].state, ServiceState::Running);
    assert_eq!(services[1].state, ServiceState::Stopped);
}

#[test]
fn a_freshly_listed_service_is_not_yet_known_to_be_reachable() {
    let services = parse_containers(REAL_RESPONSE).unwrap();
    assert!(
        !services[0].port_open,
        "the daemon says running; only a connection says reachable"
    );
}

#[test]
fn malformed_json_is_an_error_rather_than_an_empty_list() {
    let err = parse_containers("{not json").unwrap_err();
    assert!(matches!(err, DockerError::Malformed(_)), "got {err:?}");
}

#[test]
fn a_tcp_endpoint_becomes_an_http_base_url() {
    assert_eq!(
        base_url("tcp://127.0.0.1:2375", None).unwrap(),
        "http://127.0.0.1:2375"
    );
    assert_eq!(
        base_url("http://localhost:2375", None).unwrap(),
        "http://localhost:2375"
    );
}

#[test]
fn auto_follows_docker_host_the_way_every_other_docker_client_does() {
    assert_eq!(
        base_url("auto", Some("tcp://localhost:2375")).unwrap(),
        "http://localhost:2375"
    );
}

#[test]
fn auto_without_docker_host_says_what_to_configure_instead_of_guessing() {
    let err = base_url("auto", None).unwrap_err();
    assert!(matches!(err, DockerError::NoEndpoint), "got {err:?}");
    assert!(err.to_string().contains("docker.endpoint"));
}

#[test]
fn transports_that_are_not_built_yet_are_named_not_silently_ignored() {
    let err = base_url("unix:///var/run/docker.sock", None).unwrap_err();
    assert!(
        matches!(err, DockerError::UnsupportedTransport(_)),
        "got {err:?}"
    );
    let err = base_url("npipe:////./pipe/docker_engine", None).unwrap_err();
    assert!(
        matches!(err, DockerError::UnsupportedTransport(_)),
        "got {err:?}"
    );
}

#[test]
fn running_plus_an_answering_port_is_what_reachable_means() {
    let mut services = parse_containers(REAL_RESPONSE).unwrap();
    services[0].port = Some(8080);
    record_probes(&mut services, &vec![true, false]);
    assert!(services[0].is_reachable());
    assert!(
        !services[1].is_reachable(),
        "a stopped container has nothing to answer"
    );
}

/// Same container, ports listed in the other order. Docker does not
/// promise an order, and the answer must not depend on one.
const REVERSED_PORTS: &str = r#"[
  {
    "Names": ["/caddy-proxy"],
    "State": "running",
    "Ports": [
      {"IP":"0.0.0.0","PrivatePort":443,"PublicPort":443,"Type":"tcp"},
      {"IP":"0.0.0.0","PrivatePort":80,"PublicPort":80,"Type":"tcp"}
    ],
    "Labels": {"com.docker.compose.service":"caddy"}
  }
]"#;

#[test]
fn the_service_port_does_not_depend_on_the_order_docker_listed_them() {
    let forward = parse_containers(REAL_RESPONSE).unwrap()[0].port;
    let reversed = parse_containers(REVERSED_PORTS).unwrap()[0].port;
    assert_eq!(
        forward, reversed,
        "two calls to the same daemon reported different ports for one service"
    );
    assert_eq!(forward, Some(80));
}

#[test]
fn a_daemon_named_localhost_is_reached_over_ipv4() {
    assert!(is_localhost("http://localhost:2375"));
    assert!(is_localhost("https://localhost"));
    assert!(is_localhost("http://localhost/engine:1"));
    assert!(!is_localhost("http://127.0.0.1:2375"));
    assert!(!is_localhost("http://localhost.example:2375"));
    assert!(!is_localhost("localhost:2375"));
    let named = HttpDockerClient::new("auto", Some("tcp://localhost:2375")).unwrap();
    assert!(named.is_pinned_to_ipv4());
    assert_eq!(named.endpoint(), "http://localhost:2375");
    let numbered = HttpDockerClient::new("tcp://127.0.0.1:2375", None).unwrap();
    assert!(!numbered.is_pinned_to_ipv4());
}
