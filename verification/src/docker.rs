//! Talking to the Docker Engine API.
//!
//! Split deliberately: reading the daemon's answer is a pure function, and the
//! transport is the thin part around it. That way the field names are tested
//! without needing Docker running, and only the socket work depends on the
//! machine.

use crate::domain::{ServiceState, ServiceStatus, ServiceStatusView};
use crate::entries::{entry_of, find_entry};
use crate::json::{
    json_document, lemma_items_view, member, member_of, parse, read_text_fields_member, read_texts,
    text_fields_member, text_fields_of, text_of, texts_of, Json, JsonView,
};
use crate::text::{
    begins_with, chars_of, find_char, find_text, index_of, law_a_text_is_found_where_it_stands,
    lemma_index_of, lemma_index_of_is, lemma_position_of, lemma_views_push, position_of, same,
    starts_with, string_of, trim_start_char, trimmed_start_of, views,
};
use vstd::prelude::*;
use vstd::slice::*;
use vstd::string::*;

verus! {

#[derive(Debug)]
pub enum DockerError {
    NoEndpoint,
    UnsupportedTransport(String),
    Malformed(String),
    Unreachable { endpoint: String, reason: String },
}

/// What a failure says.
#[verifier::ext_equal]
pub enum DockerErrorView {
    NoEndpoint,
    UnsupportedTransport(Seq<char>),
    Malformed(Seq<char>),
    Unreachable { endpoint: Seq<char>, reason: Seq<char> },
}

impl View for DockerError {
    type V = DockerErrorView;

    open spec fn view(&self) -> DockerErrorView {
        match self {
            DockerError::NoEndpoint => DockerErrorView::NoEndpoint,
            DockerError::UnsupportedTransport(endpoint) => DockerErrorView::UnsupportedTransport(
                endpoint@,
            ),
            DockerError::Malformed(reason) => DockerErrorView::Malformed(reason@),
            DockerError::Unreachable { endpoint, reason } => DockerErrorView::Unreachable {
                endpoint: endpoint@,
                reason: reason@,
            },
        }
    }
}

/// The sentence that reports a failure.
pub open spec fn docker_error_text(error: DockerErrorView) -> Seq<char> {
    match error {
        DockerErrorView::NoEndpoint =>
            "no docker endpoint: set DOCKER_HOST, or docker.endpoint in the config file"@,
        DockerErrorView::UnsupportedTransport(endpoint) =>
            "docker endpoint transport is not supported by this build: "@ + endpoint,
        DockerErrorView::Malformed(reason) =>
            "docker returned something this build cannot read: "@ + reason,
        DockerErrorView::Unreachable { endpoint, reason } => "cannot reach docker at "@ + endpoint
            + ": "@ + reason,
    }
}

impl DockerError {
    /// The sentence that reports this failure.
    pub fn to_string(&self) -> (text: String)
        ensures
            text@ == docker_error_text(self@),
    {
        match self {
            DockerError::NoEndpoint => {
                "no docker endpoint: set DOCKER_HOST, or docker.endpoint in the config file".to_owned()
            },
            DockerError::UnsupportedTransport(endpoint) => {
                let mut text =
                    "docker endpoint transport is not supported by this build: ".to_owned();
                text.append(endpoint.as_str());
                text
            },
            DockerError::Malformed(reason) => {
                let mut text = "docker returned something this build cannot read: ".to_owned();
                text.append(reason.as_str());
                text
            },
            DockerError::Unreachable { endpoint, reason } => {
                let mut text = "cannot reach docker at ".to_owned();
                text.append(endpoint.as_str());
                text.append(": ");
                text.append(reason.as_str());
                text
            },
        }
    }
}

pub trait DockerClient {
    fn services(&self) -> Result<Vec<ServiceStatus>, DockerError>;
}

/// One container as the daemon lists it.
#[derive(Debug)]
pub struct ApiContainer {
    pub names: Vec<String>,
    pub state: String,
    pub ports: Vec<ApiPort>,
    pub labels: Vec<(String, String)>,
}

/// One port of a container as the daemon lists it.
#[derive(Debug)]
pub struct ApiPort {
    pub public_port: Option<u16>,
    pub port_type: String,
}

/// What a listed port says.
#[verifier::ext_equal]
pub struct ApiPortView {
    pub public_port: Option<u16>,
    pub port_type: Seq<char>,
}

/// What a listed container says.
#[verifier::ext_equal]
pub struct ApiContainerView {
    pub names: Seq<Seq<char>>,
    pub state: Seq<char>,
    pub ports: Seq<ApiPortView>,
    pub labels: Seq<(Seq<char>, Seq<char>)>,
}

impl View for ApiPort {
    type V = ApiPortView;

    open spec fn view(&self) -> ApiPortView {
        ApiPortView { public_port: self.public_port, port_type: self.port_type@ }
    }
}

impl View for ApiContainer {
    type V = ApiContainerView;

    open spec fn view(&self) -> ApiContainerView {
        ApiContainerView {
            names: views(self.names@),
            state: self.state@,
            ports: views(self.ports@),
            labels: views(self.labels@),
        }
    }
}

/// A member that is a text, empty where the record does not have it.
pub open spec fn text_member(json: JsonView, index: int, count: int, name: Seq<char>) -> Option<
    Seq<char>,
> {
    match member_of(json, index, count, name) {
        Some(Some(value)) => text_of(value),
        Some(None) => Some(seq![]),
        None => None,
    }
}

/// A member that is a list of texts, empty where the record does not have it.
pub open spec fn texts_member(json: JsonView, index: int, count: int, name: Seq<char>) -> Option<
    Seq<Seq<char>>,
> {
    match member_of(json, index, count, name) {
        Some(Some(value)) => texts_of(value),
        Some(None) => Some(seq![]),
        None => None,
    }
}

/// The port that a record publishes, where it publishes one. In a list the
/// place may be null but not missing.
pub open spec fn public_port_in(json: JsonView) -> Option<Option<u16>> {
    match member_of(json, 0, 2, "PublicPort"@) {
        Some(Some(JsonView::Null)) => Some(None),
        Some(Some(JsonView::Unsigned(port))) => if port <= u16::MAX {
            Some(Some(port as u16))
        } else {
            None
        },
        Some(Some(_)) => None,
        Some(None) => if json is Fields {
            Some(None)
        } else {
            None
        },
        None => None,
    }
}

/// The port that a JSON record describes.
pub open spec fn port_in(json: JsonView) -> Option<ApiPortView> {
    match (public_port_in(json), text_member(json, 1, 2, "Type"@)) {
        (Some(public_port), Some(port_type)) => Some(ApiPortView { public_port, port_type }),
        _ => None,
    }
}

/// The ports that JSON records describe, every one of them or none.
pub open spec fn ports_in(items: Seq<JsonView>) -> Option<Seq<ApiPortView>>
    decreases items.len(),
{
    if items.len() == 0 {
        Some(seq![])
    } else {
        match (ports_in(items.drop_last()), port_in(items.last())) {
            (Some(before), Some(port)) => Some(before.push(port)),
            _ => None,
        }
    }
}

/// The ports of a container, none where it lists none.
pub open spec fn ports_member(json: JsonView) -> Option<Seq<ApiPortView>> {
    match member_of(json, 2, 4, "Ports"@) {
        Some(Some(JsonView::Items(items))) => ports_in(items),
        Some(Some(_)) => None,
        Some(None) => Some(seq![]),
        None => None,
    }
}

/// The container that a JSON record describes.
pub open spec fn container_in(json: JsonView) -> Option<ApiContainerView> {
    match (
        texts_member(json, 0, 4, "Names"@),
        text_member(json, 1, 4, "State"@),
        ports_member(json),
        text_fields_member(json, 3, 4, "Labels"@),
    ) {
        (Some(names), Some(state), Some(ports), Some(labels)) => Some(
            ApiContainerView { names, state, ports, labels },
        ),
        _ => None,
    }
}

/// The containers that JSON records describe, every one of them or none.
pub open spec fn containers_in(items: Seq<JsonView>) -> Option<Seq<ApiContainerView>>
    decreases items.len(),
{
    if items.len() == 0 {
        Some(seq![])
    } else {
        match (containers_in(items.drop_last()), container_in(items.last())) {
            (Some(before), Some(container)) => Some(before.push(container)),
            _ => None,
        }
    }
}

/// The containers that a document lists.
pub open spec fn container_list(document: JsonView) -> Option<Seq<ApiContainerView>> {
    match document {
        JsonView::Items(items) => containers_in(items),
        _ => None,
    }
}

/// The lowest port published over tcp. Unpublished ports cannot be reached from
/// the host and udp is not how any of these services are spoken to.
pub open spec fn lowest_port(ports: Seq<ApiPortView>) -> Option<u16>
    decreases ports.len(),
{
    if ports.len() == 0 {
        None
    } else {
        let before = lowest_port(ports.drop_last());
        let last = ports.last();
        if last.port_type != "tcp"@ || last.public_port is None {
            before
        } else {
            match before {
                Some(lowest) => if lowest <= last.public_port->0 {
                    before
                } else {
                    last.public_port
                },
                None => last.public_port,
            }
        }
    }
}

/// The row a container gets.
pub open spec fn service_row(container: ApiContainerView) -> ServiceStatusView {
    let name = if container.names.len() == 0 {
        Seq::<char>::empty()
    } else {
        trimmed_start_of(container.names[0], '/')
    };
    ServiceStatusView {
        container: name,
        service: match entry_of(container.labels, "com.docker.compose.service"@) {
            Some(service) => service,
            None => name,
        },
        port: lowest_port(container.ports),
        state: if container.state == "running"@ {
            ServiceState::Running
        } else {
            ServiceState::Stopped
        },
        port_open: false,
        memory_bytes: None,
    }
}

/// The rows the containers get.
pub open spec fn service_rows(containers: Seq<ApiContainerView>) -> Seq<ServiceStatusView> {
    containers.map_values(|container: ApiContainerView| service_row(container))
}

fn read_text_member(json: &Json, index: usize, count: usize, name: &str) -> (text: Option<String>)
    ensures
        match text {
            Some(text) => text_member(json@, index as int, count as int, name@) == Some(text@),
            None => text_member(json@, index as int, count as int, name@) is None,
        },
{
    match member(json, index, count, name) {
        Some(Some(Json::Text(text))) => Some(text.clone()),
        Some(Some(_)) => None,
        Some(None) => Some(String::new()),
        None => None,
    }
}

fn read_texts_member(json: &Json, index: usize, count: usize, name: &str) -> (list: Option<
    Vec<String>,
>)
    ensures
        match list {
            Some(list) => texts_member(json@, index as int, count as int, name@) == Some(
                views(list@),
            ),
            None => texts_member(json@, index as int, count as int, name@) is None,
        },
{
    match member(json, index, count, name) {
        Some(Some(value)) => read_texts(value),
        Some(None) => {
            let none: Vec<String> = Vec::new();
            assert(views(none@) =~= seq![]);
            Some(none)
        },
        None => None,
    }
}

fn read_port(json: &Json) -> (port: Option<ApiPort>)
    ensures
        match port {
            Some(port) => port_in(json@) == Some(port@),
            None => port_in(json@) is None,
        },
{
    let public_port: Option<u16> = match member(json, 0, 2, "PublicPort") {
        Some(Some(Json::Null)) => None,
        Some(Some(Json::Unsigned(port))) => {
            if *port > u16::MAX as u64 {
                return None;
            }
            Some(*port as u16)
        },
        Some(Some(_)) => {
            return None;
        },
        Some(None) => match json {
            Json::Fields(_) => None,
            _ => {
                return None;
            },
        },
        None => {
            return None;
        },
    };
    match read_text_member(json, 1, 2, "Type") {
        Some(port_type) => Some(ApiPort { public_port, port_type }),
        None => None,
    }
}

proof fn lemma_ports_in_fails(items: Seq<JsonView>, n: int)
    requires
        0 <= n <= items.len(),
        ports_in(items.take(n)) is None,
    ensures
        ports_in(items) is None,
    decreases items.len() - n,
{
    if n < items.len() {
        assert(items.take(n + 1).drop_last() =~= items.take(n));
        lemma_ports_in_fails(items, n + 1);
    } else {
        assert(items.take(n) =~= items);
    }
}

fn read_ports(items: &Vec<Json>) -> (ports: Option<Vec<ApiPort>>)
    ensures
        match ports {
            Some(ports) => ports_in(views(items@)) == Some(views(ports@)),
            None => ports_in(views(items@)) is None,
        },
{
    broadcast use lemma_views_push;

    let ghost all = views(items@);
    let mut ports: Vec<ApiPort> = Vec::new();
    let mut i: usize = 0;
    assert(views(ports@) =~= seq![]);
    while i < items.len()
        invariant
            i <= items@.len(),
            all == views(items@),
            ports_in(all.take(i as int)) == Some(views(ports@)),
        decreases items@.len() - i,
    {
        assert(all.take(i + 1).drop_last() =~= all.take(i as int));
        assert(all.take(i + 1).last() == items@[i as int]@);
        match read_port(&items[i]) {
            Some(port) => {
                ports.push(port);
            },
            None => {
                proof {
                    lemma_ports_in_fails(all, i + 1);
                }
                return None;
            },
        }
        i = i + 1;
    }
    assert(all.take(i as int) =~= all);
    Some(ports)
}

fn read_ports_member(json: &Json) -> (ports: Option<Vec<ApiPort>>)
    ensures
        match ports {
            Some(ports) => ports_member(json@) == Some(views(ports@)),
            None => ports_member(json@) is None,
        },
{
    match member(json, 2, 4, "Ports") {
        Some(Some(Json::Items(items))) => {
            proof {
                lemma_items_view(*items);
            }
            read_ports(items)
        },
        Some(Some(_)) => None,
        Some(None) => {
            let none: Vec<ApiPort> = Vec::new();
            assert(views(none@) =~= seq![]);
            Some(none)
        },
        None => None,
    }
}

fn read_container(json: &Json) -> (container: Option<ApiContainer>)
    ensures
        match container {
            Some(container) => container_in(json@) == Some(container@),
            None => container_in(json@) is None,
        },
{
    let names = match read_texts_member(json, 0, 4, "Names") {
        Some(names) => names,
        None => {
            return None;
        },
    };
    let state = match read_text_member(json, 1, 4, "State") {
        Some(state) => state,
        None => {
            return None;
        },
    };
    let ports = match read_ports_member(json) {
        Some(ports) => ports,
        None => {
            return None;
        },
    };
    match read_text_fields_member(json, 3, 4, "Labels") {
        Some(labels) => Some(ApiContainer { names, state, ports, labels }),
        None => None,
    }
}

proof fn lemma_containers_in_fails(items: Seq<JsonView>, n: int)
    requires
        0 <= n <= items.len(),
        containers_in(items.take(n)) is None,
    ensures
        containers_in(items) is None,
    decreases items.len() - n,
{
    if n < items.len() {
        assert(items.take(n + 1).drop_last() =~= items.take(n));
        lemma_containers_in_fails(items, n + 1);
    } else {
        assert(items.take(n) =~= items);
    }
}

/// Reads the containers that a document lists.
pub fn read_containers(document: &Json) -> (containers: Option<Vec<ApiContainer>>)
    ensures
        match containers {
            Some(containers) => container_list(document@) == Some(views(containers@)),
            None => container_list(document@) is None,
        },
{
    broadcast use lemma_views_push;

    match document {
        Json::Items(items) => {
            proof {
                lemma_items_view(*items);
            }
            let ghost all = views(items@);
            let mut containers: Vec<ApiContainer> = Vec::new();
            let mut i: usize = 0;
            assert(views(containers@) =~= seq![]);
            while i < items.len()
                invariant
                    i <= items@.len(),
                    all == views(items@),
                    document@ == JsonView::Items(all),
                    containers_in(all.take(i as int)) == Some(views(containers@)),
                decreases items@.len() - i,
            {
                assert(all.take(i + 1).drop_last() =~= all.take(i as int));
                assert(all.take(i + 1).last() == items@[i as int]@);
                match read_container(&items[i]) {
                    Some(container) => {
                        containers.push(container);
                    },
                    None => {
                        proof {
                            lemma_containers_in_fails(all, i + 1);
                        }
                        return None;
                    },
                }
                i = i + 1;
            }
            assert(all.take(i as int) =~= all);
            Some(containers)
        },
        _ => None,
    }
}

fn find_lowest_port(ports: &Vec<ApiPort>) -> (port: Option<u16>)
    ensures
        port == lowest_port(views(ports@)),
{
    let ghost all = views(ports@);
    let mut lowest: Option<u16> = None;
    let mut i: usize = 0;
    while i < ports.len()
        invariant
            i <= ports@.len(),
            all == views(ports@),
            lowest == lowest_port(all.take(i as int)),
        decreases ports@.len() - i,
    {
        assert(all.take(i + 1).drop_last() =~= all.take(i as int));
        assert(all.take(i + 1).last() == ports@[i as int]@);
        if same(ports[i].port_type.as_str(), "tcp") {
            if let Some(port) = ports[i].public_port {
                lowest = match lowest {
                    Some(before) => if before <= port {
                        Some(before)
                    } else {
                        Some(port)
                    },
                    None => Some(port),
                };
            }
        }
        i = i + 1;
    }
    assert(all.take(i as int) =~= all);
    lowest
}

/// The row a container gets.
///
/// The lowest published port wins because Docker does not promise an order,
/// and a service that reports 80 on one call and 443 on the next is a bug.
pub fn service_of(container: &ApiContainer) -> (service: ServiceStatus)
    ensures
        service@ == service_row(container@),
{
    let name = if container.names.len() == 0 {
        String::new()
    } else {
        assert(container@.names[0] == container.names@[0]@);
        string_of(trim_start_char(chars_of(container.names[0].as_str()).as_slice(), '/'))
    };
    let service = match find_entry(container.labels.as_slice(), "com.docker.compose.service") {
        Some(service) => service.clone(),
        None => name.clone(),
    };
    let state = if same(container.state.as_str(), "running") {
        ServiceState::Running
    } else {
        ServiceState::Stopped
    };
    ServiceStatus {
        container: name,
        service,
        port: find_lowest_port(&container.ports),
        state,
        // The daemon saying "running" is not the same as the port answering;
        // that is a separate question, asked separately.
        port_open: false,
        memory_bytes: None,
    }
}

/// The rows the containers get.
pub fn services_of(containers: &Vec<ApiContainer>) -> (services: Vec<ServiceStatus>)
    ensures
        views(services@) == service_rows(views(containers@)),
{
    broadcast use lemma_views_push;

    let ghost rows = service_rows(views(containers@));
    let mut services: Vec<ServiceStatus> = Vec::new();
    let mut i: usize = 0;
    while i < containers.len()
        invariant
            i <= containers@.len(),
            rows == service_rows(views(containers@)),
            views(services@) == rows.take(i as int),
        decreases containers@.len() - i,
    {
        services.push(service_of(&containers[i]));
        assert(rows[i as int] == service_row(containers@[i as int]@));
        assert(rows.take(i + 1) =~= rows.take(i as int).push(rows[i as int]));
        i = i + 1;
    }
    assert(rows.take(i as int) =~= rows);
    services
}

/// What is said of an answer that is JSON and no container list.
pub open spec fn not_a_list() -> Seq<char> {
    "not a list of containers"@
}

/// The service rows in the daemon's answer. An answer that is not a container
/// list is malformed, never an empty list.
pub open spec fn services_in(document: Result<JsonView, Seq<char>>) -> Result<
    Seq<ServiceStatusView>,
    DockerErrorView,
> {
    match document {
        Err(reason) => Err(DockerErrorView::Malformed(reason)),
        Ok(json) => match container_list(json) {
            Some(containers) => Ok(service_rows(containers)),
            None => Err(DockerErrorView::Malformed(not_a_list())),
        },
    }
}

/// What a list of services or a failure says.
pub open spec fn services_view(services: Result<Vec<ServiceStatus>, DockerError>) -> Result<
    Seq<ServiceStatusView>,
    DockerErrorView,
> {
    match services {
        Ok(services) => Ok(views(services@)),
        Err(error) => Err(error@),
    }
}

/// Turns the daemon's container list into service rows.
pub fn parse_containers(json: &str) -> (services: Result<Vec<ServiceStatus>, DockerError>)
    ensures
        services_view(services) == services_in(json_document(json@)),
{
    match parse(json) {
        Err(reason) => Err(DockerError::Malformed(reason)),
        Ok(document) => match read_containers(&document) {
            Some(containers) => Ok(services_of(&containers)),
            None => Err(DockerError::Malformed("not a list of containers".to_owned())),
        },
    }
}

/// The HTTP base URL of an endpoint, following `DOCKER_HOST` where it says so.
pub open spec fn base_of(endpoint: Seq<char>, docker_host: Option<Seq<char>>) -> Result<
    Seq<char>,
    DockerErrorView,
> {
    if endpoint == "auto"@ && docker_host is None {
        Err(DockerErrorView::NoEndpoint)
    } else {
        let address = if endpoint == "auto"@ {
            docker_host->0
        } else {
            endpoint
        };
        if begins_with(address, "tcp://"@) {
            Ok("http://"@ + address.skip("tcp://"@.len() as int))
        } else if begins_with(address, "http://"@) || begins_with(address, "https://"@) {
            Ok(address)
        } else {
            Err(DockerErrorView::UnsupportedTransport(address))
        }
    }
}

/// What an optional text holds.
pub open spec fn maybe_str(text: Option<&str>) -> Option<Seq<char>> {
    match text {
        Some(text) => Some(text@),
        None => None,
    }
}

/// Resolves the configured endpoint into an HTTP base URL, following
/// `DOCKER_HOST` when the config says `auto` the way other docker clients do.
pub fn base_url(endpoint: &str, docker_host: Option<&str>) -> (base: Result<String, DockerError>)
    ensures
        match base {
            Ok(base) => base_of(endpoint@, maybe_str(docker_host)) == Ok::<
                Seq<char>,
                DockerErrorView,
            >(base@),
            Err(error) => base_of(endpoint@, maybe_str(docker_host)) == Err::<
                Seq<char>,
                DockerErrorView,
            >(error@),
        },
{
    let address: &str = if same(endpoint, "auto") {
        match docker_host {
            Some(host) => host,
            None => {
                return Err(DockerError::NoEndpoint);
            },
        }
    } else {
        endpoint
    };
    let chars = chars_of(address);
    let tcp = chars_of("tcp://");
    if starts_with(chars.as_slice(), tcp.as_slice()) {
        let host = slice_subrange(chars.as_slice(), tcp.len(), chars.len());
        assert(host@ == address@.skip(tcp@.len() as int));
        let mut base = "http://".to_owned();
        base.append(string_of(host).as_str());
        Ok(base)
    } else if starts_with(chars.as_slice(), chars_of("http://").as_slice()) || starts_with(
        chars.as_slice(),
        chars_of("https://").as_slice(),
    ) {
        Ok(address.to_owned())
    } else {
        Err(DockerError::UnsupportedTransport(address.to_owned()))
    }
}

/// The host an address names: what stands between the scheme and the port or the
/// path.
pub open spec fn host_of(base: Seq<char>) -> Seq<char> {
    match position_of(base, "://"@) {
        Some(at) => {
            let rest = base.skip(at + 3);
            let before_path = rest.take(index_of(rest, '/'));
            before_path.take(index_of(before_path, ':'))
        },
        None => seq![],
    }
}

/// Whether an address names this machine by the name that also has an IPv6
/// address. Such a one is reached over IPv4 alone: some systems try the other
/// first, and every request would pay for a connection that cannot succeed.
pub fn is_localhost(base: &str) -> (is: bool)
    ensures
        is <==> host_of(base@) == "localhost"@,
{
    let chars = chars_of(base);
    let separator = chars_of("://");
    proof {
        reveal_strlit("://");
        reveal_strlit("localhost");
        assert("://"@.len() == 3);
    }
    match find_text(chars.as_slice(), separator.as_slice()) {
        Some(at) => {
            let end: usize = chars.len();
            assert(at + 3 <= end);
            let rest = slice_subrange(chars.as_slice(), at + 3, end);
            assert(rest@ =~= base@.skip(at + 3));
            let path = find_char(rest, '/');
            let before_path = slice_subrange(rest, 0, path);
            assert(before_path@ =~= rest@.take(path as int));
            let port = find_char(before_path, ':');
            let host = slice_subrange(before_path, 0, port);
            assert(host@ =~= before_path@.take(port as int));
            same(string_of(host).as_str(), "localhost")
        },
        None => {
            assert("localhost"@.len() == 9);
            false
        },
    }
}

/// A service with what probing its port found. A service that publishes none
/// has nothing to answer.
pub open spec fn probed(service: ServiceStatusView, answers: bool) -> ServiceStatusView {
    ServiceStatusView { port_open: service.port is Some && answers, ..service }
}

/// Records which of the services' ports answered.
pub fn record_probes(services: &mut Vec<ServiceStatus>, answers: &Vec<bool>)
    requires
        old(services)@.len() == answers@.len(),
    ensures
        final(services)@.len() == old(services)@.len(),
        forall|i: int|
            0 <= i < old(services)@.len() ==> (#[trigger] views(final(services)@)[i]) == probed(
                views(old(services)@)[i],
                answers@[i],
            ),
{
    let ghost before = views(services@);
    let mut i: usize = 0;
    while i < services.len()
        invariant
            i <= services@.len(),
            services@.len() == before.len(),
            services@.len() == answers@.len(),
            forall|j: int|
                0 <= j < i ==> (#[trigger] services@[j])@ == probed(before[j], answers@[j]),
            forall|j: int| i <= j < services@.len() ==> (#[trigger] services@[j])@ == before[j],
        decreases services@.len() - i,
    {
        assert(services@[i as int]@ == before[i as int]);
        let mut service = services[i].copy();
        service.port_open = service.port.is_some() && answers[i];
        services.set(i, service);
        assert(services@[i as int]@ == probed(before[i as int], answers@[i as int]));
        i = i + 1;
    }
    assert forall|i: int| 0 <= i < before.len() implies (#[trigger] views(services@)[i]) == probed(
        before[i],
        answers@[i],
    ) by {
        assert(views(services@)[i] == services@[i]@);
    }
}

/// Reads the Docker Engine API over HTTP.
pub struct HttpDockerClient {
    base: String,
}

impl HttpDockerClient {
    pub closed spec fn base_spec(&self) -> Seq<char> {
        self.base@
    }

    pub fn new(endpoint: &str, docker_host: Option<&str>) -> (client: Result<Self, DockerError>)
        ensures
            match client {
                Ok(client) => base_of(endpoint@, maybe_str(docker_host)) == Ok::<
                    Seq<char>,
                    DockerErrorView,
                >(client.base_spec()),
                Err(error) => base_of(endpoint@, maybe_str(docker_host)) == Err::<
                    Seq<char>,
                    DockerErrorView,
                >(error@),
            },
    {
        match base_url(endpoint, docker_host) {
            Ok(base) => Ok(HttpDockerClient { base }),
            Err(error) => Err(error),
        }
    }

    pub fn endpoint(&self) -> (endpoint: &str)
        ensures
            endpoint@ == self.base_spec(),
    {
        self.base.as_str()
    }

    /// Whether the daemon is to be reached over IPv4 alone.
    pub fn is_pinned_to_ipv4(&self) -> (is: bool)
        ensures
            is <==> host_of(self.base_spec()) == "localhost"@,
    {
        is_localhost(self.base.as_str())
    }

    /// Where the list of all containers is.
    pub fn containers_url(&self) -> (url: String)
        ensures
            url@ == self.base_spec() + "/containers/json?all=true"@,
    {
        let mut url = self.base.clone();
        url.append("/containers/json?all=true");
        url
    }

    /// The services, once the daemon has answered with a body or could not be
    /// reached.
    pub fn services(&self, answer: Result<String, String>) -> (services: Result<
        Vec<ServiceStatus>,
        DockerError,
    >)
        ensures
            services_view(services) == (match answer {
                Ok(body) => services_in(json_document(body@)),
                Err(reason) => Err(
                    DockerErrorView::Unreachable { endpoint: self.base_spec(), reason: reason@ },
                ),
            }),
    {
        match answer {
            Ok(body) => parse_containers(body.as_str()),
            Err(reason) => Err(
                DockerError::Unreachable { endpoint: self.base.clone(), reason },
            ),
        }
    }
}

/// Whether a listed port can be the service's.
pub open spec fn reaches(port: ApiPortView, number: u16) -> bool {
    port.port_type == "tcp"@ && port.public_port == Some(number)
}

proof fn lemma_lowest_port(ports: Seq<ApiPortView>)
    ensures
        match lowest_port(ports) {
            Some(lowest) => {
                &&& exists|i: int| 0 <= i < ports.len() && reaches(#[trigger] ports[i], lowest)
                &&& forall|i: int, n: u16|
                    0 <= i < ports.len() && #[trigger] reaches(ports[i], n) ==> lowest <= n
            },
            None => forall|i: int, n: u16|
                0 <= i < ports.len() ==> !#[trigger] reaches(ports[i], n),
        },
    decreases ports.len(),
{
    if ports.len() > 0 {
        let front = ports.drop_last();
        lemma_lowest_port(front);
        assert forall|i: int, n: u16|
            0 <= i < ports.len() && #[trigger] reaches(ports[i], n) implies lowest_port(ports)
            matches Some(lowest) && lowest <= n by {
            if i < front.len() {
                assert(reaches(front[i], n));
            }
        }
        if let Some(lowest) = lowest_port(ports) {
            if lowest_port(front) == Some(lowest) {
                let i = choose|i: int| 0 <= i < front.len() && reaches(#[trigger] front[i], lowest);
                assert(reaches(ports[i], lowest));
            } else {
                assert(reaches(ports[ports.len() - 1], lowest));
            }
        }
    }
}

/// Whether a log ended because nobody reads it any more. Piping it into a
/// program that stops early closes the stream on purpose; so does interrupting
/// one that is followed. Neither is a failure.
pub fn is_closed_on_purpose(error: &DockerError) -> (is: bool)
    ensures
        is <==> (error@ matches DockerErrorView::Unreachable { reason, .. } && position_of(
            reason,
            "pipe"@,
        ) is Some),
{
    match error {
        DockerError::Unreachable { reason, .. } => {
            let chars = chars_of(reason.as_str());
            let wanted = chars_of("pipe");
            find_text(chars.as_slice(), wanted.as_slice()).is_some()
        },
        _ => false,
    }
}

/// The service port does not depend on the order docker listed the ports in.
pub proof fn law_port_ignores_listing_order(one: Seq<ApiPortView>, other: Seq<ApiPortView>)
    requires
        forall|port: ApiPortView| one.contains(port) == other.contains(port),
    ensures
        lowest_port(one) == lowest_port(other),
{
    lemma_lowest_port(one);
    lemma_lowest_port(other);
    assert forall|i: int, n: u16| 0 <= i < one.len() && #[trigger] reaches(one[i], n) implies exists|
        k: int,
    | 0 <= k < other.len() && reaches(#[trigger] other[k], n) by {
        assert(one.contains(one[i]));
        let k = other.index_of(one[i]);
        assert(reaches(other[k], n));
    }
    assert forall|i: int, n: u16| 0 <= i < other.len() && #[trigger] reaches(other[i], n) implies exists|
        k: int,
    | 0 <= k < one.len() && reaches(#[trigger] one[k], n) by {
        assert(other.contains(other[i]));
        let k = one.index_of(other[i]);
        assert(reaches(one[k], n));
    }
}

/// A freshly listed service is not yet known to be reachable: the daemon says
/// running, only a connection says reachable.
pub proof fn law_listed_is_not_reachable(container: ApiContainerView)
    ensures
        !service_row(container).reachable(),
{
}

/// A daemon named `localhost` is reached over IPv4, whichever way the endpoint is
/// written and whatever port follows.
pub proof fn law_localhost_is_pinned_to_ipv4(port: Seq<char>)
    requires
        port.len() == 0 || port[0] == ':',
        !port.contains('/'),
    ensures
        base_of("tcp://localhost"@ + port, None) matches Ok(base) && host_of(base)
            == "localhost"@,
        base_of("http://localhost"@ + port, None) matches Ok(base) && host_of(base)
            == "localhost"@,
{
    reveal_strlit("auto");
    reveal_strlit("tcp://");
    reveal_strlit("http://");
    reveal_strlit("https://");
    reveal_strlit("://");
    reveal_strlit("localhost");
    reveal_strlit("tcp://localhost");
    reveal_strlit("http://localhost");
    let tcp = "tcp://localhost"@ + port;
    let http = "http://localhost"@ + port;
    let rest = "localhost"@ + port;
    assert("auto"@.len() == 4 && "tcp://"@.len() == 6 && "http://"@.len() == 7);
    assert(tcp.take(6) =~= "tcp://"@);
    assert("http://"@ + tcp.skip(6) =~= http);
    assert(http.take(7) =~= "http://"@);
    assert(http[0] == 'h' && "tcp://"@[0] == 't');
    assert(http.take(6)[0] != "tcp://"@[0]);
    assert(base_of(tcp, None) == Ok::<Seq<char>, DockerErrorView>(http));
    assert(base_of(http, None) == Ok::<Seq<char>, DockerErrorView>(http));
    lemma_position_of(http, "://"@);
    assert("://"@.len() == 3);
    assert(http.skip(4).take(3) =~= "://"@);
    assert(begins_with(http.skip(4), "://"@));
    let at = position_of(http, "://"@)->0;
    assert(http.subrange(at, at + 3)[0] == ':');
    assert(http[at] == ':');
    assert(http[0] == 'h' && http[1] == 't' && http[2] == 't' && http[3] == 'p');
    assert(at == 4);
    assert(http.skip(7) =~= rest);
    assert forall|i: int| 0 <= i < rest.len() implies rest[i] != '/' by {
        if i >= 9 {
            assert(port.contains(port[i - 9]));
        }
    }
    lemma_index_of_is(rest, '/', rest.len() as int);
    assert(rest.take(rest.len() as int) =~= rest);
    lemma_index_of_is(rest, ':', 9);
    assert(rest.take(9) =~= "localhost"@);
}

/// The port of a service is the lowest that is published over TCP; a port that
/// is not published, or of another kind, does not count.
pub proof fn law_the_lowest_published_port_is_shown(ports: Seq<ApiPortView>)
    ensures
        match lowest_port(ports) {
            Some(lowest) => {
                &&& exists|i: int|
                    0 <= i < ports.len() && (#[trigger] ports[i]).public_port == Some(lowest)
                        && ports[i].port_type == "tcp"@
                &&& forall|i: int|
                    0 <= i < ports.len() && (#[trigger] ports[i]).port_type == "tcp"@
                        && ports[i].public_port is Some ==> lowest <= ports[i].public_port->0
            },
            None => forall|i: int|
                0 <= i < ports.len() ==> (#[trigger] ports[i]).port_type != "tcp"@
                    || ports[i].public_port is None,
        },
    decreases ports.len(),
{
    if ports.len() > 0 {
        let front = ports.drop_last();
        law_the_lowest_published_port_is_shown(front);
        assert forall|i: int| 0 <= i < front.len() implies ports[i] == #[trigger] front[i] by {}
        let last = ports[ports.len() - 1];
        if let Some(lowest) = lowest_port(front) {
            let i = choose|i: int|
                0 <= i < front.len() && (#[trigger] front[i]).public_port == Some(lowest)
                    && front[i].port_type == "tcp"@;
            assert(ports[i] == front[i]);
        }
        assert forall|i: int| 0 <= i < ports.len() implies #[trigger] ports[i] == last || (i
            < front.len() && ports[i] == front[i]) by {}
    }
}

/// A service is called what its compose label says, else what its container is
/// called; a container is called by its first name, without the slash docker
/// puts in front. It runs exactly where docker says `running`.
pub proof fn law_a_service_is_called_by_its_label(
    container: ApiContainerView,
    name: Seq<char>,
    label: Seq<char>,
)
    requires
        container.names.len() > 0,
        container.names[0] == "/"@ + name,
        name.len() > 0 && name[0] != '/',
    ensures
        service_row(container).container == name,
        entry_of(container.labels, "com.docker.compose.service"@) == Some(label) ==> service_row(
            container,
        ).service == label,
        entry_of(container.labels, "com.docker.compose.service"@) is None ==> service_row(
            container,
        ).service == name,
        service_row(container).state is Running <==> container.state == "running"@,
        service_row(container).state is Stopped <==> container.state != "running"@,
        service_row(container).port == lowest_port(container.ports),
        service_row(container).memory_bytes is None,
{
    reveal_strlit("/");
    let full = "/"@ + name;
    assert(full[0] == '/');
    assert(full.skip(1) =~= name);
    assert(trimmed_start_of(name, '/') == name);
}

/// An endpoint is written as `tcp://` or as a web address, and means the same
/// host and port either way; `auto` means what the environment says, and
/// anything else is refused as it was written.
pub proof fn law_an_endpoint_keeps_its_address(
    address: Seq<char>,
    other: Seq<char>,
    docker_host: Option<Seq<char>>,
)
    ensures
        base_of("tcp://"@ + address, docker_host) == Ok::<Seq<char>, DockerErrorView>(
            "http://"@ + address,
        ),
        base_of("http://"@ + address, docker_host) == Ok::<Seq<char>, DockerErrorView>(
            "http://"@ + address,
        ),
        base_of("https://"@ + address, docker_host) == Ok::<Seq<char>, DockerErrorView>(
            "https://"@ + address,
        ),
        base_of("auto"@, None) == Err::<Seq<char>, DockerErrorView>(DockerErrorView::NoEndpoint),
        other != "auto"@ ==> base_of("auto"@, Some(other)) == base_of(other, docker_host),
        other != "auto"@ && !begins_with(other, "tcp://"@) && !begins_with(other, "http://"@)
            && !begins_with(other, "https://"@) ==> base_of(other, docker_host) == Err::<
            Seq<char>,
            DockerErrorView,
        >(DockerErrorView::UnsupportedTransport(other)),
{
    reveal_strlit("auto");
    reveal_strlit("tcp://");
    reveal_strlit("http://");
    reveal_strlit("https://");
    assert("auto"@.len() == 4);
    let tcp = "tcp://"@ + address;
    assert(tcp.take(6) =~= "tcp://"@);
    assert(tcp.skip(6) =~= address);
    let http = "http://"@ + address;
    assert(http.take(7) =~= "http://"@);
    assert(http.take(6)[0] == 'h');
    let https = "https://"@ + address;
    assert(https.take(8) =~= "https://"@);
    assert(https.take(6)[0] == 'h');
}

/// The host of an address stands between its scheme and its port or path.
#[verifier::rlimit(40)]
pub proof fn law_the_host_stands_between(scheme: Seq<char>, host: Seq<char>, tail: Seq<char>)
    requires
        forall|i: int| 0 <= i < scheme.len() ==> scheme[i] != ':',
        forall|i: int| 0 <= i < host.len() ==> host[i] != ':' && host[i] != '/',
        tail.len() == 0 || tail[0] == ':' || tail[0] == '/',
    ensures
        host_of(scheme + "://"@ + (host + tail)) == host,
{
    reveal_strlit("://");
    let rest = host + tail;
    let base = scheme + "://"@ + rest;
    law_a_text_is_found_where_it_stands(scheme, "://"@, rest);
    assert(base.skip(scheme.len() as int + 3) =~= rest);
    lemma_index_of(rest, '/');
    let at = index_of(rest, '/');
    let n = host.len() as int;
    assert(at >= n) by {
        if at < n {
            assert(rest[at] == host[at]);
        }
    }
    let front = rest.take(at);
    assert forall|i: int| 0 <= i < n implies front[i] != ':' by {
        assert(front[i] == host[i]);
    }
    if n < front.len() {
        assert(front[n] == tail[0]);
        assert(rest[n] == tail[0]);
        assert(front[n] == ':');
    }
    lemma_index_of_is(front, ':', n);
    assert(front.take(n) =~= host);
}

/// Asking a port changes whether it is open and nothing else, and a service
/// without a port has none that could be.
pub proof fn law_asking_a_port_changes_nothing_else(service: ServiceStatusView, answers: bool)
    ensures
        probed(service, answers).port_open <==> service.port is Some && answers,
        probed(service, answers).container == service.container,
        probed(service, answers).service == service.service,
        probed(service, answers).port == service.port,
        probed(service, answers).state == service.state,
        probed(service, answers).memory_bytes == service.memory_bytes,
{
}

/// A container is listed with what docker calls its names, its state, its ports
/// and its labels; what is missing is empty, and a port is public where it has a
/// number.
pub proof fn law_a_container_is_listed_as_docker_writes_it(
    fields: Seq<(Seq<char>, JsonView)>,
    names: Seq<Seq<char>>,
    state: Seq<char>,
    labels: Seq<(Seq<char>, Seq<char>)>,
    port: Seq<(Seq<char>, JsonView)>,
    number: u64,
    kind: Seq<char>,
)
    requires
        number <= 65535,
    ensures
        ({
            let json = JsonView::Fields(fields);
            &&& (entry_of(fields, "Names"@) matches Some(list) && texts_of(list) == Some(names)) && (
            entry_of(fields, "State"@) == Some(JsonView::Text(state))) && (entry_of(
                fields,
                "Labels"@,
            ) matches Some(pairs) && text_fields_of(pairs) == Some(labels)) && entry_of(
                fields,
                "Ports"@,
            ) is None ==> container_in(json) == Some(
                ApiContainerView { names, state, ports: seq![], labels },
            )
        }),
        entry_of(port, "PublicPort"@) == Some(JsonView::Unsigned(number)) && entry_of(
            port,
            "Type"@,
        ) == Some(JsonView::Text(kind)) ==> port_in(JsonView::Fields(port)) == Some(
            ApiPortView { public_port: Some(number as u16), port_type: kind },
        ),
        entry_of(port, "PublicPort"@) is None && entry_of(port, "Type"@) == Some(
            JsonView::Text(kind),
        ) ==> port_in(JsonView::Fields(port)) == Some(
            ApiPortView { public_port: None, port_type: kind },
        ),
{
}

/// Every container of a list is listed, in its place, and a list that holds
/// anything else is refused whole. The ports of a container are read the same
/// way.
pub proof fn law_a_list_is_read_item_by_item(items: Seq<JsonView>)
    ensures
        match container_list(JsonView::Items(items)) {
            Some(list) => list.len() == items.len() && forall|i: int|
                0 <= i < items.len() ==> container_in(#[trigger] items[i]) == Some(list[i]),
            None => exists|i: int| 0 <= i < items.len() && container_in(#[trigger] items[i]) is None,
        },
        match ports_in(items) {
            Some(list) => list.len() == items.len() && forall|i: int|
                0 <= i < items.len() ==> port_in(#[trigger] items[i]) == Some(list[i]),
            None => exists|i: int| 0 <= i < items.len() && port_in(#[trigger] items[i]) is None,
        },
    decreases items.len(),
{
    if items.len() > 0 {
        let front = items.drop_last();
        law_a_list_is_read_item_by_item(front);
        let last = items.len() - 1;
        assert(items.last() == items[last]);
        if containers_in(front) is None {
            let i = choose|i: int|
                0 <= i < front.len() && container_in(#[trigger] front[i]) is None;
            assert(items[i] == front[i]);
        }
        if ports_in(front) is None {
            let i = choose|i: int| 0 <= i < front.len() && port_in(#[trigger] front[i]) is None;
            assert(items[i] == front[i]);
        }
        if let Some(list) = containers_in(items) {
            assert forall|i: int| 0 <= i < items.len() implies container_in(#[trigger] items[i])
                == Some(list[i]) by {
                if i < last {
                    assert(front[i] == items[i]);
                }
            }
        }
        if let Some(list) = ports_in(items) {
            assert forall|i: int| 0 <= i < items.len() implies port_in(#[trigger] items[i]) == Some(
                list[i],
            ) by {
                if i < last {
                    assert(front[i] == items[i]);
                }
            }
        }
    }
}

/// A failure says what to set, which endpoint was wrong, or where docker could
/// not be reached and why.
pub proof fn law_a_docker_failure_says_where_and_why(endpoint: Seq<char>, reason: Seq<char>)
    ensures
        docker_error_text(DockerErrorView::NoEndpoint)
            == "no docker endpoint: set DOCKER_HOST, or docker.endpoint in the config file"@,
        docker_error_text(DockerErrorView::UnsupportedTransport(endpoint))
            == "docker endpoint transport is not supported by this build: "@ + endpoint,
        docker_error_text(DockerErrorView::Malformed(reason))
            == "docker returned something this build cannot read: "@ + reason,
        docker_error_text(DockerErrorView::Unreachable { endpoint, reason })
            == "cannot reach docker at "@ + endpoint + ": "@ + reason,
{
}

/// A list of containers that cannot be read is refused, and one that can gives a
/// service for each container, in its place.
pub proof fn law_each_container_is_one_service(
    json: JsonView,
    containers: Seq<ApiContainerView>,
    reason: Seq<char>,
    i: int,
)
    ensures
        services_in(Err(reason)) == Err::<Seq<ServiceStatusView>, DockerErrorView>(
            DockerErrorView::Malformed(reason),
        ),
        container_list(json) is None ==> services_in(Ok(json)) == Err::<
            Seq<ServiceStatusView>,
            DockerErrorView,
        >(DockerErrorView::Malformed("not a list of containers"@)),
        container_list(json) == Some(containers) && 0 <= i < containers.len() ==> (services_in(
            Ok(json),
        ) matches Ok(services) && services.len() == containers.len() && services[i] == service_row(
            containers[i],
        )),
{
}

} // verus!
