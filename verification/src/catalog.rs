//! The services this machine is meant to have, as opposed to the ones docker
//! happens to be running.
//!
//! Docker can only report containers that exist. A compose file usually
//! describes more than that — the ones nobody has started yet — and those are
//! exactly the ones somebody opens a dashboard to start. Declaring them is
//! also how the container name, the port, the hostname and the database
//! credentials stop being this tool's guesses and become the user's.

use crate::domain::{ServiceState, ServiceStatus, ServiceStatusView};
use crate::order::{
    in_order, is_ordered, law_sorting_orders_and_keeps, lemma_in_order_contains, precedes, sort,
    Ranked,
};
use crate::text::{decimal, lemma_views_push, maybe_text, number_text, same, views};
use vstd::prelude::*;
use vstd::string::*;

verus! {

/// One service, as declared rather than as observed.
#[derive(Debug, Clone, PartialEq, Eq)]
pub struct ServiceConfig {
    /// The container to look for. Without it the service's own name is used,
    /// which is what compose does when nothing overrides it.
    pub container: Option<String>,
    /// The port published to this machine. Worth declaring even when docker
    /// would report it: a stopped container reports none, and a row that loses
    /// its port the moment it stops is a row you cannot use to start it again.
    pub port: Option<u16>,
    /// A page to open for this service, if it has one.
    pub panel: Option<String>,
    /// The hostname `adev domains` should route to it.
    pub domain: Option<String>,
    /// The user a database dump should connect as, when it is not the one this
    /// tool would assume.
    pub user: Option<String>,
    /// Where the password lives in the container's environment, when it is not
    /// the variable the official image uses.
    pub password_env: Option<String>,
    /// The password itself, for a service whose container does not carry it.
    /// A last resort: it puts a secret in a file that gets copied around.
    pub password: Option<String>,
}

/// What a declaration says.
#[verifier::ext_equal]
pub struct ServiceConfigView {
    pub container: Option<Seq<char>>,
    pub port: Option<u16>,
    pub panel: Option<Seq<char>>,
    pub domain: Option<Seq<char>>,
    pub user: Option<Seq<char>>,
    pub password_env: Option<Seq<char>>,
    pub password: Option<Seq<char>>,
}

impl View for ServiceConfig {
    type V = ServiceConfigView;

    open spec fn view(&self) -> ServiceConfigView {
        ServiceConfigView {
            container: maybe_text(self.container),
            port: self.port,
            panel: maybe_text(self.panel),
            domain: maybe_text(self.domain),
            user: maybe_text(self.user),
            password_env: maybe_text(self.password_env),
            password: maybe_text(self.password),
        }
    }
}

impl ServiceConfigView {
    /// A declaration that says nothing.
    pub open spec fn nothing() -> ServiceConfigView {
        ServiceConfigView {
            container: None,
            port: None,
            panel: None,
            domain: None,
            user: None,
            password_env: None,
            password: None,
        }
    }

    /// The container a service of this name runs in.
    pub open spec fn container_of(self, name: Seq<char>) -> Seq<char> {
        match self.container {
            Some(container) => container,
            None => name,
        }
    }
}

impl Default for ServiceConfig {
    fn default() -> (config: Self)
        ensures
            config@ == ServiceConfigView::nothing(),
    {
        ServiceConfig {
            container: None,
            port: None,
            panel: None,
            domain: None,
            user: None,
            password_env: None,
            password: None,
        }
    }
}

impl ServiceConfig {
    /// The container this service runs in.
    pub fn container_for(&self, name: &str) -> (container: String)
        ensures
            container@ == self@.container_of(name@),
    {
        match &self.container {
            Some(container) => container.clone(),
            None => name.to_owned(),
        }
    }
}

/// The first observed service in a container.
pub open spec fn seen_in(observed: Seq<ServiceStatusView>, container: Seq<char>) -> Option<
    ServiceStatusView,
>
    decreases observed.len(),
{
    if observed.len() == 0 {
        None
    } else if observed[0].container == container {
        Some(observed[0])
    } else {
        seen_in(observed.skip(1), container)
    }
}

/// The row of a declared service: what was seen of its container under the
/// declared name, or an absent one.
pub open spec fn declared_row(
    declared: (Seq<char>, ServiceConfigView),
    observed: Seq<ServiceStatusView>,
) -> ServiceStatusView {
    let (name, settings) = declared;
    match seen_in(observed, settings.container_of(name)) {
        Some(seen) => ServiceStatusView {
            service: name,
            port: if seen.port is Some {
                seen.port
            } else {
                settings.port
            },
            ..seen
        },
        None => ServiceStatusView {
            container: settings.container_of(name),
            service: name,
            port: settings.port,
            state: ServiceState::Absent,
            port_open: false,
            memory_bytes: None,
        },
    }
}

/// The rows of all declared services.
pub open spec fn declared_rows(
    declared: Seq<(Seq<char>, ServiceConfigView)>,
    observed: Seq<ServiceStatusView>,
) -> Seq<ServiceStatusView> {
    declared.map_values(|one: (Seq<char>, ServiceConfigView)| declared_row(one, observed))
}

/// Whether a row is about this container.
pub open spec fn has_container(rows: Seq<ServiceStatusView>, container: Seq<char>) -> bool {
    exists|i: int| 0 <= i < rows.len() && (#[trigger] rows[i]).container == container
}

/// The rows, and behind them what was seen in containers that have none.
pub open spec fn with_undeclared(
    rows: Seq<ServiceStatusView>,
    observed: Seq<ServiceStatusView>,
) -> Seq<ServiceStatusView>
    decreases observed.len(),
{
    if observed.len() == 0 {
        rows
    } else {
        let before = with_undeclared(rows, observed.drop_last());
        if has_container(before, observed.last().container) {
            before
        } else {
            before.push(observed.last())
        }
    }
}

/// The declared services and the observed containers together, by name.
pub open spec fn merged(
    declared: Seq<(Seq<char>, ServiceConfigView)>,
    observed: Seq<ServiceStatusView>,
) -> Seq<ServiceStatusView> {
    in_order::<ServiceStatus>(with_undeclared(declared_rows(declared, observed), observed))
}

fn find_container<'a>(observed: &'a [ServiceStatus], container: &str) -> (seen: Option<
    &'a ServiceStatus,
>)
    ensures
        match seen {
            Some(seen) => seen_in(views(observed@), container@) == Some(seen@),
            None => seen_in(views(observed@), container@) is None,
        },
{
    let mut i: usize = 0;
    let ghost all = views(observed@);
    assert(all.skip(0) =~= all);
    while i < observed.len()
        invariant
            i <= observed@.len(),
            all == views(observed@),
            seen_in(all, container@) == seen_in(all.skip(i as int), container@),
        decreases observed@.len() - i,
    {
        assert(all.skip(i as int)[0] == observed@[i as int]@);
        assert(all.skip(i as int).skip(1) =~= all.skip(i + 1));
        if same(observed[i].container.as_str(), container) {
            return Some(&observed[i]);
        }
        i = i + 1;
    }
    None
}

fn container_listed(rows: &Vec<ServiceStatus>, container: &str) -> (listed: bool)
    ensures
        listed == has_container(views(rows@), container@),
{
    let mut i: usize = 0;
    while i < rows.len()
        invariant
            i <= rows@.len(),
            forall|j: int| 0 <= j < i ==> (#[trigger] views(rows@)[j]).container != container@,
        decreases rows@.len() - i,
    {
        assert(views(rows@)[i as int] == rows@[i as int]@);
        if same(rows[i].container.as_str(), container) {
            return true;
        }
        i = i + 1;
    }
    false
}

/// Puts the declared services and the observed containers together.
///
/// Declared ones come through even when nothing is running them, marked absent
/// rather than left out: a service you cannot see is a service you cannot
/// start. Containers nobody declared come through too, because docker knowing
/// about something the configuration does not is information, not noise.
pub fn merge(declared: &[(String, ServiceConfig)], observed: &[ServiceStatus]) -> (rows: Vec<
    ServiceStatus,
>)
    ensures
        views(rows@) == merged(views(declared@), views(observed@)),
{
    broadcast use lemma_views_push;

    let ghost wanted = views(declared@);
    let ghost seen_all = views(observed@);
    let ghost first = declared_rows(wanted, seen_all);
    let mut rows: Vec<ServiceStatus> = Vec::new();
    let mut i: usize = 0;
    while i < declared.len()
        invariant
            i <= declared@.len(),
            wanted == views(declared@),
            seen_all == views(observed@),
            first == declared_rows(wanted, seen_all),
            views(rows@) == first.take(i as int),
        decreases declared@.len() - i,
    {
        let name = &declared[i].0;
        let settings = &declared[i].1;
        assert(wanted[i as int] == (name@, settings@));
        assert(first[i as int] == declared_row((name@, settings@), seen_all));
        let container = settings.container_for(name.as_str());
        match find_container(observed, container.as_str()) {
            Some(seen) => {
                // The declared port wins only where docker has none to give: a
                // running container's published port is the truth.
                let port: Option<u16> = match seen.port {
                    Some(port) => Some(port),
                    None => settings.port,
                };
                rows.push(
                    ServiceStatus {
                        container: seen.container.clone(),
                        service: name.clone(),
                        port,
                        state: seen.state,
                        port_open: seen.port_open,
                        memory_bytes: seen.memory_bytes,
                    },
                );
            },
            None => {
                rows.push(
                    ServiceStatus {
                        container,
                        service: name.clone(),
                        port: settings.port,
                        state: ServiceState::Absent,
                        port_open: false,
                        memory_bytes: None,
                    },
                );
            },
        }
        assert(first.take(i + 1) == first.take(i as int).push(first[i as int]));
        i = i + 1;
    }
    assert(first.take(i as int) == first);
    let mut j: usize = 0;
    while j < observed.len()
        invariant
            j <= observed@.len(),
            seen_all == views(observed@),
            views(rows@) == with_undeclared(first, seen_all.take(j as int)),
        decreases observed@.len() - j,
    {
        assert(seen_all.take(j + 1).drop_last() == seen_all.take(j as int));
        assert(seen_all.take(j + 1).last() == observed@[j as int]@);
        if !container_listed(&rows, observed[j].container.as_str()) {
            rows.push(observed[j].copy());
        }
        j = j + 1;
    }
    assert(seen_all.take(j as int) == seen_all);
    sort(rows)
}

#[derive(Debug)]
pub enum CatalogError {
    DomainWithoutPort { service: String },
}

/// What a refusal says.
#[verifier::ext_equal]
pub enum CatalogErrorView {
    DomainWithoutPort { service: Seq<char> },
}

impl View for CatalogError {
    type V = CatalogErrorView;

    open spec fn view(&self) -> CatalogErrorView {
        match self {
            CatalogError::DomainWithoutPort { service } => CatalogErrorView::DomainWithoutPort {
                service: service@,
            },
        }
    }
}

/// The sentence that reports a refusal.
pub open spec fn catalog_error_text(error: CatalogErrorView) -> Seq<char> {
    match error {
        CatalogErrorView::DomainWithoutPort { service } => "service "@ + service
            + " names a domain but no port, so nothing could be routed to it"@,
    }
}

impl CatalogError {
    /// The sentence that reports this refusal.
    pub fn to_string(&self) -> (text: String)
        ensures
            text@ == catalog_error_text(self@),
    {
        match self {
            CatalogError::DomainWithoutPort { service } => {
                let mut text = "service ".to_owned();
                text.append(service.as_str());
                text.append(" names a domain but no port, so nothing could be routed to it");
                text
            },
        }
    }
}

/// The routes the declared services ask for, or the first that has nowhere to
/// go.
pub open spec fn routes_for(declared: Seq<(Seq<char>, ServiceConfigView)>) -> Result<
    Seq<(Seq<char>, Seq<char>)>,
    CatalogErrorView,
>
    decreases declared.len(),
{
    if declared.len() == 0 {
        Ok(seq![])
    } else {
        match routes_for(declared.drop_last()) {
            Err(error) => Err(error),
            Ok(before) => {
                let (name, settings) = declared.last();
                match settings.domain {
                    None => Ok(before),
                    Some(host) => match settings.port {
                        None => Err(CatalogErrorView::DomainWithoutPort { service: name }),
                        Some(port) => Ok(
                            before.push(
                                (host, settings.container_of(name) + ":"@ + decimal(port as nat)),
                            ),
                        ),
                    },
                }
            },
        }
    }
}

/// The routes the declared services ask for.
///
/// The upstream is the container rather than localhost: the proxy runs beside
/// them on docker's own network, where the container name is the address and
/// which port was published to this machine does not come into it.
pub fn service_domains(declared: &[(String, ServiceConfig)]) -> (routes: Result<
    Vec<(String, String)>,
    CatalogError,
>)
    ensures
        match routes {
            Ok(routes) => routes_for(views(declared@)) == Ok::<
                Seq<(Seq<char>, Seq<char>)>,
                CatalogErrorView,
            >(views(routes@)),
            Err(error) => routes_for(views(declared@)) == Err::<
                Seq<(Seq<char>, Seq<char>)>,
                CatalogErrorView,
            >(error@),
        },
{
    broadcast use lemma_views_push;

    let ghost all = views(declared@);
    let mut routes: Vec<(String, String)> = Vec::new();
    let mut i: usize = 0;
    assert(views(routes@) =~= Seq::<(Seq<char>, Seq<char>)>::empty());
    while i < declared.len()
        invariant
            i <= declared@.len(),
            all == views(declared@),
            routes_for(all.take(i as int)) == Ok::<Seq<(Seq<char>, Seq<char>)>, CatalogErrorView>(
                views(routes@),
            ),
        decreases declared@.len() - i,
    {
        assert(all.take(i + 1).drop_last() == all.take(i as int));
        let name = &declared[i].0;
        let settings = &declared[i].1;
        assert(all.take(i + 1).last() == (name@, settings@));
        if let Some(host) = &settings.domain {
            match settings.port {
                Some(port) => {
                    let mut upstream = settings.container_for(name.as_str());
                    upstream.append(":");
                    upstream.append(number_text(port as u64).as_str());
                    let ghost before = views(routes@);
                    let ghost route = (
                        host@,
                        settings@.container_of(name@) + ":"@ + decimal(port as nat),
                    );
                    routes.push((host.clone(), upstream));
                    assert(views(routes@) =~= before.push(route));
                },
                // A hostname with nothing behind it generates a route to
                // nowhere, which only fails later, at request time, with
                // nothing to point at.
                None => {
                    let error = CatalogError::DomainWithoutPort { service: name.clone() };
                    proof {
                        lemma_first_refusal_stands(all, i + 1);
                    }
                    return Err(error);
                },
            }
        }
        i = i + 1;
    }
    assert(all.take(i as int) == all);
    Ok(routes)
}

proof fn lemma_first_refusal_stands(declared: Seq<(Seq<char>, ServiceConfigView)>, n: int)
    requires
        0 <= n <= declared.len(),
        routes_for(declared.take(n)) is Err,
    ensures
        routes_for(declared) == routes_for(declared.take(n)),
    decreases declared.len() - n,
{
    if n < declared.len() {
        assert(declared.take(n + 1).drop_last() == declared.take(n));
        lemma_first_refusal_stands(declared, n + 1);
    } else {
        assert(declared.take(n) == declared);
    }
}

proof fn lemma_with_undeclared(
    rows: Seq<ServiceStatusView>,
    observed: Seq<ServiceStatusView>,
    distinct: bool,
)
    requires
        distinct ==> forall|i: int, j: int|
            0 <= i < j < rows.len() ==> (#[trigger] rows[i]).container != (
            #[trigger] rows[j]).container,
    ensures
        with_undeclared(rows, observed).len() >= rows.len(),
        forall|i: int|
            0 <= i < rows.len() ==> #[trigger] with_undeclared(rows, observed)[i] == rows[i],
        forall|i: int|
            rows.len() <= i < with_undeclared(rows, observed).len() ==> observed.contains(
                #[trigger] with_undeclared(rows, observed)[i],
            ),
        forall|k: int|
            0 <= k < observed.len() ==> has_container(
                with_undeclared(rows, observed),
                (#[trigger] observed[k]).container,
            ),
        distinct ==> forall|i: int, j: int|
            0 <= i < j < with_undeclared(rows, observed).len() ==> (#[trigger] with_undeclared(
                rows,
                observed,
            )[i]).container != (#[trigger] with_undeclared(rows, observed)[j]).container,
    decreases observed.len(),
{
    if observed.len() > 0 {
        let front = observed.drop_last();
        let before = with_undeclared(rows, front);
        let after = with_undeclared(rows, observed);
        lemma_with_undeclared(rows, front, distinct);
        assert forall|i: int| rows.len() <= i < after.len() implies observed.contains(
            #[trigger] after[i],
        ) by {
            if i < before.len() {
                assert(front.contains(before[i]));
                let k = front.index_of(before[i]);
                assert(observed[k] == after[i]);
            } else {
                assert(observed[observed.len() - 1] == after[i]);
            }
        }
        assert forall|k: int| 0 <= k < observed.len() implies has_container(
            after,
            (#[trigger] observed[k]).container,
        ) by {
            if k < front.len() {
                assert(front[k] == observed[k]);
                let i = choose|i: int|
                    0 <= i < before.len() && (#[trigger] before[i]).container
                        == front[k].container;
                assert(after[i] == before[i]);
            } else if has_container(before, observed[k].container) {
            } else {
                assert(after[before.len() as int] == observed[k]);
            }
        }
        if distinct {
            assert forall|i: int, j: int| 0 <= i < j < after.len() implies (
            #[trigger] after[i]).container != (#[trigger] after[j]).container by {
                assert(after[i] == before[i]);
                if j < before.len() {
                    assert(after[j] == before[j]);
                }
            }
        }
    }
}

/// Every declared service is listed, running or not.
pub proof fn law_every_declared_service_is_listed(
    declared: Seq<(Seq<char>, ServiceConfigView)>,
    observed: Seq<ServiceStatusView>,
    i: int,
)
    requires
        0 <= i < declared.len(),
    ensures
        merged(declared, observed).contains(declared_row(declared[i], observed)),
        declared_row(declared[i], observed).service == declared[i].0,
        declared_row(declared[i], observed).container == declared[i].1.container_of(
            declared[i].0,
        ),
{
    let rows = declared_rows(declared, observed);
    let all = with_undeclared(rows, observed);
    lemma_with_undeclared(rows, observed, false);
    lemma_seen_in(observed, declared[i].1.container_of(declared[i].0));
    assert(all[i] == rows[i]);
    assert(rows[i] == declared_row(declared[i], observed));
    assert(all.contains(rows[i]));
    lemma_in_order_contains::<ServiceStatus>(all, rows[i]);
}

proof fn lemma_seen_in(observed: Seq<ServiceStatusView>, container: Seq<char>)
    ensures
        seen_in(observed, container) matches Some(seen) ==> seen.container == container,
    decreases observed.len(),
{
    if observed.len() > 0 {
        lemma_seen_in(observed.skip(1), container);
    }
}

/// No container docker knows about is hidden.
pub proof fn law_every_container_is_listed(
    declared: Seq<(Seq<char>, ServiceConfigView)>,
    observed: Seq<ServiceStatusView>,
    k: int,
)
    requires
        0 <= k < observed.len(),
    ensures
        has_container(merged(declared, observed), observed[k].container),
{
    let rows = declared_rows(declared, observed);
    let all = with_undeclared(rows, observed);
    lemma_with_undeclared(rows, observed, false);
    assert(has_container(all, observed[k].container));
    let i = choose|i: int|
        0 <= i < all.len() && (#[trigger] all[i]).container == observed[k].container;
    lemma_in_order_contains::<ServiceStatus>(all, all[i]);
    assert(all.contains(all[i]));
    let at = merged(declared, observed).index_of(all[i]);
    assert(merged(declared, observed)[at].container == observed[k].container);
}

/// Every row is a declared service or an observed container, and the rows come
/// by service name.
pub proof fn law_nothing_else_is_listed(
    declared: Seq<(Seq<char>, ServiceConfigView)>,
    observed: Seq<ServiceStatusView>,
    row: ServiceStatusView,
)
    requires
        merged(declared, observed).contains(row),
    ensures
        declared_rows(declared, observed).contains(row) || observed.contains(row),
        is_ordered::<ServiceStatus>(merged(declared, observed)),
{
    let rows = declared_rows(declared, observed);
    let all = with_undeclared(rows, observed);
    lemma_with_undeclared(rows, observed, false);
    law_sorting_orders_and_keeps::<ServiceStatus>(all);
    lemma_in_order_contains::<ServiceStatus>(all, row);
    let i = all.index_of(row);
    if i < rows.len() {
        assert(rows[i] == row);
    } else {
        assert(all[i] == row);
    }
}

/// Where no two services are declared for one container, no container is listed
/// twice.
pub proof fn law_a_container_is_listed_once(
    declared: Seq<(Seq<char>, ServiceConfigView)>,
    observed: Seq<ServiceStatusView>,
)
    requires
        forall|i: int, j: int|
            0 <= i < j < declared.len() ==> (#[trigger] declared[i]).1.container_of(declared[i].0)
                != (#[trigger] declared[j]).1.container_of(declared[j].0),
    ensures
        forall|i: int, j: int|
            0 <= i < j < merged(declared, observed).len() ==> (#[trigger] merged(
                declared,
                observed,
            )[i]).container != (#[trigger] merged(declared, observed)[j]).container,
{
    broadcast use vstd::seq_lib::group_to_multiset_ensures;

    let rows = declared_rows(declared, observed);
    let all = with_undeclared(rows, observed);
    let sorted = merged(declared, observed);
    assert forall|i: int, j: int| 0 <= i < j < rows.len() implies (#[trigger] rows[i]).container
        != (#[trigger] rows[j]).container by {
        lemma_seen_in(observed, declared[i].1.container_of(declared[i].0));
        lemma_seen_in(observed, declared[j].1.container_of(declared[j].0));
        assert(declared[i].1.container_of(declared[i].0) != declared[j].1.container_of(
            declared[j].0,
        ));
    }
    lemma_with_undeclared(rows, observed, true);
    law_sorting_orders_and_keeps::<ServiceStatus>(all);
    assert(all.no_duplicates()) by {
        assert forall|i: int, j: int| 0 <= i < j < all.len() implies all[i] != all[j] by {
            assert(all[i].container != all[j].container);
        }
    }
    all.lemma_multiset_has_no_duplicates();
    sorted.lemma_multiset_has_no_duplicates_conv();
    assert forall|i: int, j: int| 0 <= i < j < sorted.len() implies (#[trigger] sorted[i]).container
        != (#[trigger] sorted[j]).container by {
        assert(sorted[i] != sorted[j]);
        lemma_in_order_contains::<ServiceStatus>(all, sorted[i]);
        lemma_in_order_contains::<ServiceStatus>(all, sorted[j]);
        assert(sorted.contains(sorted[i]) && sorted.contains(sorted[j]));
        let a = all.index_of(sorted[i]);
        let b = all.index_of(sorted[j]);
        if a < b {
            assert(all[a].container != all[b].container);
        } else {
            assert(all[b].container != all[a].container);
        }
    }
}

/// A declared service that has a container shows what was seen of it, under its
/// declared name, and its declared port where none was seen; one that has none
/// is absent and keeps its declared port.
pub proof fn law_a_declared_service_shows_what_was_seen(
    name: Seq<char>,
    settings: ServiceConfigView,
    observed: Seq<ServiceStatusView>,
    at: int,
)
    ensures
        ({
            let container = if settings.container is Some {
                settings.container->0
            } else {
                name
            };
            let row = declared_row((name, settings), observed);
            &&& row.service == name && row.container == container
            &&& 0 <= at < observed.len() && observed[at].container == container && (forall|i: int|
                0 <= i < at ==> (#[trigger] observed[i]).container != container) ==> {
                let seen = observed[at];
                &&& row.state == seen.state
                &&& row.port_open == seen.port_open
                &&& row.memory_bytes == seen.memory_bytes
                &&& row.port == (if seen.port is Some {
                    seen.port
                } else {
                    settings.port
                })
            }
            &&& (forall|i: int|
                0 <= i < observed.len() ==> (#[trigger] observed[i]).container != container) ==> {
                &&& row.state is Absent
                &&& !row.port_open
                &&& row.memory_bytes is None
                &&& row.port == settings.port
            }
        }),
{
    let container = settings.container_of(name);
    lemma_seen_is_first(observed, container, at);
}

proof fn lemma_seen_is_first(observed: Seq<ServiceStatusView>, container: Seq<char>, at: int)
    ensures
        seen_in(observed, container) matches Some(seen) ==> seen.container == container,
        0 <= at < observed.len() && observed[at].container == container && (forall|i: int|
            0 <= i < at ==> (#[trigger] observed[i]).container != container) ==> seen_in(
            observed,
            container,
        ) == Some(observed[at]),
        (forall|i: int| 0 <= i < observed.len() ==> (#[trigger] observed[i]).container != container)
            ==> seen_in(observed, container) is None,
    decreases observed.len(),
{
    if observed.len() > 0 {
        let rest = observed.skip(1);
        lemma_seen_is_first(rest, container, at - 1);
        assert forall|i: int| 0 <= i < rest.len() implies #[trigger] rest[i] == observed[i + 1] by {}
        if at > 0 && at < observed.len() {
            assert(rest[at - 1] == observed[at]);
        }
    }
}

/// Each service with a domain is routed to its container and its declared port,
/// in the order they are declared; the first that names a domain and no port
/// refuses them all.
pub proof fn law_a_domain_is_routed_to_its_container(
    declared: Seq<(Seq<char>, ServiceConfigView)>,
    name: Seq<char>,
    settings: ServiceConfigView,
    host: Seq<char>,
    port: u16,
)
    ensures
        ({
            let before = routes_for(declared);
            let all = routes_for(declared.push((name, settings)));
            let container = if settings.container is Some {
                settings.container->0
            } else {
                name
            };
            &&& before is Err ==> all == before
            &&& before is Ok && settings.domain is None ==> all == before
            &&& before is Ok && settings.domain is Some && settings.port is None ==> all == Err::<
                Seq<(Seq<char>, Seq<char>)>,
                CatalogErrorView,
            >(CatalogErrorView::DomainWithoutPort { service: name })
            &&& before is Ok && settings.domain == Some(host) && settings.port == Some(port) ==> all
                == Ok::<Seq<(Seq<char>, Seq<char>)>, CatalogErrorView>(
                before->Ok_0.push((host, container + ":"@ + decimal(port as nat))),
            )
        }),
{
    assert(declared.push((name, settings)).drop_last() =~= declared);
}

/// Services are listed by name.
pub proof fn law_services_are_listed_by_name(
    declared: Seq<(Seq<char>, ServiceConfigView)>,
    observed: Seq<ServiceStatusView>,
    i: int,
    j: int,
)
    requires
        0 <= i < j < merged(declared, observed).len(),
    ensures
        !precedes(merged(declared, observed)[j].service, merged(declared, observed)[i].service),
{
    let rows = merged(declared, observed);
    assert(rows.contains(rows[i]));
    law_nothing_else_is_listed(declared, observed, rows[i]);
    assert(ServiceStatus::ranks(rows[i], rows[j]));
}

} // verus!
