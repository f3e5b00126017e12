//! Starting, stopping and finding services.

use crate::catalog::{ServiceConfig, ServiceConfigView};
use crate::domain::{ServiceState, ServiceStatus, ServiceStatusView};
use crate::text::{
    copy_maybe, debug_text, decimal, join, joined, lemma_views_push, maybe_text, number_text,
    quoted, same, views,
};
use vstd::prelude::*;
use vstd::string::*;

verus! {

#[derive(Debug, Clone, Copy, PartialEq, Eq, Structural)]
pub enum Action {
    Start,
    Stop,
    Restart,
}

impl Action {
    /// What was done.
    pub open spec fn done_word(self) -> Seq<char> {
        match self {
            Action::Start => "started"@,
            Action::Stop => "stopped"@,
            Action::Restart => "restarted"@,
        }
    }

    /// What is being done.
    pub open spec fn doing_word(self) -> Seq<char> {
        match self {
            Action::Start => "starting"@,
            Action::Stop => "stopping"@,
            Action::Restart => "restarting"@,
        }
    }

    pub fn done(self) -> (word: &'static str)
        ensures
            word@ == self.done_word(),
    {
        match self {
            Action::Start => "started",
            Action::Stop => "stopped",
            Action::Restart => "restarted",
        }
    }

    pub fn doing(self) -> (word: &'static str)
        ensures
            word@ == self.doing_word(),
    {
        match self {
            Action::Start => "starting",
            Action::Stop => "stopping",
            Action::Restart => "restarting",
        }
    }
}

/// Whether a service goes by this name. The container's name counts too, since
/// that is what `docker ps` shows and what people often type.
pub open spec fn goes_by(service: ServiceStatusView, name: Seq<char>) -> bool {
    service.service == name || service.container == name
}

/// The first service that goes by a name.
pub open spec fn service_called(services: Seq<ServiceStatusView>, name: Seq<char>) -> Option<
    ServiceStatusView,
>
    decreases services.len(),
{
    if services.len() == 0 {
        None
    } else if goes_by(services[0], name) {
        Some(services[0])
    } else {
        service_called(services.skip(1), name)
    }
}

/// Finds the first service that goes by a name.
pub fn find_service<'a>(services: &'a [ServiceStatus], name: &str) -> (found: Option<
    &'a ServiceStatus,
>)
    ensures
        match found {
            Some(service) => service_called(views(services@), name@) == Some(service@),
            None => service_called(views(services@), name@) is None,
        },
{
    let ghost all = views(services@);
    let mut i: usize = 0;
    assert(all.skip(0) =~= all);
    while i < services.len()
        invariant
            i <= services@.len(),
            all == views(services@),
            service_called(all, name@) == service_called(all.skip(i as int), name@),
        decreases services@.len() - i,
    {
        assert(all.skip(i as int)[0] == services@[i as int]@);
        assert(all.skip(i as int).skip(1) =~= all.skip(i + 1));
        if same(services[i].service.as_str(), name) || same(services[i].container.as_str(), name) {
            return Some(&services[i]);
        }
        i = i + 1;
    }
    None
}

/// What is said of a service that was declared but never created.
pub open spec fn create_first(name: Seq<char>, container: Seq<char>) -> Seq<char> {
    debug_text(name) + " is declared but has no container called "@ + debug_text(container)
        + " — create it first (docker compose up -d "@ + name + ")"@
}

fn create_first_text(name: &str, container: &str) -> (text: String)
    ensures
        text@ == create_first(name@, container@),
{
    let mut text = quoted(name);
    text.append(" is declared but has no container called ");
    text.append(quoted(container).as_str());
    text.append(" — create it first (docker compose up -d ");
    text.append(name);
    text.append(")");
    text
}

/// What is said of a name nobody recognises.
pub open spec fn no_service(name: Seq<char>) -> Seq<char> {
    "no service called "@ + debug_text(name)
}

fn no_service_text(name: &str) -> (text: String)
    ensures
        text@ == no_service(name@),
{
    let mut text = "no service called ".to_owned();
    text.append(quoted(name).as_str());
    text
}

/// The names of the services.
pub open spec fn service_names(services: Seq<ServiceStatusView>) -> Seq<Seq<char>> {
    services.map_values(|service: ServiceStatusView| service.service)
}

fn names_of(services: &[ServiceStatus]) -> (names: Vec<String>)
    ensures
        views(names@) == service_names(views(services@)),
{
    broadcast use lemma_views_push;

    let ghost all = service_names(views(services@));
    let mut names: Vec<String> = Vec::new();
    let mut i: usize = 0;
    while i < services.len()
        invariant
            i <= services@.len(),
            all == service_names(views(services@)),
            views(names@) == all.take(i as int),
        decreases services@.len() - i,
    {
        names.push(services[i].service.clone());
        assert(all[i as int] == services@[i as int].service@);
        assert(all.take(i + 1) =~= all.take(i as int).push(all[i as int]));
        i = i + 1;
    }
    assert(all.take(i as int) =~= all);
    names
}

/// The container behind a service name, or what keeps it from being found.
pub open spec fn container_behind(services: Seq<ServiceStatusView>, name: Seq<char>) -> Result<
    Seq<char>,
    Seq<char>,
> {
    match service_called(services, name) {
        Some(service) => if service.state == ServiceState::Absent {
            Err(create_first(name, service.container))
        } else {
            Ok(service.container)
        },
        None => Err(
            no_service(name) + "; known: "@ + joined(service_names(services), ", "@),
        ),
    }
}

/// Finds the container behind a service name.
///
/// Declared services are searched alongside the running ones, so a name that
/// only exists in the configuration still resolves — and a service that was
/// declared but never created says so, instead of being reported as unknown.
pub fn container_of(services: &[ServiceStatus], service: &str) -> (container: Result<
    String,
    String,
>)
    ensures
        match container {
            Ok(container) => container_behind(views(services@), service@) == Ok::<
                Seq<char>,
                Seq<char>,
            >(container@),
            Err(reason) => container_behind(views(services@), service@) == Err::<
                Seq<char>,
                Seq<char>,
            >(reason@),
        },
{
    match find_service(services, service) {
        Some(found) => match found.state {
            ServiceState::Absent => Err(create_first_text(service, found.container.as_str())),
            _ => Ok(found.container.clone()),
        },
        None => {
            let mut reason = no_service_text(service);
            reason.append("; known: ");
            reason.append(join(names_of(services).as_slice(), ", ").as_str());
            Err(reason)
        },
    }
}

/// What to do about one name.
#[derive(Debug, Clone, PartialEq, Eq)]
pub enum Step {
    /// Act on this container.
    Act { container: String },
    /// Say this and carry on with the next name.
    Refuse(String),
}

/// What a step says.
#[verifier::ext_equal]
pub enum StepView {
    Act { container: Seq<char> },
    Refuse(Seq<char>),
}

impl View for Step {
    type V = StepView;

    open spec fn view(&self) -> StepView {
        match self {
            Step::Act { container } => StepView::Act { container: container@ },
            Step::Refuse(reason) => StepView::Refuse(reason@),
        }
    }
}

/// What to do about a name.
pub open spec fn step_for(services: Seq<ServiceStatusView>, name: Seq<char>) -> StepView {
    match service_called(services, name) {
        None => StepView::Refuse(no_service(name)),
        Some(service) => if service.state == ServiceState::Absent {
            StepView::Refuse(create_first(name, service.container))
        } else {
            StepView::Act { container: service.container }
        },
    }
}

/// The names that are acted on: those given, or the name of every service that
/// has a container.
pub open spec fn chosen_names(
    services: Seq<ServiceStatusView>,
    names: Seq<Seq<char>>,
    all: bool,
) -> Seq<Seq<char>> {
    if all {
        service_names(
            services.filter(|service: ServiceStatusView| service.state != ServiceState::Absent),
        )
    } else {
        names
    }
}

/// What to do, name by name.
pub open spec fn steps_for(
    services: Seq<ServiceStatusView>,
    names: Seq<Seq<char>>,
    all: bool,
) -> Seq<StepView> {
    chosen_names(services, names, all).map_values(|name: Seq<char>| step_for(services, name))
}

fn present_names(services: &[ServiceStatus]) -> (names: Vec<String>)
    ensures
        views(names@) == chosen_names(views(services@), seq![], true),
{
    broadcast use lemma_views_push;

    let ghost all = views(services@);
    let ghost keep = |service: ServiceStatusView| service.state != ServiceState::Absent;
    let mut names: Vec<String> = Vec::new();
    let mut i: usize = 0;
    proof {
        reveal(Seq::filter);
        assert(service_names(all.take(0).filter(keep)) =~= seq![]);
        assert(views(names@) =~= seq![]);
    }
    while i < services.len()
        invariant
            i <= services@.len(),
            all == views(services@),
            keep == (|service: ServiceStatusView| service.state != ServiceState::Absent),
            views(names@) == service_names(all.take(i as int).filter(keep)),
        decreases services@.len() - i,
    {
        let ghost before = all.take(i as int).filter(keep);
        proof {
            reveal(Seq::filter);
            assert(all.take(i + 1).drop_last() =~= all.take(i as int));
            assert(all.take(i + 1).last() == services@[i as int]@);
        }
        match services[i].state {
            ServiceState::Absent => {},
            _ => {
                names.push(services[i].service.clone());
                assert(service_names(before.push(services@[i as int]@)) =~= service_names(
                    before,
                ).push(services@[i as int].service@));
            },
        }
        i = i + 1;
    }
    assert(all.take(i as int) =~= all);
    names
}

/// Decides what to do about each name.
///
/// With `all` the names are taken from what docker reports rather than from the
/// command line, and a declared service with no container is skipped rather
/// than attempted: it should not turn into a row of failures for services the
/// user never asked about by name.
pub fn steps(services: &[ServiceStatus], names: &[String], all: bool) -> (steps: Vec<Step>)
    ensures
        views(steps@) == steps_for(views(services@), views(names@), all),
{
    broadcast use lemma_views_push;

    let chosen = if all {
        present_names(services)
    } else {
        crate::text::copy_texts(names)
    };
    let ghost picked = chosen_names(views(services@), views(names@), all);
    let ghost expected = steps_for(views(services@), views(names@), all);
    assert(views(chosen@) =~= picked);
    let mut steps: Vec<Step> = Vec::new();
    let mut i: usize = 0;
    while i < chosen.len()
        invariant
            i <= chosen@.len(),
            views(chosen@) == picked,
            expected == picked.map_values(|name: Seq<char>| step_for(views(services@), name)),
            views(steps@) == expected.take(i as int),
        decreases chosen@.len() - i,
    {
        let name = chosen[i].as_str();
        assert(picked[i as int] == name@) by {
            assert(views(chosen@)[i as int] == chosen@[i as int]@);
        }
        let step = match find_service(services, name) {
            // One name nobody recognises must not cancel the others: a typo in
            // the third argument should not leave the first two untouched.
            None => Step::Refuse(no_service_text(name)),
            Some(service) => match service.state {
                ServiceState::Absent => Step::Refuse(
                    create_first_text(name, service.container.as_str()),
                ),
                _ => Step::Act { container: service.container.clone() },
            },
        };
        steps.push(step);
        assert(expected.take(i + 1) =~= expected.take(i as int).push(expected[i as int]));
        i = i + 1;
    }
    assert(expected.take(i as int) =~= expected);
    steps
}

/// What is said once an action has been tried.
pub open spec fn tried(action: Action, container: Seq<char>, failure: Option<Seq<char>>) -> Result<
    Seq<char>,
    Seq<char>,
> {
    match failure {
        None => Ok(action.done_word() + " "@ + container),
        Some(error) => Err(
            container + " could not be "@ + action.done_word() + ": "@ + error,
        ),
    }
}

/// What to say once an action has been tried.
pub fn report_action(action: Action, container: &str, failure: &Option<String>) -> (said: Result<
    String,
    String,
>)
    ensures
        match said {
            Ok(text) => tried(action, container@, maybe_text(*failure)) == Ok::<
                Seq<char>,
                Seq<char>,
            >(text@),
            Err(text) => tried(action, container@, maybe_text(*failure)) == Err::<
                Seq<char>,
                Seq<char>,
            >(text@),
        },
{
    match failure {
        None => {
            let mut text = action.done().to_owned();
            text.append(" ");
            text.append(container);
            Ok(text)
        },
        Some(error) => {
            let mut text = container.to_owned();
            text.append(" could not be ");
            text.append(action.done());
            text.append(": ");
            text.append(error.as_str());
            Err(text)
        },
    }
}

/// The database account configured for a service. What it leaves out is left
/// to the container's own environment.
#[derive(Debug, Clone, PartialEq, Eq)]
pub struct Account {
    pub user: Option<String>,
    pub password: Option<String>,
    pub password_env: Option<String>,
}

/// What the first declaration that goes by a name says. Either the declared
/// name or the container it names is a reasonable thing to have typed.
pub open spec fn declared_for(
    declared: Seq<(Seq<char>, ServiceConfigView)>,
    service: Seq<char>,
) -> Option<ServiceConfigView>
    decreases declared.len(),
{
    if declared.len() == 0 {
        None
    } else if declared[0].0 == service || declared[0].1.container_of(declared[0].0) == service {
        Some(declared[0].1)
    } else {
        declared_for(declared.skip(1), service)
    }
}

fn find_declared<'a>(declared: &'a [(String, ServiceConfig)], service: &str) -> (found: Option<
    &'a ServiceConfig,
>)
    ensures
        match found {
            Some(settings) => declared_for(views(declared@), service@) == Some(settings@),
            None => declared_for(views(declared@), service@) is None,
        },
{
    let ghost all = views(declared@);
    let mut i: usize = 0;
    assert(all.skip(0) =~= all);
    while i < declared.len()
        invariant
            i <= declared@.len(),
            all == views(declared@),
            declared_for(all, service@) == declared_for(all.skip(i as int), service@),
        decreases declared@.len() - i,
    {
        assert(all.skip(i as int)[0] == declared@[i as int]@);
        assert(all.skip(i as int).skip(1) =~= all.skip(i + 1));
        let name = declared[i].0.as_str();
        if same(name, service) || same(declared[i].1.container_for(name).as_str(), service) {
            return Some(&declared[i].1);
        }
        i = i + 1;
    }
    None
}

/// The database account configured for a service, or an empty one that leaves
/// the container's own environment to answer.
pub fn account_for(declared: &[(String, ServiceConfig)], service: &str) -> (account: Account)
    ensures
        match declared_for(views(declared@), service@) {
            Some(settings) => {
                &&& maybe_text(account.user) == settings.user
                &&& maybe_text(account.password) == settings.password
                &&& maybe_text(account.password_env) == settings.password_env
            },
            None => account.user is None && account.password is None && account.password_env
                is None,
        },
{
    match find_declared(declared, service) {
        Some(settings) => Account {
            user: copy_maybe(&settings.user),
            password: copy_maybe(&settings.password),
            password_env: copy_maybe(&settings.password_env),
        },
        None => Account { user: None, password: None, password_env: None },
    }
}

/// The page a service says is worth opening.
pub open spec fn panel_of(
    declared: Seq<(Seq<char>, ServiceConfigView)>,
    service: Seq<char>,
) -> Option<Seq<char>> {
    match declared_for(declared, service) {
        Some(settings) => settings.panel,
        None => None,
    }
}

/// The page a service says is worth opening, if it named one.
pub fn panel_for(declared: &[(String, ServiceConfig)], service: &str) -> (panel: Option<String>)
    ensures
        maybe_text(panel) == panel_of(views(declared@), service@),
{
    match find_declared(declared, service) {
        Some(settings) => copy_maybe(&settings.panel),
        None => None,
    }
}

/// The address of a port on this machine.
pub open spec fn local_address(port: u16) -> Seq<char> {
    "http://localhost:"@ + decimal(port as nat)
}

/// The address of a port on this machine.
pub fn local_url(port: u16) -> (url: String)
    ensures
        url@ == local_address(port),
{
    let mut url = "http://localhost:".to_owned();
    url.append(number_text(port as u64).as_str());
    url
}

/// What opening a service by name comes to: its address, or that it has none;
/// nothing where no service goes by the name.
pub open spec fn address_of(services: Seq<ServiceStatusView>, target: Seq<char>) -> Option<
    Result<Seq<char>, Seq<char>>,
> {
    match service_called(services, target) {
        None => None,
        Some(service) => match service.port {
            Some(port) => Some(Ok(local_address(port))),
            None => Some(Err(target + " publishes no port to open"@)),
        },
    }
}

/// The address to open for a service of this name.
pub fn service_url(services: &[ServiceStatus], target: &str) -> (url: Option<
    Result<String, String>,
>)
    ensures
        match url {
            None => address_of(views(services@), target@) is None,
            Some(Ok(url)) => address_of(views(services@), target@) == Some(
                Ok::<Seq<char>, Seq<char>>(url@),
            ),
            Some(Err(reason)) => address_of(views(services@), target@) == Some(
                Err::<Seq<char>, Seq<char>>(reason@),
            ),
        },
{
    match find_service(services, target) {
        None => None,
        Some(service) => match service.port {
            Some(port) => Some(Ok(local_url(port))),
            None => {
                let mut reason = target.to_owned();
                reason.append(" publishes no port to open");
                Some(Err(reason))
            },
        },
    }
}

/// A service with its memory filled in. Only a running container is asked: a
/// stopped one has nothing to report.
pub open spec fn with_memory(service: ServiceStatusView, reading: Option<u64>) -> ServiceStatusView {
    ServiceStatusView {
        memory_bytes: if service.state == ServiceState::Running {
            reading
        } else {
            None
        },
        ..service
    }
}

/// Fills in memory use for the containers that are running.
pub fn fill_memory(services: &mut Vec<ServiceStatus>, readings: &Vec<Option<u64>>)
    requires
        old(services)@.len() == readings@.len(),
    ensures
        final(services)@.len() == old(services)@.len(),
        forall|i: int|
            0 <= i < old(services)@.len() ==> (#[trigger] views(final(services)@)[i])
                == with_memory(views(old(services)@)[i], readings@[i]),
{
    let ghost before = views(services@);
    let mut i: usize = 0;
    while i < services.len()
        invariant
            i <= services@.len(),
            services@.len() == before.len(),
            services@.len() == readings@.len(),
            forall|j: int|
                0 <= j < i ==> (#[trigger] services@[j])@ == with_memory(before[j], readings@[j]),
            forall|j: int| i <= j < services@.len() ==> (#[trigger] services@[j])@ == before[j],
        decreases services@.len() - i,
    {
        assert(services@[i as int]@ == before[i as int]);
        let mut service = services[i].copy();
        service.memory_bytes = match service.state {
            ServiceState::Running => readings[i],
            _ => None,
        };
        services.set(i, service);
        assert(services@[i as int]@ == with_memory(before[i as int], readings@[i as int]));
        i = i + 1;
    }
    assert forall|i: int| 0 <= i < before.len() implies (#[trigger] views(services@)[i])
        == with_memory(before[i], readings@[i]) by {
        assert(views(services@)[i] == services@[i]@);
    }
}

/// What is said of a step, once what it asks for has been tried.
pub open spec fn said_of(action: Action, step: StepView, failure: Option<Seq<char>>) -> Result<
    Seq<char>,
    Seq<char>,
> {
    match step {
        StepView::Refuse(reason) => Err(reason),
        StepView::Act { container } => tried(action, container, failure),
    }
}

/// Says what became of a step. `failure` is docker's answer where the step asked
/// for something; a step that refuses asks for nothing.
pub fn say(action: Action, step: &Step, failure: &Option<String>) -> (said: Result<String, String>)
    ensures
        match said {
            Ok(text) => said_of(action, step@, maybe_text(*failure)) == Ok::<
                Seq<char>,
                Seq<char>,
            >(text@),
            Err(text) => said_of(action, step@, maybe_text(*failure)) == Err::<
                Seq<char>,
                Seq<char>,
            >(text@),
        },
{
    match step {
        Step::Refuse(reason) => Err(reason.clone()),
        Step::Act { container } => report_action(action, container.as_str(), failure),
    }
}

/// What a command that did several things ends with: success only where every
/// one of them went well.
pub open spec fn ends_with(went_well: Seq<bool>) -> u8 {
    if exists|i: int| 0 <= i < went_well.len() && !#[trigger] went_well[i] {
        2
    } else {
        0
    }
}

/// What a command ends with after all that it said.
pub fn ended_with(said: &[Result<String, String>]) -> (code: u8)
    ensures
        code == ends_with(Seq::new(said@.len(), |i: int| said@[i] is Ok)),
        code == if exists|i: int| 0 <= i < said@.len() && #[trigger] said@[i] is Err {
            2u8
        } else {
            0u8
        },
{
    let ghost went_well = Seq::new(said@.len(), |i: int| said@[i] is Ok);
    let mut i: usize = 0;
    while i < said.len()
        invariant
            i <= said@.len(),
            went_well == Seq::new(said@.len(), |i: int| said@[i] is Ok),
            forall|j: int| 0 <= j < i ==> #[trigger] said@[j] is Ok,
        decreases said@.len() - i,
    {
        if said[i].is_err() {
            assert(!went_well[i as int]);
            return 2;
        }
        i = i + 1;
    }
    assert forall|j: int| 0 <= j < went_well.len() implies #[trigger] went_well[j] by {
        assert(said@[j] is Ok);
    }
    0
}

/// How every chosen name went, by what docker answered for each.
pub open spec fn round(
    services: Seq<ServiceStatusView>,
    names: Seq<Seq<char>>,
    all: bool,
    action: Action,
    failures: Seq<Option<Seq<char>>>,
) -> Seq<bool> {
    let steps = steps_for(services, names, all);
    Seq::new(steps.len(), |i: int| said_of(action, steps[i], failures[i]) is Ok)
}

/// Starting, stopping and restarting succeed only where every chosen name
/// belongs to a container that exists and docker accepted the action on it;
/// otherwise the command ends with two, and no name is passed over for what
/// became of those before it.
pub proof fn law_success_means_every_name_was_acted_on(
    services: Seq<ServiceStatusView>,
    names: Seq<Seq<char>>,
    all: bool,
    action: Action,
    failures: Seq<Option<Seq<char>>>,
)
    requires
        failures.len() == chosen_names(services, names, all).len(),
    ensures
        round(services, names, all, action, failures).len() == chosen_names(
            services,
            names,
            all,
        ).len(),
        ends_with(round(services, names, all, action, failures)) == if forall|i: int|
            0 <= i < failures.len() ==> {
                &&& service_called(
                    services,
                    #[trigger] chosen_names(services, names, all)[i],
                ) matches Some(service)
                &&& service.state != ServiceState::Absent
                &&& failures[i] is None
            } {
            0u8
        } else {
            2u8
        },
{
    let chosen = chosen_names(services, names, all);
    let steps = steps_for(services, names, all);
    let went = round(services, names, all, action, failures);
    assert forall|i: int| 0 <= i < failures.len() implies #[trigger] went[i] == {
        &&& service_called(services, chosen[i]) matches Some(service)
        &&& service.state != ServiceState::Absent
        &&& failures[i] is None
    } by {
        assert(steps[i] == step_for(services, chosen[i]));
    }
    if exists|i: int| 0 <= i < went.len() && !#[trigger] went[i] {
        let i = choose|i: int| 0 <= i < went.len() && !#[trigger] went[i];
        assert(chosen[i] == chosen[i]);
    } else {
        assert forall|i: int| 0 <= i < failures.len() implies {
            &&& service_called(services, #[trigger] chosen[i]) matches Some(service)
            &&& service.state != ServiceState::Absent
            &&& failures[i] is None
        } by {
            assert(went[i]);
        }
    }
}

/// One name nobody recognises does not cancel the others: every name gets its
/// own step, decided by that name alone.
pub proof fn law_every_name_gets_its_step(
    services: Seq<ServiceStatusView>,
    names: Seq<Seq<char>>,
    i: int,
)
    requires
        0 <= i < names.len(),
    ensures
        steps_for(services, names, false).len() == names.len(),
        steps_for(services, names, false)[i] == step_for(services, names[i]),
{
}

/// A service that was declared but never created is never acted on.
pub proof fn law_an_absent_service_is_not_acted_on(
    services: Seq<ServiceStatusView>,
    name: Seq<char>,
)
    ensures
        step_for(services, name) is Act <==> (service_called(services, name) matches Some(service)
            && service.state != ServiceState::Absent),
        step_for(services, name) is Act <==> container_behind(services, name) is Ok,
{
}

/// A service goes by its own name or by its container's, and the first that goes
/// by a name is meant.
pub proof fn law_a_service_goes_by_either_name(
    services: Seq<ServiceStatusView>,
    name: Seq<char>,
    at: int,
)
    ensures
        0 <= at < services.len() && (services[at].service == name || services[at].container == name)
            && (forall|i: int|
            0 <= i < at ==> (#[trigger] services[i]).service != name && services[i].container
                != name) ==> service_called(services, name) == Some(services[at]),
        (forall|i: int|
            0 <= i < services.len() ==> (#[trigger] services[i]).service != name
                && services[i].container != name) ==> service_called(services, name) is None,
    decreases services.len(),
{
    if services.len() > 0 {
        let rest = services.skip(1);
        law_a_service_goes_by_either_name(rest, name, at - 1);
        assert forall|i: int| 0 <= i < rest.len() implies #[trigger] rest[i] == services[i + 1] by {}
        if 0 < at < services.len() {
            assert(rest[at - 1] == services[at]);
        }
    }
}

/// All means every service that has a container, in the order they are listed;
/// otherwise exactly the names that were given are meant.
pub proof fn law_all_means_what_has_a_container(
    services: Seq<ServiceStatusView>,
    names: Seq<Seq<char>>,
    service: ServiceStatusView,
)
    ensures
        chosen_names(services, names, false) == names,
        service.state is Absent ==> chosen_names(services.push(service), names, true)
            == chosen_names(services, names, true),
        !(service.state is Absent) ==> chosen_names(services.push(service), names, true)
            == chosen_names(services, names, true).push(service.service),
        chosen_names(seq![], names, true).len() == 0,
{
    reveal(Seq::filter);
    let keep = |service: ServiceStatusView| service.state != ServiceState::Absent;
    assert(services.push(service).drop_last() =~= services);
    assert(services.push(service).last() == service);
    if !(service.state is Absent) {
        assert(services.push(service).filter(keep) == services.filter(keep).push(service));
        assert(service_names(services.filter(keep).push(service)) =~= service_names(
            services.filter(keep),
        ).push(service.service));
    }
    assert(Seq::<ServiceStatusView>::empty().filter(keep).len() == 0);
}

/// A step acts on the container of the service that was named; a service without
/// one, and a name that nothing goes by, are refused by name.
pub proof fn law_a_step_acts_on_the_container(
    services: Seq<ServiceStatusView>,
    name: Seq<char>,
    service: ServiceStatusView,
)
    ensures
        service_called(services, name) == Some(service) && !(service.state is Absent) ==> step_for(
            services,
            name,
        ) == (StepView::Act { container: service.container }) && container_behind(services, name)
            == Ok::<Seq<char>, Seq<char>>(service.container),
        service_called(services, name) == Some(service) && service.state is Absent ==> step_for(
            services,
            name,
        ) == StepView::Refuse(
            debug_text(name) + " is declared but has no container called "@ + debug_text(
                service.container,
            ) + " — create it first (docker compose up -d "@ + name + ")"@,
        ),
        service_called(services, name) is None ==> step_for(services, name) == StepView::Refuse(
            "no service called "@ + debug_text(name),
        ),
{
}

/// What was done is told with its container; what failed with the reason, in the
/// words of the action.
pub proof fn law_an_outcome_is_told(action: Action, container: Seq<char>, error: Seq<char>)
    ensures
        ({
            let word = match action {
                Action::Start => "started"@,
                Action::Stop => "stopped"@,
                Action::Restart => "restarted"@,
            };
            &&& tried(action, container, None) == Ok::<Seq<char>, Seq<char>>(
                word + " "@ + container,
            )
            &&& tried(action, container, Some(error)) == Err::<Seq<char>, Seq<char>>(
                container + " could not be "@ + word + ": "@ + error,
            )
        }),
        action.doing_word() == (match action {
            Action::Start => "starting"@,
            Action::Stop => "stopping"@,
            Action::Restart => "restarting"@,
        }),
{
}

/// What is declared of a service is found by its name or by its container's, the
/// first that fits.
pub proof fn law_a_declaration_is_found_by_either_name(
    declared: Seq<(Seq<char>, ServiceConfigView)>,
    service: Seq<char>,
    name: Seq<char>,
    settings: ServiceConfigView,
)
    ensures
        name == service || settings.container == Some(service) ==> declared_for(
            seq![(name, settings)] + declared,
            service,
        ) == Some(settings) && panel_of(seq![(name, settings)] + declared, service)
            == settings.panel,
        name != service && settings.container != Some(service) ==> declared_for(
            seq![(name, settings)] + declared,
            service,
        ) == declared_for(declared, service),
        declared_for(seq![], service) is None && panel_of(seq![], service) is None,
{
    let all = seq![(name, settings)] + declared;
    assert(all[0] == (name, settings));
    assert(all.skip(1) =~= declared);
}

/// A service is opened on this machine at the port it publishes; one that
/// publishes none is refused, and a name that nothing goes by is no service.
pub proof fn law_a_service_is_opened_at_its_port(
    services: Seq<ServiceStatusView>,
    target: Seq<char>,
    service: ServiceStatusView,
    port: u16,
)
    ensures
        service_called(services, target) == Some(service) && service.port == Some(port)
            ==> address_of(services, target) == Some(
            Ok::<Seq<char>, Seq<char>>("http://localhost:"@ + decimal(port as nat)),
        ),
        service_called(services, target) == Some(service) && service.port is None ==> address_of(
            services,
            target,
        ) == Some(Err::<Seq<char>, Seq<char>>(target + " publishes no port to open"@)),
        service_called(services, target) is None ==> address_of(services, target) is None,
{
}

/// Memory is shown of what runs and of nothing else, and changes nothing else.
pub proof fn law_memory_is_of_what_runs(service: ServiceStatusView, reading: Option<u64>)
    ensures
        with_memory(service, reading).memory_bytes == (if service.state is Running {
            reading
        } else {
            None
        }),
        with_memory(service, reading).container == service.container,
        with_memory(service, reading).service == service.service,
        with_memory(service, reading).port == service.port,
        with_memory(service, reading).state == service.state,
        with_memory(service, reading).port_open == service.port_open,
{
}

} // verus!
