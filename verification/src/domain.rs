//! What the collectors produce. No I/O happens here.

use crate::order::{lemma_not_after_orders, precedes, text_precedes, Ranked};
use crate::text::{copy_maybe, decimal, has_part, maybe_text, number_text, parts_of};
use vstd::prelude::*;
use vstd::string::*;

verus! {

/// What a project is built with, decided from the marker files in its directory.
#[derive(Debug, Clone, Copy, PartialEq, Eq, Structural)]
pub enum Stack {
    Laravel,
    Php,
    Node,
    Go,
    Rust,
    Python,
    Unknown,
}

/// The stack that marker files of these names mean, the more specific first.
pub open spec fn stack_of(markers: Seq<Seq<char>>) -> Stack {
    if markers.contains("artisan"@) && markers.contains("composer.json"@) {
        Stack::Laravel
    } else if markers.contains("composer.json"@) {
        Stack::Php
    } else if markers.contains("go.mod"@) {
        Stack::Go
    } else if markers.contains("Cargo.toml"@) {
        Stack::Rust
    } else if markers.contains("pyproject.toml"@) {
        Stack::Python
    } else if markers.contains("package.json"@) {
        Stack::Node
    } else {
        Stack::Unknown
    }
}

impl Stack {
    /// Precedence is deliberate rather than incidental. A Laravel project also
    /// ships `composer.json`, so the more specific marker has to win no matter
    /// what order the directory listing happened to return.
    pub fn from_markers(markers: &[&str]) -> (stack: Stack)
        ensures
            stack == stack_of(parts_of(markers@)),
    {
        if has_part(markers, "artisan") && has_part(markers, "composer.json") {
            Stack::Laravel
        } else if has_part(markers, "composer.json") {
            Stack::Php
        } else if has_part(markers, "go.mod") {
            Stack::Go
        } else if has_part(markers, "Cargo.toml") {
            Stack::Rust
        } else if has_part(markers, "pyproject.toml") {
            Stack::Python
        } else if has_part(markers, "package.json") {
            Stack::Node
        } else {
            Stack::Unknown
        }
    }
}

/// The stack does not depend on the order a directory listing returns: two
/// listings of the same names give the same stack.
pub proof fn law_stack_ignores_listing_order(one: Seq<Seq<char>>, other: Seq<Seq<char>>)
    requires
        forall|name: Seq<char>| one.contains(name) == other.contains(name),
    ensures
        stack_of(one) == stack_of(other),
{
}

/// Git state of one working tree. `branch` is `None` when the directory is not
/// a repository at all, which is a different thing from a repository with no
/// commits.
#[derive(Debug, Clone, PartialEq, Eq)]
pub struct GitStatus {
    pub branch: Option<String>,
    pub modified: usize,
    pub untracked: usize,
}

/// What a git state says.
#[verifier::ext_equal]
pub struct GitStatusView {
    pub branch: Option<Seq<char>>,
    pub modified: usize,
    pub untracked: usize,
}

impl View for GitStatus {
    type V = GitStatusView;

    open spec fn view(&self) -> GitStatusView {
        GitStatusView {
            branch: maybe_text(self.branch),
            modified: self.modified,
            untracked: self.untracked,
        }
    }
}

impl GitStatusView {
    /// Whether anything was changed or added.
    pub open spec fn dirty(self) -> bool {
        self.modified > 0 || self.untracked > 0
    }

    /// The marker in a list row: each count that is not zero, behind its sign.
    pub open spec fn badge_text(self) -> Seq<char> {
        let changed = "*"@ + decimal(self.modified as nat);
        let added = "?"@ + decimal(self.untracked as nat);
        if self.modified == 0 && self.untracked == 0 {
            seq![]
        } else if self.untracked == 0 {
            changed
        } else if self.modified == 0 {
            added
        } else {
            changed + " "@ + added
        }
    }
}

impl GitStatus {
    pub fn clean(branch: &str) -> (status: Self)
        ensures
            status@ == (GitStatusView { branch: Some(branch@), modified: 0, untracked: 0 }),
    {
        GitStatus { branch: Some(branch.to_owned()), modified: 0, untracked: 0 }
    }

    pub fn not_a_repository() -> (status: Self)
        ensures
            status@ == (GitStatusView { branch: None, modified: 0, untracked: 0 }),
    {
        GitStatus { branch: None, modified: 0, untracked: 0 }
    }

    pub fn is_dirty(&self) -> (dirty: bool)
        ensures
            dirty == self@.dirty(),
    {
        self.modified > 0 || self.untracked > 0
    }

    /// Compact marker for a list row. Empty when there is nothing to report,
    /// so callers can render it unconditionally.
    pub fn badge(&self) -> (badge: String)
        ensures
            badge@ == self@.badge_text(),
    {
        if self.modified == 0 && self.untracked == 0 {
            return String::new();
        }
        let mut changed = "*".to_owned();
        changed.append(number_text(self.modified as u64).as_str());
        let mut added = "?".to_owned();
        added.append(number_text(self.untracked as u64).as_str());
        if self.untracked == 0 {
            changed
        } else if self.modified == 0 {
            added
        } else {
            changed.append(" ");
            changed.append(added.as_str());
            changed
        }
    }

    /// The same state again.
    pub fn copy(&self) -> (copy: Self)
        ensures
            copy@ == self@,
    {
        GitStatus {
            branch: copy_maybe(&self.branch),
            modified: self.modified,
            untracked: self.untracked,
        }
    }
}

/// A badge is empty exactly when there is nothing to report.
pub proof fn law_badge_is_empty_when_clean(status: GitStatusView)
    ensures
        status.badge_text().len() == 0 <==> !status.dirty(),
{
    reveal_strlit("*");
    reveal_strlit("?");
    reveal_strlit(" ");
}

/// One directory recognised as a project.
#[derive(Debug, Clone, PartialEq, Eq)]
pub struct Project {
    pub name: String,
    /// The directory the project was grouped under, when the root has one
    /// level of categories. `None` when the project sits directly in a root.
    pub category: Option<String>,
    pub path: String,
    pub stack: Stack,
    /// What the project is built with and at which version, when its manifests
    /// say.
    pub framework: Option<String>,
    pub git: GitStatus,
}

/// What a project says.
#[verifier::ext_equal]
pub struct ProjectView {
    pub name: Seq<char>,
    pub category: Option<Seq<char>>,
    pub path: Seq<char>,
    pub stack: Stack,
    pub framework: Option<Seq<char>>,
    pub git: GitStatusView,
}

impl View for Project {
    type V = ProjectView;

    open spec fn view(&self) -> ProjectView {
        ProjectView {
            name: self.name@,
            category: maybe_text(self.category),
            path: self.path@,
            stack: self.stack,
            framework: maybe_text(self.framework),
            git: self.git@,
        }
    }
}

impl Project {
    /// The same project again.
    pub fn copy(&self) -> (copy: Self)
        ensures
            copy@ == self@,
    {
        Project {
            name: self.name.clone(),
            category: copy_maybe(&self.category),
            path: self.path.clone(),
            stack: self.stack,
            framework: copy_maybe(&self.framework),
            git: self.git.copy(),
        }
    }
}

#[derive(Debug, Clone, Copy, PartialEq, Eq, Structural)]
pub enum ServiceState {
    Running,
    Stopped,
    /// Declared, with no container to run it.
    Absent,
}

/// One container from the compose file, as last observed.
#[derive(Debug, Clone, PartialEq, Eq)]
pub struct ServiceStatus {
    pub container: String,
    pub service: String,
    pub port: Option<u16>,
    pub state: ServiceState,
    pub port_open: bool,
    pub memory_bytes: Option<u64>,
}

/// What a service says.
#[verifier::ext_equal]
pub struct ServiceStatusView {
    pub container: Seq<char>,
    pub service: Seq<char>,
    pub port: Option<u16>,
    pub state: ServiceState,
    pub port_open: bool,
    pub memory_bytes: Option<u64>,
}

impl View for ServiceStatus {
    type V = ServiceStatusView;

    open spec fn view(&self) -> ServiceStatusView {
        ServiceStatusView {
            container: self.container@,
            service: self.service@,
            port: self.port,
            state: self.state,
            port_open: self.port_open,
            memory_bytes: self.memory_bytes,
        }
    }
}

impl ServiceStatusView {
    /// Running is not the same as usable: the port has to answer too.
    pub open spec fn reachable(self) -> bool {
        self.state == ServiceState::Running && self.port_open
    }

    /// One word for what a service is doing.
    pub open spec fn condition_word(self) -> Seq<char> {
        match self.state {
            ServiceState::Absent => "absent"@,
            ServiceState::Stopped => "stopped"@,
            ServiceState::Running => if self.port_open {
                "ready"@
            } else if self.port is Some {
                "starting"@
            } else {
                "running"@
            },
        }
    }
}

impl Ranked for ServiceStatus {
    open spec fn ranks(a: ServiceStatusView, b: ServiceStatusView) -> bool {
        !precedes(b.service, a.service)
    }

    proof fn ranks_totally(a: ServiceStatusView, b: ServiceStatusView, c: ServiceStatusView) {
        lemma_not_after_orders(a.service, b.service, c.service);
    }

    fn not_after(&self, other: &Self) -> bool {
        !text_precedes(other.service.as_str(), self.service.as_str())
    }
}

impl ServiceStatus {
    /// Running is not the same as usable. A database container reports itself
    /// up long before it accepts connections, and showing it as ready during
    /// that window would be a lie.
    pub fn is_reachable(&self) -> (reachable: bool)
        ensures
            reachable == self@.reachable(),
    {
        self.state == ServiceState::Running && self.port_open
    }

    /// One word for what this service is actually doing. "running" and
    /// "usable" are deliberately different words: one word for both says that
    /// a database is available while it is still refusing connections.
    pub fn condition(&self) -> (word: &'static str)
        ensures
            word@ == self@.condition_word(),
    {
        match self.state {
            ServiceState::Absent => "absent",
            ServiceState::Stopped => "stopped",
            ServiceState::Running => if self.port_open {
                "ready"
            } else if self.port.is_some() {
                "starting"
            } else {
                "running"
            },
        }
    }

    /// The same service again.
    pub fn copy(&self) -> (copy: Self)
        ensures
            copy@ == self@,
    {
        ServiceStatus {
            container: self.container.clone(),
            service: self.service.clone(),
            port: self.port,
            state: self.state,
            port_open: self.port_open,
            memory_bytes: self.memory_bytes,
        }
    }
}

/// "ready" is said of a service exactly when it can be used.
pub proof fn law_ready_means_reachable(service: ServiceStatusView)
    ensures
        service.condition_word() == "ready"@ <==> service.reachable(),
{
    reveal_strlit("absent");
    reveal_strlit("stopped");
    reveal_strlit("ready");
    reveal_strlit("starting");
    reveal_strlit("running");
    assert("absent"@.len() == 6 && "ready"@.len() == 5);
}

/// What a project is built with, by the files that say so: composer.json before
/// any other, with `artisan` beside it for Laravel; then go.mod, Cargo.toml and
/// pyproject.toml; a package.json decides only where none of these is there.
pub proof fn law_the_stack_is_what_the_manifest_says(markers: Seq<Seq<char>>)
    ensures
        ({
            let composer = markers.contains("composer.json"@);
            let artisan = markers.contains("artisan"@);
            let go = markers.contains("go.mod"@);
            let rust = markers.contains("Cargo.toml"@);
            let python = markers.contains("pyproject.toml"@);
            let node = markers.contains("package.json"@);
            &&& stack_of(markers) is Laravel <==> composer && artisan
            &&& stack_of(markers) is Php <==> composer && !artisan
            &&& stack_of(markers) is Go <==> !composer && go
            &&& stack_of(markers) is Rust <==> !composer && !go && rust
            &&& stack_of(markers) is Python <==> !composer && !go && !rust && python
            &&& stack_of(markers) is Node <==> !composer && !go && !rust && !python && node
            &&& stack_of(markers) is Unknown <==> !composer && !go && !rust && !python && !node
        }),
{
}

/// A badge counts changes behind a star and new files behind a question mark,
/// and leaves out a count of none.
pub proof fn law_a_badge_shows_both_counts(status: GitStatusView)
    ensures
        status.dirty() <==> status.modified + status.untracked > 0,
        status.modified > 0 && status.untracked == 0 ==> status.badge_text() == "*"@ + decimal(
            status.modified as nat,
        ),
        status.modified == 0 && status.untracked > 0 ==> status.badge_text() == "?"@ + decimal(
            status.untracked as nat,
        ),
        status.modified > 0 && status.untracked > 0 ==> status.badge_text() == "*"@ + decimal(
            status.modified as nat,
        ) + " ?"@ + decimal(status.untracked as nat),
{
    reveal_strlit(" ?");
    reveal_strlit(" ");
    reveal_strlit("?");
    let changed = "*"@ + decimal(status.modified as nat);
    let new = decimal(status.untracked as nat);
    assert(changed + " "@ + ("?"@ + new) =~= changed + " ?"@ + new);
}

/// A service that is not there or does not run is called so, whatever its port;
/// one that runs is ready where its port answers, starting where it has a port
/// that does not, and running where it has none.
pub proof fn law_a_condition_is_what_can_be_seen(service: ServiceStatusView)
    ensures
        service.state is Absent ==> service.condition_word() == "absent"@,
        service.state is Stopped ==> service.condition_word() == "stopped"@,
        service.state is Running && service.port_open ==> service.condition_word() == "ready"@,
        service.state is Running && !service.port_open && service.port is Some
            ==> service.condition_word() == "starting"@,
        service.state is Running && !service.port_open && service.port is None
            ==> service.condition_word() == "running"@,
        service.reachable() <==> service.state is Running && service.port_open,
{
}

} // verus!
