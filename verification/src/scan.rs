//! Walking the project roots and asking git about each result.
//!
//! Finding candidate directories is cheap and sequential; asking git about them
//! is expensive and runs across a bounded pool. The reading is the caller's
//! part: what a directory's entries mean, and what a result is reported as, is
//! decided here.

use crate::config::{ProjectConfig, ProjectConfigView};
use crate::domain::{stack_of, GitStatus, GitStatusView, Project, ProjectView, Stack};
use crate::framework::{detect, document_in, framework_in, Manifests};
use crate::git::{git_error_text, GitError, GitErrorView, GitReader};
use crate::ports::{ScanEvent, ScanEventView};
use crate::text::{
    chars_of, copy_maybe, has_text, lemma_views_push, maybe_text, parts_of, views,
};
use vstd::prelude::*;
use vstd::string::*;

verus! {

/// Files whose presence makes a directory a project.
pub open spec fn markers() -> Seq<Seq<char>> {
    seq![
        "artisan"@,
        "composer.json"@,
        "package.json"@,
        "go.mod"@,
        "Cargo.toml"@,
        "pyproject.toml"@,
    ]
}

/// Files whose presence makes a directory a project.
pub fn marker_files() -> (names: Vec<&'static str>)
    ensures
        parts_of(names@) == markers(),
{
    let names: Vec<&'static str> = vec![
        "artisan",
        "composer.json",
        "package.json",
        "go.mod",
        "Cargo.toml",
        "pyproject.toml",
    ];
    assert(parts_of(names@) =~= markers());
    names
}

/// The names among `candidates` that a directory holds as a file.
pub open spec fn held(candidates: Seq<Seq<char>>, is_file: Seq<bool>) -> Seq<Seq<char>>
    decreases candidates.len(),
{
    if candidates.len() == 0 {
        seq![]
    } else {
        let before = held(candidates.drop_last(), is_file);
        if is_file[candidates.len() - 1] {
            before.push(candidates.last())
        } else {
            before
        }
    }
}

/// The markers a directory holds, given which of them are files there.
pub fn markers_in(is_file: &Vec<bool>) -> (found: Vec<String>)
    requires
        is_file@.len() == markers().len(),
    ensures
        views(found@) == held(markers(), is_file@),
{
    broadcast use lemma_views_push;

    let names = marker_files();
    let ghost all = markers();
    let mut found: Vec<String> = Vec::new();
    let mut i: usize = 0;
    assert(parts_of(names@).len() == names@.len());
    assert(all.take(0) =~= seq![]);
    while i < names.len()
        invariant
            i <= names@.len(),
            parts_of(names@) == all,
            names@.len() == all.len(),
            is_file@.len() == all.len(),
            views(found@) == held(all.take(i as int), is_file@),
        decreases names@.len() - i,
    {
        assert(all.take(i + 1).drop_last() =~= all.take(i as int));
        assert(all.take(i + 1).last() == names@[i as int]@) by {
            assert(parts_of(names@)[i as int] == names@[i as int]@);
        }
        if is_file[i] {
            found.push(names[i].to_owned());
        }
        i = i + 1;
    }
    assert(all.take(i as int) =~= all);
    found
}

/// A directory that looks like a project, before git has been consulted.
#[derive(Debug, Clone, PartialEq, Eq)]
pub struct Candidate {
    pub path: String,
    pub name: String,
    pub category: Option<String>,
    pub stack: Stack,
}

/// What a candidate says.
#[verifier::ext_equal]
pub struct CandidateView {
    pub path: Seq<char>,
    pub name: Seq<char>,
    pub category: Option<Seq<char>>,
    pub stack: Stack,
}

impl View for Candidate {
    type V = CandidateView;

    open spec fn view(&self) -> CandidateView {
        CandidateView {
            path: self.path@,
            name: self.name@,
            category: maybe_text(self.category),
            stack: self.stack,
        }
    }
}

impl Candidate {
    /// A copy of the candidate.
    pub fn copy(&self) -> (copy: Candidate)
        ensures
            copy@ == self@,
    {
        Candidate {
            path: self.path.clone(),
            name: self.name.clone(),
            category: copy_maybe(&self.category),
            stack: self.stack,
        }
    }
}

/// One entry of a directory.
#[derive(Debug, Clone, PartialEq, Eq)]
pub struct Entry {
    pub name: String,
    pub path: String,
    pub is_dir: bool,
    /// The markers the entry holds, where it is a directory.
    pub markers: Vec<String>,
}

/// What an entry says.
#[verifier::ext_equal]
pub struct EntryView {
    pub name: Seq<char>,
    pub path: Seq<char>,
    pub is_dir: bool,
    pub markers: Seq<Seq<char>>,
}

impl View for Entry {
    type V = EntryView;

    open spec fn view(&self) -> EntryView {
        EntryView {
            name: self.name@,
            path: self.path@,
            is_dir: self.is_dir,
            markers: views(self.markers@),
        }
    }
}

/// What walking an entry leads to.
#[derive(Debug, Clone, PartialEq, Eq)]
pub enum Found {
    /// A project. It is not descended into, so a project's own dependencies
    /// never appear as projects of their own.
    Project(Candidate),
    /// A directory to look into next.
    Descend { name: String, path: String },
}

/// What a finding says.
#[verifier::ext_equal]
pub enum FoundView {
    Project(CandidateView),
    Descend { name: Seq<char>, path: Seq<char> },
}

impl View for Found {
    type V = FoundView;

    open spec fn view(&self) -> FoundView {
        match self {
            Found::Project(candidate) => FoundView::Project(candidate@),
            Found::Descend { name, path } => FoundView::Descend { name: name@, path: path@ },
        }
    }
}

/// What walking one directory came to.
#[derive(Debug, Clone, PartialEq, Eq)]
pub struct Visit {
    /// How many directories were looked at.
    pub examined: usize,
    /// What they led to, in the order of the entries.
    pub found: Vec<Found>,
}

/// Whether an entry is looked at: a directory that is neither hidden nor
/// ignored.
pub open spec fn is_walked(config: ProjectConfigView, entry: EntryView) -> bool {
    &&& entry.is_dir
    &&& !(entry.name.len() > 0 && entry.name[0] == '.')
    &&& !config.ignore.contains(entry.name)
}

/// How many of the entries are looked at.
pub open spec fn walked_count(config: ProjectConfigView, entries: Seq<EntryView>) -> nat
    decreases entries.len(),
{
    if entries.len() == 0 {
        0
    } else {
        walked_count(config, entries.drop_last()) + if is_walked(config, entries.last()) {
            1nat
        } else {
            0nat
        }
    }
}

/// What an entry leads to, in a directory at this depth and of this category.
pub open spec fn found_in(
    config: ProjectConfigView,
    category: Option<Seq<char>>,
    depth: nat,
    entry: EntryView,
) -> Option<FoundView> {
    if !is_walked(config, entry) {
        None
    } else if entry.markers.len() > 0 {
        Some(
            FoundView::Project(
                CandidateView {
                    path: entry.path,
                    name: entry.name,
                    category,
                    stack: stack_of(entry.markers),
                },
            ),
        )
    } else if depth < config.max_depth {
        Some(FoundView::Descend { name: entry.name, path: entry.path })
    } else {
        None
    }
}

/// What the entries of a directory lead to, in their order.
pub open spec fn all_found(
    config: ProjectConfigView,
    category: Option<Seq<char>>,
    depth: nat,
    entries: Seq<EntryView>,
) -> Seq<FoundView>
    decreases entries.len(),
{
    if entries.len() == 0 {
        seq![]
    } else {
        let before = all_found(config, category, depth, entries.drop_last());
        match found_in(config, category, depth, entries.last()) {
            Some(found) => before.push(found),
            None => before,
        }
    }
}

/// Whether a directory of this name is looked at.
pub fn walks_into(config: &ProjectConfig, name: &str) -> (walks: bool)
    ensures
        walks == !(name@.len() > 0 && name@[0] == '.' || config@.ignore.contains(name@)),
{
    let chars = chars_of(name);
    if chars.len() > 0 && chars[0] == '.' {
        return false;
    }
    !has_text(config.ignore.as_slice(), name)
}

fn borrowed(list: &Vec<String>) -> (parts: Vec<&str>)
    ensures
        parts_of(parts@) == views(list@),
{
    let mut parts: Vec<&str> = Vec::new();
    let mut i: usize = 0;
    while i < list.len()
        invariant
            i <= list@.len(),
            parts@.len() == i,
            forall|j: int| 0 <= j < i ==> (#[trigger] parts@[j])@ == list@[j]@,
        decreases list@.len() - i,
    {
        parts.push(list[i].as_str());
        i = i + 1;
    }
    assert(parts_of(parts@) =~= views(list@));
    parts
}

/// Decides what the entries of one directory lead to.
///
/// A directory holding a marker is a project and is not descended into
/// further. `depth` counts from 1 in a root, and `category` is the directory's
/// own name below one.
pub fn walk(
    config: &ProjectConfig,
    category: &Option<String>,
    depth: usize,
    entries: &Vec<Entry>,
) -> (visit: Visit)
    ensures
        visit.examined == walked_count(config@, views(entries@)),
        views(visit.found@) == all_found(
            config@,
            maybe_text(*category),
            depth as nat,
            views(entries@),
        ),
{
    broadcast use lemma_views_push;

    let ghost all = views(entries@);
    let mut examined: usize = 0;
    let mut found: Vec<Found> = Vec::new();
    let mut i: usize = 0;
    assert(all.take(0) =~= seq![]);
    assert(views(found@) =~= seq![]);
    while i < entries.len()
        invariant
            i <= entries@.len(),
            all == views(entries@),
            examined <= i,
            examined == walked_count(config@, all.take(i as int)),
            views(found@) == all_found(
                config@,
                maybe_text(*category),
                depth as nat,
                all.take(i as int),
            ),
        decreases entries@.len() - i,
    {
        assert(all.take(i + 1).drop_last() =~= all.take(i as int));
        assert(all.take(i + 1).last() == entries@[i as int]@);
        let entry = &entries[i];
        if entry.is_dir && walks_into(config, entry.name.as_str()) {
            examined = examined + 1;
            if entry.markers.len() > 0 {
                let parts = borrowed(&entry.markers);
                found.push(
                    Found::Project(
                        Candidate {
                            path: entry.path.clone(),
                            name: entry.name.clone(),
                            category: copy_maybe(category),
                            stack: Stack::from_markers(parts.as_slice()),
                        },
                    ),
                );
            } else if depth < config.max_depth {
                found.push(
                    Found::Descend { name: entry.name.clone(), path: entry.path.clone() },
                );
            }
        }
        i = i + 1;
    }
    assert(all.take(i as int) =~= all);
    Visit { examined, found }
}

/// What is reported of a root that cannot be walked.
pub fn unreadable_root(root: &str) -> (event: ScanEvent)
    ensures
        event@ == (ScanEventView::Failed { path: root@, reason: "not a readable directory"@ }),
{
    ScanEvent::Failed { path: root.to_owned(), reason: "not a readable directory".to_owned() }
}

/// What git said of a candidate.
pub open spec fn status_view(status: Result<GitStatus, GitError>) -> Result<
    GitStatusView,
    GitErrorView,
> {
    match status {
        Ok(status) => Ok(status@),
        Err(error) => Err(error@),
    }
}

/// What is reported of a candidate. An answer that is not known is a failure
/// rather than a clean repository.
pub open spec fn reported(
    candidate: CandidateView,
    framework: Option<Seq<char>>,
    status: Result<GitStatusView, GitErrorView>,
) -> ScanEventView {
    match status {
        Ok(git) => ScanEventView::Found(
            ProjectView {
                name: candidate.name,
                category: candidate.category,
                path: candidate.path,
                stack: candidate.stack,
                framework,
                git,
            },
        ),
        Err(error) => ScanEventView::Failed {
            path: candidate.path,
            reason: git_error_text(error),
        },
    }
}

/// What to report of a candidate once git has answered.
pub fn report(
    candidate: Candidate,
    framework: Option<String>,
    status: Result<GitStatus, GitError>,
) -> (event: ScanEvent)
    ensures
        event@ == reported(candidate@, maybe_text(framework), status_view(status)),
{
    match status {
        Ok(git) => ScanEvent::Found(
            Project {
                name: candidate.name,
                category: candidate.category,
                path: candidate.path,
                stack: candidate.stack,
                framework,
                git,
            },
        ),
        // Rendering "0 changed" for a repository nobody could read is a lie the
        // user acts on.
        Err(error) => ScanEvent::Failed { path: candidate.path, reason: error.to_string() },
    }
}

/// The manifests that count: the framework's own source only beside a
/// `composer.json`.
pub open spec fn consulted<'a>(manifests: Manifests<'a>) -> Manifests<'a> {
    if manifests.composer_json is Some {
        manifests
    } else {
        Manifests { laravel_application_php: None, ..manifests }
    }
}

/// Names a project's framework from whichever manifests it happens to have.
pub fn read_framework(manifests: &Manifests) -> (found: Option<String>)
    ensures
        maybe_text(found) == framework_in(
            consulted(*manifests),
            document_in(manifests.composer_json),
            document_in(manifests.package_json),
        ),
{
    let laravel = if manifests.composer_json.is_some() {
        manifests.laravel_application_php
    } else {
        None
    };
    let counted = Manifests {
        composer_json: manifests.composer_json,
        laravel_application_php: laravel,
        package_json: manifests.package_json,
        codeigniter_php: manifests.codeigniter_php,
        go_mod: manifests.go_mod,
        cargo_toml: manifests.cargo_toml,
    };
    detect(&counted)
}

/// Who is asked about the projects of a scan, and how many are asked about at
/// once. Searching the roots is [`crate::search::Search`]'s part.
pub struct FsProjectScanner<G: GitReader> {
    git: G,
    workers: usize,
}

/// How many workers a scan has that was given a number of them: at least one.
pub open spec fn pool_size(workers: nat) -> nat {
    if workers == 0 {
        1
    } else {
        workers
    }
}

impl<G: GitReader> FsProjectScanner<G> {
    pub closed spec fn git_spec(&self) -> G {
        self.git
    }

    pub closed spec fn workers_spec(&self) -> usize {
        self.workers
    }

    /// A scanner with at least one worker.
    pub fn new(git: G, workers: usize) -> (scanner: Self)
        ensures
            scanner.git_spec() == git,
            scanner.workers_spec() == pool_size(workers as nat),
    {
        let workers: usize = if workers == 0 {
            1
        } else {
            workers
        };
        FsProjectScanner { git, workers }
    }

    /// Who is asked about each candidate.
    pub fn git(&self) -> (git: &G)
        ensures
            *git == self.git_spec(),
    {
        &self.git
    }

    /// How many candidates are asked about at once.
    pub fn workers(&self) -> (workers: usize)
        ensures
            workers == self.workers_spec(),
    {
        self.workers
    }
}

/// Ignored and hidden directories lead nowhere and are not counted.
pub proof fn law_ignored_directories_are_never_entered(
    config: ProjectConfigView,
    category: Option<Seq<char>>,
    depth: nat,
    entry: EntryView,
)
    requires
        config.ignore.contains(entry.name) || (entry.name.len() > 0 && entry.name[0] == '.')
            || !entry.is_dir,
    ensures
        found_in(config, category, depth, entry) is None,
        walked_count(config, seq![entry]) == 0,
{
    reveal_with_fuel(walked_count, 2);
}

/// A project is never descended into, and nothing is descended into at the
/// configured depth.
pub proof fn law_where_the_walk_stops(
    config: ProjectConfigView,
    category: Option<Seq<char>>,
    depth: nat,
    entry: EntryView,
)
    ensures
        found_in(config, category, depth, entry) matches Some(FoundView::Descend { .. }) ==> {
            &&& entry.markers.len() == 0
            &&& depth < config.max_depth
        },
        is_walked(config, entry) && entry.markers.len() > 0 ==> found_in(
            config,
            category,
            depth,
            entry,
        ) matches Some(FoundView::Project(_)),
{
}

/// A repository git could not read is a failure, not a clean repository.
pub proof fn law_an_unreadable_repository_is_a_failure(
    candidate: CandidateView,
    framework: Option<Seq<char>>,
    status: Result<GitStatusView, GitErrorView>,
)
    ensures
        reported(candidate, framework, status) is Found <==> status is Ok,
{
}

/// A directory is looked into unless it is hidden or ignored. One with a marker
/// is a project, with the name and the path it lies at, in the category it was
/// found in; one without is walked into while there is depth left, and otherwise
/// says nothing.
pub proof fn law_an_entry_is_a_project_or_a_way_on(
    config: ProjectConfigView,
    category: Option<Seq<char>>,
    depth: nat,
    entry: EntryView,
)
    ensures
        ({
            let looked_into = entry.is_dir && (entry.name.len() == 0 || entry.name[0] != '.')
                && !config.ignore.contains(entry.name);
            let found = found_in(config, category, depth, entry);
            &&& !looked_into ==> found is None
            &&& looked_into && entry.markers.len() > 0 ==> (found matches Some(
                FoundView::Project(project),
            ) && project.name == entry.name && project.path == entry.path && project.category
                == category && project.stack == stack_of(entry.markers))
            &&& looked_into && entry.markers.len() == 0 && depth < config.max_depth ==> (
            found matches Some(FoundView::Descend { name, path }) && name == entry.name && path
                == entry.path)
            &&& looked_into && entry.markers.len() == 0 && depth >= config.max_depth ==> found
                is None
        }),
{
}

/// Every entry that is looked into is counted, whatever it turns out to be, and
/// what is found comes in the order of the entries.
pub proof fn law_what_is_looked_into_is_counted(
    config: ProjectConfigView,
    category: Option<Seq<char>>,
    depth: nat,
    entries: Seq<EntryView>,
    entry: EntryView,
)
    ensures
        walked_count(config, seq![]) == 0,
        walked_count(config, entries.push(entry)) == walked_count(config, entries) + (
        if entry.is_dir && (entry.name.len() == 0 || entry.name[0] != '.')
            && !config.ignore.contains(entry.name) {
            1nat
        } else {
            0nat
        }),
        all_found(config, category, depth, entries.push(entry)) == (match found_in(
            config,
            category,
            depth,
            entry,
        ) {
            Some(found) => all_found(config, category, depth, entries).push(found),
            None => all_found(config, category, depth, entries),
        }),
{
    assert(entries.push(entry).drop_last() =~= entries);
}

/// The files that make a directory a project, and that one of them is enough.
pub proof fn law_one_marker_is_enough(is_file: Seq<bool>, i: int)
    requires
        is_file.len() == 6,
        0 <= i < 6,
    ensures
        markers().len() == 6,
        markers().contains("artisan"@),
        markers().contains("composer.json"@),
        markers().contains("package.json"@),
        markers().contains("go.mod"@),
        markers().contains("Cargo.toml"@),
        markers().contains("pyproject.toml"@),
        is_file[i] ==> held(markers(), is_file).contains(markers()[i]),
        (forall|j: int| 0 <= j < 6 ==> !#[trigger] is_file[j]) ==> held(markers(), is_file).len()
            == 0,
{
    let all = markers();
    assert(all[0] == "artisan"@ && all[1] == "composer.json"@ && all[2] == "package.json"@);
    assert(all[3] == "go.mod"@ && all[4] == "Cargo.toml"@ && all[5] == "pyproject.toml"@);
    lemma_held(all, is_file, i);
}

proof fn lemma_held(candidates: Seq<Seq<char>>, is_file: Seq<bool>, i: int)
    ensures
        0 <= i < candidates.len() && is_file[i] ==> held(candidates, is_file).contains(
            candidates[i],
        ),
        (forall|j: int| 0 <= j < candidates.len() ==> !#[trigger] is_file[j]) ==> held(
            candidates,
            is_file,
        ).len() == 0,
    decreases candidates.len(),
{
    if candidates.len() > 0 {
        let front = candidates.drop_last();
        let before = held(front, is_file);
        let all = held(candidates, is_file);
        lemma_held(front, is_file, i);
        if 0 <= i < front.len() && is_file[i] {
            let at = before.index_of(front[i]);
            assert(all[at] == candidates[i]);
        } else if i == front.len() && is_file[i] {
            assert(all[before.len() as int] == candidates[i]);
        }
    }
}

/// A project is reported as it was found, with what git said of it; one that git
/// could not read is a failure at its path, with git's reason.
pub proof fn law_a_project_is_reported_as_it_was_found(
    candidate: CandidateView,
    framework: Option<Seq<char>>,
    git: GitStatusView,
    error: GitErrorView,
)
    ensures
        reported(candidate, framework, Ok(git)) matches ScanEventView::Found(project)
            && project.name == candidate.name && project.category == candidate.category
            && project.path == candidate.path && project.stack == candidate.stack
            && project.framework == framework && project.git == git,
        reported(candidate, framework, Err(error)) == (ScanEventView::Failed {
            path: candidate.path,
            reason: git_error_text(error),
        }),
{
}

/// Laravel's own source is asked for its version only beside a composer.json; no
/// other file depends on another.
pub proof fn law_a_framework_s_source_needs_its_manifest(manifests: Manifests)
    ensures
        manifests.composer_json is Some ==> consulted(manifests) == manifests,
        manifests.composer_json is None ==> consulted(manifests).laravel_application_php is None,
        consulted(manifests).codeigniter_php == manifests.codeigniter_php,
        consulted(manifests).go_mod == manifests.go_mod,
        consulted(manifests).cargo_toml == manifests.cargo_toml,
{
}

} // verus!
