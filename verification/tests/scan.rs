use aether_dev::config::ProjectConfig;
use aether_dev::domain::{GitStatus, Stack};
use aether_dev::git::{GitError, GitReader};
use aether_dev::ports::{collect, ScanEvent, ScanOutcome};
use aether_dev::scan::{Entry, FsProjectScanner};
use aether_dev::search::{Asking, Search, Searched};

/// Answers without touching git, so these tests prove the walking logic
/// rather than the state of whatever repositories exist on the machine.
struct FakeGit;
impl GitReader for FakeGit {
    fn status(&self, _path: &str) -> Result<GitStatus, GitError> {
        Ok(GitStatus::clean("main"))
    }
}

/// Every repository is unreadable, the way a wedged git looks.
struct TimingOutGit;
impl GitReader for TimingOutGit {
    fn status(&self, _path: &str) -> Result<GitStatus, GitError> {
        Err(GitError::Timeout(2000))
    }
}

fn directory(parent: &str, name: &str, markers: &[&str]) -> Entry {
    Entry {
        name: name.to_string(),
        path: format!("{parent}/{name}"),
        is_dir: true,
        markers: markers.iter().map(|marker| (*marker).to_string()).collect(),
    }
}

/// root/alpha/Cargo.toml, root/group/beta/go.mod, root/node_modules/pkg/package.json
fn entries(path: &str) -> Option<Vec<Entry>> {
    match path {
        "root" => Some(vec![
            directory("root", "alpha", &["Cargo.toml"]),
            directory("root", "group", &[]),
            directory("root", "node_modules", &[]),
        ]),
        "root/alpha" => Some(vec![]),
        "root/group" => Some(vec![directory("root/group", "beta", &["go.mod"])]),
        "root/group/beta" => Some(vec![]),
        "root/node_modules" => Some(vec![directory(
            "root/node_modules",
            "pkg",
            &["package.json"],
        )]),
        "root/node_modules/pkg" => Some(vec![]),
        _ => None,
    }
}

fn config_for(root: &str, max_depth: usize) -> ProjectConfig {
    ProjectConfig {
        roots: vec![root.to_string()],
        max_depth,
        ignore: vec!["node_modules".to_string(), ".git".to_string()],
    }
}

fn searched(config: &ProjectConfig) -> Searched {
    let mut search = Search::start(config.clone());
    while let Some(path) = search.next() {
        search.give(entries(&path));
    }
    search.finish()
}

fn scan_with<G: GitReader>(git: G, config: &ProjectConfig) -> ScanOutcome {
    let scanner = FsProjectScanner::new(git, 4);
    let (mut asking, mut events) = Asking::start(searched(config));
    while let Some(candidate) = asking.take() {
        let status = scanner.git().status(&candidate.path);
        events.extend(asking.answer(candidate, None, status));
    }
    collect(events)
}

#[test]
fn a_directory_holding_a_marker_file_is_recognised_as_a_project() {
    let outcome = scan_with(FakeGit, &config_for("root", 3));
    let alpha = outcome
        .projects
        .iter()
        .find(|p| p.name == "alpha")
        .expect("alpha");
    assert_eq!(alpha.stack, Stack::Rust);
    assert_eq!(alpha.category, None);
}

#[test]
fn a_project_nested_under_a_plain_folder_takes_that_folder_as_its_category() {
    let outcome = scan_with(FakeGit, &config_for("root", 3));
    let beta = outcome
        .projects
        .iter()
        .find(|p| p.name == "beta")
        .expect("beta");
    assert_eq!(beta.stack, Stack::Go);
    assert_eq!(beta.category, Some("group".to_string()));
}

#[test]
fn ignored_directory_names_are_never_descended_into() {
    let outcome = scan_with(FakeGit, &config_for("root", 3));
    assert!(
        !outcome.projects.iter().any(|p| p.name == "pkg"),
        "node_modules was walked into; a real machine would drown in dependencies"
    );
}

#[test]
fn the_walk_stops_at_the_configured_depth() {
    let shallow = scan_with(FakeGit, &config_for("root", 1));
    assert!(shallow.projects.iter().any(|p| p.name == "alpha"));
    assert!(!shallow.projects.iter().any(|p| p.name == "beta"));
}

#[test]
fn the_scan_reports_how_many_directories_it_examined() {
    let outcome = scan_with(FakeGit, &config_for("root", 3));
    assert_eq!(outcome.projects.len(), 2);
    assert_eq!(
        outcome.scanned,
        Some(3),
        "alpha, group and beta were examined; node_modules was skipped whole"
    );
}

#[test]
fn a_root_that_does_not_exist_is_reported_as_a_failure_not_a_panic() {
    let missing = "definitely-not-a-real-directory-9f2a1c4".to_string();
    let config = ProjectConfig {
        roots: vec![missing.clone()],
        max_depth: 3,
        ignore: vec![],
    };
    let outcome = scan_with(FakeGit, &config);
    assert!(outcome.projects.is_empty());
    assert_eq!(outcome.failures.len(), 1);
    assert_eq!(outcome.failures[0].0, missing);
}

#[test]
fn a_repository_git_could_not_read_is_a_failure_not_a_clean_repository() {
    let outcome = scan_with(TimingOutGit, &config_for("root", 3));
    assert!(
        outcome.projects.is_empty(),
        "reporting an unreadable repository as having no changes is a lie the user acts on"
    );
    assert_eq!(outcome.failures.len(), 2);
    assert!(outcome
        .failures
        .iter()
        .all(|(_, reason)| reason.contains("2000 ms")));
}

#[test]
fn every_project_carries_the_git_status_the_reader_gave_it() {
    let outcome = scan_with(FakeGit, &config_for("root", 3));
    assert!(outcome
        .projects
        .iter()
        .all(|p| p.git.branch.as_deref() == Some("main")));
}

#[test]
fn projects_come_in_the_order_their_directories_list_them() {
    let config = ProjectConfig {
        roots: vec!["missing".to_string(), "root".to_string()],
        max_depth: 2,
        ignore: vec![],
    };
    let found = searched(&config);
    assert_eq!(found.failures, vec!["missing"]);
    assert_eq!(found.examined, 5);
    let paths: Vec<&str> = found.candidates.iter().map(|one| one.path.as_str()).collect();
    assert_eq!(paths, vec!["root/alpha", "root/group/beta", "root/node_modules/pkg"]);
    assert_eq!(found.candidates[2].category.as_deref(), Some("node_modules"));
}

#[test]
fn the_total_is_reported_once_and_last() {
    let (mut asking, mut events) = Asking::start(searched(&config_for("root", 3)));
    assert!(events.is_empty());
    let first = asking.take().unwrap();
    let second = asking.take().unwrap();
    assert!(asking.take().is_none());
    events.extend(asking.answer(second, None, FakeGit.status("")));
    assert_eq!(events.len(), 1);
    events.extend(asking.answer(first, None, TimingOutGit.status("")));
    assert_eq!(events.len(), 3);
    assert!(matches!(&events[0], ScanEvent::Found(project) if project.name == "beta"));
    assert!(matches!(&events[1], ScanEvent::Failed { path, .. } if path == "root/alpha"));
    assert_eq!(events[2], ScanEvent::Finished { scanned: 3 });

    let (mut nothing, events) = Asking::start(searched(&config_for("nowhere", 3)));
    assert!(nothing.take().is_none());
    assert_eq!(events.len(), 2);
    assert_eq!(events[1], ScanEvent::Finished { scanned: 0 });
}

#[test]
fn workers_change_the_order_alone() {
    let told = |workers: usize| {
        let (mut asking, mut events) = Asking::start(searched(&config_for("root", 3)));
        let size = FsProjectScanner::new(FakeGit, workers).workers();
        let mut busy = Vec::new();
        loop {
            while busy.len() < size {
                match asking.take() {
                    Some(candidate) => busy.push(candidate),
                    None => break,
                }
            }
            // The last one taken is the first to be done.
            match busy.pop() {
                Some(candidate) => events.extend(asking.answer(candidate, None, FakeGit.status(""))),
                None => break,
            }
        }
        events
    };
    let (none, one, many) = (told(0), told(1), told(8));
    assert_eq!(none, one);
    assert_ne!(one, many);
    assert_eq!(one.len(), many.len());
    assert!(one.iter().all(|event| many.contains(event)));
    assert_eq!(one.last(), many.last());
}
