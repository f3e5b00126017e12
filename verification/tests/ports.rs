use aether_dev::config::ProjectConfig;
use aether_dev::domain::{GitStatus, Project, Stack};
use aether_dev::ports::{collect, ProjectScanner, ScanEvent};

fn a_project(name: &str) -> Project {
    Project {
        name: name.to_string(),
        category: None,
        path: name.to_string(),
        framework: None,
        stack: Stack::Rust,
        git: GitStatus::clean("main"),
    }
}

/// A scanner that reports two projects and one unreadable directory.
struct FakeScanner;

impl ProjectScanner for FakeScanner {
    fn scan(&self, _config: &ProjectConfig) -> Vec<ScanEvent> {
        vec![
            ScanEvent::Found(a_project("alpha")),
            ScanEvent::Failed {
                path: "locked".to_string(),
                reason: "permission denied".to_string(),
            },
            ScanEvent::Found(a_project("beta")),
            ScanEvent::Finished { scanned: 3 },
        ]
    }
}

#[test]
fn collecting_a_scan_separates_projects_from_failures() {
    let outcome = collect(FakeScanner.scan(&ProjectConfig::default()));

    assert_eq!(outcome.projects.len(), 2);
    assert_eq!(outcome.projects[0].name, "alpha");
    assert_eq!(outcome.projects[1].name, "beta");
    assert_eq!(outcome.failures.len(), 1);
    assert_eq!(outcome.failures[0].0, "locked");
}

#[test]
fn one_unreadable_directory_does_not_abort_the_rest_of_the_scan() {
    let outcome = collect(FakeScanner.scan(&ProjectConfig::default()));
    assert!(
        !outcome.projects.is_empty(),
        "a failure in one directory must not cost the projects already found"
    );
}

#[test]
fn a_scan_reports_how_many_directories_it_actually_looked_at() {
    let outcome = collect(FakeScanner.scan(&ProjectConfig::default()));
    assert_eq!(
        outcome.scanned,
        Some(3),
        "without a denominator, 'found nothing' cannot be told apart from 'looked at nothing'"
    );
}

#[test]
fn a_scan_that_ends_without_finishing_reports_no_denominator() {
    let outcome = collect(vec![ScanEvent::Found(a_project("alpha"))]);
    assert_eq!(outcome.projects.len(), 1);
    assert_eq!(outcome.scanned, None);
}
