use aether_dev::domain::{GitStatus, ServiceState, ServiceStatus, Stack};

#[test]
fn a_clean_repository_is_not_dirty_and_has_an_empty_badge() {
    let status = GitStatus::clean("main");
    assert!(!status.is_dirty());
    assert_eq!(status.badge(), "");
}

#[test]
fn a_badge_reports_modified_and_untracked_counts_separately() {
    let status = GitStatus {
        branch: Some("main".to_string()),
        modified: 3,
        untracked: 2,
    };
    assert!(status.is_dirty());
    assert_eq!(status.badge(), "*3 ?2");
}

#[test]
fn a_badge_omits_the_half_that_is_zero() {
    let only_modified = GitStatus {
        branch: Some("main".to_string()),
        modified: 3,
        untracked: 0,
    };
    let only_untracked = GitStatus {
        branch: Some("main".to_string()),
        modified: 0,
        untracked: 2,
    };
    assert_eq!(only_modified.badge(), "*3");
    assert_eq!(only_untracked.badge(), "?2");
}

#[test]
fn a_directory_that_is_not_a_repository_has_no_branch() {
    let status = GitStatus::not_a_repository();
    assert_eq!(status.branch, None);
    assert!(!status.is_dirty());
    assert_eq!(status.badge(), "");
}

#[test]
fn a_stack_is_decided_by_the_marker_files_present() {
    assert_eq!(Stack::from_markers(&["composer.json"]), Stack::Php);
    assert_eq!(Stack::from_markers(&["package.json"]), Stack::Node);
    assert_eq!(Stack::from_markers(&["go.mod"]), Stack::Go);
    assert_eq!(Stack::from_markers(&["Cargo.toml"]), Stack::Rust);
    assert_eq!(Stack::from_markers(&["pyproject.toml"]), Stack::Python);
    assert_eq!(Stack::from_markers(&["README.md"]), Stack::Unknown);
    assert_eq!(Stack::from_markers(&[]), Stack::Unknown);
}

#[test]
fn laravel_outranks_plain_php_when_both_markers_are_present() {
    assert_eq!(
        Stack::from_markers(&["composer.json", "artisan"]),
        Stack::Laravel
    );
    assert_eq!(
        Stack::from_markers(&["artisan", "composer.json"]),
        Stack::Laravel
    );
}

#[test]
fn a_service_is_reachable_only_when_running_and_its_port_answers() {
    let up = ServiceStatus {
        container: "mysql-db".into(),
        service: "mysql".into(),
        port: Some(3306),
        state: ServiceState::Running,
        port_open: true,
        memory_bytes: None,
    };
    let booting = ServiceStatus {
        state: ServiceState::Running,
        port_open: false,
        ..up.clone()
    };
    let down = ServiceStatus {
        state: ServiceState::Stopped,
        port_open: false,
        ..up.clone()
    };
    assert!(up.is_reachable());
    assert!(!booting.is_reachable());
    assert!(!down.is_reachable());
}
#[test]
fn a_condition_word_separates_running_from_usable() {
    let base = ServiceStatus {
        container: "mysql-db".to_string(),
        service: "mysql".to_string(),
        port: Some(3306),
        state: ServiceState::Running,
        port_open: true,
        memory_bytes: None,
    };
    assert_eq!(base.condition(), "ready");
    assert_eq!(
        ServiceStatus {
            port_open: false,
            ..base.clone()
        }
        .condition(),
        "starting"
    );
    assert_eq!(
        ServiceStatus {
            port_open: false,
            port: None,
            ..base.clone()
        }
        .condition(),
        "running",
        "a container with nothing published is running, not stuck starting"
    );
    assert_eq!(
        ServiceStatus {
            state: ServiceState::Stopped,
            port_open: false,
            ..base
        }
        .condition(),
        "stopped"
    );
}
