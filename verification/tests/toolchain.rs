use aether_dev::toolchain::{
    discover, newest, resolve, select, version_in, wanted_node, wanted_php, Installed, Reason,
    VersionDir,
};

fn installed(versions: &[&str]) -> Vec<Installed> {
    versions
        .iter()
        .map(|label| Installed {
            label: (*label).to_string(),
            version: version_in(label).expect("fixture version"),
            path: format!("/tools/{label}"),
        })
        .collect()
}

#[test]
fn a_version_is_found_inside_the_name_a_directory_happens_to_have() {
    assert_eq!(version_in("php-8.3.6-Win32-vs16-x64"), version_in("8.3.6"));
    assert_eq!(version_in("v18.20.4"), version_in("18.20.4"));
    assert_eq!(version_in("php74"), None, "no separator means no version");
    assert_eq!(
        version_in("8.1"),
        version_in("8.1.0"),
        "a short version is padded"
    );
    assert_eq!(version_in("go1.24.3"), version_in("1.24.3"));
    assert_eq!(version_in("active"), None);
}

#[test]
fn versions_are_compared_as_numbers_not_as_text() {
    let choices = installed(&["8.9.0", "8.10.0"]);
    let chosen = select(&choices, "^8.0").expect("something matches");
    assert_eq!(
        chosen.label, "8.10.0",
        "sorting these as strings picks 8.9, which is how a version switcher \
         quietly runs the wrong one"
    );
}

#[test]
fn a_caret_constraint_stays_inside_its_major() {
    let choices = installed(&["7.4.33", "8.1.2", "8.3.6"]);
    assert_eq!(select(&choices, "^7.4").unwrap().label, "7.4.33");
    assert_eq!(select(&choices, "^8.0").unwrap().label, "8.3.6");
}

#[test]
fn the_highest_version_that_satisfies_wins_rather_than_the_first_found() {
    let choices = installed(&["8.1.2", "8.2.10", "8.3.6"]);
    assert_eq!(select(&choices, ">=8.1").unwrap().label, "8.3.6");
}

#[test]
fn composer_style_constraints_are_understood() {
    let choices = installed(&["5.6.40", "7.4.33", "8.1.2", "8.3.6"]);
    assert_eq!(select(&choices, ">=7.4 <8.0").unwrap().label, "7.4.33");
    assert_eq!(select(&choices, "8.*").unwrap().label, "8.3.6");
    assert_eq!(select(&choices, "~7.4.0").unwrap().label, "7.4.33");
    assert_eq!(select(&choices, "5.6.*").unwrap().label, "5.6.40");
}

#[test]
fn an_alternatives_constraint_accepts_either_side() {
    let choices = installed(&["7.4.33", "8.3.6"]);
    assert_eq!(
        select(&choices, "^7.4 || ^8.0").unwrap().label,
        "8.3.6",
        "when both branches match, the higher version is still the answer"
    );
    let only_old = installed(&["7.4.33"]);
    assert_eq!(select(&only_old, "^7.4 || ^8.0").unwrap().label, "7.4.33");
}

#[test]
fn node_style_constraints_are_understood_too() {
    let choices = installed(&["18.20.4", "20.11.1", "22.3.0"]);
    assert_eq!(select(&choices, ">=18").unwrap().label, "22.3.0");
    assert_eq!(select(&choices, "18.x").unwrap().label, "18.20.4");
    assert_eq!(select(&choices, "20.11.1").unwrap().label, "20.11.1");
}

#[test]
fn nothing_installed_satisfies_a_constraint_nothing_can_satisfy() {
    let choices = installed(&["8.1.2", "8.3.6"]);
    assert_eq!(
        select(&choices, "^5.6"),
        None,
        "reporting the nearest version instead would silently run the wrong one"
    );
}

#[test]
fn a_constraint_nobody_can_parse_selects_nothing_rather_than_guessing() {
    let choices = installed(&["8.3.6"]);
    assert_eq!(select(&choices, "whatever the latest is"), None);
    assert_eq!(select(&choices, ""), None);
}

#[test]
fn with_no_constraint_at_all_the_newest_is_the_reasonable_default() {
    let choices = installed(&["7.4.33", "8.3.6", "8.1.2"]);
    assert_eq!(newest(&choices).unwrap().label, "8.3.6");
    assert_eq!(newest(&[]), None);
}

#[test]
fn a_php_requirement_is_read_from_composer() {
    let composer = r#"{"require":{"php":"^8.1","laravel/framework":"^11.0"}}"#;
    assert_eq!(wanted_php(composer).as_deref(), Some("^8.1"));
    assert_eq!(wanted_php(r#"{"require":{}}"#), None);
    assert_eq!(wanted_php("not json"), None);
}

#[test]
fn a_node_requirement_is_read_from_the_engines_field() {
    let package = r#"{"engines":{"node":">=18"},"dependencies":{}}"#;
    assert_eq!(wanted_node(package).as_deref(), Some(">=18"));
    assert_eq!(wanted_node(r#"{"dependencies":{"next":"14"}}"#), None);
}

/// The directories a version manager leaves, with whether the binary is there.
fn a_php_installation() -> Vec<VersionDir> {
    [
        ("php-7.4.33-Win32", true),
        ("php-8.3.6-Win32", true),
        ("not-a-version", true),
        ("active", true),
        // A directory that looks like a version but holds no binary.
        ("php-9.9.9-broken", false),
    ]
    .into_iter()
    .map(|(label, usable)| VersionDir {
        label: label.to_string(),
        usable,
        bin_dir: format!("/php/{label}"),
    })
    .collect()
}

#[test]
fn every_directory_holding_the_binary_and_naming_a_version_is_found() {
    let found = discover(&a_php_installation(), &Vec::new());
    let labels: Vec<&str> = found.iter().map(|f| f.label.as_str()).collect();
    assert!(labels.contains(&"php-7.4.33-Win32"));
    assert!(labels.contains(&"php-8.3.6-Win32"));
    assert_eq!(found.len(), 2);
}

#[test]
fn a_directory_that_names_no_version_is_left_out_rather_than_guessed_at() {
    let found = discover(&a_php_installation(), &Vec::new());
    assert!(
        !found
            .iter()
            .any(|f| f.label == "active" || f.label == "not-a-version"),
        "an 'active' symlink points at one of the others; counting it twice \
         would offer the same install under two names"
    );
}

#[test]
fn a_version_directory_without_the_binary_is_not_offered() {
    let found = discover(&a_php_installation(), &Vec::new());
    assert!(
        !found.iter().any(|f| f.label.contains("broken")),
        "offering a version whose binary is missing moves the failure to \
         the moment somebody tries to use it"
    );
}

#[test]
fn a_search_path_that_does_not_exist_is_skipped_rather_than_fatal() {
    assert!(discover(&Vec::new(), &Vec::new()).is_empty());
}

#[test]
fn a_version_named_explicitly_is_taken_even_when_the_directory_says_nothing() {
    let named = vec![VersionDir {
        label: "5.6.40".to_string(),
        usable: true,
        bin_dir: "/php/not-a-version".to_string(),
    }];
    let found = discover(&a_php_installation(), &named);
    assert!(
        found
            .iter()
            .any(|f| f.version.major == 5 && f.version.minor == 6),
        "a directory named anything at all can still be pointed at by hand"
    );
}

#[test]
fn a_tool_whose_binary_sits_in_a_subdirectory_is_still_found() {
    let directory = VersionDir {
        label: "go1.24.3".to_string(),
        usable: true,
        bin_dir: "/go/go1.24.3/bin".to_string(),
    };
    let found = discover(&vec![directory], &Vec::new());
    assert_eq!(found.len(), 1);
    assert_eq!(
        found[0].path,
        "/go/go1.24.3/bin",
        "PATH wants the directory the binary is in, not the one above it"
    );
}

#[test]
fn a_pin_wins_over_whatever_the_manifest_asks_for() {
    let choices = installed(&["5.6.40", "8.3.6"]);
    let resolved = resolve(&choices, Some("5.6"), Some("^8.0"));
    assert_eq!(resolved.chosen.map(|c| c.label), Some("5.6.40".to_string()));
    assert_eq!(resolved.reason, Reason::Pinned);
}

#[test]
fn without_a_pin_the_manifest_decides() {
    let choices = installed(&["7.4.33", "8.3.6"]);
    let resolved = resolve(&choices, None, Some("^7.4"));
    assert_eq!(resolved.chosen.map(|c| c.label), Some("7.4.33".to_string()));
    assert_eq!(resolved.reason, Reason::Declared);
}

#[test]
fn a_project_that_asks_for_nothing_gets_the_newest_installed() {
    let choices = installed(&["7.4.33", "8.3.6"]);
    let resolved = resolve(&choices, None, None);
    assert_eq!(resolved.chosen.map(|c| c.label), Some("8.3.6".to_string()));
    assert_eq!(resolved.reason, Reason::Newest);
}

#[test]
fn a_constraint_nothing_installed_can_satisfy_chooses_nothing_and_says_why() {
    let choices = installed(&["8.1.2", "8.3.6"]);
    let resolved = resolve(&choices, None, Some("^5.6"));
    assert!(
        resolved.chosen.is_none(),
        "running a legacy project on an interpreter it said it cannot use is \
         the failure this whole feature exists to prevent"
    );
    assert_eq!(resolved.reason, Reason::NothingSatisfies);
    assert_eq!(resolved.constraint.as_deref(), Some("^5.6"));
}

#[test]
fn nothing_installed_at_all_is_told_apart_from_nothing_matching() {
    let resolved = resolve(&[], None, Some("^8.0"));
    assert_eq!(
        resolved.reason,
        Reason::NoneInstalled,
        "'you have none' and 'yours are all wrong' need different fixes"
    );
}

#[test]
fn a_bare_version_means_that_version_and_not_anything_newer() {
    let choices = installed(&["8.1.2", "8.3.6"]);
    assert_eq!(
        select(&choices, "8.1").unwrap().label,
        "8.1.2",
        "composer and npm both read a bare 8.1 as 8.1.x; pinning 8.1 and being \
         handed 8.3 is the switcher quietly running the wrong interpreter"
    );
    assert_eq!(
        select(&choices, "8").unwrap().label,
        "8.3.6",
        "a bare major is still satisfied by any minor inside it"
    );
    assert_eq!(select(&choices, "8.3.6").unwrap().label, "8.3.6");
}

#[test]
fn an_operator_still_means_what_it_says() {
    let choices = installed(&["8.1.2", "8.3.6"]);
    assert_eq!(
        select(&choices, "^8.1").unwrap().label,
        "8.3.6",
        "a caret was always allowed to move up within the major"
    );
    assert_eq!(select(&choices, ">=8.1").unwrap().label, "8.3.6");
}
