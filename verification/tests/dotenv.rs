use aether_dev::dotenv::{active, candidates};

fn names(of: &[&str]) -> Vec<String> {
    of.iter().map(|name| (*name).to_string()).collect()
}

#[test]
fn the_files_that_can_be_switched_to_are_the_variants() {
    let found = candidates(&names(&[
        ".env",
        ".env.local",
        ".env.staging",
        ".env.bak",
        "composer.json",
        "artisan",
    ]));
    assert_eq!(found, vec![".env.local", ".env.staging"]);
}

#[test]
fn the_active_file_is_not_offered_as_something_to_switch_to() {
    assert!(!candidates(&names(&[".env"])).contains(&".env".to_string()));
}

#[test]
fn the_backup_is_not_offered_either() {
    assert!(
        !candidates(&names(&[".env.bak", ".env.local"])).contains(&".env.bak".to_string()),
        "it exists so a switch can be undone; offering it would make the \
         previous file look like a choice of its own"
    );
}

#[test]
fn a_project_with_no_variants_offers_nothing_rather_than_erroring() {
    assert!(candidates(&names(&["composer.json", "artisan"])).is_empty());
}

#[test]
fn which_one_is_active_is_decided_by_what_the_file_says() {
    let variants = vec![
        (".env.local".to_string(), "APP_ENV=local\n".to_string()),
        (".env.staging".to_string(), "APP_ENV=staging\n".to_string()),
    ];
    assert_eq!(
        active("APP_ENV=staging\n", &variants).as_deref(),
        Some(".env.staging")
    );
}

#[test]
fn an_env_edited_by_hand_matches_nothing_rather_than_the_nearest() {
    let variants = vec![(".env.local".to_string(), "APP_ENV=local\n".to_string())];
    assert_eq!(
        active("APP_ENV=local\nDEBUG=1\n", &variants),
        None,
        "naming a file the contents no longer match would be worse than \
         saying nothing"
    );
}

#[test]
fn nothing_to_compare_against_matches_nothing() {
    assert_eq!(active("APP_ENV=local\n", &[]), None);
}
