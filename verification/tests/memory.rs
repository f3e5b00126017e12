use aether_dev::memory::{parse_free_used, parse_tasklist, MemoryConfig, Reading};
use aether_dev::platform::Platform;

#[test]
fn the_used_column_is_read_from_free_output() {
    let output = "               total        used        free      shared  buff/cache   available\n\
                  Mem:            7946        1423        5367           3        1155        6276\n\
                  Swap:           4096           0        4096\n";
    assert_eq!(parse_free_used(output), Some(1423 * 1024 * 1024));
}

#[test]
fn free_output_without_a_mem_line_reports_nothing_rather_than_a_guess() {
    assert_eq!(parse_free_used("wsl: no distribution\n"), None);
    assert_eq!(parse_free_used(""), None);
    assert_eq!(parse_free_used("Mem:  7946\n"), None);
}

#[test]
fn a_grouping_separator_does_not_change_the_number() {
    let wanted = vec!["vmmemWSL".to_string()];
    let dots = "\"vmmemWSL\",\"16880\",\"Services\",\"0\",\"855.312 K\"\n";
    let commas = "\"vmmemWSL\",\"16880\",\"Services\",\"0\",\"855,312 K\"\n";
    assert_eq!(
        parse_tasklist(dots, &wanted),
        parse_tasklist(commas, &wanted),
        "which character groups the digits is a locale setting, not a different number"
    );
    assert_eq!(
        parse_tasklist(dots, &wanted),
        Some(("vmmemWSL".to_string(), 855_312 * 1024))
    );
}

#[test]
fn processes_sharing_a_name_are_summed_into_one_cost() {
    let wanted = vec!["vmmem".to_string()];
    let output = "\"vmmem\",\"1\",\"Services\",\"0\",\"100 K\"\n\
                  \"vmmem\",\"2\",\"Services\",\"0\",\"200 K\"\n";
    assert_eq!(
        parse_tasklist(output, &wanted),
        Some(("vmmem".to_string(), 300 * 1024))
    );
}

#[test]
fn a_process_nobody_asked_about_is_not_counted() {
    let wanted = vec!["vmmemWSL".to_string()];
    let output = "\"chrome\",\"1\",\"Console\",\"1\",\"900.000 K\"\n\
                  \"vmmemWSL\",\"2\",\"Services\",\"0\",\"100 K\"\n";
    assert_eq!(
        parse_tasklist(output, &wanted),
        Some(("vmmemWSL".to_string(), 100 * 1024))
    );
}

#[test]
fn the_first_name_that_matches_is_the_one_reported() {
    // vmmemWSL and vmmem are two names for the same thing on different
    // backends; whichever exists is the answer.
    let wanted = vec!["vmmemWSL".to_string(), "vmmem".to_string()];
    let output = "\"vmmem\",\"2\",\"Services\",\"0\",\"512 K\"\n";
    assert_eq!(
        parse_tasklist(output, &wanted),
        Some(("vmmem".to_string(), 512 * 1024))
    );
}

#[test]
fn no_matching_process_reports_nothing() {
    assert_eq!(
        parse_tasklist("INFO: No tasks are running.\n", &["vmmem".to_string()]),
        None
    );
    assert_eq!(parse_tasklist("", &["vmmem".to_string()]), None);
}

#[test]
fn a_reading_with_neither_number_knows_it_is_empty() {
    assert!(Reading::default().is_empty());
    assert!(!Reading {
        guest_bytes: Some(1),
        host: None
    }
    .is_empty());
}

#[test]
fn the_defaults_poll_and_name_a_command_to_poll_with() {
    let config = MemoryConfig::default(Platform::Linux);
    assert!(config.interval_secs > 0);
    assert!(
        !config.guest.is_empty(),
        "a default that reads nothing would show an empty footer forever"
    );
}
