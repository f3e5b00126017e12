use aether_dev::open::{command_line, default_browser, default_file_manager, OpenConfig, TARGET};
use aether_dev::platform::Platform;

fn words(parts: &[&str]) -> Vec<String> {
    parts.iter().map(|part| (*part).to_string()).collect()
}

#[test]
fn the_placeholder_is_replaced_by_the_target() {
    let line = command_line(&words(&["firefox", TARGET]), "http://localhost:8000").unwrap();
    assert_eq!(line, vec!["firefox", "http://localhost:8000"]);
}

#[test]
fn a_template_that_never_mentions_the_target_still_opens_it() {
    let line = command_line(&words(&["xdg-open"]), "/home/dev/shop").unwrap();
    assert_eq!(
        line,
        vec!["xdg-open", "/home/dev/shop"],
        "a command that opens nothing is not a reasonable reading of the config"
    );
}

#[test]
fn the_placeholder_may_sit_inside_a_larger_argument() {
    let line = command_line(&words(&["code", "--folder-uri=file://{}"]), "/srv/app").unwrap();
    assert_eq!(line, vec!["code", "--folder-uri=file:///srv/app"]);
}

#[test]
fn arguments_before_the_target_keep_their_order() {
    let line = command_line(&words(&["cmd", "/C", "start", "", TARGET]), "http://x").unwrap();
    assert_eq!(line, vec!["cmd", "/C", "start", "", "http://x"]);
}

#[test]
fn an_empty_template_means_do_not_open_anything() {
    assert_eq!(command_line(&[], "http://x"), None);
    assert_eq!(command_line(&words(&[" "]), "http://x"), None);
}

#[test]
fn every_platform_default_names_a_program_and_opens_the_target() {
    for template in [default_browser(Platform::Linux), default_file_manager(Platform::Linux)] {
        let line = command_line(&template, "TARGET-VALUE")
            .expect("a built-in default that opens nothing would be a bug");
        assert!(!line[0].is_empty());
        assert!(
            line.iter()
                .any(|argument| argument.contains("TARGET-VALUE")),
            "got {line:?}"
        );
    }
}

#[test]
fn the_defaults_are_what_an_unconfigured_machine_gets() {
    let config = OpenConfig::default(Platform::Linux);
    assert_eq!(config.browser, default_browser(Platform::Linux));
    assert_eq!(config.file_manager, default_file_manager(Platform::Linux));
}

#[test]
fn every_platform_has_its_own_way_to_open_things() {
    assert_eq!(
        default_browser(Platform::Windows),
        vec!["cmd", "/C", "start", "", TARGET]
    );
    assert_eq!(default_file_manager(Platform::Windows), vec!["explorer", TARGET]);
    assert_eq!(default_browser(Platform::MacOs), vec!["open", TARGET]);
    assert_eq!(default_file_manager(Platform::Other), vec!["xdg-open", TARGET]);
}
