use aether_dev::answers::{read_command_id, read_container, read_exit_code, read_memory_used};

#[test]
fn a_container_says_what_it_was_made_with() {
    let body = r#"{"Config":{"Image":"mysql:8","Env":["A=1","B=2"],"Tty":true},"Id":"x"}"#;
    let container = read_container(body).unwrap();
    assert_eq!(container.inspected.image, "mysql:8");
    assert_eq!(container.inspected.env, vec!["A=1", "B=2"]);
    assert!(container.tty);
}

#[test]
fn a_container_that_says_little_has_little() {
    let container = read_container(r#"{"Config":{"Env":null}}"#).unwrap();
    assert_eq!(container.inspected.image, "");
    assert!(container.inspected.env.is_empty());
    assert!(!container.tty);
}

#[test]
fn an_answer_that_is_not_json_is_malformed() {
    let error = read_container("gone").unwrap_err();
    assert!(error.to_string().starts_with("docker returned something this build cannot read"));
    assert!(read_exit_code("gone").is_err());
    assert!(read_command_id("gone").is_err());
    assert_eq!(read_memory_used("gone"), None);
}

#[test]
fn a_command_needs_a_name() {
    assert_eq!(read_command_id(r#"{"Id":"abc"}"#).unwrap(), "abc");
    let error = read_command_id(r#"{"Name":"abc"}"#).unwrap_err();
    assert!(error.to_string().ends_with("exec without an id"));
}

#[test]
fn only_a_zero_is_success() {
    assert_eq!(read_exit_code(r#"{"ExitCode":0}"#).unwrap(), 0);
    assert_eq!(read_exit_code(r#"{"ExitCode":2}"#).unwrap(), 2);
    assert_eq!(read_exit_code(r#"{"ExitCode":null}"#).unwrap(), -1);
    assert_eq!(read_exit_code(r#"{"ExitCode":4294967295}"#).unwrap(), -1);
    assert_eq!(read_exit_code("{}").unwrap(), -1);
}

#[test]
fn the_file_cache_is_taken_off_the_memory() {
    let old = r#"{"memory_stats":{"usage":1000,"stats":{"total_inactive_file":300,"inactive_file":1}}}"#;
    assert_eq!(read_memory_used(old), Some(700));
    let new = r#"{"memory_stats":{"usage":1000,"stats":{"inactive_file":250}}}"#;
    assert_eq!(read_memory_used(new), Some(750));
    let strange = r#"{"memory_stats":{"usage":1000,"stats":{"inactive_file":1000}}}"#;
    assert_eq!(read_memory_used(strange), Some(1000));
    assert_eq!(read_memory_used(r#"{"memory_stats":{"usage":1000}}"#), Some(1000));
    assert_eq!(read_memory_used(r#"{"memory_stats":{}}"#), None);
}
