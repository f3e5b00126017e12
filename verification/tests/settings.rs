use aether_dev::catalog::ServiceConfig;
use aether_dev::config::Config;
use aether_dev::settings::{settings_lines, settings_report};
use aether_dev::toolchain::{Installed, ToolConfig, Version};
use aether_dev::platform::Platform;

fn configured() -> Config {
    let mut config = Config::default(Platform::Linux);
    config.service = vec![(
        "mysql".to_string(),
        ServiceConfig {
            container: Some("mysql-db".to_string()),
            port: Some(3306),
            password: Some("hunter2".to_string()),
            ..ServiceConfig::default()
        },
    )];
    config.toolchain = vec![(
        "php".to_string(),
        ToolConfig {
            search: vec!["/php".to_string()],
            binary: "php".to_string(),
            bin_subdir: None,
            versions: vec![],
        },
    )];
    config
}

fn php() -> Installed {
    Installed {
        label: "php-8.3.6".to_string(),
        version: Version {
            major: 8,
            minor: 3,
            patch: 6,
        },
        path: "/php/8.3.6".to_string(),
    }
}

#[test]
fn the_settings_in_force_are_printed() {
    let lines = settings_report(&Config::default(Platform::Linux), &None, "aether.toml", &vec![]);
    assert_eq!(
        lines[0],
        "no configuration file was found — every default is in force"
    );
    assert_eq!(lines[1], "would be written to aether.toml");
    assert_eq!(lines[4], "  roots       [\".\"]");
    assert_eq!(lines[5], "  max_depth   3");
    assert_eq!(lines[7], "  workers     12");
    assert_eq!(
        lines[25],
        "[service]  none declared — the list is whatever docker reports"
    );
    assert_eq!(
        lines[27],
        "[toolchain]  nothing configured — adev config --init finds what is here"
    );
}

#[test]
fn a_password_is_said_to_be_there_and_never_what_it_is() {
    let lines = settings_report(
        &configured(),
        &Some("a.toml".to_string()),
        "a.toml",
        &vec![vec![php()]],
    );
    assert_eq!(lines[0], "read from a.toml");
    assert!(lines.contains(&"  password    set in this file".to_string()));
    assert!(!lines.iter().any(|line| line.contains("hunter2")));
    assert_eq!(lines[lines.len() - 2], "[toolchain.php]  1 installed");
    assert_eq!(lines[lines.len() - 1], format!("  {:<12} /php/8.3.6", "8.3.6"));

    let shown = settings_lines(&configured(), &None, &vec![1]);
    assert!(!shown.iter().any(|setting| setting.text.contains("hunter2")));
    assert_eq!(shown[8].label, "service.mysql");
    assert_eq!(shown[8].text, "mysql-db · port 3306");
    assert_eq!(shown[9].label, "toolchain.php");
    assert_eq!(shown[9].text, "1 installed · /php");
}

#[test]
fn the_dashboards_settings_say_where_they_came_from() {
    let shown = settings_lines(&Config::default(Platform::Linux), &None, &vec![]);
    assert_eq!(shown[0].label, "file");
    assert_eq!(shown[0].text, "none found — every default is in force");
    assert_eq!(shown[9].text, "none — adev config --init finds what is here");
}

#[test]
fn the_first_place_that_holds_a_tool_is_written_down() {
    let place = |tool: &str, search: &str| aether_dev::starter::FoundTool {
        tool: tool.to_string(),
        search: search.to_string(),
        binary: tool.to_string(),
    };
    let places = [place("php", "/a"), place("php", "/b"), place("node", "/c"), place("php", "/d")];
    assert_eq!(
        aether_dev::starter::found_tools(&places, &[false, true, true, true]),
        vec![place("php", "/b"), place("node", "/c")]
    );
    assert_eq!(aether_dev::starter::found_tools(&places, &[false; 4]), vec![]);
}
