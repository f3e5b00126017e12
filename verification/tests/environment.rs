use aether_dev::config::TextEntries;
use aether_dev::environment::{
    declared_version, env_lines, nothing_to_run, path_with, pinned_version, run_lines,
    search_path, toolchains_for, why, Tool,
};
use aether_dev::recipe::RunPlan;
use aether_dev::toolchain::{Installed, Reason, Version};

fn installed(major: u64) -> Installed {
    Installed {
        label: format!("v{major}"),
        version: Version {
            major,
            minor: 1,
            patch: 2,
        },
        path: format!("/tools/{major}"),
    }
}

fn tool(name: &str, pinned: Option<&str>, declared: Option<&str>) -> Tool {
    Tool {
        name: name.to_string(),
        installed: vec![installed(18), installed(20)],
        pinned: pinned.map(str::to_string),
        declared: declared.map(str::to_string),
    }
}

#[test]
fn a_tool_is_chosen_where_the_project_is_about_it() {
    let tools = [tool("php", None, None), tool("node", None, Some("^18.0"))];
    let choices = toolchains_for(&tools, &["composer.json", "package.json"]);
    assert_eq!(choices.len(), 2);
    assert_eq!(choices[0].tool, "node", "tools come by name");
    assert_eq!(choices[0].resolution.reason, Reason::Declared);
    assert_eq!(choices[0].resolution.chosen.as_ref().unwrap().path, "/tools/18");
    assert_eq!(choices[1].resolution.reason, Reason::Newest);
}

#[test]
fn a_tool_the_project_never_mentions_is_left_alone() {
    assert!(toolchains_for(&[tool("node", None, None)], &["composer.json"]).is_empty());
    assert_eq!(
        toolchains_for(&[tool("node", Some("20"), None)], &["composer.json"]).len(),
        1,
        "a pin is a decision already made"
    );
}

#[test]
fn one_tool_without_a_version_refuses_the_run() {
    let good = toolchains_for(&[tool("node", Some("20"), None)], &[]);
    assert_eq!(path_with(&good).unwrap(), vec!["/tools/20"]);
    let bad = toolchains_for(
        &[tool("go", Some("20"), None), tool("node", Some("^99.0"), None)],
        &[],
    );
    assert_eq!(
        path_with(&bad).unwrap_err(),
        "no usable node: NOTHING INSTALLED SATISFIES THIS (^99.0)"
    );
}

#[test]
fn the_environment_is_printed_with_its_reasons() {
    let choices = toolchains_for(
        &[tool("node", Some("20"), None), tool("php", Some("^99.0"), None)],
        &[],
    );
    let (lines, unresolved) = env_lines("shop", "/srv/shop", &choices);
    assert!(unresolved);
    assert_eq!(
        lines,
        vec![
            "shop  /srv/shop".to_string(),
            format!("  {:<8} {:<24} pinned in config", "node", "20.1.2"),
            "           /tools/20".to_string(),
            format!(
                "  {:<8} {:<24} NOTHING INSTALLED SATISFIES THIS (^99.0)",
                "php", "-"
            ),
        ]
    );
    let (lines, unresolved) = env_lines("shop", "/srv/shop", &[]);
    assert!(!unresolved);
    assert!(lines[0].starts_with("shop resolves no toolchain."));
}

#[test]
fn a_run_is_described_before_it_happens() {
    let plan = RunPlan {
        recipe: None,
        command: "make serve".to_string(),
        port: Some(4000),
    };
    let choices = toolchains_for(&[tool("node", Some("20"), None)], &[]);
    assert_eq!(
        run_lines("shop", "/srv/shop", &plan, &choices),
        vec![
            "shop  /srv/shop".to_string(),
            "  recipe   none, configured by hand".to_string(),
            "  command  make serve".to_string(),
            "  address  http://localhost:4000".to_string(),
            format!("  {:<8} 20.1.2", "node"),
        ]
    );
    assert_eq!(
        nothing_to_run("shop"),
        "nothing here says how shop starts. Give it a command with [run.shop] in the config."
    );
}

#[test]
fn what_a_project_asks_for_is_read_from_its_manifest() {
    let composer = Some(r#"{"require":{"php":"^8.1"}}"#.to_string());
    let package = Some(r#"{"engines":{"node":">=18"}}"#.to_string());
    assert_eq!(declared_version("php", &composer, &package).as_deref(), Some("^8.1"));
    assert_eq!(declared_version("node", &composer, &package).as_deref(), Some(">=18"));
    assert_eq!(declared_version("go", &composer, &package), None);
    assert_eq!(declared_version("php", &None, &package), None);
}

#[test]
fn a_pin_is_looked_up_by_project_and_tool() {
    let pins = vec![(
        "shop".to_string(),
        TextEntries {
            entries: vec![("php".to_string(), "8.1".to_string())],
        },
    )];
    assert_eq!(pinned_version(&pins, "shop", "php").as_deref(), Some("8.1"));
    assert_eq!(pinned_version(&pins, "shop", "node"), None);
    assert_eq!(pinned_version(&pins, "api", "php"), None);
}

#[test]
fn every_reason_is_put_in_words() {
    assert_eq!(why(Reason::Pinned), "pinned in config");
    assert_eq!(why(Reason::NoneInstalled), "NO VERSION OF THIS TOOL WAS FOUND");
}

#[test]
fn the_toolchain_is_in_front_and_the_rest_is_kept() {
    let choices = toolchains_for(&[tool("node", Some("20"), None)], &[]);
    let existing = vec!["/usr/bin".to_string(), "/bin".to_string()];
    assert_eq!(
        search_path(path_with(&choices).unwrap(), existing),
        vec!["/tools/20", "/usr/bin", "/bin"]
    );
}
