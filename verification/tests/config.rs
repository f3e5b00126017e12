use aether_dev::config::{Config, ConfigError, TextEntries};
use aether_dev::entries::find_entry;
use aether_dev::platform::Platform;
use aether_dev::toolchain::ToolConfig;

fn toolchain<'a>(config: &'a Config, name: &str) -> &'a ToolConfig {
    find_entry(&config.toolchain, name).expect("configured")
}

fn pin<'a>(config: &'a Config, project: &str) -> &'a TextEntries {
    find_entry(&config.pin, project).expect("pinned")
}

#[test]
fn an_empty_config_is_valid_and_yields_the_defaults() {
    let cfg = Config::from_toml_str(Platform::Linux, "").expect("an empty config must be valid");
    assert_eq!(cfg, Config::default(Platform::Linux));
    assert!(
        cfg.scan.workers > 0,
        "a default that cannot scan is not a default"
    );
}

#[test]
fn a_partial_config_keeps_defaults_for_what_it_does_not_mention() {
    let cfg = Config::from_toml_str(Platform::Linux, "[scan]\nworkers = 4\n").unwrap();
    let defaults = Config::default(Platform::Linux);
    assert_eq!(cfg.scan.workers, 4);
    assert_eq!(cfg.scan.cache_ttl_secs, defaults.scan.cache_ttl_secs);
    assert_eq!(cfg.project.roots, defaults.project.roots);
    assert_eq!(cfg.docker.endpoint, defaults.docker.endpoint);
}

#[test]
fn project_roots_are_read_as_paths_not_strings() {
    let cfg = Config::from_toml_str(Platform::Linux, "[project]\nroots = [\"C:/Projects\", \"E:/Projects\"]\n")
        .unwrap();
    assert_eq!(
        cfg.project.roots,
        vec!["C:/Projects".to_string(), "E:/Projects".to_string()]
    );
}

#[test]
fn zero_workers_is_rejected_because_the_scan_would_never_run() {
    let err = Config::from_toml_str(Platform::Linux, "[scan]\nworkers = 0\n").unwrap_err();
    assert!(matches!(err, ConfigError::Invalid { .. }), "got {err:?}");
}

#[test]
fn an_empty_root_list_is_rejected_because_there_is_nothing_to_scan() {
    let err = Config::from_toml_str(Platform::Linux, "[project]\nroots = []\n").unwrap_err();
    assert!(matches!(err, ConfigError::Invalid { .. }), "got {err:?}");
}

#[test]
fn a_zero_git_timeout_is_rejected_because_every_repository_would_be_abandoned() {
    let err = Config::from_toml_str(Platform::Linux, "[scan]\ngit_timeout_ms = 0\n").unwrap_err();
    assert!(matches!(err, ConfigError::Invalid { .. }), "got {err:?}");
}

#[test]
fn malformed_toml_is_reported_as_a_parse_error_not_a_panic() {
    let err = Config::from_toml_str(Platform::Linux, "[scan").unwrap_err();
    assert!(matches!(err, ConfigError::Parse(_)), "got {err:?}");
}

#[test]
fn an_unknown_key_is_rejected_so_typos_do_not_pass_silently() {
    let err = Config::from_toml_str(Platform::Linux, "[scan]\nworkerz = 4\n").unwrap_err();
    assert!(matches!(err, ConfigError::Parse(_)), "got {err:?}");
}
#[test]
fn a_missing_config_file_is_an_error_that_names_the_path() {
    let err = Config::load(
        Platform::Linux,
        Some((
            "no-such-config-9f2a1c4.toml",
            Err("No such file or directory (os error 2)".to_string()),
        )),
    )
    .unwrap_err();
    assert!(matches!(err, ConfigError::Io { .. }), "got {err:?}");
    assert!(err.to_string().contains("no-such-config-9f2a1c4.toml"));
}

#[test]
fn asking_for_no_config_file_at_all_yields_the_defaults() {
    assert_eq!(Config::load(Platform::Linux, None).unwrap(), Config::default(Platform::Linux));
}

#[test]
fn a_config_file_is_read_from_disk_and_validated() {
    let read = |text: &str| {
        Config::load(
            Platform::Linux,
            Some(("aether.toml", Ok(text.to_string()))),
        )
    };
    assert_eq!(
        read("[scan]\nworkers = 3\n").unwrap().scan.workers,
        3
    );
    assert!(matches!(
        read("[scan]\nworkers = 0\n").unwrap_err(),
        ConfigError::Invalid { .. }
    ));
}
#[test]
fn the_proxy_section_has_working_defaults() {
    let cfg = Config::default(Platform::Linux);
    assert_eq!(cfg.caddy.container, "caddy-proxy");
    assert_eq!(cfg.caddy.caddyfile, "Caddyfile".to_string());
    assert_eq!(cfg.caddy.domains, "domains.toml".to_string());
}

#[test]
fn the_proxy_paths_can_be_pointed_somewhere_else() {
    let cfg = Config::from_toml_str(
        Platform::Linux,
        "[caddy]
container = \"edge\"
caddyfile = \"conf/Caddyfile\"
",
    )
    .unwrap();
    assert_eq!(cfg.caddy.container, "edge");
    assert_eq!(cfg.caddy.caddyfile, "conf/Caddyfile".to_string());
    assert_eq!(
        cfg.caddy.domains,
        Config::default(Platform::Linux).caddy.domains,
        "what the file does not mention keeps its default"
    );
}

#[test]
fn an_empty_proxy_container_is_rejected_because_nothing_could_be_reloaded() {
    let err = Config::from_toml_str(
        Platform::Linux,
        "[caddy]
container = \"\"
",
    )
    .unwrap_err();
    assert!(matches!(err, ConfigError::Invalid { .. }), "got {err:?}");
}

#[test]
fn no_toolchain_is_configured_by_default_because_nobody_can_guess_where_they_live() {
    assert!(Config::default(Platform::Linux).toolchain.is_empty());
    assert!(Config::default(Platform::Linux).pin.is_empty());
}

#[test]
fn a_toolchain_names_where_to_look_and_what_to_look_for() {
    let cfg = Config::from_toml_str(
        Platform::Linux,
        "[toolchain.php]\nsearch = [\"C:/laragon/bin/php\"]\nbinary = \"php.exe\"\n",
    )
    .unwrap();
    let php = toolchain(&cfg, "php");
    assert_eq!(php.search, vec!["C:/laragon/bin/php".to_string()]);
    assert_eq!(php.binary, "php.exe");
    assert_eq!(php.bin_subdir, None);
}

#[test]
fn a_toolchain_whose_binary_lives_in_a_subdirectory_can_say_so() {
    let cfg = Config::from_toml_str(
        Platform::Linux,
        "[toolchain.go]\nsearch = [\"C:/Go\"]\nbinary = \"go.exe\"\nbin_subdir = \"bin\"\n",
    )
    .unwrap();
    assert_eq!(toolchain(&cfg, "go").bin_subdir.as_deref(), Some("bin"));
}

#[test]
fn a_toolchain_with_nowhere_to_look_is_refused_rather_than_silently_finding_nothing() {
    let err = Config::from_toml_str(Platform::Linux, "[toolchain.php]\nbinary = \"php.exe\"\n").unwrap_err();
    assert!(matches!(err, ConfigError::Invalid { .. }), "got {err:?}");
}

#[test]
fn a_toolchain_that_does_not_say_what_binary_to_look_for_is_refused() {
    let err = Config::from_toml_str(Platform::Linux, "[toolchain.php]\nsearch = [\"C:/php\"]\n").unwrap_err();
    assert!(matches!(err, ConfigError::Invalid { .. }), "got {err:?}");
}

#[test]
fn a_project_can_be_pinned_when_its_manifest_says_nothing() {
    let cfg = Config::from_toml_str(
        Platform::Linux,
        "[pin.legacy-billing]\nphp = \"5.6\"\n\n[pin.old-shop]\nphp = \"7.2\"\nnode = \"10\"\n",
    )
    .unwrap();
    assert_eq!(pin(&cfg, "legacy-billing").get("php").unwrap(), "5.6");
    assert_eq!(pin(&cfg, "old-shop").get("node").unwrap(), "10");
}

#[test]
fn a_section_may_be_written_as_a_list_in_the_order_of_its_keys() {
    let config = Config::from_toml_str(
        Platform::Linux,
        "scan = [3, 500]\n\
         project = [[\"/srv\"], 2, [\"dist\"], \"not looked at\"]\n\
         [toolchain]\nphp = [[\"/opt/php\"], \"php\"]\n\
         [ports]\nprobe = [[[\"ss\", \"-lnt\"], \"ss\"]]\n",
    )
    .unwrap();
    assert_eq!(config.scan.workers, 3);
    assert_eq!(config.scan.git_timeout_ms, 500);
    assert_eq!(config.scan.cache_ttl_secs, 30);
    assert_eq!(config.project.roots, vec!["/srv"]);
    assert_eq!(config.project.max_depth, 2);
    assert_eq!(config.project.ignore, vec!["dist"]);
    assert_eq!(config.toolchain[0].1.binary, "php");
    assert_eq!(config.ports.probe[0].command, vec!["ss", "-lnt"]);
    assert!(Config::from_toml_str(Platform::Linux, "toolchain = []\n").is_err());
    assert!(Config::from_toml_str(Platform::Linux, "scan = [\"many\"]\n").is_err());
}
