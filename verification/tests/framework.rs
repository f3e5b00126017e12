use aether_dev::framework::{detect, Manifests};

fn nothing() -> Manifests<'static> {
    Manifests::default()
}

#[test]
fn a_project_with_no_manifest_has_no_framework_rather_than_a_guess() {
    assert_eq!(detect(&nothing()), None);
}

#[test]
fn laravel_prefers_the_version_actually_installed_over_the_one_asked_for() {
    let manifests = Manifests {
        composer_json: Some(r#"{"require":{"laravel/framework":"^10.0"}}"#),
        laravel_application_php: Some("class Application {\n    const VERSION = '11.9.2';\n}"),
        ..nothing()
    };
    assert_eq!(
        detect(&manifests).as_deref(),
        Some("Laravel 11.9.2"),
        "the constraint says what was asked for; vendor says what is there"
    );
}

#[test]
fn laravel_falls_back_to_the_constraint_when_nothing_is_installed() {
    let manifests = Manifests {
        composer_json: Some(r#"{"require":{"laravel/framework":"^11.0"}}"#),
        ..nothing()
    };
    assert_eq!(detect(&manifests).as_deref(), Some("Laravel 11.0"));
}

#[test]
fn constraint_markers_are_stripped_but_the_number_is_not_invented() {
    let manifests = Manifests {
        composer_json: Some(r#"{"require":{"laravel/framework":">=9.2 <10"}}"#),
        ..nothing()
    };
    assert_eq!(detect(&manifests).as_deref(), Some("Laravel 9.2"));
}

#[test]
fn lumen_and_codeigniter_are_told_apart_from_laravel() {
    let lumen = Manifests {
        composer_json: Some(r#"{"require":{"laravel/lumen-framework":"^10.0"}}"#),
        ..nothing()
    };
    assert_eq!(detect(&lumen).as_deref(), Some("Lumen 10.0"));

    let ci4 = Manifests {
        composer_json: Some(r#"{"require":{"codeigniter4/framework":"^4.5"}}"#),
        ..nothing()
    };
    assert_eq!(detect(&ci4).as_deref(), Some("CodeIgniter 4.5"));
}

#[test]
fn codeigniter_three_is_read_from_its_own_source_since_it_predates_composer() {
    let manifests = Manifests {
        codeigniter_php: Some("define('CI_VERSION', '3.1.13');"),
        ..nothing()
    };
    assert_eq!(detect(&manifests).as_deref(), Some("CodeIgniter 3.1.13"));
}

#[test]
fn a_node_project_reports_the_framework_rather_than_the_runtime() {
    let next = Manifests {
        package_json: Some(r#"{"dependencies":{"next":"14.2.3","react":"18.3.1"}}"#),
        ..nothing()
    };
    assert_eq!(
        detect(&next).as_deref(),
        Some("Next.js 14.2.3"),
        "a Next project also depends on react; the more specific one is the answer"
    );

    let react = Manifests {
        package_json: Some(r#"{"devDependencies":{"react":"^18.3.1"}}"#),
        ..nothing()
    };
    assert_eq!(detect(&react).as_deref(), Some("React 18.3.1"));
}

#[test]
fn go_reports_the_language_version_its_module_asks_for() {
    let manifests = Manifests {
        go_mod: Some("module example.com/thing\n\ngo 1.24.3\n\nrequire (\n)\n"),
        ..nothing()
    };
    assert_eq!(detect(&manifests).as_deref(), Some("Go 1.24.3"));
}

#[test]
fn rust_reports_the_edition_because_the_package_version_is_the_projects_own() {
    let manifests = Manifests {
        cargo_toml: Some(
            "[package]\nname = \"thing\"\nversion = \"0.4.1\"\nedition = \"2021\"\n",
        ),
        ..nothing()
    };
    assert_eq!(
        detect(&manifests).as_deref(),
        Some("Rust 2021"),
        "0.4.1 is what this project calls itself, which says nothing about its stack"
    );
}

#[test]
fn php_frameworks_outrank_a_package_json_that_is_only_there_for_the_build() {
    let manifests = Manifests {
        composer_json: Some(r#"{"require":{"laravel/framework":"^11.0"}}"#),
        package_json: Some(r#"{"devDependencies":{"react":"18.0.0"}}"#),
        ..nothing()
    };
    assert_eq!(
        detect(&manifests).as_deref(),
        Some("Laravel 11.0"),
        "nearly every Laravel project has a package.json for its assets"
    );
}

#[test]
fn a_manifest_that_does_not_parse_is_skipped_rather_than_fatal() {
    let manifests = Manifests {
        composer_json: Some("{ this is not json"),
        go_mod: Some("go 1.22.0\n"),
        ..nothing()
    };
    assert_eq!(detect(&manifests).as_deref(), Some("Go 1.22.0"));
}
