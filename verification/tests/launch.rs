use aether_dev::cli::{Command, DbCommand};
use aether_dev::domain::{GitStatus, Project, Stack};
use aether_dev::launch::{
    choose_program, discover, exit_byte, likely_toolchains, locate_project, machine_base,
    project_url, Base, Place,
};
use aether_dev::lifecycle::Action;
use aether_dev::platform::Platform;

fn text(of: &str) -> Option<String> {
    Some(of.to_string())
}

fn place(path: &str, present: bool) -> Place {
    Place {
        path: path.to_string(),
        present,
    }
}

#[test]
fn the_file_named_on_the_command_line_is_the_one_read() {
    assert_eq!(
        discover(&text("mine.toml"), &[place("aether.toml", true)], &None),
        text("mine.toml")
    );
}

#[test]
fn the_nearest_file_overrides_the_ones_above_it() {
    let near = [
        place("/w/shop/aether.toml", false),
        place("/w/aether.toml", true),
        place("/aether.toml", true),
    ];
    let machine = Some(place("/etc/aether.toml", true));
    assert_eq!(discover(&None, &near, &machine), text("/w/aether.toml"));
    assert_eq!(discover(&None, &near[..1], &machine), text("/etc/aether.toml"));
    assert_eq!(discover(&None, &near[..1], &Some(place("/etc/aether.toml", false))), None);
    assert_eq!(discover(&None, &[], &None), None);
}

#[test]
fn the_machine_keeps_its_own_file_where_the_system_says() {
    assert!(matches!(
        machine_base(&text("C:/Users/dev"), &text("/xdg"), &text("/home/dev")),
        Some(Base::Directory(path)) if path == "C:/Users/dev"
    ));
    assert!(matches!(
        machine_base(&None, &text("/xdg"), &text("/home/dev")),
        Some(Base::Directory(path)) if path == "/xdg"
    ));
    assert!(matches!(
        machine_base(&None, &None, &text("/home/dev")),
        Some(Base::InHome(path)) if path == "/home/dev"
    ));
    assert!(machine_base(&None, &None, &None).is_none());
}

fn project(name: &str) -> Project {
    Project {
        name: name.to_string(),
        category: None,
        path: format!("/srv/{name}"),
        stack: Stack::Rust,
        framework: None,
        git: GitStatus::clean("main"),
    }
}

#[test]
fn a_project_is_found_by_its_name() {
    let projects = [project("shop"), project("api")];
    assert_eq!(
        locate_project(&projects, "api").unwrap(),
        ("api".to_string(), "/srv/api".to_string())
    );
    assert_eq!(
        locate_project(&projects, "a\"pi").unwrap_err(),
        "no project called \"a\\\"pi\" under the configured roots"
    );
}

#[test]
fn a_project_serves_where_its_recipe_does() {
    assert_eq!(
        project_url("shop", &["artisan", "composer.json"], &[], &[]),
        text("http://localhost:8000")
    );
    assert_eq!(project_url("notes", &["README.md"], &[], &[]), None);
}

#[test]
fn a_blank_shell_is_no_shell() {
    assert_eq!(choose_program(&text("fish"), &text("/bin/sh"), &None), text("fish"));
    assert_eq!(choose_program(&None, &text("/bin/sh"), &text("cmd")), text("/bin/sh"));
    assert_eq!(choose_program(&None, &None, &text("cmd")), text("cmd"));
    assert_eq!(choose_program(&None, &text("  "), &text("cmd")), None);
    assert_eq!(choose_program(&None, &None, &None), None);
}

#[test]
fn the_places_to_look_depend_on_the_platform() {
    let linux = likely_toolchains(Platform::Linux);
    assert_eq!(linux.len(), 2);
    assert_eq!(linux[0].path, ".nvm/versions/node");
    assert!(linux[0].in_home);
    let windows = likely_toolchains(Platform::Windows);
    assert_eq!(windows.len(), 4);
    assert_eq!(windows[3].binary, "node.exe");
}

#[test]
fn a_childs_exit_code_is_passed_through() {
    assert_eq!(exit_byte(Some(0)), 0);
    assert_eq!(exit_byte(Some(2)), 2);
    assert_eq!(exit_byte(Some(256)), 0);
    assert_eq!(exit_byte(Some(-1)), 255);
    assert_eq!(exit_byte(None), 1);
}

#[test]
fn the_command_that_writes_the_file_does_not_need_it() {
    let config = |init: bool| Command::Config {
        init,
        edit: false,
        force: false,
    };
    assert!(!config(true).reads_configuration());
    assert!(config(false).reads_configuration());
    assert!(Command::Tui.reads_configuration());
}

#[test]
fn three_commands_act_on_services() {
    let named = |services: &str| vec![services.to_string()];
    assert_eq!(
        Command::Stop {
            services: named("mysql"),
            all: false
        }
        .action(),
        Some(Action::Stop)
    );
    assert_eq!(
        Command::Restart {
            services: named("mysql"),
            all: false
        }
        .action(),
        Some(Action::Restart)
    );
    assert_eq!(
        Command::Db(DbCommand::Backup {
            out: "b".to_string(),
            gzip: false
        })
        .action(),
        None
    );
}
