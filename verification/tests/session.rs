use aether_dev::domain::{ServiceState, ServiceStatus};
use aether_dev::lifecycle::Action;
use aether_dev::listen::Listener;
use aether_dev::session::{
    menu_for, press, Asking, Effect, Key, Leave, MenuItem, News, Outcome, Pending, ProjectRef,
    Screen,
};
use aether_dev::tui::Tab;

fn blank(focus: Tab) -> Screen {
    Screen {
        confirming: false,
        typed: None,
        logs: false,
        menu: None,
        help: false,
        detail: false,
        focus,
        project: None,
        service: None,
        port: None,
        panel: None,
    }
}

fn on_a_project() -> Screen {
    Screen {
        project: Some(ProjectRef {
            name: "shop".to_string(),
            path: "/srv/shop".to_string(),
        }),
        ..blank(Tab::Projects)
    }
}

fn on_a_service() -> Screen {
    Screen {
        service: Some(ServiceStatus {
            container: "mysql-db".to_string(),
            service: "mysql".to_string(),
            port: Some(3306),
            state: ServiceState::Running,
            port_open: true,
            memory_bytes: None,
        }),
        ..blank(Tab::Services)
    }
}

fn on_a_port() -> Screen {
    Screen {
        port: Some(Listener {
            port: 8000,
            pid: Some(16784),
            process: Some("php".to_string()),
        }),
        ..blank(Tab::Ports)
    }
}

fn letter(c: char, screen: &Screen) -> Outcome {
    press(Key::Char(c), screen, None, None)
}

fn failed(text: &str) -> Vec<Effect> {
    vec![Effect::Say(News::Failed, text.to_string())]
}

fn a_kill() -> Pending {
    Pending::Kill {
        pid: 16784,
        label: "php (pid 16784) on 8000".to_string(),
    }
}

#[test]
fn ending_a_process_asks_first_and_names_it() {
    let outcome = letter('K', &on_a_port());
    assert_eq!(
        outcome.effects,
        vec![Effect::Ask("kill php (pid 16784) on 8000?".to_string())]
    );
    assert_eq!(outcome.pending, Some(a_kill()));
}

#[test]
fn only_an_explicit_yes_ends_the_process() {
    let asked = Screen {
        confirming: true,
        ..on_a_port()
    };
    for key in [Key::Char('y'), Key::Char('Y')] {
        let outcome = press(key, &asked, Some(a_kill()), None);
        assert_eq!(
            outcome.effects,
            vec![
                Effect::Dismiss,
                Effect::Say(News::Working, "killing php (pid 16784) on 8000".to_string()),
                Effect::Kill {
                    pid: 16784,
                    label: "php (pid 16784) on 8000".to_string()
                },
            ]
        );
        assert_eq!(outcome.pending, None);
    }
    for key in [Key::Char('n'), Key::Enter, Key::Down, Key::Esc, Key::Char('K')] {
        let outcome = press(key, &asked, Some(a_kill()), None);
        assert_eq!(
            outcome.effects,
            vec![
                Effect::Dismiss,
                Effect::Say(News::Done, "left alone".to_string())
            ]
        );
        assert_eq!(outcome.pending, None, "a question is answered once");
    }
}

#[test]
fn a_yes_to_nothing_does_nothing() {
    let asked = Screen {
        confirming: true,
        ..blank(Tab::Projects)
    };
    assert_eq!(
        press(Key::Char('y'), &asked, None, None).effects,
        vec![Effect::Dismiss]
    );
}

#[test]
fn loading_a_dump_asks_for_the_file_the_database_and_whether_it_was_meant() {
    let first = letter('I', &on_a_service());
    assert_eq!(first.effects, vec![Effect::AskFor("dump file to load")]);

    let typing = |text: &str| Screen {
        typed: Some(text.to_string()),
        ..on_a_service()
    };
    let second = press(Key::Enter, &typing(" shop.sql "), first.pending, first.asking);
    assert_eq!(
        second.effects,
        vec![
            Effect::TakeTyped,
            Effect::CloseDetail,
            Effect::AskFor("into which database")
        ]
    );
    assert_eq!(
        second.asking,
        Some(Asking::ImportDatabase {
            service: "mysql".to_string(),
            file: "shop.sql".to_string()
        })
    );

    let third = press(Key::Enter, &typing("shop"), second.pending, second.asking);
    assert_eq!(
        third.effects[2],
        Effect::Ask("replace shop on mysql with shop.sql?".to_string())
    );
    assert_eq!(third.asking, None);

    let asked = Screen {
        confirming: true,
        ..on_a_service()
    };
    let last = press(Key::Char('y'), &asked, third.pending, third.asking);
    assert_eq!(
        last.effects,
        vec![
            Effect::Dismiss,
            Effect::Say(News::Working, "loading into shop".to_string()),
            Effect::Import {
                service: "mysql".to_string(),
                database: "shop".to_string(),
                file: "shop.sql".to_string()
            },
        ]
    );
}

#[test]
fn a_route_is_removed_only_after_it_was_named_and_confirmed() {
    let first = letter('X', &blank(Tab::Projects));
    assert_eq!(
        first.effects,
        vec![
            Effect::ShowDomains {
                failure_as_detail: true
            },
            Effect::AskFor("hostname to stop routing")
        ]
    );
    let typing = Screen {
        typed: Some("db.test".to_string()),
        ..blank(Tab::Projects)
    };
    let second = press(Key::Enter, &typing, first.pending, first.asking);
    assert_eq!(second.effects[2], Effect::Ask("stop routing db.test?".to_string()));
    let asked = Screen {
        confirming: true,
        ..blank(Tab::Projects)
    };
    assert_eq!(
        press(Key::Char('y'), &asked, second.pending, second.asking).effects,
        vec![
            Effect::Dismiss,
            Effect::RemoveDomain {
                host: "db.test".to_string()
            }
        ]
    );
}

#[test]
fn a_route_needs_a_host_and_where_it_points() {
    let first = letter('A', &blank(Tab::Ports));
    let typing = |text: &str| Screen {
        typed: Some(text.to_string()),
        ..blank(Tab::Ports)
    };
    let second = press(Key::Enter, &typing("db.test"), first.pending, first.asking);
    assert_eq!(second.effects[2], Effect::AskFor("pointing at (container:port)"));
    let third = press(Key::Enter, &typing("dbgate:3000"), second.pending, second.asking);
    assert_eq!(
        third.effects[2],
        Effect::AddDomain {
            host: "db.test".to_string(),
            upstream: "dbgate:3000".to_string()
        }
    );
}

#[test]
fn a_prompt_takes_the_letters_that_would_move_a_list() {
    let typing = Screen {
        typed: Some("s".to_string()),
        ..on_a_service()
    };
    for c in ['j', 'k', 'q', 'K', 'y'] {
        let outcome = press(Key::Char(c), &typing, None, Some(Asking::DomainHost));
        assert_eq!(outcome.effects, vec![Effect::Type(c)]);
        assert_eq!(outcome.asking, Some(Asking::DomainHost));
    }
    assert_eq!(
        press(Key::Backspace, &typing, None, Some(Asking::DomainHost)).effects,
        vec![Effect::Backspace]
    );
    assert!(press(Key::Down, &typing, None, Some(Asking::DomainHost)).effects.is_empty());
    let left = press(Key::Esc, &typing, None, Some(Asking::DomainHost));
    assert_eq!(left.effects, vec![Effect::CancelPrompt, Effect::CloseDetail]);
    assert_eq!(left.asking, None);
}

#[test]
fn nothing_typed_is_nothing_done() {
    let typing = Screen {
        typed: Some("  \t".to_string()),
        ..on_a_service()
    };
    let outcome = press(
        Key::Enter,
        &typing,
        None,
        Some(Asking::ExportDatabase {
            service: "mysql".to_string(),
        }),
    );
    assert_eq!(
        outcome.effects,
        vec![
            Effect::TakeTyped,
            Effect::CloseDetail,
            Effect::Say(News::Failed, "nothing typed, nothing done".to_string())
        ]
    );
    assert_eq!(outcome.asking, None);
}

#[test]
fn the_other_prompts_end_in_what_they_were_for() {
    let typing = Screen {
        typed: Some("shop".to_string()),
        ..on_a_project()
    };
    let enter = |asking: Asking| press(Key::Enter, &typing, None, Some(asking)).effects.split_off(2);
    assert_eq!(
        enter(Asking::ExportDatabase {
            service: "mysql".to_string()
        }),
        vec![
            Effect::Say(News::Working, "dumping shop".to_string()),
            Effect::Export {
                service: "mysql".to_string(),
                database: "shop".to_string()
            }
        ]
    );
    assert_eq!(
        enter(Asking::SwitchDotenv {
            path: "/srv/shop".to_string()
        }),
        vec![Effect::SwitchDotenv {
            path: "/srv/shop".to_string(),
            wanted: "shop".to_string()
        }]
    );
    assert_eq!(
        enter(Asking::ExecCommand {
            project: "api".to_string()
        }),
        vec![Effect::Leave(Leave::Exec("api".to_string(), "shop".to_string()))]
    );
}

#[test]
fn a_log_takes_the_keys() {
    let reading = Screen {
        logs: true,
        ..on_a_service()
    };
    let effects = |key: Key| press(key, &reading, None, None).effects;
    for key in [Key::Esc, Key::Char('q'), Key::Char('l')] {
        assert_eq!(effects(key), vec![Effect::CloseLogs]);
    }
    assert_eq!(effects(Key::Char('j')), vec![Effect::ScrollLogs(1)]);
    assert_eq!(effects(Key::PageUp), vec![Effect::ScrollLogs(-10)]);
    assert_eq!(effects(Key::Char('?')), vec![Effect::ToggleHelp]);
    assert!(effects(Key::Char('x')).is_empty(), "the list behind it stays as it is");
}

#[test]
fn choosing_a_menu_entry_is_pressing_its_key() {
    for c in ['s', 'x', 'S', 'l', 'o', 'b', 'E', 'I', 'd', 'r', 'g', '?', 'K'] {
        let open = Screen {
            menu: Some(Some(c)),
            ..on_a_service()
        };
        let chosen = press(Key::Enter, &open, None, None);
        let pressed = letter(c, &on_a_service());
        let mut expected = vec![Effect::CloseMenu];
        expected.extend(pressed.effects);
        assert_eq!(chosen.effects, expected);
        assert_eq!(chosen.pending, pressed.pending);
        assert_eq!(chosen.asking, pressed.asking);
    }
}

#[test]
fn a_menu_takes_only_the_keys_that_move_in_it() {
    let open = Screen {
        menu: Some(Some('s')),
        ..on_a_service()
    };
    let effects = |key: Key| press(key, &open, None, None).effects;
    assert_eq!(effects(Key::Esc), vec![Effect::CloseMenu]);
    assert_eq!(effects(Key::Char('q')), vec![Effect::CloseMenu]);
    assert_eq!(effects(Key::Char('j')), vec![Effect::MoveMenu(1)]);
    assert_eq!(effects(Key::Up), vec![Effect::MoveMenu(-1)]);
    assert!(effects(Key::Char('x')).is_empty(), "a slip, not a command");
}

#[test]
fn esc_closes_what_is_open_before_it_leaves() {
    let help = Screen {
        help: true,
        detail: true,
        ..on_a_project()
    };
    assert_eq!(press(Key::Esc, &help, None, None).effects, vec![Effect::ToggleHelp]);
    let detail = Screen {
        detail: true,
        ..on_a_project()
    };
    assert_eq!(press(Key::Esc, &detail, None, None).effects, vec![Effect::CloseDetail]);
    assert_eq!(
        press(Key::Esc, &on_a_project(), None, None).effects,
        vec![Effect::Leave(Leave::Quit)]
    );
    assert_eq!(letter('q', &help).effects, vec![Effect::Leave(Leave::Quit)]);
}

#[test]
fn the_menu_says_what_can_be_done_to_the_row() {
    let (subject, items) = menu_for(&on_a_project()).expect("a project is selected");
    assert_eq!(subject, "shop");
    assert_eq!(items.len(), 11);
    assert_eq!(items[0], MenuItem { label: "run it", key: 'p' });

    let (subject, items) = menu_for(&on_a_port()).expect("a port is selected");
    assert_eq!(subject, "8000 · php");
    assert!(items.iter().any(|item| item.key == 'K'));

    let (subject, items) = menu_for(&on_a_service()).expect("a service is selected");
    assert_eq!(subject, "mysql");
    assert!(
        !items.iter().any(|item| item.key == 'K'),
        "there is no process to end"
    );
    assert!(menu_for(&blank(Tab::Services)).is_none());
    assert_eq!(
        press(Key::Enter, &blank(Tab::Services), None, None).effects,
        failed("nothing is selected here yet")
    );
}

#[test]
fn a_key_that_needs_a_row_says_which_list_has_one() {
    let nothing = blank(Tab::Projects);
    for (c, text) in [
        ('l', "l reads a service's log — move to the services or ports pane first"),
        ('s', "no service here — move to the services or ports pane first"),
        ('b', "b backs up a service — move to the services or ports pane first"),
        ('K', "K ends what holds a port — move to the ports pane first"),
        ('E', "E dumps one database — move to the services or ports pane first"),
        ('I', "I loads a dump — move to the services or ports pane first"),
        ('.', ". shows a project's .env — move to the projects pane first"),
        (':', ": runs a command in a project — move to the projects pane first"),
        ('v', "v shows a project's toolchains — move to the projects pane first"),
        ('e', "e opens a project's folder — move to the projects pane first"),
        ('p', "p starts a project — move to the projects pane first"),
        ('t', "t opens a shell in a project — move to the projects pane first"),
        ('o', "nothing here says which address to open"),
    ] {
        assert_eq!(letter(c, &nothing).effects, failed(text));
    }
}

#[test]
fn the_keys_act_on_the_selected_row() {
    let service = on_a_service();
    for (c, action) in [('s', Action::Start), ('x', Action::Stop), ('S', Action::Restart)] {
        assert_eq!(
            letter(c, &service).effects,
            vec![Effect::Act {
                container: "mysql-db".to_string(),
                action
            }]
        );
    }
    assert_eq!(
        letter('b', &service).effects,
        vec![
            Effect::Say(News::Working, "backing up mysql".to_string()),
            Effect::Backup {
                container: "mysql-db".to_string()
            }
        ]
    );
    assert_eq!(
        letter('p', &on_a_project()).effects,
        vec![Effect::Leave(Leave::Run("shop".to_string()))]
    );
    assert_eq!(
        letter('.', &on_a_project()).effects,
        vec![
            Effect::ShowDotenv {
                name: "shop".to_string(),
                path: "/srv/shop".to_string()
            },
            Effect::AskFor("switch .env to")
        ]
    );
}

#[test]
fn every_pane_has_something_worth_opening() {
    assert_eq!(
        letter('o', &on_a_service()).effects,
        vec![Effect::OpenUrl("http://localhost:3306".to_string())]
    );
    let declared = Screen {
        panel: Some("http://localhost:8025".to_string()),
        ..on_a_service()
    };
    assert_eq!(
        letter('o', &declared).effects,
        vec![Effect::OpenUrl("http://localhost:8025".to_string())]
    );
    assert_eq!(
        letter('o', &on_a_port()).effects,
        vec![Effect::OpenUrl("http://localhost:8000".to_string())]
    );
    assert_eq!(
        letter('o', &on_a_project()).effects,
        vec![Effect::OpenProject {
            name: "shop".to_string(),
            path: "/srv/shop".to_string()
        }]
    );
}

#[test]
fn refreshing_redoes_what_is_being_looked_at() {
    let working = |text: &str| Effect::Say(News::Working, text.to_string());
    assert_eq!(
        letter('r', &blank(Tab::Projects)).effects,
        vec![
            Effect::BeginRefresh,
            working("rescanning projects"),
            Effect::CollectProjects
        ]
    );
    assert_eq!(
        letter('r', &blank(Tab::Services)).effects,
        vec![working("rereading services"), Effect::CollectServices]
    );
    assert_eq!(
        letter('r', &blank(Tab::Ports)).effects,
        vec![
            working("rereading ports"),
            Effect::CollectServices,
            Effect::CollectPorts
        ]
    );
    assert_eq!(
        letter('R', &blank(Tab::Ports)).effects,
        vec![
            Effect::BeginRefresh,
            working("refreshing everything"),
            Effect::CollectProjects,
            Effect::CollectServices,
            Effect::CollectPorts
        ]
    );
}

#[test]
fn the_lists_are_moved_through() {
    let screen = blank(Tab::Projects);
    let effects = |key: Key| press(key, &screen, None, None).effects;
    assert_eq!(effects(Key::Tab), vec![Effect::FocusNext]);
    assert_eq!(effects(Key::BackTab), vec![Effect::FocusPrevious]);
    assert_eq!(effects(Key::Char('2')), vec![Effect::FocusOn(Tab::Services)]);
    assert_eq!(effects(Key::Char('j')), vec![Effect::MoveSelection(1)]);
    assert_eq!(effects(Key::PageUp), vec![Effect::MoveSelection(-10)]);
    assert!(effects(Key::Other).is_empty());
}
