use aether_dev::db::Engine;
use aether_dev::domain::{ServiceState, ServiceStatus};
use aether_dev::dotenv::switch_plan;
use aether_dev::lifecycle::Account;
use aether_dev::routes::{save_plan, saved_line, Route, SaveStep};
use aether_dev::transfer::{
    Backup, DumpingStep, Ended, Export, Import, ImportStep, Inspected, Written,
};

fn nobody() -> Account {
    Account {
        user: None,
        password: None,
        password_env: None,
    }
}

fn mysql() -> Option<Result<Inspected, String>> {
    Some(Ok(Inspected {
        image: "mysql:9.7".to_string(),
        env: vec!["MYSQL_ROOT_PASSWORD=s3cr3t".to_string()],
    }))
}

fn running(image: &str) -> Option<Result<Inspected, String>> {
    Some(Ok(Inspected {
        image: image.to_string(),
        env: vec![],
    }))
}

fn ended(exit_code: i32, stderr: &str) -> Ended {
    Ended {
        exit_code,
        stderr: stderr.to_string(),
    }
}

fn import(database: &str) -> Import {
    Import {
        container: "mysql-db".to_string(),
        database: database.to_string(),
        dump: b"create table t;".to_vec(),
        stamp: 7,
        account: nobody(),
    }
}

#[test]
fn a_dump_is_loaded_step_by_step() {
    let import = import("shop");
    assert!(matches!(import.step(&None, &None, &None, false), ImportStep::Inspect));
    assert!(matches!(
        import.step(&mysql(), &None, &None, false),
        ImportStep::Upload(archive) if archive.starts_with(b"adev-import-7")
    ));
    match import.step(&mysql(), &Some(Ok(())), &None, false) {
        ImportStep::Run(plan) => {
            assert_eq!(plan.command[4], "shop");
            assert_eq!(plan.command[5], "/tmp/adev-import-7");
            assert_eq!(plan.env, vec!["MYSQL_PWD=s3cr3t"]);
        }
        other => panic!("{other:?}"),
    }
    let good = Some(Ok(ended(0, "a warning")));
    assert!(matches!(
        import.step(&mysql(), &Some(Ok(())), &good, true),
        ImportStep::Done(Ok(15))
    ));
}

#[test]
fn the_copy_goes_whatever_happened() {
    let import = import("shop");
    for ran in [Ok(ended(0, "")), Ok(ended(1, "no")), Err("connection lost".to_string())] {
        match import.step(&mysql(), &Some(Ok(())), &Some(ran), false) {
            ImportStep::Remove(command) => {
                assert_eq!(command, vec!["rm", "-f", "/tmp/adev-import-7"]);
            }
            other => panic!("{other:?}"),
        }
    }
    let said = |ran: Result<Ended, String>| match import.step(
        &mysql(),
        &Some(Ok(())),
        &Some(ran),
        true,
    ) {
        ImportStep::Done(Err(reason)) => reason,
        other => panic!("{other:?}"),
    };
    assert_eq!(said(Ok(ended(1, " no\n"))), "import failed, exit 1: no");
    assert_eq!(said(Err("connection lost".to_string())), "connection lost");
}

#[test]
fn a_refused_import_touches_nothing() {
    let said = |import: &Import, inspected: &Option<Result<Inspected, String>>| {
        match import.step(inspected, &None, &None, false) {
            ImportStep::Done(Err(reason)) => reason,
            other => panic!("{other:?}"),
        }
    };
    assert_eq!(
        said(&import("shop"), &running("redis:7")),
        "mysql-db runs redis:7, which is not a database this build knows how to load"
    );
    assert_eq!(
        said(&import("shop; drop"), &mysql()),
        "\"shop; drop\" is not a usable database name"
    );
    assert_eq!(said(&import("shop"), &Some(Err("gone".to_string()))), "gone");
    assert!(matches!(
        import("shop").step(&mysql(), &Some(Err("full".to_string())), &None, false),
        ImportStep::Done(Err(reason)) if reason == "could not put the dump into mysql-db: full"
    ));
}

#[test]
fn a_half_written_dump_is_taken_away() {
    let export = Export {
        container: "mysql-db".to_string(),
        database: "shop".to_string(),
        path: "shop.sql".to_string(),
        account: nobody(),
    };
    assert!(matches!(export.step(&None, &None, false), DumpingStep::Inspect));
    assert!(matches!(
        export.step(&mysql(), &None, false),
        DumpingStep::Run(Engine::MySql, plan) if plan.command[0] == "mysqldump"
    ));
    let written = |exit_code: i32| {
        Some(Ok(Written {
            ended: ended(exit_code, "denied"),
            bytes: 9,
        }))
    };
    assert!(matches!(
        export.step(&mysql(), &written(0), false),
        DumpingStep::Done(Ok((9, complaints))) if complaints == "denied"
    ));
    assert!(matches!(export.step(&mysql(), &written(2), false), DumpingStep::Remove));
    assert!(matches!(
        export.step(&mysql(), &written(2), true),
        DumpingStep::Done(Err(reason)) if reason == "mysqldump exited 2: denied; shop.sql removed"
    ));
}

#[test]
fn a_service_is_backed_up_whole() {
    let backup = |state: ServiceState| Backup {
        service: ServiceStatus {
            container: "mysql-db".to_string(),
            service: "mysql".to_string(),
            port: None,
            state,
            port_open: false,
            memory_bytes: None,
        },
        account: nobody(),
    };
    assert!(matches!(
        backup(ServiceState::Stopped).step(&None, &None, false),
        DumpingStep::Nothing(reason) if reason == "mysql is not running"
    ));
    let running_one = backup(ServiceState::Running);
    assert!(matches!(
        running_one.step(&running("redis:7"), &None, false),
        DumpingStep::Nothing(reason) if reason == "mysql holds no database"
    ));
    assert!(matches!(
        running_one.step(&mysql(), &None, false),
        DumpingStep::Run(Engine::MySql, plan) if plan.command[6] == "--all-databases"
    ));
    assert!(matches!(
        running_one.step(&running("mysql:9"), &None, false),
        DumpingStep::Done(Err(reason)) if reason.starts_with("mysql: mysql does not publish ")
    ));
    let lost = Some(Err("disk full".to_string()));
    assert!(matches!(running_one.step(&mysql(), &lost, false), DumpingStep::Remove));
    assert!(matches!(
        running_one.step(&mysql(), &lost, true),
        DumpingStep::Done(Err(reason)) if reason == "mysql failed, its file removed: disk full"
    ));
}

#[test]
fn the_file_being_replaced_is_kept_first() {
    let steps = switch_plan(true, ".env.local");
    assert_eq!((steps[0].from.as_str(), steps[0].to.as_str()), (".env", ".env.bak"));
    assert_eq!((steps[1].from.as_str(), steps[1].to.as_str()), (".env.local", ".env"));
    assert_eq!(switch_plan(false, ".env.local").len(), 1);
}

#[test]
fn the_record_of_what_is_routed_is_written_first() {
    let file = vec![Route {
        host: "db.test".to_string(),
        upstream: "dbgate:3000".to_string(),
    }];
    let plan = |no_reload: bool| {
        save_plan(&file, &[], "domains.toml", "Caddyfile", "caddy", no_reload).unwrap()
    };
    assert_eq!(
        plan(false),
        vec![
            SaveStep::Write {
                path: "domains.toml".to_string(),
                text: "\"db.test\" = \"dbgate:3000\"\n".to_string()
            },
            SaveStep::Write {
                path: "Caddyfile".to_string(),
                text: "db.test {\n\treverse_proxy dbgate:3000\n}\n".to_string()
            },
            SaveStep::Restart {
                container: "caddy".to_string()
            },
        ]
    );
    assert_eq!(plan(true).len(), 2);
    let twice = [("db.test".to_string(), "x:1".to_string())];
    assert!(save_plan(&file, &twice, "domains.toml", "Caddyfile", "caddy", false).is_err());
    assert_eq!(
        saved_line("domains.toml", "Caddyfile", "caddy", true),
        "wrote domains.toml and Caddyfile; the proxy still serves the previous config until it restarts"
    );
    assert_eq!(
        saved_line("domains.toml", "Caddyfile", "caddy", false),
        "wrote the config and restarted caddy"
    );
}
