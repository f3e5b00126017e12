use aether_dev::backup::{
    backup_directory_name, dump_problem, dump_step, engine_of, export_name, failed_line,
    import_archive, import_name, import_problem, overwrite_problem, tar_bytes, written_line,
    DumpStep, Moment,
};
use aether_dev::db::Engine;
use aether_dev::domain::{ServiceState, ServiceStatus};
use std::io::Read;

fn service(state: ServiceState) -> ServiceStatus {
    ServiceStatus {
        container: "mysql-db".to_string(),
        service: "mysql".to_string(),
        port: Some(3306),
        state,
        port_open: true,
        memory_bytes: None,
    }
}

fn moment(year: u32, second: u32) -> Moment {
    Moment {
        year,
        month: 3,
        day: 9,
        hour: 7,
        minute: 5,
        second,
    }
}

#[test]
fn a_backup_directory_is_named_by_its_moment() {
    assert_eq!(backup_directory_name(&moment(2025, 4)), "backup-20250309-070504Z");
}

#[test]
fn a_later_backup_sorts_after_an_earlier_one() {
    assert!(backup_directory_name(&moment(2025, 4)) < backup_directory_name(&moment(2025, 10)));
    assert!(backup_directory_name(&moment(2025, 59)) < backup_directory_name(&moment(2026, 0)));
}

#[test]
fn only_a_running_database_is_dumped() {
    assert!(matches!(
        dump_step(&service(ServiceState::Stopped), None),
        DumpStep::Skip(reason) if reason == "mysql is not running"
    ));
    assert!(matches!(
        dump_step(&service(ServiceState::Running), None),
        DumpStep::Inspect
    ));
    assert!(matches!(
        dump_step(&service(ServiceState::Running), Some("redis:alpine")),
        DumpStep::Skip(reason) if reason == "mysql holds no database"
    ));
    assert!(matches!(
        dump_step(&service(ServiceState::Running), Some("mariadb:11")),
        DumpStep::Dump(Engine::MySql)
    ));
}

#[test]
fn an_image_without_a_database_is_named() {
    assert_eq!(engine_of("cache", "postgres:16", false), Ok(Engine::Postgres));
    assert_eq!(
        engine_of("cache", "redis:7", false),
        Err("cache runs redis:7, which holds no database this build knows how to dump".to_string())
    );
    assert_eq!(
        engine_of("cache", "redis:7", true),
        Err("cache runs redis:7, which is not a database this build knows how to load".to_string())
    );
}

#[test]
fn a_dump_that_failed_says_with_which_code_and_why() {
    assert_eq!(dump_problem("mysqldump", 0, "a warning"), None);
    assert_eq!(
        dump_problem("mysqldump", 2, " access denied\n"),
        Some("mysqldump exited 2: access denied".to_string())
    );
    assert_eq!(import_problem(0, ""), None);
    assert_eq!(
        import_problem(-1, "gone\n"),
        Some("import failed, exit -1: gone".to_string())
    );
}

#[test]
fn an_existing_dump_is_left_alone_unless_forced() {
    assert_eq!(
        overwrite_problem("shop.sql", true, false),
        Some("shop.sql already exists; pass --force to replace it".to_string())
    );
    assert_eq!(overwrite_problem("shop.sql", true, true), None);
    assert_eq!(overwrite_problem("shop.sql", false, false), None);
}

#[test]
fn files_are_named_after_what_they_hold() {
    assert_eq!(export_name("shop", false), "shop.sql");
    assert_eq!(export_name("shop", true), "shop.sql.gz");
    assert_eq!(import_name(42), "adev-import-42");
}

#[test]
fn a_dump_is_packed_as_one_file() {
    let bytes = tar_bytes("adev-import-1", b"create table t;").unwrap();
    let mut archive = tar::Archive::new(bytes.as_slice());
    let mut entries = archive.entries().unwrap();
    let mut entry = entries.next().unwrap().unwrap();
    assert_eq!(entry.path().unwrap().to_str(), Some("adev-import-1"));
    assert_eq!(entry.header().mode().unwrap(), 0o600);
    let mut content = String::new();
    entry.read_to_string(&mut content).unwrap();
    assert_eq!(content, "create table t;");
    assert!(entries.next().is_none());
    assert_eq!(
        import_archive(1, b"create table t;").unwrap(),
        tar_bytes("adev-import-1", b"create table t;").unwrap()
    );
}

#[test]
fn what_was_written_and_what_was_not_is_said() {
    assert_eq!(written_line("mysql", "b/mysql.sql", 12), "mysql -> b/mysql.sql (12 bytes)");
    assert_eq!(failed_line("mysql", "gone"), "mysql failed, its file removed: gone");
}
