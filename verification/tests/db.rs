use aether_dev::db::{decode_dump, dump_plan, restore_plan, DbError, Engine};

fn mysql_env() -> Vec<String> {
    vec![
        "PATH=/usr/bin".to_string(),
        "MYSQL_ROOT_PASSWORD=s3cr3t".to_string(),
        "MYSQL_DATABASE=shop".to_string(),
    ]
}

fn postgres_env() -> Vec<String> {
    vec![
        "POSTGRES_USER=ticket".to_string(),
        "POSTGRES_PASSWORD=p4ss".to_string(),
    ]
}

fn mongo_env() -> Vec<String> {
    vec![
        "MONGO_INITDB_ROOT_USERNAME=admin".to_string(),
        "MONGO_INITDB_ROOT_PASSWORD=m0ngo".to_string(),
    ]
}

#[test]
fn an_engine_is_recognised_from_the_image_it_runs() {
    assert_eq!(Engine::from_image("mysql:9.7"), Some(Engine::MySql));
    assert_eq!(Engine::from_image("mariadb:11"), Some(Engine::MySql));
    assert_eq!(
        Engine::from_image("postgres:16-alpine"),
        Some(Engine::Postgres)
    );
    assert_eq!(Engine::from_image("mongo:8.0"), Some(Engine::Mongo));
}

#[test]
fn an_image_that_holds_no_database_is_not_guessed_at() {
    assert_eq!(Engine::from_image("redis:alpine"), None);
    assert_eq!(Engine::from_image("caddy:alpine"), None);
    assert_eq!(Engine::from_image("alpine/socat"), None);
    assert_eq!(
        Engine::from_image("docker.elastic.co/elasticsearch/elasticsearch:9.4.4"),
        None
    );
}

#[test]
fn a_registry_prefix_does_not_hide_the_engine() {
    assert_eq!(
        Engine::from_image("docker.io/library/postgres:18"),
        Some(Engine::Postgres)
    );
}

#[test]
fn a_mysql_dump_names_the_database_and_keeps_the_password_out_of_the_command() {
    let plan = dump_plan(Engine::MySql, "shop", &mysql_env()).unwrap();
    assert_eq!(plan.command[0], "mysqldump");
    assert!(plan.command.iter().any(|arg| arg == "shop"));
    assert!(
        !plan.command.iter().any(|arg| arg.contains("s3cr3t")),
        "a password in the command line is visible to every process in the container"
    );
    assert!(plan.env.contains(&"MYSQL_PWD=s3cr3t".to_string()));
}

#[test]
fn a_postgres_dump_uses_the_user_the_container_was_created_with() {
    let plan = dump_plan(Engine::Postgres, "tickets", &postgres_env()).unwrap();
    assert_eq!(plan.command[0], "pg_dump");
    assert!(plan.command.iter().any(|arg| arg == "--username=ticket"));
    assert!(plan.command.iter().any(|arg| arg == "tickets"));
    assert!(!plan.command.iter().any(|arg| arg.contains("p4ss")));
    assert!(plan.env.contains(&"PGPASSWORD=p4ss".to_string()));
}

#[test]
fn a_mongo_dump_authenticates_against_the_admin_database() {
    let plan = dump_plan(Engine::Mongo, "events", &mongo_env()).unwrap();
    assert_eq!(plan.command[0], "mongodump");
    assert!(plan.command.iter().any(|arg| arg == "--db=events"));
    assert!(plan
        .command
        .iter()
        .any(|arg| arg == "--authenticationDatabase=admin"));
    assert!(plan.command.iter().any(|arg| arg == "--username=admin"));
}

#[test]
fn a_container_without_its_credentials_is_reported_rather_than_dumped_blind() {
    let err = dump_plan(Engine::MySql, "shop", &["PATH=/usr/bin".to_string()]).unwrap_err();
    assert!(
        matches!(err, DbError::MissingCredential { .. }),
        "got {err:?}"
    );
    assert!(
        err.to_string().contains("MYSQL_ROOT_PASSWORD"),
        "the message must name the variable so it can be fixed"
    );
}

#[test]
fn a_database_name_that_could_smuggle_arguments_is_refused() {
    for hostile in ["", "shop; drop", "--host=elsewhere", "shop db", "a/b"] {
        let err = dump_plan(Engine::MySql, hostile, &mysql_env()).unwrap_err();
        assert!(
            matches!(err, DbError::InvalidDatabase(_)),
            "{hostile:?} should be refused, got {err:?}"
        );
    }
}

#[test]
fn an_ordinary_database_name_is_accepted() {
    for ok in ["shop", "my_db", "app-2", "Tickets"] {
        assert!(
            dump_plan(Engine::MySql, ok, &mysql_env()).is_ok(),
            "{ok} should be allowed"
        );
    }
}

#[test]
fn an_environment_value_containing_an_equals_sign_survives_intact() {
    let env = vec!["MYSQL_ROOT_PASSWORD=a=b=c".to_string()];
    let plan = dump_plan(Engine::MySql, "shop", &env).unwrap();
    assert!(
        plan.env.contains(&"MYSQL_PWD=a=b=c".to_string()),
        "splitting on every equals sign would truncate the password"
    );
}
#[test]
fn a_mysql_restore_passes_the_database_and_file_as_separate_arguments() {
    let plan = restore_plan(Engine::MySql, "shop", "/tmp/dump.sql", &mysql_env()).unwrap();
    assert_eq!(plan.command[0], "sh");
    assert_eq!(plan.command[1], "-c");
    assert!(
        plan.command.contains(&"shop".to_string())
            && plan.command.contains(&"/tmp/dump.sql".to_string()),
        "the name and the path travel as their own arguments, so neither can be 
         read as part of the script"
    );
    assert!(!plan.command.iter().any(|arg| arg.contains("s3cr3t")));
    assert!(plan.env.contains(&"MYSQL_PWD=s3cr3t".to_string()));
}

#[test]
fn a_postgres_restore_uses_the_containers_own_user() {
    let plan =
        restore_plan(Engine::Postgres, "tickets", "/tmp/d.sql", &postgres_env()).unwrap();
    assert_eq!(plan.command[0], "sh");
    assert!(plan.command.contains(&"ticket".to_string()));
    assert!(plan.command.contains(&"tickets".to_string()));
    assert!(plan.env.contains(&"PGPASSWORD=p4ss".to_string()));
}

#[test]
fn a_mongo_restore_reads_the_archive_it_was_given() {
    let plan = restore_plan(Engine::Mongo, "events", "/tmp/d.archive", &mongo_env()).unwrap();
    assert!(plan.command.iter().any(|arg| arg.contains("mongorestore")));
    assert!(plan.command.contains(&"/tmp/d.archive".to_string()));
}

#[test]
fn a_restore_refuses_the_same_database_names_a_dump_does() {
    let err =
        restore_plan(Engine::MySql, "shop; drop", "/tmp/d.sql", &mysql_env()).unwrap_err();
    assert!(matches!(err, DbError::InvalidDatabase(_)), "got {err:?}");
}

#[test]
fn a_restore_without_credentials_is_refused_rather_than_attempted() {
    let err = restore_plan(Engine::Postgres, "t", "/tmp/d.sql", &[]).unwrap_err();
    assert!(
        matches!(err, DbError::MissingCredential { .. }),
        "got {err:?}"
    );
}

fn compressed(bytes: &[u8]) -> Vec<u8> {
    let mut encoder = flate2::write::GzEncoder::new(Vec::new(), flate2::Compression::default());
    std::io::Write::write_all(&mut encoder, bytes).unwrap();
    encoder.finish().unwrap()
}

#[test]
fn a_compressed_dump_is_known_by_its_first_bytes() {
    let dump = b"-- MySQL dump\nCREATE TABLE t (id INT);\n".to_vec();
    let file = compressed(&dump);
    assert_ne!(file, dump);
    assert_eq!(decode_dump(file).unwrap(), dump);
}

#[test]
fn a_plain_dump_is_kept() {
    for dump in [b"-- MySQL dump".to_vec(), vec![0x1f], Vec::new(), vec![0x1f, 0x8c]] {
        assert_eq!(decode_dump(dump.clone()).unwrap(), dump);
    }
}

#[test]
fn a_dump_that_was_cut_short_is_refused() {
    let mut file = compressed(b"-- MySQL dump");
    file.truncate(file.len() - 6);
    assert!(decode_dump(file).is_err());
}
