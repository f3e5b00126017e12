use aether_dev::catalog::CatalogError;
use aether_dev::config::{Config, ConfigError};
use aether_dev::db::{account_env, dump_all_plan, dump_plan, DbError, Engine};
use aether_dev::docker::{is_closed_on_purpose, parse_containers, DockerError, HttpDockerClient};
use aether_dev::domain::ServiceState;
use aether_dev::git::{GitAnswer, GitCli, GitError};
use aether_dev::listen::{
    captured, default_kill, listening, terminate, Format, ListenError, Listening, PortsConfig,
    Probe,
};
use aether_dev::memory::{read, MemoryConfig};
use aether_dev::platform::Platform;

#[test]
fn a_database_name_is_refused_in_quotes() {
    let env = ["MYSQL_ROOT_PASSWORD=x".to_string()];
    assert_eq!(
        dump_plan(Engine::MySql, "a\"b", &env).unwrap_err().to_string(),
        "\"a\\\"b\" is not a usable database name"
    );
    assert_eq!(
        DbError::UnknownEngine("redis".to_string()).to_string(),
        "no dump tool is known for the image \"redis\""
    );
    assert_eq!(
        dump_plan(Engine::Postgres, "shop", &[]).unwrap_err().to_string(),
        "postgres does not publish POSTGRES_USER, so its credentials are unknown"
    );
}

#[test]
fn every_database_is_dumped_by_one_command() {
    let env = ["MYSQL_ROOT_PASSWORD=x".to_string()];
    let plan = dump_all_plan(Engine::MySql, &env).unwrap();
    assert_eq!(plan.command[0], "mysqldump");
    assert_eq!(plan.command[6], "--all-databases");
    assert_eq!(plan.env, vec!["MYSQL_PWD=x"]);
    assert!(matches!(
        dump_all_plan(Engine::Mongo, &env),
        Err(DbError::MissingCredential { .. })
    ));
}

#[test]
fn a_configured_account_wins_over_the_containers_own() {
    let env = ["POSTGRES_USER=a".to_string(), "OTHER=q".to_string()];
    let user = Some("dump".to_string());
    let merged = account_env(Engine::Postgres, &env, &user, &None, &Some("OTHER".to_string()));
    let plan = dump_plan(Engine::Postgres, "shop", &merged).unwrap();
    assert_eq!(plan.command[1], "--username=dump");
    assert_eq!(plan.env, vec!["PGPASSWORD=q"]);
    let merged = account_env(Engine::Mongo, &env, &user, &Some("p".to_string()), &None);
    assert_eq!(
        merged[..2],
        [
            "MONGO_INITDB_ROOT_USERNAME=dump".to_string(),
            "MONGO_INITDB_ROOT_PASSWORD=p".to_string()
        ]
    );
    assert_eq!(account_env(Engine::MySql, &env, &user, &None, &None), env);
}

#[test]
fn a_configuration_that_cannot_work_says_which_field() {
    for (text, said) in [
        ("[project]\nroots = []\n", "invalid config: project.roots must list at least one directory to scan"),
        ("[scan]\nworkers = 0\n", "invalid config: scan.workers must be at least 1"),
        ("[scan]\ngit_timeout_ms = 0\n", "invalid config: scan.git_timeout_ms must be greater than zero"),
        (
            "[caddy]\ncontainer = \" \"\n",
            "invalid config: caddy.container must name the container to restart after a change",
        ),
        (
            "[toolchain.php]\nbinary = \"php\"\n",
            "invalid config: toolchain.search must list a directory to look in, or name versions directly",
        ),
        (
            "[toolchain.php]\nsearch = [\"/php\"]\n",
            "invalid config: toolchain.binary must name the file that marks a directory as an install",
        ),
        (
            "[scan]\nworkerz = 1\n",
            "config is not valid TOML: unknown key `workerz` in [scan]",
        ),
    ] {
        assert_eq!(Config::from_toml_str(Platform::Linux, text).unwrap_err().to_string(), said);
    }
    assert!(matches!(
        Config::from_toml_str(Platform::Linux, "[scan]\nworkers = \"many\"\n").unwrap_err(),
        ConfigError::Parse(_)
    ));
    assert!(matches!(
        Config::from_toml_str(Platform::Linux, "[scan]\nworkers = -1\n").unwrap_err(),
        ConfigError::Parse(_)
    ));
    assert!(matches!(
        Config::from_toml_str(Platform::Linux, "[scann]\n").unwrap_err(),
        ConfigError::Parse(_)
    ));
    assert_eq!(
        ConfigError::Io {
            path: "a.toml".to_string(),
            reason: "gone".to_string()
        }
        .to_string(),
        "cannot read a.toml: gone"
    );
}

#[test]
fn every_section_is_read() {
    let config = Config::from_toml_str(
        Platform::Linux,
        "[docker]\nendpoint = \"tcp://x:1\"\n\
         [recipe.laravel]\ncommand = \"serve\"\nport = 8001\n\
         [run.shop]\nport = 9000\n\
         [service.mysql]\ncontainer = \"db\"\nport = 3306\ndomain = \"db.test\"\n\
         [ports]\nnames = [\"tasklist\"]\n[[ports.probe]]\ncommand = [\"ss\"]\nformat = \"ss\"\n\
         [open]\nbrowser = [\"firefox\"]\n\
         [memory]\ninterval_secs = 0\n\
         [tools]\ngit = \"/usr/bin/git\"\n\
         [backup]\ndirectory = \"dumps\"\ngzip = true\n",
    )
    .unwrap();
    assert_eq!(config.docker.endpoint, "tcp://x:1");
    assert_eq!(config.recipe[0].1.command.as_deref(), Some("serve"));
    assert_eq!(config.run[0].1.port, Some(9000));
    assert_eq!(config.service[0].1.domain.as_deref(), Some("db.test"));
    assert_eq!(
        config.ports,
        PortsConfig {
            probe: vec![Probe {
                command: vec!["ss".to_string()],
                format: Format::Ss
            }],
            names: vec!["tasklist".to_string()],
        }
    );
    assert_eq!(config.open.browser, vec!["firefox"]);
    assert_eq!(config.memory.interval_secs, 0);
    assert_eq!(config.tools.git, "/usr/bin/git");
    assert_eq!(config.tools.kill, default_kill(Platform::Linux));
    assert_eq!(config.backup.directory, "dumps");
    assert!(config.backup.gzip);
}

#[test]
fn docker_errors_say_what_to_do() {
    assert_eq!(
        DockerError::NoEndpoint.to_string(),
        "no docker endpoint: set DOCKER_HOST, or docker.endpoint in the config file"
    );
    assert_eq!(
        HttpDockerClient::new("npipe:////./pipe/docker_engine", None)
            .err()
            .unwrap()
            .to_string(),
        "docker endpoint transport is not supported by this build: npipe:////./pipe/docker_engine"
    );
    assert!(parse_containers("{not json").unwrap_err().to_string().starts_with(
        "docker returned something this build cannot read: "
    ));
}

#[test]
fn a_client_asks_one_address_and_reports_what_came_back() {
    let client = HttpDockerClient::new("tcp://127.0.0.1:2375", None).ok().unwrap();
    assert_eq!(client.endpoint(), "http://127.0.0.1:2375");
    assert_eq!(
        client.containers_url(),
        "http://127.0.0.1:2375/containers/json?all=true"
    );
    assert_eq!(
        client.services(Err("refused".to_string())).unwrap_err().to_string(),
        "cannot reach docker at http://127.0.0.1:2375: refused"
    );
    let services = client
        .services(Ok("[{\"Names\":[\"/db\"],\"State\":\"exited\"}]".to_string()))
        .unwrap();
    assert_eq!(services[0].container, "db");
    assert_eq!(services[0].state, ServiceState::Stopped);
}

#[test]
fn a_reader_that_went_away_is_no_failure() {
    let unreachable = |reason: &str| DockerError::Unreachable {
        endpoint: "x".to_string(),
        reason: reason.to_string(),
    };
    assert!(is_closed_on_purpose(&unreachable("Broken pipe (os error 32)")));
    assert!(!is_closed_on_purpose(&unreachable("refused")));
    assert!(!is_closed_on_purpose(&DockerError::NoEndpoint));
}

#[test]
fn git_that_fails_is_not_a_clean_repository() {
    let git = GitCli::new(2000, "git".to_string());
    assert_eq!(
        git.command_line("/srv/shop"),
        vec!["git", "-C", "/srv/shop", "status", "--porcelain"]
    );
    let branch = || Some("main".to_string());
    let ended = |success: bool, output: &str, complaint: &str| GitAnswer::Ended {
        success,
        output: output.to_string(),
        complaint: complaint.to_string(),
    };
    let status = git.status(branch(), &ended(true, " M a\n?? b\n", "")).unwrap();
    assert_eq!((status.modified, status.untracked), (1, 1));
    assert_eq!(
        git.status(branch(), &ended(false, "", "fatal: bad object HEAD\n")).unwrap_err(),
        GitError::Unavailable("git status failed: fatal: bad object HEAD".to_string())
    );
    assert!(git.status(branch(), &ended(false, " M a\n", "")).is_err());
    assert_eq!(
        git.status(branch(), &GitAnswer::Late).unwrap_err().to_string(),
        "git status did not answer within 2000 ms"
    );
    assert_eq!(
        git.status(branch(), &GitAnswer::Failed("no git".to_string())).unwrap_err(),
        GitError::Unavailable("no git".to_string())
    );
    assert_eq!(
        GitError::Unavailable("no git".to_string()).to_string(),
        "could not run git: no git"
    );
    assert_eq!(git.status(None, &GitAnswer::Late).unwrap().branch, None);
}

#[test]
fn the_system_itself_is_never_ended() {
    assert_eq!(terminate(&default_kill(Platform::Linux), 4711).unwrap(), vec!["kill", "-TERM", "4711"]);
    for pid in 0..=4 {
        assert_eq!(
            terminate(&default_kill(Platform::Linux), pid).unwrap_err().to_string(),
            format!("cannot ask this system what is listening: {pid} belongs to the operating system")
        );
    }
    assert!(terminate(&[], 4711).unwrap_err().to_string().contains("[tools].kill"));
}

#[test]
fn a_probe_that_fails_gives_way_to_the_next() {
    let config = PortsConfig::default(Platform::Linux);
    let mut answers = vec![];
    assert!(matches!(listening(&config, &answers, &None), Listening::Ask(line) if line[0] == "ss"));
    answers.push(captured("ss", false, Some(127), String::new(), "not found\n"));
    match &answers[0] {
        Err(ListenError::Unavailable(reason)) => assert_eq!(reason, "ss exited 127: not found"),
        other => panic!("{other:?}"),
    }
    assert!(
        matches!(listening(&config, &answers, &None), Listening::Ask(line) if line[0] == "netstat")
    );
    answers.push(Ok(
        "tcp 0 0 0.0.0.0:3306 0.0.0.0:* LISTEN 1085/docker-proxy\n".to_string(),
    ));
    match listening(&config, &answers, &None) {
        Listening::Done(Ok(found)) => assert_eq!(found[0].port, 3306),
        other => panic!("{other:?}"),
    }
    assert_eq!(
        ListenError::Unsupported.to_string(),
        "listing ports is not implemented for this platform yet"
    );
}

#[test]
fn names_are_asked_for_where_the_listing_has_none() {
    let config = PortsConfig {
        probe: vec![Probe {
            command: vec!["netstat".to_string()],
            format: Format::WindowsNetstat,
        }],
        names: vec!["tasklist".to_string()],
    };
    let answers = vec![Ok(
        "  TCP    0.0.0.0:8000   0.0.0.0:0   LISTENING   16784\n".to_string()
    )];
    assert!(matches!(
        listening(&config, &answers, &None),
        Listening::AskNames(line) if line[0] == "tasklist"
    ));
    let names = Some(Some("\"php.exe\",\"16784\",\"Console\",\"1\",\"42 K\"\n".to_string()));
    match listening(&config, &answers, &names) {
        Listening::Done(Ok(found)) => assert_eq!(found[0].process.as_deref(), Some("php.exe")),
        other => panic!("{other:?}"),
    }
    match listening(&config, &answers, &Some(None)) {
        Listening::Done(Ok(found)) => assert_eq!(found[0].process, None),
        other => panic!("{other:?}"),
    }
}

#[test]
fn memory_is_read_from_what_was_configured() {
    let config = MemoryConfig {
        interval_secs: 5,
        guest: vec!["free".to_string()],
        host_process: vec!["vmmem".to_string()],
    };
    let guest = Some("Mem: 7946 1423 5367\n".to_string());
    let host = Some("\"vmmem\",\"2\",\"Services\",\"0\",\"512 K\"\n".to_string());
    let reading = read(&config, &guest, &host);
    assert_eq!(reading.guest_bytes, Some(1423 * 1024 * 1024));
    assert_eq!(reading.host, Some(("vmmem".to_string(), 512 * 1024)));
    assert!(read(&config, &None, &None).is_empty());
}

#[test]
fn a_route_to_nowhere_names_its_service() {
    let text = CatalogError::DomainWithoutPort {
        service: "mailpit".to_string(),
    }
    .to_string();
    assert!(text.contains("mailpit"), "{text}");
}
