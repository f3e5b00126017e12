//! Working out what to run inside a database container, and with what.
//!
//! Credentials are never stored or asked for: they are read from the
//! container's own environment, which the daemon already reports.
//!
//! Deciding the command is a pure function, so the argument shapes, the
//! credential lookup and the refusals are all stated without a database.

use crate::text::{
    char_is_digit, char_is_letter, chars_of, copy_texts, debug_text, find_char, find_last_char,
    index_of, is_digit, is_letter, last_index_of, lemma_index_of, lemma_index_of_is,
    lemma_last_index_of_is, lemma_views_push, maybe_text, quoted, same_chars, string_of, views,
};
use vstd::prelude::*;
use vstd::slice::*;
use vstd::string::*;

verus! {

#[derive(Debug)]
pub enum DbError {
    MissingCredential { container: &'static str, variable: &'static str },
    InvalidDatabase(String),
    UnknownEngine(String),
}

/// What a refusal says.
pub enum DbErrorView {
    MissingCredential { container: Seq<char>, variable: Seq<char> },
    InvalidDatabase(Seq<char>),
    UnknownEngine(Seq<char>),
}

impl View for DbError {
    type V = DbErrorView;

    open spec fn view(&self) -> DbErrorView {
        match self {
            DbError::MissingCredential { container, variable } => DbErrorView::MissingCredential {
                container: container@,
                variable: variable@,
            },
            DbError::InvalidDatabase(name) => DbErrorView::InvalidDatabase(name@),
            DbError::UnknownEngine(image) => DbErrorView::UnknownEngine(image@),
        }
    }
}

/// The sentence that reports a refusal.
pub open spec fn db_error_text(error: DbErrorView) -> Seq<char> {
    match error {
        DbErrorView::MissingCredential { container, variable } => container
            + " does not publish "@ + variable + ", so its credentials are unknown"@,
        DbErrorView::InvalidDatabase(name) => debug_text(name) + " is not a usable database name"@,
        DbErrorView::UnknownEngine(image) => "no dump tool is known for the image "@ + debug_text(
            image,
        ),
    }
}

impl DbError {
    /// The sentence that reports this refusal.
    pub fn to_string(&self) -> (text: String)
        ensures
            text@ == db_error_text(self@),
    {
        match self {
            DbError::MissingCredential { container, variable } => {
                let mut text = (*container).to_owned();
                text.append(" does not publish ");
                text.append(variable);
                text.append(", so its credentials are unknown");
                text
            },
            DbError::InvalidDatabase(name) => {
                let mut text = quoted(name.as_str());
                text.append(" is not a usable database name");
                text
            },
            DbError::UnknownEngine(image) => {
                let mut text = "no dump tool is known for the image ".to_owned();
                text.append(quoted(image.as_str()).as_str());
                text
            },
        }
    }
}

#[derive(Debug, Clone, Copy, PartialEq, Eq, Structural)]
pub enum Engine {
    MySql,
    Postgres,
    Mongo,
}

/// The image's own name: no registry before it, no tag behind it.
pub open spec fn image_name(image: Seq<char>) -> Seq<char> {
    let name = image.skip(last_index_of(image, '/') + 1);
    name.take(index_of(name, ':'))
}

/// The engine an image of this name runs, where it is a database.
pub open spec fn engine_named(name: Seq<char>) -> Option<Engine> {
    if name == "mysql"@ || name == "mariadb"@ || name == "percona"@ {
        Some(Engine::MySql)
    } else if name == "postgres"@ || name == "postgis"@ {
        Some(Engine::Postgres)
    } else if name == "mongo"@ {
        Some(Engine::Mongo)
    } else {
        None
    }
}

impl Engine {
    /// Reads the engine off the image name, ignoring any registry and tag.
    /// An image that is not a database returns `None` rather than a guess.
    pub fn from_image(image: &str) -> (engine: Option<Engine>)
        ensures
            engine == engine_named(image_name(image@)),
    {
        let chars = chars_of(image);
        let end: usize = chars.len();
        let start: usize = match find_last_char(chars.as_slice(), '/') {
            Some(at) => at + 1,
            None => 0,
        };
        let rest = slice_subrange(chars.as_slice(), start, end);
        let name = string_of(slice_subrange(rest, 0, find_char(rest, ':')));
        if name == "mysql".to_owned() || name == "mariadb".to_owned() || name
            == "percona".to_owned() {
            Some(Engine::MySql)
        } else if name == "postgres".to_owned() || name == "postgis".to_owned() {
            Some(Engine::Postgres)
        } else if name == "mongo".to_owned() {
            Some(Engine::Mongo)
        } else {
            None
        }
    }

    pub open spec fn label_text(self) -> Seq<char> {
        match self {
            Engine::MySql => "mysql"@,
            Engine::Postgres => "postgres"@,
            Engine::Mongo => "mongo"@,
        }
    }

    pub fn label(self) -> (label: &'static str)
        ensures
            label@ == self.label_text(),
    {
        match self {
            Engine::MySql => "mysql",
            Engine::Postgres => "postgres",
            Engine::Mongo => "mongo",
        }
    }
}

/// A command to run inside a container, and the environment to run it with.
#[derive(Debug, Clone, PartialEq, Eq)]
pub struct ExecPlan {
    pub command: Vec<String>,
    pub env: Vec<String>,
}

/// The arguments and the environment entries of a plan.
pub struct ExecPlanView {
    pub command: Seq<Seq<char>>,
    pub env: Seq<Seq<char>>,
}

impl View for ExecPlan {
    type V = ExecPlanView;

    open spec fn view(&self) -> ExecPlanView {
        ExecPlanView { command: views(self.command@), env: views(self.env@) }
    }
}

/// The value an environment gives a name, read from the first entry of that
/// name. Only the first equals sign separates: a password may well contain
/// more.
pub open spec fn value_in(env: Seq<Seq<char>>, key: Seq<char>) -> Option<Seq<char>>
    decreases env.len(),
{
    if env.len() == 0 {
        None
    } else {
        let at = index_of(env[0], '=');
        if at < env[0].len() && env[0].take(at) == key {
            Some(env[0].skip(at + 1))
        } else {
            value_in(env.skip(1), key)
        }
    }
}

/// A name that reads as one plain argument and as nothing else.
pub open spec fn usable_database(name: Seq<char>) -> bool {
    &&& name.len() > 0
    &&& name[0] != '-'
    &&& forall|i: int|
        0 <= i < name.len() ==> is_letter(#[trigger] name[i]) || is_digit(name[i]) || name[i] == '_'
            || name[i] == '-'
}

/// The variable that holds the user an engine's dump and restore run as.
/// MySQL always runs as root, so it needs none.
pub open spec fn user_variable(engine: Engine) -> Option<Seq<char>> {
    match engine {
        Engine::MySql => None,
        Engine::Postgres => Some("POSTGRES_USER"@),
        Engine::Mongo => Some("MONGO_INITDB_ROOT_USERNAME"@),
    }
}

/// The variable that holds the password.
pub open spec fn password_variable(engine: Engine) -> Seq<char> {
    match engine {
        Engine::MySql => "MYSQL_ROOT_PASSWORD"@,
        Engine::Postgres => "POSTGRES_PASSWORD"@,
        Engine::Mongo => "MONGO_INITDB_ROOT_PASSWORD"@,
    }
}

/// The user (empty for MySQL) and the password, or the first variable that the
/// environment does not hold.
pub open spec fn credentials_in(engine: Engine, env: Seq<Seq<char>>) -> Result<
    (Seq<char>, Seq<char>),
    DbErrorView,
> {
    let missing = |variable: Seq<char>|
        DbErrorView::MissingCredential { container: engine.label_text(), variable };
    match user_variable(engine) {
        Some(variable) => match value_in(env, variable) {
            Some(user) => match value_in(env, password_variable(engine)) {
                Some(password) => Ok((user, password)),
                None => Err(missing(password_variable(engine))),
            },
            None => Err(missing(variable)),
        },
        None => match value_in(env, password_variable(engine)) {
            Some(password) => Ok((Seq::empty(), password)),
            None => Err(missing(password_variable(engine))),
        },
    }
}

/// What dumps one database, given the credentials.
pub open spec fn dump_with(
    engine: Engine,
    database: Seq<char>,
    user: Seq<char>,
    password: Seq<char>,
) -> ExecPlanView {
    match engine {
        Engine::MySql => ExecPlanView {
            command: seq![
                "mysqldump"@,
                "--user=root"@,
                "--single-transaction"@,
                "--routines"@,
                "--triggers"@,
                "--set-gtid-purged=OFF"@,
                database,
            ],
            env: seq!["MYSQL_PWD="@ + password],
        },
        Engine::Postgres => ExecPlanView {
            command: seq![
                "pg_dump"@,
                "--username="@ + user,
                "--no-owner"@,
                "--no-privileges"@,
                database,
            ],
            env: seq!["PGPASSWORD="@ + password],
        },
        Engine::Mongo => ExecPlanView {
            command: seq![
                "mongodump"@,
                "--archive"@,
                "--db="@ + database,
                "--username="@ + user,
                "--password="@ + password,
                "--authenticationDatabase=admin"@,
            ],
            env: seq![],
        },
    }
}

/// The script that restores a database, with its arguments still to come.
pub open spec fn restore_script(engine: Engine) -> Seq<char> {
    match engine {
        Engine::MySql => "mysql --user=root \"$1\" < \"$2\""@,
        Engine::Postgres => "psql --username=\"$1\" --dbname=\"$2\" --file=\"$3\" --set ON_ERROR_STOP=1"@,
        Engine::Mongo => "mongorestore --username=\"$1\" --password=\"$2\" --authenticationDatabase=admin --db=\"$3\" --archive=\"$4\""@,
    }
}

/// What restores one database from a file, given the credentials.
pub open spec fn restore_with(
    engine: Engine,
    database: Seq<char>,
    file: Seq<char>,
    user: Seq<char>,
    password: Seq<char>,
) -> ExecPlanView {
    let head = seq!["sh"@, "-c"@, restore_script(engine), "sh"@];
    match engine {
        Engine::MySql => ExecPlanView {
            command: head + seq![database, file],
            env: seq!["MYSQL_PWD="@ + password],
        },
        Engine::Postgres => ExecPlanView {
            command: head + seq![user, database, file],
            env: seq!["PGPASSWORD="@ + password],
        },
        Engine::Mongo => ExecPlanView {
            command: head + seq![user, password, database, file],
            env: seq![],
        },
    }
}

/// What `dump_plan` gives: the name is judged before the credentials.
pub open spec fn dump_plan_of(engine: Engine, database: Seq<char>, env: Seq<Seq<char>>) -> Result<
    ExecPlanView,
    DbErrorView,
> {
    if !usable_database(database) {
        Err(DbErrorView::InvalidDatabase(database))
    } else {
        match credentials_in(engine, env) {
            Ok((user, password)) => Ok(dump_with(engine, database, user, password)),
            Err(error) => Err(error),
        }
    }
}

/// What `restore_plan` gives: the name is judged before the credentials.
pub open spec fn restore_plan_of(
    engine: Engine,
    database: Seq<char>,
    file: Seq<char>,
    env: Seq<Seq<char>>,
) -> Result<ExecPlanView, DbErrorView> {
    if !usable_database(database) {
        Err(DbErrorView::InvalidDatabase(database))
    } else {
        match credentials_in(engine, env) {
            Ok((user, password)) => Ok(restore_with(engine, database, file, user, password)),
            Err(error) => Err(error),
        }
    }
}

/// Reads one variable from a container's environment.
pub fn value_of(env: &[String], key: &str) -> (value: Option<String>)
    ensures
        match value {
            Some(text) => value_in(views(env@), key@) == Some(text@),
            None => value_in(views(env@), key@) is None,
        },
{
    let key_chars = chars_of(key);
    let mut i: usize = 0;
    assert(views(env@).skip(0) == views(env@));
    while i < env.len()
        invariant
            i <= env@.len(),
            key_chars@ == key@,
            value_in(views(env@), key@) == value_in(views(env@).skip(i as int), key@),
        decreases env@.len() - i,
    {
        let entry = chars_of(env[i].as_str());
        let at: usize = find_char(entry.as_slice(), '=');
        assert(views(env@).skip(i as int)[0] == env@[i as int]@);
        assert(views(env@).skip(i as int).skip(1) == views(env@).skip(i + 1));
        if at < entry.len() && same_chars(
            slice_subrange(entry.as_slice(), 0, at),
            key_chars.as_slice(),
        ) {
            return Some(string_of(slice_subrange(entry.as_slice(), at + 1, entry.len())));
        }
        i = i + 1;
    }
    None
}

/// The name becomes an argument to a command running as root inside the
/// container, so anything that could be read as another argument is refused
/// rather than escaped.
pub fn validated_database(database: &str) -> (name: Result<String, DbError>)
    ensures
        match name {
            Ok(text) => usable_database(database@) && text@ == database@,
            Err(error) => !usable_database(database@) && error@ == DbErrorView::InvalidDatabase(
                database@,
            ),
        },
{
    let chars = chars_of(database);
    if chars.len() == 0 || chars[0] == '-' {
        return Err(DbError::InvalidDatabase(database.to_owned()));
    }
    let mut i: usize = 0;
    while i < chars.len()
        invariant
            i <= chars@.len(),
            chars@ == database@,
            forall|j: int|
                0 <= j < i ==> is_letter(#[trigger] chars@[j]) || is_digit(chars@[j]) || chars@[j]
                    == '_' || chars@[j] == '-',
        decreases chars@.len() - i,
    {
        let c = chars[i];
        if !(char_is_letter(c) || char_is_digit(c) || c == '_' || c == '-') {
            return Err(DbError::InvalidDatabase(database.to_owned()));
        }
        i = i + 1;
    }
    Ok(database.to_owned())
}

/// The text made of a fixed beginning and a value.
fn prefixed(beginning: &str, value: &str) -> (text: String)
    ensures
        text@ == beginning@ + value@,
{
    let mut text = beginning.to_owned();
    text.append(value);
    text
}

/// The user (empty for MySQL) and the password that an engine's commands need.
fn credentials(engine: Engine, env: &[String]) -> (found: Result<(String, String), DbError>)
    ensures
        match found {
            Ok((user, password)) => credentials_in(engine, views(env@)) == Ok::<
                (Seq<char>, Seq<char>),
                DbErrorView,
            >((user@, password@)),
            Err(error) => credentials_in(engine, views(env@)) == Err::<
                (Seq<char>, Seq<char>),
                DbErrorView,
            >(error@),
        },
{
    let container = engine.label();
    let (user_key, password_key): (Option<&'static str>, &'static str) = match engine {
        Engine::MySql => (None, "MYSQL_ROOT_PASSWORD"),
        Engine::Postgres => (Some("POSTGRES_USER"), "POSTGRES_PASSWORD"),
        Engine::Mongo => (Some("MONGO_INITDB_ROOT_USERNAME"), "MONGO_INITDB_ROOT_PASSWORD"),
    };
    let user = match user_key {
        Some(variable) => match value_of(env, variable) {
            Some(user) => user,
            None => {
                return Err(DbError::MissingCredential { container, variable });
            },
        },
        None => String::new(),
    };
    match value_of(env, password_key) {
        Some(password) => Ok((user, password)),
        None => Err(DbError::MissingCredential { container, variable: password_key }),
    }
}

/// Builds the dump command for one database.
pub fn dump_plan(engine: Engine, database: &str, container_env: &[String]) -> (plan: Result<
    ExecPlan,
    DbError,
>)
    ensures
        match plan {
            Ok(plan) => dump_plan_of(engine, database@, views(container_env@)) == Ok::<
                ExecPlanView,
                DbErrorView,
            >(plan@),
            Err(error) => dump_plan_of(engine, database@, views(container_env@)) == Err::<
                ExecPlanView,
                DbErrorView,
            >(error@),
        },
{
    let database = match validated_database(database) {
        Ok(name) => name,
        Err(error) => {
            return Err(error);
        },
    };
    let (user, password) = match credentials(engine, container_env) {
        Ok(found) => found,
        Err(error) => {
            return Err(error);
        },
    };
    let plan = match engine {
        Engine::MySql => ExecPlan {
            command: vec![
                "mysqldump".to_owned(),
                "--user=root".to_owned(),
                "--single-transaction".to_owned(),
                "--routines".to_owned(),
                "--triggers".to_owned(),
                // Without this the dump carries this server's GTID state and
                // refuses to load into any other one.
                "--set-gtid-purged=OFF".to_owned(),
                database,
            ],
            // mysqldump reads MYSQL_PWD from the environment, so the password
            // never reaches the command line where every other process in the
            // container could read it.
            env: vec![prefixed("MYSQL_PWD=", password.as_str())],
        },
        Engine::Postgres => ExecPlan {
            command: vec![
                "pg_dump".to_owned(),
                prefixed("--username=", user.as_str()),
                // Ownership and grants belong to the machine that made the
                // dump, not to whoever restores it.
                "--no-owner".to_owned(),
                "--no-privileges".to_owned(),
                database,
            ],
            env: vec![prefixed("PGPASSWORD=", password.as_str())],
        },
        Engine::Mongo => ExecPlan {
            command: vec![
                "mongodump".to_owned(),
                "--archive".to_owned(),
                prefixed("--db=", database.as_str()),
                prefixed("--username=", user.as_str()),
                // mongodump offers no way to take a password from the
                // environment, so unlike the other two engines it is visible in
                // this container's process list while running.
                prefixed("--password=", password.as_str()),
                "--authenticationDatabase=admin".to_owned(),
            ],
            env: Vec::new(),
        },
    };
    assert(plan@.command =~= dump_with(engine, database@, user@, password@).command);
    assert(plan@.env =~= dump_with(engine, database@, user@, password@).env);
    Ok(plan)
}

/// What dumps every database of a service, given the credentials.
pub open spec fn dump_all_with(engine: Engine, user: Seq<char>, password: Seq<char>) -> ExecPlanView {
    match engine {
        Engine::MySql => ExecPlanView {
            command: seq![
                "mysqldump"@,
                "--user=root"@,
                "--single-transaction"@,
                "--routines"@,
                "--triggers"@,
                "--set-gtid-purged=OFF"@,
                "--all-databases"@,
            ],
            env: seq!["MYSQL_PWD="@ + password],
        },
        Engine::Postgres => ExecPlanView {
            command: seq!["pg_dumpall"@, "--username="@ + user],
            env: seq!["PGPASSWORD="@ + password],
        },
        Engine::Mongo => ExecPlanView {
            command: seq![
                "mongodump"@,
                "--archive"@,
                "--username="@ + user,
                "--password="@ + password,
                "--authenticationDatabase=admin"@,
            ],
            env: seq![],
        },
    }
}

/// Builds the command that dumps every database of a service.
pub fn dump_all_plan(engine: Engine, container_env: &[String]) -> (plan: Result<ExecPlan, DbError>)
    ensures
        match plan {
            Ok(plan) => credentials_in(engine, views(container_env@)) matches Ok((user, password))
                && plan@ == dump_all_with(engine, user, password),
            Err(error) => credentials_in(engine, views(container_env@)) == Err::<
                (Seq<char>, Seq<char>),
                DbErrorView,
            >(error@),
        },
{
    let (user, password) = match credentials(engine, container_env) {
        Ok(found) => found,
        Err(error) => {
            return Err(error);
        },
    };
    let plan = match engine {
        Engine::MySql => ExecPlan {
            command: vec![
                "mysqldump".to_owned(),
                "--user=root".to_owned(),
                "--single-transaction".to_owned(),
                "--routines".to_owned(),
                "--triggers".to_owned(),
                "--set-gtid-purged=OFF".to_owned(),
                "--all-databases".to_owned(),
            ],
            env: vec![prefixed("MYSQL_PWD=", password.as_str())],
        },
        Engine::Postgres => ExecPlan {
            command: vec!["pg_dumpall".to_owned(), prefixed("--username=", user.as_str())],
            env: vec![prefixed("PGPASSWORD=", password.as_str())],
        },
        Engine::Mongo => ExecPlan {
            command: vec![
                "mongodump".to_owned(),
                "--archive".to_owned(),
                prefixed("--username=", user.as_str()),
                prefixed("--password=", password.as_str()),
                "--authenticationDatabase=admin".to_owned(),
            ],
            env: Vec::new(),
        },
    };
    assert(plan@.command =~= dump_all_with(engine, user@, password@).command);
    assert(plan@.env =~= dump_all_with(engine, user@, password@).env);
    Ok(plan)
}

/// The environment with a configured account in front of what the container
/// publishes, so that the account wins. A password is the one configured, else
/// the value of the variable named for it; MySQL has no user to choose.
pub open spec fn env_with_account(
    engine: Engine,
    env: Seq<Seq<char>>,
    user: Option<Seq<char>>,
    password: Option<Seq<char>>,
    password_env: Option<Seq<char>>,
) -> Seq<Seq<char>> {
    let known = match password {
        Some(password) => Some(password),
        None => match password_env {
            Some(variable) => value_in(env, variable),
            None => None,
        },
    };
    let users = match (user_variable(engine), user) {
        (Some(variable), Some(user)) => seq![variable + "="@ + user],
        _ => seq![],
    };
    let passwords = match known {
        Some(password) => seq![password_variable(engine) + "="@ + password],
        None => seq![],
    };
    users + passwords + env
}

/// Puts a configured account in front of a container's environment.
pub fn account_env(
    engine: Engine,
    env: &[String],
    user: &Option<String>,
    password: &Option<String>,
    password_env: &Option<String>,
) -> (merged: Vec<String>)
    ensures
        views(merged@) == env_with_account(
            engine,
            views(env@),
            maybe_text(*user),
            maybe_text(*password),
            maybe_text(*password_env),
        ),
{
    broadcast use lemma_views_push;

    let mut merged: Vec<String> = Vec::new();
    assert(views(merged@) =~= seq![]);
    if let Some(user) = user {
        match engine {
            Engine::MySql => {},
            Engine::Postgres => {
                merged.push(prefixed("POSTGRES_USER=", user.as_str()));
                proof {
                    reveal_strlit("POSTGRES_USER=");
                    reveal_strlit("POSTGRES_USER");
                    reveal_strlit("=");
                }
                assert(views(merged@)[0] =~= "POSTGRES_USER"@ + "="@ + user@);
            },
            Engine::Mongo => {
                merged.push(prefixed("MONGO_INITDB_ROOT_USERNAME=", user.as_str()));
                proof {
                    reveal_strlit("MONGO_INITDB_ROOT_USERNAME=");
                    reveal_strlit("MONGO_INITDB_ROOT_USERNAME");
                    reveal_strlit("=");
                }
                assert(views(merged@)[0] =~= "MONGO_INITDB_ROOT_USERNAME"@ + "="@ + user@);
            },
        }
    }
    let ghost users = views(merged@);
    let known = match password {
        Some(password) => Some(password.clone()),
        None => match password_env {
            Some(variable) => value_of(env, variable.as_str()),
            None => None,
        },
    };
    if let Some(password) = known {
        let mut entry = match engine {
            Engine::MySql => "MYSQL_ROOT_PASSWORD",
            Engine::Postgres => "POSTGRES_PASSWORD",
            Engine::Mongo => "MONGO_INITDB_ROOT_PASSWORD",
        }.to_owned();
        entry.append("=");
        entry.append(password.as_str());
        merged.push(entry);
    }
    let mut copy = copy_texts(env);
    let ghost front = merged@;
    let ghost behind = copy@;
    merged.append(&mut copy);
    assert(views(merged@) =~= views(front) + views(behind));
    assert(views(merged@) =~= env_with_account(
        engine,
        views(env@),
        maybe_text(*user),
        maybe_text(*password),
        maybe_text(*password_env),
    ));
    merged
}

/// Builds the restore command for one database.
///
/// The database name and the file path travel as their own arguments to `sh`,
/// never spliced into the script text, so neither can be read as part of the
/// command however it is spelled.
pub fn restore_plan(
    engine: Engine,
    database: &str,
    file: &str,
    container_env: &[String],
) -> (plan: Result<ExecPlan, DbError>)
    ensures
        match plan {
            Ok(plan) => restore_plan_of(engine, database@, file@, views(container_env@)) == Ok::<
                ExecPlanView,
                DbErrorView,
            >(plan@),
            Err(error) => restore_plan_of(engine, database@, file@, views(container_env@)) == Err::<
                ExecPlanView,
                DbErrorView,
            >(error@),
        },
{
    let database = match validated_database(database) {
        Ok(name) => name,
        Err(error) => {
            return Err(error);
        },
    };
    let (user, password) = match credentials(engine, container_env) {
        Ok(found) => found,
        Err(error) => {
            return Err(error);
        },
    };
    // "sh" fills $0; the real arguments start at $1.
    let mut command: Vec<String> = vec!["sh".to_owned(), "-c".to_owned()];
    let mut env: Vec<String> = Vec::new();
    let ghost expected = restore_with(engine, database@, file@, user@, password@);
    match engine {
        Engine::MySql => {
            command.push("mysql --user=root \"$1\" < \"$2\"".to_owned());
            command.push("sh".to_owned());
            command.push(database);
            env.push(prefixed("MYSQL_PWD=", password.as_str()));
        },
        Engine::Postgres => {
            command.push(
                "psql --username=\"$1\" --dbname=\"$2\" --file=\"$3\" --set ON_ERROR_STOP=1".to_owned(),
            );
            command.push("sh".to_owned());
            command.push(user);
            command.push(database);
            env.push(prefixed("PGPASSWORD=", password.as_str()));
        },
        Engine::Mongo => {
            command.push(
                "mongorestore --username=\"$1\" --password=\"$2\" --authenticationDatabase=admin --db=\"$3\" --archive=\"$4\"".to_owned(),
            );
            command.push("sh".to_owned());
            command.push(user);
            command.push(password);
            command.push(database);
        },
    }
    command.push(file.to_owned());
    assert(views(command@) =~= expected.command);
    assert(views(env@) =~= expected.env);
    Ok(ExecPlan { command, env })
}

/// A password never reaches the command line of an engine that can take it from
/// the environment: whatever it is, the command is the same.
pub proof fn law_password_stays_out_of_the_command(
    engine: Engine,
    database: Seq<char>,
    file: Seq<char>,
    user: Seq<char>,
    one: Seq<char>,
    other: Seq<char>,
)
    requires
        engine != Engine::Mongo,
    ensures
        dump_with(engine, database, user, one).command == dump_with(
            engine,
            database,
            user,
            other,
        ).command,
        restore_with(engine, database, file, user, one).command == restore_with(
            engine,
            database,
            file,
            user,
            other,
        ).command,
        dump_all_with(engine, user, one).command == dump_all_with(engine, user, other).command,
{
}

/// A restore refuses exactly the inputs a dump refuses, for the same reason.
pub proof fn law_restore_refuses_what_dump_refuses(
    engine: Engine,
    database: Seq<char>,
    file: Seq<char>,
    env: Seq<Seq<char>>,
)
    ensures
        match dump_plan_of(engine, database, env) {
            Ok(_) => restore_plan_of(engine, database, file, env) is Ok,
            Err(error) => restore_plan_of(engine, database, file, env) == Err::<
                ExecPlanView,
                DbErrorView,
            >(error),
        },
{
}

/// What a restore runs as a script is fixed by the engine alone: the database,
/// the file and the credentials can only be arguments behind it.
pub proof fn law_restore_script_is_fixed(
    engine: Engine,
    database: Seq<char>,
    file: Seq<char>,
    env: Seq<Seq<char>>,
)
    ensures
        restore_plan_of(engine, database, file, env) matches Ok(plan) ==> {
            &&& plan.command.len() > 5
            &&& plan.command.take(4) == seq!["sh"@, "-c"@, restore_script(engine), "sh"@]
            &&& plan.command[plan.command.len() - 2] == database
            &&& plan.command.last() == file
        },
{
    if let Ok(plan) = restore_plan_of(engine, database, file, env) {
        assert(plan.command.take(4) =~= seq!["sh"@, "-c"@, restore_script(engine), "sh"@]);
    }
}

/// An environment value survives intact, equals signs and all.
pub proof fn law_value_survives_intact(env: Seq<Seq<char>>, key: Seq<char>, value: Seq<char>)
    requires
        forall|i: int| 0 <= i < key.len() ==> key[i] != '=',
    ensures
        value_in(seq![key + seq!['='] + value] + env, key) == Some(value),
{
    let entry = key + seq!['='] + value;
    let list = seq![entry] + env;
    assert(list[0] == entry);
    lemma_index_of_is(entry, '=', key.len() as int);
    assert(entry.take(key.len() as int) =~= key);
    assert(entry.skip(key.len() as int + 1) =~= value);
}

/// A configured account wins over what the container publishes: the dump runs
/// as the configured user, where the engine has one to choose, and with the
/// configured password.
pub proof fn law_a_configured_account_wins(
    engine: Engine,
    env: Seq<Seq<char>>,
    user: Seq<char>,
    password: Seq<char>,
    password_env: Option<Seq<char>>,
)
    ensures
        credentials_in(
            engine,
            env_with_account(engine, env, Some(user), Some(password), password_env),
        ) == Ok::<(Seq<char>, Seq<char>), DbErrorView>(
            (
                if user_variable(engine) is Some {
                    user
                } else {
                    Seq::empty()
                },
                password,
            ),
        ),
{
    let merged = env_with_account(engine, env, Some(user), Some(password), password_env);
    let word = password_variable(engine);
    lemma_variables_are_names(engine);
    match user_variable(engine) {
        Some(variable) => {
            lemma_first_entry(merged, variable, user);
            lemma_other_entry(merged, variable, user, word);
            assert(merged.skip(1)[0] == merged[1]);
            lemma_first_entry(merged.skip(1), word, password);
        },
        None => {
            lemma_first_entry(merged, word, password);
        },
    }
}

/// The bytes that gzip-compressed bytes stand for, or why they stand for none:
/// what `flate2::read::GzDecoder` reads to its end.
pub uninterp spec fn gunzipped(bytes: Seq<u8>) -> Result<Seq<u8>, Seq<char>>;

/// `flate2::read::GzDecoder`, read to its end: the first gzip member of the
/// bytes as it was before it was compressed, or the error's own words, both
/// decided by the bytes alone.
#[verifier::external_body]
fn gunzip(bytes: &[u8]) -> (plain: Result<Vec<u8>, String>)
    ensures
        match plain {
            Ok(plain) => gunzipped(bytes@) == Ok::<Seq<u8>, Seq<char>>(plain@),
            Err(reason) => gunzipped(bytes@) == Err::<Seq<u8>, Seq<char>>(reason@),
        },
{
    let mut plain = Vec::new();
    let mut decoder = flate2::read::GzDecoder::new(bytes);
    std::io::Read::read_to_end(&mut decoder, &mut plain).map(|_| plain).map_err(
        |error| error.to_string(),
    )
}

/// Whether a dump is compressed, which its first two bytes say whatever the file
/// is called.
pub open spec fn begins_compressed(bytes: Seq<u8>) -> bool {
    bytes.len() >= 2 && bytes[0] == 0x1f && bytes[1] == 0x8b
}

/// A dump as it was before it was compressed, where it was.
pub open spec fn decoded(bytes: Seq<u8>) -> Result<Seq<u8>, Seq<char>> {
    if begins_compressed(bytes) {
        gunzipped(bytes)
    } else {
        Ok(bytes)
    }
}

/// The dump that the bytes of a file hold.
pub fn decode_dump(bytes: Vec<u8>) -> (dump: Result<Vec<u8>, String>)
    ensures
        match dump {
            Ok(dump) => decoded(bytes@) == Ok::<Seq<u8>, Seq<char>>(dump@),
            Err(reason) => decoded(bytes@) == Err::<Seq<u8>, Seq<char>>(reason@),
        },
{
    if bytes.len() >= 2 && bytes[0] == 0x1f && bytes[1] == 0x8b {
        gunzip(bytes.as_slice())
    } else {
        Ok(bytes)
    }
}

/// A dump that is not compressed is loaded byte for byte, whatever its file is
/// called.
pub proof fn law_a_plain_dump_is_kept(bytes: Seq<u8>)
    requires
        !begins_compressed(bytes),
    ensures
        decoded(bytes) == Ok::<Seq<u8>, Seq<char>>(bytes),
{
}

/// No name of a credential holds an equals sign, and the two of an engine
/// differ.
proof fn lemma_variables_are_names(engine: Engine)
    ensures
        forall|i: int|
            0 <= i < password_variable(engine).len() ==> #[trigger] password_variable(engine)[i]
                != '=',
        user_variable(engine) matches Some(variable) ==> variable != password_variable(engine) && (
        forall|i: int| 0 <= i < variable.len() ==> #[trigger] variable[i] != '='),
{
    reveal_strlit("MYSQL_ROOT_PASSWORD");
    reveal_strlit("POSTGRES_PASSWORD");
    reveal_strlit("MONGO_INITDB_ROOT_PASSWORD");
    reveal_strlit("POSTGRES_USER");
    reveal_strlit("MONGO_INITDB_ROOT_USERNAME");
    assert("POSTGRES_USER"@.len() != "POSTGRES_PASSWORD"@.len());
    assert("MONGO_INITDB_ROOT_USERNAME"@[18] != "MONGO_INITDB_ROOT_PASSWORD"@[18]);
}

/// The first entry answers for its own name.
proof fn lemma_first_entry(env: Seq<Seq<char>>, name: Seq<char>, value: Seq<char>)
    requires
        env.len() > 0,
        env[0] == name + "="@ + value,
        forall|i: int| 0 <= i < name.len() ==> #[trigger] name[i] != '=',
    ensures
        value_in(env, name) == Some(value),
{
    reveal_strlit("=");
    lemma_index_of_is(env[0], '=', name.len() as int);
    assert(env[0].take(name.len() as int) =~= name);
    assert(env[0].skip(name.len() as int + 1) =~= value);
}

/// The first entry says nothing of another name.
proof fn lemma_other_entry(env: Seq<Seq<char>>, name: Seq<char>, value: Seq<char>, other: Seq<char>)
    requires
        env.len() > 0,
        env[0] == name + "="@ + value,
        forall|i: int| 0 <= i < name.len() ==> #[trigger] name[i] != '=',
        other != name,
    ensures
        value_in(env, other) == value_in(env.skip(1), other),
{
    reveal_strlit("=");
    lemma_index_of_is(env[0], '=', name.len() as int);
    assert(env[0].take(name.len() as int) =~= name);
}

/// What a shell makes of a script: each `"$k"` in it is the k-th argument behind
/// the name the script runs under.
pub open spec fn expanded(script: Seq<char>, arguments: Seq<Seq<char>>) -> Seq<char>
    decreases script.len(),
{
    if script.len() == 0 {
        seq![]
    } else if script.len() >= 4 && script[0] == '"' && script[1] == '$' && '1' <= script[2]
        && script[2] <= '9' && script[3] == '"' {
        arguments[script[2] as int - '1' as int] + expanded(script.skip(4), arguments)
    } else {
        seq![script[0]] + expanded(script.skip(1), arguments)
    }
}

proof fn lemma_plain_script(front: Seq<char>, rest: Seq<char>, arguments: Seq<Seq<char>>)
    requires
        forall|i: int| 0 <= i < front.len() ==> front[i] != '"',
    ensures
        expanded(front + rest, arguments) == front + expanded(rest, arguments),
    decreases front.len(),
{
    let whole = front + rest;
    if front.len() == 0 {
        assert(whole =~= rest);
        assert(front + expanded(rest, arguments) =~= expanded(rest, arguments));
    } else {
        assert(whole[0] == front[0]);
        assert(whole.skip(1) =~= front.skip(1) + rest);
        lemma_plain_script(front.skip(1), rest, arguments);
        assert(front =~= seq![front[0]] + front.skip(1));
        assert(expanded(whole, arguments) =~= front + expanded(rest, arguments));
    }
}

proof fn lemma_argument_in_script(k: char, rest: Seq<char>, arguments: Seq<Seq<char>>)
    requires
        '1' <= k && k <= '9',
    ensures
        expanded(seq!['"', '$', k, '"'] + rest, arguments) == arguments[k as int - '1' as int]
            + expanded(rest, arguments),
{
    let whole = seq!['"', '$', k, '"'] + rest;
    assert(whole[0] == '"' && whole[1] == '$' && whole[2] == k && whole[3] == '"');
    assert(whole.skip(4) =~= rest);
}

/// Restoring a MySQL database feeds the file to a client on the database that
/// was named, as root, with the password in the environment.
#[verifier::rlimit(40)]
pub proof fn law_a_mysql_restore_feeds_the_file(
    database: Seq<char>,
    file: Seq<char>,
    env: Seq<Seq<char>>,
    password: Seq<char>,
)
    requires
        usable_database(database),
        value_in(env, "MYSQL_ROOT_PASSWORD"@) == Some(password),
    ensures
        restore_plan_of(Engine::MySql, database, file, env) matches Ok(plan) && plan.command.len()
            == 6 && plan.command[0] == "sh"@ && plan.command[1] == "-c"@ && expanded(
            plan.command[2],
            plan.command.skip(4),
        ) == "mysql --user=root "@ + database + " < "@ + file && plan.env == seq![
            "MYSQL_PWD="@ + password,
        ],
{
    reveal_strlit("mysql --user=root \"$1\" < \"$2\"");
    reveal_strlit("mysql --user=root ");
    reveal_strlit(" < ");
    let script = "mysql --user=root \"$1\" < \"$2\""@;
    let plan = restore_plan_of(Engine::MySql, database, file, env)->Ok_0;
    let arguments = plan.command.skip(4);
    assert(arguments =~= seq![database, file]);
    let none = Seq::<char>::empty();
    let second = seq!['"', '$', '2', '"'] + none;
    let behind = " < "@ + second;
    let first = seq!['"', '$', '1', '"'] + behind;
    assert(script =~= "mysql --user=root "@ + first);
    lemma_plain_script("mysql --user=root "@, first, arguments);
    lemma_argument_in_script('1', behind, arguments);
    lemma_plain_script(" < "@, second, arguments);
    lemma_argument_in_script('2', none, arguments);
    assert(expanded(none, arguments) =~= none);
    assert(expanded(script, arguments) =~= "mysql --user=root "@ + database + " < "@ + file);
}

/// Restoring a PostgreSQL database connects the user that the container
/// publishes to the database that was named, reads the file, and stops at the
/// first error; the password is in the environment.
#[verifier::rlimit(40)]
pub proof fn law_a_postgres_restore_connects_the_user_to_the_database(
    database: Seq<char>,
    file: Seq<char>,
    env: Seq<Seq<char>>,
    user: Seq<char>,
    password: Seq<char>,
)
    requires
        usable_database(database),
        value_in(env, "POSTGRES_USER"@) == Some(user),
        value_in(env, "POSTGRES_PASSWORD"@) == Some(password),
    ensures
        restore_plan_of(Engine::Postgres, database, file, env) matches Ok(plan)
            && plan.command.len() == 7 && plan.command[0] == "sh"@ && plan.command[1] == "-c"@
            && expanded(plan.command[2], plan.command.skip(4)) == "psql --username="@ + user
            + " --dbname="@ + database + " --file="@ + file + " --set ON_ERROR_STOP=1"@ && plan.env
            == seq!["PGPASSWORD="@ + password],
{
    let script = restore_script(Engine::Postgres);
    reveal_strlit(
        "psql --username=\"$1\" --dbname=\"$2\" --file=\"$3\" --set ON_ERROR_STOP=1",
    );
    reveal_strlit("psql --username=");
    reveal_strlit(" --dbname=");
    reveal_strlit(" --file=");
    reveal_strlit(" --set ON_ERROR_STOP=1");
    let plan = restore_plan_of(Engine::Postgres, database, file, env)->Ok_0;
    let arguments = plan.command.skip(4);
    assert(arguments =~= seq![user, database, file]);
    let none = Seq::<char>::empty();
    let end = " --set ON_ERROR_STOP=1"@ + none;
    let third = seq!['"', '$', '3', '"'] + end;
    let after = " --file="@ + third;
    let second = seq!['"', '$', '2', '"'] + after;
    let behind = " --dbname="@ + second;
    let first = seq!['"', '$', '1', '"'] + behind;
    assert(script =~= "psql --username="@ + first);
    lemma_plain_script("psql --username="@, first, arguments);
    lemma_argument_in_script('1', behind, arguments);
    lemma_plain_script(" --dbname="@, second, arguments);
    lemma_argument_in_script('2', after, arguments);
    lemma_plain_script(" --file="@, third, arguments);
    lemma_argument_in_script('3', end, arguments);
    lemma_plain_script(" --set ON_ERROR_STOP=1"@, none, arguments);
    assert(expanded(none, arguments) =~= none);
    assert(expanded(script, arguments) =~= "psql --username="@ + user + " --dbname="@ + database
        + " --file="@ + file + " --set ON_ERROR_STOP=1"@);
}

/// Restoring a MongoDB database names the user, the password, the database and
/// the archive each where it belongs.
#[verifier::rlimit(40)]
pub proof fn law_a_mongo_restore_names_each_part(
    database: Seq<char>,
    file: Seq<char>,
    env: Seq<Seq<char>>,
    user: Seq<char>,
    password: Seq<char>,
)
    requires
        usable_database(database),
        value_in(env, "MONGO_INITDB_ROOT_USERNAME"@) == Some(user),
        value_in(env, "MONGO_INITDB_ROOT_PASSWORD"@) == Some(password),
    ensures
        restore_plan_of(Engine::Mongo, database, file, env) matches Ok(plan) && plan.command.len()
            == 8 && plan.command[0] == "sh"@ && plan.command[1] == "-c"@ && expanded(
            plan.command[2],
            plan.command.skip(4),
        ) == "mongorestore --username="@ + user + " --password="@ + password
            + " --authenticationDatabase=admin --db="@ + database + " --archive="@ + file
            && plan.env.len() == 0,
{
    let script = restore_script(Engine::Mongo);
    reveal_strlit(
        "mongorestore --username=\"$1\" --password=\"$2\" --authenticationDatabase=admin --db=\"$3\" --archive=\"$4\"",
    );
    reveal_strlit("mongorestore --username=");
    reveal_strlit(" --password=");
    reveal_strlit(" --authenticationDatabase=admin --db=");
    reveal_strlit(" --archive=");
    let plan = restore_plan_of(Engine::Mongo, database, file, env)->Ok_0;
    let arguments = plan.command.skip(4);
    assert(arguments =~= seq![user, password, database, file]);
    let none = Seq::<char>::empty();
    let fourth = seq!['"', '$', '4', '"'] + none;
    let last = " --archive="@ + fourth;
    let third = seq!['"', '$', '3', '"'] + last;
    let after = " --authenticationDatabase=admin --db="@ + third;
    let second = seq!['"', '$', '2', '"'] + after;
    let behind = " --password="@ + second;
    let first = seq!['"', '$', '1', '"'] + behind;
    assert(script =~= "mongorestore --username="@ + first);
    lemma_plain_script("mongorestore --username="@, first, arguments);
    lemma_argument_in_script('1', behind, arguments);
    lemma_plain_script(" --password="@, second, arguments);
    lemma_argument_in_script('2', after, arguments);
    lemma_plain_script(" --authenticationDatabase=admin --db="@, third, arguments);
    lemma_argument_in_script('3', last, arguments);
    lemma_plain_script(" --archive="@, fourth, arguments);
    lemma_argument_in_script('4', none, arguments);
    assert(expanded(none, arguments) =~= none);
    assert(expanded(script, arguments) =~= "mongorestore --username="@ + user + " --password="@
        + password + " --authenticationDatabase=admin --db="@ + database + " --archive="@ + file);
}

/// An image is known by its own name, whatever registry stands before it and
/// whatever tag behind it.
#[verifier::rlimit(40)]
pub proof fn law_the_engine_is_the_image_s_own_name(
    registry: Seq<char>,
    name: Seq<char>,
    tag: Seq<char>,
)
    requires
        forall|i: int| 0 <= i < name.len() ==> name[i] != '/' && name[i] != ':',
        forall|i: int| 0 <= i < tag.len() ==> tag[i] != '/',
    ensures
        image_name(name) == name,
        image_name(name + ":"@ + tag) == name,
        image_name(registry + "/"@ + name) == name,
        image_name(registry + "/"@ + name + ":"@ + tag) == name,
{
    reveal_strlit("/");
    reveal_strlit(":");
    let plain = name;
    let tagged = name + ":"@ + tag;
    assert forall|i: int| 0 <= i < tagged.len() implies tagged[i] != '/' by {
        if i < name.len() {
            assert(tagged[i] == name[i]);
        } else if i > name.len() {
            assert(tagged[i] == tag[i - name.len() - 1]);
        }
    }
    assert(tagged[name.len() as int] == ':');
    lemma_last_index_of_is(plain, '/', -1);
    lemma_last_index_of_is(tagged, '/', -1);
    assert(plain.skip(0) =~= plain && tagged.skip(0) =~= tagged);
    lemma_index_of_is(plain, ':', plain.len() as int);
    assert forall|i: int| 0 <= i < name.len() implies tagged[i] != ':' by {
        assert(tagged[i] == name[i]);
    }
    lemma_index_of_is(tagged, ':', name.len() as int);
    assert(plain.take(plain.len() as int) =~= name);
    assert(tagged.take(name.len() as int) =~= name);
    let n = registry.len() as int;
    let far = registry + "/"@ + plain;
    assert forall|i: int| n < i < far.len() implies far[i] != '/' by {
        assert(far[i] == plain[i - n - 1]);
    }
    assert(far[n] == '/');
    lemma_last_index_of_is(far, '/', n);
    assert(far.skip(n + 1) =~= plain);
    let both = registry + "/"@ + tagged;
    assert(both =~= registry + "/"@ + name + ":"@ + tag);
    assert forall|i: int| n < i < both.len() implies both[i] != '/' by {
        assert(both[i] == tagged[i - n - 1]);
    }
    assert(both[n] == '/');
    lemma_last_index_of_is(both, '/', n);
    assert(both.skip(n + 1) =~= tagged);
}

/// The images of each engine, and no others.
pub proof fn law_an_image_is_a_database_by_its_name(name: Seq<char>)
    ensures
        engine_named(name) == Some(Engine::MySql) <==> name == "mysql"@ || name == "mariadb"@ || name
            == "percona"@,
        engine_named(name) == Some(Engine::Postgres) <==> name == "postgres"@ || name == "postgis"@,
        engine_named(name) == Some(Engine::Mongo) <==> name == "mongo"@,
{
    reveal_strlit("mysql");
    reveal_strlit("mariadb");
    reveal_strlit("percona");
    reveal_strlit("postgres");
    reveal_strlit("postgis");
    reveal_strlit("mongo");
    assert("mysql"@[1] == 'y' && "mongo"@[1] == 'o');
    assert("mariadb"@[0] == 'm' && "percona"@[1] == 'e' && "postgis"@[1] == 'o' && "postgis"@[0]
        == 'p');
    assert("mongo"@.len() == 5 && "mariadb"@.len() == 7 && "percona"@.len() == 7);
    assert("postgres"@.len() == 8 && "postgis"@.len() == 7);
}

/// A variable's value is what the first entry of its name holds behind the equals
/// sign; without such an entry it has none.
#[verifier::rlimit(40)]
pub proof fn law_a_value_is_the_first_of_its_name(env: Seq<Seq<char>>, key: Seq<char>)
    requires
        forall|i: int| 0 <= i < key.len() ==> key[i] != '=',
    ensures
        match value_in(env, key) {
            Some(value) => exists|i: int|
                0 <= i < env.len() && #[trigger] env[i] == key + seq!['='] + value && forall|
                    j: int,
                    other: Seq<char>,
                |
                    0 <= j < i ==> #[trigger] env[j] != #[trigger] (key + seq!['='] + other),
            None => forall|i: int, value: Seq<char>|
                0 <= i < env.len() ==> #[trigger] env[i] != #[trigger] (key + seq!['='] + value),
        },
    decreases env.len(),
{
    if env.len() > 0 {
        let entry = env[0];
        let at = index_of(entry, '=');
        lemma_index_of(entry, '=');
        if at < entry.len() && entry.take(at) == key {
            assert(entry =~= key + seq!['='] + entry.skip(at + 1));
            assert(env[0] == key + seq!['='] + entry.skip(at + 1));
        } else {
            assert forall|value: Seq<char>| entry != #[trigger] (key + seq!['='] + value) by {
                let built = key + seq!['='] + value;
                if entry == built {
                    assert(built[key.len() as int] == '=');
                    lemma_index_of_is(built, '=', key.len() as int);
                    assert(built.take(key.len() as int) =~= key);
                }
            }
            let rest = env.skip(1);
            law_a_value_is_the_first_of_its_name(rest, key);
            match value_in(rest, key) {
                Some(value) => {
                    let i = choose|i: int|
                        0 <= i < rest.len() && #[trigger] rest[i] == key + seq!['='] + value
                            && forall|j: int, other: Seq<char>|
                            0 <= j < i ==> #[trigger] rest[j] != #[trigger] (key + seq!['=']
                                + other);
                    assert(env[i + 1] == key + seq!['='] + value);
                    assert forall|j: int, other: Seq<char>| 0 <= j < i + 1 implies #[trigger] env[j]
                        != #[trigger] (key + seq!['='] + other) by {
                        if j > 0 {
                            assert(env[j] == rest[j - 1]);
                        }
                    }
                },
                None => {
                    assert forall|i: int, value: Seq<char>|
                        0 <= i < env.len() implies #[trigger] env[i] != #[trigger] (key + seq!['=']
                        + value) by {
                        if i > 0 {
                            assert(env[i] == rest[i - 1]);
                        }
                    }
                },
            }
        }
    }
}

/// A database may be called by letters, digits, underscores and dashes alone,
/// and not with a dash in front; every such name is accepted.
pub proof fn law_a_usable_name_is_one_plain_argument(name: Seq<char>)
    ensures
        usable_database(name) <==> name.len() > 0 && name[0] != '-' && forall|i: int|
            0 <= i < name.len() ==> ('a' <= #[trigger] name[i] && name[i] <= 'z') || ('A' <= name[i]
                && name[i] <= 'Z') || ('0' <= name[i] && name[i] <= '9') || name[i] == '_' || name[i]
                == '-',
{
    if usable_database(name) {
        assert forall|i: int| 0 <= i < name.len() implies ('a' <= #[trigger] name[i] && name[i]
            <= 'z') || ('A' <= name[i] && name[i] <= 'Z') || ('0' <= name[i] && name[i] <= '9')
            || name[i] == '_' || name[i] == '-' by {}
    }
    if name.len() > 0 && name[0] != '-' && forall|i: int|
        0 <= i < name.len() ==> ('a' <= #[trigger] name[i] && name[i] <= 'z') || ('A' <= name[i]
            && name[i] <= 'Z') || ('0' <= name[i] && name[i] <= '9') || name[i] == '_' || name[i]
            == '-' {
        assert forall|i: int| 0 <= i < name.len() implies is_letter(#[trigger] name[i]) || is_digit(
            name[i],
        ) || name[i] == '_' || name[i] == '-' by {}
    }
}

/// A name that is not usable is refused before the credentials are looked at,
/// and then the first missing credential is named, the user before the password.
pub proof fn law_a_refusal_names_what_is_missing(
    engine: Engine,
    database: Seq<char>,
    env: Seq<Seq<char>>,
)
    ensures
        !usable_database(database) ==> dump_plan_of(engine, database, env) == Err::<
            ExecPlanView,
            DbErrorView,
        >(DbErrorView::InvalidDatabase(database)),
        ({
            let (container, user, password) = match engine {
                Engine::MySql => ("mysql"@, None::<Seq<char>>, "MYSQL_ROOT_PASSWORD"@),
                Engine::Postgres => (
                    "postgres"@,
                    Some("POSTGRES_USER"@),
                    "POSTGRES_PASSWORD"@,
                ),
                Engine::Mongo => (
                    "mongo"@,
                    Some("MONGO_INITDB_ROOT_USERNAME"@),
                    "MONGO_INITDB_ROOT_PASSWORD"@,
                ),
            };
            let missing = if user is Some && value_in(env, user->0) is None {
                user
            } else if value_in(env, password) is None {
                Some(password)
            } else {
                None
            };
            match missing {
                Some(variable) => credentials_in(engine, env) == Err::<
                    (Seq<char>, Seq<char>),
                    DbErrorView,
                >(DbErrorView::MissingCredential { container, variable }),
                None => credentials_in(engine, env) matches Ok((name, word)) && Some(word)
                    == value_in(env, password) && (if user is Some {
                    Some(name) == value_in(env, user->0)
                } else {
                    name.len() == 0
                }),
            }
        }),
        usable_database(database) ==> (dump_plan_of(engine, database, env) is Ok <==> credentials_in(
            engine,
            env,
        ) is Ok),
        usable_database(database) ==> (credentials_in(engine, env) matches Err(error) ==> dump_plan_of(
            engine,
            database,
            env,
        ) == Err::<ExecPlanView, DbErrorView>(error)),
{
}

/// A dump runs the engine's own tool on the database that was named, as the user
/// and with the password that the container publishes.
pub proof fn law_a_dump_runs_the_engine_s_tool(
    database: Seq<char>,
    env: Seq<Seq<char>>,
    user: Seq<char>,
    password: Seq<char>,
)
    requires
        usable_database(database),
    ensures
        value_in(env, "MYSQL_ROOT_PASSWORD"@) == Some(password) ==> (dump_plan_of(
            Engine::MySql,
            database,
            env,
        ) matches Ok(plan) && plan.env == seq!["MYSQL_PWD="@ + password] && plan.command == seq![
            "mysqldump"@,
            "--user=root"@,
            "--single-transaction"@,
            "--routines"@,
            "--triggers"@,
            "--set-gtid-purged=OFF"@,
            database,
        ]),
        value_in(env, "POSTGRES_USER"@) == Some(user) && value_in(env, "POSTGRES_PASSWORD"@) == Some(
            password,
        ) ==> (dump_plan_of(Engine::Postgres, database, env) matches Ok(plan) && plan.env == seq![
            "PGPASSWORD="@ + password,
        ] && plan.command == seq![
            "pg_dump"@,
            "--username="@ + user,
            "--no-owner"@,
            "--no-privileges"@,
            database,
        ]),
        value_in(env, "MONGO_INITDB_ROOT_USERNAME"@) == Some(user) && value_in(
            env,
            "MONGO_INITDB_ROOT_PASSWORD"@,
        ) == Some(password) ==> (dump_plan_of(Engine::Mongo, database, env) matches Ok(plan)
            && plan.env.len() == 0 && plan.command == seq![
            "mongodump"@,
            "--archive"@,
            "--db="@ + database,
            "--username="@ + user,
            "--password="@ + password,
            "--authenticationDatabase=admin"@,
        ]),
{
}

/// Dumping all databases runs the same tools on none in particular.
pub proof fn law_a_dump_of_all_names_no_database(user: Seq<char>, password: Seq<char>)
    ensures
        dump_all_with(Engine::MySql, user, password).command == seq![
            "mysqldump"@,
            "--user=root"@,
            "--single-transaction"@,
            "--routines"@,
            "--triggers"@,
            "--set-gtid-purged=OFF"@,
            "--all-databases"@,
        ],
        dump_all_with(Engine::MySql, user, password).env == seq!["MYSQL_PWD="@ + password],
        dump_all_with(Engine::Postgres, user, password).command == seq![
            "pg_dumpall"@,
            "--username="@ + user,
        ],
        dump_all_with(Engine::Postgres, user, password).env == seq!["PGPASSWORD="@ + password],
        dump_all_with(Engine::Mongo, user, password).command == seq![
            "mongodump"@,
            "--archive"@,
            "--username="@ + user,
            "--password="@ + password,
            "--authenticationDatabase=admin"@,
        ],
        dump_all_with(Engine::Mongo, user, password).env.len() == 0,
{
}

/// A dump is taken for compressed by its first two bytes and by nothing else.
pub proof fn law_two_bytes_say_a_dump_is_compressed(rest: Seq<u8>, first: u8, second: u8)
    ensures
        decoded(seq![0x1fu8, 0x8bu8] + rest) == gunzipped(seq![0x1fu8, 0x8bu8] + rest),
        first != 0x1f || second != 0x8b ==> decoded(seq![first, second] + rest) == Ok::<
            Seq<u8>,
            Seq<char>,
        >(seq![first, second] + rest),
        decoded(seq![first]) == Ok::<Seq<u8>, Seq<char>>(seq![first]),
{
}

/// A password that is configured by the name of a variable is that variable's
/// value, and one that is written down beats it. Where nothing is configured the
/// container's own environment stands.
pub proof fn law_a_password_can_be_configured_by_name(
    engine: Engine,
    env: Seq<Seq<char>>,
    user: Option<Seq<char>>,
    variable: Seq<char>,
    password: Seq<char>,
)
    ensures
        value_in(env, variable) == Some(password) ==> env_with_account(
            engine,
            env,
            user,
            None,
            Some(variable),
        ) == env_with_account(engine, env, user, Some(password), None),
        env_with_account(engine, env, user, Some(password), Some(variable)) == env_with_account(
            engine,
            env,
            user,
            Some(password),
            None,
        ),
        env_with_account(engine, env, None, None, None) == env,
{
    assert(env_with_account(engine, env, None, None, None) =~= env);
}

/// A refusal says which variable of which container is missing, which name is
/// not usable, or which image is not known.
pub proof fn law_a_refusal_says_what_was_wrong(text: Seq<char>, variable: Seq<char>)
    ensures
        db_error_text(DbErrorView::MissingCredential { container: text, variable }) == text
            + " does not publish "@ + variable + ", so its credentials are unknown"@,
        db_error_text(DbErrorView::InvalidDatabase(text)) == debug_text(text)
            + " is not a usable database name"@,
        db_error_text(DbErrorView::UnknownEngine(text)) == "no dump tool is known for the image "@
            + debug_text(text),
{
}

} // verus!
