//! The order in which a dump is taken out of a container and put back.
//!
//! Each function here is asked again after every step with what the steps
//! before it came to, and says what comes next. The caller talks to docker and
//! to the disk; nothing of what it does is decided there.

use crate::backup::{
    dump_problem, dump_step, dump_step_for, engine_in, engine_of, exit_problem, failed_line,
    import_archive, import_name, import_problem, packed, tar_archive, DumpStep, DumpStepView,
};
use crate::db::{
    account_env, credentials_in, db_error_text, dump_all_plan, dump_all_with, dump_plan,
    dump_plan_of, engine_named, env_with_account, image_name, restore_plan, restore_plan_of,
    DbErrorView, Engine, ExecPlan, ExecPlanView,
};
use crate::domain::{ServiceStatus, ServiceStatusView};
use crate::lifecycle::Account;
use crate::text::{decimal, maybe_text, signed_decimal, trimmed, views};
use vstd::prelude::*;
use vstd::string::*;

verus! {

/// What a container says of itself when asked: the image it runs and the
/// environment it was given.
#[derive(Debug, Clone, PartialEq, Eq)]
pub struct Inspected {
    pub image: String,
    pub env: Vec<String>,
}

impl View for Inspected {
    type V = (Seq<char>, Seq<Seq<char>>);

    open spec fn view(&self) -> (Seq<char>, Seq<Seq<char>>) {
        (self.image@, views(self.env@))
    }
}

/// How a command inside a container ended, and what it complained of.
#[derive(Debug, Clone, PartialEq, Eq)]
pub struct Ended {
    pub exit_code: i32,
    pub stderr: String,
}

impl View for Ended {
    type V = (i32, Seq<char>);

    open spec fn view(&self) -> (i32, Seq<char>) {
        (self.exit_code, self.stderr@)
    }
}

/// What has come of a step: nothing yet, a result, or a failure.
pub open spec fn came<T: View>(answer: Option<Result<T, String>>) -> Option<
    Result<T::V, Seq<char>>,
> {
    match answer {
        None => None,
        Some(Ok(value)) => Some(Ok(value@)),
        Some(Err(reason)) => Some(Err(reason@)),
    }
}

impl Account {
    /// The container's environment with this account in front.
    pub open spec fn over(self, engine: Engine, env: Seq<Seq<char>>) -> Seq<Seq<char>> {
        env_with_account(
            engine,
            env,
            maybe_text(self.user),
            maybe_text(self.password),
            maybe_text(self.password_env),
        )
    }
}

fn env_for(account: &Account, engine: Engine, env: &[String]) -> (merged: Vec<String>)
    ensures
        views(merged@) == account.over(engine, views(env@)),
{
    account_env(engine, env, &account.user, &account.password, &account.password_env)
}

/// What comes next while a dump is loaded into a database.
#[derive(Debug)]
pub enum ImportStep {
    /// Ask what the container runs.
    Inspect,
    /// Unpack this archive in the container's /tmp.
    Upload(Vec<u8>),
    /// Run what restores the database.
    Run(ExecPlan),
    /// Run this, which takes the copy away again.
    Remove(Vec<String>),
    /// The size of the dump that was loaded, or why it was not.
    Done(Result<usize, String>),
}

/// What a step of loading says.
#[verifier::ext_equal]
pub enum ImportStepView {
    Inspect,
    Upload(Seq<u8>),
    Run(ExecPlanView),
    Remove(Seq<Seq<char>>),
    Loaded(nat),
    Failed(Seq<char>),
}

impl View for ImportStep {
    type V = ImportStepView;

    open spec fn view(&self) -> ImportStepView {
        match self {
            ImportStep::Inspect => ImportStepView::Inspect,
            ImportStep::Upload(archive) => ImportStepView::Upload(archive@),
            ImportStep::Run(plan) => ImportStepView::Run(plan@),
            ImportStep::Remove(command) => ImportStepView::Remove(views(command@)),
            ImportStep::Done(Ok(bytes)) => ImportStepView::Loaded(*bytes as nat),
            ImportStep::Done(Err(reason)) => ImportStepView::Failed(reason@),
        }
    }
}

/// A dump to load, and where it goes.
#[derive(Debug)]
pub struct Import {
    pub container: String,
    pub database: String,
    pub dump: Vec<u8>,
    /// A number of its own per run, so two imports at once cannot read each
    /// other's file and a leftover from a crash is recognisable.
    pub stamp: u64,
    pub account: Account,
}

impl Import {
    /// The name of the copy inside the container.
    pub open spec fn file(self) -> Seq<char> {
        "adev-import-"@ + decimal(self.stamp as nat)
    }

    /// The copy inside the container.
    pub open spec fn copy(self) -> Seq<char> {
        "/tmp/"@ + self.file()
    }

    /// The archive the copy travels in.
    pub open spec fn archive(self) -> Result<Seq<u8>, Seq<char>> {
        packed(tar_archive(self.file(), 0o600, self.dump@))
    }

    /// What restores the database, once it is known what the container runs.
    pub open spec fn plan(self, detail: (Seq<char>, Seq<Seq<char>>)) -> Result<
        ExecPlanView,
        Seq<char>,
    > {
        match engine_in(self.container@, detail.0, true) {
            Err(reason) => Err(reason),
            Ok(engine) => match restore_plan_of(
                engine,
                self.database@,
                self.copy(),
                self.account.over(engine, detail.1),
            ) {
                Err(error) => Err(db_error_text(error)),
                Ok(plan) => Ok(plan),
            },
        }
    }

    /// What comes next, given what came of asking, of unpacking and of
    /// restoring, and whether the copy is gone.
    pub open spec fn next(
        self,
        inspected: Option<Result<(Seq<char>, Seq<Seq<char>>), Seq<char>>>,
        uploaded: Option<Result<(), Seq<char>>>,
        ran: Option<Result<(i32, Seq<char>), Seq<char>>>,
        removed: bool,
    ) -> ImportStepView {
        match inspected {
            None => ImportStepView::Inspect,
            Some(Err(reason)) => ImportStepView::Failed(reason),
            Some(Ok(detail)) => match self.plan(detail) {
                Err(reason) => ImportStepView::Failed(reason),
                Ok(plan) => match uploaded {
                    None => match self.archive() {
                        Err(reason) => ImportStepView::Failed(reason),
                        Ok(bytes) => ImportStepView::Upload(bytes),
                    },
                    Some(Err(reason)) => ImportStepView::Failed(
                        "could not put the dump into "@ + self.container@ + ": "@ + reason,
                    ),
                    Some(Ok(_)) => match ran {
                        None => ImportStepView::Run(plan),
                        // The copy inside the container goes whatever
                        // happened, so a dump does not sit in /tmp of a
                        // running database until somebody notices.
                        Some(ended) => if !removed {
                            ImportStepView::Remove(seq!["rm"@, "-f"@, self.copy()])
                        } else {
                            match ended {
                                Err(reason) => ImportStepView::Failed(reason),
                                Ok((exit_code, stderr)) => match exit_problem(
                                    "import failed, exit "@,
                                    exit_code,
                                    stderr,
                                ) {
                                    Some(problem) => ImportStepView::Failed(problem),
                                    None => ImportStepView::Loaded(self.dump@.len()),
                                },
                            }
                        },
                    },
                },
            },
        }
    }

    fn copy_path(&self) -> (path: String)
        ensures
            path@ == self.copy(),
    {
        let mut path = "/tmp/".to_owned();
        path.append(import_name(self.stamp).as_str());
        path
    }

    fn restoring(&self, detail: &Inspected) -> (plan: Result<ExecPlan, String>)
        ensures
            match plan {
                Ok(plan) => self.plan(detail@) == Ok::<ExecPlanView, Seq<char>>(plan@),
                Err(reason) => self.plan(detail@) == Err::<ExecPlanView, Seq<char>>(reason@),
            },
    {
        let engine = match engine_of(self.container.as_str(), detail.image.as_str(), true) {
            Ok(engine) => engine,
            Err(reason) => {
                return Err(reason);
            },
        };
        let env = env_for(&self.account, engine, detail.env.as_slice());
        match restore_plan(
            engine,
            self.database.as_str(),
            self.copy_path().as_str(),
            env.as_slice(),
        ) {
            Ok(plan) => Ok(plan),
            Err(error) => Err(error.to_string()),
        }
    }

    /// What comes next while this dump is loaded, overwriting what is there.
    pub fn step(
        &self,
        inspected: &Option<Result<Inspected, String>>,
        uploaded: &Option<Result<(), String>>,
        ran: &Option<Result<Ended, String>>,
        removed: bool,
    ) -> (step: ImportStep)
        ensures
            step@ == self.next(came(*inspected), came(*uploaded), came(*ran), removed),
    {
        let detail = match inspected {
            None => {
                return ImportStep::Inspect;
            },
            Some(Err(reason)) => {
                return ImportStep::Done(Err(reason.clone()));
            },
            Some(Ok(detail)) => detail,
        };
        let plan = match self.restoring(detail) {
            Ok(plan) => plan,
            Err(reason) => {
                return ImportStep::Done(Err(reason));
            },
        };
        match uploaded {
            None => match import_archive(self.stamp, self.dump.as_slice()) {
                Ok(bytes) => ImportStep::Upload(bytes),
                Err(reason) => ImportStep::Done(Err(reason)),
            },
            Some(Err(reason)) => {
                let mut text = "could not put the dump into ".to_owned();
                text.append(self.container.as_str());
                text.append(": ");
                text.append(reason.as_str());
                ImportStep::Done(Err(text))
            },
            Some(Ok(_)) => match ran {
                None => ImportStep::Run(plan),
                Some(ended) => if !removed {
                    let command = vec!["rm".to_owned(), "-f".to_owned(), self.copy_path()];
                    assert(views(command@) =~= seq!["rm"@, "-f"@, self.copy()]);
                    ImportStep::Remove(command)
                } else {
                    match ended {
                        Err(reason) => ImportStep::Done(Err(reason.clone())),
                        Ok(ended) => match import_problem(
                            ended.exit_code,
                            ended.stderr.as_str(),
                        ) {
                            Some(problem) => ImportStep::Done(Err(problem)),
                            None => ImportStep::Done(Ok(self.dump.len())),
                        },
                    }
                },
            },
        }
    }
}

/// What was written, and what the dump tool complained of while still
/// succeeding.
#[derive(Debug, Clone, PartialEq, Eq)]
pub struct Written {
    pub ended: Ended,
    pub bytes: u64,
}

impl View for Written {
    type V = (i32, Seq<char>, u64);

    open spec fn view(&self) -> (i32, Seq<char>, u64) {
        (self.ended.exit_code, self.ended.stderr@, self.bytes)
    }
}

/// What comes next while a dump is written to a file.
#[derive(Debug)]
pub enum DumpingStep {
    /// Ask what the container runs.
    Inspect,
    /// Run what dumps the databases, its output going to the file.
    Run(Engine, ExecPlan),
    /// Take the file away again.
    Remove,
    /// Nothing to dump, and no failure either.
    Nothing(String),
    /// The size of the file and what was complained of, or why there is none.
    Done(Result<(u64, String), String>),
}

/// What a step of dumping says.
#[verifier::ext_equal]
pub enum DumpingStepView {
    Inspect,
    Run(Engine, ExecPlanView),
    Remove,
    Nothing(Seq<char>),
    Dumped(u64, Seq<char>),
    Failed(Seq<char>),
}

impl View for DumpingStep {
    type V = DumpingStepView;

    open spec fn view(&self) -> DumpingStepView {
        match self {
            DumpingStep::Inspect => DumpingStepView::Inspect,
            DumpingStep::Run(engine, plan) => DumpingStepView::Run(*engine, plan@),
            DumpingStep::Remove => DumpingStepView::Remove,
            DumpingStep::Nothing(reason) => DumpingStepView::Nothing(reason@),
            DumpingStep::Done(Ok((bytes, complaints))) => DumpingStepView::Dumped(
                *bytes,
                complaints@,
            ),
            DumpingStep::Done(Err(reason)) => DumpingStepView::Failed(reason@),
        }
    }
}

/// What a dump that ran came to: why it is no backup, where it is none.
pub open spec fn no_backup(
    plan: ExecPlanView,
    written: Result<(i32, Seq<char>, u64), Seq<char>>,
) -> Option<Seq<char>> {
    match written {
        Err(reason) => Some(reason),
        Ok((exit_code, stderr, _)) => exit_problem(
            plan.command[0] + " exited "@,
            exit_code,
            stderr,
        ),
    }
}

fn why_no_backup(plan: &ExecPlan, written: &Result<Written, String>) -> (problem: Option<String>)
    requires
        plan@.command.len() > 0,
    ensures
        maybe_text(problem) == no_backup(
            plan@,
            (match *written {
                Ok(value) => Ok(value@),
                Err(reason) => Err(reason@),
            }),
        ),
{
    match written {
        Err(reason) => Some(reason.clone()),
        Ok(written) => {
            assert(plan@.command[0] == plan.command@[0]@);
            dump_problem(
                plan.command[0].as_str(),
                written.ended.exit_code,
                written.ended.stderr.as_str(),
            )
        },
    }
}

/// One database to write to a file.
#[derive(Debug)]
pub struct Export {
    pub container: String,
    pub database: String,
    /// The file, as it is shown.
    pub path: String,
    pub account: Account,
}

impl Export {
    /// What dumps the database, once it is known what the container runs.
    pub open spec fn plan(self, detail: (Seq<char>, Seq<Seq<char>>)) -> Result<
        (Engine, ExecPlanView),
        Seq<char>,
    > {
        match engine_in(self.container@, detail.0, false) {
            Err(reason) => Err(reason),
            Ok(engine) => match dump_plan_of(
                engine,
                self.database@,
                self.account.over(engine, detail.1),
            ) {
                Err(error) => Err(db_error_text(error)),
                Ok(plan) => Ok((engine, plan)),
            },
        }
    }

    /// What comes next, given what came of asking and of dumping, and whether
    /// the file is gone. A half written dump that looks like a backup is worse
    /// than none.
    pub open spec fn next(
        self,
        inspected: Option<Result<(Seq<char>, Seq<Seq<char>>), Seq<char>>>,
        written: Option<Result<(i32, Seq<char>, u64), Seq<char>>>,
        removed: bool,
    ) -> DumpingStepView {
        match inspected {
            None => DumpingStepView::Inspect,
            Some(Err(reason)) => DumpingStepView::Failed(reason),
            Some(Ok(detail)) => match self.plan(detail) {
                Err(reason) => DumpingStepView::Failed(reason),
                Ok((engine, plan)) => match written {
                    None => DumpingStepView::Run(engine, plan),
                    Some(written) => match no_backup(plan, written) {
                        Some(reason) => if removed {
                            DumpingStepView::Failed(reason + "; "@ + self.path@ + " removed"@)
                        } else {
                            DumpingStepView::Remove
                        },
                        None => DumpingStepView::Dumped((written->Ok_0).2, (written->Ok_0).1),
                    },
                },
            },
        }
    }

    /// What comes next while this database is written to its file.
    pub fn step(
        &self,
        inspected: &Option<Result<Inspected, String>>,
        written: &Option<Result<Written, String>>,
        removed: bool,
    ) -> (step: DumpingStep)
        ensures
            step@ == self.next(came(*inspected), came(*written), removed),
    {
        let detail = match inspected {
            None => {
                return DumpingStep::Inspect;
            },
            Some(Err(reason)) => {
                return DumpingStep::Done(Err(reason.clone()));
            },
            Some(Ok(detail)) => detail,
        };
        let engine = match engine_of(self.container.as_str(), detail.image.as_str(), false) {
            Ok(engine) => engine,
            Err(reason) => {
                return DumpingStep::Done(Err(reason));
            },
        };
        let env = env_for(&self.account, engine, detail.env.as_slice());
        let plan = match dump_plan(engine, self.database.as_str(), env.as_slice()) {
            Ok(plan) => plan,
            Err(error) => {
                return DumpingStep::Done(Err(error.to_string()));
            },
        };
        assert(plan@.command.len() > 0);
        match written {
            None => DumpingStep::Run(engine, plan),
            Some(written) => match why_no_backup(&plan, written) {
                Some(reason) => if removed {
                    let mut text = reason;
                    text.append("; ");
                    text.append(self.path.as_str());
                    text.append(" removed");
                    DumpingStep::Done(Err(text))
                } else {
                    DumpingStep::Remove
                },
                None => match written {
                    Ok(written) => DumpingStep::Done(
                        Ok((written.bytes, written.ended.stderr.clone())),
                    ),
                    Err(reason) => DumpingStep::Done(Err(reason.clone())),
                },
            },
        }
    }
}

/// A text with what it is about in front.
pub open spec fn of_service(name: Seq<char>, text: Seq<char>) -> Seq<char> {
    name + ": "@ + text
}

fn about(name: &str, text: &str) -> (said: String)
    ensures
        said@ == of_service(name@, text@),
{
    let mut said = name.to_owned();
    said.append(": ");
    said.append(text);
    said
}

/// Every database of a service, to write to one file.
#[derive(Debug)]
pub struct Backup {
    pub service: ServiceStatus,
    pub account: Account,
}

impl Backup {
    /// What dumps the databases, once it is known what the container runs.
    pub open spec fn plan(self, engine: Engine, env: Seq<Seq<char>>) -> Result<
        ExecPlanView,
        Seq<char>,
    > {
        match credentials_in(engine, self.account.over(engine, env)) {
            Err(error) => Err(of_service(self.service@.service, db_error_text(error))),
            Ok((user, password)) => Ok(dump_all_with(engine, user, password)),
        }
    }

    /// What comes next, given what came of asking and of dumping, and whether
    /// the file is gone.
    pub open spec fn next(
        self,
        inspected: Option<Result<(Seq<char>, Seq<Seq<char>>), Seq<char>>>,
        written: Option<Result<(i32, Seq<char>, u64), Seq<char>>>,
        removed: bool,
    ) -> DumpingStepView {
        match dump_step_for(self.service@, None) {
            DumpStepView::Skip(reason) => DumpingStepView::Nothing(reason),
            _ => match inspected {
                None => DumpingStepView::Inspect,
                Some(Err(reason)) => DumpingStepView::Failed(
                    of_service(self.service@.container, reason),
                ),
                Some(Ok((image, env))) => match dump_step_for(self.service@, Some(image)) {
                    DumpStepView::Skip(reason) => DumpingStepView::Nothing(reason),
                    DumpStepView::Inspect => DumpingStepView::Inspect,
                    DumpStepView::Dump(engine) => match self.plan(engine, env) {
                        Err(reason) => DumpingStepView::Failed(reason),
                        Ok(plan) => match written {
                            None => DumpingStepView::Run(engine, plan),
                            Some(written) => match no_backup(plan, written) {
                                Some(reason) => if removed {
                                    DumpingStepView::Failed(
                                        self.service@.service + " failed, its file removed: "@
                                            + reason,
                                    )
                                } else {
                                    DumpingStepView::Remove
                                },
                                None => DumpingStepView::Dumped(
                                    (written->Ok_0).2,
                                    (written->Ok_0).1,
                                ),
                            },
                        },
                    },
                },
            },
        }
    }

    /// What comes next while this service is backed up.
    pub fn step(
        &self,
        inspected: &Option<Result<Inspected, String>>,
        written: &Option<Result<Written, String>>,
        removed: bool,
    ) -> (step: DumpingStep)
        ensures
            step@ == self.next(came(*inspected), came(*written), removed),
    {
        if let DumpStep::Skip(reason) = dump_step(&self.service, None) {
            return DumpingStep::Nothing(reason);
        }
        let detail = match inspected {
            None => {
                return DumpingStep::Inspect;
            },
            Some(Err(reason)) => {
                return DumpingStep::Done(
                    Err(about(self.service.container.as_str(), reason.as_str())),
                );
            },
            Some(Ok(detail)) => detail,
        };
        let engine = match dump_step(&self.service, Some(detail.image.as_str())) {
            DumpStep::Skip(reason) => {
                return DumpingStep::Nothing(reason);
            },
            DumpStep::Inspect => {
                return DumpingStep::Inspect;
            },
            DumpStep::Dump(engine) => engine,
        };
        let env = env_for(&self.account, engine, detail.env.as_slice());
        let plan = match dump_all_plan(engine, env.as_slice()) {
            Ok(plan) => plan,
            Err(error) => {
                return DumpingStep::Done(
                    Err(about(self.service.service.as_str(), error.to_string().as_str())),
                );
            },
        };
        assert(plan@.command.len() > 0);
        match written {
            None => DumpingStep::Run(engine, plan),
            Some(written) => match why_no_backup(&plan, written) {
                Some(reason) => if removed {
                    DumpingStep::Done(
                        Err(failed_line(self.service.service.as_str(), reason.as_str())),
                    )
                } else {
                    DumpingStep::Remove
                },
                None => match written {
                    Ok(written) => DumpingStep::Done(
                        Ok((written.bytes, written.ended.stderr.clone())),
                    ),
                    Err(reason) => DumpingStep::Done(Err(reason.clone())),
                },
            },
        }
    }
}

/// Nothing of a dump stays in the container: once it was unpacked and the
/// restore has ended, whichever way, the copy is taken away before anything is
/// reported.
pub proof fn law_no_copy_is_left_behind(
    import: Import,
    inspected: Option<Result<(Seq<char>, Seq<Seq<char>>), Seq<char>>>,
    ended: Result<(i32, Seq<char>), Seq<char>>,
)
    requires
        import.next(inspected, Some(Ok(())), None, false) is Run,
    ensures
        import.next(inspected, Some(Ok(())), Some(ended), false) == ImportStepView::Remove(
            seq!["rm"@, "-f"@, import.copy()],
        ),
        import.next(inspected, Some(Ok(())), Some(ended), true) is Loaded || import.next(
            inspected,
            Some(Ok(())),
            Some(ended),
            true,
        ) is Failed,
{
}

/// A dump is reported as loaded only where the restore ended well.
pub proof fn law_loaded_means_the_restore_ended_well(
    import: Import,
    inspected: Option<Result<(Seq<char>, Seq<Seq<char>>), Seq<char>>>,
    uploaded: Option<Result<(), Seq<char>>>,
    ran: Option<Result<(i32, Seq<char>), Seq<char>>>,
    removed: bool,
)
    ensures
        import.next(inspected, uploaded, ran, removed) is Loaded ==> removed && (uploaded matches
            Some(Ok(_))) && (ran matches Some(Ok((code, _))) && code == 0),
{
}

/// Nothing reaches a container whose image is no known database, or for a
/// database name that is refused.
pub proof fn law_a_refused_import_touches_nothing(
    import: Import,
    detail: (Seq<char>, Seq<Seq<char>>),
    uploaded: Option<Result<(), Seq<char>>>,
    ran: Option<Result<(i32, Seq<char>), Seq<char>>>,
    removed: bool,
)
    requires
        import.plan(detail) is Err,
    ensures
        import.next(Some(Ok(detail)), uploaded, ran, removed) is Failed,
{
}

/// A half written dump never looks like a backup: a dump that did not end well
/// is taken away before the failure is reported.
pub proof fn law_a_failed_dump_is_taken_away(
    export: Export,
    backup: Backup,
    inspected: Option<Result<(Seq<char>, Seq<Seq<char>>), Seq<char>>>,
    written: Result<(i32, Seq<char>, u64), Seq<char>>,
)
    requires
        written matches Ok((code, _, _)) ==> code != 0,
    ensures
        export.next(inspected, None, false) is Run ==> export.next(
            inspected,
            Some(written),
            false,
        ) is Remove && export.next(inspected, Some(written), true) is Failed,
        backup.next(inspected, None, false) is Run ==> backup.next(
            inspected,
            Some(written),
            false,
        ) is Remove && backup.next(inspected, Some(written), true) is Failed,
{
}

/// An import goes one way: the container is looked at, the dump is put into it
/// under a name of its own, the restore of that very file is run, the copy is
/// taken away, and then the outcome is told.
#[verifier::rlimit(40)]
pub proof fn law_an_import_restores_what_it_uploaded(
    import: Import,
    detail: (Seq<char>, Seq<Seq<char>>),
    engine: Engine,
    plan: ExecPlanView,
    bytes: Seq<u8>,
    ended: (i32, Seq<char>),
    reason: Seq<char>,
)
    requires
        engine_named(image_name(detail.0)) == Some(engine),
        restore_plan_of(
            engine,
            import.database@,
            "/tmp/adev-import-"@ + decimal(import.stamp as nat),
            env_with_account(
                engine,
                detail.1,
                maybe_text(import.account.user),
                maybe_text(import.account.password),
                maybe_text(import.account.password_env),
            ),
        ) == Ok::<ExecPlanView, DbErrorView>(plan),
        tar_archive("adev-import-"@ + decimal(import.stamp as nat), 0o600, import.dump@) == Ok::<
            Seq<u8>,
            Seq<char>,
        >(bytes),
    ensures
        import.next(None, None, None, false) is Inspect,
        import.next(Some(Err(reason)), None, None, false) == ImportStepView::Failed(reason),
        import.next(Some(Ok(detail)), None, None, false) == ImportStepView::Upload(bytes),
        import.next(Some(Ok(detail)), Some(Err(reason)), None, false) == ImportStepView::Failed(
            "could not put the dump into "@ + import.container@ + ": "@ + reason,
        ),
        import.next(Some(Ok(detail)), Some(Ok(())), None, false) == ImportStepView::Run(plan),
        import.next(Some(Ok(detail)), Some(Ok(())), Some(Ok(ended)), false)
            == ImportStepView::Remove(
            seq!["rm"@, "-f"@, "/tmp/adev-import-"@ + decimal(import.stamp as nat)],
        ),
        ended.0 == 0 ==> import.next(Some(Ok(detail)), Some(Ok(())), Some(Ok(ended)), true)
            == ImportStepView::Loaded(import.dump@.len()),
        ended.0 != 0 ==> import.next(Some(Ok(detail)), Some(Ok(())), Some(Ok(ended)), true)
            == ImportStepView::Failed(
            "import failed, exit "@ + signed_decimal(ended.0 as int) + ": "@ + trimmed(ended.1),
        ),
        import.next(Some(Ok(detail)), Some(Ok(())), Some(Err(reason)), true)
            == ImportStepView::Failed(reason),
{
    reveal_strlit("/tmp/");
    reveal_strlit("adev-import-");
    reveal_strlit("/tmp/adev-import-");
    assert("/tmp/"@ + ("adev-import-"@ + decimal(import.stamp as nat)) =~= "/tmp/adev-import-"@
        + decimal(import.stamp as nat));
}

/// An export looks at the container, runs the dump of the database that was
/// named, and tells how much was written; a dump that failed is taken away
/// before it is told.
pub proof fn law_an_export_dumps_the_database(
    export: Export,
    detail: (Seq<char>, Seq<Seq<char>>),
    engine: Engine,
    plan: ExecPlanView,
    written: (i32, Seq<char>, u64),
    reason: Seq<char>,
)
    requires
        engine_named(image_name(detail.0)) == Some(engine),
        dump_plan_of(
            engine,
            export.database@,
            env_with_account(
                engine,
                detail.1,
                maybe_text(export.account.user),
                maybe_text(export.account.password),
                maybe_text(export.account.password_env),
            ),
        ) == Ok::<ExecPlanView, DbErrorView>(plan),
    ensures
        export.next(None, None, false) is Inspect,
        export.next(Some(Err(reason)), None, false) == DumpingStepView::Failed(reason),
        export.next(Some(Ok(detail)), None, false) == DumpingStepView::Run(engine, plan),
        written.0 == 0 ==> export.next(Some(Ok(detail)), Some(Ok(written)), false)
            == DumpingStepView::Dumped(written.2, written.1),
        written.0 != 0 ==> export.next(Some(Ok(detail)), Some(Ok(written)), false) is Remove
            && export.next(Some(Ok(detail)), Some(Ok(written)), true) == DumpingStepView::Failed(
            plan.command[0] + " exited "@ + signed_decimal(written.0 as int) + ": "@ + trimmed(
                written.1,
            ) + "; "@ + export.path@ + " removed"@,
        ),
{
}

/// A backup leaves out what does not run and what holds no database; of every
/// other service all databases are dumped, with the account that is configured
/// for it over what its container publishes.
pub proof fn law_a_backup_dumps_every_database(
    backup: Backup,
    image: Seq<char>,
    env: Seq<Seq<char>>,
    engine: Engine,
    user: Seq<char>,
    password: Seq<char>,
    written: (i32, Seq<char>, u64),
)
    requires
        backup.service@.state is Running,
        engine_named(image_name(image)) == Some(engine),
        credentials_in(
            engine,
            env_with_account(
                engine,
                env,
                maybe_text(backup.account.user),
                maybe_text(backup.account.password),
                maybe_text(backup.account.password_env),
            ),
        ) == Ok::<(Seq<char>, Seq<char>), DbErrorView>((user, password)),
    ensures
        backup.next(None, None, false) is Inspect,
        backup.next(Some(Ok((image, env))), None, false) == DumpingStepView::Run(
            engine,
            dump_all_with(engine, user, password),
        ),
        written.0 == 0 ==> backup.next(Some(Ok((image, env))), Some(Ok(written)), false)
            == DumpingStepView::Dumped(written.2, written.1),
        written.0 != 0 ==> backup.next(Some(Ok((image, env))), Some(Ok(written)), false) is Remove,
{
}

} // verus!
