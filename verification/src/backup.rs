//! Dumping databases to files, and loading them back.

use crate::db::{engine_named, image_name, Engine};
use crate::domain::{ServiceState, ServiceStatus, ServiceStatusView};
use crate::order::precedes;
use crate::text::{
    all_digits, begins_with, chars_of, decimal, digit_char, digits_value, is_digit, is_letter,
    lemma_decimal_reads_back, maybe_text, number_text, signed_decimal, signed_text, string_of,
    trim, trimmed,
};
use vstd::prelude::*;
use vstd::string::*;

verus! {

/// The last `width` digits of a number, with zeros in front where it is
/// shorter.
pub open spec fn fixed_digits(n: nat, width: nat) -> Seq<char>
    decreases width,
{
    if width == 0 {
        seq![]
    } else {
        fixed_digits(n / 10, (width - 1) as nat).push(digit_char(n % 10))
    }
}

fn fixed_chars(n: u32, width: usize) -> (digits: Vec<char>)
    ensures
        digits@ == fixed_digits(n as nat, width as nat),
    decreases width,
{
    if width == 0 {
        Vec::new()
    } else {
        let mut digits = fixed_chars(n / 10, width - 1);
        digits.push((48 + (n % 10) as u8) as char);
        digits
    }
}

fn fixed_text(n: u32, width: usize) -> (text: String)
    ensures
        text@ == fixed_digits(n as nat, width as nat),
{
    string_of(fixed_chars(n, width).as_slice())
}

/// A moment, in UTC.
#[derive(Debug, Clone, Copy, PartialEq, Eq, Structural)]
pub struct Moment {
    pub year: u32,
    pub month: u32,
    pub day: u32,
    pub hour: u32,
    pub minute: u32,
    pub second: u32,
}

impl Moment {
    /// Whether every part can be written in its digits: four for the year, two
    /// for the others.
    pub open spec fn is_writable(self) -> bool {
        &&& self.year <= 9999
        &&& self.month <= 99
        &&& self.day <= 99
        &&& self.hour <= 99
        &&& self.minute <= 99
        &&& self.second <= 99
    }

    /// Whether this moment comes before `other`.
    pub open spec fn before(self, other: Moment) -> bool {
        ||| self.year < other.year
        ||| self.year == other.year && self.month < other.month
        ||| self.year == other.year && self.month == other.month && self.day < other.day
        ||| self.year == other.year && self.month == other.month && self.day == other.day
            && self.hour < other.hour
        ||| self.year == other.year && self.month == other.month && self.day == other.day
            && self.hour == other.hour && self.minute < other.minute
        ||| self.year == other.year && self.month == other.month && self.day == other.day
            && self.hour == other.hour && self.minute == other.minute && self.second
            < other.second
    }
}

/// The name of a directory for the dumps of one moment.
pub open spec fn directory_for(moment: Moment) -> Seq<char> {
    "backup-"@ + fixed_digits(moment.year as nat, 4) + fixed_digits(moment.month as nat, 2)
        + fixed_digits(moment.day as nat, 2) + "-"@ + fixed_digits(moment.hour as nat, 2)
        + fixed_digits(moment.minute as nat, 2) + fixed_digits(moment.second as nat, 2) + "Z"@
}

/// A directory name that sorts chronologically and never collides with the
/// last run. UTC rather than local time, because a backup taken across a
/// daylight-saving change should still sort after the one before it.
pub fn backup_directory_name(moment: &Moment) -> (name: String)
    requires
        moment.is_writable(),
    ensures
        name@ == directory_for(*moment),
{
    let mut name = "backup-".to_owned();
    name.append(fixed_text(moment.year, 4).as_str());
    name.append(fixed_text(moment.month, 2).as_str());
    name.append(fixed_text(moment.day, 2).as_str());
    name.append("-");
    name.append(fixed_text(moment.hour, 2).as_str());
    name.append(fixed_text(moment.minute, 2).as_str());
    name.append(fixed_text(moment.second, 2).as_str());
    name.append("Z");
    name
}

/// What to do about one service in a backup.
#[derive(Debug, Clone, PartialEq, Eq)]
pub enum DumpStep {
    /// Nothing to dump, and no failure either: the container is not running,
    /// or holds no database. The reason is said, because a backup that quietly
    /// leaves something out is the kind of gap nobody finds until they need
    /// the file.
    Skip(String),
    /// Find out which image the container runs.
    Inspect,
    /// Dump every database of this engine.
    Dump(Engine),
}

/// What a step says.
#[verifier::ext_equal]
pub enum DumpStepView {
    Skip(Seq<char>),
    Inspect,
    Dump(Engine),
}

impl View for DumpStep {
    type V = DumpStepView;

    open spec fn view(&self) -> DumpStepView {
        match self {
            DumpStep::Skip(reason) => DumpStepView::Skip(reason@),
            DumpStep::Inspect => DumpStepView::Inspect,
            DumpStep::Dump(engine) => DumpStepView::Dump(*engine),
        }
    }
}

/// What to do about a service, given its image where it is known.
pub open spec fn dump_step_for(service: ServiceStatusView, image: Option<Seq<char>>) -> DumpStepView {
    if service.state != ServiceState::Running {
        DumpStepView::Skip(service.service + " is not running"@)
    } else {
        match image {
            None => DumpStepView::Inspect,
            Some(image) => match engine_named(image_name(image)) {
                None => DumpStepView::Skip(service.service + " holds no database"@),
                Some(engine) => DumpStepView::Dump(engine),
            },
        }
    }
}

/// What an optional text holds.
pub open spec fn image_text(image: Option<&str>) -> Option<Seq<char>> {
    match image {
        Some(image) => Some(image@),
        None => None,
    }
}

/// Decides what to do about one service in a backup.
pub fn dump_step(service: &ServiceStatus, image: Option<&str>) -> (step: DumpStep)
    ensures
        step@ == dump_step_for(service@, image_text(image)),
{
    let running = match service.state {
        ServiceState::Running => true,
        _ => false,
    };
    if !running {
        let mut reason = service.service.clone();
        reason.append(" is not running");
        return DumpStep::Skip(reason);
    }
    match image {
        None => DumpStep::Inspect,
        Some(image) => match Engine::from_image(image) {
            None => {
                let mut reason = service.service.clone();
                reason.append(" holds no database");
                DumpStep::Skip(reason)
            },
            Some(engine) => DumpStep::Dump(engine),
        },
    }
}

/// The engine to dump from or to load into, or what is said of an image that
/// holds none.
pub open spec fn engine_in(container: Seq<char>, image: Seq<char>, loading: bool) -> Result<
    Engine,
    Seq<char>,
> {
    match engine_named(image_name(image)) {
        Some(engine) => Ok(engine),
        None => Err(
            container + " runs "@ + image + if loading {
                ", which is not a database this build knows how to load"@
            } else {
                ", which holds no database this build knows how to dump"@
            },
        ),
    }
}

/// Finds the engine to dump from or to load into.
pub fn engine_of(container: &str, image: &str, loading: bool) -> (engine: Result<Engine, String>)
    ensures
        match engine {
            Ok(engine) => engine_in(container@, image@, loading) == Ok::<Engine, Seq<char>>(engine),
            Err(reason) => engine_in(container@, image@, loading) == Err::<Engine, Seq<char>>(
                reason@,
            ),
        },
{
    match Engine::from_image(image) {
        Some(engine) => Ok(engine),
        None => {
            let mut reason = container.to_owned();
            reason.append(" runs ");
            reason.append(image);
            if loading {
                reason.append(", which is not a database this build knows how to load");
            } else {
                reason.append(", which holds no database this build knows how to dump");
            }
            Err(reason)
        },
    }
}

/// Why a command inside a container counts as failed, where it does.
pub open spec fn exit_problem(what: Seq<char>, exit_code: i32, stderr: Seq<char>) -> Option<
    Seq<char>,
> {
    if exit_code == 0 {
        None
    } else {
        Some(what + signed_decimal(exit_code as int) + ": "@ + trimmed(stderr))
    }
}

fn exit_text(what: &str, exit_code: i32, stderr: &str) -> (problem: Option<String>)
    ensures
        maybe_text(problem) == exit_problem(what@, exit_code, stderr@),
{
    if exit_code == 0 {
        return None;
    }
    let mut text = what.to_owned();
    text.append(signed_text(exit_code).as_str());
    text.append(": ");
    text.append(string_of(trim(chars_of(stderr).as_slice())).as_str());
    Some(text)
}

/// Why a dump counts as failed, where it does.
pub fn dump_problem(program: &str, exit_code: i32, stderr: &str) -> (problem: Option<String>)
    ensures
        maybe_text(problem) == exit_problem(
            program@ + " exited "@,
            exit_code,
            stderr@,
        ),
{
    let mut what = program.to_owned();
    what.append(" exited ");
    exit_text(what.as_str(), exit_code, stderr)
}

/// Why loading a dump counts as failed, where it does.
pub fn import_problem(exit_code: i32, stderr: &str) -> (problem: Option<String>)
    ensures
        maybe_text(problem) == exit_problem(
            "import failed, exit "@,
            exit_code,
            stderr@,
        ),
{
    exit_text("import failed, exit ", exit_code, stderr)
}

/// Why a dump is not written, where it is not: an existing file is left alone,
/// because it is somebody's backup.
pub fn overwrite_problem(path: &str, present: bool, force: bool) -> (problem: Option<String>)
    ensures
        match problem {
            Some(text) => present && !force && text@ == path@
                + " already exists; pass --force to replace it"@,
            None => !present || force,
        },
{
    if present && !force {
        let mut text = path.to_owned();
        text.append(" already exists; pass --force to replace it");
        Some(text)
    } else {
        None
    }
}

/// The name of the file a single database is dumped to.
pub fn export_name(database: &str, gzip: bool) -> (name: String)
    ensures
        name@ == database@ + (if gzip {
            ".sql.gz"@
        } else {
            ".sql"@
        }),
{
    let mut name = database.to_owned();
    if gzip {
        name.append(".sql.gz");
    } else {
        name.append(".sql");
    }
    name
}

/// The file a service's databases are dumped to.
pub fn backup_name(service: &str, engine: Engine, gzip: bool) -> (name: String)
    ensures
        name@ == service@ + (if engine == Engine::Mongo {
            ".archive"@
        } else {
            ".sql"@
        }) + (if gzip {
            ".gz"@
        } else {
            ""@
        }),
{
    let mut name = service.to_owned();
    match engine {
        Engine::Mongo => {
            name.append(".archive");
        },
        _ => {
            name.append(".sql");
        },
    }
    if gzip {
        name.append(".gz");
    } else {
        name.append("");
    }
    name
}

/// A name of its own per import, so two at once cannot read each other's file
/// and a leftover from a crash is recognisable.
pub fn import_name(stamp: u64) -> (name: String)
    ensures
        name@ == "adev-import-"@ + decimal(stamp as nat),
{
    let mut name = "adev-import-".to_owned();
    name.append(number_text(stamp).as_str());
    name
}

/// Whether a file name reads the same on every machine: letters, digits and
/// dashes, with no separator among them.
pub open spec fn is_plain_name(name: Seq<char>) -> bool {
    name.len() > 0 && forall|i: int|
        0 <= i < name.len() ==> is_letter(#[trigger] name[i]) || is_digit(name[i]) || name[i] == '-'
}

/// What the tar format makes of one file: an archive of it, or why there is
/// none.
pub uninterp spec fn tar_archive(name: Seq<char>, mode: u32, content: Seq<u8>) -> Result<
    Seq<u8>,
    Seq<char>,
>;

/// `tar::Builder::append_data` with a GNU header of this size and mode, and
/// `tar::Builder::into_inner`: an archive that holds one file. The bytes depend
/// on the name, the mode and the content alone; what they are is not stated.
#[verifier::external_body]
fn archive(name: &str, mode: u32, content: &[u8]) -> (bytes: Result<Vec<u8>, String>)
    requires
        is_plain_name(name@),
    ensures
        match bytes {
            Ok(bytes) => tar_archive(name@, mode, content@) == Ok::<Seq<u8>, Seq<char>>(bytes@),
            Err(reason) => tar_archive(name@, mode, content@) == Err::<Seq<u8>, Seq<char>>(reason@),
        },
{
    let mut builder = tar::Builder::new(Vec::new());
    let mut header = tar::Header::new_gnu();
    header.set_size(content.len() as u64);
    header.set_mode(mode);
    header.set_cksum();
    builder.append_data(&mut header, name, content).and_then(|()| builder.into_inner()).map_err(
        |error| error.to_string(),
    )
}

/// What packing a dump comes to.
pub open spec fn packed(archived: Result<Seq<u8>, Seq<char>>) -> Result<Seq<u8>, Seq<char>> {
    match archived {
        Ok(bytes) => Ok(bytes),
        Err(reason) => Err("could not package the dump: "@ + reason),
    }
}

/// Wraps a dump in a tar that only its owner may read, which is the only shape
/// the daemon accepts for putting a file into a container.
pub fn tar_bytes(name: &str, content: &[u8]) -> (bytes: Result<Vec<u8>, String>)
    requires
        is_plain_name(name@),
    ensures
        match bytes {
            Ok(bytes) => packed(tar_archive(name@, 0o600, content@)) == Ok::<Seq<u8>, Seq<char>>(
                bytes@,
            ),
            Err(reason) => packed(tar_archive(name@, 0o600, content@)) == Err::<
                Seq<u8>,
                Seq<char>,
            >(reason@),
        },
{
    match archive(name, 0o600, content) {
        Ok(bytes) => Ok(bytes),
        Err(reason) => {
            let mut text = "could not package the dump: ".to_owned();
            text.append(reason.as_str());
            Err(text)
        },
    }
}

/// The archive that puts a dump into a container under its import's name.
pub fn import_archive(stamp: u64, dump: &[u8]) -> (bytes: Result<Vec<u8>, String>)
    ensures
        match bytes {
            Ok(bytes) => packed(
                tar_archive("adev-import-"@ + decimal(stamp as nat), 0o600, dump@),
            ) == Ok::<Seq<u8>, Seq<char>>(bytes@),
            Err(reason) => packed(
                tar_archive("adev-import-"@ + decimal(stamp as nat), 0o600, dump@),
            ) == Err::<Seq<u8>, Seq<char>>(reason@),
        },
{
    let name = import_name(stamp);
    proof {
        let digits = decimal(stamp as nat);
        reveal_strlit("adev-import-");
        lemma_decimal_reads_back(stamp as nat, stamp as nat);
        assert forall|i: int| 0 <= i < name@.len() implies is_letter(#[trigger] name@[i])
            || is_digit(name@[i]) || name@[i] == '-' by {
            if i >= 12 {
                assert(name@[i] == digits[i - 12]);
            }
        }
    }
    tar_bytes(name.as_str(), dump)
}

/// The line about a dump that was written.
pub fn written_line(service: &str, path: &str, bytes: u64) -> (line: String)
    ensures
        line@ == service@ + " -> "@ + path@ + " ("@ + decimal(bytes as nat) + " bytes)"@,
{
    let mut line = service.to_owned();
    line.append(" -> ");
    line.append(path);
    line.append(" (");
    line.append(number_text(bytes).as_str());
    line.append(" bytes)");
    line
}

/// The line about a service whose dump failed. A half-written dump that looks
/// like a backup is worse than none, so its file is gone.
pub fn failed_line(service: &str, reason: &str) -> (line: String)
    ensures
        line@ == service@ + " failed, its file removed: "@ + reason@,
{
    let mut line = service.to_owned();
    line.append(" failed, its file removed: ");
    line.append(reason);
    line
}

proof fn lemma_fixed_digits_order(a: nat, b: nat, width: nat, x: Seq<char>, y: Seq<char>)
    ensures
        fixed_digits(a, width).len() == width,
        a == b ==> precedes(fixed_digits(a, width) + x, fixed_digits(b, width) + y) == precedes(
            x,
            y,
        ),
        a < b && b < pow10(width) ==> precedes(
            fixed_digits(a, width) + x,
            fixed_digits(b, width) + y,
        ),
    decreases width,
{
    if width == 0 {
        assert(fixed_digits(a, width) + x =~= x);
        assert(fixed_digits(b, width) + y =~= y);
    } else {
        let shorter = (width - 1) as nat;
        let da = seq![digit_char(a % 10)] + x;
        let db = seq![digit_char(b % 10)] + y;
        assert(fixed_digits(a, width) + x =~= fixed_digits(a / 10, shorter) + da);
        assert(fixed_digits(b, width) + y =~= fixed_digits(b / 10, shorter) + db);
        lemma_fixed_digits_order(a / 10, b / 10, shorter, da, db);
        assert(da[0] == digit_char(a % 10));
        assert(db[0] == digit_char(b % 10));
        assert(da.skip(1) =~= x);
        assert(db.skip(1) =~= y);
        if a < b && b < pow10(width) {
            if a / 10 == b / 10 {
                assert(a % 10 < b % 10);
                assert(digit_char(a % 10) < digit_char(b % 10));
                assert(precedes(da, db));
            } else {
                assert(b / 10 < pow10(shorter));
            }
        }
    }
}

/// Ten to a power.
pub open spec fn pow10(width: nat) -> nat
    decreases width,
{
    if width == 0 {
        1
    } else {
        10 * pow10((width - 1) as nat)
    }
}

proof fn lemma_same_front(front: Seq<char>, x: Seq<char>, y: Seq<char>)
    ensures
        precedes(front + x, front + y) == precedes(x, y),
    decreases front.len(),
{
    if front.len() == 0 {
        assert(front + x =~= x);
        assert(front + y =~= y);
    } else {
        assert((front + x)[0] == (front + y)[0]);
        assert((front + x).skip(1) =~= front.skip(1) + x);
        assert((front + y).skip(1) =~= front.skip(1) + y);
        lemma_same_front(front.skip(1), x, y);
    }
}

/// The names sort chronologically: an earlier moment's directory comes first.
pub proof fn law_directories_sort_by_time(one: Moment, other: Moment)
    requires
        one.is_writable(),
        other.is_writable(),
        one.before(other),
    ensures
        precedes(directory_for(one), directory_for(other)),
{
    reveal_with_fuel(pow10, 5);
    let (y1, y2) = (one.year as nat, other.year as nat);
    let (m1, m2) = (one.month as nat, other.month as nat);
    let (d1, d2) = (one.day as nat, other.day as nat);
    let (h1, h2) = (one.hour as nat, other.hour as nat);
    let (i1, i2) = (one.minute as nat, other.minute as nat);
    let (s1, s2) = (one.second as nat, other.second as nat);
    let (z, dash) = ("Z"@, "-"@);
    let (a5, b5) = (fixed_digits(s1, 2) + z, fixed_digits(s2, 2) + z);
    let (a4, b4) = (fixed_digits(i1, 2) + a5, fixed_digits(i2, 2) + b5);
    let (a3, b3) = (fixed_digits(h1, 2) + a4, fixed_digits(h2, 2) + b4);
    let (ad, bd) = (dash + a3, dash + b3);
    let (a2, b2) = (fixed_digits(d1, 2) + ad, fixed_digits(d2, 2) + bd);
    let (a1, b1) = (fixed_digits(m1, 2) + a2, fixed_digits(m2, 2) + b2);
    let (a0, b0) = (fixed_digits(y1, 4) + a1, fixed_digits(y2, 4) + b1);
    assert(directory_for(one) =~= "backup-"@ + a0);
    assert(directory_for(other) =~= "backup-"@ + b0);
    lemma_same_front("backup-"@, a0, b0);
    lemma_fixed_digits_order(y1, y2, 4, a1, b1);
    lemma_fixed_digits_order(m1, m2, 2, a2, b2);
    lemma_fixed_digits_order(d1, d2, 2, ad, bd);
    lemma_same_front(dash, a3, b3);
    lemma_fixed_digits_order(h1, h2, 2, a4, b4);
    lemma_fixed_digits_order(i1, i2, 2, a5, b5);
    lemma_fixed_digits_order(s1, s2, 2, z, z);
}

/// A number of so many digits has that many, and reads back.
pub proof fn law_fixed_digits_read_back(n: nat, width: nat)
    requires
        n < pow10(width),
    ensures
        fixed_digits(n, width).len() == width,
        all_digits(fixed_digits(n, width)),
        digits_value(fixed_digits(n, width)) == n,
    decreases width,
{
    if width > 0 {
        let shorter = (width - 1) as nat;
        law_fixed_digits_read_back(n / 10, shorter);
        let digits = fixed_digits(n, width);
        assert(digits.drop_last() =~= fixed_digits(n / 10, shorter));
        assert(digits.last() == digit_char(n % 10));
        assert forall|i: int| 0 <= i < digits.len() implies is_digit(#[trigger] digits[i]) by {
            if i < digits.len() - 1 {
                assert(digits[i] == digits.drop_last()[i]);
            }
        }
    }
}

/// A directory's name writes the date, a dash and the time, each part with all
/// its digits, so that the moment can be read back from it.
#[verifier::rlimit(40)]
pub proof fn law_a_directory_names_its_moment(moment: Moment)
    requires
        moment.is_writable(),
    ensures
        ({
            let name = directory_for(moment);
            &&& name.len() == 23
            &&& name.take(7) == "backup-"@
            &&& digits_value(name.subrange(7, 11)) == moment.year
            &&& digits_value(name.subrange(11, 13)) == moment.month
            &&& digits_value(name.subrange(13, 15)) == moment.day
            &&& name[15] == '-'
            &&& digits_value(name.subrange(16, 18)) == moment.hour
            &&& digits_value(name.subrange(18, 20)) == moment.minute
            &&& digits_value(name.subrange(20, 22)) == moment.second
            &&& name[22] == 'Z'
        }),
{
    reveal_with_fuel(pow10, 5);
    reveal_strlit("backup-");
    reveal_strlit("-");
    reveal_strlit("Z");
    law_fixed_digits_read_back(moment.year as nat, 4);
    law_fixed_digits_read_back(moment.month as nat, 2);
    law_fixed_digits_read_back(moment.day as nat, 2);
    law_fixed_digits_read_back(moment.hour as nat, 2);
    law_fixed_digits_read_back(moment.minute as nat, 2);
    law_fixed_digits_read_back(moment.second as nat, 2);
    let name = directory_for(moment);
    assert(name.take(7) =~= "backup-"@);
    assert(name.subrange(7, 11) =~= fixed_digits(moment.year as nat, 4));
    assert(name.subrange(11, 13) =~= fixed_digits(moment.month as nat, 2));
    assert(name.subrange(13, 15) =~= fixed_digits(moment.day as nat, 2));
    assert(name.subrange(16, 18) =~= fixed_digits(moment.hour as nat, 2));
    assert(name.subrange(18, 20) =~= fixed_digits(moment.minute as nat, 2));
    assert(name.subrange(20, 22) =~= fixed_digits(moment.second as nat, 2));
}

/// A backup leaves out what does not run and what holds no database, and says
/// so; of everything else the image is asked for, and then it is dumped.
pub proof fn law_a_backup_says_what_it_leaves_out(
    service: ServiceStatusView,
    image: Seq<char>,
    engine: Engine,
)
    ensures
        !(service.state is Running) ==> dump_step_for(service, None) == DumpStepView::Skip(
            service.service + " is not running"@,
        ) && dump_step_for(service, Some(image)) == dump_step_for(service, None),
        service.state is Running ==> {
            &&& dump_step_for(service, None) is Inspect
            &&& engine_named(image_name(image)) == Some(engine) ==> dump_step_for(
                service,
                Some(image),
            ) == DumpStepView::Dump(engine)
            &&& engine_named(image_name(image)) is None ==> dump_step_for(service, Some(image))
                == DumpStepView::Skip(service.service + " holds no database"@)
        },
{
}

/// A command that ended with zero has no problem, and any other number is one;
/// it is told with the number and what the command complained of.
pub proof fn law_only_zero_is_no_problem(what: Seq<char>, exit_code: i32, stderr: Seq<char>)
    ensures
        exit_problem(what, exit_code, stderr) is None <==> exit_code == 0,
        exit_code > 0 ==> exit_problem(what, exit_code, stderr) == Some(
            what + decimal(exit_code as nat) + ": "@ + trimmed(stderr),
        ),
{
}

/// A container is loaded or dumped by the engine its image names, or refused
/// with both names.
pub proof fn law_an_unknown_image_is_refused_by_name(
    container: Seq<char>,
    image: Seq<char>,
    loading: bool,
)
    ensures
        match engine_named(image_name(image)) {
            Some(engine) => engine_in(container, image, loading) == Ok::<Engine, Seq<char>>(engine),
            None => engine_in(container, image, loading) matches Err(reason) && begins_with(
                reason,
                container + " runs "@ + image,
            ),
        },
{
    if let Err(reason) = engine_in(container, image, loading) {
        let front = container + " runs "@ + image;
        assert(reason.take(front.len() as int) =~= front);
    }
}

} // verus!
