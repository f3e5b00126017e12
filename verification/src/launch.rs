//! What a project is started with: which configuration is read, which project
//! a name means, which shell is opened, and what a child's end is worth.

use crate::domain::{Project, ProjectView};
use crate::lifecycle::{local_address, local_url};
use crate::platform::Platform;
use crate::recipe::{plan_for, plan_of, RunOverride};
use crate::text::{
    chars_of, copy_maybe, debug_text, is_white, law_only_blank_texts_trim_to_nothing,
    lemma_views_push, maybe_text, parts_of, quoted, same, trim, trimmed, views,
};
use vstd::prelude::*;
use vstd::string::*;

verus! {

/// A file and whether it is there.
#[derive(Debug, Clone, PartialEq, Eq)]
pub struct Place {
    pub path: String,
    pub present: bool,
}

impl View for Place {
    type V = (Seq<char>, bool);

    open spec fn view(&self) -> (Seq<char>, bool) {
        (self.path@, self.present)
    }
}

/// The first place that is there.
pub open spec fn first_present(places: Seq<(Seq<char>, bool)>) -> Option<Seq<char>>
    decreases places.len(),
{
    if places.len() == 0 {
        None
    } else if places[0].1 {
        Some(places[0].0)
    } else {
        first_present(places.drop_first())
    }
}

/// The configuration that is read: the one named, else the nearest, else the
/// machine's own.
pub open spec fn chosen_config(
    named: Option<Seq<char>>,
    nearest: Seq<(Seq<char>, bool)>,
    machine: Option<(Seq<char>, bool)>,
) -> Option<Seq<char>> {
    match named {
        Some(path) => Some(path),
        None => match first_present(nearest) {
            Some(path) => Some(path),
            None => match machine {
                Some((path, true)) => Some(path),
                _ => None,
            },
        },
    }
}

/// What the machine's own place says.
pub open spec fn maybe_place(place: Option<Place>) -> Option<(Seq<char>, bool)> {
    match place {
        Some(place) => Some(place@),
        None => None,
    }
}

/// Named on the command line, else the nearest file, else this machine's own.
/// Having to name it every time is the kind of friction that stops a tool being
/// used at all. The places are those of the working directory and its parents,
/// nearest first.
pub fn discover(named: &Option<String>, nearest: &[Place], machine: &Option<Place>) -> (chosen:
    Option<String>)
    ensures
        maybe_text(chosen) == chosen_config(
            maybe_text(*named),
            views(nearest@),
            maybe_place(*machine),
        ),
{
    if let Some(path) = named {
        return Some(path.clone());
    }
    let ghost all = views(nearest@);
    assert(all.skip(0) =~= all);
    let mut i: usize = 0;
    while i < nearest.len()
        invariant
            i <= nearest@.len(),
            all == views(nearest@),
            named is None,
            first_present(all) == first_present(all.skip(i as int)),
        decreases nearest@.len() - i,
    {
        assert(all.skip(i as int)[0] == nearest@[i as int]@);
        assert(all.skip(i as int).drop_first() =~= all.skip(i + 1));
        if nearest[i].present {
            return Some(nearest[i].path.clone());
        }
        i = i + 1;
    }
    match machine {
        Some(place) => if place.present {
            Some(place.path.clone())
        } else {
            None
        },
        None => None,
    }
}

/// The directory the machine's own configuration lives under: the first of the
/// three that is set, and for a home directory what is hidden in it.
pub enum Base {
    Directory(String),
    InHome(String),
}

/// What a base says.
#[verifier::ext_equal]
pub enum BaseView {
    Directory(Seq<char>),
    InHome(Seq<char>),
}

impl View for Base {
    type V = BaseView;

    open spec fn view(&self) -> BaseView {
        match self {
            Base::Directory(path) => BaseView::Directory(path@),
            Base::InHome(path) => BaseView::InHome(path@),
        }
    }
}

/// The first of the three that is set.
pub open spec fn base_of(
    app_data: Option<Seq<char>>,
    xdg: Option<Seq<char>>,
    home: Option<Seq<char>>,
) -> Option<BaseView> {
    match app_data {
        Some(path) => Some(BaseView::Directory(path)),
        None => match xdg {
            Some(path) => Some(BaseView::Directory(path)),
            None => match home {
                Some(path) => Some(BaseView::InHome(path)),
                None => None,
            },
        },
    }
}

/// Where this machine keeps its own configuration, when nothing nearer exists.
pub fn machine_base(app_data: &Option<String>, xdg: &Option<String>, home: &Option<String>) -> (base:
    Option<Base>)
    ensures
        (match base {
            Some(base) => Some(base@),
            None => None,
        }) == base_of(maybe_text(*app_data), maybe_text(*xdg), maybe_text(*home)),
{
    match app_data {
        Some(path) => Some(Base::Directory(path.clone())),
        None => match xdg {
            Some(path) => Some(Base::Directory(path.clone())),
            None => match home {
                Some(path) => Some(Base::InHome(path.clone())),
                None => None,
            },
        },
    }
}

/// The first project with a name.
pub open spec fn project_called(projects: Seq<ProjectView>, wanted: Seq<char>) -> Option<
    ProjectView,
>
    decreases projects.len(),
{
    if projects.len() == 0 {
        None
    } else if projects[0].name == wanted {
        Some(projects[0])
    } else {
        project_called(projects.drop_first(), wanted)
    }
}

/// Finds a project by name among those a scan found: its name and path, or
/// what is said where nothing has that name.
pub fn locate_project(projects: &[Project], wanted: &str) -> (found: Result<
    (String, String),
    String,
>)
    ensures
        match found {
            Ok((name, path)) => project_called(views(projects@), wanted@) matches Some(project)
                && name@ == project.name && path@ == project.path,
            Err(reason) => project_called(views(projects@), wanted@) is None && reason@
                == "no project called "@ + debug_text(wanted@) + " under the configured roots"@,
        },
{
    let ghost all = views(projects@);
    assert(all.skip(0) =~= all);
    let mut i: usize = 0;
    while i < projects.len()
        invariant
            i <= projects@.len(),
            all == views(projects@),
            project_called(all, wanted@) == project_called(all.skip(i as int), wanted@),
        decreases projects@.len() - i,
    {
        assert(all.skip(i as int)[0] == projects@[i as int]@);
        assert(all.skip(i as int).drop_first() =~= all.skip(i + 1));
        if same(projects[i].name.as_str(), wanted) {
            return Ok((projects[i].name.clone(), projects[i].path.clone()));
        }
        i = i + 1;
    }
    let mut reason = "no project called ".to_owned();
    reason.append(quoted(wanted).as_str());
    reason.append(" under the configured roots");
    Err(reason)
}

/// The address a project would serve on, worked out from its recipe.
pub fn project_url(
    project: &str,
    present: &[&str],
    by_recipe: &[(String, RunOverride)],
    by_project: &[(String, RunOverride)],
) -> (url: Option<String>)
    ensures
        maybe_text(url) == match plan_of(
            project@,
            parts_of(present@),
            views(by_recipe@),
            views(by_project@),
        ) {
            Some(plan) => match plan.port {
                Some(port) => Some(local_address(port)),
                None => None,
            },
            None => None,
        },
{
    match plan_for(project, present, by_recipe, by_project) {
        Some(plan) => match plan.port {
            Some(port) => Some(local_url(port)),
            None => None,
        },
        None => None,
    }
}

/// The program that is started: the one named, else what the environment says,
/// unless that is blank.
pub open spec fn program_of(
    named: Option<Seq<char>>,
    usual: Option<Seq<char>>,
    fallback: Option<Seq<char>>,
) -> Option<Seq<char>> {
    match named {
        Some(program) => Some(program),
        None => {
            let said = match usual {
                Some(program) => Some(program),
                None => fallback,
            };
            match said {
                Some(program) => if trimmed(program).len() == 0 {
                    None
                } else {
                    Some(program)
                },
                None => None,
            }
        },
    }
}

/// Which shell or editor to start. Without one named, a shell is what SHELL
/// says, or ComSpec on Windows; an editor is what VISUAL says, or EDITOR.
pub fn choose_program(
    named: &Option<String>,
    usual: &Option<String>,
    fallback: &Option<String>,
) -> (program: Option<String>)
    ensures
        maybe_text(program) == program_of(
            maybe_text(*named),
            maybe_text(*usual),
            maybe_text(*fallback),
        ),
{
    if let Some(program) = named {
        return Some(program.clone());
    }
    let said = match usual {
        Some(program) => Some(program.clone()),
        None => copy_maybe(fallback),
    };
    match said {
        Some(program) => {
            let chars = chars_of(program.as_str());
            if trim(chars.as_slice()).len() == 0 {
                None
            } else {
                Some(program)
            }
        },
        None => None,
    }
}

/// A place a toolchain is commonly installed: where it is, whether that is
/// below the home directory, and the program to look for in it.
#[derive(Debug, Clone, Copy, PartialEq, Eq)]
pub struct LikelyToolchain {
    pub tool: &'static str,
    pub in_home: bool,
    pub path: &'static str,
    pub binary: &'static str,
}

impl View for LikelyToolchain {
    type V = (Seq<char>, bool, Seq<char>, Seq<char>);

    open spec fn view(&self) -> (Seq<char>, bool, Seq<char>, Seq<char>) {
        (self.tool@, self.in_home, self.path@, self.binary@)
    }
}

/// The places looked at on a platform.
pub open spec fn likely_on(platform: Platform) -> Seq<(Seq<char>, bool, Seq<char>, Seq<char>)> {
    if platform == Platform::Windows {
        seq![
            ("php"@, false, "C:/ProgramData/php"@, "php.exe"@),
            ("php"@, false, "C:/laragon/bin/php"@, "php.exe"@),
            ("php"@, false, "C:/ProgramData/laragon/bin/php"@, "php.exe"@),
            ("node"@, true, "AppData/Local/nvm"@, "node.exe"@),
        ]
    } else {
        seq![
            ("node"@, true, ".nvm/versions/node"@, "node"@),
            ("php"@, false, "/usr/local/opt"@, "php"@),
        ]
    }
}

fn likely(tool: &'static str, in_home: bool, path: &'static str, binary: &'static str) -> (place:
    LikelyToolchain)
    ensures
        place@ == (tool@, in_home, path@, binary@),
{
    LikelyToolchain { tool, in_home, path, binary }
}

/// The places a toolchain is commonly installed on a platform. Used only to
/// decide what to look at: a directory that turns out to hold nothing is left
/// out of what gets written.
pub fn likely_toolchains(platform: Platform) -> (places: Vec<LikelyToolchain>)
    ensures
        views(places@) == likely_on(platform),
{
    broadcast use lemma_views_push;

    let mut places: Vec<LikelyToolchain> = Vec::new();
    if platform == Platform::Windows {
        places.push(likely("php", false, "C:/ProgramData/php", "php.exe"));
        places.push(likely("php", false, "C:/laragon/bin/php", "php.exe"));
        places.push(likely("php", false, "C:/ProgramData/laragon/bin/php", "php.exe"));
        places.push(likely("node", true, "AppData/Local/nvm", "node.exe"));
    } else {
        places.push(likely("node", true, ".nvm/versions/node", "node"));
        places.push(likely("php", false, "/usr/local/opt", "php"));
    }
    assert(views(places@) =~= likely_on(platform));
    places
}

/// What a child's end is worth to whoever waits for this one: its own code,
/// passed through rather than replaced, as far as a byte can hold it. One that
/// was ended by a signal has none and counts as a failure.
pub fn exit_byte(code: Option<i32>) -> (byte: u8)
    ensures
        byte as int == (match code {
            Some(code) => code as int,
            None => 1,
        }) % 256,
{
    match code {
        Some(code) => {
            let low = (code & 0xff) as u8;
            assert(low as int == code % 256) by {
                assert((code & 0xff) as u8 == code % 256) by (bit_vector);
            }
            low
        },
        None => 1,
    }
}

/// What is named wins: a file named on the command line is read whatever else
/// is there.
pub proof fn law_a_named_file_wins(
    path: Seq<char>,
    nearest: Seq<(Seq<char>, bool)>,
    machine: Option<(Seq<char>, bool)>,
)
    ensures
        chosen_config(Some(path), nearest, machine) == Some(path),
{
}

/// One project can override the configuration above it: the nearest file wins
/// over every one further up and over the machine's own.
pub proof fn law_the_nearest_file_wins(
    nearest: Seq<(Seq<char>, bool)>,
    machine: Option<(Seq<char>, bool)>,
    at: int,
)
    requires
        0 <= at < nearest.len(),
        nearest[at].1,
        forall|i: int| 0 <= i < at ==> !(#[trigger] nearest[i]).1,
    ensures
        chosen_config(None, nearest, machine) == Some(nearest[at].0),
    decreases at,
{
    if at > 0 {
        assert(!nearest[0].1);
        let rest = nearest.drop_first();
        assert forall|i: int| 0 <= i < at - 1 implies !(#[trigger] rest[i]).1 by {
            assert(rest[i] == nearest[i + 1]);
        }
        assert(rest[at - 1] == nearest[at]);
        law_the_nearest_file_wins(rest, machine, at - 1);
    }
}

/// The machine's own file is the last to be looked for, and counts where it is
/// there; where nothing is there, nothing is chosen.
pub proof fn law_the_machine_s_file_is_last(
    nearest: Seq<(Seq<char>, bool)>,
    path: Seq<char>,
    present: bool,
)
    requires
        forall|i: int| 0 <= i < nearest.len() ==> !(#[trigger] nearest[i]).1,
    ensures
        chosen_config(None, nearest, Some((path, present))) == (if present {
            Some(path)
        } else {
            None
        }),
        chosen_config(None, nearest, None) is None,
    decreases nearest.len(),
{
    if nearest.len() > 0 {
        let rest = nearest.drop_first();
        assert forall|i: int| 0 <= i < rest.len() implies !(#[trigger] rest[i]).1 by {
            assert(rest[i] == nearest[i + 1]);
        }
        law_the_machine_s_file_is_last(rest, path, present);
        assert(!nearest[0].1);
    }
}

/// The machine's own file lies where the system keeps such files: the application
/// data before the XDG directory, and the home directory last.
pub proof fn law_where_the_machine_s_file_lies(
    app_data: Option<Seq<char>>,
    xdg: Option<Seq<char>>,
    home: Option<Seq<char>>,
    path: Seq<char>,
)
    ensures
        base_of(Some(path), xdg, home) == Some(BaseView::Directory(path)),
        base_of(None, Some(path), home) == Some(BaseView::Directory(path)),
        base_of(None, None, Some(path)) == Some(BaseView::InHome(path)),
        base_of(app_data, xdg, home) is None <==> app_data is None && xdg is None && home is None,
{
}

/// A project is found by its whole name, the first of that name.
pub proof fn law_a_project_is_found_by_its_name(projects: Seq<ProjectView>, wanted: Seq<char>)
    ensures
        match project_called(projects, wanted) {
            Some(project) => exists|i: int|
                0 <= i < projects.len() && #[trigger] projects[i] == project && project.name
                    == wanted && forall|j: int|
                    0 <= j < i ==> (#[trigger] projects[j]).name != wanted,
            None => forall|i: int|
                0 <= i < projects.len() ==> (#[trigger] projects[i]).name != wanted,
        },
    decreases projects.len(),
{
    if projects.len() > 0 && projects[0].name != wanted {
        let rest = projects.drop_first();
        law_a_project_is_found_by_its_name(rest, wanted);
        assert forall|i: int| 0 <= i < rest.len() implies #[trigger] rest[i] == projects[i + 1] by {}
        match project_called(rest, wanted) {
            Some(project) => {
                let i = choose|i: int|
                    0 <= i < rest.len() && #[trigger] rest[i] == project && project.name == wanted
                        && forall|j: int| 0 <= j < i ==> (#[trigger] rest[j]).name != wanted;
                assert(projects[i + 1] == project);
                assert forall|j: int| 0 <= j < i + 1 implies (#[trigger] projects[j]).name
                    != wanted by {
                    if j > 0 {
                        assert(projects[j] == rest[j - 1]);
                    }
                }
            },
            None => {
                assert forall|i: int| 0 <= i < projects.len() implies (#[trigger] projects[i]).name
                    != wanted by {
                    if i > 0 {
                        assert(projects[i] == rest[i - 1]);
                    }
                }
            },
        }
    } else if projects.len() > 0 {
        assert(projects[0] == project_called(projects, wanted)->0);
    }
}

/// A program that is named is taken as it is; else the usual one, else the
/// fallback, where it is not blank.
pub proof fn law_a_named_program_is_taken(
    named: Seq<char>,
    usual: Option<Seq<char>>,
    fallback: Option<Seq<char>>,
    program: Seq<char>,
)
    ensures
        program_of(Some(named), usual, fallback) == Some(named),
        (exists|i: int| 0 <= i < program.len() && !is_white(#[trigger] program[i])) ==> program_of(
            None,
            Some(program),
            fallback,
        ) == Some(program) && program_of(None, None, Some(program)) == Some(program),
        (forall|i: int| 0 <= i < program.len() ==> is_white(#[trigger] program[i])) ==> program_of(
            None,
            Some(program),
            fallback,
        ) is None && program_of(None, None, Some(program)) is None,
        program_of(None, None, None) is None,
{
    law_only_blank_texts_trim_to_nothing(program);
}

/// Where the usual installations lie on a platform.
pub proof fn law_where_tools_are_likely_to_lie(platform: Platform)
    ensures
        platform is Windows ==> likely_on(platform) == seq![
            ("php"@, false, "C:/ProgramData/php"@, "php.exe"@),
            ("php"@, false, "C:/laragon/bin/php"@, "php.exe"@),
            ("php"@, false, "C:/ProgramData/laragon/bin/php"@, "php.exe"@),
            ("node"@, true, "AppData/Local/nvm"@, "node.exe"@),
        ],
        !(platform is Windows) ==> likely_on(platform) == seq![
            ("node"@, true, ".nvm/versions/node"@, "node"@),
            ("php"@, false, "/usr/local/opt"@, "php"@),
        ],
{
}

} // verus!
