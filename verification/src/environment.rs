//! Which toolchain versions a project runs with.

use crate::config::TextEntries;
use crate::entries::{entry_of, find_entry};
use crate::json::{json_document, text_fields_member, JsonView};
use crate::lifecycle::{local_address, local_url};
use crate::order::{
    in_order, law_sorting_orders_and_keeps, lemma_in_order_contains, lemma_not_after_orders,
    precedes, sort, text_precedes, Ranked,
};
use crate::recipe::{RunPlan, RunPlanView};
use crate::table::{pad, padded};
use crate::text::{has_part, lemma_views_push, maybe_text, parts_of, same, views};
use crate::toolchain::{
    asked_for, asked_text, may_run_with, picked, readable, resolution_of, resolve, wanted_in,
    wanted_node, wanted_php, Installed, InstalledView, Reason, Resolution, ResolutionView,
};
use vstd::prelude::*;
use vstd::string::*;

verus! {

/// Why a version was chosen, or why none was, in words.
pub open spec fn why_text(reason: Reason) -> Seq<char> {
    match reason {
        Reason::Pinned => "pinned in config"@,
        Reason::Declared => "asked for by the project"@,
        Reason::Newest => "newest installed; the project asks for nothing"@,
        Reason::NothingSatisfies => "NOTHING INSTALLED SATISFIES THIS"@,
        Reason::NoneInstalled => "NO VERSION OF THIS TOOL WAS FOUND"@,
    }
}

/// Why a version was chosen, or why none was, in words.
pub fn why(reason: Reason) -> (text: &'static str)
    ensures
        text@ == why_text(reason),
{
    match reason {
        Reason::Pinned => "pinned in config",
        Reason::Declared => "asked for by the project",
        Reason::Newest => "newest installed; the project asks for nothing",
        Reason::NothingSatisfies => "NOTHING INSTALLED SATISFIES THIS",
        Reason::NoneInstalled => "NO VERSION OF THIS TOOL WAS FOUND",
    }
}

/// The manifest a tool reads.
pub open spec fn manifest_of(tool: Seq<char>) -> Option<Seq<char>> {
    if tool == "php"@ {
        Some("composer.json"@)
    } else if tool == "node"@ {
        Some("package.json"@)
    } else if tool == "go"@ {
        Some("go.mod"@)
    } else if tool == "rust"@ {
        Some("Cargo.toml"@)
    } else if tool == "python"@ {
        Some("pyproject.toml"@)
    } else {
        None
    }
}

/// Whether a project carries the manifest a tool reads.
pub open spec fn applies(tool: Seq<char>, present: Seq<Seq<char>>) -> bool {
    manifest_of(tool) matches Some(manifest) && present.contains(manifest)
}

fn carries_manifest(tool: &str, present: &[&str]) -> (carries: bool)
    ensures
        carries == applies(tool@, parts_of(present@)),
{
    let manifest: &str = if same(tool, "php") {
        "composer.json"
    } else if same(tool, "node") {
        "package.json"
    } else if same(tool, "go") {
        "go.mod"
    } else if same(tool, "rust") {
        "Cargo.toml"
    } else if same(tool, "python") {
        "pyproject.toml"
    } else {
        return false;
    };
    has_part(present, manifest)
}

/// A tool and the version a project runs it with.
#[derive(Debug, Clone)]
pub struct ToolChoice {
    pub tool: String,
    pub resolution: Resolution,
}

/// What a choice says.
#[verifier::ext_equal]
pub struct ToolChoiceView {
    pub tool: Seq<char>,
    pub resolution: ResolutionView,
}

impl View for ToolChoice {
    type V = ToolChoiceView;

    open spec fn view(&self) -> ToolChoiceView {
        ToolChoiceView { tool: self.tool@, resolution: self.resolution@ }
    }
}

impl Ranked for ToolChoice {
    open spec fn ranks(a: ToolChoiceView, b: ToolChoiceView) -> bool {
        !precedes(b.tool, a.tool)
    }

    proof fn ranks_totally(a: ToolChoiceView, b: ToolChoiceView, c: ToolChoiceView) {
        lemma_not_after_orders(a.tool, b.tool, c.tool);
    }

    fn not_after(&self, other: &Self) -> bool {
        !text_precedes(other.tool.as_str(), self.tool.as_str())
    }
}

/// A tool that is configured, what is installed of it, and what the project
/// says about it.
#[derive(Debug)]
pub struct Tool {
    pub name: String,
    pub installed: Vec<Installed>,
    pub pinned: Option<String>,
    pub declared: Option<String>,
}

/// What is known of a tool.
#[verifier::ext_equal]
pub struct ToolView {
    pub name: Seq<char>,
    pub installed: Seq<InstalledView>,
    pub pinned: Option<Seq<char>>,
    pub declared: Option<Seq<char>>,
}

impl View for Tool {
    type V = ToolView;

    open spec fn view(&self) -> ToolView {
        ToolView {
            name: self.name@,
            installed: views(self.installed@),
            pinned: maybe_text(self.pinned),
            declared: maybe_text(self.declared),
        }
    }
}

/// Whether a tool is considered at all: the project was pinned to a version of
/// it, or carries the manifest it reads.
pub open spec fn considered(tool: ToolView, present: Seq<Seq<char>>) -> bool {
    tool.pinned is Some || applies(tool.name, present)
}

/// The version a project runs a tool with.
pub open spec fn choice_for(tool: ToolView) -> ToolChoiceView {
    ToolChoiceView {
        tool: tool.name,
        resolution: resolution_of(
            tool.installed,
            tool.pinned,
            tool.declared,
            may_run_with(tool.installed, asked_for(tool.pinned, tool.declared)),
        ),
    }
}

/// The versions of the tools that are considered.
pub open spec fn choices_of(tools: Seq<ToolView>, present: Seq<Seq<char>>) -> Seq<ToolChoiceView>
    decreases tools.len(),
{
    if tools.len() == 0 {
        seq![]
    } else {
        let before = choices_of(tools.drop_last(), present);
        if considered(tools.last(), present) {
            before.push(choice_for(tools.last()))
        } else {
            before
        }
    }
}

/// The versions a project runs with, by tool.
pub open spec fn toolchains_of(tools: Seq<ToolView>, present: Seq<Seq<char>>) -> Seq<ToolChoiceView> {
    in_order::<ToolChoice>(choices_of(tools, present))
}

fn as_str_option(text: &Option<String>) -> (borrowed: Option<&str>)
    ensures
        asked_text(borrowed) == maybe_text(*text),
{
    match text {
        Some(text) => Some(text.as_str()),
        None => None,
    }
}

/// Works out which version of each configured tool a project should use.
///
/// A tool is considered when the project was pinned to a version of it, or
/// when the project carries the manifest that tool reads. Everything else is
/// left alone: putting a Node on PATH for a project that never mentions Node
/// would be this tool deciding something nobody asked it to.
pub fn toolchains_for(tools: &[Tool], present: &[&str]) -> (choices: Vec<ToolChoice>)
    ensures
        views(choices@) == toolchains_of(views(tools@), parts_of(present@)),
{
    broadcast use lemma_views_push;

    let ghost all = views(tools@);
    let mut choices: Vec<ToolChoice> = Vec::new();
    let mut i: usize = 0;
    assert(all.take(0) =~= seq![]);
    assert(views(choices@) =~= seq![]);
    while i < tools.len()
        invariant
            i <= tools@.len(),
            all == views(tools@),
            views(choices@) == choices_of(all.take(i as int), parts_of(present@)),
        decreases tools@.len() - i,
    {
        assert(all.take(i + 1).drop_last() =~= all.take(i as int));
        assert(all.take(i + 1).last() == tools@[i as int]@);
        let tool = &tools[i];
        if tool.pinned.is_some() || carries_manifest(tool.name.as_str(), present) {
            let resolution = resolve(
                tool.installed.as_slice(),
                as_str_option(&tool.pinned),
                as_str_option(&tool.declared),
            );
            choices.push(ToolChoice { tool: tool.name.clone(), resolution });
        }
        i = i + 1;
    }
    assert(all.take(i as int) =~= all);
    sort(choices)
}

/// What a project declares of a tool: PHP in `composer.json`, Node in
/// `package.json`. Nothing else has a manifest a version is read out of, so the
/// choice falls to a pin or to the newest installed.
pub open spec fn declares(
    tool: Seq<char>,
    composer: Option<Seq<char>>,
    package: Option<Seq<char>>,
) -> Option<Seq<char>> {
    if tool == "php"@ {
        match composer {
            Some(text) => wanted_in(readable(json_document(text)), "require"@, "php"@),
            None => None,
        }
    } else if tool == "node"@ {
        match package {
            Some(text) => wanted_in(readable(json_document(text)), "engines"@, "node"@),
            None => None,
        }
    } else {
        None
    }
}

/// Reads what a project declares of a tool.
pub fn declared_version(tool: &str, composer: &Option<String>, package: &Option<String>) -> (
    constraint: Option<String>)
    ensures
        maybe_text(constraint) == declares(tool@, maybe_text(*composer), maybe_text(*package)),
{
    if same(tool, "php") {
        match composer {
            Some(text) => wanted_php(text.as_str()),
            None => None,
        }
    } else if same(tool, "node") {
        match package {
            Some(text) => wanted_node(text.as_str()),
            None => None,
        }
    } else {
        None
    }
}

/// The version a project is pinned to.
pub open spec fn pin_of(
    pins: Seq<(Seq<char>, Seq<(Seq<char>, Seq<char>)>)>,
    project: Seq<char>,
    tool: Seq<char>,
) -> Option<Seq<char>> {
    match entry_of(pins, project) {
        Some(entries) => entry_of(entries, tool),
        None => None,
    }
}

/// The version a project is pinned to, if it is.
pub fn pinned_version(pins: &[(String, TextEntries)], project: &str, tool: &str) -> (pin: Option<
    String,
>)
    ensures
        maybe_text(pin) == pin_of(views(pins@), project@, tool@),
{
    match find_entry(pins, project) {
        Some(entries) => match entries.get(tool) {
            Some(pin) => Some(pin.clone()),
            None => None,
        },
        None => None,
    }
}

/// What was asked for, in brackets.
pub open spec fn constraint_text(resolution: ResolutionView) -> Seq<char> {
    " ("@ + (match resolution.constraint {
        Some(constraint) => constraint,
        None => "no constraint"@,
    }) + ")"@
}

/// What a resolution was asked for, in brackets.
pub fn constraint_of(resolution: &Resolution) -> (text: String)
    ensures
        text@ == constraint_text(resolution@),
{
    let mut text = " (".to_owned();
    match &resolution.constraint {
        Some(constraint) => {
            text.append(constraint.as_str());
        },
        None => {
            text.append("no constraint");
        },
    }
    text.append(")");
    text
}

/// The lines about one tool.
pub open spec fn tool_lines(choice: ToolChoiceView) -> Seq<Seq<char>> {
    let start = "  "@ + padded(choice.tool, 8) + " "@;
    let reason = why_text(choice.resolution.reason);
    match choice.resolution.chosen {
        Some(chosen) => seq![
            start + padded(chosen.version.text(), 24) + " "@ + reason,
            "           "@ + chosen.path,
        ],
        None => seq![
            start + padded("-"@, 24) + " "@ + reason + constraint_text(choice.resolution),
        ],
    }
}

/// The lines about the tools.
pub open spec fn all_tool_lines(choices: Seq<ToolChoiceView>) -> Seq<Seq<char>>
    decreases choices.len(),
{
    if choices.len() == 0 {
        seq![]
    } else {
        all_tool_lines(choices.drop_last()) + tool_lines(choices.last())
    }
}

/// The lines that say which versions a project resolves to, and why.
pub open spec fn env_text(name: Seq<char>, path: Seq<char>, choices: Seq<ToolChoiceView>) -> Seq<
    Seq<char>,
> {
    if choices.len() == 0 {
        seq![
            name
                + " resolves no toolchain. Either nothing is configured under [toolchain], or this project names none."@,
        ]
    } else {
        seq![name + "  "@ + path] + all_tool_lines(choices)
    }
}

/// Whether some tool found no version.
pub open spec fn is_unresolved(choices: Seq<ToolChoiceView>) -> bool {
    exists|i: int|
        0 <= i < choices.len() && (#[trigger] choices[i]).resolution.chosen is None
}

fn push_tool_lines(lines: &mut Vec<String>, choice: &ToolChoice)
    ensures
        views(final(lines)@) == views(old(lines)@) + tool_lines(choice@),
{
    broadcast use lemma_views_push;

    let ghost before = views(lines@);
    let reason = why(choice.resolution.reason);
    let mut line = "  ".to_owned();
    line.append(pad(choice.tool.as_str(), 8).as_str());
    line.append(" ");
    match &choice.resolution.chosen {
        Some(chosen) => {
            line.append(pad(chosen.version.to_string().as_str(), 24).as_str());
            line.append(" ");
            line.append(reason);
            lines.push(line);
            let mut path = "           ".to_owned();
            path.append(chosen.path.as_str());
            lines.push(path);
        },
        None => {
            line.append(pad("-", 24).as_str());
            line.append(" ");
            line.append(reason);
            line.append(constraint_of(&choice.resolution).as_str());
            lines.push(line);
        },
    }
    assert(views(lines@) =~= before + tool_lines(choice@));
}

/// Says which versions a project resolves to, and why; and whether some tool
/// found none, so a script that sets up an environment can stop rather than
/// carry on with whatever happened to be on PATH already.
pub fn env_lines(name: &str, path: &str, choices: &[ToolChoice]) -> (said: (Vec<String>, bool))
    ensures
        views(said.0@) == env_text(name@, path@, views(choices@)),
        said.1 == is_unresolved(views(choices@)),
{
    broadcast use lemma_views_push;

    let ghost all = views(choices@);
    let mut lines: Vec<String> = Vec::new();
    if choices.len() == 0 {
        let mut line = name.to_owned();
        line.append(
            " resolves no toolchain. Either nothing is configured under [toolchain], or this project names none.",
        );
        lines.push(line);
        assert(views(lines@) =~= env_text(name@, path@, all));
        return (lines, false);
    }
    let mut heading = name.to_owned();
    heading.append("  ");
    heading.append(path);
    lines.push(heading);
    let ghost first = seq![name@ + "  "@ + path@];
    assert(views(lines@) =~= first + all_tool_lines(all.take(0)));
    let mut unresolved = false;
    let mut i: usize = 0;
    while i < choices.len()
        invariant
            i <= choices@.len(),
            all == views(choices@),
            views(lines@) == first + all_tool_lines(all.take(i as int)),
            unresolved == exists|j: int|
                0 <= j < i && (#[trigger] all[j]).resolution.chosen is None,
        decreases choices@.len() - i,
    {
        assert(all.take(i + 1).drop_last() =~= all.take(i as int));
        assert(all.take(i + 1).last() == choices@[i as int]@);
        assert(all[i as int] == choices@[i as int]@);
        push_tool_lines(&mut lines, &choices[i]);
        assert(views(lines@) =~= first + (all_tool_lines(all.take(i as int)) + tool_lines(
            all[i as int],
        )));
        if choices[i].resolution.chosen.is_none() {
            unresolved = true;
        }
        i = i + 1;
    }
    assert(all.take(i as int) =~= all);
    (lines, unresolved)
}

/// The directories to put in front on PATH, or what keeps a project from being
/// run: the first tool with no usable version.
pub open spec fn path_entries_of(choices: Seq<ToolChoiceView>) -> Result<
    Seq<Seq<char>>,
    Seq<char>,
>
    decreases choices.len(),
{
    if choices.len() == 0 {
        Ok(seq![])
    } else {
        match path_entries_of(choices.drop_last()) {
            Err(reason) => Err(reason),
            Ok(before) => match choices.last().resolution.chosen {
                Some(chosen) => Ok(before.push(chosen.path)),
                None => Err(
                    "no usable "@ + choices.last().tool + ": "@ + why_text(
                        choices.last().resolution.reason,
                    ) + constraint_text(choices.last().resolution),
                ),
            },
        }
    }
}

proof fn lemma_first_missing_stands(choices: Seq<ToolChoiceView>, n: int)
    requires
        0 <= n <= choices.len(),
        path_entries_of(choices.take(n)) is Err,
    ensures
        path_entries_of(choices) == path_entries_of(choices.take(n)),
    decreases choices.len() - n,
{
    if n < choices.len() {
        assert(choices.take(n + 1).drop_last() =~= choices.take(n));
        lemma_first_missing_stands(choices, n + 1);
    } else {
        assert(choices.take(n) =~= choices);
    }
}

/// The directories to put in front of whatever was on PATH.
///
/// In front rather than instead: a project needs its own PHP, but it still
/// needs git, and the tools it shells out to.
pub fn path_with(choices: &[ToolChoice]) -> (entries: Result<Vec<String>, String>)
    ensures
        match entries {
            Ok(entries) => path_entries_of(views(choices@)) == Ok::<Seq<Seq<char>>, Seq<char>>(
                views(entries@),
            ),
            Err(reason) => path_entries_of(views(choices@)) == Err::<Seq<Seq<char>>, Seq<char>>(
                reason@,
            ),
        },
{
    broadcast use lemma_views_push;

    let ghost all = views(choices@);
    let mut entries: Vec<String> = Vec::new();
    let mut i: usize = 0;
    assert(all.take(0) =~= seq![]);
    assert(views(entries@) =~= seq![]);
    while i < choices.len()
        invariant
            i <= choices@.len(),
            all == views(choices@),
            path_entries_of(all.take(i as int)) == Ok::<Seq<Seq<char>>, Seq<char>>(
                views(entries@),
            ),
        decreases choices@.len() - i,
    {
        assert(all.take(i + 1).drop_last() =~= all.take(i as int));
        assert(all.take(i + 1).last() == choices@[i as int]@);
        match &choices[i].resolution.chosen {
            Some(chosen) => {
                let ghost before = views(entries@);
                entries.push(chosen.path.clone());
                assert(choices@[i as int]@.resolution.chosen == Some(chosen@));
                assert(views(entries@) =~= before.push(chosen@.path));
            },
            None => {
                let mut reason = "no usable ".to_owned();
                reason.append(choices[i].tool.as_str());
                reason.append(": ");
                reason.append(why(choices[i].resolution.reason));
                reason.append(constraint_of(&choices[i].resolution).as_str());
                proof {
                    lemma_first_missing_stands(all, i + 1);
                }
                return Err(reason);
            },
        }
        i = i + 1;
    }
    assert(all.take(i as int) =~= all);
    Ok(entries)
}

/// The places to look for a program, in order: what the toolchain gave, and then
/// everything that was there already.
pub fn search_path<T>(chosen: Vec<T>, existing: Vec<T>) -> (path: Vec<T>)
    ensures
        path@ == chosen@ + existing@,
{
    let mut path = chosen;
    let mut existing = existing;
    path.append(&mut existing);
    path
}

/// The short line about one tool.
pub open spec fn short_line(choice: ToolChoiceView) -> Seq<char> {
    "  "@ + padded(choice.tool, 8) + " "@ + match choice.resolution.chosen {
        Some(chosen) => chosen.version.text(),
        None => why_text(choice.resolution.reason),
    }
}

/// The lines that say what running a project would do.
pub open spec fn run_text(
    name: Seq<char>,
    path: Seq<char>,
    plan: RunPlanView,
    choices: Seq<ToolChoiceView>,
) -> Seq<Seq<char>> {
    seq![
        name + "  "@ + path,
        "  recipe   "@ + match plan.recipe {
            Some(recipe) => recipe,
            None => "none, configured by hand"@,
        },
        "  command  "@ + plan.command,
        "  address  "@ + match plan.port {
            Some(port) => local_address(port),
            None => "not known for this kind of project"@,
        },
    ] + choices.map_values(|choice: ToolChoiceView| short_line(choice))
}

/// Says what running a project would do, without doing it.
pub fn run_lines(name: &str, path: &str, plan: &RunPlan, choices: &[ToolChoice]) -> (lines: Vec<
    String,
>)
    ensures
        views(lines@) == run_text(name@, path@, plan@, views(choices@)),
{
    broadcast use lemma_views_push;

    let mut heading = name.to_owned();
    heading.append("  ");
    heading.append(path);
    let mut recipe = "  recipe   ".to_owned();
    match plan.recipe {
        Some(named) => {
            recipe.append(named);
        },
        None => {
            recipe.append("none, configured by hand");
        },
    }
    let mut command = "  command  ".to_owned();
    command.append(plan.command.as_str());
    let mut address = "  address  ".to_owned();
    match plan.port {
        Some(port) => {
            address.append(local_url(port).as_str());
        },
        None => {
            address.append("not known for this kind of project");
        },
    }
    let ghost head = seq![heading@, recipe@, command@, address@];
    let ghost tail = views(choices@).map_values(|choice: ToolChoiceView| short_line(choice));
    let mut lines: Vec<String> = vec![heading, recipe, command, address];
    assert(views(lines@) =~= head + tail.take(0));
    let mut i: usize = 0;
    while i < choices.len()
        invariant
            i <= choices@.len(),
            tail == views(choices@).map_values(|choice: ToolChoiceView| short_line(choice)),
            views(lines@) == head + tail.take(i as int),
        decreases choices@.len() - i,
    {
        let mut line = "  ".to_owned();
        line.append(pad(choices[i].tool.as_str(), 8).as_str());
        line.append(" ");
        match &choices[i].resolution.chosen {
            Some(chosen) => {
                line.append(chosen.version.to_string().as_str());
            },
            None => {
                line.append(why(choices[i].resolution.reason));
            },
        }
        lines.push(line);
        assert(tail[i as int] == short_line(choices@[i as int]@));
        assert(head + tail.take(i + 1) =~= (head + tail.take(i as int)).push(tail[i as int]));
        i = i + 1;
    }
    assert(tail.take(i as int) =~= tail);
    lines
}

/// What is said of a project nothing knows how to start: the key to add, not a
/// guess.
pub fn nothing_to_run(name: &str) -> (text: String)
    ensures
        text@ == "nothing here says how "@ + name@ + " starts. Give it a command with [run."@
            + name@ + "] in the config."@,
{
    let mut text = "nothing here says how ".to_owned();
    text.append(name);
    text.append(" starts. Give it a command with [run.");
    text.append(name);
    text.append("] in the config.");
    text
}

/// A project is refused a PATH exactly when one of its tools found no version:
/// it is never run on an interpreter it said it cannot use.
pub proof fn law_an_unresolved_tool_refuses_the_run(choices: Seq<ToolChoiceView>)
    ensures
        path_entries_of(choices) is Err <==> is_unresolved(choices),
        path_entries_of(choices) matches Ok(entries) ==> entries.len() == choices.len(),
    decreases choices.len(),
{
    if choices.len() > 0 {
        let front = choices.drop_last();
        law_an_unresolved_tool_refuses_the_run(front);
        if is_unresolved(front) {
            let i = choose|i: int|
                0 <= i < front.len() && (#[trigger] front[i]).resolution.chosen is None;
            assert(choices[i] == front[i]);
        }
        if is_unresolved(choices) {
            let i = choose|i: int|
                0 <= i < choices.len() && (#[trigger] choices[i]).resolution.chosen is None;
            if i < front.len() {
                assert(front[i] == choices[i]);
            }
        }
        assert(choices[choices.len() - 1] == choices.last());
    }
}

/// The toolchain goes in front of the existing PATH rather than replacing it:
/// every tool's directory is looked in before anything that was there, and all
/// that was there is still looked in.
pub proof fn law_the_toolchain_goes_in_front(
    choices: Seq<ToolChoiceView>,
    existing: Seq<Seq<char>>,
)
    requires
        !is_unresolved(choices),
    ensures
        path_entries_of(choices) matches Ok(entries) && {
            let path = entries + existing;
            &&& forall|i: int|
                #![trigger choices[i]]
                0 <= i < choices.len() ==> path[i] == choices[i].resolution.chosen->0.path
            &&& path.skip(choices.len() as int) == existing
        },
    decreases choices.len(),
{
    law_an_unresolved_tool_refuses_the_run(choices);
    let entries = path_entries_of(choices)->Ok_0;
    let path = entries + existing;
    assert(path.skip(choices.len() as int) =~= existing);
    if choices.len() > 0 {
        let front = choices.drop_last();
        law_an_unresolved_tool_refuses_the_run(front);
        law_the_toolchain_goes_in_front(front, existing);
        let before = path_entries_of(front)->Ok_0;
        assert forall|i: int|
            #![trigger choices[i]]
            0 <= i < choices.len() implies path[i] == choices[i].resolution.chosen->0.path by {
            if i < front.len() {
                assert(front[i] == choices[i]);
                assert((before + existing)[i] == before[i]);
                assert(path[i] == entries[i]);
            } else {
                assert(choices[i] == choices.last());
                assert(path[i] == entries[i]);
            }
        }
    }
}

/// A tool nobody mentions is left alone: no pin and no manifest, no version.
pub proof fn law_an_unmentioned_tool_is_left_alone(tool: ToolView, present: Seq<Seq<char>>)
    requires
        tool.pinned is None,
        !applies(tool.name, present),
    ensures
        toolchains_of(seq![tool], present) == Seq::<ToolChoiceView>::empty(),
{
    reveal_with_fuel(choices_of, 2);
}

/// A tool is considered for a project that holds its manifest, or pins it; no
/// other project is asked about it.
pub proof fn law_a_manifest_asks_for_its_tool(tool: ToolView, present: Seq<Seq<char>>)
    ensures
        applies("php"@, present) <==> present.contains("composer.json"@),
        applies("node"@, present) <==> present.contains("package.json"@),
        applies("go"@, present) <==> present.contains("go.mod"@),
        applies("rust"@, present) <==> present.contains("Cargo.toml"@),
        applies("python"@, present) <==> present.contains("pyproject.toml"@),
        tool.name != "php"@ && tool.name != "node"@ && tool.name != "go"@ && tool.name != "rust"@
            && tool.name != "python"@ ==> !applies(tool.name, present),
        considered(tool, present) <==> tool.pinned is Some || applies(tool.name, present),
{
    reveal_strlit("php");
    reveal_strlit("node");
    reveal_strlit("go");
    reveal_strlit("rust");
    reveal_strlit("python");
    assert("php"@.len() == 3 && "node"@.len() == 4 && "go"@.len() == 2);
    assert("rust"@.len() == 4 && "python"@.len() == 6);
    assert("node"@[0] == 'n' && "rust"@[0] == 'r');
}

/// Composer says which PHP a project asks for, under `require`, and npm which
/// node, under `engines`; of no other tool does a manifest say a version.
pub proof fn law_a_manifest_says_which_version(
    composer: Seq<char>,
    package: Seq<char>,
    json: JsonView,
    fields: Seq<(Seq<char>, Seq<char>)>,
    tool: Seq<char>,
)
    ensures
        json_document(composer) == Ok::<JsonView, Seq<char>>(json) && text_fields_member(
            json,
            0,
            1,
            "require"@,
        ) == Some(fields) ==> declares("php"@, Some(composer), Some(package)) == entry_of(
            fields,
            "php"@,
        ),
        json_document(package) == Ok::<JsonView, Seq<char>>(json) && text_fields_member(
            json,
            0,
            1,
            "engines"@,
        ) == Some(fields) ==> declares("node"@, Some(composer), Some(package)) == entry_of(
            fields,
            "node"@,
        ),
        tool != "php"@ && tool != "node"@ ==> declares(tool, Some(composer), Some(package)) is None,
        declares("php"@, None, Some(package)) is None,
        declares("node"@, Some(composer), None) is None,
{
    reveal_strlit("php");
    reveal_strlit("node");
    assert("php"@.len() == 3 && "node"@.len() == 4);
}

/// A pin is looked up by the project first and by the tool in it.
pub proof fn law_a_pin_is_of_one_project(
    pins: Seq<(Seq<char>, Seq<(Seq<char>, Seq<char>)>)>,
    project: Seq<char>,
    entries: Seq<(Seq<char>, Seq<char>)>,
    tool: Seq<char>,
)
    ensures
        entry_of(pins, project) == Some(entries) ==> pin_of(pins, project, tool) == entry_of(
            entries,
            tool,
        ),
        entry_of(pins, project) is None ==> pin_of(pins, project, tool) is None,
{
}

/// Each tool that is considered gets a choice of its own, by what is installed of
/// it, its pin and what its manifest says; the others get none.
pub proof fn law_each_tool_is_decided_by_itself(
    tools: Seq<ToolView>,
    tool: ToolView,
    present: Seq<Seq<char>>,
)
    ensures
        ({
            let before = choices_of(tools, present);
            let all = choices_of(tools.push(tool), present);
            if tool.pinned is Some || applies(tool.name, present) {
                &&& all == before.push(all.last())
                &&& all.last().tool == tool.name
                &&& all.last().resolution.constraint == (if tool.pinned is Some {
                    tool.pinned
                } else {
                    tool.declared
                })
                &&& all.last().resolution.chosen == picked(
                    tool.installed,
                    may_run_with(tool.installed, all.last().resolution.constraint),
                )
            } else {
                all == before
            }
        }),
{
    assert(tools.push(tool).drop_last() =~= tools);
}

/// Where a tool cannot be had the run is refused with the first such tool, its
/// reason and its constraint.
pub proof fn law_a_refused_run_names_the_tool(
    choices: Seq<ToolChoiceView>,
    choice: ToolChoiceView,
)
    requires
        !is_unresolved(choices),
        choice.resolution.chosen is None,
    ensures
        path_entries_of(choices.push(choice)) == Err::<Seq<Seq<char>>, Seq<char>>(
            "no usable "@ + choice.tool + ": "@ + why_text(choice.resolution.reason) + " ("@ + (
            if choice.resolution.constraint is Some {
                choice.resolution.constraint->0
            } else {
                "no constraint"@
            }) + ")"@,
        ),
{
    law_an_unresolved_tool_refuses_the_run(choices);
    assert(choices.push(choice).drop_last() =~= choices);
    let constraint = if choice.resolution.constraint is Some {
        choice.resolution.constraint->0
    } else {
        "no constraint"@
    };
    let front = "no usable "@ + choice.tool + ": "@ + why_text(choice.resolution.reason);
    assert(front + (" ("@ + constraint + ")"@) =~= front + " ("@ + constraint + ")"@);
}

/// A tool is shown with its version, why it was chosen and where it lies; one
/// that could not be had with why and with what was asked for.
pub proof fn law_a_choice_is_shown_with_its_reason(choice: ToolChoiceView)
    ensures
        ({
            let start = "  "@ + padded(choice.tool, 8) + " "@;
            let reason = why_text(choice.resolution.reason);
            &&& choice.resolution.chosen matches Some(chosen) ==> tool_lines(choice) == seq![
                start + padded(chosen.version.text(), 24) + " "@ + reason,
                "           "@ + chosen.path,
            ] && short_line(choice) == start + chosen.version.text()
            &&& choice.resolution.chosen is None ==> tool_lines(choice) == seq![
                start + padded("-"@, 24) + " "@ + reason + constraint_text(choice.resolution),
            ] && short_line(choice) == start + reason
        }),
        why_text(Reason::Pinned) == "pinned in config"@,
        why_text(Reason::Declared) == "asked for by the project"@,
        why_text(Reason::Newest) == "newest installed; the project asks for nothing"@,
        why_text(Reason::NothingSatisfies) == "NOTHING INSTALLED SATISFIES THIS"@,
        why_text(Reason::NoneInstalled) == "NO VERSION OF THIS TOOL WAS FOUND"@,
{
}

/// A run is shown with its project, its recipe, its command and its address,
/// and then its tools.
pub proof fn law_a_run_is_shown_with_its_command(
    name: Seq<char>,
    path: Seq<char>,
    plan: RunPlanView,
    choices: Seq<ToolChoiceView>,
    i: int,
)
    ensures
        ({
            let lines = run_text(name, path, plan, choices);
            &&& lines.len() == choices.len() + 4
            &&& lines[0] == name + "  "@ + path
            &&& lines[1] == "  recipe   "@ + (if plan.recipe is Some {
                plan.recipe->0
            } else {
                "none, configured by hand"@
            })
            &&& lines[2] == "  command  "@ + plan.command
            &&& plan.port is Some ==> lines[3] == "  address  "@ + local_address(plan.port->0)
            &&& plan.port is None ==> lines[3]
                == "  address  "@ + "not known for this kind of project"@
            &&& 0 <= i < choices.len() ==> lines[i + 4] == short_line(choices[i])
        }),
{
}

/// Tools are listed by name.
pub proof fn law_tools_are_listed_by_name(
    tools: Seq<ToolView>,
    present: Seq<Seq<char>>,
    i: int,
    j: int,
)
    requires
        0 <= i < j < toolchains_of(tools, present).len(),
    ensures
        !precedes(toolchains_of(tools, present)[j].tool, toolchains_of(tools, present)[i].tool),
        forall|choice: ToolChoiceView| #[trigger]
            toolchains_of(tools, present).contains(choice) == choices_of(tools, present).contains(
                choice,
            ),
{
    law_sorting_orders_and_keeps::<ToolChoice>(choices_of(tools, present));
    let listed = toolchains_of(tools, present);
    assert(ToolChoice::ranks(listed[i], listed[j]));
    assert forall|choice: ToolChoiceView| #[trigger] listed.contains(choice) == choices_of(
        tools,
        present,
    ).contains(choice) by {
        lemma_in_order_contains::<ToolChoice>(choices_of(tools, present), choice);
    }
}

/// A project's tools are shown under its name, each in its order, and a project
/// without any is told so.
pub proof fn law_a_project_s_tools_are_shown_in_order(
    name: Seq<char>,
    path: Seq<char>,
    choices: Seq<ToolChoiceView>,
    choice: ToolChoiceView,
)
    ensures
        env_text(name, path, choices.push(choice)) == seq![name + "  "@ + path] + all_tool_lines(
            choices,
        ) + tool_lines(choice),
        env_text(name, path, seq![]).len() == 1,
        all_tool_lines(seq![]).len() == 0,
{
    assert(choices.push(choice).drop_last() =~= choices);
    assert(env_text(name, path, choices.push(choice)) =~= seq![name + "  "@ + path]
        + all_tool_lines(choices) + tool_lines(choice));
}

} // verus!
