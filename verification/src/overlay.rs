//! What the dashboard shows on top of its lists, as lines of a label and a
//! text.

use crate::environment::{constraint_text, constraint_of, why, why_text, ToolChoice, ToolChoiceView};
use crate::routes::{is_routed, routed, Route};
use crate::text::{join, joined, lemma_views_push, maybe_text, same, views};
use vstd::prelude::*;
use vstd::string::*;

verus! {

/// A line of an overlay.
#[derive(Debug, Clone, PartialEq, Eq)]
pub struct DetailLine {
    pub label: String,
    pub text: String,
}

impl View for DetailLine {
    type V = (Seq<char>, Seq<char>);

    open spec fn view(&self) -> (Seq<char>, Seq<char>) {
        (self.label@, self.text@)
    }
}

/// An overlay: what it is about, what it says, and what can be done about it.
#[derive(Debug, Clone, PartialEq, Eq)]
pub struct Detail {
    pub title: String,
    pub lines: Vec<DetailLine>,
    pub hint: &'static str,
}

/// What an overlay says.
#[verifier::ext_equal]
pub struct DetailView {
    pub title: Seq<char>,
    pub lines: Seq<(Seq<char>, Seq<char>)>,
    pub hint: Seq<char>,
}

impl View for Detail {
    type V = DetailView;

    open spec fn view(&self) -> DetailView {
        DetailView { title: self.title@, lines: views(self.lines@), hint: self.hint@ }
    }
}

fn line(label: &str, text: &str) -> (line: DetailLine)
    ensures
        line@ == (label@, text@),
{
    DetailLine { label: label.to_owned(), text: text.to_owned() }
}

/// The lines, or the one line that stands where there are none.
pub open spec fn or_none(
    lines: Seq<(Seq<char>, Seq<char>)>,
    text: Seq<char>,
) -> Seq<(Seq<char>, Seq<char>)> {
    if lines.len() == 0 {
        seq![("none"@, text)]
    } else {
        lines
    }
}

/// Puts the one line in where there are no others.
fn fill(lines: Vec<DetailLine>, text: &str) -> (filled: Vec<DetailLine>)
    ensures
        views(filled@) == or_none(views(lines@), text@),
{
    if lines.len() == 0 {
        let only = vec![line("none", text)];
        assert(views(only@) =~= seq![("none"@, text@)]);
        only
    } else {
        lines
    }
}

/// The line about a variant.
pub open spec fn variant_line(name: Seq<char>, in_use: Option<Seq<char>>) -> (Seq<char>, Seq<char>) {
    (name, if in_use == Some(name) {
        "* in use"@
    } else {
        ""@
    })
}

/// The overlay about a project's variants.
pub open spec fn dotenv_overlay(
    project: Seq<char>,
    names: Seq<Seq<char>>,
    in_use: Option<Seq<char>>,
) -> DetailView {
    DetailView {
        title: project + " · .env"@,
        lines: or_none(
            names.map_values(|name: Seq<char>| variant_line(name, in_use)),
            "no .env variants to switch between"@,
        ),
        hint: "type a name to switch to it · esc to just look"@,
    }
}

/// Which .env variants a project has, and which one it is running with.
pub fn dotenv_detail(project: &str, names: &[String], in_use: &Option<String>) -> (detail: Detail)
    ensures
        detail@ == dotenv_overlay(project@, views(names@), maybe_text(*in_use)),
{
    broadcast use lemma_views_push;

    let ghost shown = views(names@).map_values(
        |name: Seq<char>| variant_line(name, maybe_text(*in_use)),
    );
    let mut lines: Vec<DetailLine> = Vec::new();
    let mut i: usize = 0;
    while i < names.len()
        invariant
            i <= names@.len(),
            shown == views(names@).map_values(
                |name: Seq<char>| variant_line(name, maybe_text(*in_use)),
            ),
            views(lines@) == shown.take(i as int),
        decreases names@.len() - i,
    {
        let marker = match in_use {
            Some(used) => if same(used.as_str(), names[i].as_str()) {
                "* in use"
            } else {
                ""
            },
            None => "",
        };
        lines.push(line(names[i].as_str(), marker));
        assert(shown[i as int] == variant_line(names@[i as int]@, maybe_text(*in_use)));
        assert(shown.take(i + 1) =~= shown.take(i as int).push(shown[i as int]));
        i = i + 1;
    }
    assert(shown.take(i as int) =~= shown);
    let mut title = project.to_owned();
    title.append(" · .env");
    Detail {
        title,
        lines: fill(lines, "no .env variants to switch between"),
        hint: "type a name to switch to it · esc to just look",
    }
}

/// The lines about one tool. Where the version sits is a line of its own.
pub open spec fn tool_lines(choice: ToolChoiceView) -> Seq<(Seq<char>, Seq<char>)> {
    match choice.resolution.chosen {
        Some(chosen) => seq![
            (choice.tool, chosen.version.text() + "  "@ + why_text(choice.resolution.reason)),
            (""@, chosen.path),
        ],
        None => seq![
            (
                choice.tool,
                "-  "@ + why_text(choice.resolution.reason) + constraint_text(choice.resolution),
            ),
        ],
    }
}

/// The lines about every tool, in order.
pub open spec fn toolchain_lines(choices: Seq<ToolChoiceView>) -> Seq<(Seq<char>, Seq<char>)>
    decreases choices.len(),
{
    if choices.len() == 0 {
        seq![]
    } else {
        toolchain_lines(choices.drop_last()) + tool_lines(choices.last())
    }
}

/// The overlay about the versions a project resolves to.
pub open spec fn toolchain_overlay(project: Seq<char>, choices: Seq<ToolChoiceView>) -> DetailView {
    DetailView {
        title: project,
        lines: if choices.len() == 0 {
            seq![("none"@, "nothing under [toolchain] applies to this project"@)]
        } else {
            toolchain_lines(choices)
        },
        hint: "esc to close"@,
    }
}

/// The toolchain versions a project resolves to.
pub fn toolchain_detail(project: &str, choices: &[ToolChoice]) -> (detail: Detail)
    ensures
        detail@ == toolchain_overlay(project@, views(choices@)),
{
    broadcast use lemma_views_push;

    let mut lines: Vec<DetailLine> = Vec::new();
    if choices.len() == 0 {
        lines.push(line("none", "nothing under [toolchain] applies to this project"));
        assert(views(lines@) =~= seq![
            ("none"@, "nothing under [toolchain] applies to this project"@),
        ]);
        return Detail { title: project.to_owned(), lines, hint: "esc to close" };
    }
    let ghost all = views(choices@);
    let mut i: usize = 0;
    while i < choices.len()
        invariant
            i <= choices@.len(),
            all == views(choices@),
            views(lines@) == toolchain_lines(all.take(i as int)),
        decreases choices@.len() - i,
    {
        let resolution = &choices[i].resolution;
        let ghost before = views(lines@);
        assert(all.take(i + 1).drop_last() =~= all.take(i as int));
        assert(all.take(i + 1).last() == choices@[i as int]@);
        match &resolution.chosen {
            Some(chosen) => {
                let mut text = chosen.version.to_string();
                text.append("  ");
                text.append(why(resolution.reason));
                lines.push(line(choices[i].tool.as_str(), text.as_str()));
                lines.push(line("", chosen.path.as_str()));
            },
            None => {
                let mut text = "-  ".to_owned();
                text.append(why(resolution.reason));
                text.append(constraint_of(resolution).as_str());
                lines.push(line(choices[i].tool.as_str(), text.as_str()));
            },
        }
        assert(views(lines@) =~= before + tool_lines(choices@[i as int]@));
        i = i + 1;
    }
    assert(all.take(i as int) =~= all);
    Detail { title: project.to_owned(), lines, hint: "esc to close" }
}

/// The line about a route. Which of the two named it decides where to go to
/// change it.
pub open spec fn domain_line(
    file: Seq<(Seq<char>, Seq<char>)>,
    route: (Seq<char>, Seq<char>),
) -> (Seq<char>, Seq<char>) {
    (route.0, if is_routed(file, route.0) {
        route.1
    } else {
        route.1 + "  (from its service)"@
    })
}

/// The overlay about the routed hostnames.
pub open spec fn domain_overlay(
    file: Seq<(Seq<char>, Seq<char>)>,
    routes: Seq<(Seq<char>, Seq<char>)>,
    file_name: Seq<char>,
) -> DetailView {
    DetailView {
        title: "Domains"@,
        lines: or_none(
            routes.map_values(|route: (Seq<char>, Seq<char>)| domain_line(file, route)),
            "nothing in "@ + file_name,
        ),
        hint: "adev domains add to change · esc to close"@,
    }
}

/// Every hostname the proxy would serve.
pub fn domain_detail(file: &[Route], routes: &[Route], file_name: &str) -> (detail: Detail)
    ensures
        detail@ == domain_overlay(views(file@), views(routes@), file_name@),
{
    broadcast use lemma_views_push;

    let ghost from = views(file@);
    let ghost shown = views(routes@).map_values(
        |route: (Seq<char>, Seq<char>)| domain_line(from, route),
    );
    let mut lines: Vec<DetailLine> = Vec::new();
    let mut i: usize = 0;
    while i < routes.len()
        invariant
            i <= routes@.len(),
            from == views(file@),
            shown == views(routes@).map_values(
                |route: (Seq<char>, Seq<char>)| domain_line(from, route),
            ),
            views(lines@) == shown.take(i as int),
        decreases routes@.len() - i,
    {
        let mut text = routes[i].upstream.clone();
        if !routed(file, routes[i].host.as_str()) {
            text.append("  (from its service)");
        }
        lines.push(line(routes[i].host.as_str(), text.as_str()));
        assert(shown[i as int] == domain_line(from, routes@[i as int]@));
        assert(shown.take(i + 1) =~= shown.take(i as int).push(shown[i as int]));
        i = i + 1;
    }
    assert(shown.take(i as int) =~= shown);
    let mut empty = "nothing in ".to_owned();
    empty.append(file_name);
    Detail {
        title: "Domains".to_owned(),
        lines: fill(lines, empty.as_str()),
        hint: "adev domains add to change · esc to close",
    }
}

/// What stands in place of the routes where they could not be read.
pub fn domain_failure(reason: &str) -> (detail: Detail)
    ensures
        detail@ == (DetailView {
            title: "Domains"@,
            lines: seq![("error"@, reason@)],
            hint: "esc to close"@,
        }),
{
    let lines = vec![line("error", reason)];
    assert(views(lines@) =~= seq![("error"@, reason@)]);
    Detail { title: "Domains".to_owned(), lines, hint: "esc to close" }
}

/// What an empty dashboard says where no configuration was found: somebody who
/// has one and an empty root does not need to be told how to write one.
pub fn guidance(roots: &[String], chosen: &Option<String>) -> (text: Option<String>)
    ensures
        maybe_text(text) == match maybe_text(*chosen) {
            Some(_) => None,
            None => Some(
                "Nothing to show yet. This looked in "@ + joined(views(roots@), ", "@)
                    + " because no configuration file was found.\n\nQuit with q, then run  adev config --init  to write one describing this machine."@,
            ),
        },
{
    match chosen {
        Some(_) => None,
        None => {
            let mut text = "Nothing to show yet. This looked in ".to_owned();
            text.append(join(roots, ", ").as_str());
            text.append(
                " because no configuration file was found.\n\nQuit with q, then run  adev config --init  to write one describing this machine.",
            );
            Some(text)
        },
    }
}

/// A variant is marked exactly when it is the one in use, and nothing is
/// marked where none is.
pub proof fn law_only_the_variant_in_use_is_marked(
    project: Seq<char>,
    names: Seq<Seq<char>>,
    in_use: Option<Seq<char>>,
    at: int,
)
    requires
        0 <= at < names.len(),
    ensures
        dotenv_overlay(project, names, in_use).lines.len() == names.len(),
        dotenv_overlay(project, names, in_use).lines[at].0 == names[at],
        dotenv_overlay(project, names, in_use).lines[at].1 == "* in use"@ <==> in_use == Some(
            names[at],
        ),
{
    reveal_strlit("* in use");
    reveal_strlit("");
    assert("* in use"@.len() == 8);
    assert(""@.len() == 0);
}

/// A tool that is resolved shows its version and why, and where it lies; one that
/// is not shows why and what was asked for. The tools come in their order.
pub proof fn law_a_tool_shows_its_version_and_why(
    project: Seq<char>,
    choices: Seq<ToolChoiceView>,
    choice: ToolChoiceView,
)
    ensures
        toolchain_overlay(project, seq![]).lines.len() == 1,
        ({
            let before = toolchain_lines(choices);
            let all = toolchain_lines(choices.push(choice));
            let reason = why_text(choice.resolution.reason);
            &&& choice.resolution.chosen matches Some(chosen) ==> all == before + seq![
                (choice.tool, chosen.version.text() + "  "@ + reason),
                (""@, chosen.path),
            ]
            &&& choice.resolution.chosen is None ==> all == before.push(
                (choice.tool, "-  "@ + reason + constraint_text(choice.resolution)),
            )
        }),
        choices.len() > 0 ==> toolchain_overlay(project, choices).lines == toolchain_lines(choices),
{
    assert(choices.push(choice).drop_last() =~= choices);
    if choice.resolution.chosen is None {
        assert(toolchain_lines(choices.push(choice)) =~= toolchain_lines(choices).push(
            (
                choice.tool,
                "-  "@ + why_text(choice.resolution.reason) + constraint_text(choice.resolution),
            ),
        ));
    }
}

/// A host is shown with where it points, marked where it comes from a service and
/// not from the file; no hosts at all are said to be in the file.
pub proof fn law_a_host_shows_where_it_comes_from(
    file: Seq<(Seq<char>, Seq<char>)>,
    routes: Seq<(Seq<char>, Seq<char>)>,
    file_name: Seq<char>,
    i: int,
)
    ensures
        0 <= i < routes.len() ==> {
            let lines = domain_overlay(file, routes, file_name).lines;
            &&& lines.len() == routes.len()
            &&& lines[i].0 == routes[i].0
            &&& is_routed(file, routes[i].0) ==> lines[i].1 == routes[i].1
            &&& !is_routed(file, routes[i].0) ==> lines[i].1 == routes[i].1
                + "  (from its service)"@
        },
        domain_overlay(file, seq![], file_name).lines == seq![
            ("none"@, "nothing in "@ + file_name),
        ],
{
}

} // verus!
