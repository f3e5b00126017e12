//! A first configuration file, describing the machine it is written on.

use crate::text::{chars_of, lemma_views_push, same, views};
use vstd::prelude::*;
use vstd::string::*;

verus! {

/// A toolchain that was found: where to look for it, and for which program.
#[derive(Debug, Clone, PartialEq, Eq)]
pub struct FoundTool {
    pub tool: String,
    pub search: String,
    pub binary: String,
}

/// What a toolchain that was found says.
#[verifier::ext_equal]
pub struct FoundToolView {
    pub tool: Seq<char>,
    pub search: Seq<char>,
    pub binary: Seq<char>,
}

impl View for FoundTool {
    type V = FoundToolView;

    open spec fn view(&self) -> FoundToolView {
        FoundToolView { tool: self.tool@, search: self.search@, binary: self.binary@ }
    }
}

/// Whether a tool is among those that were found.
pub open spec fn is_found(found: Seq<FoundToolView>, tool: Seq<char>) -> bool {
    exists|i: int| 0 <= i < found.len() && (#[trigger] found[i]).tool == tool
}

/// The places that are worth writing down: for each tool the first one that
/// turned out to hold an installed version.
pub open spec fn first_holding(places: Seq<FoundToolView>, holds: Seq<bool>) -> Seq<FoundToolView>
    decreases places.len(),
{
    if places.len() == 0 {
        seq![]
    } else {
        let before = first_holding(places.drop_last(), holds);
        if holds[places.len() - 1] && !is_found(before, places.last().tool) {
            before.push(places.last())
        } else {
            before
        }
    }
}

/// Picks, for each tool, the first place that holds an installed version.
/// `holds` says which of the places do.
pub fn found_tools(places: &[FoundTool], holds: &[bool]) -> (found: Vec<FoundTool>)
    requires
        places@.len() == holds@.len(),
    ensures
        views(found@) == first_holding(views(places@), holds@),
{
    broadcast use lemma_views_push;

    let ghost all = views(places@);
    let mut found: Vec<FoundTool> = Vec::new();
    let mut i: usize = 0;
    assert(all.take(0) =~= seq![]);
    assert(views(found@) =~= seq![]);
    while i < places.len()
        invariant
            i <= places@.len(),
            places@.len() == holds@.len(),
            all == views(places@),
            views(found@) == first_holding(all.take(i as int), holds@),
        decreases places@.len() - i,
    {
        assert(all.take(i + 1).drop_last() =~= all.take(i as int));
        assert(all.take(i + 1).last() == places@[i as int]@);
        let place = &places[i];
        let mut known = false;
        let mut k: usize = 0;
        while k < found.len()
            invariant
                k <= found@.len(),
                known <==> exists|j: int|
                    0 <= j < k && (#[trigger] views(found@)[j]).tool == place.tool@,
            decreases found@.len() - k,
        {
            assert(views(found@)[k as int] == found@[k as int]@);
            if same(found[k].tool.as_str(), place.tool.as_str()) {
                known = true;
            }
            k = k + 1;
        }
        assert(known == is_found(views(found@), place.tool@));
        if holds[i] && !known {
            found.push(
                FoundTool {
                    tool: place.tool.clone(),
                    search: place.search.clone(),
                    binary: place.binary.clone(),
                },
            );
        }
        i = i + 1;
    }
    assert(all.take(i as int) =~= all);
    found
}

/// A text with a backslash in front of every backslash and double quote.
pub open spec fn escaped(text: Seq<char>) -> Seq<char>
    decreases text.len(),
{
    if text.len() == 0 {
        seq![]
    } else {
        let before = escaped(text.drop_last());
        if text.last() == '\\' || text.last() == '"' {
            before.push('\\').push(text.last())
        } else {
            before.push(text.last())
        }
    }
}

/// A text as a value of the configuration file.
pub open spec fn value_text(text: Seq<char>) -> Seq<char> {
    seq!['"'] + escaped(text) + seq!['"']
}

/// Writes a text as a value of the configuration file.
fn value(text: &str) -> (written: String)
    ensures
        written@ == value_text(text@),
{
    let chars = chars_of(text);
    let mut written = String::new();
    written.push('"');
    let mut i: usize = 0;
    assert(chars@.take(0) =~= seq![]);
    assert(written@ =~= seq!['"'] + escaped(chars@.take(0)));
    while i < chars.len()
        invariant
            i <= chars@.len(),
            written@ == seq!['"'] + escaped(chars@.take(i as int)),
        decreases chars@.len() - i,
    {
        let ghost before = escaped(chars@.take(i as int));
        assert(chars@.take(i + 1).drop_last() =~= chars@.take(i as int));
        if chars[i] == '\\' || chars[i] == '"' {
            written.push('\\');
        }
        written.push(chars[i]);
        assert(written@ =~= seq!['"'] + escaped(chars@.take(i + 1)));
        i = i + 1;
    }
    assert(chars@.take(i as int) =~= chars@);
    written.push('"');
    written
}

/// The roots as the items of a list.
pub open spec fn root_items(roots: Seq<Seq<char>>) -> Seq<char>
    decreases roots.len(),
{
    if roots.len() == 0 {
        seq![]
    } else if roots.len() == 1 {
        value_text(roots[0])
    } else {
        root_items(roots.drop_last()) + ", "@ + value_text(roots.last())
    }
}

/// The section about one toolchain.
pub open spec fn tool_section(found: FoundToolView) -> Seq<char> {
    "\n[toolchain."@ + found.tool + "]\nsearch = ["@ + value_text(found.search) + "]\nbinary = "@
        + value_text(found.binary) + "\n"@
}

/// The sections about every toolchain, in order.
pub open spec fn tool_sections(tools: Seq<FoundToolView>) -> Seq<char>
    decreases tools.len(),
{
    if tools.len() == 0 {
        seq![]
    } else {
        tool_sections(tools.drop_last()) + tool_section(tools.last())
    }
}

/// The file as it is written.
pub open spec fn starter_text(
    roots: Seq<Seq<char>>,
    endpoint: Seq<char>,
    tools: Seq<FoundToolView>,
) -> Seq<char> {
    "[project]\nroots = ["@ + root_items(roots) + "]\n\n[docker]\nendpoint = "@ + value_text(
        endpoint,
    ) + "\n"@ + tool_sections(tools)
}

/// Writes a first configuration file: what to scan, how to reach docker, and
/// the toolchains that were found. Everything else keeps its default, so a
/// reader sees only what this machine decided.
pub fn starter(roots: &[String], endpoint: &str, tools: &[FoundTool]) -> (text: String)
    ensures
        text@ == starter_text(views(roots@), endpoint@, views(tools@)),
{
    let ghost places = views(roots@);
    let mut items = String::new();
    let mut i: usize = 0;
    assert(places.take(0) =~= seq![]);
    assert(items@ =~= root_items(places.take(0)));
    while i < roots.len()
        invariant
            i <= roots@.len(),
            places == views(roots@),
            items@ == root_items(places.take(i as int)),
        decreases roots@.len() - i,
    {
        assert(places.take(i + 1).drop_last() =~= places.take(i as int));
        assert(places.take(i + 1).last() == roots@[i as int]@);
        let item = value(roots[i].as_str());
        if i > 0 {
            items.append(", ");
            items.append(item.as_str());
        } else {
            assert(places.take(1)[0] == roots@[0]@);
            items = item;
        }
        i = i + 1;
    }
    assert(places.take(i as int) =~= places);
    let ghost found = views(tools@);
    let mut sections = String::new();
    let mut k: usize = 0;
    assert(found.take(0) =~= seq![]);
    assert(sections@ =~= tool_sections(found.take(0)));
    while k < tools.len()
        invariant
            k <= tools@.len(),
            found == views(tools@),
            sections@ == tool_sections(found.take(k as int)),
        decreases tools@.len() - k,
    {
        assert(found.take(k + 1).drop_last() =~= found.take(k as int));
        assert(found.take(k + 1).last() == tools@[k as int]@);
        let mut section = "\n[toolchain.".to_owned();
        section.append(tools[k].tool.as_str());
        section.append("]\nsearch = [");
        section.append(value(tools[k].search.as_str()).as_str());
        section.append("]\nbinary = ");
        section.append(value(tools[k].binary.as_str()).as_str());
        section.append("\n");
        sections.append(section.as_str());
        k = k + 1;
    }
    assert(found.take(k as int) =~= found);
    let mut text = "[project]\nroots = [".to_owned();
    text.append(items.as_str());
    text.append("]\n\n[docker]\nendpoint = ");
    text.append(value(endpoint).as_str());
    text.append("\n");
    text.append(sections.as_str());
    text
}

/// A value is written in quotes with a backslash before each quote and each
/// backslash, and every other character as it is.
pub proof fn law_only_quotes_and_backslashes_are_escaped(text: Seq<char>, c: char)
    ensures
        escaped(seq![]).len() == 0,
        c != '"' && c != '\\' ==> escaped(text.push(c)) == escaped(text).push(c),
        c == '"' || c == '\\' ==> escaped(text.push(c)) == escaped(text).push('\\').push(c),
        (forall|i: int| 0 <= i < text.len() ==> text[i] != '"' && text[i] != '\\') ==> value_text(text)
            == seq!['"'] + text + seq!['"'],
    decreases text.len(),
{
    assert(text.push(c).drop_last() =~= text);
    if text.len() > 0 {
        law_only_quotes_and_backslashes_are_escaped(text.drop_last(), c);
        if forall|i: int| 0 <= i < text.len() ==> text[i] != '"' && text[i] != '\\' {
            let front = text.drop_last();
            assert(value_text(front) == seq!['"'] + front + seq!['"']);
            assert(value_text(front).subrange(1, value_text(front).len() - 1) =~= escaped(front));
            assert((seq!['"'] + front + seq!['"']).subrange(1, front.len() as int + 1) =~= front);
            assert(front.push(text.last()) =~= text);
        }
    } else {
        assert(escaped(text) =~= text);
    }
}

/// A tool is offered from the first place that holds it, and once.
pub proof fn law_the_first_place_that_holds_a_tool_counts(
    places: Seq<FoundToolView>,
    holds: Seq<bool>,
    i: int,
)
    requires
        holds.len() == places.len(),
        0 <= i < places.len(),
    ensures
        holds[i] && (forall|j: int| 0 <= j < i && holds[j] ==> (#[trigger] places[j]).tool
            != places[i].tool) ==> first_holding(places, holds).contains(places[i]),
        first_holding(places, holds).contains(places[i]) ==> exists|j: int|
            0 <= j < places.len() && holds[j] && #[trigger] places[j] == places[i],
{
    lemma_first_holding(places, holds, i);
    let found = first_holding(places, holds);
    if found.contains(places[i]) {
        let at = found.index_of(places[i]);
        assert(found[at] == places[i]);
    }
}

#[verifier::rlimit(40)]
proof fn lemma_first_holding(places: Seq<FoundToolView>, holds: Seq<bool>, i: int)
    requires
        holds.len() >= places.len(),
    ensures
        forall|k: int|
            0 <= k < first_holding(places, holds).len() ==> exists|j: int|
                0 <= j < places.len() && holds[j] && #[trigger] places[j] == (#[trigger] first_holding(
                    places,
                    holds,
                )[k]),
        0 <= i < places.len() && holds[i] && (forall|j: int|
            0 <= j < i && holds[j] ==> (#[trigger] places[j]).tool != places[i].tool)
            ==> first_holding(places, holds).contains(places[i]),
    decreases places.len(),
{
    if places.len() > 0 {
        let front = places.drop_last();
        let last = places.len() - 1;
        lemma_first_holding(front, holds, i);
        let before = first_holding(front, holds);
        let all = first_holding(places, holds);
        assert forall|k: int| 0 <= k < all.len() implies exists|j: int|
            0 <= j < places.len() && holds[j] && #[trigger] places[j] == (#[trigger] all[k]) by {
            if k < before.len() {
                assert(all[k] == before[k]);
                let j = choose|j: int|
                    0 <= j < front.len() && holds[j] && #[trigger] front[j] == before[k];
                assert(places[j] == front[j]);
            } else {
                assert(places[last] == all[k]);
            }
        }
        if 0 <= i < places.len() && holds[i] && (forall|j: int|
            0 <= j < i && holds[j] ==> (#[trigger] places[j]).tool != places[i].tool) {
            if i < last {
                assert forall|j: int| 0 <= j < i && holds[j] implies (#[trigger] front[j]).tool
                    != front[i].tool by {
                    assert(front[j] == places[j]);
                }
                assert(front[i] == places[i]);
                let at = before.index_of(front[i]);
                assert(all[at] == places[i]);
            } else {
                if is_found(before, places[i].tool) {
                    let k = choose|k: int|
                        0 <= k < before.len() && (#[trigger] before[k]).tool == places[i].tool;
                    let j = choose|j: int|
                        0 <= j < front.len() && holds[j] && #[trigger] front[j] == before[k];
                    assert(places[j] == front[j]);
                }
                assert(all == before.push(places[i]));
                assert(all[before.len() as int] == places[i]);
            }
        }
    }
}

/// A first configuration names the roots, the daemon and the tools that were
/// found, each under its section.
pub proof fn law_a_first_configuration_says_what_was_found(
    root: Seq<char>,
    endpoint: Seq<char>,
    tools: Seq<FoundToolView>,
    tool: FoundToolView,
)
    ensures
        starter_text(seq![root], endpoint, seq![]) == "[project]\nroots = ["@ + value_text(root)
            + "]\n\n[docker]\nendpoint = "@ + value_text(endpoint) + "\n"@,
        tool_sections(tools.push(tool)) == tool_sections(tools) + "\n[toolchain."@ + tool.tool
            + "]\nsearch = ["@ + value_text(tool.search) + "]\nbinary = "@ + value_text(tool.binary)
            + "\n"@,
{
    assert(tools.push(tool).drop_last() =~= tools);
    assert(tool_sections(tools.push(tool)) =~= tool_sections(tools) + "\n[toolchain."@ + tool.tool
        + "]\nsearch = ["@ + value_text(tool.search) + "]\nbinary = "@ + value_text(tool.binary)
        + "\n"@);
    let front = "[project]\nroots = ["@ + value_text(root) + "]\n\n[docker]\nendpoint = "@
        + value_text(endpoint) + "\n"@;
    assert(root_items(seq![root]) == value_text(root));
    assert(tool_sections(seq![]) =~= seq![]);
    assert(front + Seq::<char>::empty() =~= front);
}

/// The roots are written in order, with a comma between them.
pub proof fn law_roots_are_written_in_order(roots: Seq<Seq<char>>, root: Seq<char>)
    ensures
        roots.len() > 0 ==> root_items(roots.push(root)) == root_items(roots) + ", "@ + value_text(
            root,
        ),
        root_items(seq![]).len() == 0,
{
    assert(roots.push(root).drop_last() =~= roots);
}

} // verus!
