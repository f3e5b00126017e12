//! The hostnames the reverse proxy serves.

use crate::config::{read_text_entries, text_entries};
use crate::sections::{parse, problem_text, toml_document, Toml, TomlView};
use crate::table::{column, fit};
use crate::text::{decimal, is_digit, is_letter, lemma_views_push, number_text, same, views};
use vstd::prelude::*;
use vstd::string::*;

verus! {

/// A hostname and what it points at.
#[derive(Debug, Clone, PartialEq, Eq)]
pub struct Route {
    pub host: String,
    pub upstream: String,
}

impl View for Route {
    type V = (Seq<char>, Seq<char>);

    open spec fn view(&self) -> (Seq<char>, Seq<char>) {
        (self.host@, self.upstream@)
    }
}

/// Whether a host is routed.
pub open spec fn is_routed(routes: Seq<(Seq<char>, Seq<char>)>, host: Seq<char>) -> bool {
    exists|i: int| 0 <= i < routes.len() && (#[trigger] routes[i]).0 == host
}

/// Whether every host is routed once.
pub open spec fn hosts_differ(routes: Seq<(Seq<char>, Seq<char>)>) -> bool {
    forall|i: int, j: int|
        0 <= i < j < routes.len() ==> (#[trigger] routes[i]).0 != (#[trigger] routes[j]).0
}

/// Whether a host is among the routes.
pub fn routed(routes: &[Route], host: &str) -> (is: bool)
    ensures
        is == is_routed(views(routes@), host@),
{
    let mut i: usize = 0;
    while i < routes.len()
        invariant
            i <= routes@.len(),
            forall|j: int| 0 <= j < i ==> (#[trigger] views(routes@)[j]).0 != host@,
        decreases routes@.len() - i,
    {
        assert(views(routes@)[i as int] == routes@[i as int]@);
        if same(routes[i].host.as_str(), host) {
            return true;
        }
        i = i + 1;
    }
    false
}

/// The routes of the file and those the declared services ask for, or the first
/// host that both name.
pub open spec fn routes_with(
    file: Seq<(Seq<char>, Seq<char>)>,
    declared: Seq<(Seq<char>, Seq<char>)>,
) -> Result<Seq<(Seq<char>, Seq<char>)>, Seq<char>>
    decreases declared.len(),
{
    if declared.len() == 0 {
        Ok(file)
    } else {
        match routes_with(file, declared.drop_last()) {
            Err(host) => Err(host),
            Ok(before) => if is_routed(before, declared.last().0) {
                Err(declared.last().0)
            } else {
                Ok(before.push(declared.last()))
            },
        }
    }
}

proof fn lemma_first_clash_stands(
    file: Seq<(Seq<char>, Seq<char>)>,
    declared: Seq<(Seq<char>, Seq<char>)>,
    n: int,
)
    requires
        0 <= n <= declared.len(),
        routes_with(file, declared.take(n)) is Err,
    ensures
        routes_with(file, declared) == routes_with(file, declared.take(n)),
    decreases declared.len() - n,
{
    if n < declared.len() {
        assert(declared.take(n + 1).drop_last() =~= declared.take(n));
        lemma_first_clash_stands(file, declared, n + 1);
    } else {
        assert(declared.take(n) =~= declared);
    }
}

/// What is said of a host that is routed twice.
pub open spec fn clash_text(host: Seq<char>, file: Seq<char>) -> Seq<char> {
    host + " is already routed — "@ + host + " is named both by a service and in "@ + file
}

/// Every route the proxy should serve: the ones in the domains file, plus the
/// ones the declared services ask for.
///
/// The two are merged here rather than in the file, so a service's hostname
/// stays a fact about that service instead of being copied into an artefact
/// that would then disagree with it. A host claimed by both is refused, which
/// is the same answer the file gives when it names one host twice.
pub fn routes_of(file: &[Route], declared: &[(String, String)], file_name: &str) -> (routes: Result<
    Vec<Route>,
    String,
>)
    ensures
        match routes {
            Ok(routes) => routes_with(views(file@), views(declared@)) == Ok::<
                Seq<(Seq<char>, Seq<char>)>,
                Seq<char>,
            >(views(routes@)),
            Err(reason) => routes_with(views(file@), views(declared@)) matches Err(host) && reason@
                == clash_text(host, file_name@),
        },
{
    broadcast use lemma_views_push;

    let ghost wanted = views(declared@);
    let mut routes = copy_routes(file);
    let mut i: usize = 0;
    assert(wanted.take(0) =~= seq![]);
    while i < declared.len()
        invariant
            i <= declared@.len(),
            wanted == views(declared@),
            routes_with(views(file@), wanted.take(i as int)) == Ok::<
                Seq<(Seq<char>, Seq<char>)>,
                Seq<char>,
            >(views(routes@)),
        decreases declared@.len() - i,
    {
        assert(wanted.take(i + 1).drop_last() =~= wanted.take(i as int));
        assert(wanted.take(i + 1).last() == declared@[i as int]@);
        let host = declared[i].0.as_str();
        if routed(routes.as_slice(), host) {
            proof {
                lemma_first_clash_stands(views(file@), wanted, i + 1);
            }
            let mut reason = host.to_owned();
            reason.append(" is already routed — ");
            reason.append(host);
            reason.append(" is named both by a service and in ");
            reason.append(file_name);
            return Err(reason);
        }
        let ghost before = views(routes@);
        routes.push(Route { host: declared[i].0.clone(), upstream: declared[i].1.clone() });
        assert(views(routes@) =~= before.push(declared@[i as int]@));
        i = i + 1;
    }
    assert(wanted.take(i as int) =~= wanted);
    Ok(routes)
}

/// Copies the routes.
fn copy_routes(routes: &[Route]) -> (copy: Vec<Route>)
    ensures
        views(copy@) == views(routes@),
{
    broadcast use lemma_views_push;

    let mut copy: Vec<Route> = Vec::new();
    let mut k: usize = 0;
    while k < routes.len()
        invariant
            k <= routes@.len(),
            views(copy@) == views(routes@).take(k as int),
        decreases routes@.len() - k,
    {
        copy.push(Route { host: routes[k].host.clone(), upstream: routes[k].upstream.clone() });
        assert(views(routes@).take(k + 1) =~= views(routes@).take(k as int).push(
            views(routes@)[k as int],
        ));
        k = k + 1;
    }
    assert(views(routes@).take(k as int) =~= views(routes@));
    copy
}

/// Routes a hostname. One that is routed already is refused rather than
/// pointed somewhere else behind its owner's back.
pub fn add_route(file: &[Route], host: &str, upstream: &str) -> (routes: Result<Vec<Route>, String>)
    ensures
        match routes {
            Ok(routes) => !is_routed(views(file@), host@) && views(routes@) == views(file@).push(
                (host@, upstream@),
            ),
            Err(reason) => is_routed(views(file@), host@) && reason@ == host@
                + " is already routed"@,
        },
{
    broadcast use lemma_views_push;

    if routed(file, host) {
        let mut reason = host.to_owned();
        reason.append(" is already routed");
        return Err(reason);
    }
    let mut routes = copy_routes(file);
    routes.push(Route { host: host.to_owned(), upstream: upstream.to_owned() });
    Ok(routes)
}

/// Stops routing a hostname. One that is not routed is refused, because
/// somebody who asked for it believed that it was.
pub fn remove_route(file: &[Route], host: &str) -> (routes: Result<Vec<Route>, String>)
    ensures
        match routes {
            Ok(routes) => is_routed(views(file@), host@) && views(routes@) == views(file@).filter(
                |route: (Seq<char>, Seq<char>)| route.0 != host@,
            ),
            Err(reason) => !is_routed(views(file@), host@) && reason@ == host@
                + " is not routed"@,
        },
{
    broadcast use lemma_views_push;

    if !routed(file, host) {
        let mut reason = host.to_owned();
        reason.append(" is not routed");
        return Err(reason);
    }
    let ghost others = |route: (Seq<char>, Seq<char>)| route.0 != host@;
    let ghost all = views(file@);
    let mut routes: Vec<Route> = Vec::new();
    let mut k: usize = 0;
    proof {
        reveal(Seq::filter);
        assert(all.take(0) =~= seq![]);
    }
    while k < file.len()
        invariant
            k <= file@.len(),
            all == views(file@),
            others == |route: (Seq<char>, Seq<char>)| route.0 != host@,
            views(routes@) == all.take(k as int).filter(others),
        decreases file@.len() - k,
    {
        proof {
            reveal(Seq::filter);
            assert(all.take(k + 1).drop_last() =~= all.take(k as int));
            assert(all.take(k + 1).last() == file@[k as int]@);
        }
        if !same(file[k].host.as_str(), host) {
            routes.push(Route { host: file[k].host.clone(), upstream: file[k].upstream.clone() });
        }
        k = k + 1;
    }
    assert(all.take(k as int) =~= all);
    Ok(routes)
}

/// What the domains file holds, by the document it writes: every host with what
/// it points at, or what is wrong with it.
pub open spec fn domains_of(document: Result<Seq<(Seq<char>, TomlView)>, Seq<char>>) -> Result<
    Seq<(Seq<char>, Seq<char>)>,
    Seq<char>,
> {
    match document {
        Err(reason) => Err(reason),
        Ok(table) => match text_entries("domains"@, table) {
            Ok(routes) => Ok(routes),
            Err(problem) => Err(problem_text(problem)),
        },
    }
}

/// What a list of routes or a refusal says.
pub open spec fn routes_view(routes: Result<Vec<Route>, String>) -> Result<
    Seq<(Seq<char>, Seq<char>)>,
    Seq<char>,
> {
    match routes {
        Ok(routes) => Ok(views(routes@)),
        Err(reason) => Err(reason@),
    }
}

/// The routes in the entries of a domains file.
pub fn routes_in(table: &[(String, Toml)]) -> (routes: Result<Vec<Route>, String>)
    ensures
        routes_view(routes) == domains_of(Ok(views(table@))),
{
    broadcast use lemma_views_push;

    let entries = match read_text_entries("domains", table) {
        Ok(entries) => entries,
        Err(problem) => {
            return Err(problem.to_string());
        },
    };
    let ghost all = views(entries@);
    let mut routes: Vec<Route> = Vec::new();
    let mut i: usize = 0;
    assert(views(routes@) =~= all.take(0));
    while i < entries.len()
        invariant
            i <= entries@.len(),
            all == views(entries@),
            views(routes@) == all.take(i as int),
        decreases entries@.len() - i,
    {
        let ghost before = views(routes@);
        routes.push(Route { host: entries[i].0.clone(), upstream: entries[i].1.clone() });
        assert(views(routes@) =~= before.push(entries@[i as int]@));
        assert(all.take(i + 1) =~= all.take(i as int).push(all[i as int]));
        i = i + 1;
    }
    assert(all.take(i as int) =~= all);
    Ok(routes)
}

/// Reads the domains file.
pub fn domains_in(text: &str) -> (routes: Result<Vec<Route>, String>)
    ensures
        routes_view(routes) == domains_of(toml_document(text@)),
{
    match parse(text) {
        Ok(table) => routes_in(table.as_slice()),
        Err(reason) => Err(reason),
    }
}

/// Whether a host or what it points at is written with nothing but letters,
/// digits and the marks that names, ports and paths are made with.
pub open spec fn is_plain(text: Seq<char>) -> bool {
    forall|i: int| 0 <= i < text.len() ==> is_plain_char(#[trigger] text[i])
}

/// Whether a character is one of those.
pub open spec fn is_plain_char(c: char) -> bool {
    is_letter(c) || is_digit(c) || c == '.' || c == '-' || c == '_' || c == ':' || c == '/' || c
        == '*'
}

/// Whether all routes are written plainly, and every host once.
pub open spec fn are_plain(routes: Seq<(Seq<char>, Seq<char>)>) -> bool {
    &&& hosts_differ(routes)
    &&& forall|i: int|
        0 <= i < routes.len() ==> is_plain((#[trigger] routes[i]).0) && is_plain(routes[i].1)
}

/// Whether a document holds the routes, all of them and nothing else.
pub open spec fn holds(
    document: Result<Seq<(Seq<char>, TomlView)>, Seq<char>>,
    routes: Seq<(Seq<char>, Seq<char>)>,
) -> bool {
    &&& document matches Ok(table)
    &&& table.len() == routes.len()
    &&& forall|i: int|
        0 <= i < table.len() ==> (#[trigger] table[i]).1 is Text && routes.contains(
            (table[i].0, table[i].1->Text_0),
        )
    &&& forall|i: int|
        0 <= i < routes.len() ==> table.contains(
            ((#[trigger] routes[i]).0, TomlView::Text(routes[i].1)),
        )
}

/// The text that records the routes, or why there is none: what
/// `toml::to_string` makes of a table of them.
pub uninterp spec fn toml_text(routes: Seq<(Seq<char>, Seq<char>)>) -> Result<
    Seq<char>,
    Seq<char>,
>;

/// `toml::to_string` of a `toml::Table` that holds every host with what it points
/// at: the text or the error's own words, both decided by the routes alone. A
/// table of plain texts under plain names always has a text, and `toml::from_str`
/// reads that text back as the same entries. What becomes of other characters,
/// which are quoted one way or another, is not stated.
#[verifier::external_body]
fn write_table(routes: &[Route]) -> (text: Result<String, String>)
    ensures
        match text {
            Ok(text) => {
                &&& toml_text(views(routes@)) == Ok::<Seq<char>, Seq<char>>(text@)
                &&& are_plain(views(routes@)) ==> holds(toml_document(text@), views(routes@))
            },
            Err(reason) => {
                &&& toml_text(views(routes@)) == Err::<Seq<char>, Seq<char>>(reason@)
                &&& !are_plain(views(routes@))
            },
        },
{
    let entry = |route: &Route| (route.host.clone(), toml::Value::String(route.upstream.clone()));
    let table: toml::Table = routes.iter().map(entry).collect();
    toml::to_string(&table).map_err(|error| error.to_string())
}

/// Whether reading a text gives the routes back, whatever their order.
pub open spec fn reads_back(text: Seq<char>, routes: Seq<(Seq<char>, Seq<char>)>) -> bool {
    &&& domains_of(toml_document(text)) matches Ok(list)
    &&& list.len() == routes.len()
    &&& forall|i: int| 0 <= i < list.len() ==> routes.contains(#[trigger] list[i])
    &&& forall|i: int| 0 <= i < routes.len() ==> list.contains(#[trigger] routes[i])
}

proof fn lemma_texts_are_read(section: Seq<char>, table: Seq<(Seq<char>, TomlView)>)
    requires
        forall|i: int| 0 <= i < table.len() ==> (#[trigger] table[i]).1 is Text,
    ensures
        text_entries(section, table) matches Ok(list) && list.len() == table.len() && forall|i: int|
            0 <= i < table.len() ==> #[trigger] list[i] == (table[i].0, table[i].1->Text_0),
    decreases table.len(),
{
    if table.len() > 0 {
        assert forall|i: int| 0 <= i < table.drop_last().len() implies (
        #[trigger] table.drop_last()[i]).1 is Text by {
            assert(table.drop_last()[i] == table[i]);
        }
        lemma_texts_are_read(section, table.drop_last());
        let before = text_entries(section, table.drop_last())->Ok_0;
        let list = text_entries(section, table)->Ok_0;
        assert(table[table.len() - 1].1 is Text);
        assert forall|i: int| 0 <= i < table.len() implies #[trigger] list[i] == (
            table[i].0,
            table[i].1->Text_0,
        ) by {
            if i < before.len() {
                assert(list[i] == before[i]);
                assert(table.drop_last()[i] == table[i]);
            }
        }
    }
}

proof fn lemma_what_is_held_is_read(text: Seq<char>, routes: Seq<(Seq<char>, Seq<char>)>)
    requires
        holds(toml_document(text), routes),
    ensures
        reads_back(text, routes),
{
    let table = toml_document(text)->Ok_0;
    lemma_texts_are_read("domains"@, table);
    let list = text_entries("domains"@, table)->Ok_0;
    assert forall|i: int| 0 <= i < list.len() implies routes.contains(#[trigger] list[i]) by {
        assert(table[i].1 is Text);
    }
    assert forall|i: int| 0 <= i < routes.len() implies list.contains(#[trigger] routes[i]) by {
        let entry = (routes[i].0, TomlView::Text(routes[i].1));
        assert(table.contains(entry));
        let k = table.index_of(entry);
        assert(table[k] == entry);
        assert(list[k] == routes[i]);
    }
}

/// The text of the domains file that records the routes. Reading it gives back
/// every one of them and nothing else, where they are written plainly.
pub fn record_of(routes: &[Route]) -> (record: Result<String, String>)
    ensures
        match record {
            Ok(text) => toml_text(views(routes@)) == Ok::<Seq<char>, Seq<char>>(text@),
            Err(reason) => toml_text(views(routes@)) == Err::<Seq<char>, Seq<char>>(reason@),
        },
        are_plain(views(routes@)) ==> record is Ok && reads_back(record->Ok_0@, views(routes@)),
{
    let record = write_table(routes);
    proof {
        if record is Ok && are_plain(views(routes@)) {
            lemma_what_is_held_is_read(record->Ok_0@, views(routes@));
        }
    }
    record
}

/// The block the proxy reads for one route.
pub open spec fn site_block(route: (Seq<char>, Seq<char>)) -> Seq<char> {
    route.0 + " {\n\treverse_proxy "@ + route.1 + "\n}\n"@
}

/// The blocks of all routes, in order.
pub open spec fn site_blocks(routes: Seq<(Seq<char>, Seq<char>)>) -> Seq<char>
    decreases routes.len(),
{
    if routes.len() == 0 {
        seq![]
    } else {
        site_blocks(routes.drop_last()) + site_block(routes.last())
    }
}

/// The file the proxy reads, written from the routes.
pub fn caddyfile(routes: &[Route]) -> (text: String)
    ensures
        text@ == site_blocks(views(routes@)),
{
    let ghost all = views(routes@);
    let mut text = String::new();
    let mut i: usize = 0;
    assert(all.take(0) =~= seq![]);
    while i < routes.len()
        invariant
            i <= routes@.len(),
            all == views(routes@),
            text@ == site_blocks(all.take(i as int)),
        decreases routes@.len() - i,
    {
        assert(all.take(i + 1).drop_last() =~= all.take(i as int));
        assert(all.take(i + 1).last() == routes@[i as int]@);
        let mut block = routes[i].host.clone();
        block.append(" {\n\treverse_proxy ");
        block.append(routes[i].upstream.as_str());
        block.append("\n}\n");
        text.append(block.as_str());
        i = i + 1;
    }
    assert(all.take(i as int) =~= all);
    text
}

/// Something done so that a change is served.
#[derive(Debug, Clone, PartialEq, Eq)]
pub enum SaveStep {
    Write { path: String, text: String },
    Restart { container: String },
}

/// What a step of saving says.
#[verifier::ext_equal]
pub enum SaveStepView {
    Write { path: Seq<char>, text: Seq<char> },
    Restart { container: Seq<char> },
}

impl View for SaveStep {
    type V = SaveStepView;

    open spec fn view(&self) -> SaveStepView {
        match self {
            SaveStep::Write { path, text } => SaveStepView::Write { path: path@, text: text@ },
            SaveStep::Restart { container } => SaveStepView::Restart { container: container@ },
        }
    }
}

/// The steps that save the routes of the file: the record first, then what is
/// generated from it, then the proxy.
pub open spec fn saved(
    routes: Seq<(Seq<char>, Seq<char>)>,
    record: (Seq<char>, Seq<char>),
    generated: Seq<char>,
    container: Seq<char>,
    no_reload: bool,
) -> Seq<SaveStepView> {
    seq![
        SaveStepView::Write { path: record.0, text: record.1 },
        SaveStepView::Write { path: generated, text: site_blocks(routes) },
    ] + if no_reload {
        seq![]
    } else {
        seq![SaveStepView::Restart { container }]
    }
}

/// What saves the routes of the file, in order: `record` goes to `domains`, what
/// the proxy reads to `generated`, and the proxy is restarted unless that is to
/// wait. Where a host is claimed twice nothing is written.
///
/// In that order a crash in between leaves the record of intent intact and the
/// proxy serving what it served before, rather than the other way round. The
/// file keeps only what was edited through it: what the services ask for is
/// written into the generated one and nowhere else.
pub fn save_steps(
    file: &[Route],
    declared: &[(String, String)],
    domains: &str,
    record: &str,
    generated: &str,
    container: &str,
    no_reload: bool,
) -> (steps: Result<Vec<SaveStep>, String>)
    ensures
        match steps {
            Ok(steps) => routes_with(views(file@), views(declared@)) matches Ok(routes) && views(
                steps@,
            ) == saved(routes, (domains@, record@), generated@, container@, no_reload),
            Err(reason) => routes_with(views(file@), views(declared@)) matches Err(host) && reason@
                == clash_text(host, domains@),
        },
{
    broadcast use lemma_views_push;

    let routes = match routes_of(file, declared, domains) {
        Ok(routes) => routes,
        Err(reason) => {
            return Err(reason);
        },
    };
    let mut steps: Vec<SaveStep> = Vec::new();
    steps.push(SaveStep::Write { path: domains.to_owned(), text: record.to_owned() });
    steps.push(
        SaveStep::Write { path: generated.to_owned(), text: caddyfile(routes.as_slice()) },
    );
    if !no_reload {
        steps.push(SaveStep::Restart { container: container.to_owned() });
    }
    assert(views(steps@) =~= saved(
        views(routes@),
        (domains@, record@),
        generated@,
        container@,
        no_reload,
    ));
    Ok(steps)
}

/// What saves the routes of the file: their own record first, then what is
/// generated from it, then the proxy. Where a host is claimed twice, or the
/// routes cannot be recorded, nothing is written.
pub fn save_plan(
    file: &[Route],
    declared: &[(String, String)],
    domains: &str,
    generated: &str,
    container: &str,
    no_reload: bool,
) -> (steps: Result<Vec<SaveStep>, String>)
    ensures
        match routes_with(views(file@), views(declared@)) {
            Err(host) => steps matches Err(reason) && reason@ == clash_text(host, domains@),
            Ok(routes) => match toml_text(views(file@)) {
                Err(why) => steps matches Err(reason) && reason@ == why,
                Ok(record) => {
                    &&& steps matches Ok(steps)
                    &&& views(steps@) == saved(
                        routes,
                        (domains@, record),
                        generated@,
                        container@,
                        no_reload,
                    )
                    &&& are_plain(views(file@)) ==> reads_back(record, views(file@))
                },
            },
        },
        are_plain(views(file@)) && routes_with(views(file@), views(declared@)) is Ok ==> steps is Ok,
{
    if let Err(reason) = routes_of(file, declared, domains) {
        return Err(reason);
    }
    match record_of(file) {
        Ok(record) => save_steps(
            file,
            declared,
            domains,
            record.as_str(),
            generated,
            container,
            no_reload,
        ),
        Err(reason) => Err(reason),
    }
}

/// What is said once the routes are saved.
pub fn saved_line(domains: &str, generated: &str, container: &str, no_reload: bool) -> (line:
    String)
    ensures
        line@ == if no_reload {
            "wrote "@ + domains@ + " and "@ + generated@
                + "; the proxy still serves the previous config until it restarts"@
        } else {
            "wrote the config and restarted "@ + container@
        },
{
    if no_reload {
        let mut line = "wrote ".to_owned();
        line.append(domains);
        line.append(" and ");
        line.append(generated);
        line.append("; the proxy still serves the previous config until it restarts");
        line
    } else {
        let mut line = "wrote the config and restarted ".to_owned();
        line.append(container);
        line
    }
}

/// The line about one route. Which of the two named it decides where to go to
/// change it.
pub open spec fn route_line(
    file: Seq<(Seq<char>, Seq<char>)>,
    route: (Seq<char>, Seq<char>),
) -> Seq<char> {
    column(route.0, 30) + " -> "@ + route.1 + if is_routed(file, route.0) {
        ""@
    } else {
        "  (from its service)"@
    }
}

/// The lines about all routes.
pub open spec fn route_lines(
    file: Seq<(Seq<char>, Seq<char>)>,
    routes: Seq<(Seq<char>, Seq<char>)>,
    file_name: Seq<char>,
) -> Seq<Seq<char>> {
    routes.map_values(|route: (Seq<char>, Seq<char>)| route_line(file, route)) + seq![
        ""@,
        decimal(routes.len()) + " routed, from "@ + file_name + " and the declared services"@,
    ]
}

/// The list of routes. Saying where the answer came from matters when the
/// answer is empty: an unconfigured file and no routes look the same.
pub fn listing(file: &[Route], routes: &[Route], file_name: &str) -> (lines: Vec<String>)
    ensures
        views(lines@) == route_lines(views(file@), views(routes@), file_name@),
{
    broadcast use lemma_views_push;

    let ghost from = views(file@);
    let ghost shown = views(routes@).map_values(
        |route: (Seq<char>, Seq<char>)| route_line(from, route),
    );
    let mut lines: Vec<String> = Vec::new();
    let mut i: usize = 0;
    while i < routes.len()
        invariant
            i <= routes@.len(),
            from == views(file@),
            shown == views(routes@).map_values(
                |route: (Seq<char>, Seq<char>)| route_line(from, route),
            ),
            views(lines@) == shown.take(i as int),
        decreases routes@.len() - i,
    {
        let mut line = fit(routes[i].host.as_str(), 30);
        line.append(" -> ");
        line.append(routes[i].upstream.as_str());
        if routed(file, routes[i].host.as_str()) {
            line.append("");
        } else {
            line.append("  (from its service)");
        }
        lines.push(line);
        assert(shown[i as int] == route_line(from, routes@[i as int]@));
        assert(shown.take(i + 1) =~= shown.take(i as int).push(shown[i as int]));
        i = i + 1;
    }
    assert(shown.take(i as int) =~= shown);
    lines.push("".to_owned());
    let mut total = number_text(routes.len() as u64);
    total.append(" routed, from ");
    total.append(file_name);
    total.append(" and the declared services");
    lines.push(total);
    assert(views(lines@) =~= route_lines(views(file@), views(routes@), file_name@));
    lines
}

/// A host claimed twice is refused, and what is served routes every host once.
pub proof fn law_a_host_is_routed_once(
    file: Seq<(Seq<char>, Seq<char>)>,
    declared: Seq<(Seq<char>, Seq<char>)>,
)
    requires
        hosts_differ(file),
    ensures
        routes_with(file, declared) matches Ok(routes) ==> hosts_differ(routes) && routes.len()
            == file.len() + declared.len(),
    decreases declared.len(),
{
    if declared.len() > 0 {
        law_a_host_is_routed_once(file, declared.drop_last());
        if let Ok(before) = routes_with(file, declared.drop_last()) {
            if let Ok(routes) = routes_with(file, declared) {
                assert forall|i: int, j: int| 0 <= i < j < routes.len() implies (
                #[trigger] routes[i]).0 != (#[trigger] routes[j]).0 by {
                    assert(routes[i] == before[i]);
                    if j < before.len() {
                        assert(routes[j] == before[j]);
                    }
                }
            }
        }
    }
}

/// Routing keeps every host routed once, and stopping what was just routed
/// leaves the file as it was.
pub proof fn law_removing_undoes_adding(
    file: Seq<(Seq<char>, Seq<char>)>,
    host: Seq<char>,
    upstream: Seq<char>,
)
    requires
        hosts_differ(file),
        !is_routed(file, host),
    ensures
        hosts_differ(file.push((host, upstream))),
        file.push((host, upstream)).filter(|route: (Seq<char>, Seq<char>)| route.0 != host) == file,
{
    let others = |route: (Seq<char>, Seq<char>)| route.0 != host;
    reveal(Seq::filter);
    assert(file.push((host, upstream)).drop_last() =~= file);
    lemma_keeps_all(file, others);
    assert forall|i: int, j: int| 0 <= i < j < file.push((host, upstream)).len() implies (
    #[trigger] file.push((host, upstream))[i]).0 != (#[trigger] file.push(
        (host, upstream),
    )[j]).0 by {
        assert(file.push((host, upstream))[i] == file[i]);
    }
}

proof fn lemma_keeps_all(
    file: Seq<(Seq<char>, Seq<char>)>,
    kept: spec_fn((Seq<char>, Seq<char>)) -> bool,
)
    requires
        forall|i: int| 0 <= i < file.len() ==> kept(#[trigger] file[i]),
    ensures
        file.filter(kept) == file,
    decreases file.len(),
{
    reveal(Seq::filter);
    if file.len() > 0 {
        assert forall|i: int| 0 <= i < file.drop_last().len() implies kept(
            #[trigger] file.drop_last()[i],
        ) by {
            assert(file.drop_last()[i] == file[i]);
        }
        lemma_keeps_all(file.drop_last(), kept);
        assert(kept(file.last()));
        assert(file.drop_last().push(file.last()) =~= file);
    }
}

/// The record of what is routed is written before anything that follows from
/// it.
pub proof fn law_the_record_comes_first(
    routes: Seq<(Seq<char>, Seq<char>)>,
    record: (Seq<char>, Seq<char>),
    generated: Seq<char>,
    container: Seq<char>,
    no_reload: bool,
)
    ensures
        saved(routes, record, generated, container, no_reload)[0] == (SaveStepView::Write {
            path: record.0,
            text: record.1,
        }),
        saved(routes, record, generated, container, no_reload).contains(
            SaveStepView::Restart { container },
        ) <==> !no_reload,
{
    if !no_reload {
        assert(saved(routes, record, generated, container, no_reload)[2] == (
        SaveStepView::Restart { container }));
    }
}

/// What is routed is what the file says and then what services declare, in that
/// order, where no host is named twice; the first that is refuses them all, by
/// its name.
#[verifier::rlimit(40)]
pub proof fn law_routes_are_the_file_s_and_then_the_services(
    file: Seq<(Seq<char>, Seq<char>)>,
    declared: Seq<(Seq<char>, Seq<char>)>,
)
    ensures
        match routes_with(file, declared) {
            Ok(routes) => routes == file + declared && forall|i: int|
                0 <= i < declared.len() ==> !is_routed(
                    file + declared.take(i),
                    (#[trigger] declared[i]).0,
                ),
            Err(host) => exists|i: int|
                0 <= i < declared.len() && (#[trigger] declared[i]).0 == host && is_routed(
                    file + declared.take(i),
                    host,
                ) && forall|j: int|
                    0 <= j < i ==> !is_routed(file + declared.take(j), (#[trigger] declared[j]).0),
        },
    decreases declared.len(),
{
    if declared.len() == 0 {
        assert(file + declared =~= file);
    } else {
        let front = declared.drop_last();
        let last = declared.len() - 1;
        law_routes_are_the_file_s_and_then_the_services(file, front);
        assert forall|i: int| 0 <= i < front.len() implies #[trigger] front[i] == declared[i]
            && front.take(i) == declared.take(i) by {
            assert(front.take(i) =~= declared.take(i));
        }
        assert(declared.take(last) =~= front);
        match routes_with(file, front) {
            Ok(before) => {
                assert forall|i: int| 0 <= i < last implies !is_routed(
                    file + declared.take(i),
                    (#[trigger] declared[i]).0,
                ) by {
                    assert(front[i] == declared[i]);
                }
                assert(declared[last] == declared.last());
                if !is_routed(before, declared.last().0) {
                    assert(before.push(declared.last()) =~= file + declared);
                }
            },
            Err(host) => {
                let i = choose|i: int|
                    0 <= i < front.len() && (#[trigger] front[i]).0 == host && is_routed(
                        file + front.take(i),
                        host,
                    ) && forall|j: int|
                        0 <= j < i ==> !is_routed(file + front.take(j), (#[trigger] front[j]).0);
                assert(declared[i] == front[i]);
                assert forall|j: int| 0 <= j < i implies !is_routed(
                    file + declared.take(j),
                    (#[trigger] declared[j]).0,
                ) by {
                    assert(front[j] == declared[j]);
                }
            },
        }
    }
}

/// The generated file holds one block for each route, in order, that sends its
/// host to where the route points.
pub proof fn law_each_route_is_one_block(
    routes: Seq<(Seq<char>, Seq<char>)>,
    host: Seq<char>,
    upstream: Seq<char>,
)
    ensures
        site_blocks(seq![]).len() == 0,
        site_blocks(routes.push((host, upstream))) == site_blocks(routes) + host + " {\n"@
            + "\treverse_proxy "@ + upstream + "\n"@ + "}\n"@,
{
    reveal_strlit(" {\n\treverse_proxy ");
    reveal_strlit("\n}\n");
    reveal_strlit(" {\n");
    reveal_strlit("\treverse_proxy ");
    reveal_strlit("\n");
    reveal_strlit("}\n");
    assert(routes.push((host, upstream)).drop_last() =~= routes);
    assert(" {\n\treverse_proxy "@ =~= " {\n"@ + "\treverse_proxy "@);
    assert("\n}\n"@ =~= "\n"@ + "}\n"@);
    assert(site_blocks(routes.push((host, upstream))) =~= site_blocks(routes) + host + " {\n"@
        + "\treverse_proxy "@ + upstream + "\n"@ + "}\n"@);
}

/// Saving writes the record, then the generated file, and restarts the proxy
/// after both unless it is not to be.
pub proof fn law_the_proxy_is_restarted_last(
    routes: Seq<(Seq<char>, Seq<char>)>,
    record: (Seq<char>, Seq<char>),
    generated: Seq<char>,
    container: Seq<char>,
)
    ensures
        saved(routes, record, generated, container, true) == seq![
            SaveStepView::Write { path: record.0, text: record.1 },
            SaveStepView::Write { path: generated, text: site_blocks(routes) },
        ],
        saved(routes, record, generated, container, false) == saved(
            routes,
            record,
            generated,
            container,
            true,
        ).push(SaveStepView::Restart { container }),
{
    assert(saved(routes, record, generated, container, true) =~= seq![
        SaveStepView::Write { path: record.0, text: record.1 },
        SaveStepView::Write { path: generated, text: site_blocks(routes) },
    ]);
    assert(saved(routes, record, generated, container, false) =~= saved(
        routes,
        record,
        generated,
        container,
        true,
    ).push(SaveStepView::Restart { container }));
}

/// A listing has a line for each route, marked where it comes from a service and
/// not from the file, and ends with how many there are.
pub proof fn law_a_listing_counts_its_routes(
    file: Seq<(Seq<char>, Seq<char>)>,
    routes: Seq<(Seq<char>, Seq<char>)>,
    file_name: Seq<char>,
    i: int,
)
    requires
        0 <= i < routes.len(),
    ensures
        ({
            let lines = route_lines(file, routes, file_name);
            let plain = column(routes[i].0, 30) + " -> "@ + routes[i].1;
            &&& lines.len() == routes.len() + 2
            &&& is_routed(file, routes[i].0) ==> lines[i] == plain
            &&& !is_routed(file, routes[i].0) ==> lines[i] == plain + "  (from its service)"@
            &&& lines.last() == decimal(routes.len()) + " routed, from "@ + file_name
                + " and the declared services"@
        }),
{
    reveal_strlit("");
    let plain = column(routes[i].0, 30) + " -> "@ + routes[i].1;
    assert(plain + ""@ =~= plain);
}

/// A clash names the host and the file it is in.
pub proof fn law_a_clash_names_the_host(host: Seq<char>, file: Seq<char>)
    ensures
        clash_text(host, file) == host + " is already routed — "@ + host
            + " is named both by a service and in "@ + file,
{
}

} // verus!
