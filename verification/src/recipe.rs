//! Working out how to start a project, and on which port.
//!
//! `php artisan serve` for Laravel, `npm run dev` for a Vite project, and the
//! port each of them lands on: that knowledge is what turns a list of
//! directories into something you can act on. It comes as defaults that can be
//! replaced rather than as rules.
//!
//! Pure: the caller says which files a directory holds and what the
//! configuration overrides, and gets back a command. Nothing here runs it.

use crate::entries::{entry_of, find_entry};
use crate::text::{
    char_is_white, chars_of, copy_maybe, has_part, is_white, leading_white, leading_word,
    lemma_leading_white, lemma_leading_word, lemma_views_push, maybe_text, parts_of,
    trimmed_start, views, words_of,
};
use vstd::prelude::*;
use vstd::string::*;

verus! {

/// A built-in way of starting one kind of project.
#[derive(Debug, Clone, PartialEq, Eq)]
pub struct Recipe {
    pub name: &'static str,
    pub command: &'static str,
    pub port: Option<u16>,
}

/// What a recipe says.
#[verifier::ext_equal]
pub struct RecipeView {
    pub name: Seq<char>,
    pub command: Seq<char>,
    pub port: Option<u16>,
}

impl View for Recipe {
    type V = RecipeView;

    open spec fn view(&self) -> RecipeView {
        RecipeView { name: self.name@, command: self.command@, port: self.port }
    }
}

/// What the configuration says instead, for one recipe or one project.
#[derive(Debug, Clone, PartialEq, Eq)]
pub struct RunOverride {
    pub command: Option<String>,
    pub port: Option<u16>,
}

/// What an override says.
#[verifier::ext_equal]
pub struct RunOverrideView {
    pub command: Option<Seq<char>>,
    pub port: Option<u16>,
}

impl View for RunOverride {
    type V = RunOverrideView;

    open spec fn view(&self) -> RunOverrideView {
        RunOverrideView { command: maybe_text(self.command), port: self.port }
    }
}

impl Default for RunOverride {
    fn default() -> (over: Self)
        ensures
            over@ == (RunOverrideView { command: None, port: None }),
    {
        RunOverride { command: None, port: None }
    }
}

/// What will actually be started.
#[derive(Debug, Clone, PartialEq, Eq)]
pub struct RunPlan {
    /// The recipe this came from, or `None` when only an override named it.
    pub recipe: Option<&'static str>,
    pub command: String,
    pub port: Option<u16>,
}

/// What a plan says.
#[verifier::ext_equal]
pub struct RunPlanView {
    pub recipe: Option<Seq<char>>,
    pub command: Seq<char>,
    pub port: Option<u16>,
}

impl View for RunPlan {
    type V = RunPlanView;

    open spec fn view(&self) -> RunPlanView {
        RunPlanView {
            recipe: match self.recipe {
                Some(name) => Some(name@),
                None => None,
            },
            command: self.command@,
            port: self.port,
        }
    }
}

/// The files that mean a recipe, and the recipe.
pub struct Entry {
    markers: Vec<&'static str>,
    recipe: Recipe,
}

/// One row of the table of recipes.
#[verifier::ext_equal]
pub struct EntryView {
    pub markers: Seq<Seq<char>>,
    pub recipe: RecipeView,
}

impl View for Entry {
    type V = EntryView;

    closed spec fn view(&self) -> EntryView {
        EntryView { markers: parts_of(self.markers@), recipe: self.recipe@ }
    }
}

/// One row of the table.
pub open spec fn row(
    markers: Seq<Seq<char>>,
    name: Seq<char>,
    command: Seq<char>,
    port: u16,
) -> EntryView {
    EntryView { markers, recipe: RecipeView { name, command, port: Some(port) } }
}

/// The built-in recipes, most specific first.
///
/// Order is the whole design. Nearly every Laravel project carries a
/// package.json for its assets, and starting npm there runs a bundler instead
/// of the application - so the marker that means "this is the application" is
/// checked before the one that merely means "this has a frontend build".
pub open spec fn recipes() -> Seq<EntryView> {
    seq![
        row(seq!["artisan"@], "laravel"@, "php artisan serve"@, 8000),
        row(seq!["spark"@], "codeigniter4"@, "php spark serve"@, 8080),
        row(seq!["manage.py"@], "django"@, "python manage.py runserver"@, 8000),
        row(seq!["next.config.js"@], "next"@, "npm run dev"@, 3000),
        row(seq!["next.config.ts"@], "next"@, "npm run dev"@, 3000),
        row(seq!["next.config.mjs"@], "next"@, "npm run dev"@, 3000),
        row(seq!["vite.config.js"@], "vite"@, "npm run dev"@, 5173),
        row(seq!["vite.config.ts"@], "vite"@, "npm run dev"@, 5173),
        row(seq!["main.py"@, "requirements.txt"@], "fastapi"@, "uvicorn main:app --reload"@, 8000),
        row(seq!["go.mod"@], "go"@, "go run ."@, 8080),
        row(seq!["Cargo.toml"@], "rust"@, "cargo run"@, 8080),
        row(seq!["index.php"@, "system"@], "codeigniter3"@, "php -S localhost:8000"@, 8000),
        row(seq!["package.json"@], "node"@, "npm start"@, 3000),
        row(seq!["requirements.txt"@], "python"@, "python app.py"@, 8000),
    ]
}

/// Whether every marker is among the files.
pub open spec fn all_present(markers: Seq<Seq<char>>, present: Seq<Seq<char>>) -> bool {
    forall|i: int| 0 <= i < markers.len() ==> present.contains(#[trigger] markers[i])
}

/// The first row of the table whose markers are all there.
pub open spec fn first_match(table: Seq<EntryView>, present: Seq<Seq<char>>) -> Option<RecipeView>
    decreases table.len(),
{
    if table.len() == 0 {
        None
    } else if all_present(table[0].markers, present) {
        Some(table[0].recipe)
    } else {
        first_match(table.skip(1), present)
    }
}

/// The recipe that files of these names mean.
pub open spec fn recipe_for(present: Seq<Seq<char>>) -> Option<RecipeView> {
    first_match(recipes(), present)
}

fn entry(
    markers: Vec<&'static str>,
    name: &'static str,
    command: &'static str,
    port: u16,
) -> (entry: Entry)
    ensures
        entry@ == row(parts_of(markers@), name@, command@, port),
{
    Entry { markers, recipe: Recipe { name, command, port: Some(port) } }
}

fn table() -> (table: Vec<Entry>)
    ensures
        views(table@) == recipes(),
{
    let table = vec![
        entry(vec!["artisan"], "laravel", "php artisan serve", 8000),
        entry(vec!["spark"], "codeigniter4", "php spark serve", 8080),
        entry(vec!["manage.py"], "django", "python manage.py runserver", 8000),
        entry(vec!["next.config.js"], "next", "npm run dev", 3000),
        entry(vec!["next.config.ts"], "next", "npm run dev", 3000),
        entry(vec!["next.config.mjs"], "next", "npm run dev", 3000),
        entry(vec!["vite.config.js"], "vite", "npm run dev", 5173),
        entry(vec!["vite.config.ts"], "vite", "npm run dev", 5173),
        entry(vec!["main.py", "requirements.txt"], "fastapi", "uvicorn main:app --reload", 8000),
        entry(vec!["go.mod"], "go", "go run .", 8080),
        entry(vec!["Cargo.toml"], "rust", "cargo run", 8080),
        entry(vec!["index.php", "system"], "codeigniter3", "php -S localhost:8000", 8000),
        entry(vec!["package.json"], "node", "npm start", 3000),
        entry(vec!["requirements.txt"], "python", "python app.py", 8000),
    ];
    assert(views(table@) =~~= recipes());
    table
}

fn markers_present(markers: &Vec<&'static str>, present: &[&str]) -> (all: bool)
    ensures
        all == all_present(parts_of(markers@), parts_of(present@)),
{
    let mut i: usize = 0;
    while i < markers.len()
        invariant
            i <= markers@.len(),
            forall|j: int|
                0 <= j < i ==> parts_of(present@).contains(#[trigger] parts_of(markers@)[j]),
        decreases markers@.len() - i,
    {
        assert(parts_of(markers@)[i as int] == markers@[i as int]@);
        if !has_part(present, markers[i]) {
            return false;
        }
        i = i + 1;
    }
    true
}

/// Names the way this project starts, from the files it holds. A directory
/// that says nothing gets nothing rather than a guess.
pub fn detect(present: &[&str]) -> (found: Option<Recipe>)
    ensures
        match found {
            Some(recipe) => recipe_for(parts_of(present@)) == Some(recipe@),
            None => recipe_for(parts_of(present@)) is None,
        },
{
    let table = table();
    let ghost all = views(table@);
    let mut i: usize = 0;
    assert(all.skip(0) =~= all);
    while i < table.len()
        invariant
            i <= table@.len(),
            all == views(table@),
            recipe_for(parts_of(present@)) == first_match(all.skip(i as int), parts_of(present@)),
        decreases table@.len() - i,
    {
        let entry = &table[i];
        assert(all.skip(i as int)[0] == entry@);
        assert(all.skip(i as int).skip(1) =~= all.skip(i + 1));
        if markers_present(&entry.markers, present) {
            return Some(
                Recipe {
                    name: entry.recipe.name,
                    command: entry.recipe.command,
                    port: entry.recipe.port,
                },
            );
        }
        i = i + 1;
    }
    None
}

/// The first of two that is there.
pub open spec fn either<T>(first: Option<T>, second: Option<T>) -> Option<T> {
    if first is Some {
        first
    } else {
        second
    }
}

/// What to run: the project's own entry first, then the recipe's, then the
/// built-in default. Command and port are decided apart.
pub open spec fn plan_of(
    project: Seq<char>,
    present: Seq<Seq<char>>,
    by_recipe: Seq<(Seq<char>, RunOverrideView)>,
    by_project: Seq<(Seq<char>, RunOverrideView)>,
) -> Option<RunPlanView> {
    let nothing = RunOverrideView { command: None, port: None };
    let recipe = recipe_for(present);
    let own = match entry_of(by_project, project) {
        Some(over) => over,
        None => nothing,
    };
    let shared = match recipe {
        Some(found) => match entry_of(by_recipe, found.name) {
            Some(over) => over,
            None => nothing,
        },
        None => nothing,
    };
    let built_in = match recipe {
        Some(found) => RunOverrideView { command: Some(found.command), port: found.port },
        None => nothing,
    };
    match either(own.command, either(shared.command, built_in.command)) {
        Some(command) => Some(
            RunPlanView {
                recipe: match recipe {
                    Some(found) => Some(found.name),
                    None => None,
                },
                command,
                port: either(own.port, either(shared.port, built_in.port)),
            },
        ),
        None => None,
    }
}

/// What an entry of this name says, or nothing.
fn override_for(entries: &[(String, RunOverride)], name: &str) -> (over: RunOverride)
    ensures
        over@ == (match entry_of(views(entries@), name@) {
            Some(over) => over,
            None => RunOverrideView { command: None, port: None },
        }),
{
    match find_entry(entries, name) {
        Some(over) => RunOverride { command: copy_maybe(&over.command), port: over.port },
        None => RunOverride { command: None, port: None },
    }
}

/// Decides what to run: the project's own entry first, then the recipe's, then
/// the built-in default.
///
/// A project name beats a recipe name because it is more specific - and
/// because a project can be called `laravel`, which is not hypothetical.
pub fn plan_for(
    project: &str,
    present: &[&str],
    by_recipe: &[(String, RunOverride)],
    by_project: &[(String, RunOverride)],
) -> (plan: Option<RunPlan>)
    ensures
        match plan {
            Some(plan) => plan_of(
                project@,
                parts_of(present@),
                views(by_recipe@),
                views(by_project@),
            ) == Some(plan@),
            None => plan_of(
                project@,
                parts_of(present@),
                views(by_recipe@),
                views(by_project@),
            ) is None,
        },
{
    let recipe = detect(present);
    let own = override_for(by_project, project);
    let shared = match &recipe {
        Some(found) => override_for(by_recipe, found.name),
        None => RunOverride { command: None, port: None },
    };
    let command: String = match own.command {
        Some(command) => command,
        None => match shared.command {
            Some(command) => command,
            None => match &recipe {
                Some(found) => found.command.to_owned(),
                None => {
                    return None;
                },
            },
        },
    };
    let port: Option<u16> = match own.port {
        Some(port) => Some(port),
        None => match shared.port {
            Some(port) => Some(port),
            None => match &recipe {
                Some(found) => found.port,
                None => None,
            },
        },
    };
    let name: Option<&'static str> = match &recipe {
        Some(found) => Some(found.name),
        None => None,
    };
    Some(RunPlan { recipe: name, command, port })
}

/// The arguments in the rest of a command, given the argument under way: what
/// it holds so far, whether it has begun, and the quote it stands in.
pub open spec fn split_from(
    rest: Seq<char>,
    current: Seq<char>,
    started: bool,
    quote: Option<char>,
) -> Seq<Seq<char>>
    decreases rest.len(),
{
    if rest.len() == 0 {
        if started || current.len() > 0 {
            seq![current]
        } else {
            seq![]
        }
    } else {
        let c = rest[0];
        let after = rest.skip(1);
        match quote {
            Some(open) => if c == open {
                split_from(after, current, started, None)
            } else {
                split_from(after, current.push(c), started, quote)
            },
            None => if c == '"' || c == '\'' {
                split_from(after, current, true, Some(c))
            } else if is_white(c) {
                if started || current.len() > 0 {
                    seq![current] + split_from(after, seq![], false, None)
                } else {
                    split_from(after, current, started, None)
                }
            } else {
                split_from(after, current.push(c), started, None)
            },
        }
    }
}

/// The arguments of a command.
pub open spec fn arguments_of(command: Seq<char>) -> Seq<Seq<char>> {
    split_from(command, seq![], false, None)
}

/// Splits a command the way a shell would, so a configured command can carry
/// a quoted argument without it becoming two.
pub fn split(command: &str) -> (parts: Vec<String>)
    ensures
        views(parts@) == arguments_of(command@),
{
    broadcast use lemma_views_push;

    let chars = chars_of(command);
    let mut parts: Vec<String> = Vec::new();
    let mut current = String::new();
    let mut quote: Option<char> = None;
    let mut started = false;
    let mut i: usize = 0;
    assert(chars@.skip(0) == command@);
    assert(views(parts@) + split_from(chars@.skip(0), current@, started, quote) =~= arguments_of(
        command@,
    ));
    while i < chars.len()
        invariant
            i <= chars@.len(),
            views(parts@) + split_from(chars@.skip(i as int), current@, started, quote)
                == arguments_of(command@),
        decreases chars@.len() - i,
    {
        let c = chars[i];
        let ghost rest = chars@.skip(i as int);
        let ghost before = views(parts@);
        let ghost held = current@;
        assert(rest[0] == c);
        assert(rest.skip(1) == chars@.skip(i + 1));
        match quote {
            Some(open) => {
                if c == open {
                    quote = None;
                } else {
                    current.push(c);
                }
            },
            None => {
                if c == '"' || c == '\'' {
                    quote = Some(c);
                    // An empty quoted string is still an argument.
                    started = true;
                } else if char_is_white(c) {
                    if started || !current.as_str().is_empty() {
                        parts.push(current);
                        current = String::new();
                        started = false;
                        assert(views(parts@) + split_from(rest.skip(1), seq![], false, None)
                            =~= before + (seq![held] + split_from(
                            rest.skip(1),
                            seq![],
                            false,
                            None,
                        )));
                    }
                } else {
                    current.push(c);
                }
            },
        }
        i = i + 1;
    }
    if started || !current.as_str().is_empty() {
        parts.push(current);
    }
    parts
}

/// A project's own entry decides before anything else does: where it names a
/// command, that is the command, and where it names a port, that is the port.
pub proof fn law_a_project_beats_its_recipe(
    project: Seq<char>,
    present: Seq<Seq<char>>,
    by_recipe: Seq<(Seq<char>, RunOverrideView)>,
    by_project: Seq<(Seq<char>, RunOverrideView)>,
)
    ensures
        entry_of(by_project, project) matches Some(own) ==> {
            &&& own.command matches Some(command) ==> (plan_of(
                project,
                present,
                by_recipe,
                by_project,
            ) matches Some(plan) && plan.command == command)
            &&& own.port matches Some(port) ==> (plan_of(project, present, by_recipe, by_project)
                matches Some(plan) ==> plan.port == Some(port))
        },
{
}

/// A directory that says nothing about how it starts gets no command unless one
/// is given by hand, and a directory with a recipe always gets one.
pub proof fn law_nothing_is_guessed(
    project: Seq<char>,
    present: Seq<Seq<char>>,
    by_recipe: Seq<(Seq<char>, RunOverrideView)>,
    by_project: Seq<(Seq<char>, RunOverrideView)>,
)
    ensures
        plan_of(project, present, by_recipe, by_project) is Some <==> (recipe_for(present) is Some
            || (entry_of(by_project, project) matches Some(own) && own.command is Some)),
{
}

/// An application that carries a frontend build is started as the application:
/// a directory with an `artisan` in it is Laravel, whatever else is there.
pub proof fn law_the_application_comes_before_its_assets(present: Seq<Seq<char>>)
    requires
        present.contains("artisan"@),
    ensures
        recipe_for(present) == Some(
            RecipeView { name: "laravel"@, command: "php artisan serve"@, port: Some(8000) },
        ),
{
    assert(all_present(seq!["artisan"@], present));
}

/// A command without quotes is split into its words.
pub proof fn law_unquoted_commands_split_into_words(command: Seq<char>)
    requires
        forall|i: int| 0 <= i < command.len() ==> command[i] != '"' && command[i] != '\'',
    ensures
        arguments_of(command) == words_of(command),
{
    lemma_split_from_is_words(command, seq![]);
    assert(Seq::<char>::empty() + command =~= command);
}

proof fn lemma_split_from_is_words(rest: Seq<char>, current: Seq<char>)
    requires
        forall|i: int| 0 <= i < rest.len() ==> rest[i] != '"' && rest[i] != '\'',
        forall|i: int| 0 <= i < current.len() ==> !is_white(#[trigger] current[i]),
    ensures
        split_from(rest, current, false, None) == words_of(current + rest),
    decreases rest.len(),
{
    let whole = current + rest;
    lemma_leading_white(whole);
    if current.len() > 0 {
        assert(whole[0] == current[0]);
        assert(leading_white(whole) == 0);
        assert(trimmed_start(whole) =~= whole);
        lemma_leading_word(whole);
    }
    if rest.len() == 0 {
        if current.len() > 0 {
            assert(leading_word(whole) == whole.len()) by {
                if leading_word(whole) < whole.len() {
                    assert(is_white(current[leading_word(whole)]));
                }
            }
            assert(whole.take(leading_word(whole)) =~= current);
            let left = whole.skip(leading_word(whole));
            assert(left.len() == 0);
            lemma_leading_white(left);
            assert(words_of(left) =~= seq![]);
            assert(words_of(whole) =~= seq![current]);
            assert(split_from(rest, current, false, None) =~= words_of(whole));
        } else {
            assert(trimmed_start(whole).len() == 0);
            assert(split_from(rest, current, false, None) =~= words_of(whole));
        }
    } else {
        let c = rest[0];
        let after = rest.skip(1);
        assert forall|i: int| 0 <= i < after.len() implies after[i] != '"' && after[i] != '\'' by {
            assert(after[i] == rest[i + 1]);
        }
        assert(rest =~= seq![c] + after);
        if is_white(c) {
            lemma_split_from_is_words(after, seq![]);
            assert(Seq::<char>::empty() + after =~= after);
            assert(words_of(rest) == words_of(after)) by {
                assert(leading_white(rest) == 1 + leading_white(after));
                lemma_leading_white(after);
                assert(trimmed_start(rest) =~= trimmed_start(after));
            }
            if current.len() > 0 {
                assert(leading_word(whole) == current.len()) by {
                    assert(whole[current.len() as int] == c);
                    if leading_word(whole) < current.len() {
                        assert(is_white(current[leading_word(whole)]));
                    }
                }
                assert(whole.take(current.len() as int) =~= current);
                assert(whole.skip(current.len() as int) =~= rest);
                assert(words_of(whole) == seq![current] + words_of(rest));
                assert(split_from(rest, current, false, None) =~= words_of(whole));
            } else {
                assert(whole =~= rest);
                assert(current =~= seq![]);
                assert(split_from(rest, current, false, None) =~= words_of(whole));
            }
        } else {
            lemma_split_from_is_words(after, current.push(c));
            assert(current.push(c) + after =~= whole);
            assert(split_from(rest, current, false, None) =~= words_of(whole));
        }
    }
}

/// A quoted argument stays one argument, white space and all.
pub proof fn law_a_quoted_argument_stays_whole(argument: Seq<char>, quote: char)
    requires
        quote == '"' || quote == '\'',
        forall|i: int| 0 <= i < argument.len() ==> argument[i] != quote,
    ensures
        arguments_of(seq![quote] + argument + seq![quote]) == seq![argument],
{
    let command = seq![quote] + argument + seq![quote];
    let rest = argument + seq![quote];
    assert(command.skip(1) =~= rest);
    lemma_quoted_runs_on(argument, seq![], quote);
    assert(Seq::<char>::empty() + argument =~= argument);
}

proof fn lemma_quoted_runs_on(argument: Seq<char>, current: Seq<char>, quote: char)
    requires
        forall|i: int| 0 <= i < argument.len() ==> argument[i] != quote,
    ensures
        split_from(argument + seq![quote], current, true, Some(quote)) == seq![current + argument],
    decreases argument.len(),
{
    let rest = argument + seq![quote];
    if argument.len() == 0 {
        assert(rest.skip(1) =~= seq![]);
        assert(current + argument =~= current);
        assert(split_from(rest.skip(1), current, true, None) == seq![current]);
    } else {
        let after = argument.skip(1);
        assert forall|i: int| 0 <= i < after.len() implies after[i] != quote by {
            assert(after[i] == argument[i + 1]);
        }
        assert(rest.skip(1) =~= after + seq![quote]);
        assert(rest[0] == argument[0]);
        lemma_quoted_runs_on(after, current.push(argument[0]), quote);
        assert(current.push(argument[0]) + after =~= current + argument);
    }
}

/// Whether a directory is started as `name`, with `command` on `port`.
pub open spec fn starts_as(
    present: Seq<Seq<char>>,
    name: Seq<char>,
    command: Seq<char>,
    port: u16,
) -> bool {
    recipe_for(present) matches Some(recipe) && recipe.name == name && recipe.command == command
        && recipe.port == Some(port)
}

/// What only an application leaves behind decides before anything else, in this
/// order: `artisan`, `spark`, `manage.py`.
pub proof fn law_an_application_is_started_as_itself(present: Seq<Seq<char>>)
    ensures
        present.contains("artisan"@) ==> starts_as(present, "laravel"@, "php artisan serve"@, 8000),
        !present.contains("artisan"@) && present.contains("spark"@) ==> starts_as(
            present,
            "codeigniter4"@,
            "php spark serve"@,
            8080,
        ),
        !present.contains("artisan"@) && !present.contains("spark"@) && present.contains(
            "manage.py"@,
        ) ==> starts_as(present, "django"@, "python manage.py runserver"@, 8000),
{
    lemma_recipe_rows(present);
}

/// A frontend framework is started with its own port, whatever the name of its
/// configuration ends in: Next before Vite, where no application is there.
pub proof fn law_a_frontend_is_started_on_its_port(present: Seq<Seq<char>>)
    requires
        !present.contains("artisan"@),
        !present.contains("spark"@),
        !present.contains("manage.py"@),
    ensures
        ({
            let next = present.contains("next.config.js"@) || present.contains("next.config.ts"@)
                || present.contains("next.config.mjs"@);
            let vite = present.contains("vite.config.js"@) || present.contains("vite.config.ts"@);
            &&& next ==> starts_as(present, "next"@, "npm run dev"@, 3000)
            &&& !next && vite ==> starts_as(present, "vite"@, "npm run dev"@, 5173)
        }),
{
    lemma_recipe_rows(present);
}

/// A service is started as what it is written in, where no application and no
/// frontend framework is there. A package.json beside it changes nothing.
pub proof fn law_a_service_is_started_as_itself(present: Seq<Seq<char>>)
    requires
        !present.contains("artisan"@),
        !present.contains("spark"@),
        !present.contains("manage.py"@),
        !present.contains("next.config.js"@),
        !present.contains("next.config.ts"@),
        !present.contains("next.config.mjs"@),
        !present.contains("vite.config.js"@),
        !present.contains("vite.config.ts"@),
    ensures
        ({
            let fastapi = present.contains("main.py"@) && present.contains("requirements.txt"@);
            let go = present.contains("go.mod"@);
            let rust = present.contains("Cargo.toml"@);
            let codeigniter = present.contains("index.php"@) && present.contains("system"@);
            &&& fastapi ==> starts_as(present, "fastapi"@, "uvicorn main:app --reload"@, 8000)
            &&& !fastapi && go ==> starts_as(present, "go"@, "go run ."@, 8080)
            &&& !fastapi && !go && rust ==> starts_as(present, "rust"@, "cargo run"@, 8080)
            &&& !fastapi && !go && !rust && codeigniter ==> starts_as(
                present,
                "codeigniter3"@,
                "php -S localhost:8000"@,
                8000,
            )
        }),
{
    lemma_recipe_rows(present);
}

/// npm starts a project only where nothing else could: a directory with a
/// package.json is a node project exactly where no marker of another kind is
/// there but a plain requirements.txt. That last one means Python where nothing
/// else is there, and a directory with none of these means nothing.
#[verifier::rlimit(40)]
pub proof fn law_npm_is_the_last_resort(present: Seq<Seq<char>>)
    ensures
        ({
            let other = present.contains("artisan"@) || present.contains("spark"@)
                || present.contains("manage.py"@) || present.contains("next.config.js"@)
                || present.contains("next.config.ts"@) || present.contains("next.config.mjs"@)
                || present.contains("vite.config.js"@) || present.contains("vite.config.ts"@) || (
            present.contains("main.py"@) && present.contains("requirements.txt"@))
                || present.contains("go.mod"@) || present.contains("Cargo.toml"@) || (
            present.contains("index.php"@) && present.contains("system"@));
            &&& (recipe_for(present) matches Some(recipe) && recipe.name == "node"@) <==> !other
                && present.contains("package.json"@)
            &&& !other && present.contains("package.json"@) ==> starts_as(
                present,
                "node"@,
                "npm start"@,
                3000,
            )
            &&& !other && !present.contains("package.json"@) && present.contains(
                "requirements.txt"@,
            ) ==> starts_as(present, "python"@, "python app.py"@, 8000)
            &&& recipe_for(present) is None <==> !other && !present.contains("package.json"@)
                && !present.contains("requirements.txt"@)
        }),
{
    reveal_strlit("node");
    reveal_strlit("laravel");
    reveal_strlit("codeigniter4");
    reveal_strlit("django");
    reveal_strlit("next");
    reveal_strlit("vite");
    reveal_strlit("fastapi");
    reveal_strlit("go");
    reveal_strlit("rust");
    reveal_strlit("codeigniter3");
    reveal_strlit("python");
    assert("node"@[0] == 'n' && "node"@[1] == 'o');
    assert("next"@[1] == 'e');
    assert("vite"@[0] == 'v');
    assert("rust"@[0] == 'r');
    lemma_recipe_rows(present);
}

#[verifier::rlimit(40)]
proof fn lemma_recipe_rows(present: Seq<Seq<char>>)
    ensures
        recipe_for(present) == (if present.contains("artisan"@) {
            Some(recipes()[0].recipe)
        } else if present.contains("spark"@) {
            Some(recipes()[1].recipe)
        } else if present.contains("manage.py"@) {
            Some(recipes()[2].recipe)
        } else if present.contains("next.config.js"@) {
            Some(recipes()[3].recipe)
        } else if present.contains("next.config.ts"@) {
            Some(recipes()[4].recipe)
        } else if present.contains("next.config.mjs"@) {
            Some(recipes()[5].recipe)
        } else if present.contains("vite.config.js"@) {
            Some(recipes()[6].recipe)
        } else if present.contains("vite.config.ts"@) {
            Some(recipes()[7].recipe)
        } else if present.contains("main.py"@) && present.contains("requirements.txt"@) {
            Some(recipes()[8].recipe)
        } else if present.contains("go.mod"@) {
            Some(recipes()[9].recipe)
        } else if present.contains("Cargo.toml"@) {
            Some(recipes()[10].recipe)
        } else if present.contains("index.php"@) && present.contains("system"@) {
            Some(recipes()[11].recipe)
        } else if present.contains("package.json"@) {
            Some(recipes()[12].recipe)
        } else if present.contains("requirements.txt"@) {
            Some(recipes()[13].recipe)
        } else {
            None
        }),
{
    let table = recipes();
    assert forall|i: int| 0 <= i < table.len() implies #[trigger] table.skip(i)[0] == table[i] by {}
    assert(table.skip(0) =~= table);
    lemma_next_row(table, 0, present);
    lemma_next_row(table, 1, present);
    lemma_next_row(table, 2, present);
    lemma_next_row(table, 3, present);
    lemma_next_row(table, 4, present);
    lemma_next_row(table, 5, present);
    lemma_next_row(table, 6, present);
    lemma_next_row(table, 7, present);
    lemma_next_row(table, 8, present);
    lemma_next_row(table, 9, present);
    lemma_next_row(table, 10, present);
    lemma_next_row(table, 11, present);
    lemma_next_row(table, 12, present);
    lemma_next_row(table, 13, present);
    lemma_two_markers(table[8].markers, present);
    lemma_two_markers(table[11].markers, present);
    assert(first_match(table.skip(14), present) is None);
}

proof fn lemma_two_markers(markers: Seq<Seq<char>>, present: Seq<Seq<char>>)
    requires
        markers.len() == 2,
    ensures
        all_present(markers, present) == (present.contains(markers[0]) && present.contains(
            markers[1],
        )),
{
}

proof fn lemma_next_row(table: Seq<EntryView>, at: int, present: Seq<Seq<char>>)
    requires
        0 <= at < table.len(),
    ensures
        first_match(table.skip(at), present) == (if all_present(table[at].markers, present) {
            Some(table[at].recipe)
        } else {
            first_match(table.skip(at + 1), present)
        }),
        table[at].markers.len() == 1 ==> all_present(table[at].markers, present)
            == present.contains(table[at].markers[0]),
{
    assert(table.skip(at).skip(1) =~= table.skip(at + 1));
    assert(table.skip(at)[0] == table[at]);
}

/// What the configuration says for a recipe beats what is built in, command and
/// port apart, where the project says nothing of its own; what neither says is
/// the recipe's. A plan carries the name of its recipe.
pub proof fn law_a_recipe_can_be_overridden(
    project: Seq<char>,
    present: Seq<Seq<char>>,
    by_recipe: Seq<(Seq<char>, RunOverrideView)>,
    by_project: Seq<(Seq<char>, RunOverrideView)>,
    found: RecipeView,
    shared: RunOverrideView,
)
    requires
        recipe_for(present) == Some(found),
        entry_of(by_project, project) is None,
    ensures
        plan_of(project, present, by_recipe, by_project) matches Some(plan) && plan.recipe == Some(
            found.name,
        ) && (entry_of(by_recipe, found.name) is None ==> plan.command == found.command && plan.port
            == found.port) && (entry_of(by_recipe, found.name) == Some(shared) ==> {
            &&& plan.command == (if shared.command is Some {
                shared.command->0
            } else {
                found.command
            })
            &&& plan.port == (if shared.port is Some {
                shared.port
            } else {
                found.port
            })
        }),
{
}

/// A project that no recipe fits runs what its own entry says, on the port that
/// says, and is not called by any recipe's name.
pub proof fn law_an_unknown_project_runs_its_own_command(
    project: Seq<char>,
    present: Seq<Seq<char>>,
    by_recipe: Seq<(Seq<char>, RunOverrideView)>,
    by_project: Seq<(Seq<char>, RunOverrideView)>,
    command: Seq<char>,
    port: Option<u16>,
)
    requires
        recipe_for(present) is None,
        entry_of(by_project, project) == Some(RunOverrideView { command: Some(command), port }),
    ensures
        plan_of(project, present, by_recipe, by_project) == Some(
            RunPlanView { recipe: None, command, port },
        ),
{
}

/// White space ends an argument and quotes keep it in: a plain beginning and a
/// quoted part behind it are one argument without its quotes, and what follows
/// the white space behind it is read as a command of its own.
pub proof fn law_arguments_come_apart(
    front: Seq<char>,
    quote: char,
    body: Seq<char>,
    c: char,
    rest: Seq<char>,
)
    requires
        forall|i: int|
            0 <= i < front.len() ==> !is_white(#[trigger] front[i]) && front[i] != '"' && front[i]
                != '\'',
        quote == '"' || quote == '\'',
        forall|i: int| 0 <= i < body.len() ==> body[i] != quote,
        is_white(c),
    ensures
        arguments_of(front + seq![quote] + body + seq![quote]) == seq![front + body],
        arguments_of(front + seq![quote] + body + seq![quote] + seq![c] + rest) == seq![front + body]
            + arguments_of(rest),
        front.len() > 0 ==> arguments_of(front + seq![c] + rest) == seq![front] + arguments_of(rest),
        arguments_of(seq![c] + rest) == arguments_of(rest),
{
    let none = Seq::<char>::empty();
    let inner = body + seq![quote];
    let end = none;
    let quoted = seq![quote] + inner;
    lemma_plain_runs_on(front, none, quoted, false);
    assert(front + quoted =~= front + seq![quote] + body + seq![quote]);
    assert(none + front =~= front);
    assert(quoted.skip(1) =~= inner);
    lemma_quotes_keep(body, front, quote, none);
    assert(body + seq![quote] + none =~= inner);
    let tail = seq![c] + rest;
    let longer = seq![quote] + (body + seq![quote] + tail);
    lemma_plain_runs_on(front, none, longer, false);
    assert(front + longer =~= front + seq![quote] + body + seq![quote] + seq![c] + rest);
    assert(longer.skip(1) =~= body + seq![quote] + tail);
    lemma_quotes_keep(body, front, quote, tail);
    assert(tail.skip(1) =~= rest);
    lemma_plain_runs_on(front, none, tail, false);
    assert(front + tail =~= front + seq![c] + rest);
}

proof fn lemma_plain_runs_on(
    front: Seq<char>,
    current: Seq<char>,
    rest: Seq<char>,
    started: bool,
)
    requires
        forall|i: int|
            0 <= i < front.len() ==> !is_white(#[trigger] front[i]) && front[i] != '"' && front[i]
                != '\'',
    ensures
        split_from(front + rest, current, started, None) == split_from(
            rest,
            current + front,
            started,
            None,
        ),
    decreases front.len(),
{
    if front.len() == 0 {
        assert(front + rest =~= rest);
        assert(current + front =~= current);
    } else {
        let whole = front + rest;
        assert(whole[0] == front[0]);
        assert(whole.skip(1) =~= front.skip(1) + rest);
        assert(current.push(front[0]) + front.skip(1) =~= current + front);
        lemma_plain_runs_on(front.skip(1), current.push(front[0]), rest, started);
    }
}

proof fn lemma_quotes_keep(body: Seq<char>, current: Seq<char>, quote: char, rest: Seq<char>)
    requires
        forall|i: int| 0 <= i < body.len() ==> body[i] != quote,
    ensures
        split_from(body + seq![quote] + rest, current, true, Some(quote)) == split_from(
            rest,
            current + body,
            true,
            None,
        ),
    decreases body.len(),
{
    let whole = body + seq![quote] + rest;
    if body.len() == 0 {
        assert(whole[0] == quote);
        assert(whole.skip(1) =~= rest);
        assert(current + body =~= current);
    } else {
        assert(whole[0] == body[0]);
        assert(whole.skip(1) =~= body.skip(1) + seq![quote] + rest);
        assert(current.push(body[0]) + body.skip(1) =~= current + body);
        lemma_quotes_keep(body.skip(1), current.push(body[0]), quote, rest);
    }
}

} // verus!
