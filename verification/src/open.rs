//! Handing something to the rest of the desktop: a URL to a browser, a
//! directory to a file manager.
//!
//! Each platform has an obvious default and every one of them is wrong for
//! somebody - a different browser, a file manager that is not the one the
//! desktop ships, a terminal file manager inside the same window. The default
//! is a starting point rather than a rule, so the command is a template the
//! user can replace.

use crate::platform::Platform;
use crate::text::{
    chars_of, find_text, is_white, law_a_text_is_found_where_it_stands,
    law_only_blank_texts_trim_to_nothing, law_replacing_leaves_the_rest, lemma_views_push, owned,
    position_of, replace_text, replaced, trim, trimmed, views,
};
use vstd::prelude::*;
use vstd::string::*;

verus! {

/// The placeholder replaced by whatever is being opened. Without it the target
/// is appended, which is what almost every opener wants.
pub const TARGET: &'static str = "{}";

#[derive(Debug, Clone, PartialEq, Eq)]
pub struct OpenConfig {
    /// The command that opens a URL.
    pub browser: Vec<String>,
    /// The command that opens a directory.
    pub file_manager: Vec<String>,
}

/// What the configuration of the openers says.
#[verifier::ext_equal]
pub struct OpenConfigView {
    pub browser: Seq<Seq<char>>,
    pub file_manager: Seq<Seq<char>>,
}

impl View for OpenConfig {
    type V = OpenConfigView;

    open spec fn view(&self) -> OpenConfigView {
        OpenConfigView { browser: views(self.browser@), file_manager: views(self.file_manager@) }
    }
}

/// What opens a URL on a platform when nobody has said otherwise.
pub open spec fn browser_on(platform: Platform) -> Seq<Seq<char>> {
    match platform {
        Platform::Windows => seq!["cmd"@, "/C"@, "start"@, ""@, "{}"@],
        Platform::MacOs => seq!["open"@, "{}"@],
        _ => seq!["xdg-open"@, "{}"@],
    }
}

/// What opens a directory on a platform when nobody has said otherwise.
pub open spec fn file_manager_on(platform: Platform) -> Seq<Seq<char>> {
    match platform {
        Platform::Windows => seq!["explorer"@, "{}"@],
        Platform::MacOs => seq!["open"@, "{}"@],
        _ => seq!["xdg-open"@, "{}"@],
    }
}

/// What opens a URL on `platform` when nobody has said otherwise.
pub fn default_browser(platform: Platform) -> (command: Vec<String>)
    ensures
        views(command@) == browser_on(platform),
{
    let command = match platform {
        // The empty argument is the window title `start` expects; without it
        // the URL is taken as the title and nothing opens.
        Platform::Windows => owned(&["cmd", "/C", "start", "", TARGET]),
        Platform::MacOs => owned(&["open", TARGET]),
        _ => owned(&["xdg-open", TARGET]),
    };
    assert(views(command@) =~= browser_on(platform));
    command
}

/// What opens a directory on `platform` when nobody has said otherwise.
pub fn default_file_manager(platform: Platform) -> (command: Vec<String>)
    ensures
        views(command@) == file_manager_on(platform),
{
    let command = match platform {
        Platform::Windows => owned(&["explorer", TARGET]),
        Platform::MacOs => owned(&["open", TARGET]),
        _ => owned(&["xdg-open", TARGET]),
    };
    assert(views(command@) =~= file_manager_on(platform));
    command
}

impl OpenConfig {
    /// The defaults of a platform.
    pub fn default(platform: Platform) -> (config: Self)
        ensures
            config@ == (OpenConfigView {
                browser: browser_on(platform),
                file_manager: file_manager_on(platform),
            }),
    {
        OpenConfig {
            browser: default_browser(platform),
            file_manager: default_file_manager(platform),
        }
    }
}

/// Whether an argument has a place for the target.
pub open spec fn mentions_target(argument: Seq<char>) -> bool {
    position_of(argument, "{}"@) is Some
}

/// The command line that opens `target`: the target in every place made for it,
/// or behind everything else where there is none.
pub open spec fn line_for(template: Seq<Seq<char>>, target: Seq<char>) -> Option<Seq<Seq<char>>> {
    if template.len() == 0 || trimmed(template[0]).len() == 0 {
        None
    } else {
        let rest = template.skip(1);
        let line = seq![template[0]] + rest.map_values(
            |argument: Seq<char>| replaced(argument, "{}"@, target),
        );
        if exists|i: int| 0 <= i < rest.len() && mentions_target(#[trigger] rest[i]) {
            Some(line)
        } else {
            Some(line.push(target))
        }
    }
}

/// Builds the command line that opens `target`.
///
/// Returns `None` for an empty template, which is how a user says "do not open
/// anything" - a deliberate choice that should not be answered by falling back
/// to a default they had just removed.
pub fn command_line(template: &[String], target: &str) -> (line: Option<Vec<String>>)
    ensures
        match line {
            Some(line) => line_for(views(template@), target@) == Some(views(line@)),
            None => line_for(views(template@), target@) is None,
        },
{
    broadcast use lemma_views_push;

    if template.len() == 0 {
        return None;
    }
    if trim(chars_of(template[0].as_str()).as_slice()).len() == 0 {
        return None;
    }
    let place = chars_of(TARGET);
    let mut line: Vec<String> = vec![template[0].clone()];
    let mut substituted = false;
    let ghost all = views(template@);
    let ghost rest = all.skip(1);
    let ghost expected = seq![all[0]] + rest.map_values(
        |argument: Seq<char>| replaced(argument, "{}"@, target@),
    );
    let mut i: usize = 1;
    assert(views(line@) =~= expected.take(1));
    while i < template.len()
        invariant
            1 <= i <= template@.len(),
            place@ == "{}"@,
            all == views(template@),
            rest == all.skip(1),
            expected == seq![all[0]] + rest.map_values(
                |argument: Seq<char>| replaced(argument, "{}"@, target@),
            ),
            views(line@) == expected.take(i as int),
            substituted == exists|j: int| 0 <= j < i - 1 && mentions_target(#[trigger] rest[j]),
        decreases template@.len() - i,
    {
        proof {
            reveal_strlit("{}");
        }
        let argument = &template[i];
        assert(rest[i - 1] == argument@);
        assert(expected[i as int] == replaced(argument@, "{}"@, target@));
        if find_text(chars_of(argument.as_str()).as_slice(), place.as_slice()).is_some() {
            line.push(replace_text(argument.as_str(), TARGET, target));
            substituted = true;
            assert(mentions_target(rest[i - 1]));
        } else {
            line.push(argument.clone());
        }
        assert(expected.take(i + 1) == expected.take(i as int).push(expected[i as int]));
        i = i + 1;
    }
    assert(expected.take(i as int) == expected);
    // A template that never mentions the target still means to open it. The
    // alternative is a command that silently opens nothing.
    if !substituted {
        line.push(target.to_owned());
    }
    Some(line)
}

/// A template opens the target or nothing at all: a command that was built has
/// the target in it, in a place made for it or as its last argument.
pub proof fn law_a_command_opens_its_target(template: Seq<Seq<char>>, target: Seq<char>)
    ensures
        line_for(template, target) matches Some(line) ==> {
            ||| line.last() == target
            ||| exists|i: int|
                1 <= i < template.len() && mentions_target(#[trigger] template[i]) && line[i]
                    == replaced(template[i], "{}"@, target)
        },
{
    if line_for(template, target) is Some {
        let rest = template.skip(1);
        let line = line_for(template, target)->0;
        if exists|i: int| 0 <= i < rest.len() && mentions_target(#[trigger] rest[i]) {
            let i = choose|i: int| 0 <= i < rest.len() && mentions_target(#[trigger] rest[i]);
            assert(template[i + 1] == rest[i]);
            assert(line[i + 1] == replaced(template[i + 1], "{}"@, target));
        }
    }
}

/// A command is run with its program as it is, the target where an argument is
/// the placeholder, and every argument without a brace as it was; the target
/// goes to the end where no argument has a place for it. A command without a
/// program is none.
pub proof fn law_the_target_goes_where_it_is_meant(template: Seq<Seq<char>>, target: Seq<char>)
    ensures
        line_for(template, target) is None <==> template.len() == 0 || (forall|i: int|
            0 <= i < template[0].len() ==> is_white(#[trigger] template[0][i])),
        line_for(template, target) matches Some(line) ==> {
            &&& line[0] == template[0]
            &&& forall|i: int|
                1 <= i < template.len() ==> {
                    &&& template[i] == "{}"@ ==> #[trigger] line[i] == target
                    &&& (forall|j: int| 0 <= j < template[i].len() ==> template[i][j] != '{')
                        ==> line[i] == template[i]
                }
            &&& (exists|i: int| 1 <= i < template.len() && #[trigger] template[i] == "{}"@)
                ==> line.len() == template.len()
            &&& (forall|i: int, j: int|
                1 <= i < template.len() && 0 <= j < template[i].len() ==> #[trigger] template[i][j]
                    != '{') ==> line.len() == template.len() + 1 && line.last() == target
        },
{
    reveal_strlit("{}");
    if template.len() > 0 {
        law_only_blank_texts_trim_to_nothing(template[0]);
    }
    if let Some(line) = line_for(template, target) {
        let rest = template.skip(1);
        assert forall|i: int| 1 <= i < template.len() implies {
            &&& template[i] == "{}"@ ==> #[trigger] line[i] == target
            &&& (forall|j: int| 0 <= j < template[i].len() ==> template[i][j] != '{') ==> line[i]
                == template[i]
        } by {
            assert(rest[i - 1] == template[i]);
            assert(line[i] == replaced(template[i], "{}"@, target));
            if template[i] == "{}"@ {
                let none = Seq::<char>::empty();
                law_replacing_leaves_the_rest(none, "{}"@, target, none);
                assert(none + "{}"@ + none =~= "{}"@);
                assert(none + target + none =~= target);
            }
            if forall|j: int| 0 <= j < template[i].len() ==> template[i][j] != '{' {
                law_replacing_leaves_the_rest(template[i], "{}"@, target, seq![]);
            }
        }
        if exists|i: int| 1 <= i < template.len() && #[trigger] template[i] == "{}"@ {
            let i = choose|i: int| 1 <= i < template.len() && #[trigger] template[i] == "{}"@;
            let none = Seq::<char>::empty();
            law_a_text_is_found_where_it_stands(none, "{}"@, none);
            assert(none + "{}"@ + none =~= "{}"@);
            assert(rest[i - 1] == template[i]);
            assert(mentions_target(rest[i - 1]));
        }
        if forall|i: int, j: int|
            1 <= i < template.len() && 0 <= j < template[i].len() ==> #[trigger] template[i][j]
                != '{' {
            assert forall|i: int| 0 <= i < rest.len() implies !mentions_target(#[trigger] rest[i]) by {
                assert(rest[i] == template[i + 1]);
                law_a_text_is_found_where_it_stands(rest[i], "{}"@, seq![]);
            }
        }
    }
}

/// What opens a page and a directory where nothing is configured.
pub proof fn law_each_platform_opens_its_own_way(platform: Platform)
    ensures
        platform is Windows ==> browser_on(platform) == seq!["cmd"@, "/C"@, "start"@, ""@, "{}"@]
            && file_manager_on(platform) == seq!["explorer"@, "{}"@],
        platform is MacOs ==> browser_on(platform) == seq!["open"@, "{}"@] && file_manager_on(
            platform,
        ) == seq!["open"@, "{}"@],
        !(platform is Windows) && !(platform is MacOs) ==> browser_on(platform) == seq![
            "xdg-open"@,
            "{}"@,
        ] && file_manager_on(platform) == seq!["xdg-open"@, "{}"@],
{
}

} // verus!
