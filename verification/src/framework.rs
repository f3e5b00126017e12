//! Naming what a project is built on, and which version of it.
//!
//! Pure: the caller reads whichever files exist and passes their contents, so
//! the precedence rules and the version parsing are testable without a project
//! on disk.
//!
//! Where a framework ships its own version constant, that is preferred over
//! the constraint in a manifest. A constraint says what was asked for; the
//! installed source says what is actually there, and those differ often enough
//! to matter.

use crate::entries::{entry_of, find_entry};
use crate::json::{
    json_document, parse, read_text_fields_member, text_fields_member, Json, JsonView,
};
use crate::text::{
    begins_with, char_is_digit, chars_of, find_text, is_digit, is_white,
    law_a_text_is_found_where_it_stands, law_trimming_keeps_the_core, law_words_come_apart,
    leading_white, lemma_leading_white, lines, lines_of, maybe_text, position_of, starts_with,
    string_of, trim, trim_end_char, trim_start, trim_start_char, trimmed, trimmed_end_of,
    trimmed_start, trimmed_start_of, views, words, words_of,
};
use vstd::prelude::*;
use vstd::slice::*;
use vstd::string::*;

verus! {

/// The files a detector may consult. Absent ones are simply not read.
#[derive(Debug)]
pub struct Manifests<'a> {
    pub composer_json: Option<&'a str>,
    /// `vendor/laravel/framework/src/Illuminate/Foundation/Application.php`,
    /// which carries the installed version as a constant.
    pub laravel_application_php: Option<&'a str>,
    pub package_json: Option<&'a str>,
    /// `system/core/CodeIgniter.php`, from before CodeIgniter used composer.
    pub codeigniter_php: Option<&'a str>,
    pub go_mod: Option<&'a str>,
    pub cargo_toml: Option<&'a str>,
}

impl<'a> Default for Manifests<'a> {
    fn default() -> (manifests: Self)
        ensures
            manifests.composer_json is None,
            manifests.laravel_application_php is None,
            manifests.package_json is None,
            manifests.codeigniter_php is None,
            manifests.go_mod is None,
            manifests.cargo_toml is None,
    {
        Manifests {
            composer_json: None,
            laravel_application_php: None,
            package_json: None,
            codeigniter_php: None,
            go_mod: None,
            cargo_toml: None,
        }
    }
}

/// The text with everything that cannot stand in a version blanked out.
pub open spec fn blanked(constraint: Seq<char>) -> Seq<char> {
    constraint.map_values(
        |c: char|
            if is_digit(c) || c == '.' {
                c
            } else {
                ' '
            },
    )
}

/// The first word that begins with a digit.
pub open spec fn first_number(tokens: Seq<Seq<char>>) -> Option<Seq<char>>
    decreases tokens.len(),
{
    if tokens.len() == 0 {
        None
    } else if tokens[0].len() > 0 && is_digit(tokens[0][0]) {
        Some(tokens[0])
    } else {
        first_number(tokens.skip(1))
    }
}

/// The first version a constraint mentions, without dots around it.
pub open spec fn loosened(constraint: Seq<char>) -> Option<Seq<char>> {
    match first_number(words_of(blanked(constraint))) {
        Some(token) => Some(trimmed_end_of(trimmed_start_of(token, '.'), '.')),
        None => None,
    }
}

/// The text between the first `after` and the first `before` behind it.
pub open spec fn text_between(source: Seq<char>, after: Seq<char>, before: Seq<char>) -> Option<
    Seq<char>,
> {
    match position_of(source, after) {
        Some(at) => {
            let rest = source.skip(at + after.len());
            match position_of(rest, before) {
                Some(end) => Some(rest.take(end)),
                None => None,
            }
        },
        None => None,
    }
}

/// The version on the first line that is a `go` directive.
pub open spec fn go_version(lines: Seq<Seq<char>>) -> Option<Seq<char>>
    decreases lines.len(),
{
    if lines.len() == 0 {
        None
    } else {
        let line = trimmed(lines[0]);
        if begins_with(line, "go "@) {
            let version = trimmed(line.skip("go "@.len() as int));
            if version.len() == 0 {
                None
            } else {
                Some(version)
            }
        } else {
            go_version(lines.skip(1))
        }
    }
}

/// The value a line gives a key, without its quotes.
pub open spec fn value_on_line(line: Seq<char>, key: Seq<char>) -> Option<Seq<char>> {
    let text = trimmed(line);
    if !begins_with(text, key) {
        None
    } else {
        let rest = trimmed_start(text.skip(key.len() as int));
        if rest.len() == 0 || rest[0] != '=' {
            None
        } else {
            Some(trimmed_end_of(trimmed_start_of(trimmed(rest.skip(1)), '"'), '"'))
        }
    }
}

/// The value the first line that gives one gives a key.
pub open spec fn first_value(lines: Seq<Seq<char>>, key: Seq<char>) -> Option<Seq<char>>
    decreases lines.len(),
{
    if lines.len() == 0 {
        None
    } else if value_on_line(lines[0], key) is Some {
        value_on_line(lines[0], key)
    } else {
        first_value(lines.skip(1), key)
    }
}

/// The version of a package, from the first of two lists that names it.
pub open spec fn package_version(
    first: Seq<(Seq<char>, Seq<char>)>,
    second: Seq<(Seq<char>, Seq<char>)>,
    package: Seq<char>,
) -> Option<Seq<char>> {
    match entry_of(first, package) {
        Some(constraint) => loosened(constraint),
        None => match entry_of(second, package) {
            Some(constraint) => loosened(constraint),
            None => None,
        },
    }
}

/// A framework and its version, where there is one.
pub open spec fn labelled(name: Seq<char>, version: Option<Seq<char>>) -> Option<Seq<char>> {
    match version {
        Some(version) => Some(name + version),
        None => None,
    }
}

/// The first of these that is there.
pub open spec fn first_found(found: Seq<Option<Seq<char>>>) -> Option<Seq<char>>
    decreases found.len(),
{
    if found.len() == 0 {
        None
    } else if found[0] is Some {
        found[0]
    } else {
        first_found(found.skip(1))
    }
}

/// The framework a `composer.json` asks for.
pub open spec fn composer_framework(document: Option<JsonView>) -> Option<Seq<char>> {
    match document {
        None => None,
        Some(json) => match (
            text_fields_member(json, 0, 2, "require"@),
            text_fields_member(json, 1, 2, "require-dev"@),
        ) {
            (Some(require), Some(require_dev)) => first_found(
                seq![
                    labelled(
                        "Laravel "@,
                        package_version(require, require_dev, "laravel/framework"@),
                    ),
                    labelled(
                        "Lumen "@,
                        package_version(require, require_dev, "laravel/lumen-framework"@),
                    ),
                    labelled(
                        "CodeIgniter "@,
                        package_version(require, require_dev, "codeigniter4/framework"@),
                    ),
                ],
            ),
            _ => None,
        },
    }
}

/// The framework a `package.json` depends on. A Next project also depends on
/// react, so the more specific one answers.
pub open spec fn package_framework(document: Option<JsonView>) -> Option<Seq<char>> {
    match document {
        None => None,
        Some(json) => match (
            text_fields_member(json, 0, 2, "dependencies"@),
            text_fields_member(json, 1, 2, "devDependencies"@),
        ) {
            (Some(direct), Some(dev)) => first_found(
                seq![
                    labelled("Next.js "@, package_version(direct, dev, "next"@)),
                    labelled("React "@, package_version(direct, dev, "react"@)),
                    labelled("Vue "@, package_version(direct, dev, "vue"@)),
                    labelled("Svelte "@, package_version(direct, dev, "svelte"@)),
                ],
            ),
            _ => None,
        },
    }
}

/// What the manifests say beside the two that are JSON documents.
pub open spec fn source_says(source: Option<&str>, after: Seq<char>, before: Seq<char>) -> Option<
    Seq<char>,
> {
    match source {
        Some(source) => text_between(source@, after, before),
        None => None,
    }
}

/// The framework the manifests name, given the two JSON documents among them.
/// What is installed comes before what was asked for, and PHP before Node.
pub open spec fn framework_in(
    manifests: Manifests,
    composer: Option<JsonView>,
    package: Option<JsonView>,
) -> Option<Seq<char>> {
    first_found(
        seq![
            labelled(
                "Laravel "@,
                source_says(manifests.laravel_application_php, "VERSION = '"@, "'"@),
            ),
            composer_framework(composer),
            labelled(
                "CodeIgniter "@,
                source_says(manifests.codeigniter_php, "CI_VERSION', '"@, "'"@),
            ),
            package_framework(package),
            labelled(
                "Go "@,
                match manifests.go_mod {
                    Some(source) => go_version(lines_of(source@)),
                    None => None,
                },
            ),
            labelled(
                "Rust "@,
                match manifests.cargo_toml {
                    Some(source) => first_value(lines_of(source@), "edition"@),
                    None => None,
                },
            ),
        ],
    )
}

/// The document a manifest holds, where it is there and can be read.
pub open spec fn document_in(text: Option<&str>) -> Option<JsonView> {
    match text {
        Some(text) => match json_document(text@) {
            Ok(json) => Some(json),
            Err(_) => None,
        },
        None => None,
    }
}

/// What an optional document holds.
pub open spec fn maybe_json(json: Option<Json>) -> Option<JsonView> {
    match json {
        Some(json) => Some(json@),
        None => None,
    }
}

/// Turns a constraint into the number inside it: `^11.0` and `>=9.2 <10` both
/// answer with the first version they mention. Nothing is invented - a
/// constraint with no number at all answers with nothing.
pub fn loosen(constraint: &str) -> (version: Option<String>)
    ensures
        maybe_text(version) == loosened(constraint@),
{
    let chars = chars_of(constraint);
    let mut cleaned: Vec<char> = Vec::new();
    let mut i: usize = 0;
    while i < chars.len()
        invariant
            i <= chars@.len(),
            chars@ == constraint@,
            cleaned@ == blanked(constraint@).take(i as int),
        decreases chars@.len() - i,
    {
        let c = chars[i];
        if char_is_digit(c) || c == '.' {
            cleaned.push(c);
        } else {
            cleaned.push(' ');
        }
        i = i + 1;
        assert(blanked(constraint@).take(i as int) =~= blanked(constraint@).take(i - 1).push(
            blanked(constraint@)[i - 1],
        ));
    }
    assert(cleaned@ =~= blanked(constraint@));
    let tokens = words(cleaned.as_slice());
    let ghost all = words_of(blanked(constraint@));
    let mut k: usize = 0;
    assert(all.skip(0) =~= all);
    while k < tokens.len()
        invariant
            k <= tokens@.len(),
            views(tokens@) == all,
            all == words_of(blanked(constraint@)),
            first_number(all) == first_number(all.skip(k as int)),
        decreases tokens@.len() - k,
    {
        let token = tokens[k].as_slice();
        assert(all.skip(k as int)[0] == token@) by {
            assert(views(tokens@)[k as int] == tokens@[k as int]@);
        }
        assert(all.skip(k as int).skip(1) =~= all.skip(k + 1));
        if token.len() > 0 && char_is_digit(token[0]) {
            return Some(string_of(trim_end_char(trim_start_char(token, '.'), '.')));
        }
        k = k + 1;
    }
    None
}

/// The `go 1.24.3` line, which is the version the module asks for rather than
/// whatever toolchain happens to be installed.
pub fn go_directive(go_mod: &str) -> (version: Option<String>)
    ensures
        maybe_text(version) == go_version(lines_of(go_mod@)),
{
    let list = lines(chars_of(go_mod).as_slice());
    let label = chars_of("go ");
    let ghost all = lines_of(go_mod@);
    let mut i: usize = 0;
    assert(all.skip(0) =~= all);
    while i < list.len()
        invariant
            i <= list@.len(),
            label@ == "go "@,
            all == lines_of(go_mod@),
            views(list@) == all,
            go_version(all) == go_version(all.skip(i as int)),
        decreases list@.len() - i,
    {
        assert(all.skip(i as int)[0] == list@[i as int]@) by {
            assert(views(list@)[i as int] == list@[i as int]@);
        }
        assert(all.skip(i as int).skip(1) =~= all.skip(i + 1));
        let line = trim(list[i].as_slice());
        if starts_with(line, label.as_slice()) {
            let rest = slice_subrange(line, label.len(), line.len());
            assert(rest@ == line@.skip(label@.len() as int));
            let version = trim(rest);
            if version.len() == 0 {
                return None;
            }
            return Some(string_of(version));
        }
        i = i + 1;
    }
    None
}

fn value_in_line(line: &[char], key: &[char]) -> (value: Option<String>)
    ensures
        maybe_text(value) == value_on_line(line@, key@),
{
    let text = trim(line);
    if !starts_with(text, key) {
        return None;
    }
    let behind = slice_subrange(text, key.len(), text.len());
    assert(behind@ == text@.skip(key@.len() as int));
    let rest = trim_start(behind);
    if rest.len() == 0 || rest[0] != '=' {
        return None;
    }
    let value = slice_subrange(rest, 1, rest.len());
    assert(value@ == rest@.skip(1));
    Some(string_of(trim_end_char(trim_start_char(trim(value), '"'), '"')))
}

/// The value the first line that gives one gives a key.
pub fn toml_string_value(source: &str, key: &str) -> (value: Option<String>)
    ensures
        maybe_text(value) == first_value(lines_of(source@), key@),
{
    let list = lines(chars_of(source).as_slice());
    let key_chars = chars_of(key);
    let ghost all = lines_of(source@);
    let mut i: usize = 0;
    assert(all.skip(0) =~= all);
    while i < list.len()
        invariant
            i <= list@.len(),
            key_chars@ == key@,
            all == lines_of(source@),
            views(list@) == all,
            first_value(all, key@) == first_value(all.skip(i as int), key@),
        decreases list@.len() - i,
    {
        assert(all.skip(i as int)[0] == list@[i as int]@) by {
            assert(views(list@)[i as int] == list@[i as int]@);
        }
        assert(all.skip(i as int).skip(1) =~= all.skip(i + 1));
        let value = value_in_line(list[i].as_slice(), key_chars.as_slice());
        if value.is_some() {
            return value;
        }
        i = i + 1;
    }
    None
}

/// The text between the first `after` and the first `before` behind it.
pub fn between(source: &str, after: &str, before: &str) -> (text: Option<String>)
    ensures
        maybe_text(text) == text_between(source@, after@, before@),
{
    let chars = chars_of(source);
    let opening = chars_of(after);
    let closing = chars_of(before);
    let length: usize = chars.len();
    match find_text(chars.as_slice(), opening.as_slice()) {
        Some(at) => {
            let rest = slice_subrange(chars.as_slice(), at + opening.len(), length);
            assert(rest@ == source@.skip(at + after@.len()));
            match find_text(rest, closing.as_slice()) {
                Some(end) => {
                    let found = slice_subrange(rest, 0, end);
                    assert(found@ == rest@.take(end as int));
                    Some(string_of(found))
                },
                None => None,
            }
        },
        None => None,
    }
}

/// A framework and its version, where there is one.
fn label(name: &str, version: Option<String>) -> (text: Option<String>)
    ensures
        maybe_text(text) == labelled(name@, maybe_text(version)),
{
    match version {
        Some(version) => {
            let mut text = name.to_owned();
            text.append(version.as_str());
            Some(text)
        },
        None => None,
    }
}

fn version_of(
    first: &Vec<(String, String)>,
    second: &Vec<(String, String)>,
    package: &str,
) -> (version: Option<String>)
    ensures
        maybe_text(version) == package_version(views(first@), views(second@), package@),
{
    match find_entry(first.as_slice(), package) {
        Some(constraint) => loosen(constraint.as_str()),
        None => match find_entry(second.as_slice(), package) {
            Some(constraint) => loosen(constraint.as_str()),
            None => None,
        },
    }
}

proof fn lemma_first_found(found: Seq<Option<Seq<char>>>, at: int)
    requires
        0 <= at < found.len(),
        forall|i: int| 0 <= i < at ==> #[trigger] found[i] is None,
        found[at] is Some,
    ensures
        first_found(found) == found[at],
    decreases found.len(),
{
    if at > 0 {
        assert(found[0] is None);
        assert forall|i: int| 0 <= i < at - 1 implies #[trigger] found.skip(1)[i] is None by {
            assert(found.skip(1)[i] == found[i + 1]);
        }
        lemma_first_found(found.skip(1), at - 1);
    }
}

proof fn lemma_none_found(found: Seq<Option<Seq<char>>>)
    requires
        forall|i: int| 0 <= i < found.len() ==> #[trigger] found[i] is None,
    ensures
        first_found(found) is None,
    decreases found.len(),
{
    if found.len() > 0 {
        assert(found[0] is None);
        assert forall|i: int| 0 <= i < found.len() - 1 implies #[trigger] found.skip(1)[i] is None by {
            assert(found.skip(1)[i] == found[i + 1]);
        }
        lemma_none_found(found.skip(1));
    }
}

/// The first of these that is there.
fn first_of(found: Vec<Option<String>>) -> (first: Option<String>)
    ensures
        maybe_text(first) == first_found(
            found@.map_values(|one: Option<String>| maybe_text(one)),
        ),
{
    let ghost all = found@.map_values(|one: Option<String>| maybe_text(one));
    let mut i: usize = 0;
    let mut list = found;
    while i < list.len()
        invariant
            i <= list@.len(),
            list@ == found@,
            all == found@.map_values(|one: Option<String>| maybe_text(one)),
            forall|j: int| 0 <= j < i ==> #[trigger] all[j] is None,
        decreases list@.len() - i,
    {
        assert(all[i as int] == maybe_text(found@[i as int]));
        if list[i].is_some() {
            proof {
                lemma_first_found(all, i as int);
            }
            return list.swap_remove(i);
        }
        i = i + 1;
    }
    proof {
        lemma_none_found(all);
    }
    None
}

/// The framework a `composer.json` asks for.
pub fn php_framework(document: &Option<Json>) -> (found: Option<String>)
    ensures
        maybe_text(found) == composer_framework(maybe_json(*document)),
{
    let json = match document {
        Some(json) => json,
        None => {
            return None;
        },
    };
    let require = match read_text_fields_member(json, 0, 2, "require") {
        Some(fields) => fields,
        None => {
            return None;
        },
    };
    let require_dev = match read_text_fields_member(json, 1, 2, "require-dev") {
        Some(fields) => fields,
        None => {
            return None;
        },
    };
    let found = vec![
        label("Laravel ", version_of(&require, &require_dev, "laravel/framework")),
        label("Lumen ", version_of(&require, &require_dev, "laravel/lumen-framework")),
        label("CodeIgniter ", version_of(&require, &require_dev, "codeigniter4/framework")),
    ];
    assert(found@.map_values(|one: Option<String>| maybe_text(one)) =~= seq![
        maybe_text(found@[0]),
        maybe_text(found@[1]),
        maybe_text(found@[2]),
    ]);
    first_of(found)
}

/// The framework a `package.json` depends on.
pub fn node_framework(document: &Option<Json>) -> (found: Option<String>)
    ensures
        maybe_text(found) == package_framework(maybe_json(*document)),
{
    let json = match document {
        Some(json) => json,
        None => {
            return None;
        },
    };
    let direct = match read_text_fields_member(json, 0, 2, "dependencies") {
        Some(fields) => fields,
        None => {
            return None;
        },
    };
    let dev = match read_text_fields_member(json, 1, 2, "devDependencies") {
        Some(fields) => fields,
        None => {
            return None;
        },
    };
    let found = vec![
        label("Next.js ", version_of(&direct, &dev, "next")),
        label("React ", version_of(&direct, &dev, "react")),
        label("Vue ", version_of(&direct, &dev, "vue")),
        label("Svelte ", version_of(&direct, &dev, "svelte")),
    ];
    assert(found@.map_values(|one: Option<String>| maybe_text(one)) =~= seq![
        maybe_text(found@[0]),
        maybe_text(found@[1]),
        maybe_text(found@[2]),
        maybe_text(found@[3]),
    ]);
    first_of(found)
}

/// Names the framework and its version, given the JSON documents among the
/// manifests.
pub fn detect_in(manifests: &Manifests, composer: &Option<Json>, package: &Option<Json>) -> (found:
    Option<String>)
    ensures
        maybe_text(found) == framework_in(*manifests, maybe_json(*composer), maybe_json(*package)),
{
    let laravel = match manifests.laravel_application_php {
        Some(source) => between(source, "VERSION = '", "'"),
        None => None,
    };
    let codeigniter = match manifests.codeigniter_php {
        Some(source) => between(source, "CI_VERSION', '", "'"),
        None => None,
    };
    let go = match manifests.go_mod {
        Some(source) => go_directive(source),
        None => None,
    };
    // The package version is what this project calls itself, which says nothing
    // about the stack it is built on.
    let rust = match manifests.cargo_toml {
        Some(source) => toml_string_value(source, "edition"),
        None => None,
    };
    let found = vec![
        label("Laravel ", laravel),
        php_framework(composer),
        label("CodeIgniter ", codeigniter),
        node_framework(package),
        label("Go ", go),
        label("Rust ", rust),
    ];
    assert(found@.map_values(|one: Option<String>| maybe_text(one)) =~= seq![
        labelled(
            "Laravel "@,
            source_says(manifests.laravel_application_php, "VERSION = '"@, "'"@),
        ),
        composer_framework(maybe_json(*composer)),
        labelled(
            "CodeIgniter "@,
            source_says(manifests.codeigniter_php, "CI_VERSION', '"@, "'"@),
        ),
        package_framework(maybe_json(*package)),
        labelled(
            "Go "@,
            match manifests.go_mod {
                Some(source) => go_version(lines_of(source@)),
                None => None,
            },
        ),
        labelled(
            "Rust "@,
            match manifests.cargo_toml {
                Some(source) => first_value(lines_of(source@), "edition"@),
                None => None,
            },
        ),
    ]);
    first_of(found)
}

fn read_document(text: Option<&str>) -> (document: Option<Json>)
    ensures
        maybe_json(document) == document_in(text),
{
    match text {
        Some(text) => match parse(text) {
            Ok(json) => Some(json),
            Err(_) => None,
        },
        None => None,
    }
}

/// Names the framework and its version, or nothing when the project does not
/// say. Order is deliberate: nearly every Laravel project carries a
/// package.json for its assets, so PHP is answered before Node.
pub fn detect(manifests: &Manifests) -> (found: Option<String>)
    ensures
        maybe_text(found) == framework_in(
            *manifests,
            document_in(manifests.composer_json),
            document_in(manifests.package_json),
        ),
{
    let composer = read_document(manifests.composer_json);
    let package = read_document(manifests.package_json);
    detect_in(manifests, &composer, &package)
}

/// The version that is installed is preferred over the one that was asked for,
/// whatever the manifests ask for.
pub proof fn law_installed_beats_asked_for(
    manifests: Manifests,
    composer: Option<JsonView>,
    package: Option<JsonView>,
    version: Seq<char>,
)
    requires
        source_says(manifests.laravel_application_php, "VERSION = '"@, "'"@) == Some(version),
    ensures
        framework_in(manifests, composer, package) == Some("Laravel "@ + version),
{
}

/// A project whose manifests are absent has no framework rather than a guess.
pub proof fn law_no_manifest_no_framework(manifests: Manifests)
    requires
        manifests.laravel_application_php is None,
        manifests.codeigniter_php is None,
        manifests.go_mod is None,
        manifests.cargo_toml is None,
    ensures
        framework_in(manifests, None, None) is None,
{
    reveal_with_fuel(first_found, 7);
}

/// A constraint is shown as its first version: what stands before it and what
/// follows it is left out.
#[verifier::rlimit(40)]
pub proof fn law_a_constraint_is_shown_as_its_version(
    front: Seq<char>,
    version: Seq<char>,
    rest: Seq<char>,
)
    requires
        forall|i: int| 0 <= i < front.len() ==> !is_digit(#[trigger] front[i]) && front[i] != '.',
        version.len() > 0 && is_digit(version[0]) && is_digit(version.last()),
        forall|i: int| 0 <= i < version.len() ==> is_digit(#[trigger] version[i]) || version[i]
            == '.',
        rest.len() > 0 ==> !is_digit(rest[0]) && rest[0] != '.',
    ensures
        loosened(front + version + rest) == Some(version),
        loosened(front) is None,
{
    let gap = blanked(front);
    assert forall|i: int| 0 <= i < gap.len() implies is_white(#[trigger] gap[i]) by {
        assert(!is_digit(front[i]));
    }
    assert forall|i: int| 0 <= i < version.len() implies !is_white(#[trigger] version[i]) by {
        assert(is_digit(version[i]) || version[i] == '.');
    }
    assert forall|i: int| 0 <= i < version.len() implies blanked(version)[i] == version[i] by {
        assert(is_digit(version[i]) || version[i] == '.');
    }
    assert(blanked(version) =~= version);
    law_words_come_apart(gap, version, ' ', seq![]);
    assert(words_of(gap) =~= seq![]);
    assert(first_number(words_of(gap)) is None);
    let whole = front + version + rest;
    if rest.len() == 0 {
        assert(blanked(whole) =~= gap + version);
    } else {
        let tail = blanked(rest).skip(1);
        assert(blanked(whole) =~= gap + version + seq![' '] + tail);
        law_words_come_apart(gap, version, ' ', tail);
    }
    assert(words_of(blanked(whole))[0] == version);
    assert(trimmed_start_of(version, '.') == version);
    assert(trimmed_end_of(version, '.') == version);
}

/// What a source says between two texts is what stands between them.
pub proof fn law_the_text_between_is_taken_whole(
    front: Seq<char>,
    after: Seq<char>,
    text: Seq<char>,
    before: Seq<char>,
    rest: Seq<char>,
)
    requires
        after.len() > 0,
        before.len() > 0,
        forall|i: int| 0 <= i < front.len() ==> front[i] != after[0],
        forall|i: int| 0 <= i < text.len() ==> text[i] != before[0],
    ensures
        text_between(front + after + (text + before + rest), after, before) == Some(text),
        text_between(front, after, before) is None,
{
    let behind = text + before + rest;
    let whole = front + after + behind;
    law_a_text_is_found_where_it_stands(front, after, behind);
    assert(whole.skip((front.len() + after.len()) as int) =~= behind);
    law_a_text_is_found_where_it_stands(text, before, rest);
    assert(behind.take(text.len() as int) =~= text);
}

/// The version of Go is what its directive says; lines before it say nothing.
#[verifier::rlimit(40)]
pub proof fn law_go_is_what_its_directive_says(
    front: Seq<char>,
    gap: Seq<char>,
    version: Seq<char>,
    end: Seq<char>,
    other: Seq<char>,
    lines: Seq<Seq<char>>,
)
    requires
        forall|i: int| 0 <= i < front.len() ==> is_white(#[trigger] front[i]),
        forall|i: int| 0 <= i < gap.len() ==> is_white(#[trigger] gap[i]),
        forall|i: int| 0 <= i < end.len() ==> is_white(#[trigger] end[i]),
        version.len() > 0 && !is_white(version[0]) && !is_white(version.last()),
    ensures
        go_version(seq![front + ("go "@ + gap + version) + end] + lines) == Some(version),
        !begins_with(trimmed(other), "go "@) ==> go_version(seq![other] + lines) == go_version(
            lines,
        ),
{
    reveal_strlit("go ");
    let core = "go "@ + gap + version;
    let line = front + core + end;
    assert(core[0] == 'g');
    assert(core.last() == version.last());
    law_trimming_keeps_the_core(front, core, end);
    assert(core.take(3) =~= "go "@);
    let none = Seq::<char>::empty();
    law_trimming_keeps_the_core(gap, version, none);
    assert(core.skip(3) =~= gap + version + none);
    let all = seq![line] + lines;
    assert(all[0] == line);
    let more = seq![other] + lines;
    assert(more[0] == other);
    assert(more.skip(1) =~= lines);
}

/// A key's value is what stands in quotes behind its equals sign, with any white
/// space around.
#[verifier::rlimit(40)]
pub proof fn law_a_value_stands_behind_its_key(
    key: Seq<char>,
    blanks: (Seq<char>, Seq<char>, Seq<char>, Seq<char>),
    value: Seq<char>,
    lines: Seq<Seq<char>>,
    other: Seq<char>,
)
    requires
        key.len() > 0 && !is_white(key[0]),
        forall|i: int| 0 <= i < blanks.0.len() ==> is_white(#[trigger] blanks.0[i]),
        forall|i: int| 0 <= i < blanks.1.len() ==> is_white(#[trigger] blanks.1[i]),
        forall|i: int| 0 <= i < blanks.2.len() ==> is_white(#[trigger] blanks.2[i]),
        forall|i: int| 0 <= i < blanks.3.len() ==> is_white(#[trigger] blanks.3[i]),
        forall|i: int| 0 <= i < value.len() ==> value[i] != '"',
    ensures
        first_value(
            seq![
                blanks.0 + (key + blanks.1 + ("="@ + blanks.2 + ("\""@ + value + "\""@)))
                    + blanks.3,
            ] + lines,
            key,
        ) == Some(value),
        value_on_line(other, key) is None ==> first_value(seq![other] + lines, key) == first_value(
            lines,
            key,
        ),
{
    reveal_strlit("=");
    reveal_strlit("\"");
    let quoted = "\""@ + value + "\""@;
    let tail = "="@ + blanks.2 + quoted;
    let core = key + blanks.1 + tail;
    let line = blanks.0 + core + blanks.3;
    assert(quoted[0] == '"' && quoted.last() == '"');
    assert(core[0] == key[0]);
    assert(core.last() == quoted.last());
    law_trimming_keeps_the_core(blanks.0, core, blanks.3);
    assert(core.take(key.len() as int) =~= key);
    let behind = core.skip(key.len() as int);
    assert(behind =~= blanks.1 + tail);
    assert(tail[0] == '=');
    lemma_leading_white(behind);
    let n = blanks.1.len() as int;
    assert(behind[n] == '=');
    assert(leading_white(behind) == n) by {
        if leading_white(behind) < n {
            assert(behind[leading_white(behind)] == blanks.1[leading_white(behind)]);
        }
    }
    assert(trimmed_start(behind) =~= tail);
    let none = Seq::<char>::empty();
    law_trimming_keeps_the_core(blanks.2, quoted, none);
    assert(tail.skip(1) =~= blanks.2 + quoted + none);
    lemma_quotes_come_off(value);
    let all = seq![line] + lines;
    assert(all[0] == line);
    let more = seq![other] + lines;
    assert(more[0] == other);
    assert(more.skip(1) =~= lines);
}

proof fn lemma_quotes_come_off(value: Seq<char>)
    requires
        forall|i: int| 0 <= i < value.len() ==> value[i] != '"',
    ensures
        trimmed_end_of(trimmed_start_of("\""@ + value + "\""@, '"'), '"') == value,
{
    reveal_strlit("\"");
    let quoted = "\""@ + value + "\""@;
    let open = value + "\""@;
    assert(quoted[0] == '"');
    assert(quoted.skip(1) =~= open);
    assert(trimmed_start_of(quoted, '"') == trimmed_start_of(open, '"'));
    if value.len() == 0 {
        assert(open[0] == '"');
        assert(open.skip(1) =~= value);
        assert(trimmed_start_of(open, '"') == trimmed_start_of(value, '"'));
        assert(trimmed_end_of(value, '"') == value);
    } else {
        assert(open[0] == value[0]);
        assert(open.last() == '"');
        assert(open.drop_last() =~= value);
        assert(trimmed_end_of(open, '"') == trimmed_end_of(value, '"'));
        assert(value.last() != '"');
    }
}

/// The most specific answer is given: the installed Laravel, then what composer
/// asks for, the installed CodeIgniter, what npm asks for, then Go and Rust.
#[verifier::rlimit(40)]
pub proof fn law_the_most_specific_answer_is_given(
    manifests: Manifests,
    composer: Option<JsonView>,
    package: Option<JsonView>,
)
    ensures
        ({
            let laravel = source_says(manifests.laravel_application_php, "VERSION = '"@, "'"@);
            let codeigniter = source_says(manifests.codeigniter_php, "CI_VERSION', '"@, "'"@);
            let go = if manifests.go_mod is Some {
                go_version(lines_of(manifests.go_mod->0@))
            } else {
                None
            };
            let rust = if manifests.cargo_toml is Some {
                first_value(lines_of(manifests.cargo_toml->0@), "edition"@)
            } else {
                None
            };
            let found = framework_in(manifests, composer, package);
            if laravel is Some {
                found == Some("Laravel "@ + laravel->0)
            } else if composer_framework(composer) is Some {
                found == composer_framework(composer)
            } else if codeigniter is Some {
                found == Some("CodeIgniter "@ + codeigniter->0)
            } else if package_framework(package) is Some {
                found == package_framework(package)
            } else if go is Some {
                found == Some("Go "@ + go->0)
            } else if rust is Some {
                found == Some("Rust "@ + rust->0)
            } else {
                found is None
            }
        }),
{
    reveal_with_fuel(first_found, 7);
}

/// What composer asks for is named, Laravel before Lumen before CodeIgniter; what
/// is asked for at run time counts before what is asked for in development, and
/// a version that cannot be read is no answer.
pub proof fn law_composer_names_the_framework(
    json: JsonView,
    require: Seq<(Seq<char>, Seq<char>)>,
    dev: Seq<(Seq<char>, Seq<char>)>,
)
    requires
        text_fields_member(json, 0, 2, "require"@) == Some(require),
        text_fields_member(json, 1, 2, "require-dev"@) == Some(dev),
    ensures
        ({
            let asked = |name: Seq<char>|
                if entry_of(require, name) is Some {
                    loosened(entry_of(require, name)->0)
                } else if entry_of(dev, name) is Some {
                    loosened(entry_of(dev, name)->0)
                } else {
                    None
                };
            let found = composer_framework(Some(json));
            if asked("laravel/framework"@) is Some {
                found == Some("Laravel "@ + asked("laravel/framework"@)->0)
            } else if asked("laravel/lumen-framework"@) is Some {
                found == Some("Lumen "@ + asked("laravel/lumen-framework"@)->0)
            } else if asked("codeigniter4/framework"@) is Some {
                found == Some("CodeIgniter "@ + asked("codeigniter4/framework"@)->0)
            } else {
                found is None
            }
        }),
{
    reveal_with_fuel(first_found, 4);
}

/// What npm asks for is named, Next.js before React before Vue before Svelte; a
/// dependency counts before a development one.
pub proof fn law_npm_names_the_framework(
    json: JsonView,
    direct: Seq<(Seq<char>, Seq<char>)>,
    dev: Seq<(Seq<char>, Seq<char>)>,
)
    requires
        text_fields_member(json, 0, 2, "dependencies"@) == Some(direct),
        text_fields_member(json, 1, 2, "devDependencies"@) == Some(dev),
    ensures
        ({
            let asked = |name: Seq<char>|
                if entry_of(direct, name) is Some {
                    loosened(entry_of(direct, name)->0)
                } else if entry_of(dev, name) is Some {
                    loosened(entry_of(dev, name)->0)
                } else {
                    None
                };
            let found = package_framework(Some(json));
            if asked("next"@) is Some {
                found == Some("Next.js "@ + asked("next"@)->0)
            } else if asked("react"@) is Some {
                found == Some("React "@ + asked("react"@)->0)
            } else if asked("vue"@) is Some {
                found == Some("Vue "@ + asked("vue"@)->0)
            } else if asked("svelte"@) is Some {
                found == Some("Svelte "@ + asked("svelte"@)->0)
            } else {
                found is None
            }
        }),
{
    reveal_with_fuel(first_found, 5);
}

/// A value without quotes is read as it stands.
pub proof fn law_a_bare_value_is_read_as_it_stands(
    key: Seq<char>,
    blanks: (Seq<char>, Seq<char>),
    value: Seq<char>,
)
    requires
        key.len() > 0 && !is_white(key[0]),
        forall|i: int| 0 <= i < blanks.0.len() ==> is_white(#[trigger] blanks.0[i]),
        forall|i: int| 0 <= i < blanks.1.len() ==> is_white(#[trigger] blanks.1[i]),
        value.len() > 0 && !is_white(value[0]) && !is_white(value.last()),
        value[0] != '"' && value.last() != '"',
    ensures
        value_on_line(key + blanks.0 + (seq!['='] + (blanks.1 + value)), key) == Some(value),
{
    let none = Seq::<char>::empty();
    let behind = blanks.1 + value;
    assert(behind.last() == value.last());
    lemma_value_behind_the_key(key, blanks.0, behind);
    law_trimming_keeps_the_core(blanks.1, value, none);
    assert(behind + none =~= behind);
    assert(trimmed_start_of(value, '"') == value);
    assert(trimmed_end_of(value, '"') == value);
}

proof fn lemma_value_behind_the_key(key: Seq<char>, gap: Seq<char>, behind: Seq<char>)
    requires
        key.len() > 0 && !is_white(key[0]),
        forall|i: int| 0 <= i < gap.len() ==> is_white(#[trigger] gap[i]),
        behind.len() > 0 && !is_white(behind.last()),
    ensures
        value_on_line(key + gap + (seq!['='] + behind), key) == Some(
            trimmed_end_of(trimmed_start_of(trimmed(behind), '"'), '"'),
        ),
{
    let none = Seq::<char>::empty();
    let tail = seq!['='] + behind;
    let core = key + gap + tail;
    assert(core[0] == key[0]);
    assert(core.last() == behind.last());
    law_trimming_keeps_the_core(none, core, none);
    assert(none + core + none =~= core);
    assert(core.take(key.len() as int) =~= key);
    let after = core.skip(key.len() as int);
    assert(after =~= gap + tail);
    lemma_gap_is_leading(gap, tail);
    assert(tail.skip(1) =~= behind);
}

proof fn lemma_gap_is_leading(gap: Seq<char>, tail: Seq<char>)
    requires
        forall|i: int| 0 <= i < gap.len() ==> is_white(#[trigger] gap[i]),
        tail.len() > 0 && !is_white(tail[0]),
    ensures
        trimmed_start(gap + tail) == tail,
{
    let whole = gap + tail;
    let n = gap.len() as int;
    lemma_leading_white(whole);
    assert(whole[n] == tail[0]);
    assert(leading_white(whole) == n) by {
        if leading_white(whole) < n {
            assert(whole[leading_white(whole)] == gap[leading_white(whole)]);
        }
    }
    assert(trimmed_start(whole) =~= tail);
}

/// A key that only begins like another says nothing of it.
#[verifier::rlimit(40)]
pub proof fn law_a_longer_key_is_another(key: Seq<char>, c: char, rest: Seq<char>)
    requires
        key.len() > 0 && !is_white(key[0]),
        !is_white(c) && c != '=',
        rest.len() > 0 ==> !is_white(rest.last()),
    ensures
        value_on_line(key + seq![c] + rest, key) is None,
{
    let none = Seq::<char>::empty();
    let other = key + seq![c] + rest;
    assert(other[0] == key[0]);
    assert(other.last() == if rest.len() > 0 {
        rest.last()
    } else {
        c
    });
    law_trimming_keeps_the_core(none, other, none);
    assert(none + other + none =~= other);
    assert(other.take(key.len() as int) =~= key);
    let after = other.skip(key.len() as int);
    assert(after[0] == c);
    lemma_leading_white(after);
    assert(trimmed_start(after) =~= after);
}

/// Nothing stands between two texts where the second is missing.
pub proof fn law_a_text_needs_both_its_ends(
    front: Seq<char>,
    after: Seq<char>,
    text: Seq<char>,
    before: Seq<char>,
)
    requires
        after.len() > 0,
        before.len() > 0,
        forall|i: int| 0 <= i < front.len() ==> front[i] != after[0],
        forall|i: int| 0 <= i < text.len() ==> text[i] != before[0],
    ensures
        text_between(front + after + text, after, before) is None,
{
    let whole = front + after + text;
    law_a_text_is_found_where_it_stands(front, after, text);
    assert(whole.skip((front.len() + after.len()) as int) =~= text);
    law_a_text_is_found_where_it_stands(text, before, seq![]);
}

} // verus!
