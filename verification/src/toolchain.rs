//! Choosing which installed version of a toolchain a project should run with.
//!
//! This exists for projects that are not in containers: a machine holding PHP
//! 5.6, 7.4 and 8.3 at once, and a directory full of projects that each need a
//! different one. Docker answers that question by isolating; without it,
//! something has to read what the project asks for and put the right binary in
//! front of the wrong one on PATH.
//!
//! Everything here is pure. Where the versions live on disk is configuration,
//! not a guess about where somebody installed laragon.

use crate::entries::{entry_of, find_entry};
use crate::json::{json_document, parse, read_text_fields_member, text_fields_member, Json, JsonView};
use crate::order::{in_order, law_sorting_orders_and_keeps, lemma_filter_contains, sort, Ranked};
use crate::text::{
    all_digits, begins_with, char_is_digit, chars_of, decimal, digit_char, digits_value, find_char,
    index_of, is_digit, is_white, join, joined, law_a_text_is_found_where_it_stands,
    law_joining_puts_the_separator_between, law_pieces_come_apart, law_replacing_leaves_the_rest,
    law_trimming_keeps_the_core, law_words_come_apart, leading_white, leading_word,
    lemma_decimal_reads_back, lemma_index_of, lemma_leading_white, lemma_leading_word,
    lemma_position_of, lemma_replaced_comes_apart, lemma_trimmed_stands_inside, lemma_views_push,
    maybe_text, number_text, position_of, replace_text, replaced, split_on, split_text, string_of,
    trim, trimmed, trimmed_start, views, words, words_of,
};
use vstd::prelude::*;
use vstd::slice::*;
use vstd::string::*;

verus! {

/// A version: three numbers, compared as numbers.
#[derive(Debug, Clone, Copy, PartialEq, Eq, Structural)]
pub struct Version {
    pub major: u64,
    pub minor: u64,
    pub patch: u64,
}

impl View for Version {
    type V = Version;

    open spec fn view(&self) -> Version {
        *self
    }
}

impl Version {
    /// Whether this version is older than `other`.
    pub open spec fn older_than(self, other: Version) -> bool {
        ||| self.major < other.major
        ||| self.major == other.major && self.minor < other.minor
        ||| self.major == other.major && self.minor == other.minor && self.patch < other.patch
    }

    /// Whether this version is older than `other`.
    pub fn is_older_than(&self, other: &Version) -> (older: bool)
        ensures
            older == self.older_than(*other),
    {
        self.major < other.major || (self.major == other.major && self.minor < other.minor) || (
        self.major == other.major && self.minor == other.minor && self.patch < other.patch)
    }

    /// The version as it is written.
    pub open spec fn text(self) -> Seq<char> {
        patch_text(self.major, self.minor, self.patch)
    }

    /// The version as it is written.
    pub fn to_string(&self) -> (text: String)
        ensures
            text@ == self.text(),
    {
        let mut text = number_text(self.major);
        text.append(".");
        text.append(number_text(self.minor).as_str());
        text.append(".");
        text.append(number_text(self.patch).as_str());
        text
    }
}

/// The number a part of a version writes: digits with no zero in front.
pub open spec fn part_value(digits: Seq<char>) -> Option<u64> {
    if digits.len() == 0 || !all_digits(digits) || (digits.len() > 1 && digits[0] == '0')
        || digits_value(digits) > u64::MAX {
        None
    } else {
        Some(digits_value(digits) as u64)
    }
}

/// The version that three parts write.
pub open spec fn version_of_parts(
    major: Seq<char>,
    minor: Seq<char>,
    patch: Seq<char>,
) -> Option<Version> {
    match (part_value(major), part_value(minor), part_value(patch)) {
        (Some(major), Some(minor), Some(patch)) => Some(Version { major, minor, patch }),
        _ => None,
    }
}

/// `semver::Version::parse` on three rows of digits with dots between them:
/// the three numbers, or nothing where one has a zero in front of it or does
/// not fit 64 bits. Such a text has no pre-release and no build part.
#[verifier::external_body]
fn parse_version(major: &str, minor: &str, patch: &str) -> (version: Option<Version>)
    requires
        major@.len() > 0 && all_digits(major@),
        minor@.len() > 0 && all_digits(minor@),
        patch@.len() > 0 && all_digits(patch@),
    ensures
        version == version_of_parts(major@, minor@, patch@),
{
    semver::Version::parse(&format!("{major}.{minor}.{patch}")).ok().map(
        |found| Version { major: found.major, minor: found.minor, patch: found.patch },
    )
}

/// Whether a requirement, as `semver` reads it, allows a version. A requirement
/// that cannot be read allows none.
pub uninterp spec fn semver_allows(
    requirement: Seq<char>,
    major: u64,
    minor: u64,
    patch: u64,
) -> bool;

/// `semver::VersionReq::parse` and, where that succeeds,
/// `semver::VersionReq::matches` on a version without a pre-release part. Which
/// versions a requirement allows is decided by its text. Stated of it are the
/// forms a project is pinned with: `=` with one, two or three numbers allows the
/// versions that begin with them; `^` with a major above zero and a minor allows
/// that minor and those after it within the major; `~` with two or three numbers
/// allows the versions of that major and minor, from the patch on where there is
/// one.
#[verifier::external_body]
fn requirement_allows(requirement: &str, version: &Version) -> (allows: bool)
    ensures
        allows == semver_allows(requirement@, version.major, version.minor, version.patch),
        forall|i: u64|
            requirement@ == "="@ + #[trigger] major_text(i) ==> allows == (version.major == i),
        forall|i: u64, j: u64|
            requirement@ == "="@ + #[trigger] minor_text(i, j) ==> allows == (version.major == i
                && version.minor == j),
        forall|i: u64, j: u64, k: u64|
            requirement@ == "="@ + #[trigger] patch_text(i, j, k) ==> allows == (version.major == i
                && version.minor == j && version.patch == k),
        forall|i: u64, j: u64|
            requirement@ == "^"@ + #[trigger] minor_text(i, j) && i > 0 ==> allows == (version.major
                == i && version.minor >= j),
        forall|i: u64, j: u64|
            requirement@ == "~"@ + #[trigger] minor_text(i, j) ==> allows == (version.major == i
                && version.minor == j),
        forall|i: u64, j: u64, k: u64|
            requirement@ == "~"@ + #[trigger] patch_text(i, j, k) ==> allows == (version.major == i
                && version.minor == j && version.patch >= k),
{
    semver::VersionReq::parse(requirement).is_ok_and(
        |req| req.matches(&semver::Version::new(version.major, version.minor, version.patch)),
    )
}

/// A version of one number.
pub open spec fn major_text(major: u64) -> Seq<char> {
    decimal(major as nat)
}

/// A version of two numbers.
pub open spec fn minor_text(major: u64, minor: u64) -> Seq<char> {
    decimal(major as nat) + "."@ + decimal(minor as nat)
}

/// A version of three numbers.
pub open spec fn patch_text(major: u64, minor: u64, patch: u64) -> Seq<char> {
    decimal(major as nat) + "."@ + decimal(minor as nat) + "."@ + decimal(patch as nat)
}

/// One version of a tool found on this machine.
#[derive(Debug, Clone, PartialEq, Eq)]
pub struct Installed {
    /// How the directory named it, kept for display: "php-8.3.6-Win32-vs16-x64"
    /// tells the user more than "8.3.6" about which install this is.
    pub label: String,
    pub version: Version,
    /// The directory to put on PATH, not the binary itself.
    pub path: String,
}

/// What an install says.
#[verifier::ext_equal]
pub struct InstalledView {
    pub label: Seq<char>,
    pub version: Version,
    pub path: Seq<char>,
}

impl View for Installed {
    type V = InstalledView;

    open spec fn view(&self) -> InstalledView {
        InstalledView { label: self.label@, version: self.version, path: self.path@ }
    }
}

impl Installed {
    /// The same install again.
    pub fn copy(&self) -> (copy: Self)
        ensures
            copy@ == self@,
    {
        Installed { label: self.label.clone(), version: self.version, path: self.path.clone() }
    }
}

impl Ranked for Installed {
    open spec fn ranks(a: InstalledView, b: InstalledView) -> bool {
        !b.version.older_than(a.version)
    }

    proof fn ranks_totally(a: InstalledView, b: InstalledView, c: InstalledView) {
    }

    fn not_after(&self, other: &Self) -> bool {
        !other.version.is_older_than(&self.version)
    }
}

/// The parts with the digits under way behind them, where there are any.
pub open spec fn with_digits(parts: Seq<Seq<char>>, digits: Seq<char>) -> Seq<Seq<char>> {
    if digits.len() > 0 {
        parts.push(digits)
    } else {
        parts
    }
}

/// The parts of the first run of digits and dots that is two parts long, or of
/// the last run: what the rest of a name adds to the parts and the digits so
/// far. A dot separates parts only behind a digit.
pub open spec fn parts_from(
    rest: Seq<char>,
    digits: Seq<char>,
    parts: Seq<Seq<char>>,
) -> Seq<Seq<char>>
    decreases rest.len(),
{
    let whole = with_digits(parts, digits);
    if rest.len() == 0 {
        whole
    } else {
        let c = rest[0];
        if is_digit(c) {
            parts_from(rest.skip(1), digits.push(c), parts)
        } else if c == '.' && digits.len() > 0 {
            parts_from(rest.skip(1), seq![], whole)
        } else if whole.len() >= 2 {
            whole
        } else {
            parts_from(rest.skip(1), seq![], seq![])
        }
    }
}

/// The version that parts write: the first three of at least two, the missing
/// ones zero.
pub open spec fn version_from_parts(parts: Seq<Seq<char>>) -> Option<Version> {
    if parts.len() < 2 {
        None
    } else if parts.len() == 2 {
        version_of_parts(parts[0], parts[1], "0"@)
    } else {
        version_of_parts(parts[0], parts[1], parts[2])
    }
}

/// The version inside a name.
pub open spec fn version_named(name: Seq<char>) -> Option<Version> {
    version_from_parts(parts_from(name, seq![], seq![]))
}

/// Every part is a row of digits.
pub open spec fn are_parts(parts: Seq<Seq<char>>) -> bool {
    forall|i: int|
        0 <= i < parts.len() ==> (#[trigger] parts[i]).len() > 0 && all_digits(parts[i])
}

/// Reads a version out of whatever a directory happens to be called:
/// `php-8.3.6-Win32-vs16-x64`, `v18.20.4`, `go1.24.3`.
///
/// A two-part version is padded, because `8.1` and `8.1.0` are the same
/// install and only one of them parses. A name with no version at all - like
/// the `active` symlink some setups keep - yields nothing rather than a guess.
pub fn version_in(name: &str) -> (version: Option<Version>)
    ensures
        version == version_named(name@),
{
    broadcast use lemma_views_push;

    let chars = chars_of(name);
    let mut digits = String::new();
    let mut parts: Vec<String> = Vec::new();
    let mut i: usize = 0;
    let mut ended = false;
    assert(chars@.skip(0) =~= name@);
    assert(views(parts@) =~= seq![]);
    while i < chars.len() && !ended
        invariant
            i <= chars@.len(),
            all_digits(digits@),
            are_parts(views(parts@)),
            ended ==> digits@.len() == 0,
            ended ==> parts_from(name@, seq![], seq![]) == views(parts@),
            !ended ==> parts_from(name@, seq![], seq![]) == parts_from(
                chars@.skip(i as int),
                digits@,
                views(parts@),
            ),
        decreases chars@.len() - i,
    {
        let c = chars[i];
        let ghost rest = chars@.skip(i as int);
        let ghost before = views(parts@);
        let ghost held = digits@;
        assert(rest[0] == c);
        assert(rest.skip(1) =~= chars@.skip(i + 1));
        if char_is_digit(c) {
            digits.push(c);
        } else {
            let separates = c == '.' && !digits.as_str().is_empty();
            if !digits.as_str().is_empty() {
                parts.push(digits);
                digits = String::new();
            }
            assert(views(parts@) =~= with_digits(before, held));
            assert(digits@ =~= seq![]);
            if !separates {
                // Any other character ends the run. A version already two parts
                // long is the answer; anything shorter was just a number in a
                // name.
                if parts.len() >= 2 {
                    ended = true;
                } else {
                    parts = Vec::new();
                    assert(views(parts@) =~= seq![]);
                }
            }
        }
        i = i + 1;
    }
    if !digits.as_str().is_empty() {
        let ghost before = views(parts@);
        parts.push(digits);
        assert(views(parts@) =~= with_digits(before, digits@));
    }
    let ghost all = views(parts@);
    assert(all == parts_from(name@, seq![], seq![]));
    if parts.len() < 2 {
        return None;
    }
    assert(all[0] == parts@[0]@ && all[1] == parts@[1]@);
    if parts.len() == 2 {
        proof {
            reveal_strlit("0");
        }
        parse_version(parts[0].as_str(), parts[1].as_str(), "0")
    } else {
        assert(all[2] == parts@[2]@);
        parse_version(parts[0].as_str(), parts[1].as_str(), parts[2].as_str())
    }
}

/// Whether a token is a version with nothing said about it.
pub open spec fn is_bare(token: Seq<char>) -> bool {
    token.len() > 0 && is_digit(token[0]) && !token.contains('*')
}

/// A bare version made to mean that version.
pub open spec fn pinned_token(token: Seq<char>) -> Seq<char> {
    if is_bare(token) {
        "="@ + token
    } else {
        token
    }
}

/// Makes a bare version mean that version, not anything newer.
///
/// The semver crate reads `8.1` as `^8.1`, which allows 8.3. Composer and npm
/// both read it as 8.1.x, and so does anyone who types it into a config file
/// meaning "run this project on 8.1". Left alone, pinning a legacy project to
/// 7.4 would hand it 7.4 or anything above within the major - and the whole
/// point of pinning was that the newer one does not work.
pub fn pin_bare_version(token: &[char]) -> (pinned: String)
    ensures
        pinned@ == pinned_token(token@),
{
    let at: usize = find_char(token, '*');
    proof {
        lemma_index_of(token@, '*');
        if token@.contains('*') {
            let k = token@.index_of('*');
            assert(token@[k] == '*');
        } else if at < token@.len() {
            assert(token@[at as int] == '*');
        }
    }
    let text = string_of(token);
    if token.len() > 0 && char_is_digit(token[0]) && at == token.len() {
        let mut pinned = "=".to_owned();
        pinned.append(text.as_str());
        pinned
    } else {
        text
    }
}

/// One alternative of a constraint as the semver crate wants it: `.x` as `.*`,
/// bare versions pinned, commas for "and".
pub open spec fn normalised(branch: Seq<char>) -> Seq<char> {
    joined(
        words_of(replaced(trimmed(branch), ".x"@, ".*"@)).map_values(
            |token: Seq<char>| pinned_token(token),
        ),
        ","@,
    )
}

/// The alternatives of a constraint, none of them empty.
pub open spec fn alternatives(constraint: Seq<char>) -> Seq<Seq<char>> {
    split_on(constraint, "||"@).map_values(|branch: Seq<char>| normalised(branch)).filter(
        |requirement: Seq<char>| requirement.len() > 0,
    )
}

/// Whether a constraint allows a version: one of its alternatives does.
pub open spec fn constraint_allows(constraint: Seq<char>, version: Version) -> bool {
    exists|i: int|
        0 <= i < alternatives(constraint).len() && semver_allows(
            #[trigger] alternatives(constraint)[i],
            version.major,
            version.minor,
            version.patch,
        )
}

fn normalise(branch: &[char]) -> (requirement: String)
    ensures
        requirement@ == normalised(branch@),
{
    broadcast use lemma_views_push;

    proof {
        reveal_strlit(".x");
    }
    let text = replace_text(string_of(trim(branch)).as_str(), ".x", ".*");
    let tokens = words(chars_of(text.as_str()).as_slice());
    let ghost expected = words_of(text@).map_values(|token: Seq<char>| pinned_token(token));
    let mut pinned: Vec<String> = Vec::new();
    let mut i: usize = 0;
    while i < tokens.len()
        invariant
            i <= tokens@.len(),
            views(tokens@) == words_of(text@),
            expected == words_of(text@).map_values(|token: Seq<char>| pinned_token(token)),
            views(pinned@) == expected.take(i as int),
        decreases tokens@.len() - i,
    {
        pinned.push(pin_bare_version(tokens[i].as_slice()));
        assert(views(tokens@)[i as int] == tokens@[i as int]@);
        assert(expected.take(i + 1) =~= expected.take(i as int).push(expected[i as int]));
        i = i + 1;
    }
    assert(expected.take(i as int) =~= expected);
    join(pinned.as_slice(), ",")
}

/// Turns what a manifest writes into something comparable.
///
/// Composer and npm both allow spaces for "and" and `||` for "or", while the
/// semver crate wants commas and has no "or", so the text is normalised and
/// the alternatives are kept as separate requirements.
pub fn requirements(constraint: &str) -> (list: Vec<String>)
    ensures
        views(list@) == alternatives(constraint@),
{
    broadcast use lemma_views_push;

    proof {
        reveal_strlit("||");
    }
    let branches = split_text(chars_of(constraint).as_slice(), chars_of("||").as_slice());
    let ghost keep = |requirement: Seq<char>| requirement.len() > 0;
    let ghost all = split_on(constraint@, "||"@).map_values(
        |branch: Seq<char>| normalised(branch),
    );
    let mut list: Vec<String> = Vec::new();
    let mut i: usize = 0;
    proof {
        reveal(Seq::filter);
        assert(all.take(0).filter(keep) =~= seq![]);
    }
    while i < branches.len()
        invariant
            i <= branches@.len(),
            views(branches@) == split_on(constraint@, "||"@),
            keep == (|requirement: Seq<char>| requirement.len() > 0),
            all == split_on(constraint@, "||"@).map_values(|branch: Seq<char>| normalised(branch)),
            views(list@) == all.take(i as int).filter(keep),
        decreases branches@.len() - i,
    {
        proof {
            reveal(Seq::filter);
            assert(all.take(i + 1).drop_last() =~= all.take(i as int));
            assert(views(branches@)[i as int] == branches@[i as int]@);
            assert(all.take(i + 1).last() == normalised(branches@[i as int]@));
        }
        let requirement = normalise(branches[i].as_slice());
        if !requirement.as_str().is_empty() {
            list.push(requirement);
        }
        i = i + 1;
    }
    assert(all.take(i as int) =~= all);
    list
}

/// What a bare version, a caret and a tilde mean, where a constraint is one of
/// them.
pub open spec fn means_what_it_says(constraint: Seq<char>, version: Version, allows: bool) -> bool {
    &&& forall|i: u64|
        constraint == #[trigger] major_text(i) ==> allows == (version.major == i)
    &&& forall|i: u64, j: u64|
        constraint == #[trigger] minor_text(i, j) ==> allows == (version.major == i
            && version.minor == j)
    &&& forall|i: u64, j: u64, k: u64|
        constraint == #[trigger] patch_text(i, j, k) ==> allows == (version.major == i
            && version.minor == j && version.patch == k)
    &&& forall|i: u64, j: u64|
        i > 0 && constraint == "^"@ + #[trigger] minor_text(i, j) ==> allows == (version.major == i
            && version.minor >= j)
    &&& forall|i: u64, j: u64|
        constraint == "~"@ + #[trigger] minor_text(i, j) ==> allows == (version.major == i
            && version.minor == j)
    &&& forall|i: u64, j: u64, k: u64|
        constraint == "~"@ + #[trigger] patch_text(i, j, k) ==> allows == (version.major == i
            && version.minor == j && version.patch >= k)
}

/// A constraint that is one word of digits and dots, with or without a caret or
/// a tilde.
pub open spec fn is_one_word(constraint: Seq<char>) -> bool {
    constraint.len() > 0 && forall|i: int|
        0 <= i < constraint.len() ==> is_digit(#[trigger] constraint[i]) || constraint[i] == '.'
            || constraint[i] == '^' || constraint[i] == '~'
}

/// One word is one alternative, pinned where it is bare.
pub proof fn lemma_one_word_is_one_alternative(constraint: Seq<char>)
    requires
        is_one_word(constraint),
    ensures
        alternatives(constraint) == seq![pinned_token(constraint)],
{
    reveal_strlit("||");
    reveal_strlit(".x");
    lemma_position_of(constraint, "||"@);
    if let Some(at) = position_of(constraint, "||"@) {
        assert(constraint.subrange(at, at + 2)[0] == '|');
        assert(constraint[at] == '|');
    }
    lemma_position_of(constraint, ".x"@);
    if let Some(at) = position_of(constraint, ".x"@) {
        assert(constraint.subrange(at, at + 2)[1] == 'x');
        assert(constraint[at + 1] == 'x');
    }
    assert(trimmed(constraint) == constraint) by {
        assert(leading_white(constraint) == 0) by {
            assert(!is_white(constraint[0]));
        }
        assert(constraint.skip(0) =~= constraint);
        assert(!is_white(constraint[constraint.len() - 1]));
    }
    assert(words_of(constraint) =~= seq![constraint]) by {
        lemma_leading_white(constraint);
        lemma_leading_word(constraint);
        assert(leading_white(constraint) == 0) by {
            assert(!is_white(constraint[0]));
        }
        assert(trimmed_start(constraint) =~= constraint);
        assert(leading_word(constraint) == constraint.len()) by {
            let n = leading_word(constraint);
            if n < constraint.len() {
                assert(is_digit(constraint[n]) || constraint[n] == '.' || constraint[n] == '^'
                    || constraint[n] == '~');
                assert(!is_white(constraint[n]));
            }
        }
        assert(constraint.take(constraint.len() as int) =~= constraint);
        let left = constraint.skip(constraint.len() as int);
        lemma_leading_white(left);
        assert(trimmed_start(left).len() == 0);
        assert(words_of(left) =~= seq![]);
    }
    let pinned = words_of(constraint).map_values(|token: Seq<char>| pinned_token(token));
    assert(pinned =~= seq![pinned_token(constraint)]);
    assert(normalised(constraint) == pinned_token(constraint));
    let branches = split_on(constraint, "||"@);
    assert(branches =~= seq![constraint]);
    let all = branches.map_values(|branch: Seq<char>| normalised(branch));
    assert(all =~= seq![pinned_token(constraint)]);
    reveal(Seq::filter);
    let keep = |requirement: Seq<char>| requirement.len() > 0;
    assert(all.drop_last() =~= seq![]);
    assert(all.drop_last().filter(keep) =~= seq![]);
    reveal_strlit("=");
    assert(keep(all.last()));
    assert(all.filter(keep) =~= seq![pinned_token(constraint)]);
}

proof fn lemma_digits_are_bare(constraint: Seq<char>)
    requires
        is_one_word(constraint),
        is_digit(constraint[0]),
    ensures
        pinned_token(constraint) == "="@ + constraint,
{
    if constraint.contains('*') {
        let i = constraint.index_of('*');
        assert(is_digit(constraint[i]) || constraint[i] == '.' || constraint[i] == '^'
            || constraint[i] == '~');
    }
}

/// A written version is one word that begins with a digit.
proof fn lemma_written_versions_are_words(i: u64, j: u64, k: u64)
    ensures
        is_one_word(major_text(i)) && is_digit(major_text(i)[0]),
        is_one_word(minor_text(i, j)) && is_digit(minor_text(i, j)[0]),
        is_one_word(patch_text(i, j, k)) && is_digit(patch_text(i, j, k)[0]),
        is_one_word("^"@ + minor_text(i, j)) && ("^"@ + minor_text(i, j))[0] == '^',
        is_one_word("~"@ + minor_text(i, j)) && ("~"@ + minor_text(i, j))[0] == '~',
        is_one_word("~"@ + patch_text(i, j, k)) && ("~"@ + patch_text(i, j, k))[0] == '~',
{
    reveal_strlit(".");
    reveal_strlit("^");
    reveal_strlit("~");
    lemma_decimal_reads_back(i as nat, i as nat);
    lemma_decimal_reads_back(j as nat, j as nat);
    lemma_decimal_reads_back(k as nat, k as nat);
    let (a, b, c) = (decimal(i as nat), decimal(j as nat), decimal(k as nat));
    assert(is_digit(a[0]));
    assert forall|n: int| 0 <= n < minor_text(i, j).len() implies is_digit(
        #[trigger] minor_text(i, j)[n],
    ) || minor_text(i, j)[n] == '.' by {
        if n < a.len() {
            assert(minor_text(i, j)[n] == a[n]);
        } else if n > a.len() {
            assert(minor_text(i, j)[n] == b[n - a.len() - 1]);
        }
    }
    assert forall|n: int| 0 <= n < patch_text(i, j, k).len() implies is_digit(
        #[trigger] patch_text(i, j, k)[n],
    ) || patch_text(i, j, k)[n] == '.' by {
        let front = minor_text(i, j);
        assert(patch_text(i, j, k) == front + "."@ + c);
        if n < front.len() {
            assert(patch_text(i, j, k)[n] == front[n]);
        } else if n > front.len() {
            assert(patch_text(i, j, k)[n] == c[n - front.len() - 1]);
        }
    }
    assert forall|n: int| 0 <= n < ("^"@ + minor_text(i, j)).len() implies is_digit(
        #[trigger] ("^"@ + minor_text(i, j))[n],
    ) || ("^"@ + minor_text(i, j))[n] == '.' || ("^"@ + minor_text(i, j))[n] == '^' by {
        if n > 0 {
            assert(("^"@ + minor_text(i, j))[n] == minor_text(i, j)[n - 1]);
        }
    }
    assert forall|n: int| 0 <= n < ("~"@ + minor_text(i, j)).len() implies is_digit(
        #[trigger] ("~"@ + minor_text(i, j))[n],
    ) || ("~"@ + minor_text(i, j))[n] == '.' || ("~"@ + minor_text(i, j))[n] == '~' by {
        if n > 0 {
            assert(("~"@ + minor_text(i, j))[n] == minor_text(i, j)[n - 1]);
        }
    }
    assert forall|n: int| 0 <= n < ("~"@ + patch_text(i, j, k)).len() implies is_digit(
        #[trigger] ("~"@ + patch_text(i, j, k))[n],
    ) || ("~"@ + patch_text(i, j, k))[n] == '.' || ("~"@ + patch_text(i, j, k))[n] == '~' by {
        if n > 0 {
            assert(("~"@ + patch_text(i, j, k))[n] == patch_text(i, j, k)[n - 1]);
        }
    }
    assert(minor_text(i, j)[0] == a[0]);
    assert(patch_text(i, j, k)[0] == a[0]);
}

/// A bare version, a caret and a tilde are one alternative; of a constraint with none or
/// several there is nothing to say.
proof fn lemma_several_alternatives_say_nothing(
    constraint: Seq<char>,
    version: Version,
    allows: bool,
)
    requires
        alternatives(constraint).len() != 1,
    ensures
        means_what_it_says(constraint, version, allows),
{
    assert forall|i: u64| constraint == #[trigger] major_text(i) implies allows == (version.major
        == i) by {
        lemma_written_versions_are_words(i, 0, 0);
        lemma_one_word_is_one_alternative(constraint);
    }
    assert forall|i: u64, j: u64| constraint == #[trigger] minor_text(i, j) implies allows == (
    version.major == i && version.minor == j) by {
        lemma_written_versions_are_words(i, j, 0);
        lemma_one_word_is_one_alternative(constraint);
    }
    assert forall|i: u64, j: u64, k: u64| constraint == #[trigger] patch_text(i, j, k) implies allows
        == (version.major == i && version.minor == j && version.patch == k) by {
        lemma_written_versions_are_words(i, j, k);
        lemma_one_word_is_one_alternative(constraint);
    }
    assert forall|i: u64, j: u64|
        i > 0 && constraint == "^"@ + #[trigger] minor_text(i, j) implies allows == (version.major
        == i && version.minor >= j) by {
        lemma_written_versions_are_words(i, j, 0);
        lemma_one_word_is_one_alternative(constraint);
    }
    assert forall|i: u64, j: u64| constraint == "~"@ + #[trigger] minor_text(i, j) implies allows == (
    version.major == i && version.minor == j) by {
        lemma_written_versions_are_words(i, j, 0);
        lemma_one_word_is_one_alternative(constraint);
    }
    assert forall|i: u64, j: u64, k: u64|
        constraint == "~"@ + #[trigger] patch_text(i, j, k) implies allows == (version.major == i
        && version.minor == j && version.patch >= k) by {
        lemma_written_versions_are_words(i, j, k);
        lemma_one_word_is_one_alternative(constraint);
    }
}

/// Whether a version is allowed, by the alternatives of a constraint.
fn allows_version(constraint: &str, list: &Vec<String>, version: &Version) -> (allows: bool)
    requires
        views(list@) == alternatives(constraint@),
    ensures
        allows == constraint_allows(constraint@, *version),
        means_what_it_says(constraint@, *version, allows),
{
    let ghost all = alternatives(constraint@);
    let ghost asked = constraint@;
    if list.len() == 1 {
        let allows = requirement_allows(list[0].as_str(), version);
        proof {
            assert(views(list@)[0] == list@[0]@);
            assert(allows == semver_allows(
                all[0],
                version.major,
                version.minor,
                version.patch,
            ));
            assert forall|i: u64| asked == #[trigger] major_text(i) implies allows == (version.major
                == i) by {
                lemma_written_versions_are_words(i, 0, 0);
                lemma_one_word_is_one_alternative(asked);
                lemma_digits_are_bare(asked);
            }
            assert forall|i: u64, j: u64| asked == #[trigger] minor_text(i, j) implies allows == (
            version.major == i && version.minor == j) by {
                lemma_written_versions_are_words(i, j, 0);
                lemma_one_word_is_one_alternative(asked);
                lemma_digits_are_bare(asked);
            }
            assert forall|i: u64, j: u64, k: u64| asked == #[trigger] patch_text(i, j, k) implies allows
                == (version.major == i && version.minor == j && version.patch == k) by {
                lemma_written_versions_are_words(i, j, k);
                lemma_one_word_is_one_alternative(asked);
                lemma_digits_are_bare(asked);
            }
            assert forall|i: u64, j: u64|
                i > 0 && asked == "^"@ + #[trigger] minor_text(i, j) implies allows == (version.major
                == i && version.minor >= j) by {
                lemma_written_versions_are_words(i, j, 0);
                lemma_one_word_is_one_alternative(asked);
                assert(!is_digit(asked[0]));
            }
            assert forall|i: u64, j: u64| asked == "~"@ + #[trigger] minor_text(i, j) implies allows
                == (version.major == i && version.minor == j) by {
                lemma_written_versions_are_words(i, j, 0);
                lemma_one_word_is_one_alternative(asked);
                assert(!is_digit(asked[0]));
            }
            assert forall|i: u64, j: u64, k: u64|
                asked == "~"@ + #[trigger] patch_text(i, j, k) implies allows == (version.major == i
                && version.minor == j && version.patch >= k) by {
                lemma_written_versions_are_words(i, j, k);
                lemma_one_word_is_one_alternative(asked);
                assert(!is_digit(asked[0]));
            }
        }
        return allows;
    }
    let mut i: usize = 0;
    while i < list.len()
        invariant
            i <= list@.len(),
            list@.len() != 1,
            asked == constraint@,
            views(list@) == alternatives(asked),
            all == alternatives(asked),
            forall|k: int|
                0 <= k < i ==> !semver_allows(
                    #[trigger] all[k],
                    version.major,
                    version.minor,
                    version.patch,
                ),
        decreases list@.len() - i,
    {
        assert(views(list@)[i as int] == list@[i as int]@);
        if requirement_allows(list[i].as_str(), version) {
            proof {
                assert(semver_allows(
                    all[i as int],
                    version.major,
                    version.minor,
                    version.patch,
                ));
                lemma_several_alternatives_say_nothing(asked, *version, true);
            }
            return true;
        }
        i = i + 1;
    }
    proof {
        lemma_several_alternatives_say_nothing(asked, *version, false);
    }
    false
}

/// Which of the installs a constraint allows.
pub open spec fn allowed_by(installed: Seq<InstalledView>, constraint: Seq<char>) -> Seq<bool> {
    installed.map_values(|one: InstalledView| constraint_allows(constraint, one.version))
}

/// Finds out which of the installs a constraint allows.
pub fn allowed_versions(installed: &[Installed], constraint: &str) -> (allowed: Vec<bool>)
    ensures
        allowed@ == allowed_by(views(installed@), constraint@),
        forall|i: int|
            0 <= i < installed@.len() ==> means_what_it_says(
                constraint@,
                (#[trigger] installed@[i]).version,
                allowed@[i],
            ),
{
    let list = requirements(constraint);
    let ghost expected = allowed_by(views(installed@), constraint@);
    let mut allowed: Vec<bool> = Vec::new();
    let mut i: usize = 0;
    while i < installed.len()
        invariant
            i <= installed@.len(),
            views(list@) == alternatives(constraint@),
            expected == allowed_by(views(installed@), constraint@),
            allowed@ == expected.take(i as int),
            forall|k: int|
                0 <= k < i ==> means_what_it_says(
                    constraint@,
                    (#[trigger] installed@[k]).version,
                    allowed@[k],
                ),
        decreases installed@.len() - i,
    {
        let ghost before = allowed@;
        let allows = allows_version(constraint, &list, &installed[i].version);
        allowed.push(allows);
        assert(expected[i as int] == constraint_allows(
            constraint@,
            installed@[i as int].version,
        ));
        assert(expected.take(i + 1) =~= expected.take(i as int).push(expected[i as int]));
        assert forall|k: int| 0 <= k < i + 1 implies means_what_it_says(
            constraint@,
            (#[trigger] installed@[k]).version,
            allowed@[k],
        ) by {
            if k < i {
                assert(allowed@[k] == before[k]);
            }
        }
        i = i + 1;
    }
    assert(expected.take(i as int) =~= expected);
    allowed
}

/// Where the highest of the allowed installs stands; of equals, the last.
pub open spec fn highest(installed: Seq<InstalledView>, allowed: Seq<bool>) -> Option<int>
    decreases installed.len(),
{
    if installed.len() == 0 {
        None
    } else {
        let last = installed.len() - 1;
        match highest(installed.drop_last(), allowed) {
            None => if allowed[last] {
                Some(last)
            } else {
                None
            },
            Some(best) => if allowed[last] && !installed[last].version.older_than(
                installed[best].version,
            ) {
                Some(last)
            } else {
                Some(best)
            },
        }
    }
}

/// The highest of the allowed installs.
pub open spec fn picked(installed: Seq<InstalledView>, allowed: Seq<bool>) -> Option<InstalledView> {
    match highest(installed, allowed) {
        Some(at) => Some(installed[at]),
        None => None,
    }
}

/// What an optional install says.
pub open spec fn maybe_installed(installed: Option<&Installed>) -> Option<InstalledView> {
    match installed {
        Some(installed) => Some(installed@),
        None => None,
    }
}

proof fn lemma_highest(installed: Seq<InstalledView>, allowed: Seq<bool>)
    requires
        allowed.len() >= installed.len(),
    ensures
        match highest(installed, allowed) {
            Some(at) => 0 <= at < installed.len() && allowed[at] && forall|i: int|
                0 <= i < installed.len() && allowed[i] ==> !installed[at].version.older_than(
                    (#[trigger] installed[i]).version,
                ),
            None => forall|i: int| 0 <= i < installed.len() ==> !#[trigger] allowed[i],
        },
    decreases installed.len(),
{
    if installed.len() > 0 {
        let front = installed.drop_last();
        lemma_highest(front, allowed);
        if let Some(at) = highest(installed, allowed) {
            assert forall|i: int| 0 <= i < installed.len() && allowed[i] implies !installed[at].version.older_than(
                (#[trigger] installed[i]).version,
            ) by {
                if i < front.len() {
                    assert(front[i] == installed[i]);
                }
            }
        }
    }
}

/// The highest of the installs that are allowed.
pub fn select_in<'a>(installed: &'a [Installed], allowed: &Vec<bool>) -> (chosen: Option<
    &'a Installed,
>)
    requires
        allowed@.len() == installed@.len(),
    ensures
        maybe_installed(chosen) == picked(views(installed@), allowed@),
{
    let ghost all = views(installed@);
    let mut best: Option<usize> = None;
    let mut i: usize = 0;
    while i < installed.len()
        invariant
            i <= installed@.len(),
            allowed@.len() == installed@.len(),
            all == views(installed@),
            match best {
                Some(at) => at < i && highest(all.take(i as int), allowed@) == Some(at as int),
                None => highest(all.take(i as int), allowed@) is None,
            },
        decreases installed@.len() - i,
    {
        assert(all.take(i + 1).drop_last() =~= all.take(i as int));
        assert(all[i as int] == installed@[i as int]@);
        if allowed[i] {
            best = match best {
                Some(at) => {
                    assert(all[at as int] == installed@[at as int]@);
                    if installed[i].version.is_older_than(&installed[at].version) {
                        Some(at)
                    } else {
                        Some(i)
                    }
                },
                None => Some(i),
            };
        }
        i = i + 1;
    }
    assert(all.take(i as int) =~= all);
    match best {
        Some(at) => {
            assert(all[at as int] == installed@[at as int]@);
            Some(&installed[at])
        },
        None => None,
    }
}

/// The highest installed version the constraint allows.
///
/// Highest rather than first found, and compared as numbers rather than text:
/// sorting "8.9" against "8.10" as strings picks the older one, which is how a
/// version switcher quietly runs the wrong binary for months.
///
/// Nothing matching answers with nothing. Falling back to the nearest version
/// would run a project on an interpreter it said it could not use.
///
/// A bare version means that version, and `^` may move up within its major:
/// the install chosen for such a constraint is the highest of exactly those.
pub fn select<'a>(installed: &'a [Installed], constraint: &str) -> (chosen: Option<&'a Installed>)
    ensures
        maybe_installed(chosen) == picked(
            views(installed@),
            allowed_by(views(installed@), constraint@),
        ),
        forall|i: int|
            0 <= i < installed@.len() ==> means_what_it_says(
                constraint@,
                (#[trigger] installed@[i]).version,
                allowed_by(views(installed@), constraint@)[i],
            ),
{
    let allowed = allowed_versions(installed, constraint);
    select_in(installed, &allowed)
}

/// Every install is allowed.
pub open spec fn all_allowed(installed: Seq<InstalledView>) -> Seq<bool> {
    installed.map_values(|one: InstalledView| true)
}

/// The newest of what is installed, for a project that asks for nothing.
pub fn newest(installed: &[Installed]) -> (chosen: Option<&Installed>)
    ensures
        maybe_installed(chosen) == picked(views(installed@), all_allowed(views(installed@))),
{
    let mut allowed: Vec<bool> = Vec::new();
    let mut i: usize = 0;
    while i < installed.len()
        invariant
            i <= installed@.len(),
            allowed@ =~= all_allowed(views(installed@)).take(i as int),
        decreases installed@.len() - i,
    {
        allowed.push(true);
        i = i + 1;
    }
    assert(allowed@ =~= all_allowed(views(installed@)));
    select_in(installed, &allowed)
}

/// What a section of a manifest says of a tool.
pub open spec fn wanted_in(
    document: Option<JsonView>,
    section: Seq<char>,
    tool: Seq<char>,
) -> Option<Seq<char>> {
    match document {
        Some(json) => match text_fields_member(json, 0, 1, section) {
            Some(fields) => entry_of(fields, tool),
            None => None,
        },
        None => None,
    }
}

/// The document a text holds, where it can be read.
pub open spec fn readable(document: Result<JsonView, Seq<char>>) -> Option<JsonView> {
    match document {
        Ok(json) => Some(json),
        Err(_) => None,
    }
}

/// What a section of a manifest says of a tool.
pub fn wanted_from(document: &Json, section: &str, tool: &str) -> (constraint: Option<String>)
    ensures
        maybe_text(constraint) == wanted_in(Some(document@), section@, tool@),
{
    match read_text_fields_member(document, 0, 1, section) {
        Some(fields) => match find_entry(fields.as_slice(), tool) {
            Some(constraint) => Some(constraint.clone()),
            None => None,
        },
        None => None,
    }
}

/// The PHP constraint a composer manifest declares, if it declares one.
pub fn wanted_php(composer_json: &str) -> (constraint: Option<String>)
    ensures
        maybe_text(constraint) == wanted_in(
            readable(json_document(composer_json@)),
            "require"@,
            "php"@,
        ),
{
    match parse(composer_json) {
        Ok(document) => wanted_from(&document, "require", "php"),
        Err(_) => None,
    }
}

/// The Node constraint a package manifest declares, if it declares one.
pub fn wanted_node(package_json: &str) -> (constraint: Option<String>)
    ensures
        maybe_text(constraint) == wanted_in(
            readable(json_document(package_json@)),
            "engines"@,
            "node"@,
        ),
{
    match parse(package_json) {
        Ok(document) => wanted_from(&document, "engines", "node"),
        Err(_) => None,
    }
}

/// Where one tool's versions live on this machine.
///
/// Nothing here is discovered by convention: a fourth install location or a
/// version nobody has heard of yet has to be found all the same.
#[derive(Debug, Clone, PartialEq, Eq)]
pub struct ToolConfig {
    /// Directories whose subdirectories are versions.
    pub search: Vec<String>,
    /// The file that has to be present for a directory to count as an install.
    pub binary: String,
    /// Where that file sits inside a version directory, when it is not at the
    /// top: Go keeps its binaries in `bin`, Node does not.
    pub bin_subdir: Option<String>,
    /// Versions pointed at by hand, for installs whose directory name says
    /// nothing useful.
    pub versions: Vec<(String, String)>,
}

/// What the configuration of a tool says.
#[verifier::ext_equal]
pub struct ToolConfigView {
    pub search: Seq<Seq<char>>,
    pub binary: Seq<char>,
    pub bin_subdir: Option<Seq<char>>,
    pub versions: Seq<(Seq<char>, Seq<char>)>,
}

impl View for ToolConfig {
    type V = ToolConfigView;

    open spec fn view(&self) -> ToolConfigView {
        ToolConfigView {
            search: views(self.search@),
            binary: self.binary@,
            bin_subdir: maybe_text(self.bin_subdir),
            versions: views(self.versions@),
        }
    }
}

impl Default for ToolConfig {
    fn default() -> (config: Self)
        ensures
            config@ == (ToolConfigView {
                search: seq![],
                binary: seq![],
                bin_subdir: None,
                versions: seq![],
            }),
    {
        let config = ToolConfig {
            search: Vec::new(),
            binary: String::new(),
            bin_subdir: None,
            versions: Vec::new(),
        };
        assert(config@.search =~= seq![]);
        assert(config@.versions =~= seq![]);
        config
    }
}

/// A directory that may hold a version of a tool.
#[derive(Debug, Clone, PartialEq, Eq)]
pub struct VersionDir {
    /// What it is called, or what the configuration calls it.
    pub label: String,
    /// Whether the binary is there.
    pub usable: bool,
    /// The directory the binary is in.
    pub bin_dir: String,
}

/// What a version directory says.
#[verifier::ext_equal]
pub struct VersionDirView {
    pub label: Seq<char>,
    pub usable: bool,
    pub bin_dir: Seq<char>,
}

impl View for VersionDir {
    type V = VersionDirView;

    open spec fn view(&self) -> VersionDirView {
        VersionDirView { label: self.label@, usable: self.usable, bin_dir: self.bin_dir@ }
    }
}

/// The version a directory offers: it has to name one and to hold the binary.
pub open spec fn offered(directory: VersionDirView) -> Option<Version> {
    if directory.usable {
        version_named(directory.label)
    } else {
        None
    }
}

/// The installs among the directories that were searched.
pub open spec fn searched(found: Seq<VersionDirView>) -> Seq<InstalledView>
    decreases found.len(),
{
    if found.len() == 0 {
        seq![]
    } else {
        let before = searched(found.drop_last());
        match offered(found.last()) {
            Some(version) => before.push(
                InstalledView { label: found.last().label, version, path: found.last().bin_dir },
            ),
            None => before,
        }
    }
}

/// The installs with those named by hand, each in place of what was found of
/// the same version.
pub open spec fn with_named(found: Seq<InstalledView>, named: Seq<VersionDirView>) -> Seq<
    InstalledView,
>
    decreases named.len(),
{
    if named.len() == 0 {
        found
    } else {
        let before = with_named(found, named.drop_last());
        match offered(named.last()) {
            Some(version) => before.filter(|one: InstalledView| one.version != version).push(
                InstalledView { label: version.text(), version, path: named.last().bin_dir },
            ),
            None => before,
        }
    }
}

/// Every usable version, oldest first.
pub open spec fn discovered(found: Seq<VersionDirView>, named: Seq<VersionDirView>) -> Seq<
    InstalledView,
> {
    in_order::<Installed>(with_named(searched(found), named))
}

fn without_version(list: Vec<Installed>, version: &Version) -> (kept: Vec<Installed>)
    ensures
        views(kept@) == views(list@).filter(|one: InstalledView| one.version != *version),
{
    broadcast use lemma_views_push;

    let ghost all = views(list@);
    let ghost keep = |one: InstalledView| one.version != *version;
    let mut kept: Vec<Installed> = Vec::new();
    let mut i: usize = 0;
    proof {
        reveal(Seq::filter);
        assert(all.take(0).filter(keep) =~= seq![]);
    }
    while i < list.len()
        invariant
            i <= list@.len(),
            all == views(list@),
            keep == (|one: InstalledView| one.version != *version),
            views(kept@) == all.take(i as int).filter(keep),
        decreases list@.len() - i,
    {
        proof {
            reveal(Seq::filter);
            assert(all.take(i + 1).drop_last() =~= all.take(i as int));
            assert(all.take(i + 1).last() == list@[i as int]@);
        }
        if list[i].version != *version {
            kept.push(list[i].copy());
        }
        i = i + 1;
    }
    assert(all.take(i as int) =~= all);
    kept
}

/// Finds every usable version of one tool, from the directories its search
/// paths hold and those its configuration names.
///
/// A directory only counts when it both names a version and actually holds the
/// binary. Offering an install whose binary is missing just moves the failure
/// to the moment somebody tries to use it.
pub fn discover(found: &Vec<VersionDir>, named: &Vec<VersionDir>) -> (installed: Vec<Installed>)
    ensures
        views(installed@) == discovered(views(found@), views(named@)),
{
    broadcast use lemma_views_push;

    let ghost dirs = views(found@);
    let ghost given = views(named@);
    let mut installed: Vec<Installed> = Vec::new();
    let mut i: usize = 0;
    assert(views(installed@) =~= seq![]);
    while i < found.len()
        invariant
            i <= found@.len(),
            dirs == views(found@),
            views(installed@) == searched(dirs.take(i as int)),
        decreases found@.len() - i,
    {
        assert(dirs.take(i + 1).drop_last() =~= dirs.take(i as int));
        assert(dirs.take(i + 1).last() == found@[i as int]@);
        let directory = &found[i];
        if directory.usable {
            if let Some(version) = version_in(directory.label.as_str()) {
                installed.push(
                    Installed {
                        label: directory.label.clone(),
                        version,
                        path: directory.bin_dir.clone(),
                    },
                );
            }
        }
        i = i + 1;
    }
    assert(dirs.take(i as int) =~= dirs);
    // Named by hand last, so an explicit entry replaces whatever discovery made
    // of the same version.
    let mut k: usize = 0;
    assert(given.take(0) =~= seq![]);
    while k < named.len()
        invariant
            k <= named@.len(),
            given == views(named@),
            views(installed@) == with_named(searched(dirs), given.take(k as int)),
        decreases named@.len() - k,
    {
        assert(given.take(k + 1).drop_last() =~= given.take(k as int));
        assert(given.take(k + 1).last() == named@[k as int]@);
        let directory = &named[k];
        if directory.usable {
            if let Some(version) = version_in(directory.label.as_str()) {
                installed = without_version(installed, &version);
                installed.push(
                    Installed {
                        label: version.to_string(),
                        version,
                        path: directory.bin_dir.clone(),
                    },
                );
            }
        }
        k = k + 1;
    }
    assert(given.take(k as int) =~= given);
    sort(installed)
}

/// Why a version was chosen, or why none was.
#[derive(Debug, Clone, Copy, PartialEq, Eq, Structural)]
pub enum Reason {
    /// The configuration pinned this project to a version.
    Pinned,
    /// The project's own manifest asked for it.
    Declared,
    /// The project asked for nothing, so the newest install was taken.
    Newest,
    /// Something is installed, but none of it satisfies what was asked for.
    NothingSatisfies,
    /// No version of this tool was found at all.
    NoneInstalled,
}

#[derive(Debug, Clone)]
pub struct Resolution {
    pub chosen: Option<Installed>,
    pub constraint: Option<String>,
    pub reason: Reason,
}

/// What a resolution says.
#[verifier::ext_equal]
pub struct ResolutionView {
    pub chosen: Option<InstalledView>,
    pub constraint: Option<Seq<char>>,
    pub reason: Reason,
}

impl View for Resolution {
    type V = ResolutionView;

    open spec fn view(&self) -> ResolutionView {
        ResolutionView {
            chosen: match self.chosen {
                Some(installed) => Some(installed@),
                None => None,
            },
            constraint: maybe_text(self.constraint),
            reason: self.reason,
        }
    }
}

/// What is asked for: the pin, or else what the manifest declares.
pub open spec fn asked_for(pinned: Option<Seq<char>>, declared: Option<Seq<char>>) -> Option<
    Seq<char>,
> {
    if pinned is Some {
        pinned
    } else {
        declared
    }
}

/// The installs a project may run with.
pub open spec fn may_run_with(installed: Seq<InstalledView>, asked: Option<Seq<char>>) -> Seq<bool> {
    match asked {
        Some(constraint) => allowed_by(installed, constraint),
        None => all_allowed(installed),
    }
}

/// Which install a project runs with and why, given those it may run with.
pub open spec fn resolution_of(
    installed: Seq<InstalledView>,
    pinned: Option<Seq<char>>,
    declared: Option<Seq<char>>,
    allowed: Seq<bool>,
) -> ResolutionView {
    let constraint = asked_for(pinned, declared);
    let chosen = picked(installed, allowed);
    ResolutionView {
        chosen,
        constraint,
        reason: if installed.len() == 0 {
            Reason::NoneInstalled
        } else if constraint is Some && chosen is None {
            Reason::NothingSatisfies
        } else if pinned is Some {
            Reason::Pinned
        } else if declared is Some {
            Reason::Declared
        } else {
            Reason::Newest
        },
    }
}

/// What an optional text holds.
pub open spec fn asked_text(text: Option<&str>) -> Option<Seq<char>> {
    match text {
        Some(text) => Some(text@),
        None => None,
    }
}

/// Decides which install a project runs with, given those it may run with.
pub fn resolve_in(
    installed: &[Installed],
    pinned: Option<&str>,
    declared: Option<&str>,
    allowed: &Vec<bool>,
) -> (resolution: Resolution)
    requires
        allowed@.len() == installed@.len(),
    ensures
        resolution@ == resolution_of(
            views(installed@),
            asked_text(pinned),
            asked_text(declared),
            allowed@,
        ),
{
    let (constraint, reason): (Option<String>, Reason) = match (pinned, declared) {
        (Some(pin), _) => (Some(pin.to_owned()), Reason::Pinned),
        (None, Some(asked)) => (Some(asked.to_owned()), Reason::Declared),
        (None, None) => (None, Reason::Newest),
    };
    if installed.len() == 0 {
        return Resolution {
            chosen: None,
            constraint,
            // Told apart from "nothing matches" on purpose: one is fixed by
            // installing a version, the other by changing what is asked for.
            reason: Reason::NoneInstalled,
        };
    }
    match select_in(installed, allowed) {
        Some(found) => Resolution { chosen: Some(found.copy()), constraint, reason },
        None => {
            let reason = if constraint.is_some() {
                Reason::NothingSatisfies
            } else {
                reason
            };
            Resolution { chosen: None, constraint, reason }
        },
    }
}

/// Decides which installed version a project should run with.
///
/// A pin beats a manifest, because a pin is somebody looking at this project
/// and deciding; a manifest is what the project claimed, which for a legacy
/// codebase is often wrong or missing.
///
/// When a constraint is given and nothing satisfies it, nothing is chosen.
/// Falling back to the nearest version would run the project on an interpreter
/// it said it could not use, which is exactly the failure this exists to
/// prevent - and it would do it silently.
pub fn resolve(
    installed: &[Installed],
    pinned: Option<&str>,
    declared: Option<&str>,
) -> (resolution: Resolution)
    ensures
        resolution@ == resolution_of(
            views(installed@),
            asked_text(pinned),
            asked_text(declared),
            may_run_with(
                views(installed@),
                asked_for(asked_text(pinned), asked_text(declared)),
            ),
        ),
        asked_for(asked_text(pinned), asked_text(declared)) matches Some(constraint) ==> forall|
            i: int,
        |
            0 <= i < installed@.len() ==> means_what_it_says(
                constraint,
                (#[trigger] installed@[i]).version,
                allowed_by(views(installed@), constraint)[i],
            ),
{
    let asked: Option<&str> = match pinned {
        Some(pin) => Some(pin),
        None => declared,
    };
    match asked {
        Some(constraint) => {
            let allowed = allowed_versions(installed, constraint);
            resolve_in(installed, pinned, declared, &allowed)
        },
        None => {
            let mut allowed: Vec<bool> = Vec::new();
            let mut i: usize = 0;
            while i < installed.len()
                invariant
                    i <= installed@.len(),
                    allowed@ =~= all_allowed(views(installed@)).take(i as int),
                decreases installed@.len() - i,
            {
                allowed.push(true);
                i = i + 1;
            }
            assert(allowed@ =~= all_allowed(views(installed@)));
            resolve_in(installed, pinned, declared, &allowed)
        },
    }
}

/// What is chosen is installed and allowed, and nothing that is allowed is
/// newer. When nothing installed is allowed, nothing is chosen.
pub proof fn law_the_highest_allowed_is_chosen(installed: Seq<InstalledView>, allowed: Seq<bool>)
    requires
        allowed.len() == installed.len(),
    ensures
        match picked(installed, allowed) {
            Some(chosen) => (exists|i: int|
                0 <= i < installed.len() && allowed[i] && #[trigger] installed[i] == chosen)
                && forall|i: int|
                0 <= i < installed.len() && allowed[i] ==> !chosen.version.older_than(
                    (#[trigger] installed[i]).version,
                ),
            None => forall|i: int| 0 <= i < installed.len() ==> !#[trigger] allowed[i],
        },
{
    lemma_highest(installed, allowed);
    if let Some(at) = highest(installed, allowed) {
        assert(installed[at] == picked(installed, allowed)->0);
    }
}

/// A pin beats whatever the manifest asks for.
pub proof fn law_a_pin_beats_the_manifest(
    installed: Seq<InstalledView>,
    pin: Seq<char>,
    one: Option<Seq<char>>,
    other: Option<Seq<char>>,
    allowed: Seq<bool>,
)
    ensures
        resolution_of(installed, Some(pin), one, allowed) == resolution_of(
            installed,
            Some(pin),
            other,
            allowed,
        ),
        asked_for(Some(pin), one) == Some(pin),
{
}

/// "You have none" and "yours are all wrong" are told apart, and neither is said
/// when something was chosen.
pub proof fn law_reasons_are_told_apart(
    installed: Seq<InstalledView>,
    pinned: Option<Seq<char>>,
    declared: Option<Seq<char>>,
    allowed: Seq<bool>,
)
    requires
        allowed.len() == installed.len(),
        asked_for(pinned, declared) is None ==> allowed == all_allowed(installed),
    ensures
        ({
            let resolution = resolution_of(installed, pinned, declared, allowed);
            &&& resolution.reason == Reason::NoneInstalled <==> installed.len() == 0
            &&& resolution.reason == Reason::NothingSatisfies <==> installed.len() > 0
                && resolution.chosen is None
            &&& resolution.chosen is Some ==> resolution.reason == Reason::Pinned
                || resolution.reason == Reason::Declared || resolution.reason == Reason::Newest
        }),
{
    lemma_highest(installed, allowed);
    if asked_for(pinned, declared) is None && installed.len() > 0 {
        assert(allowed[0]);
    }
}

proof fn lemma_parts_run_on(
    run: Seq<char>,
    rest: Seq<char>,
    digits: Seq<char>,
    parts: Seq<Seq<char>>,
)
    requires
        all_digits(run),
    ensures
        parts_from(run + rest, digits, parts) == parts_from(rest, digits + run, parts),
    decreases run.len(),
{
    if run.len() == 0 {
        assert(run + rest =~= rest);
        assert(digits + run =~= digits);
    } else {
        assert(is_digit(run[0]));
        let after = run.skip(1);
        assert((run + rest).skip(1) =~= after + rest);
        assert((run + rest)[0] == run[0]);
        lemma_parts_run_on(after, rest, digits.push(run[0]), parts);
        assert(digits.push(run[0]) + after =~= digits + run);
    }
}

/// The parts of digits with dots between them are those digits.
proof fn lemma_parts_of_dotted(a: Seq<char>, b: Seq<char>, c: Seq<char>)
    requires
        a.len() > 0 && all_digits(a),
        b.len() > 0 && all_digits(b),
        c.len() > 0 && all_digits(c),
    ensures
        parts_from(a + "."@ + b, seq![], seq![]) == seq![a, b],
        parts_from(a + "."@ + b + "."@ + c, seq![], seq![]) == seq![a, b, c],
{
    reveal_strlit(".");
    let dot = "."@;
    let none = Seq::<char>::empty();
    let rest2 = dot + b;
    let rest3 = dot + b + dot + c;
    assert(a + dot + b =~= a + rest2);
    assert(a + dot + b + dot + c =~= a + rest3);
    lemma_parts_run_on(a, rest2, none, seq![]);
    lemma_parts_run_on(a, rest3, none, seq![]);
    assert(none + a =~= a);
    assert(rest2.skip(1) =~= b + none);
    assert(rest3.skip(1) =~= b + (dot + c));
    let one = Seq::<Seq<char>>::empty().push(a);
    lemma_parts_run_on(b, none, none, one);
    lemma_parts_run_on(b, dot + c, none, one);
    assert(none + b =~= b);
    assert(parts_from(none, b, one) =~= seq![a, b]);
    assert((dot + c).skip(1) =~= c + none);
    let two = one.push(b);
    lemma_parts_run_on(c, none, none, two);
    assert(none + c =~= c);
    assert(parts_from(none, c, two) =~= seq![a, b, c]);
    assert(rest2[0] == '.' && rest3[0] == '.' && (dot + c)[0] == '.');
    assert(with_digits(seq![], a) =~= one);
    assert(with_digits(one, b) =~= two);
}

/// A short version is padded: `8.1` and `8.1.0` are the same install.
pub proof fn law_a_short_version_is_padded(major: Seq<char>, minor: Seq<char>)
    requires
        major.len() > 0 && all_digits(major),
        minor.len() > 0 && all_digits(minor),
    ensures
        version_named(major + "."@ + minor) == version_named(major + "."@ + minor + "."@ + "0"@),
{
    reveal_strlit("0");
    lemma_parts_of_dotted(major, minor, "0"@);
}

proof fn lemma_decimal_has_no_zero_in_front(n: nat)
    ensures
        decimal(n).len() > 1 ==> decimal(n)[0] != '0',
    decreases n,
{
    if n >= 10 {
        lemma_decimal_has_no_zero_in_front(n / 10);
        lemma_decimal_reads_back(n / 10, n);
        assert(decimal(n)[0] == decimal(n / 10)[0]);
        if n / 10 < 10 {
            assert(decimal(n / 10)[0] == digit_char(n / 10));
        } else {
            lemma_decimal_reads_back(n / 10 / 10, n);
            assert(decimal(n / 10).len() > 1);
        }
    }
}

/// A version that was written is read back.
pub proof fn law_a_written_version_reads_back(version: Version)
    ensures
        version_named(version.text()) == Some(version),
{
    let (a, b, c) = (version.major as nat, version.minor as nat, version.patch as nat);
    lemma_decimal_reads_back(a, a);
    lemma_decimal_reads_back(b, b);
    lemma_decimal_reads_back(c, c);
    lemma_decimal_has_no_zero_in_front(a);
    lemma_decimal_has_no_zero_in_front(b);
    lemma_decimal_has_no_zero_in_front(c);
    lemma_parts_of_dotted(decimal(a), decimal(b), decimal(c));
}

/// What stands before a version does not change it, as long as it holds no
/// digit: `php-8.3.6` and `v8.3.6` name 8.3.6.
pub proof fn law_letters_in_front_change_nothing(front: Seq<char>, name: Seq<char>)
    requires
        forall|i: int| 0 <= i < front.len() ==> !is_digit(#[trigger] front[i]),
    ensures
        version_named(front + name) == version_named(name),
    decreases front.len(),
{
    if front.len() == 0 {
        assert(front + name =~= name);
    } else {
        let rest = front.skip(1);
        assert forall|i: int| 0 <= i < rest.len() implies !is_digit(#[trigger] rest[i]) by {
            assert(rest[i] == front[i + 1]);
        }
        assert((front + name)[0] == front[0]);
        assert((front + name).skip(1) =~= rest + name);
        law_letters_in_front_change_nothing(rest, name);
    }
}

/// An explicit entry replaces whatever discovery made of the same version: the
/// last one named for a version is there, and it is the only one.
pub proof fn law_a_named_version_replaces_what_was_found(
    found: Seq<InstalledView>,
    named: Seq<VersionDirView>,
    version: Version,
)
    requires
        named.len() > 0,
        offered(named.last()) == Some(version),
    ensures
        ({
            let all = with_named(found, named);
            &&& all.last() == (InstalledView {
                label: version.text(),
                version,
                path: named.last().bin_dir,
            })
            &&& forall|i: int|
                0 <= i < all.len() - 1 ==> (#[trigger] all[i]).version != version
        }),
{
    let before = with_named(found, named.drop_last());
    let keep = |one: InstalledView| one.version != version;
    let all = with_named(found, named);
    let kept = before.filter(keep);
    assert forall|i: int| 0 <= i < all.len() - 1 implies (#[trigger] all[i]).version != version by {
        assert(all[i] == kept[i]);
        lemma_filter_contains(before, keep, kept[i]);
        assert(kept.contains(kept[i]));
    }
}

/// Nothing is offered whose binary is missing or whose name says no version.
pub proof fn law_only_usable_versions_are_found(found: Seq<VersionDirView>, one: InstalledView)
    requires
        searched(found).contains(one),
    ensures
        exists|i: int|
            0 <= i < found.len() && (#[trigger] found[i]).usable && found[i].label == one.label
                && found[i].bin_dir == one.path && version_named(found[i].label) == Some(
                one.version,
            ),
    decreases found.len(),
{
    if found.len() > 0 {
        let front = found.drop_last();
        let before = searched(front);
        let at = searched(found).index_of(one);
        if at < before.len() {
            assert(before[at] == one);
            assert(before.contains(one));
            law_only_usable_versions_are_found(front, one);
            let i = choose|i: int|
                0 <= i < front.len() && (#[trigger] front[i]).usable && front[i].label == one.label
                    && front[i].bin_dir == one.path && version_named(front[i].label) == Some(
                    one.version,
                );
            assert(found[i] == front[i]);
        } else {
            assert(found[found.len() - 1].usable);
        }
    }
}

/// What normalising makes of a word: a character for a character, so that it
/// stays one word.
proof fn lemma_a_word_stays_a_word(word: Seq<char>)
    ensures
        replaced(word, ".x"@, ".*"@).len() == word.len(),
        forall|i: int|
            0 <= i < word.len() ==> #[trigger] replaced(word, ".x"@, ".*"@)[i] == word[i] || replaced(
                word,
                ".x"@,
                ".*"@,
            )[i] == '*',
        word.len() > 0 ==> replaced(word, ".x"@, ".*"@)[0] == word[0],
    decreases word.len(),
{
    reveal_strlit(".x");
    reveal_strlit(".*");
    lemma_position_of(word, ".x"@);
    if let Some(at) = position_of(word, ".x"@) {
        let rest = word.skip(at + 2);
        lemma_a_word_stays_a_word(rest);
        assert(word.subrange(at, at + 2)[0] == word[at]);
        let made = replaced(word, ".x"@, ".*"@);
        assert(made == word.take(at) + ".*"@ + replaced(rest, ".x"@, ".*"@));
        assert forall|i: int| 0 <= i < word.len() implies #[trigger] made[i] == word[i] || made[i]
            == '*' by {
            if i >= at + 2 {
                assert(made[i] == replaced(rest, ".x"@, ".*"@)[i - at - 2]);
                assert(rest[i - at - 2] == word[i]);
            }
        }
    }
}

proof fn lemma_blank_has_no_wildcard(blank: Seq<char>)
    requires
        forall|i: int| 0 <= i < blank.len() ==> is_white(#[trigger] blank[i]),
    ensures
        replaced(blank, ".x"@, ".*"@) == blank,
{
    reveal_strlit(".x");
    lemma_position_of(blank, ".x"@);
    if let Some(at) = position_of(blank, ".x"@) {
        assert(blank.subrange(at, at + 2)[0] == blank[at]);
        assert(is_white(blank[at]));
    }
}

/// A branch without a word normalises to nothing, and one with a word does not.
proof fn lemma_normalised_branch(branch: Seq<char>)
    ensures
        normalised(branch).len() == 0 <==> trimmed(branch).len() == 0,
        normalised(branch).len() == 0 ==> words_of(replaced(trimmed(branch), ".x"@, ".*"@)).len()
            == 0,
        words_of(replaced(trimmed(branch), ".x"@, ".*"@)).len() == 0 ==> normalised(branch).len()
            == 0,
{
    let around = lemma_trimmed_stands_inside(branch);
    let core = trimmed(branch);
    lemma_a_word_stays_a_word(core);
    let text = replaced(core, ".x"@, ".*"@);
    lemma_leading_white(text);
    let all = words_of(text);
    if core.len() == 0 {
        assert(trimmed_start(text).len() == 0);
        assert(all =~= seq![]);
        let pinned = all.map_values(|token: Seq<char>| pinned_token(token));
        assert(pinned =~= seq![]);
        assert(joined(pinned, ","@) =~= seq![]);
    } else {
        assert(text[0] == core[0]);
        assert(leading_white(text) == 0);
        assert(trimmed_start(text) =~= text);
        lemma_leading_word(text);
        assert(leading_word(text) > 0);
        assert(all.len() > 0);
        assert(all[0] == text.take(leading_word(text)));
        let pinned = all.map_values(|token: Seq<char>| pinned_token(token));
        let rest = pinned.skip(1);
        assert(pinned =~= seq![pinned[0]] + rest);
        law_joining_puts_the_separator_between(pinned[0], rest, ","@);
        if rest.len() == 0 {
            assert(pinned =~= seq![pinned[0]]);
        }
        assert(pinned[0] == pinned_token(all[0]));
    }
}

/// A text that a word of a constraint can be: no white space in it and no bar.
pub open spec fn is_demand(word: Seq<char>) -> bool {
    word.len() > 0 && forall|i: int|
        0 <= i < word.len() ==> !is_white(#[trigger] word[i]) && word[i] != '|'
}

proof fn lemma_normalised_word(word: Seq<char>)
    requires
        is_demand(word),
    ensures
        normalised(word) == pinned_token(replaced(word, ".x"@, ".*"@)),
{
    let none = Seq::<char>::empty();
    law_trimming_keeps_the_core(none, word, none);
    assert(none + word + none =~= word);
    lemma_a_word_stays_a_word(word);
    let text = replaced(word, ".x"@, ".*"@);
    assert forall|i: int| 0 <= i < text.len() implies !is_white(#[trigger] text[i]) by {
        assert(!is_white(word[i]));
    }
    law_words_come_apart(none, text, ' ', none);
    let pinned = words_of(text).map_values(|token: Seq<char>| pinned_token(token));
    assert(pinned =~= seq![pinned_token(text)]);
}

#[verifier::rlimit(40)]
proof fn lemma_normalised_comes_apart(word: Seq<char>, c: char, rest: Seq<char>)
    requires
        is_demand(word),
        is_white(c),
    ensures
        normalised(word + seq![c] + rest) == (if normalised(rest).len() == 0 {
            normalised(word)
        } else {
            normalised(word) + ","@ + normalised(rest)
        }),
        normalised(seq![c] + rest) == normalised(rest),
{
    reveal_strlit(".x");
    let none = Seq::<char>::empty();
    let around = lemma_trimmed_stands_inside(rest);
    let (front, core, back) = (around.0, trimmed(rest), around.1);
    let gap = seq![c] + front;
    assert forall|i: int| 0 <= i < gap.len() implies is_white(#[trigger] gap[i]) by {
        if i > 0 {
            assert(gap[i] == front[i - 1]);
        }
    }
    let whole = word + seq![c] + rest;
    lemma_normalised_branch(rest);
    law_trimming_keeps_the_core(gap, core, back);
    assert(gap + core + back =~= seq![c] + rest);
    lemma_normalised_word(word);
    let made = replaced(word, ".x"@, ".*"@);
    lemma_a_word_stays_a_word(word);
    assert forall|i: int| 0 <= i < made.len() implies !is_white(#[trigger] made[i]) by {
        assert(!is_white(word[i]));
    }
    if core.len() == 0 {
        let tail = gap + back;
        assert forall|i: int| 0 <= i < tail.len() implies is_white(#[trigger] tail[i]) by {
            if i >= gap.len() {
                assert(tail[i] == back[i - gap.len()]);
            } else {
                assert(tail[i] == gap[i]);
            }
        }
        law_trimming_keeps_the_core(none, word, tail);
        assert(none + word + tail =~= whole);
        assert(trimmed(whole) == word);
        law_trimming_keeps_the_core(none, word, none);
        assert(none + word + none =~= word);
    } else {
        let middle = word + gap + core;
        assert(middle.last() == core.last());
        law_trimming_keeps_the_core(none, middle, back);
        assert(none + middle + back =~= whole);
        assert(trimmed(whole) == middle);
        lemma_replaced_comes_apart(word + gap, core, ".x"@, ".*"@);
        assert((word + gap).last() == gap.last());
        lemma_replaced_comes_apart(word, gap, ".x"@, ".*"@);
        assert(gap[0] == c);
        lemma_blank_has_no_wildcard(gap);
        let left = replaced(core, ".x"@, ".*"@);
        assert(replaced(middle, ".x"@, ".*"@) == made + gap + left);
        assert(made + gap + left =~= made + seq![c] + (front + left));
        law_words_come_apart(none, made, c, front + left);
        law_words_come_apart(front, made, c, left);
        let all = words_of(made + gap + left);
        assert(all == seq![made] + words_of(left));
        let ghost pin = |token: Seq<char>| pinned_token(token);
        assert(all.map_values(pin) =~= seq![pinned_token(made)] + words_of(left).map_values(pin));
        assert(words_of(left).map_values(pin).len() > 0);
        law_joining_puts_the_separator_between(
            pinned_token(made),
            words_of(left).map_values(pin),
            ","@,
        );
    }
}

proof fn lemma_one_branch(constraint: Seq<char>)
    requires
        forall|i: int| 0 <= i < constraint.len() ==> constraint[i] != '|',
    ensures
        alternatives(constraint) == (if normalised(constraint).len() == 0 {
            seq![]
        } else {
            seq![normalised(constraint)]
        }),
{
    reveal_strlit("||");
    law_pieces_come_apart(constraint, "||"@, seq![]);
    lemma_one_kept(normalised(constraint));
    assert(split_on(constraint, "||"@).map_values(|branch: Seq<char>| normalised(branch))
        =~= seq![normalised(constraint)]);
}

proof fn lemma_one_kept(requirement: Seq<char>)
    ensures
        seq![requirement].filter(|requirement: Seq<char>| requirement.len() > 0) == (
        if requirement.len() == 0 {
            seq![]
        } else {
            seq![requirement]
        }),
{
    reveal(Seq::filter);
    let keep = |requirement: Seq<char>| requirement.len() > 0;
    let one = seq![requirement];
    assert(one.drop_last() =~= seq![]);
    assert(one.drop_last().filter(keep) =~= seq![]);
    assert(one.filter(keep) =~= if requirement.len() == 0 {
        seq![]
    } else {
        seq![requirement]
    });
}

/// `||` means "or": the alternatives of the two sides, one after the other, and
/// a version is allowed where either side allows it.
#[verifier::rlimit(40)]
pub proof fn law_either_side_may_allow(left: Seq<char>, right: Seq<char>, version: Version)
    requires
        forall|i: int| 0 <= i < left.len() ==> left[i] != '|',
    ensures
        alternatives(left + "||"@ + right) == alternatives(left) + alternatives(right),
        constraint_allows(left + "||"@ + right, version) == (constraint_allows(left, version)
            || constraint_allows(right, version)),
{
    reveal_strlit("||");
    let whole = left + "||"@ + right;
    let keep = |requirement: Seq<char>| requirement.len() > 0;
    let made = |branch: Seq<char>| normalised(branch);
    law_pieces_come_apart(left, "||"@, right);
    let behind = split_on(right, "||"@);
    assert((seq![left] + behind).map_values(made) =~= seq![normalised(left)] + behind.map_values(
        made,
    ));
    Seq::filter_distributes_over_add(seq![normalised(left)], behind.map_values(made), keep);
    lemma_one_branch(left);
    lemma_one_kept(normalised(left));
    let (a, b) = (alternatives(left), alternatives(right));
    assert(alternatives(whole) == a + b);
    if constraint_allows(left, version) {
        let i = choose|i: int|
            0 <= i < a.len() && semver_allows(
                #[trigger] a[i],
                version.major,
                version.minor,
                version.patch,
            );
        assert(alternatives(whole)[i] == a[i]);
    }
    if constraint_allows(right, version) {
        let i = choose|i: int|
            0 <= i < b.len() && semver_allows(
                #[trigger] b[i],
                version.major,
                version.minor,
                version.patch,
            );
        assert(alternatives(whole)[a.len() + i] == b[i]);
    }
    if constraint_allows(whole, version) {
        let all = alternatives(whole);
        let i = choose|i: int|
            0 <= i < all.len() && semver_allows(
                #[trigger] all[i],
                version.major,
                version.minor,
                version.patch,
            );
        if i < a.len() {
            assert(a[i] == all[i]);
        } else {
            assert(b[i - a.len()] == all[i]);
        }
    }
}

/// White space means "and": what the first word demands and what the rest does
/// stand in one requirement, with a comma between them. White space in front or
/// behind says nothing.
pub proof fn law_every_word_is_demanded(word: Seq<char>, c: char, rest: Seq<char>)
    requires
        is_demand(word),
        is_white(c),
        forall|i: int| 0 <= i < rest.len() ==> rest[i] != '|',
    ensures
        alternatives(word).len() == 1,
        alternatives(seq![c] + rest) == alternatives(rest),
        alternatives(rest).len() == 0 ==> alternatives(word + seq![c] + rest) == alternatives(word),
        alternatives(rest).len() > 0 ==> alternatives(word + seq![c] + rest) == seq![
            alternatives(word)[0] + ","@ + alternatives(rest)[0],
        ],
{
    let whole = word + seq![c] + rest;
    assert forall|i: int| 0 <= i < whole.len() implies whole[i] != '|' by {
        if i < word.len() {
            assert(whole[i] == word[i]);
        } else if i > word.len() {
            assert(whole[i] == rest[i - word.len() - 1]);
        }
    }
    assert forall|i: int| 0 <= i < (seq![c] + rest).len() implies (seq![c] + rest)[i] != '|' by {
        if i > 0 {
            assert((seq![c] + rest)[i] == rest[i - 1]);
        }
    }
    reveal_strlit(",");
    lemma_one_branch(whole);
    lemma_one_branch(seq![c] + rest);
    lemma_one_branch(rest);
    lemma_one_branch(word);
    lemma_normalised_comes_apart(word, c, rest);
    lemma_normalised_word(word);
    lemma_a_word_stays_a_word(word);
    reveal_strlit("=");
}

/// Operators mean what they say: a word that begins with no digit and holds no
/// `.x` is asked of the semver crate as it stands.
pub proof fn law_an_operator_is_left_alone(word: Seq<char>)
    requires
        is_demand(word),
        word[0] < '0' || word[0] > '9',
        forall|i: int| 0 <= i < word.len() - 1 ==> word[i] != '.' || #[trigger] word[i + 1] != 'x',
    ensures
        alternatives(word) == seq![word],
        forall|version: Version|
            #[trigger] constraint_allows(word, version) == semver_allows(
                word,
                version.major,
                version.minor,
                version.patch,
            ),
{
    lemma_no_wildcard(word);
    lemma_normalised_word(word);
    lemma_one_branch(word);
    assert forall|version: Version| #[trigger] constraint_allows(word, version) == semver_allows(
        word,
        version.major,
        version.minor,
        version.patch,
    ) by {
        assert(alternatives(word)[0] == word);
    }
}

proof fn lemma_no_wildcard(word: Seq<char>)
    requires
        forall|i: int| 0 <= i < word.len() - 1 ==> word[i] != '.' || #[trigger] word[i + 1] != 'x',
    ensures
        replaced(word, ".x"@, ".*"@) == word,
{
    reveal_strlit(".x");
    lemma_position_of(word, ".x"@);
    if let Some(at) = position_of(word, ".x"@) {
        assert(word.subrange(at, at + 2)[0] == word[at]);
        assert(word.subrange(at, at + 2)[1] == word[at + 1]);
    }
}

/// A bare version is that version: a word that begins with a digit gets an
/// equals sign, unless it holds a wildcard.
pub proof fn law_a_bare_version_is_pinned(word: Seq<char>)
    requires
        is_demand(word),
        '0' <= word[0] && word[0] <= '9',
        forall|i: int| 0 <= i < word.len() - 1 ==> word[i] != '.' || #[trigger] word[i + 1] != 'x',
    ensures
        (forall|i: int| 0 <= i < word.len() ==> word[i] != '*') ==> alternatives(word) == seq![
            seq!['='] + word,
        ],
        (exists|i: int| 0 <= i < word.len() && word[i] == '*') ==> alternatives(word) == seq![word],
{
    reveal_strlit("=");
    assert("="@ =~= seq!['=']);
    lemma_no_wildcard(word);
    lemma_normalised_word(word);
    lemma_one_branch(word);
    if word.contains('*') {
        assert(word[word.index_of('*')] == '*');
    }
}

/// `x` is a wildcard: a version that ends in `.x` is asked for with `.*`, and
/// with no equals sign.
pub proof fn law_an_x_is_any_number(front: Seq<char>)
    requires
        is_demand(front),
        forall|i: int| 0 <= i < front.len() ==> front[i] != 'x',
    ensures
        alternatives(front + ".x"@) == seq![front + ".*"@],
{
    reveal_strlit(".x");
    reveal_strlit(".*");
    let word = front + ".x"@;
    assert forall|i: int| 0 <= i < word.len() implies !is_white(#[trigger] word[i]) && word[i]
        != '|' by {
        if i < front.len() {
            assert(word[i] == front[i]);
        }
    }
    lemma_no_wildcard(front);
    lemma_replaced_comes_apart(front, ".x"@, ".x"@, ".*"@);
    law_replacing_leaves_the_rest(seq![], ".x"@, ".*"@, seq![]);
    law_a_text_is_found_where_it_stands(seq![], ".x"@, seq![]);
    assert(Seq::<char>::empty() + ".x"@ + Seq::<char>::empty() =~= ".x"@);
    let none = ".x"@.skip(2);
    assert(none =~= seq![]);
    lemma_no_wildcard(none);
    assert(replaced(".x"@, ".x"@, ".*"@) =~= ".*"@);
    lemma_normalised_word(word);
    lemma_one_branch(word);
    let made = front + ".*"@;
    assert(made[made.len() - 1] == '*');
    assert(made.contains('*'));
}

/// A version in a name ends where something other than a digit or a dot begins:
/// `8.3.6-Win32-vs16-x64` names 8.3.6, and two numbers name the first patch.
pub proof fn law_what_follows_a_version_is_left_out(version: Version, rest: Seq<char>)
    requires
        rest.len() > 0 ==> !is_digit(rest[0]) && rest[0] != '.',
    ensures
        version_named(patch_text(version.major, version.minor, version.patch) + rest) == Some(
            version,
        ),
        version_named(minor_text(version.major, version.minor) + rest) == Some(
            Version { major: version.major, minor: version.minor, patch: 0 },
        ),
{
    reveal_strlit("0");
    let (a, b, c) = (
        decimal(version.major as nat),
        decimal(version.minor as nat),
        decimal(version.patch as nat),
    );
    lemma_decimal_reads_back(version.major as nat, version.major as nat);
    lemma_decimal_reads_back(version.minor as nat, version.minor as nat);
    lemma_decimal_reads_back(version.patch as nat, version.patch as nat);
    lemma_decimal_has_no_zero_in_front(version.major as nat);
    lemma_decimal_has_no_zero_in_front(version.minor as nat);
    lemma_decimal_has_no_zero_in_front(version.patch as nat);
    lemma_parts_end(a, b, c, rest);
    assert("0"@.drop_last() =~= Seq::<char>::empty());
    assert(digits_value(Seq::<char>::empty()) == 0);
    assert(digits_value("0"@) == 0);
}

#[verifier::rlimit(40)]
proof fn lemma_parts_end(a: Seq<char>, b: Seq<char>, c: Seq<char>, rest: Seq<char>)
    requires
        a.len() > 0 && all_digits(a),
        b.len() > 0 && all_digits(b),
        c.len() > 0 && all_digits(c),
        rest.len() > 0 ==> !is_digit(rest[0]) && rest[0] != '.',
    ensures
        parts_from(a + "."@ + b + rest, seq![], seq![]) == seq![a, b],
        parts_from(a + "."@ + b + "."@ + c + rest, seq![], seq![]) == seq![a, b, c],
{
    reveal_strlit(".");
    let dot = "."@;
    let none = Seq::<char>::empty();
    let rest2 = dot + (b + rest);
    let rest3 = dot + (b + (dot + (c + rest)));
    assert(a + dot + b + rest =~= a + rest2);
    assert(a + dot + b + dot + c + rest =~= a + rest3);
    lemma_parts_run_on(a, rest2, none, seq![]);
    lemma_parts_run_on(a, rest3, none, seq![]);
    assert(none + a =~= a);
    assert(rest2.skip(1) =~= b + rest);
    assert(rest3.skip(1) =~= b + (dot + (c + rest)));
    let one = Seq::<Seq<char>>::empty().push(a);
    lemma_parts_run_on(b, rest, none, one);
    lemma_parts_run_on(b, dot + (c + rest), none, one);
    assert(none + b =~= b);
    assert(parts_from(rest, b, one) =~= seq![a, b]);
    assert((dot + (c + rest)).skip(1) =~= c + rest);
    let two = one.push(b);
    lemma_parts_run_on(c, rest, none, two);
    assert(none + c =~= c);
    assert(parts_from(rest, c, two) =~= seq![a, b, c]);
    assert(rest2[0] == '.' && rest3[0] == '.' && (dot + (c + rest))[0] == '.');
    assert(with_digits(seq![], a) =~= one);
    assert(with_digits(one, b) =~= two);
}

/// The newest that is allowed is chosen by its numbers, major before minor before
/// patch, and of two of the same version the last.
pub proof fn law_the_newest_is_newest_by_number(
    installed: Seq<InstalledView>,
    allowed: Seq<bool>,
    i: int,
)
    requires
        allowed.len() == installed.len(),
        0 <= i < installed.len(),
        allowed[i],
    ensures
        highest(installed, allowed) matches Some(at) && 0 <= at < installed.len() && allowed[at]
            && picked(installed, allowed) == Some(installed[at]) && ({
            let (best, one) = (installed[at].version, installed[i].version);
            ||| best.major > one.major
            ||| best.major == one.major && best.minor > one.minor
            ||| best.major == one.major && best.minor == one.minor && best.patch > one.patch
            ||| best == one && i <= at
        }),
    decreases installed.len(),
{
    let front = installed.drop_last();
    let last = installed.len() - 1;
    lemma_highest(installed, allowed);
    lemma_highest_ignores_the_rest(front, allowed);
    if i < last {
        law_the_newest_is_newest_by_number(front, allowed.drop_last(), i);
    }
    lemma_highest(front, allowed.drop_last());
}

proof fn lemma_highest_ignores_the_rest(front: Seq<InstalledView>, allowed: Seq<bool>)
    requires
        allowed.len() == front.len() + 1,
    ensures
        highest(front, allowed) == highest(front, allowed.drop_last()),
{
    lemma_highest_reads_its_own(front, allowed, allowed.drop_last());
}

proof fn lemma_highest_reads_its_own(
    installed: Seq<InstalledView>,
    one: Seq<bool>,
    other: Seq<bool>,
)
    requires
        forall|i: int| 0 <= i < installed.len() ==> one[i] == other[i],
    ensures
        highest(installed, one) == highest(installed, other),
    decreases installed.len(),
{
    if installed.len() > 0 {
        lemma_highest_reads_its_own(installed.drop_last(), one, other);
    }
}

/// Where something is chosen the reason is the pin, else what the project asks
/// for, else that it is the newest; the constraint that was gone by is told.
pub proof fn law_the_reason_is_who_asked(
    installed: Seq<InstalledView>,
    pinned: Option<Seq<char>>,
    declared: Option<Seq<char>>,
    allowed: Seq<bool>,
)
    requires
        installed.len() > 0,
        picked(installed, allowed) is Some,
    ensures
        ({
            let resolution = resolution_of(installed, pinned, declared, allowed);
            &&& resolution.chosen == picked(installed, allowed)
            &&& pinned is Some ==> resolution.reason is Pinned && resolution.constraint == pinned
            &&& pinned is None && declared is Some ==> resolution.reason is Declared
                && resolution.constraint == declared
            &&& pinned is None && declared is None ==> resolution.reason is Newest
                && resolution.constraint is None
        }),
{
}

/// Every directory that holds the binary and names a version is found.
pub proof fn law_every_usable_version_is_found(found: Seq<VersionDirView>, i: int, version: Version)
    requires
        0 <= i < found.len(),
        found[i].usable,
        version_named(found[i].label) == Some(version),
    ensures
        searched(found).contains(
            InstalledView { label: found[i].label, version, path: found[i].bin_dir },
        ),
    decreases found.len(),
{
    let one = InstalledView { label: found[i].label, version, path: found[i].bin_dir };
    let front = found.drop_last();
    let before = searched(front);
    if i < front.len() {
        law_every_usable_version_is_found(front, i, version);
        let at = before.index_of(one);
        assert(searched(found)[at] == one);
    } else {
        assert(searched(found) == before.push(one));
        assert(searched(found)[before.len() as int] == one);
    }
}

/// Versions are listed oldest first, by their numbers.
pub proof fn law_versions_are_listed_oldest_first(
    found: Seq<VersionDirView>,
    named: Seq<VersionDirView>,
    i: int,
    j: int,
)
    requires
        0 <= i < j < discovered(found, named).len(),
    ensures
        ({
            let one = discovered(found, named)[i].version;
            let other = discovered(found, named)[j].version;
            ||| one.major < other.major
            ||| one.major == other.major && one.minor < other.minor
            ||| one.major == other.major && one.minor == other.minor && one.patch <= other.patch
        }),
{
    law_sorting_orders_and_keeps::<Installed>(with_named(searched(found), named));
    let listed = discovered(found, named);
    assert(Installed::ranks(listed[i], listed[j]));
}

/// Without a constraint every install may be run with, and with one those whose
/// version it allows.
pub proof fn law_a_constraint_decides_what_may_run(
    installed: Seq<InstalledView>,
    constraint: Seq<char>,
    i: int,
)
    requires
        0 <= i < installed.len(),
    ensures
        may_run_with(installed, None).len() == installed.len() && may_run_with(installed, None)[i],
        may_run_with(installed, Some(constraint)).len() == installed.len(),
        may_run_with(installed, Some(constraint))[i] == constraint_allows(
            constraint,
            installed[i].version,
        ),
{
}

/// A version named by hand takes the place of what was found of the same version
/// and of nothing else; one that cannot be used changes nothing.
pub proof fn law_a_named_version_leaves_the_others(
    found: Seq<InstalledView>,
    named: Seq<VersionDirView>,
    one: VersionDirView,
    other: InstalledView,
)
    ensures
        offered(one) is None ==> with_named(found, named.push(one)) == with_named(found, named),
        offered(one) matches Some(version) ==> (other.version != version ==> with_named(
            found,
            named.push(one),
        ).contains(other) == with_named(found, named).contains(other)),
        with_named(found, seq![]) == found,
{
    assert(named.push(one).drop_last() =~= named);
    if let Some(version) = offered(one) {
        let keep = |one: InstalledView| one.version != version;
        let before = with_named(found, named);
        let kept = before.filter(keep);
        let all = with_named(found, named.push(one));
        lemma_filter_contains(before, keep, other);
        if other.version != version {
            if kept.contains(other) {
                let at = kept.index_of(other);
                assert(all[at] == other);
            }
            if all.contains(other) {
                let at = all.index_of(other);
                assert(kept[at] == other);
            }
        }
    }
}

/// A word is asked for character by character: an `x` behind a dot is a wildcard
/// and every other character stands as it is. An equals sign comes before it
/// where it begins with a digit and no wildcard is in it.
pub proof fn law_a_word_is_kept_but_for_its_wildcards(word: Seq<char>)
    requires
        is_demand(word),
    ensures
        ({
            let made = Seq::new(
                word.len(),
                |i: int|
                    if i > 0 && word[i - 1] == '.' && word[i] == 'x' {
                        '*'
                    } else {
                        word[i]
                    },
            );
            if '0' <= word[0] && word[0] <= '9' && !made.contains('*') {
                alternatives(word) == seq![seq!['='] + made]
            } else {
                alternatives(word) == seq![made]
            }
        }),
{
    reveal_strlit("=");
    assert("="@ =~= seq!['=']);
    lemma_wildcards_are_replaced(word);
    lemma_normalised_word(word);
    lemma_one_branch(word);
}

#[verifier::rlimit(40)]
proof fn lemma_wildcards_are_replaced(word: Seq<char>)
    ensures
        replaced(word, ".x"@, ".*"@) == Seq::new(
            word.len(),
            |i: int|
                if i > 0 && word[i - 1] == '.' && word[i] == 'x' {
                    '*'
                } else {
                    word[i]
                },
        ),
    decreases word.len(),
{
    reveal_strlit(".x");
    reveal_strlit(".*");
    let made = Seq::new(
        word.len(),
        |i: int|
            if i > 0 && word[i - 1] == '.' && word[i] == 'x' {
                '*'
            } else {
                word[i]
            },
    );
    lemma_position_of(word, ".x"@);
    match position_of(word, ".x"@) {
        Some(at) => {
            let rest = word.skip(at + 2);
            lemma_wildcards_are_replaced(rest);
            assert(word.subrange(at, at + 2)[0] == word[at]);
            assert(word.subrange(at, at + 2)[1] == word[at + 1]);
            assert forall|i: int| 0 <= i < at implies made[i] == word[i] by {
                if i > 0 && word[i - 1] == '.' && word[i] == 'x' {
                    assert(word.skip(i - 1).take(2) =~= ".x"@);
                    assert(begins_with(word.skip(i - 1), ".x"@));
                }
            }
            let done = word.take(at) + ".*"@ + replaced(rest, ".x"@, ".*"@);
            assert forall|i: int| 0 <= i < word.len() implies #[trigger] done[i] == made[i] by {
                if i >= at + 2 {
                    assert(rest[i - at - 2] == word[i]);
                    if i > at + 2 {
                        assert(rest[i - at - 3] == word[i - 1]);
                    }
                }
            }
            assert(done =~= made);
        },
        None => {
            assert forall|i: int| 0 <= i < word.len() implies made[i] == word[i] by {
                if i > 0 && word[i - 1] == '.' && word[i] == 'x' {
                    assert(word.skip(i - 1).take(2) =~= ".x"@);
                    assert(begins_with(word.skip(i - 1), ".x"@));
                }
            }
            assert(made =~= word);
        },
    }
}

/// A number with a zero in front is no part of a version, so that a name that
/// holds one names none.
pub proof fn law_a_zero_in_front_is_no_version(major: u64, digits: Seq<char>)
    requires
        digits.len() > 0,
        all_digits(digits),
    ensures
        version_named(decimal(major as nat) + "."@ + (seq!['0'] + digits)) is None,
        version_named(digits) is None,
{
    let minor = seq!['0'] + digits;
    lemma_decimal_reads_back(major as nat, major as nat);
    assert(minor[0] == '0');
    assert forall|i: int| 0 <= i < minor.len() implies is_digit(#[trigger] minor[i]) by {
        if i > 0 {
            assert(minor[i] == digits[i - 1]);
        }
    }
    lemma_parts_of_dotted(decimal(major as nat), minor, digits);
    let none = Seq::<char>::empty();
    lemma_parts_run_on(digits, none, none, seq![]);
    assert(digits + none =~= digits);
    assert(none + digits =~= digits);
    assert(parts_from(none, digits, seq![]) =~= seq![digits]);
}

} // verus!
