//! Text as a sequence of characters.
//!
//! The parsers of this crate are stated over `Seq<char>` and run over
//! `&[char]`. This module holds the operations they share, each with its
//! meaning on sequences.

use vstd::prelude::*;
use vstd::slice::*;
use vstd::string::*;

verus! {

/// `String::push` appends one character.
pub assume_specification[ String::push ](text: &mut String, c: char)
    ensures
        final(text)@ == old(text)@.push(c),
;

/// What each item of a list stands for.
pub open spec fn views<T: View>(list: Seq<T>) -> Seq<T::V> {
    list.map_values(|item: T| item@)
}

/// Adding an item adds what it stands for.
pub broadcast proof fn lemma_views_push<T: View>(list: Seq<T>, item: T)
    ensures
        #[trigger] views(list.push(item)) == views(list).push(item@),
{
    assert(views(list.push(item)) =~= views(list).push(item@));
}

/// The characters of a text, ready to be indexed.
pub fn chars_of(text: &str) -> (chars: Vec<char>)
    ensures
        chars@ == text@,
{
    let mut chars: Vec<char> = Vec::new();
    for c in it: text.chars()
        invariant
            it.seq() == text@,
            chars@ == text@.take(it.index()),
    {
        chars.push(c);
        assert(text@.take(it.index() + 1) == text@.take(it.index()).push(c));
    }
    assert(text@.take(text@.len() as int) == text@);
    chars
}

/// The text made of these characters.
pub fn string_of(chars: &[char]) -> (text: String)
    ensures
        text@ == chars@,
{
    let mut text = String::new();
    let mut i: usize = 0;
    while i < chars.len()
        invariant
            i <= chars@.len(),
            text@ == chars@.take(i as int),
        decreases chars@.len() - i,
    {
        text.push(chars[i]);
        i = i + 1;
        assert(chars@.take(i as int) == chars@.take(i - 1).push(chars@[i - 1]));
    }
    assert(chars@.take(chars@.len() as int) == chars@);
    text
}

/// Whether two character slices hold the same characters.
pub fn same_chars(left: &[char], right: &[char]) -> (same: bool)
    ensures
        same == (left@ == right@),
{
    if left.len() != right.len() {
        return false;
    }
    let mut i: usize = 0;
    while i < left.len()
        invariant
            i <= left@.len(),
            left@.len() == right@.len(),
            left@.take(i as int) == right@.take(i as int),
        decreases left@.len() - i,
    {
        if left[i] != right[i] {
            return false;
        }
        i = i + 1;
        assert(left@.take(i as int) == left@.take(i - 1).push(left@[i - 1]));
        assert(right@.take(i as int) == right@.take(i - 1).push(right@[i - 1]));
    }
    assert(left@.take(i as int) == left@);
    assert(right@.take(i as int) == right@);
    true
}

/// Whether two texts hold the same characters.
pub fn same(left: &str, right: &str) -> (same: bool)
    ensures
        same == (left@ == right@),
{
    left.to_owned() == right.to_owned()
}

/// Where `c` first stands in `text`, or the length of `text`.
pub open spec fn index_of(text: Seq<char>, c: char) -> int
    decreases text.len(),
{
    if text.len() == 0 || text[0] == c {
        0
    } else {
        1 + index_of(text.skip(1), c)
    }
}

/// The first occurrence is the first: nothing before it is `c`.
pub proof fn lemma_index_of(text: Seq<char>, c: char)
    ensures
        0 <= index_of(text, c) <= text.len(),
        forall|i: int| 0 <= i < index_of(text, c) ==> text[i] != c,
        index_of(text, c) < text.len() ==> text[index_of(text, c)] == c,
    decreases text.len(),
{
    if text.len() == 0 || text[0] == c {
    } else {
        lemma_index_of(text.skip(1), c);
        assert forall|i: int| 0 <= i < index_of(text, c) implies text[i] != c by {
            if i > 0 {
                assert(text[i] == text.skip(1)[i - 1]);
            }
        }
    }
}

/// An index with nothing equal before it is the first one.
pub proof fn lemma_index_of_is(text: Seq<char>, c: char, at: int)
    requires
        0 <= at <= text.len(),
        forall|i: int| 0 <= i < at ==> text[i] != c,
        at < text.len() ==> text[at] == c,
    ensures
        index_of(text, c) == at,
    decreases text.len(),
{
    if at > 0 {
        assert(text[0] != c);
        assert forall|i: int| 0 <= i < at - 1 implies text.skip(1)[i] != c by {
            assert(text.skip(1)[i] == text[i + 1]);
        }
        lemma_index_of_is(text.skip(1), c, at - 1);
    }
}

/// Finds the first `c`, or the end.
pub fn find_char(text: &[char], c: char) -> (at: usize)
    ensures
        at == index_of(text@, c),
        at <= text@.len(),
{
    let mut i: usize = 0;
    while i < text.len()
        invariant
            i <= text@.len(),
            forall|j: int| 0 <= j < i ==> text@[j] != c,
        decreases text@.len() - i,
    {
        if text[i] == c {
            proof {
                lemma_index_of_is(text@, c, i as int);
            }
            return i;
        }
        i = i + 1;
    }
    proof {
        lemma_index_of_is(text@, c, i as int);
    }
    i
}

/// Where `c` last stands in `text`, or -1.
pub open spec fn last_index_of(text: Seq<char>, c: char) -> int
    decreases text.len(),
{
    if text.len() == 0 {
        -1
    } else if text.last() == c {
        text.len() - 1
    } else {
        last_index_of(text.drop_last(), c)
    }
}

/// An index with nothing equal after it is the last one.
pub proof fn lemma_last_index_of_is(text: Seq<char>, c: char, at: int)
    requires
        -1 <= at < text.len(),
        forall|i: int| at < i < text.len() ==> text[i] != c,
        at >= 0 ==> text[at] == c,
    ensures
        last_index_of(text, c) == at,
    decreases text.len(),
{
    if at < text.len() - 1 {
        assert(text[text.len() - 1] != c);
        assert forall|i: int| at < i < text.drop_last().len() implies text.drop_last()[i] != c by {
            assert(text.drop_last()[i] == text[i]);
        }
        lemma_last_index_of_is(text.drop_last(), c, at);
    }
}

/// Finds the last `c`.
pub fn find_last_char(text: &[char], c: char) -> (at: Option<usize>)
    ensures
        match at {
            Some(i) => i == last_index_of(text@, c) && i < text@.len(),
            None => last_index_of(text@, c) == -1,
        },
{
    let mut i: usize = text.len();
    while i > 0
        invariant
            i <= text@.len(),
            forall|j: int| i <= j < text@.len() ==> text@[j] != c,
        decreases i,
    {
        i = i - 1;
        if text[i] == c {
            proof {
                lemma_last_index_of_is(text@, c, i as int);
            }
            return Some(i);
        }
    }
    proof {
        lemma_last_index_of_is(text@, c, -1);
    }
    None
}

/// The digits 0 to 9.
pub open spec fn is_digit(c: char) -> bool {
    '0' <= c && c <= '9'
}

/// The letters of ASCII, either case.
pub open spec fn is_letter(c: char) -> bool {
    ('a' <= c && c <= 'z') || ('A' <= c && c <= 'Z')
}

/// Whether `c` is a digit.
pub fn char_is_digit(c: char) -> (is: bool)
    ensures
        is == is_digit(c),
{
    '0' <= c && c <= '9'
}

/// Whether `c` is an ASCII letter.
pub fn char_is_letter(c: char) -> (is: bool)
    ensures
        is == is_letter(c),
{
    ('a' <= c && c <= 'z') || ('A' <= c && c <= 'Z')
}

/// What `{text:?}` writes: the text in double quotes, escaped where needed.
pub uninterp spec fn debug_text(text: Seq<char>) -> Seq<char>;

/// `format!` with `{:?}` on a text. The escapes depend on the text alone; which
/// characters are escaped is not stated.
#[verifier::external_body]
pub(crate) fn quoted(text: &str) -> (quoted: String)
    ensures
        quoted@ == debug_text(text@),
{
    format!("{text:?}")
}

/// The characters that separate words: Unicode's White_Space property.
pub open spec fn is_white(c: char) -> bool {
    ||| '\u{9}' <= c && c <= '\u{d}'
    ||| c == '\u{20}'
    ||| c == '\u{85}'
    ||| c == '\u{a0}'
    ||| c == '\u{1680}'
    ||| '\u{2000}' <= c && c <= '\u{200a}'
    ||| c == '\u{2028}'
    ||| c == '\u{2029}'
    ||| c == '\u{202f}'
    ||| c == '\u{205f}'
    ||| c == '\u{3000}'
}

/// Whether `c` separates words.
pub fn char_is_white(c: char) -> (is: bool)
    ensures
        is == is_white(c),
{
    ('\u{9}' <= c && c <= '\u{d}') || c == '\u{20}' || c == '\u{85}' || c == '\u{a0}' || c
        == '\u{1680}' || ('\u{2000}' <= c && c <= '\u{200a}') || c == '\u{2028}' || c == '\u{2029}'
        || c == '\u{202f}' || c == '\u{205f}' || c == '\u{3000}'
}

/// How many characters at the front are white space.
pub open spec fn leading_white(text: Seq<char>) -> int
    decreases text.len(),
{
    if text.len() == 0 || !is_white(text[0]) {
        0
    } else {
        1 + leading_white(text.skip(1))
    }
}

/// How many characters at the front are not white space.
pub open spec fn leading_word(text: Seq<char>) -> int
    decreases text.len(),
{
    if text.len() == 0 || is_white(text[0]) {
        0
    } else {
        1 + leading_word(text.skip(1))
    }
}

proof fn lemma_leading_white_is(text: Seq<char>, n: int)
    requires
        0 <= n <= text.len(),
        forall|i: int| 0 <= i < n ==> is_white(text[i]),
        n < text.len() ==> !is_white(text[n]),
    ensures
        leading_white(text) == n,
    decreases text.len(),
{
    if n > 0 {
        assert(is_white(text[0]));
        assert forall|i: int| 0 <= i < n - 1 implies is_white(text.skip(1)[i]) by {
            assert(text.skip(1)[i] == text[i + 1]);
        }
        lemma_leading_white_is(text.skip(1), n - 1);
    }
}

proof fn lemma_leading_word_is(text: Seq<char>, n: int)
    requires
        0 <= n <= text.len(),
        forall|i: int| 0 <= i < n ==> !is_white(text[i]),
        n < text.len() ==> is_white(text[n]),
    ensures
        leading_word(text) == n,
    decreases text.len(),
{
    if n > 0 {
        assert(!is_white(text[0]));
        assert forall|i: int| 0 <= i < n - 1 implies !is_white(text.skip(1)[i]) by {
            assert(text.skip(1)[i] == text[i + 1]);
        }
        lemma_leading_word_is(text.skip(1), n - 1);
    }
}

/// The leading white space is all of it, and no more.
pub proof fn lemma_leading_white(text: Seq<char>)
    ensures
        0 <= leading_white(text) <= text.len(),
        forall|i: int| 0 <= i < leading_white(text) ==> is_white(text[i]),
        leading_white(text) < text.len() ==> !is_white(text[leading_white(text)]),
    decreases text.len(),
{
    if text.len() > 0 && is_white(text[0]) {
        lemma_leading_white(text.skip(1));
        assert forall|i: int| 0 <= i < leading_white(text) implies is_white(text[i]) by {
            if i > 0 {
                assert(text[i] == text.skip(1)[i - 1]);
            }
        }
    }
}

/// The leading word is all of it, and no more.
pub proof fn lemma_leading_word(text: Seq<char>)
    ensures
        0 <= leading_word(text) <= text.len(),
        forall|i: int| 0 <= i < leading_word(text) ==> !is_white(text[i]),
        leading_word(text) < text.len() ==> is_white(text[leading_word(text)]),
    decreases text.len(),
{
    if text.len() > 0 && !is_white(text[0]) {
        lemma_leading_word(text.skip(1));
        assert forall|i: int| 0 <= i < leading_word(text) implies !is_white(text[i]) by {
            if i > 0 {
                assert(text[i] == text.skip(1)[i - 1]);
            }
        }
    }
}

fn count_leading_white(text: &[char]) -> (n: usize)
    ensures
        n == leading_white(text@),
        n <= text@.len(),
{
    let mut i: usize = 0;
    while i < text.len() && char_is_white(text[i])
        invariant
            i <= text@.len(),
            forall|j: int| 0 <= j < i ==> is_white(text@[j]),
        decreases text@.len() - i,
    {
        i = i + 1;
    }
    proof {
        lemma_leading_white_is(text@, i as int);
    }
    i
}

fn count_leading_word(text: &[char]) -> (n: usize)
    ensures
        n == leading_word(text@),
        n <= text@.len(),
{
    let mut i: usize = 0;
    while i < text.len() && !char_is_white(text[i])
        invariant
            i <= text@.len(),
            forall|j: int| 0 <= j < i ==> !is_white(text@[j]),
        decreases text@.len() - i,
    {
        i = i + 1;
    }
    proof {
        lemma_leading_word_is(text@, i as int);
    }
    i
}

/// The text without white space at its front.
pub open spec fn trimmed_start(text: Seq<char>) -> Seq<char> {
    text.skip(leading_white(text))
}

/// The text without white space at its end.
pub open spec fn trimmed_end(text: Seq<char>) -> Seq<char>
    decreases text.len(),
{
    if text.len() == 0 || !is_white(text.last()) {
        text
    } else {
        trimmed_end(text.drop_last())
    }
}

/// The text without white space around it.
pub open spec fn trimmed(text: Seq<char>) -> Seq<char> {
    trimmed_end(trimmed_start(text))
}

/// Drops white space at the front.
pub fn trim_start(text: &[char]) -> (rest: &[char])
    ensures
        rest@ == trimmed_start(text@),
{
    let n: usize = count_leading_white(text);
    let rest = slice_subrange(text, n, text.len());
    assert(rest@ == text@.skip(n as int));
    rest
}

/// Drops white space at the end.
pub fn trim_end(text: &[char]) -> (rest: &[char])
    ensures
        rest@ == trimmed_end(text@),
{
    let mut end: usize = text.len();
    assert(text@.take(end as int) == text@);
    while end > 0 && char_is_white(text[end - 1])
        invariant
            end <= text@.len(),
            trimmed_end(text@) == trimmed_end(text@.take(end as int)),
        decreases end,
    {
        assert(text@.take(end as int).last() == text@[end - 1]);
        assert(text@.take(end as int).drop_last() == text@.take(end - 1));
        end = end - 1;
    }
    proof {
        if end > 0 {
            assert(text@.take(end as int).last() == text@[end - 1]);
        }
    }
    let rest = slice_subrange(text, 0, end);
    assert(rest@ == text@.take(end as int));
    rest
}

/// Drops white space on both sides.
pub fn trim(text: &[char]) -> (rest: &[char])
    ensures
        rest@ == trimmed(text@),
{
    trim_end(trim_start(text))
}

/// The words of a text: its longest runs without white space.
pub open spec fn words_of(text: Seq<char>) -> Seq<Seq<char>>
    decreases text.len(),
    when true
    via words_of_decreases
{
    let rest = trimmed_start(text);
    if rest.len() == 0 {
        seq![]
    } else {
        seq![rest.take(leading_word(rest))] + words_of(rest.skip(leading_word(rest)))
    }
}

#[via_fn]
proof fn words_of_decreases(text: Seq<char>) {
    lemma_leading_white(text);
    let rest = trimmed_start(text);
    lemma_leading_word(rest);
}

/// Splits a text into its words.
pub fn words(text: &[char]) -> (list: Vec<Vec<char>>)
    ensures
        views(list@) == words_of(text@),
{
    broadcast use lemma_views_push;

    let mut list: Vec<Vec<char>> = Vec::new();
    let mut rest = trim_start(text);
    assert(trimmed_start(rest@) == rest@) by {
        lemma_leading_white(text@);
        lemma_leading_white_is(rest@, 0);
        assert(rest@.skip(0) == rest@);
    }
    assert(views(list@) + words_of(rest@) == words_of(text@)) by {
        assert(views(list@) + words_of(rest@) == words_of(rest@));
    }
    while rest.len() > 0
        invariant
            views(list@) + words_of(rest@) == words_of(text@),
            trimmed_start(rest@) == rest@,
        decreases rest@.len(),
    {
        let n: usize = count_leading_word(rest);
        let word = slice_to_vec(slice_subrange(rest, 0, n));
        let after = slice_subrange(rest, n, rest.len());
        let ghost before = views(list@);
        proof {
            lemma_leading_white(rest@);
            lemma_leading_word(rest@);
            assert(rest@.skip(leading_white(rest@)).len() == rest@.len());
            assert(n > 0);
            assert(word@ == rest@.take(n as int));
            assert(after@ == rest@.skip(n as int));
            assert(words_of(rest@) == seq![word@] + words_of(after@));
        }
        list.push(word);
        assert(views(list@) + words_of(after@) == before + (seq![word@] + words_of(after@)));
        let ghost left = after@;
        rest = trim_start(after);
        proof {
            lemma_leading_white(left);
            lemma_leading_white_is(rest@, 0);
            assert(rest@.skip(0) == rest@);
            assert(words_of(rest@) == words_of(left));
        }
    }
    assert(words_of(rest@) == Seq::<Seq<char>>::empty());
    assert(views(list@) + words_of(rest@) == views(list@));
    list
}

/// A line without the carriage return that a line feed left behind.
pub open spec fn without_return(line: Seq<char>) -> Seq<char> {
    if line.len() > 0 && line.last() == '\r' {
        line.drop_last()
    } else {
        line
    }
}

/// The lines of a text. A line ends at a line feed, with or without a carriage
/// return before it; the last line needs no ending.
pub open spec fn lines_of(text: Seq<char>) -> Seq<Seq<char>>
    decreases text.len(),
    when true
    via lines_of_decreases
{
    let at = index_of(text, '\n');
    if text.len() == 0 {
        seq![]
    } else if at == text.len() {
        seq![text]
    } else {
        seq![without_return(text.take(at))] + lines_of(text.skip(at + 1))
    }
}

#[via_fn]
proof fn lines_of_decreases(text: Seq<char>) {
    lemma_index_of(text, '\n');
}

/// Splits a text into its lines.
pub fn lines(text: &[char]) -> (list: Vec<Vec<char>>)
    ensures
        views(list@) == lines_of(text@),
{
    broadcast use lemma_views_push;

    let mut list: Vec<Vec<char>> = Vec::new();
    let mut rest = text;
    assert(views(list@) + lines_of(rest@) == lines_of(rest@));
    while rest.len() > 0
        invariant
            views(list@) + lines_of(rest@) == lines_of(text@),
        decreases rest@.len(),
    {
        let at: usize = find_char(rest, '\n');
        let ghost before = views(list@);
        let ghost whole = rest@;
        proof {
            lemma_index_of(rest@, '\n');
        }
        if at == rest.len() {
            list.push(slice_to_vec(rest));
            rest = slice_subrange(rest, at, rest.len());
            assert(views(list@) + lines_of(rest@) == before + seq![whole]);
        } else {
            let mut end: usize = at;
            if end > 0 && rest[end - 1] == '\r' {
                end = end - 1;
            }
            let line = slice_to_vec(slice_subrange(rest, 0, end));
            assert(line@ == without_return(whole.take(at as int)));
            list.push(line);
            rest = slice_subrange(rest, at + 1, rest.len());
            assert(rest@ == whole.skip(at + 1));
            assert(views(list@) + lines_of(rest@) == before + (seq![
                without_return(whole.take(at as int)),
            ] + lines_of(rest@)));
        }
    }
    assert(views(list@) + lines_of(rest@) == views(list@));
    list
}

/// The text without the `c`s at its front.
pub open spec fn trimmed_start_of(text: Seq<char>, c: char) -> Seq<char>
    decreases text.len(),
{
    if text.len() == 0 || text[0] != c {
        text
    } else {
        trimmed_start_of(text.skip(1), c)
    }
}

/// The text without the `c`s at its end.
pub open spec fn trimmed_end_of(text: Seq<char>, c: char) -> Seq<char>
    decreases text.len(),
{
    if text.len() == 0 || text.last() != c {
        text
    } else {
        trimmed_end_of(text.drop_last(), c)
    }
}

/// Drops every `c` at the front.
pub fn trim_start_char(text: &[char], c: char) -> (rest: &[char])
    ensures
        rest@ == trimmed_start_of(text@, c),
{
    let mut rest = text;
    while rest.len() > 0 && rest[0] == c
        invariant
            trimmed_start_of(text@, c) == trimmed_start_of(rest@, c),
        decreases rest@.len(),
    {
        let next = slice_subrange(rest, 1, rest.len());
        assert(next@ == rest@.skip(1));
        rest = next;
    }
    rest
}

/// Drops every `c` at the end.
pub fn trim_end_char(text: &[char], c: char) -> (rest: &[char])
    ensures
        rest@ == trimmed_end_of(text@, c),
{
    let mut rest = text;
    while rest.len() > 0 && rest[rest.len() - 1] == c
        invariant
            trimmed_end_of(text@, c) == trimmed_end_of(rest@, c),
        decreases rest@.len(),
    {
        let next = slice_subrange(rest, 0, rest.len() - 1);
        assert(next@ == rest@.drop_last());
        rest = next;
    }
    rest
}

/// Whether `text` begins with `start`.
pub open spec fn begins_with(text: Seq<char>, start: Seq<char>) -> bool {
    start.len() <= text.len() && text.take(start.len() as int) == start
}

/// Whether `text` begins with `start`.
pub fn starts_with(text: &[char], start: &[char]) -> (does: bool)
    ensures
        does == begins_with(text@, start@),
{
    if text.len() < start.len() {
        return false;
    }
    let front = slice_subrange(text, 0, start.len());
    assert(front@ == text@.take(start@.len() as int));
    same_chars(front, start)
}

/// Where `wanted` first stands in `text`.
pub open spec fn position_of(text: Seq<char>, wanted: Seq<char>) -> Option<int>
    decreases text.len(),
{
    if begins_with(text, wanted) {
        Some(0)
    } else if text.len() == 0 {
        None
    } else {
        match position_of(text.skip(1), wanted) {
            Some(at) => Some(at + 1),
            None => None,
        }
    }
}

/// A found text is there, and nowhere before.
pub proof fn lemma_position_of(text: Seq<char>, wanted: Seq<char>)
    ensures
        match position_of(text, wanted) {
            Some(at) => 0 <= at <= text.len() - wanted.len() && text.subrange(at, at + wanted.len())
                == wanted && forall|i: int|
                0 <= i < at ==> !begins_with(#[trigger] text.skip(i), wanted),
            None => forall|i: int|
                0 <= i <= text.len() ==> !begins_with(#[trigger] text.skip(i), wanted),
        },
    decreases text.len(),
{
    assert(text.skip(0) == text);
    if begins_with(text, wanted) {
        assert(text.subrange(0, wanted.len() as int) == text.take(wanted.len() as int));
    } else if text.len() > 0 {
        lemma_position_of(text.skip(1), wanted);
        assert forall|i: int| 0 < i <= text.len() implies #[trigger] text.skip(i) == text.skip(
            1,
        ).skip(i - 1) by {}
        if let Some(at) = position_of(text.skip(1), wanted) {
            assert(text.subrange(at + 1, at + 1 + wanted.len()) == text.skip(1).subrange(
                at,
                at + wanted.len(),
            ));
        }
    }
}

/// Finds where `wanted` first stands.
pub fn find_text(text: &[char], wanted: &[char]) -> (at: Option<usize>)
    ensures
        match at {
            Some(i) => position_of(text@, wanted@) == Some(i as int) && i + wanted@.len()
                <= text@.len(),
            None => position_of(text@, wanted@) is None,
        },
{
    let mut i: usize = 0;
    assert(text@.skip(0) == text@);
    while i < text.len()
        invariant
            i <= text@.len(),
            match position_of(text@.skip(i as int), wanted@) {
                Some(at) => position_of(text@, wanted@) == Some(at + i),
                None => position_of(text@, wanted@) is None,
            },
        decreases text@.len() - i,
    {
        let rest = slice_subrange(text, i, text.len());
        assert(rest@ == text@.skip(i as int));
        if starts_with(rest, wanted) {
            return Some(i);
        }
        assert(text@.skip(i as int).skip(1) == text@.skip(i + 1));
        i = i + 1;
    }
    let rest = slice_subrange(text, i, text.len());
    assert(rest@ == text@.skip(i as int));
    if starts_with(rest, wanted) {
        return Some(i);
    }
    None
}

/// The pieces of a text between the places where `separator` stands.
pub open spec fn split_on(text: Seq<char>, separator: Seq<char>) -> Seq<Seq<char>>
    decreases text.len(),
    when separator.len() > 0
    via split_on_decreases
{
    match position_of(text, separator) {
        Some(at) => seq![text.take(at)] + split_on(text.skip(at + separator.len()), separator),
        None => seq![text],
    }
}

#[via_fn]
proof fn split_on_decreases(text: Seq<char>, separator: Seq<char>) {
    lemma_position_of(text, separator);
}

/// Splits a text wherever `separator` stands.
pub fn split_text(text: &[char], separator: &[char]) -> (list: Vec<Vec<char>>)
    requires
        separator@.len() > 0,
    ensures
        views(list@) == split_on(text@, separator@),
        list@.len() > 0,
{
    broadcast use lemma_views_push;

    let mut list: Vec<Vec<char>> = Vec::new();
    let mut rest = text;
    assert(views(list@) + split_on(rest@, separator@) == split_on(rest@, separator@));
    loop
        invariant
            separator@.len() > 0,
            views(list@) + split_on(rest@, separator@) == split_on(text@, separator@),
        decreases rest@.len(),
    {
        let ghost before = views(list@);
        match find_text(rest, separator) {
            Some(at) => {
                let piece = slice_to_vec(slice_subrange(rest, 0, at));
                assert(piece@ == rest@.take(at as int));
                list.push(piece);
                let end: usize = rest.len();
                let after = slice_subrange(rest, at + separator.len(), end);
                assert(after@ == rest@.skip(at + separator@.len()));
                assert(views(list@) + split_on(after@, separator@) == before + (seq![piece@]
                    + split_on(after@, separator@)));
                rest = after;
            },
            None => {
                list.push(slice_to_vec(rest));
                assert(views(list@) == before + seq![rest@]);
                return list;
            },
        }
    }
}

/// The text with every `wanted` in it written as `instead`.
pub open spec fn replaced(text: Seq<char>, wanted: Seq<char>, instead: Seq<char>) -> Seq<char>
    decreases text.len(),
    when wanted.len() > 0
    via replaced_decreases
{
    match position_of(text, wanted) {
        Some(at) => text.take(at) + instead + replaced(
            text.skip(at + wanted.len()),
            wanted,
            instead,
        ),
        None => text,
    }
}

#[via_fn]
proof fn replaced_decreases(text: Seq<char>, wanted: Seq<char>, instead: Seq<char>) {
    lemma_position_of(text, wanted);
}

/// Writes `instead` wherever `wanted` stands.
pub fn replace_text(text: &str, wanted: &str, instead: &str) -> (result: String)
    requires
        wanted@.len() > 0,
    ensures
        result@ == replaced(text@, wanted@, instead@),
{
    let chars = chars_of(text);
    let pattern = chars_of(wanted);
    let mut result = String::new();
    let mut rest = chars.as_slice();
    assert(result@ + replaced(rest@, wanted@, instead@) == replaced(rest@, wanted@, instead@));
    loop
        invariant
            pattern@ == wanted@,
            wanted@.len() > 0,
            result@ + replaced(rest@, wanted@, instead@) == replaced(text@, wanted@, instead@),
        decreases rest@.len(),
    {
        let ghost before = result@;
        match find_text(rest, pattern.as_slice()) {
            Some(at) => {
                let front = slice_subrange(rest, 0, at);
                assert(front@ == rest@.take(at as int));
                result.append(string_of(front).as_str());
                result.append(instead);
                let end: usize = rest.len();
                let after = slice_subrange(rest, at + pattern.len(), end);
                assert(after@ == rest@.skip(at + wanted@.len()));
                assert(result@ + replaced(after@, wanted@, instead@) == before + (front@ + instead@
                    + replaced(after@, wanted@, instead@)));
                rest = after;
            },
            None => {
                result.append(string_of(rest).as_str());
                return result;
            },
        }
    }
}

/// The letter in lower case; anything else as it is.
pub open spec fn lower(c: char) -> char {
    if 'A' <= c && c <= 'Z' {
        (c as u8 + 32) as u8 as char
    } else {
        c
    }
}

/// The letter in lower case; anything else as it is.
pub fn char_to_lower(c: char) -> (l: char)
    ensures
        l == lower(c),
{
    if 'A' <= c && c <= 'Z' {
        (c as u8 + 32) as char
    } else {
        c
    }
}

/// Whether two texts differ at most in the case of ASCII letters.
pub open spec fn same_letters(left: Seq<char>, right: Seq<char>) -> bool {
    left.len() == right.len() && forall|i: int|
        0 <= i < left.len() ==> lower(#[trigger] left[i]) == lower(right[i])
}

/// Whether two texts differ at most in the case of ASCII letters.
pub fn same_ignoring_case(left: &[char], right: &[char]) -> (same: bool)
    ensures
        same == same_letters(left@, right@),
{
    if left.len() != right.len() {
        return false;
    }
    let mut i: usize = 0;
    while i < left.len()
        invariant
            i <= left@.len(),
            left@.len() == right@.len(),
            forall|j: int| 0 <= j < i ==> lower(#[trigger] left@[j]) == lower(right@[j]),
        decreases left@.len() - i,
    {
        if char_to_lower(left[i]) != char_to_lower(right[i]) {
            return false;
        }
        i = i + 1;
    }
    true
}

/// Whether every character is a digit.
pub open spec fn all_digits(text: Seq<char>) -> bool {
    forall|i: int| 0 <= i < text.len() ==> is_digit(#[trigger] text[i])
}

/// What a digit counts.
pub open spec fn digit_value(c: char) -> nat {
    (c as u32 - '0' as u32) as nat
}

/// The number a row of digits writes.
pub open spec fn digits_value(text: Seq<char>) -> nat
    decreases text.len(),
{
    if text.len() == 0 {
        0
    } else {
        digits_value(text.drop_last()) * 10 + digit_value(text.last())
    }
}

/// The number a text writes: digits, with or without a plus sign before them,
/// no more than `limit`.
pub open spec fn number_in(text: Seq<char>, limit: nat) -> Option<nat> {
    let digits = if text.len() > 0 && text[0] == '+' {
        text.skip(1)
    } else {
        text
    };
    if digits.len() > 0 && all_digits(digits) && digits_value(digits) <= limit {
        Some(digits_value(digits))
    } else {
        None
    }
}

proof fn lemma_digits_value_grows(text: Seq<char>, n: int)
    requires
        0 <= n <= text.len(),
    ensures
        digits_value(text.take(n)) <= digits_value(text),
    decreases text.len() - n,
{
    if n < text.len() {
        lemma_digits_value_grows(text, n + 1);
        assert(text.take(n + 1).drop_last() == text.take(n));
    } else {
        assert(text.take(n) == text);
    }
}

/// Reads a number no larger than `limit`.
pub fn parse_number(text: &[char], limit: u64) -> (number: Option<u64>)
    ensures
        match number {
            Some(n) => number_in(text@, limit as nat) == Some(n as nat),
            None => number_in(text@, limit as nat) is None,
        },
{
    let start: usize = if text.len() > 0 && text[0] == '+' {
        1
    } else {
        0
    };
    let digits = slice_subrange(text, start, text.len());
    assert(start == 1 ==> digits@ == text@.skip(1));
    assert(start == 0 ==> digits@ == text@);
    if digits.len() == 0 {
        return None;
    }
    let mut value: u64 = 0;
    let mut i: usize = 0;
    while i < digits.len()
        invariant
            i <= digits@.len(),
            value == digits_value(digits@.take(i as int)),
            value <= limit,
            forall|j: int| 0 <= j < i ==> is_digit(#[trigger] digits@[j]),
            number_in(text@, limit as nat) == (if all_digits(digits@) && digits_value(digits@)
                <= limit {
                Some(digits_value(digits@))
            } else {
                None::<nat>
            }),
        decreases digits@.len() - i,
    {
        let c = digits[i];
        if !char_is_digit(c) {
            assert(!is_digit(digits@[i as int]));
            return None;
        }
        let digit: u64 = c as u64 - '0' as u64;
        assert(digits@.take(i + 1).drop_last() == digits@.take(i as int));
        proof {
            lemma_digits_value_grows(digits@, i + 1);
        }
        if value > limit / 10 || digit > limit - value * 10 {
            return None;
        }
        value = value * 10 + digit;
        i = i + 1;
    }
    assert(digits@.take(i as int) == digits@);
    Some(value)
}

/// The character that writes a digit.
pub open spec fn digit_char(n: nat) -> char {
    (48 + n) as u8 as char
}

/// The digits that write a number, with no zero in front.
pub open spec fn decimal(n: nat) -> Seq<char>
    decreases n,
{
    if n < 10 {
        seq![digit_char(n)]
    } else {
        decimal(n / 10).push(digit_char(n % 10))
    }
}

fn decimal_chars(n: u64) -> (digits: Vec<char>)
    ensures
        digits@ == decimal(n as nat),
    decreases n,
{
    let last: char = (48 + (n % 10) as u8) as char;
    if n < 10 {
        vec![last]
    } else {
        let mut digits = decimal_chars(n / 10);
        digits.push(last);
        digits
    }
}

/// Writes a number in decimal.
pub fn number_text(n: u64) -> (text: String)
    ensures
        text@ == decimal(n as nat),
{
    string_of(decimal_chars(n).as_slice())
}

/// Reading back a number that was written gives the number.
pub proof fn lemma_decimal_reads_back(n: nat, limit: nat)
    requires
        n <= limit,
    ensures
        all_digits(decimal(n)),
        decimal(n).len() > 0,
        digits_value(decimal(n)) == n,
        number_in(decimal(n), limit) == Some(n),
    decreases n,
{
    if n < 10 {
        assert(decimal(n).drop_last() == Seq::<char>::empty());
        assert(decimal(n).last() == digit_char(n));
        assert(digits_value(Seq::<char>::empty()) == 0);
    } else {
        lemma_decimal_reads_back(n / 10, limit);
        assert(decimal(n).drop_last() == decimal(n / 10));
        assert(decimal(n).last() == digit_char(n % 10));
    }
    assert(is_digit(decimal(n)[0]));
}

/// Texts written one after the other with `separator` between them.
pub open spec fn joined(parts: Seq<Seq<char>>, separator: Seq<char>) -> Seq<char>
    decreases parts.len(),
{
    if parts.len() == 0 {
        seq![]
    } else if parts.len() == 1 {
        parts[0]
    } else {
        joined(parts.drop_last(), separator) + separator + parts.last()
    }
}

/// Joins texts with a separator.
pub fn join(parts: &[String], separator: &str) -> (text: String)
    ensures
        text@ == joined(views(parts@), separator@),
{
    let mut text = String::new();
    let mut i: usize = 0;
    while i < parts.len()
        invariant
            i <= parts@.len(),
            text@ == joined(views(parts@).take(i as int), separator@),
        decreases parts@.len() - i,
    {
        assert(views(parts@).take(i + 1).drop_last() == views(parts@).take(i as int));
        if i > 0 {
            text.append(separator);
        }
        text.append(parts[i].as_str());
        i = i + 1;
        assert(text@ == joined(views(parts@).take(i as int), separator@));
    }
    assert(views(parts@).take(i as int) == views(parts@));
    text
}

/// What an optional text holds.
pub open spec fn maybe_text(text: Option<String>) -> Option<Seq<char>> {
    match text {
        Some(text) => Some(text@),
        None => None,
    }
}

/// How many characters at the front are digits.
pub open spec fn leading_digits(text: Seq<char>) -> int
    decreases text.len(),
{
    if text.len() == 0 || !is_digit(text[0]) {
        0
    } else {
        1 + leading_digits(text.skip(1))
    }
}

/// Counts the digits at the front.
pub fn count_leading_digits(text: &[char]) -> (n: usize)
    ensures
        n == leading_digits(text@),
        n <= text@.len(),
        forall|i: int| 0 <= i < n ==> is_digit(#[trigger] text@[i]),
{
    let mut i: usize = 0;
    assert(text@.skip(0) == text@);
    while i < text.len() && char_is_digit(text[i])
        invariant
            i <= text@.len(),
            leading_digits(text@) == i + leading_digits(text@.skip(i as int)),
            forall|j: int| 0 <= j < i ==> is_digit(#[trigger] text@[j]),
        decreases text@.len() - i,
    {
        assert(text@.skip(i as int)[0] == text@[i as int]);
        assert(text@.skip(i as int).skip(1) == text@.skip(i + 1));
        i = i + 1;
    }
    proof {
        if i < text@.len() {
            assert(text@.skip(i as int)[0] == text@[i as int]);
        }
    }
    i
}

/// A number with its sign.
pub open spec fn signed_decimal(n: int) -> Seq<char> {
    if n < 0 {
        "-"@ + decimal((-n) as nat)
    } else {
        decimal(n as nat)
    }
}

/// Writes a number with its sign.
pub fn signed_text(n: i32) -> (text: String)
    ensures
        text@ == signed_decimal(n as int),
{
    if n < 0 {
        let mut text = "-".to_owned();
        text.append(number_text((-(n as i64)) as u64).as_str());
        text
    } else {
        number_text(n as u64)
    }
}

/// The characters of each part.
pub open spec fn parts_of(parts: Seq<&str>) -> Seq<Seq<char>> {
    parts.map_values(|part: &str| part@)
}

/// Owned copies of a few fixed words.
pub fn owned(parts: &[&str]) -> (list: Vec<String>)
    ensures
        views(list@) == parts_of(parts@),
{
    broadcast use lemma_views_push;

    let mut list: Vec<String> = Vec::new();
    let mut i: usize = 0;
    let ghost all = parts_of(parts@);
    while i < parts.len()
        invariant
            i <= parts@.len(),
            all == parts_of(parts@),
            views(list@) == all.take(i as int),
        decreases parts@.len() - i,
    {
        list.push(parts[i].to_owned());
        i = i + 1;
        assert(all.take(i as int) == all.take(i - 1).push(all[i - 1]));
    }
    assert(all.take(i as int) == all);
    list
}

/// A copy of a list of texts.
pub fn copy_texts(list: &[String]) -> (copy: Vec<String>)
    ensures
        views(copy@) == views(list@),
        copy@.len() == list@.len(),
{
    broadcast use lemma_views_push;

    let mut copy: Vec<String> = Vec::new();
    let mut i: usize = 0;
    while i < list.len()
        invariant
            i <= list@.len(),
            views(copy@) == views(list@).take(i as int),
            copy@.len() == i,
        decreases list@.len() - i,
    {
        copy.push(list[i].clone());
        i = i + 1;
        assert(views(list@).take(i as int) == views(list@).take(i - 1).push(views(list@)[i - 1]));
    }
    assert(views(list@).take(i as int) == views(list@));
    copy
}

/// Whether one of the parts is `wanted`.
pub fn has_part(parts: &[&str], wanted: &str) -> (has: bool)
    ensures
        has == parts_of(parts@).contains(wanted@),
{
    let mut i: usize = 0;
    while i < parts.len()
        invariant
            i <= parts@.len(),
            forall|j: int| 0 <= j < i ==> parts_of(parts@)[j] != wanted@,
        decreases parts@.len() - i,
    {
        assert(parts_of(parts@)[i as int] == parts@[i as int]@);
        if same(parts[i], wanted) {
            return true;
        }
        i = i + 1;
    }
    false
}

/// Whether one of the texts is `wanted`.
pub fn has_text(list: &[String], wanted: &str) -> (has: bool)
    ensures
        has == views(list@).contains(wanted@),
{
    let mut i: usize = 0;
    while i < list.len()
        invariant
            i <= list@.len(),
            forall|j: int| 0 <= j < i ==> views(list@)[j] != wanted@,
        decreases list@.len() - i,
    {
        assert(views(list@)[i as int] == list@[i as int]@);
        if same(list[i].as_str(), wanted) {
            return true;
        }
        i = i + 1;
    }
    false
}

/// A copy of an optional text.
pub fn copy_maybe(text: &Option<String>) -> (copy: Option<String>)
    ensures
        maybe_text(copy) == maybe_text(*text),
{
    match text {
        Some(text) => Some(text.clone()),
        None => None,
    }
}

/// A text with no white space in it is one word, and so is one with white space
/// around it; white space alone holds none. The words of a text are its first
/// word and then those of what follows it.
#[verifier::rlimit(40)]
pub proof fn law_words_come_apart(front: Seq<char>, word: Seq<char>, c: char, rest: Seq<char>)
    requires
        forall|i: int| 0 <= i < front.len() ==> is_white(#[trigger] front[i]),
        word.len() > 0,
        forall|i: int| 0 <= i < word.len() ==> !is_white(#[trigger] word[i]),
        is_white(c),
    ensures
        words_of(front) == Seq::<Seq<char>>::empty(),
        words_of(word) == seq![word],
        words_of(front + word) == seq![word],
        words_of(front + rest) == words_of(rest),
        words_of(word + seq![c] + rest) == seq![word] + words_of(rest),
        words_of(front + word + seq![c] + rest) == seq![word] + words_of(rest),
{
    assert forall|i: int| 0 <= i < front.len() implies is_white(front[i]) by {}
    lemma_leading_white_is(front, front.len() as int);
    assert(trimmed_start(front).len() == 0);
    lemma_words_of_blank_front(front, rest);
    lemma_words_of_blank_front(front, word);
    lemma_words_of_blank_front(front, word + seq![c] + rest);
    assert(front + (word + seq![c] + rest) =~= front + word + seq![c] + rest);
    lemma_leading_white_is(word, 0);
    assert(trimmed_start(word) =~= word);
    assert forall|i: int| 0 <= i < word.len() implies !is_white(word[i]) by {}
    lemma_leading_word_is(word, word.len() as int);
    assert(word.take(word.len() as int) =~= word);
    let none = word.skip(word.len() as int);
    lemma_leading_white(none);
    assert(words_of(none) =~= seq![]);
    assert(words_of(word) =~= seq![word]);
    let whole = word + seq![c] + rest;
    assert(whole[0] == word[0]);
    lemma_leading_white_is(whole, 0);
    assert(trimmed_start(whole) =~= whole);
    assert forall|i: int| 0 <= i < word.len() implies !is_white(whole[i]) by {
        assert(whole[i] == word[i]);
    }
    assert(whole[word.len() as int] == c);
    lemma_leading_word_is(whole, word.len() as int);
    assert(whole.take(word.len() as int) =~= word);
    assert(whole.skip(word.len() as int) =~= seq![c] + rest);
    assert(words_of(whole) == seq![word] + words_of(seq![c] + rest));
    assert forall|i: int| 0 <= i < seq![c].len() implies is_white(#[trigger] seq![c][i]) by {}
    lemma_words_of_blank_front(seq![c], rest);
}

proof fn lemma_words_of_blank_front(front: Seq<char>, rest: Seq<char>)
    requires
        forall|i: int| 0 <= i < front.len() ==> is_white(#[trigger] front[i]),
    ensures
        words_of(front + rest) == words_of(rest),
        trimmed_start(front + rest) == trimmed_start(rest),
{
    let whole = front + rest;
    lemma_leading_white(rest);
    let n = front.len() + leading_white(rest);
    assert forall|i: int| 0 <= i < n implies is_white(whole[i]) by {
        if i < front.len() {
            assert(whole[i] == front[i]);
        } else {
            assert(whole[i] == rest[i - front.len()]);
        }
    }
    if n < whole.len() {
        assert(whole[n] == rest[leading_white(rest)]);
    }
    lemma_leading_white_is(whole, n);
    assert(trimmed_start(whole) =~= trimmed_start(rest));
}

/// Trimming takes the white space off both ends and nothing else.
pub proof fn law_trimming_keeps_the_core(front: Seq<char>, core: Seq<char>, back: Seq<char>)
    requires
        forall|i: int| 0 <= i < front.len() ==> is_white(#[trigger] front[i]),
        forall|i: int| 0 <= i < back.len() ==> is_white(#[trigger] back[i]),
        core.len() > 0 ==> !is_white(core[0]) && !is_white(core.last()),
    ensures
        trimmed(front + core + back) == core,
{
    let tail = core + back;
    assert(front + tail =~= front + core + back);
    lemma_words_of_blank_front(front, tail);
    if core.len() > 0 {
        assert(tail[0] == core[0]);
        lemma_leading_white_is(tail, 0);
        assert(trimmed_start(tail) =~= tail);
        law_trimming_the_end_keeps_the_front(core, back);
    } else {
        assert(tail =~= back);
        assert forall|i: int| 0 <= i < back.len() implies is_white(back[i]) by {}
        lemma_leading_white_is(tail, tail.len() as int);
        assert(trimmed_start(tail) =~= core);
    }
}

/// A trimmed text is empty exactly where every character is white space.
pub proof fn law_only_blank_texts_trim_to_nothing(text: Seq<char>)
    ensures
        trimmed(text).len() == 0 <==> forall|i: int|
            0 <= i < text.len() ==> is_white(#[trigger] text[i]),
{
    lemma_leading_white(text);
    let rest = trimmed_start(text);
    if rest.len() > 0 {
        assert(rest[0] == text[leading_white(text)]);
        lemma_trimmed_end_keeps_front(rest);
    } else {
        assert forall|i: int| 0 <= i < text.len() implies is_white(#[trigger] text[i]) by {}
    }
}

proof fn lemma_trimmed_end_keeps_front(text: Seq<char>)
    requires
        text.len() > 0,
        !is_white(text[0]),
    ensures
        trimmed_end(text).len() > 0,
    decreases text.len(),
{
    if is_white(text.last()) {
        lemma_trimmed_end_keeps_front(text.drop_last());
    }
}

/// A text is its first line, the end of that line, and the lines behind it. A
/// line feed ends a line, and a carriage return before it goes with it.
pub proof fn law_lines_come_apart(line: Seq<char>, rest: Seq<char>)
    requires
        forall|i: int| 0 <= i < line.len() ==> line[i] != '\n',
    ensures
        line.len() > 0 ==> lines_of(line) == seq![line],
        line.len() > 0 && line.last() == '\r' || lines_of(line + seq!['\n'] + rest) == seq![line]
            + lines_of(rest),
        lines_of(line + seq!['\r', '\n'] + rest) == seq![line] + lines_of(rest),
        lines_of(Seq::<char>::empty()) == Seq::<Seq<char>>::empty(),
{
    if line.len() > 0 {
        lemma_index_of_is(line, '\n', line.len() as int);
    }
    let whole = line + seq!['\n'] + rest;
    lemma_index_of_is(whole, '\n', line.len() as int);
    assert(whole.take(line.len() as int) =~= line);
    assert(whole.skip(line.len() as int + 1) =~= rest);
    let other = line + seq!['\r', '\n'] + rest;
    assert forall|i: int| 0 <= i < line.len() + 1 implies other[i] != '\n' by {
        if i < line.len() {
            assert(other[i] == line[i]);
        }
    }
    lemma_index_of_is(other, '\n', line.len() as int + 1);
    assert(other.take(line.len() as int + 1) =~= line.push('\r'));
    assert(line.push('\r').drop_last() =~= line);
    assert(other.skip(line.len() as int + 2) =~= rest);
}

/// The first place a text stands at, where nothing before it begins like it.
pub proof fn law_a_text_is_found_where_it_stands(
    front: Seq<char>,
    wanted: Seq<char>,
    rest: Seq<char>,
)
    requires
        wanted.len() > 0,
        forall|i: int| 0 <= i < front.len() ==> front[i] != wanted[0],
    ensures
        position_of(front + wanted + rest, wanted) == Some(front.len() as int),
        position_of(front, wanted) is None,
    decreases front.len(),
{
    let whole = front + wanted + rest;
    if front.len() == 0 {
        assert(whole.take(wanted.len() as int) =~= wanted);
        assert(begins_with(whole, wanted));
        assert(front.take(0).len() == 0);
    } else {
        assert(whole[0] == front[0]);
        assert(whole.take(wanted.len() as int)[0] == whole[0] || whole.len() < wanted.len());
        assert(!begins_with(whole, wanted));
        if front.len() >= wanted.len() {
            assert(front.take(wanted.len() as int)[0] == front[0]);
        }
        assert(!begins_with(front, wanted));
        assert(whole.skip(1) =~= front.skip(1) + wanted + rest);
        assert forall|i: int| 0 <= i < front.skip(1).len() implies front.skip(1)[i] != wanted[0] by {
            assert(front.skip(1)[i] == front[i + 1]);
        }
        law_a_text_is_found_where_it_stands(front.skip(1), wanted, rest);
    }
}

/// A text comes apart at the first separator, and one without a separator is
/// one piece.
pub proof fn law_pieces_come_apart(front: Seq<char>, separator: Seq<char>, rest: Seq<char>)
    requires
        separator.len() > 0,
        forall|i: int| 0 <= i < front.len() ==> front[i] != separator[0],
    ensures
        split_on(front, separator) == seq![front],
        split_on(front + separator + rest, separator) == seq![front] + split_on(rest, separator),
{
    let whole = front + separator + rest;
    law_a_text_is_found_where_it_stands(front, separator, rest);
    assert(whole.take(front.len() as int) =~= front);
    assert(whole.skip((front.len() + separator.len()) as int) =~= rest);
}

/// Replacing writes the new text where the old one stood and leaves all else.
pub proof fn law_replacing_leaves_the_rest(
    front: Seq<char>,
    wanted: Seq<char>,
    instead: Seq<char>,
    rest: Seq<char>,
)
    requires
        wanted.len() > 0,
        forall|i: int| 0 <= i < front.len() ==> front[i] != wanted[0],
    ensures
        replaced(front, wanted, instead) == front,
        replaced(front + wanted + rest, wanted, instead) == front + instead + replaced(
            rest,
            wanted,
            instead,
        ),
{
    let whole = front + wanted + rest;
    law_a_text_is_found_where_it_stands(front, wanted, rest);
    assert(whole.take(front.len() as int) =~= front);
    assert(whole.skip((front.len() + wanted.len()) as int) =~= rest);
}

/// Replacing a text of two characters goes on over a place where it cannot
/// stand.
#[verifier::rlimit(40)]
pub proof fn lemma_replaced_comes_apart(
    front: Seq<char>,
    rest: Seq<char>,
    wanted: Seq<char>,
    instead: Seq<char>,
)
    requires
        wanted.len() == 2,
        front.len() == 0 || rest.len() == 0 || front.last() != wanted[0] || rest[0] != wanted[1],
    ensures
        replaced(front + rest, wanted, instead) == replaced(front, wanted, instead) + replaced(
            rest,
            wanted,
            instead,
        ),
    decreases front.len(),
{
    let whole = front + rest;
    lemma_position_of(front, wanted);
    lemma_position_of(whole, wanted);
    lemma_position_of(rest, wanted);
    match position_of(front, wanted) {
        Some(at) => {
            assert(front.subrange(at, at + 2) =~= wanted);
            assert(whole.skip(at).take(2) =~= front.subrange(at, at + 2));
            assert(begins_with(whole.skip(at), wanted));
            let found = position_of(whole, wanted);
            assert(found is Some);
            let k = found->0;
            if k < at {
                assert(whole.subrange(k, k + 2) =~= wanted);
                assert(front.skip(k).take(2) =~= whole.subrange(k, k + 2));
                assert(begins_with(front.skip(k), wanted));
            }
            assert(k == at);
            assert(whole.take(at) =~= front.take(at));
            let tail = front.skip(at + 2);
            assert(whole.skip(at + 2) =~= tail + rest);
            if tail.len() > 0 {
                assert(tail.last() == front.last());
            }
            lemma_replaced_comes_apart(tail, rest, wanted, instead);
            assert(replaced(whole, wanted, instead) =~= replaced(front, wanted, instead) + replaced(
                rest,
                wanted,
                instead,
            ));
        },
        None => {
            let n = front.len() as int;
            match position_of(rest, wanted) {
                Some(at) => {
                    assert(whole.skip(n + at).take(2) =~= rest.subrange(at, at + 2));
                    assert(begins_with(whole.skip(n + at), wanted));
                    let found = position_of(whole, wanted);
                    assert(found is Some);
                    let k = found->0;
                    assert(whole.subrange(k, k + 2) =~= wanted);
                    lemma_found_beyond(front, rest, wanted, k);
                    if k < n + at {
                        assert(rest.skip(k - n).take(2) =~= whole.subrange(k, k + 2));
                        assert(begins_with(rest.skip(k - n), wanted));
                    }
                    assert(k == n + at);
                    assert(whole.take(k) =~= front + rest.take(at));
                    assert(whole.skip(k + 2) =~= rest.skip(at + 2));
                    assert(replaced(whole, wanted, instead) =~= front + replaced(
                        rest,
                        wanted,
                        instead,
                    ));
                },
                None => {
                    if let Some(k) = position_of(whole, wanted) {
                        assert(whole.subrange(k, k + 2) =~= wanted);
                        lemma_found_beyond(front, rest, wanted, k);
                        assert(rest.skip(k - n).take(2) =~= whole.subrange(k, k + 2));
                        assert(begins_with(rest.skip(k - n), wanted));
                    }
                },
            }
        },
    }
}

proof fn lemma_found_beyond(front: Seq<char>, rest: Seq<char>, wanted: Seq<char>, k: int)
    requires
        wanted.len() == 2,
        front.len() == 0 || rest.len() == 0 || front.last() != wanted[0] || rest[0] != wanted[1],
        position_of(front, wanted) is None,
        0 <= k <= front.len() + rest.len() - 2,
        (front + rest).subrange(k, k + 2) == wanted,
    ensures
        k >= front.len(),
{
    let whole = front + rest;
    lemma_position_of(front, wanted);
    assert(whole.subrange(k, k + 2)[0] == whole[k]);
    assert(whole.subrange(k, k + 2)[1] == whole[k + 1]);
    if k + 2 <= front.len() {
        assert(front.skip(k).take(2) =~= wanted);
        assert(begins_with(front.skip(k), wanted));
    } else if k < front.len() {
        assert(whole[k] == front.last());
        assert(whole[k + 1] == rest[0]);
    }
}

/// Texts are joined by writing the first, the separator and the rest.
pub proof fn law_joining_puts_the_separator_between(
    first: Seq<char>,
    rest: Seq<Seq<char>>,
    separator: Seq<char>,
)
    ensures
        joined(seq![first], separator) == first,
        rest.len() > 0 ==> joined(seq![first] + rest, separator) == first + separator + joined(
            rest,
            separator,
        ),
    decreases rest.len(),
{
    let all = seq![first] + rest;
    assert(joined(seq![first], separator) == first);
    if rest.len() == 1 {
        assert(all.drop_last() =~= seq![first]);
        assert(all.last() == rest[0]);
        assert(joined(all, separator) == first + separator + rest[0]);
    } else if rest.len() > 1 {
        law_joining_puts_the_separator_between(first, rest.drop_last(), separator);
        assert(all.drop_last() =~= seq![first] + rest.drop_last());
        assert(all.last() == rest.last());
        assert(joined(all, separator) =~= first + separator + joined(rest, separator));
    }
}

/// A text is white space, what trimming leaves, and white space.
pub proof fn lemma_trimmed_stands_inside(text: Seq<char>) -> (around: (Seq<char>, Seq<char>))
    ensures
        text == around.0 + trimmed(text) + around.1,
        forall|i: int| 0 <= i < around.0.len() ==> is_white(#[trigger] around.0[i]),
        forall|i: int| 0 <= i < around.1.len() ==> is_white(#[trigger] around.1[i]),
        trimmed(text).len() > 0 ==> !is_white(trimmed(text)[0]) && !is_white(trimmed(text).last()),
{
    lemma_leading_white(text);
    let front = text.take(leading_white(text));
    let rest = trimmed_start(text);
    let back = lemma_trimmed_end_stands_first(rest);
    assert(text =~= front + rest);
    assert(front + (trimmed(text) + back) =~= front + trimmed(text) + back);
    if trimmed(text).len() > 0 {
        assert(trimmed(text)[0] == rest[0]);
        assert(rest[0] == text[leading_white(text)]);
    }
    (front, back)
}

proof fn lemma_trimmed_end_stands_first(text: Seq<char>) -> (back: Seq<char>)
    ensures
        text == trimmed_end(text) + back,
        forall|i: int| 0 <= i < back.len() ==> is_white(#[trigger] back[i]),
        trimmed_end(text).len() > 0 ==> !is_white(trimmed_end(text).last()),
    decreases text.len(),
{
    if text.len() == 0 || !is_white(text.last()) {
        assert(text =~= text + Seq::<char>::empty());
        Seq::empty()
    } else {
        let back = lemma_trimmed_end_stands_first(text.drop_last());
        let core = trimmed_end(text);
        assert(core == trimmed_end(text.drop_last()));
        assert(text =~= text.drop_last().push(text.last()));
        assert((core + back).push(text.last()) =~= core + back.push(text.last()));
        back.push(text.last())
    }
}

/// Of the characters on a keyboard the space, the tab and what ends a line are
/// white space, and nothing that prints is.
pub proof fn law_what_prints_is_not_white(c: char)
    ensures
        c == ' ' || c == '\t' || c == '\n' || c == '\r' ==> is_white(c),
        '!' <= c && c <= '~' ==> !is_white(c),
{
}

/// A number that was written is read back where it is no more than the limit,
/// with or without a plus sign; a text that holds anything but digits is no
/// number.
pub proof fn law_numbers_are_read_as_written(n: nat, limit: nat, text: Seq<char>)
    ensures
        number_in(decimal(n), limit) == (if n <= limit {
            Some(n)
        } else {
            None
        }),
        number_in(seq!['+'] + decimal(n), limit) == number_in(decimal(n), limit),
        (exists|i: int| 0 <= i < text.len() && (i > 0 || text[i] != '+') && !('0' <= text[i]
            && text[i] <= '9')) ==> number_in(text, limit) is None,
        number_in(Seq::<char>::empty(), limit) is None,
{
    lemma_decimal_reads_back(n, n);
    assert(is_digit(decimal(n)[0]));
    assert((seq!['+'] + decimal(n)).skip(1) =~= decimal(n));
    if exists|i: int| 0 <= i < text.len() && (i > 0 || text[i] != '+') && !('0' <= text[i]
        && text[i] <= '9') {
        let i = choose|i: int| 0 <= i < text.len() && (i > 0 || text[i] != '+') && !('0' <= text[i]
            && text[i] <= '9');
        if text[0] == '+' {
            assert(text.skip(1)[i - 1] == text[i]);
            assert(!is_digit(text.skip(1)[i - 1]));
        } else {
            assert(!is_digit(text[i]));
        }
    }
}

/// The digits in front end where something else begins.
pub proof fn lemma_leading_digits_is(digits: Seq<char>, rest: Seq<char>)
    requires
        all_digits(digits),
        rest.len() > 0 ==> !is_digit(rest[0]),
    ensures
        leading_digits(digits + rest) == digits.len(),
    decreases digits.len(),
{
    let whole = digits + rest;
    if digits.len() > 0 {
        assert(whole[0] == digits[0]);
        assert(whole.skip(1) =~= digits.skip(1) + rest);
        assert forall|i: int| 0 <= i < digits.skip(1).len() implies is_digit(
            #[trigger] digits.skip(1)[i],
        ) by {
            assert(digits.skip(1)[i] == digits[i + 1]);
        }
        lemma_leading_digits_is(digits.skip(1), rest);
    } else if rest.len() > 0 {
        assert(whole[0] == rest[0]);
    }
}

/// Trimming the end takes the white space off the end and nothing else.
pub proof fn law_trimming_the_end_keeps_the_front(text: Seq<char>, end: Seq<char>)
    requires
        text.len() > 0 ==> !is_white(text.last()),
        forall|i: int| 0 <= i < end.len() ==> is_white(#[trigger] end[i]),
    ensures
        trimmed_end(text + end) == text,
    decreases end.len(),
{
    let whole = text + end;
    if end.len() == 0 {
        assert(whole =~= text);
    } else {
        assert(whole.last() == end[end.len() - 1]);
        assert(whole.drop_last() =~= text + end.drop_last());
        law_trimming_the_end_keeps_the_front(text, end.drop_last());
    }
}

/// The ASCII letters and digits are those, and a capital letter is lowered to the
/// letter it is the capital of; nothing else is changed.
pub proof fn law_letters_and_digits(c: char, left: Seq<char>, right: Seq<char>)
    ensures
        is_digit(c) <==> '0' <= c && c <= '9',
        is_letter(c) <==> ('a' <= c && c <= 'z') || ('A' <= c && c <= 'Z'),
        'A' <= c && c <= 'Z' ==> lower(c) as u32 == c as u32 + 32,
        !('A' <= c && c <= 'Z') ==> lower(c) == c,
        same_letters(left, left),
        left.len() != right.len() ==> !same_letters(left, right),
{
}

} // verus!
