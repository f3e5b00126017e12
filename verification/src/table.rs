//! Columns of text.

use crate::text::{chars_of, decimal, number_text, string_of};
use vstd::prelude::*;
use vstd::slice::*;
use vstd::string::*;

verus! {

/// So many spaces.
pub open spec fn spaces(count: nat) -> Seq<char> {
    Seq::new(count, |i: int| ' ')
}

/// The text, cut short with an ellipsis where it is longer than `max`.
pub open spec fn clipped(text: Seq<char>, max: nat) -> Seq<char> {
    if text.len() <= max {
        text
    } else if max == 0 {
        "…"@
    } else {
        text.take(max - 1) + "…"@
    }
}

/// The text with spaces behind it up to `width`.
pub open spec fn padded(text: Seq<char>, width: nat) -> Seq<char> {
    if text.len() >= width {
        text
    } else {
        text + spaces((width - text.len()) as nat)
    }
}

/// The text with spaces before it up to `width`.
pub open spec fn indented(text: Seq<char>, width: nat) -> Seq<char> {
    if text.len() >= width {
        text
    } else {
        spaces((width - text.len()) as nat) + text
    }
}

/// A text cut to fit a column and padded to fill it.
pub open spec fn column(text: Seq<char>, width: nat) -> Seq<char> {
    padded(clipped(text, width), width)
}

fn blank(count: usize) -> (text: String)
    ensures
        text@ == spaces(count as nat),
{
    let mut text = String::new();
    let mut i: usize = 0;
    while i < count
        invariant
            i <= count,
            text@ =~= spaces(i as nat),
        decreases count - i,
    {
        text.push(' ');
        i = i + 1;
    }
    text
}

/// Cuts a text to at most `max` characters, the last of them an ellipsis where
/// something was left out.
pub fn clip(text: &str, max: usize) -> (shown: String)
    ensures
        shown@ == clipped(text@, max as nat),
{
    let chars = chars_of(text);
    if chars.len() <= max {
        return text.to_owned();
    }
    let kept: usize = if max == 0 {
        0
    } else {
        max - 1
    };
    let front = slice_subrange(chars.as_slice(), 0, kept);
    let mut shown = string_of(front);
    shown.append("…");
    proof {
        if max == 0 {
            assert(front@ + "…"@ =~= "…"@);
        } else {
            assert(front@ =~= text@.take(max - 1));
        }
    }
    shown
}

/// Adds spaces behind a text up to `width`.
pub fn pad(text: &str, width: usize) -> (shown: String)
    ensures
        shown@ == padded(text@, width as nat),
{
    let length: usize = text.unicode_len();
    let mut shown = text.to_owned();
    if length < width {
        shown.append(blank(width - length).as_str());
    }
    shown
}

/// Adds spaces before a text up to `width`.
pub fn indent(text: &str, width: usize) -> (shown: String)
    ensures
        shown@ == indented(text@, width as nat),
{
    let length: usize = text.unicode_len();
    if length < width {
        let mut shown = blank(width - length);
        shown.append(text);
        shown
    } else {
        text.to_owned()
    }
}

/// Fits a text into a column.
pub fn fit(text: &str, width: usize) -> (shown: String)
    ensures
        shown@ == column(text@, width as nat),
{
    pad(clip(text, width).as_str(), width)
}

/// Bytes as something a person reads at a glance; a dash where there was no
/// reading, so that nobody takes it for a measurement of nothing.
pub open spec fn megabytes_text(bytes: Option<u64>) -> Seq<char> {
    match bytes {
        Some(bytes) => decimal((bytes / 1048576) as nat) + " MB"@,
        None => "-"@,
    }
}

/// Bytes as something a person reads at a glance.
pub fn megabytes(bytes: Option<u64>) -> (text: String)
    ensures
        text@ == megabytes_text(bytes),
{
    match bytes {
        Some(bytes) => {
            let mut text = number_text(bytes / 1_048_576);
            text.append(" MB");
            text
        },
        None => "-".to_owned(),
    }
}

/// A column is exactly as wide as it should be, and a text that fits is all
/// there.
pub proof fn law_a_column_has_its_width(text: Seq<char>, width: nat)
    requires
        width > 0,
    ensures
        column(text, width).len() == width,
        text.len() <= width ==> column(text, width).take(text.len() as int) == text,
{
    reveal_strlit("…");
    if text.len() <= width {
        assert(column(text, width).take(text.len() as int) =~= text);
    }
}

/// A text that fits is shown whole; one that does not is cut to the width, with
/// an ellipsis for its end.
pub proof fn law_a_cut_text_ends_in_an_ellipsis(text: Seq<char>, max: nat)
    ensures
        text.len() <= max ==> clipped(text, max) == text,
        text.len() > max && max > 0 ==> clipped(text, max).len() == max && clipped(text, max).last()
            == '…' && clipped(text, max).drop_last() == text.take(max - 1),
{
    reveal_strlit("…");
    if text.len() > max && max > 0 {
        let shown = clipped(text, max);
        assert(shown.last() == '…');
        assert(shown.drop_last() =~= text.take(max - 1));
    }
}

/// Padding adds spaces behind and indenting adds them in front, up to the width
/// and no further; the text itself stays.
pub proof fn law_padding_adds_spaces_alone(text: Seq<char>, width: nat, i: int)
    ensures
        padded(text, width).len() == (if text.len() > width {
            text.len()
        } else {
            width
        }),
        indented(text, width).len() == padded(text, width).len(),
        padded(text, width).take(text.len() as int) == text,
        text.len() <= i < width ==> padded(text, width)[i] == ' ',
        indented(text, width).skip(indented(text, width).len() - text.len()) == text,
        0 <= i < width - text.len() ==> indented(text, width)[i] == ' ',
{
    assert(padded(text, width).take(text.len() as int) =~= text);
    let shown = indented(text, width);
    assert(shown.skip(shown.len() - text.len()) =~= text);
}

/// Memory is told in whole megabytes of 1024 times 1024 bytes, or as a dash.
pub proof fn law_memory_is_told_in_megabytes(megabytes: u64, rest: u64)
    requires
        rest < 1048576,
        megabytes * 1048576 + rest <= u64::MAX,
    ensures
        megabytes_text(Some((megabytes * 1048576 + rest) as u64)) == decimal(megabytes as nat)
            + " MB"@,
        megabytes_text(None) == "-"@,
{
    assert((megabytes * 1048576 + rest) / 1048576 == megabytes) by (nonlinear_arith)
        requires
            rest < 1048576,
    ;
}

} // verus!
