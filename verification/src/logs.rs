//! Turning a container's output into lines as they arrive.
//!
//! A following log never ends: collecting it first would mean showing nothing
//! until it did.

use crate::text::{
    chars_of, is_white, law_trimming_the_end_keeps_the_front, lemma_views_push, string_of,
    trim_end, trimmed_end, views,
};
use vstd::prelude::*;
use vstd::slice::*;

verus! {

/// The text that bytes spell, with a replacement character where they are not
/// UTF-8: what `String::from_utf8_lossy` makes of them.
pub uninterp spec fn lossy_text(bytes: Seq<u8>) -> Seq<char>;

/// `String::from_utf8_lossy`. The text is decided by the bytes alone; how it
/// replaces what is not UTF-8 is not stated.
#[verifier::external_body]
pub(crate) fn text_of_bytes(bytes: &[u8]) -> (text: String)
    ensures
        text@ == lossy_text(bytes@),
{
    String::from_utf8_lossy(bytes).into_owned()
}

/// Where the first line ends: behind its line feed. The length of the bytes
/// where no line is complete, plus one.
pub open spec fn line_end(bytes: Seq<u8>) -> int
    decreases bytes.len(),
{
    if bytes.len() == 0 {
        1
    } else if bytes[0] == 10 {
        1
    } else {
        1 + line_end(bytes.skip(1))
    }
}

/// The complete lines of some bytes, each with its line feed.
pub open spec fn complete_lines(bytes: Seq<u8>) -> Seq<Seq<u8>>
    decreases bytes.len(),
    when true
    via complete_lines_decreases
{
    let end = line_end(bytes);
    if end > bytes.len() {
        seq![]
    } else {
        seq![bytes.take(end)] + complete_lines(bytes.skip(end))
    }
}

#[via_fn]
proof fn complete_lines_decreases(bytes: Seq<u8>) {
    lemma_line_end(bytes);
}

/// What is left behind the last complete line.
pub open spec fn unfinished(bytes: Seq<u8>) -> Seq<u8>
    decreases bytes.len(),
    when true
    via unfinished_decreases
{
    let end = line_end(bytes);
    if end > bytes.len() {
        bytes
    } else {
        unfinished(bytes.skip(end))
    }
}

#[via_fn]
proof fn unfinished_decreases(bytes: Seq<u8>) {
    lemma_line_end(bytes);
}

proof fn lemma_line_end(bytes: Seq<u8>)
    ensures
        1 <= line_end(bytes) <= bytes.len() + 1,
        forall|i: int| 0 <= i < line_end(bytes) - 1 ==> bytes[i] != 10,
        line_end(bytes) <= bytes.len() ==> bytes[line_end(bytes) - 1] == 10,
    decreases bytes.len(),
{
    if bytes.len() > 0 && bytes[0] != 10 {
        lemma_line_end(bytes.skip(1));
        assert forall|i: int| 0 <= i < line_end(bytes) - 1 implies bytes[i] != 10 by {
            if i > 0 {
                assert(bytes[i] == bytes.skip(1)[i - 1]);
            }
        }
    }
}

proof fn lemma_line_end_is(bytes: Seq<u8>, end: int)
    requires
        1 <= end <= bytes.len() + 1,
        forall|i: int| 0 <= i < end - 1 ==> bytes[i] != 10,
        end <= bytes.len() ==> bytes[end - 1] == 10,
    ensures
        line_end(bytes) == end,
    decreases bytes.len(),
{
    if end > 1 {
        assert(bytes[0] != 10);
        let rest = bytes.skip(1);
        assert forall|i: int| 0 <= i < end - 2 implies rest[i] != 10 by {
            assert(rest[i] == bytes[i + 1]);
        }
        lemma_line_end_is(rest, end - 1);
    }
}

/// What a line is shown as: its text, without what ends it.
pub open spec fn shown(line: Seq<u8>) -> Seq<char> {
    trimmed_end(lossy_text(line))
}

/// What the lines are shown as.
pub open spec fn all_shown(lines: Seq<Seq<u8>>) -> Seq<Seq<char>> {
    lines.map_values(|line: Seq<u8>| shown(line))
}

fn show(line: &[u8]) -> (text: String)
    ensures
        text@ == shown(line@),
{
    let text = text_of_bytes(line);
    let chars = chars_of(text.as_str());
    string_of(trim_end(chars.as_slice()))
}

fn find_line_end(bytes: &[u8]) -> (end: Option<usize>)
    ensures
        match end {
            Some(end) => end == line_end(bytes@) && end <= bytes@.len(),
            None => line_end(bytes@) > bytes@.len(),
        },
{
    let mut i: usize = 0;
    while i < bytes.len()
        invariant
            i <= bytes@.len(),
            forall|j: int| 0 <= j < i ==> bytes@[j] != 10,
        decreases bytes@.len() - i,
    {
        if bytes[i] == 10 {
            proof {
                lemma_line_end_is(bytes@, i + 1);
            }
            return Some(i + 1);
        }
        i = i + 1;
    }
    proof {
        lemma_line_end_is(bytes@, bytes@.len() as int + 1);
    }
    None
}

/// The lines of a stream, as its bytes arrive in pieces of any size.
pub struct LogLines {
    partial: Vec<u8>,
}

impl LogLines {
    /// What has arrived of a line that is not complete.
    pub closed spec fn pending(&self) -> Seq<u8> {
        self.partial@
    }

    pub fn new() -> (lines: Self)
        ensures
            lines.pending() == Seq::<u8>::empty(),
    {
        LogLines { partial: Vec::new() }
    }

    /// Takes what arrived and gives the lines it completed.
    pub fn write(&mut self, bytes: &[u8]) -> (lines: Vec<String>)
        ensures
            views(lines@) == all_shown(complete_lines(old(self).pending() + bytes@)),
            final(self).pending() == unfinished(old(self).pending() + bytes@),
    {
        broadcast use lemma_views_push;

        let ghost whole = self.partial@ + bytes@;
        let mut held: Vec<u8> = Vec::new();
        let mut k: usize = 0;
        while k < self.partial.len()
            invariant
                k <= self.partial@.len(),
                held@ =~= self.partial@.take(k as int),
            decreases self.partial@.len() - k,
        {
            held.push(self.partial[k]);
            k = k + 1;
        }
        let mut i: usize = 0;
        while i < bytes.len()
            invariant
                i <= bytes@.len(),
                held@ =~= self.partial@ + bytes@.take(i as int),
            decreases bytes@.len() - i,
        {
            held.push(bytes[i]);
            i = i + 1;
        }
        assert(held@ =~= whole);
        let mut lines: Vec<String> = Vec::new();
        let mut rest = held.as_slice();
        let ghost every = complete_lines(whole);
        let ghost given = Seq::<Seq<u8>>::empty();
        assert(views(lines@) =~= all_shown(given));
        assert(given + complete_lines(rest@) =~= every);
        let mut more = true;
        while more
            invariant
                views(lines@) == all_shown(given),
                given + complete_lines(rest@) == every,
                unfinished(rest@) == unfinished(whole),
                !more ==> line_end(rest@) > rest@.len(),
            decreases
                    rest@.len(),
                    if more {
                        1int
                    } else {
                        0int
                    },
        {
            match find_line_end(rest) {
                Some(end) => {
                    let line = slice_subrange(rest, 0, end);
                    let after = slice_subrange(rest, end, rest.len());
                    proof {
                        lemma_line_end(rest@);
                        assert(line@ =~= rest@.take(end as int));
                        assert(after@ =~= rest@.skip(end as int));
                        assert(given + complete_lines(rest@) =~= given.push(line@) + complete_lines(
                            after@,
                        ));
                        assert(all_shown(given.push(line@)) =~= all_shown(given).push(shown(line@)));
                        given = given.push(line@);
                    }
                    lines.push(show(line));
                    rest = after;
                },
                None => {
                    more = false;
                },
            }
        }
        assert(given + complete_lines(rest@) =~= given);
        self.partial = slice_to_vec(rest);
        lines
    }
}

/// Where a stream is cut into pieces does not matter: two pieces give the lines
/// that both together give, and leave the same behind.
pub proof fn law_pieces_do_not_matter(pending: Seq<u8>, one: Seq<u8>, other: Seq<u8>)
    ensures
        complete_lines(pending + one) + complete_lines(unfinished(pending + one) + other)
            == complete_lines(pending + (one + other)),
        unfinished(unfinished(pending + one) + other) == unfinished(pending + (one + other)),
{
    assert(pending + (one + other) =~= (pending + one) + other);
    lemma_appended(pending + one, other);
}

proof fn lemma_appended(bytes: Seq<u8>, more: Seq<u8>)
    ensures
        complete_lines(bytes) + complete_lines(unfinished(bytes) + more) == complete_lines(
            bytes + more,
        ),
        unfinished(unfinished(bytes) + more) == unfinished(bytes + more),
    decreases bytes.len(),
{
    lemma_line_end(bytes);
    let end = line_end(bytes);
    if end > bytes.len() {
        assert(complete_lines(bytes) + complete_lines(bytes + more) =~= complete_lines(
            bytes + more,
        ));
    } else {
        let whole = bytes + more;
        assert forall|i: int| 0 <= i < end - 1 implies whole[i] != 10 by {
            assert(whole[i] == bytes[i]);
        }
        lemma_line_end_is(whole, end);
        assert(whole.take(end) =~= bytes.take(end));
        assert(whole.skip(end) =~= bytes.skip(end) + more);
        lemma_appended(bytes.skip(end), more);
        let rest = bytes.skip(end);
        assert(complete_lines(bytes) + complete_lines(unfinished(bytes) + more) =~= seq![
            bytes.take(end),
        ] + (complete_lines(rest) + complete_lines(unfinished(rest) + more)));
    }
}

/// A line ends with its line feed and is shown once that has come; what follows
/// is read as if it stood alone. Without a line feed nothing is shown, and all of
/// it waits.
pub proof fn law_a_line_feed_ends_a_line(line: Seq<u8>, rest: Seq<u8>)
    requires
        forall|i: int| 0 <= i < line.len() ==> line[i] != 10,
    ensures
        complete_lines(line + seq![10u8] + rest) == seq![line + seq![10u8]] + complete_lines(rest),
        unfinished(line + seq![10u8] + rest) == unfinished(rest),
        complete_lines(line).len() == 0,
        unfinished(line) == line,
{
    lemma_line_ends_there(line, rest);
    let whole = line + seq![10u8] + rest;
    let end = line.len() as int + 1;
    assert(whole.take(end) =~= line + seq![10u8]);
    assert(whole.skip(end) =~= rest);
}

proof fn lemma_line_ends_there(line: Seq<u8>, rest: Seq<u8>)
    requires
        forall|i: int| 0 <= i < line.len() ==> line[i] != 10,
    ensures
        line_end(line + seq![10u8] + rest) == line.len() + 1,
        line_end(line) == line.len() + 1,
    decreases line.len(),
{
    let whole = line + seq![10u8] + rest;
    if line.len() == 0 {
        assert(whole[0] == 10);
    } else {
        assert(whole[0] == line[0]);
        assert(whole.skip(1) =~= line.skip(1) + seq![10u8] + rest);
        lemma_line_ends_there(line.skip(1), rest);
    }
}

/// A line is shown as its text without the white space at its end; what stands
/// in front of it stays.
pub proof fn law_a_line_is_shown_without_its_end(line: Seq<u8>, text: Seq<char>, end: Seq<char>)
    requires
        lossy_text(line) == text + end,
        text.len() > 0 ==> !is_white(text.last()),
        forall|i: int| 0 <= i < end.len() ==> is_white(#[trigger] end[i]),
    ensures
        shown(line) == text,
{
    law_trimming_the_end_keeps_the_front(text, end);
}

} // verus!
