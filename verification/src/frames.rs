//! Taking apart the stream of a container without a terminal.
//!
//! Docker sends what such a container writes to its two outputs down one
//! connection, each piece behind a header of eight bytes: which output it came
//! from, three bytes of nothing, and its length. Reading that as plain text
//! turns a log into a screen of control bytes.

use crate::text::{lemma_views_push, views};
use vstd::prelude::*;
use vstd::slice::*;

verus! {

/// A piece of output, and whether it was written to the error output.
#[derive(Debug, Clone, PartialEq, Eq)]
pub struct Piece {
    pub is_error: bool,
    pub bytes: Vec<u8>,
}

impl View for Piece {
    type V = (bool, Seq<u8>);

    open spec fn view(&self) -> (bool, Seq<u8>) {
        (self.is_error, self.bytes@)
    }
}

/// The length a header announces.
pub open spec fn announced(bytes: Seq<u8>) -> int {
    bytes[4] * 16777216 + bytes[5] * 65536 + bytes[6] * 256 + bytes[7]
}

/// Whether the first frame has arrived whole.
pub open spec fn has_frame(bytes: Seq<u8>) -> bool {
    bytes.len() >= 8 && bytes.len() >= 8 + announced(bytes)
}

/// The whole frames of some bytes, in order.
pub open spec fn pieces_in(bytes: Seq<u8>) -> Seq<(bool, Seq<u8>)>
    decreases bytes.len(),
{
    if has_frame(bytes) {
        let end = 8 + announced(bytes);
        seq![(bytes[0] == 2, bytes.subrange(8, end))] + pieces_in(bytes.skip(end))
    } else {
        seq![]
    }
}

/// What is left behind the last whole frame.
pub open spec fn unframed(bytes: Seq<u8>) -> Seq<u8>
    decreases bytes.len(),
{
    if has_frame(bytes) {
        unframed(bytes.skip(8 + announced(bytes)))
    } else {
        bytes
    }
}

/// The frames of a stream, as its bytes arrive in pieces of any size.
pub struct Frames {
    partial: Vec<u8>,
}

impl Frames {
    /// What has arrived of a frame that is not whole.
    pub closed spec fn pending(&self) -> Seq<u8> {
        self.partial@
    }

    pub fn new() -> (frames: Self)
        ensures
            frames.pending() == Seq::<u8>::empty(),
    {
        Frames { partial: Vec::new() }
    }

    /// Takes what arrived and gives the pieces it completed.
    pub fn write(&mut self, bytes: &[u8]) -> (pieces: Vec<Piece>)
        ensures
            views(pieces@) == pieces_in(old(self).pending() + bytes@),
            final(self).pending() == unframed(old(self).pending() + bytes@),
    {
        broadcast use lemma_views_push;

        let ghost whole = self.partial@ + bytes@;
        let mut arrived = slice_to_vec(bytes);
        self.partial.append(&mut arrived);
        assert(self.partial@ =~= whole);
        let mut pieces: Vec<Piece> = Vec::new();
        let mut rest = self.partial.as_slice();
        assert(views(pieces@) + pieces_in(rest@) =~= pieces_in(whole));
        while rest.len() >= 8
            invariant
                views(pieces@) + pieces_in(rest@) == pieces_in(whole),
                unframed(rest@) == unframed(whole),
            ensures
                !has_frame(rest@),
            decreases rest@.len(),
        {
            let length: u64 = rest[4] as u64 * 16777216 + rest[5] as u64 * 65536 + rest[6] as u64
                * 256 + rest[7] as u64;
            let held: usize = rest.len() - 8;
            if (held as u64) < length {
                break;
            }
            let end: usize = 8 + length as usize;
            let piece = slice_subrange(rest, 8, end);
            let after = slice_subrange(rest, end, rest.len());
            let ghost said = (rest@[0] == 2, piece@);
            proof {
                assert(after@ =~= rest@.skip(end as int));
                assert(views(pieces@) + pieces_in(rest@) =~= views(pieces@).push(said) + pieces_in(
                    after@,
                ));
            }
            pieces.push(Piece { is_error: rest[0] == 2, bytes: slice_to_vec(piece) });
            rest = after;
        }
        assert(views(pieces@) + pieces_in(rest@) =~= views(pieces@));
        let left = slice_to_vec(rest);
        self.partial = left;
        pieces
    }
}

/// Where a stream is cut does not matter: two parts give the pieces that both
/// together give, and leave the same behind.
pub proof fn law_cuts_do_not_matter(pending: Seq<u8>, one: Seq<u8>, other: Seq<u8>)
    ensures
        pieces_in(pending + one) + pieces_in(unframed(pending + one) + other) == pieces_in(
            pending + (one + other),
        ),
        unframed(unframed(pending + one) + other) == unframed(pending + (one + other)),
{
    assert(pending + (one + other) =~= (pending + one) + other);
    lemma_continued(pending + one, other);
}

proof fn lemma_continued(bytes: Seq<u8>, more: Seq<u8>)
    ensures
        pieces_in(bytes) + pieces_in(unframed(bytes) + more) == pieces_in(bytes + more),
        unframed(unframed(bytes) + more) == unframed(bytes + more),
    decreases bytes.len(),
{
    if has_frame(bytes) {
        let end = 8 + announced(bytes);
        let whole = bytes + more;
        assert(announced(whole) == announced(bytes));
        assert(whole.subrange(8, end) =~= bytes.subrange(8, end));
        assert(whole.skip(end) =~= bytes.skip(end) + more);
        lemma_continued(bytes.skip(end), more);
        let rest = bytes.skip(end);
        assert(pieces_in(bytes) + pieces_in(unframed(bytes) + more) =~= seq![
            (bytes[0] == 2, bytes.subrange(8, end)),
        ] + (pieces_in(rest) + pieces_in(unframed(rest) + more)));
    } else {
        assert(pieces_in(bytes) + pieces_in(bytes + more) =~= pieces_in(bytes + more));
    }
}

/// A frame is its stream, three bytes, the length of its body in four bytes with
/// the highest first, and the body: the body comes out whole, marked as an error
/// where the stream is the second, and what follows is read as if it stood
/// alone. Less than a frame gives nothing and waits.
pub proof fn law_a_frame_gives_its_body(
    stream: u8,
    unused: (u8, u8, u8),
    length: (u8, u8, u8, u8),
    body: Seq<u8>,
    rest: Seq<u8>,
    short: Seq<u8>,
)
    requires
        body.len() == length.0 * 16777216 + length.1 * 65536 + length.2 * 256 + length.3,
    ensures
        ({
            let head = seq![
                stream,
                unused.0,
                unused.1,
                unused.2,
                length.0,
                length.1,
                length.2,
                length.3,
            ];
            &&& pieces_in(head + body + rest) == seq![(stream == 2, body)] + pieces_in(rest)
            &&& unframed(head + body + rest) == unframed(rest)
            &&& short.len() < body.len() ==> pieces_in(head + short).len() == 0 && unframed(
                head + short,
            ) == head + short
        }),
        short.len() < 8 ==> pieces_in(short).len() == 0 && unframed(short) == short,
{
    let head = seq![
        stream,
        unused.0,
        unused.1,
        unused.2,
        length.0,
        length.1,
        length.2,
        length.3,
    ];
    let whole = head + body + rest;
    assert(whole[0] == stream);
    assert(whole[4] == length.0 && whole[5] == length.1);
    assert(whole[6] == length.2 && whole[7] == length.3);
    assert(announced(whole) == body.len());
    assert(has_frame(whole));
    let end = 8 + announced(whole);
    assert(whole.subrange(8, end) =~= body);
    assert(whole.skip(end) =~= rest);
    let cut = head + short;
    assert(cut[4] == length.0 && cut[5] == length.1);
    assert(cut[6] == length.2 && cut[7] == length.3);
    assert(announced(cut) == body.len());
}

} // verus!
