//! Named entries, in the order they were written.

use crate::text::{same, views};
use vstd::prelude::*;

verus! {

/// What the first entry of this name holds.
pub open spec fn entry_of<V>(entries: Seq<(Seq<char>, V)>, name: Seq<char>) -> Option<V>
    decreases entries.len(),
{
    if entries.len() == 0 {
        None
    } else if entries[0].0 == name {
        Some(entries[0].1)
    } else {
        entry_of(entries.skip(1), name)
    }
}

/// Finds the first entry of a name.
pub fn find_entry<'a, T: View>(entries: &'a [(String, T)], name: &str) -> (found: Option<&'a T>)
    ensures
        match found {
            Some(value) => entry_of(views(entries@), name@) == Some(value@),
            None => entry_of(views(entries@), name@) is None,
        },
{
    let ghost all = views(entries@);
    let mut i: usize = 0;
    assert(all.skip(0) =~= all);
    while i < entries.len()
        invariant
            i <= entries@.len(),
            all == views(entries@),
            entry_of(all, name@) == entry_of(all.skip(i as int), name@),
        decreases entries@.len() - i,
    {
        assert(all.skip(i as int)[0] == entries@[i as int]@);
        assert(all.skip(i as int).skip(1) =~= all.skip(i + 1));
        if same(entries[i].0.as_str(), name) {
            return Some(&entries[i].1);
        }
        i = i + 1;
    }
    None
}

/// The first entry of a name is the one that counts, and a name without an entry
/// holds nothing.
pub proof fn law_the_first_entry_counts<V>(entries: Seq<(Seq<char>, V)>, name: Seq<char>)
    ensures
        match entry_of(entries, name) {
            Some(value) => exists|i: int|
                0 <= i < entries.len() && #[trigger] entries[i] == (name, value) && forall|j: int|
                    0 <= j < i ==> (#[trigger] entries[j]).0 != name,
            None => forall|i: int| 0 <= i < entries.len() ==> (#[trigger] entries[i]).0 != name,
        },
    decreases entries.len(),
{
    if entries.len() > 0 && entries[0].0 != name {
        let rest = entries.skip(1);
        law_the_first_entry_counts(rest, name);
        match entry_of(rest, name) {
            Some(value) => {
                let i = choose|i: int|
                    0 <= i < rest.len() && #[trigger] rest[i] == (name, value) && forall|j: int|
                        0 <= j < i ==> (#[trigger] rest[j]).0 != name;
                assert(entries[i + 1] == (name, value));
                assert forall|j: int| 0 <= j < i + 1 implies (#[trigger] entries[j]).0 != name by {
                    if j > 0 {
                        assert(entries[j] == rest[j - 1]);
                    }
                }
            },
            None => {
                assert forall|i: int| 0 <= i < entries.len() implies (#[trigger] entries[i]).0
                    != name by {
                    if i > 0 {
                        assert(entries[i] == rest[i - 1]);
                    }
                }
            },
        }
    } else if entries.len() > 0 {
        assert(entries[0] == (name, entries[0].1));
    }
}

} // verus!
