//! Which `.env` a project is running with, and switching between them.
//!
//! A legacy project often carries `.env.local`, `.env.staging` and a couple of
//! others beside the `.env` that is actually read. Which is which is decided
//! here, as a pure function, because the switch itself overwrites a file and
//! should not be guessing.

use crate::order::{
    in_order, law_sorting_orders_and_keeps, lemma_filter_contains, lemma_in_order_contains,
    precedes, sort, Ranked,
};
use crate::text::{begins_with, chars_of, lemma_views_push, same, starts_with, views};
use vstd::prelude::*;
use vstd::string::*;

verus! {

/// The name of the backup a switch leaves behind.
pub const BACKUP: &'static str = ".env.bak";

/// Whether a file can be switched to.
pub open spec fn is_candidate(name: Seq<char>) -> bool {
    begins_with(name, ".env"@) && name != ".env"@ && name != ".env.bak"@
}

/// The names that can be switched to, in order.
pub open spec fn candidates_in(names: Seq<Seq<char>>) -> Seq<Seq<char>> {
    in_order::<String>(names.filter(|name: Seq<char>| is_candidate(name)))
}

/// The files that can be switched to.
///
/// `.env` itself is excluded - it is the destination, not a choice - and so is
/// the backup, which exists only so a switch can be undone and would otherwise
/// offer itself as an option one switch later.
pub fn candidates(entries: &[String]) -> (found: Vec<String>)
    ensures
        views(found@) == candidates_in(views(entries@)),
{
    broadcast use lemma_views_push;

    let start = chars_of(".env");
    let mut found: Vec<String> = Vec::new();
    let mut i: usize = 0;
    let ghost names = views(entries@);
    let ghost wanted = |name: Seq<char>| is_candidate(name);
    proof {
        reveal(Seq::filter);
        assert(names.take(0).filter(wanted) =~= Seq::<Seq<char>>::empty());
    }
    while i < entries.len()
        invariant
            i <= entries@.len(),
            start@ == ".env"@,
            names == views(entries@),
            wanted == (|name: Seq<char>| is_candidate(name)),
            views(found@) == names.take(i as int).filter(wanted),
        decreases entries@.len() - i,
    {
        proof {
            reveal(Seq::filter);
            assert(names.take(i + 1).drop_last() =~= names.take(i as int));
            assert(names.take(i + 1).last() == entries@[i as int]@);
        }
        let name = &entries[i];
        if starts_with(chars_of(name.as_str()).as_slice(), start.as_slice()) && !same(
            name.as_str(),
            ".env",
        ) && !same(name.as_str(), BACKUP) {
            found.push(name.clone());
        }
        i = i + 1;
    }
    assert(names.take(i as int) =~= names);
    sort(found)
}

/// The first candidate with these contents.
pub open spec fn active_in(
    current: Seq<char>,
    candidates: Seq<(Seq<char>, Seq<char>)>,
) -> Option<Seq<char>>
    decreases candidates.len(),
{
    if candidates.len() == 0 {
        None
    } else if candidates[0].1 == current {
        Some(candidates[0].0)
    } else {
        active_in(current, candidates.skip(1))
    }
}

/// Which candidate the active `.env` is a copy of, when it is a copy of one.
///
/// Compared by content rather than remembered in a state file: a state file
/// would go stale the moment somebody edited `.env` by hand, and then the tool
/// would confidently name the wrong one.
pub fn active(current: &str, candidates: &[(String, String)]) -> (name: Option<String>)
    ensures
        match name {
            Some(name) => active_in(current@, views(candidates@)) == Some(name@),
            None => active_in(current@, views(candidates@)) is None,
        },
{
    let mut i: usize = 0;
    let ghost all = views(candidates@);
    assert(all.skip(0) =~= all);
    while i < candidates.len()
        invariant
            i <= candidates@.len(),
            all == views(candidates@),
            active_in(current@, all) == active_in(current@, all.skip(i as int)),
        decreases candidates@.len() - i,
    {
        assert(all.skip(i as int)[0] == candidates@[i as int]@);
        assert(all.skip(i as int).skip(1) =~= all.skip(i + 1));
        if same(candidates[i].1.as_str(), current) {
            return Some(candidates[i].0.clone());
        }
        i = i + 1;
    }
    None
}

/// What is offered is what can be switched to: neither the active file nor the
/// backup is, and no variant is missing.
pub proof fn law_only_variants_are_offered(names: Seq<Seq<char>>, name: Seq<char>)
    ensures
        candidates_in(names).contains(name) <==> names.contains(name) && is_candidate(name),
        !candidates_in(names).contains(".env"@),
        !candidates_in(names).contains(".env.bak"@),
{
    let wanted = |name: Seq<char>| is_candidate(name);
    lemma_filter_contains(names, wanted, name);
    lemma_filter_contains(names, wanted, ".env"@);
    lemma_filter_contains(names, wanted, ".env.bak"@);
    lemma_in_order_contains::<String>(names.filter(wanted), name);
    lemma_in_order_contains::<String>(names.filter(wanted), ".env"@);
    lemma_in_order_contains::<String>(names.filter(wanted), ".env.bak"@);
}

/// A named candidate has exactly the contents of the active file; an `.env`
/// edited by hand matches nothing rather than the nearest.
pub proof fn law_active_is_a_copy(current: Seq<char>, candidates: Seq<(Seq<char>, Seq<char>)>)
    ensures
        match active_in(current, candidates) {
            Some(name) => exists|i: int|
                0 <= i < candidates.len() && #[trigger] candidates[i] == (name, current),
            None => forall|i: int| 0 <= i < candidates.len() ==> (#[trigger] candidates[i]).1 != current,
        },
    decreases candidates.len(),
{
    if candidates.len() > 0 && candidates[0].1 != current {
        let rest = candidates.skip(1);
        law_active_is_a_copy(current, rest);
        match active_in(current, rest) {
            Some(name) => {
                let i = choose|i: int| 0 <= i < rest.len() && #[trigger] rest[i] == (name, current);
                assert(candidates[i + 1] == (name, current));
            },
            None => {
                assert forall|i: int| 0 <= i < candidates.len() implies (#[trigger] candidates[i]).1
                    != current by {
                    if i > 0 {
                        assert(rest[i - 1] == candidates[i]);
                    }
                }
            },
        }
    } else if candidates.len() > 0 {
        assert(candidates[0] == (candidates[0].0, current));
    }
}

/// A file to copy inside a project, and what it is copied to.
#[derive(Debug, Clone, PartialEq, Eq)]
pub struct CopyStep {
    pub from: String,
    pub to: String,
}

impl View for CopyStep {
    type V = (Seq<char>, Seq<char>);

    open spec fn view(&self) -> (Seq<char>, Seq<char>) {
        (self.from@, self.to@)
    }
}

/// The copies that switch a project to a variant.
pub open spec fn switching(has_env: bool, wanted: Seq<char>) -> Seq<(Seq<char>, Seq<char>)> {
    (if has_env {
        seq![(".env"@, ".env.bak"@)]
    } else {
        seq![]
    }) + seq![(wanted, ".env"@)]
}

/// What switches a project to a variant, in order. The file being replaced is
/// kept first. Overwriting somebody's working .env with no way back is not a
/// switch, it is a loss.
pub fn switch_plan(has_env: bool, wanted: &str) -> (steps: Vec<CopyStep>)
    ensures
        views(steps@) == switching(has_env, wanted@),
{
    broadcast use lemma_views_push;

    let mut steps: Vec<CopyStep> = Vec::new();
    if has_env {
        steps.push(CopyStep { from: ".env".to_owned(), to: BACKUP.to_owned() });
    }
    steps.push(CopyStep { from: wanted.to_owned(), to: ".env".to_owned() });
    assert(views(steps@) =~= switching(has_env, wanted@));
    steps
}

/// A switch can be undone: whatever writes over a .env that is there comes
/// after the step that keeps it.
pub proof fn law_a_switch_can_be_undone(wanted: Seq<char>, at: int)
    requires
        0 <= at < switching(true, wanted).len(),
        switching(true, wanted)[at].1 == ".env"@,
    ensures
        exists|kept: int|
            0 <= kept < at && #[trigger] switching(true, wanted)[kept] == (".env"@, ".env.bak"@),
{
    reveal_strlit(".env");
    reveal_strlit(".env.bak");
    assert(".env"@.len() != ".env.bak"@.len());
    assert(switching(true, wanted)[0] == (".env"@, ".env.bak"@));
}

/// A variant is any file whose name begins with the characters of `.env`, but
/// `.env` itself and the copy that a switch keeps; they are offered in order of
/// their names, each as often as it was there.
pub proof fn law_variants_are_known_by_their_beginning(names: Seq<Seq<char>>, name: Seq<char>)
    ensures
        candidates_in(names).contains(name) <==> names.contains(name) && name.len() > 4 && name[0]
            == '.' && name[1] == 'e' && name[2] == 'n' && name[3] == 'v' && name != ".env.bak"@,
{
    reveal_strlit(".env");
    reveal_strlit(".env.bak");
    law_only_variants_are_offered(names, name);
    if begins_with(name, ".env"@) {
        assert(name.take(4)[0] == name[0] && name.take(4)[1] == name[1]);
        assert(name.take(4)[2] == name[2] && name.take(4)[3] == name[3]);
        if name.len() == 4 {
            assert(name.take(4) =~= name);
        }
    }
    if name.len() > 4 && name[0] == '.' && name[1] == 'e' && name[2] == 'n' && name[3] == 'v' {
        assert(name.take(4) =~= ".env"@);
    }
}

/// The variant in use is the first that holds what `.env` holds.
pub proof fn law_the_first_copy_is_in_use(
    current: Seq<char>,
    candidates: Seq<(Seq<char>, Seq<char>)>,
    at: int,
)
    requires
        0 <= at < candidates.len(),
        candidates[at].1 == current,
        forall|i: int| 0 <= i < at ==> (#[trigger] candidates[i]).1 != current,
    ensures
        active_in(current, candidates) == Some(candidates[at].0),
    decreases candidates.len(),
{
    if at > 0 {
        let rest = candidates.skip(1);
        assert(candidates[0].1 != current);
        assert forall|i: int| 0 <= i < at - 1 implies (#[trigger] rest[i]).1 != current by {
            assert(rest[i] == candidates[i + 1]);
        }
        law_the_first_copy_is_in_use(current, rest, at - 1);
    }
}

/// A switch copies the variant over `.env`, after what was there has been copied
/// aside, and does nothing else.
pub proof fn law_a_switch_copies_twice_at_most(wanted: Seq<char>)
    ensures
        switching(false, wanted) == seq![(wanted, ".env"@)],
        switching(true, wanted) == seq![(".env"@, ".env.bak"@), (wanted, ".env"@)],
{
    assert(switching(false, wanted) =~= seq![(wanted, ".env"@)]);
    assert(switching(true, wanted) =~= seq![(".env"@, ".env.bak"@), (wanted, ".env"@)]);
}

/// Variants are listed by name.
pub proof fn law_variants_are_listed_by_name(names: Seq<Seq<char>>, i: int, j: int)
    requires
        0 <= i < j < candidates_in(names).len(),
    ensures
        !precedes(candidates_in(names)[j], candidates_in(names)[i]),
{
    let kept = names.filter(|name: Seq<char>| is_candidate(name));
    law_sorting_orders_and_keeps::<String>(kept);
    let listed = candidates_in(names);
    assert(String::ranks(listed[i], listed[j]));
}

} // verus!
