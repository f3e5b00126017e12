//! Searching the roots for projects, one directory at a time, and reporting what
//! was learned about each.
//!
//! Reading a directory and asking git are the caller's part. Which directory is
//! read next, what the entries of one add, and which events follow is decided
//! here, so that a search over a whole tree is one function of what the tree
//! holds.

use crate::config::{ProjectConfig, ProjectConfigView};
use crate::domain::{stack_of, GitStatus, GitStatusView};
use crate::git::{GitError, GitErrorView};
use crate::ports::{ScanEvent, ScanEventView};
use crate::scan::{
    all_found, found_in, is_walked, pool_size, report, reported, status_view, unreadable_root, walk,
    walked_count, Candidate, CandidateView, Entry, EntryView, Found, FoundView,
};
use crate::text::{copy_maybe, lemma_views_push, maybe_text, views};
use vstd::multiset::Multiset;
use vstd::prelude::*;
use vstd::seq_lib::{lemma_multiset_commutative, to_multiset_build, to_multiset_remove};
use vstd::string::*;

verus! {

/// What a search learned.
#[derive(Debug, Clone, PartialEq, Eq)]
pub struct Searched {
    /// The roots that are no directories.
    pub failures: Vec<String>,
    /// The projects, in the order in which the directories list them.
    pub candidates: Vec<Candidate>,
    /// How many directories were looked at.
    pub examined: usize,
}

/// What a search says.
#[verifier::ext_equal]
pub struct SearchedView {
    pub failures: Seq<Seq<char>>,
    pub candidates: Seq<CandidateView>,
    pub examined: nat,
}

impl View for Searched {
    type V = SearchedView;

    open spec fn view(&self) -> SearchedView {
        SearchedView {
            failures: views(self.failures@),
            candidates: views(self.candidates@),
            examined: self.examined as nat,
        }
    }
}

impl SearchedView {
    /// A search that learned nothing.
    pub open spec fn nothing() -> SearchedView {
        SearchedView { failures: seq![], candidates: seq![], examined: 0 }
    }

    /// A root that is no directory.
    pub open spec fn failure(root: Seq<char>) -> SearchedView {
        SearchedView { failures: seq![root], ..SearchedView::nothing() }
    }

    /// A project.
    pub open spec fn project(candidate: CandidateView) -> SearchedView {
        SearchedView { candidates: seq![candidate], ..SearchedView::nothing() }
    }

    /// Directories that were looked at.
    pub open spec fn looked_at(count: nat) -> SearchedView {
        SearchedView { examined: count, ..SearchedView::nothing() }
    }

    /// What was learned, and then what was learned after it.
    pub open spec fn and(self, later: SearchedView) -> SearchedView {
        SearchedView {
            failures: self.failures + later.failures,
            candidates: self.candidates + later.candidates,
            examined: self.examined + later.examined,
        }
    }
}

/// Adding up does not depend on where one starts.
proof fn lemma_and(a: SearchedView, b: SearchedView, c: SearchedView)
    ensures
        a.and(b).and(c) == a.and(b.and(c)),
        SearchedView::nothing().and(a) == a,
        a.and(SearchedView::nothing()) == a,
{
    assert(a.and(b).and(c) =~= a.and(b.and(c)));
    assert(SearchedView::nothing().and(a) =~= a);
    assert(a.and(SearchedView::nothing()) =~= a);
}

/// How many levels may still be descended from a depth.
pub open spec fn levels_left(config: ProjectConfigView, depth: nat) -> nat {
    if depth < config.max_depth {
        (config.max_depth - depth) as nat
    } else {
        0
    }
}

/// What a tree lists under a path, which is nothing where it cannot be read.
pub open spec fn listed(files: Map<Seq<char>, Seq<EntryView>>, path: Seq<char>) -> Seq<EntryView> {
    if files.contains_key(path) {
        files[path]
    } else {
        seq![]
    }
}

/// What the entries of a directory hold, with all that lies below them.
///
/// A directory is looked at unless it is hidden or ignored. One that holds a
/// marker is a project and is not entered; any other is entered as long as the
/// depth allows it, and lends its name to the projects directly in it.
pub open spec fn below(
    files: Map<Seq<char>, Seq<EntryView>>,
    config: ProjectConfigView,
    category: Option<Seq<char>>,
    depth: nat,
    entries: Seq<EntryView>,
) -> SearchedView
    decreases levels_left(config, depth), entries.len(),
{
    if entries.len() == 0 {
        SearchedView::nothing()
    } else {
        let before = below(files, config, category, depth, entries.drop_last());
        let entry = entries.last();
        let inside = match found_in(config, category, depth, entry) {
            Some(FoundView::Project(candidate)) => SearchedView::project(candidate),
            Some(FoundView::Descend { name, path }) => if depth < config.max_depth {
                below(files, config, Some(name), depth + 1, listed(files, path))
            } else {
                SearchedView::nothing()
            },
            None => SearchedView::nothing(),
        };
        before.and(
            SearchedView::looked_at(
                if is_walked(config, entry) {
                    1
                } else {
                    0
                },
            ).and(inside),
        )
    }
}

/// A directory that is to be read.
#[derive(Debug, Clone, PartialEq, Eq)]
pub struct Look {
    pub path: String,
    pub category: Option<String>,
    /// Counted from one in a root.
    pub depth: usize,
    pub is_root: bool,
}

/// What a directory to be read is.
#[verifier::ext_equal]
pub struct LookView {
    pub path: Seq<char>,
    pub category: Option<Seq<char>>,
    pub depth: nat,
    pub is_root: bool,
}

impl View for Look {
    type V = LookView;

    open spec fn view(&self) -> LookView {
        LookView {
            path: self.path@,
            category: maybe_text(self.category),
            depth: self.depth as nat,
            is_root: self.is_root,
        }
    }
}

/// Something a search still has to do.
#[derive(Debug, Clone, PartialEq, Eq)]
pub enum Todo {
    Keep(Candidate),
    Read(Look),
}

/// What is still to be done.
#[verifier::ext_equal]
pub enum TodoView {
    Keep(CandidateView),
    Read(LookView),
}

impl View for Todo {
    type V = TodoView;

    open spec fn view(&self) -> TodoView {
        match self {
            Todo::Keep(candidate) => TodoView::Keep(candidate@),
            Todo::Read(look) => TodoView::Read(look@),
        }
    }
}

/// What reading a directory leads to in a tree.
pub open spec fn looked(
    files: Map<Seq<char>, Seq<EntryView>>,
    config: ProjectConfigView,
    look: LookView,
) -> SearchedView {
    if files.contains_key(look.path) {
        below(files, config, look.category, look.depth, files[look.path])
    } else if look.is_root {
        SearchedView::failure(look.path)
    } else {
        SearchedView::nothing()
    }
}

/// What one thing to do leads to in a tree.
pub open spec fn comes_of(
    files: Map<Seq<char>, Seq<EntryView>>,
    config: ProjectConfigView,
    todo: TodoView,
) -> SearchedView {
    match todo {
        TodoView::Keep(candidate) => SearchedView::project(candidate),
        TodoView::Read(look) => looked(files, config, look),
    }
}

/// What a list of things to do leads to, one after the other.
pub open spec fn all_come_to(
    files: Map<Seq<char>, Seq<EntryView>>,
    config: ProjectConfigView,
    items: Seq<TodoView>,
) -> SearchedView
    decreases items.len(),
{
    if items.len() == 0 {
        SearchedView::nothing()
    } else {
        comes_of(files, config, items[0]).and(all_come_to(files, config, items.skip(1)))
    }
}

/// A root that is to be read.
pub open spec fn root_item(root: Seq<char>) -> TodoView {
    TodoView::Read(LookView { path: root, category: None, depth: 1, is_root: true })
}

/// The roots that are to be read.
pub open spec fn root_items(roots: Seq<Seq<char>>) -> Seq<TodoView> {
    roots.map_values(|root: Seq<char>| root_item(root))
}

/// What searching the roots of a tree comes to: root by root, what lies below
/// it, or that it is no directory.
pub open spec fn searched(
    files: Map<Seq<char>, Seq<EntryView>>,
    config: ProjectConfigView,
) -> SearchedView {
    all_come_to(files, config, root_items(config.roots))
}

/// What a finding in a directory at this depth asks for next.
pub open spec fn item_of(depth: nat, found: FoundView) -> TodoView {
    match found {
        FoundView::Project(candidate) => TodoView::Keep(candidate),
        FoundView::Descend { name, path } => TodoView::Read(
            LookView { path, category: Some(name), depth: depth + 1, is_root: false },
        ),
    }
}

/// What the findings in a directory ask for next.
pub open spec fn items_of(depth: nat, found: Seq<FoundView>) -> Seq<TodoView> {
    found.map_values(|one: FoundView| item_of(depth, one))
}

/// What a stack of things to do leads to, the last one first.
pub open spec fn stack_comes_to(
    files: Map<Seq<char>, Seq<EntryView>>,
    config: ProjectConfigView,
    stack: Seq<TodoView>,
) -> SearchedView
    decreases stack.len(),
{
    if stack.len() == 0 {
        SearchedView::nothing()
    } else {
        comes_of(files, config, stack.last()).and(
            stack_comes_to(files, config, stack.drop_last()),
        )
    }
}

proof fn lemma_all_come_to_push(
    files: Map<Seq<char>, Seq<EntryView>>,
    config: ProjectConfigView,
    items: Seq<TodoView>,
    item: TodoView,
)
    ensures
        all_come_to(files, config, items.push(item)) == all_come_to(files, config, items).and(
            comes_of(files, config, item),
        ),
    decreases items.len(),
{
    let longer = items.push(item);
    let last = comes_of(files, config, item);
    if items.len() == 0 {
        assert(longer.skip(1) =~= seq![]);
        assert(longer[0] == item);
        assert(all_come_to(files, config, longer.skip(1)) == SearchedView::nothing());
        lemma_and(last, last, last);
    } else {
        assert(longer.skip(1) =~= items.skip(1).push(item));
        assert(longer[0] == items[0]);
        lemma_all_come_to_push(files, config, items.skip(1), item);
        lemma_and(
            comes_of(files, config, items[0]),
            all_come_to(files, config, items.skip(1)),
            last,
        );
    }
}

/// Items put on a stack the wrong way round come off it in their order.
proof fn lemma_stacked(
    files: Map<Seq<char>, Seq<EntryView>>,
    config: ProjectConfigView,
    stack: Seq<TodoView>,
    items: Seq<TodoView>,
)
    ensures
        stack_comes_to(files, config, stack + items.reverse()) == all_come_to(
            files,
            config,
            items,
        ).and(stack_comes_to(files, config, stack)),
    decreases items.len(),
{
    let whole = stack + items.reverse();
    let under = stack_comes_to(files, config, stack);
    if items.len() == 0 {
        assert(whole =~= stack);
        lemma_and(under, under, under);
    } else {
        assert(whole.last() == items[0]);
        assert(whole.drop_last() =~= stack + items.skip(1).reverse());
        lemma_stacked(files, config, stack, items.skip(1));
        lemma_and(
            comes_of(files, config, items[0]),
            all_come_to(files, config, items.skip(1)),
            under,
        );
    }
}

/// A directory taken entry by entry, and the directories in it one after the
/// other, come to the same.
proof fn lemma_below(
    files: Map<Seq<char>, Seq<EntryView>>,
    config: ProjectConfigView,
    category: Option<Seq<char>>,
    depth: nat,
    entries: Seq<EntryView>,
)
    ensures
        below(files, config, category, depth, entries) == SearchedView::looked_at(
            walked_count(config, entries),
        ).and(
            all_come_to(
                files,
                config,
                items_of(depth, all_found(config, category, depth, entries)),
            ),
        ),
    decreases entries.len(),
{
    let found = all_found(config, category, depth, entries);
    let whole = all_come_to(files, config, items_of(depth, found));
    if entries.len() == 0 {
        assert(items_of(depth, found) =~= seq![]);
        assert(below(files, config, category, depth, entries) =~= SearchedView::looked_at(0).and(
            whole,
        ));
    } else {
        let front = entries.drop_last();
        let entry = entries.last();
        let first = all_found(config, category, depth, front);
        lemma_below(files, config, category, depth, front);
        match found_in(config, category, depth, entry) {
            Some(one) => {
                assert(items_of(depth, found) =~= items_of(depth, first).push(item_of(depth, one)));
                lemma_all_come_to_push(
                    files,
                    config,
                    items_of(depth, first),
                    item_of(depth, one),
                );
                if let FoundView::Descend { name, path } = one {
                    if !files.contains_key(path) {
                        assert(listed(files, path) =~= seq![]);
                        assert(below(files, config, Some(name), depth + 1, listed(files, path))
                            == SearchedView::nothing());
                    }
                }
            },
            None => {},
        }
        assert(below(files, config, category, depth, entries) =~= SearchedView::looked_at(
            walked_count(config, entries),
        ).and(whole));
    }
}

/// A search under way.
pub struct Search {
    config: ProjectConfig,
    /// What is still to be done, the next thing last.
    todo: Vec<Todo>,
    /// The directory whose entries are waited for.
    waiting: Option<Look>,
    learned: Searched,
}

/// Where a search stands.
#[verifier::ext_equal]
pub struct SearchView {
    pub config: ProjectConfigView,
    pub todo: Seq<TodoView>,
    pub waiting: Option<LookView>,
    pub learned: SearchedView,
}

impl View for Search {
    type V = SearchView;

    closed spec fn view(&self) -> SearchView {
        SearchView {
            config: self.config@,
            todo: views(self.todo@),
            waiting: match self.waiting {
                Some(look) => Some(look@),
                None => None,
            },
            learned: self.learned@,
        }
    }
}

impl SearchView {
    /// What the search will have learned at its end, if the tree is this one.
    pub open spec fn will_learn(self, files: Map<Seq<char>, Seq<EntryView>>) -> SearchedView {
        self.learned.and(
            match self.waiting {
                Some(look) => looked(files, self.config, look),
                None => SearchedView::nothing(),
            }.and(stack_comes_to(files, self.config, self.todo)),
        )
    }

    /// Whether there is nothing left to do.
    pub open spec fn is_done(self) -> bool {
        self.todo.len() == 0 && self.waiting is None
    }
}

/// What a directory answered: its entries, or that it is none.
pub open spec fn entries_view(entries: Option<Vec<Entry>>) -> Option<Seq<EntryView>> {
    match entries {
        Some(entries) => Some(views(entries@)),
        None => None,
    }
}

/// Whether a tree answers a path this way.
pub open spec fn answers(
    files: Map<Seq<char>, Seq<EntryView>>,
    path: Seq<char>,
    entries: Option<Seq<EntryView>>,
) -> bool {
    match entries {
        Some(entries) => files.contains_key(path) && files[path] == entries,
        None => !files.contains_key(path),
    }
}

impl Search {
    /// Starts a search over the configured roots.
    pub fn start(config: ProjectConfig) -> (search: Search)
        ensures
            search@.config == config@,
            search@.waiting is None,
            forall|files: Map<Seq<char>, Seq<EntryView>>| #[trigger]
                search@.will_learn(files) == searched(files, config@),
    {
        broadcast use lemma_views_push;

        let ghost roots = config@.roots;
        let ghost items = root_items(roots);
        let mut todo: Vec<Todo> = Vec::new();
        let mut i: usize = config.roots.len();
        assert(items.skip(i as int).reverse() =~= seq![]);
        assert(views(todo@) =~= seq![]);
        while i > 0
            invariant
                i <= config.roots@.len(),
                roots == views(config.roots@),
                items == root_items(roots),
                views(todo@) == items.skip(i as int).reverse(),
            decreases i,
        {
            i = i - 1;
            let ghost before = views(todo@);
            let look = Look {
                path: config.roots[i].clone(),
                category: None,
                depth: 1,
                is_root: true,
            };
            todo.push(Todo::Read(look));
            assert(items[i as int] == root_item(config.roots@[i as int]@));
            assert(items.skip(i as int).reverse() =~= before.push(items[i as int]));
        }
        assert(items.skip(0) =~= items);
        let learned = Searched { failures: Vec::new(), candidates: Vec::new(), examined: 0 };
        assert(learned@ =~= SearchedView::nothing());
        let search = Search { config, todo, waiting: None, learned };
        assert forall|files: Map<Seq<char>, Seq<EntryView>>| #[trigger]
            search@.will_learn(files) == searched(files, config@) by {
            let whole = all_come_to(files, config@, items);
            assert(seq![] + items.reverse() =~= items.reverse());
            lemma_stacked(files, config@, seq![], items);
            lemma_and(whole, whole, whole);
            lemma_and(SearchedView::nothing(), SearchedView::nothing(), whole);
        }
        search
    }

    /// The next directory whose entries are wanted, or none where the search is
    /// done.
    pub fn next(&mut self) -> (path: Option<String>)
        requires
            old(self)@.waiting is None,
        ensures
            final(self)@.config == old(self)@.config,
            final(self)@.learned.examined == old(self)@.learned.examined,
            match path {
                Some(path) => final(self)@.waiting matches Some(look) && look.path == path@,
                None => final(self)@.is_done(),
            },
            forall|files: Map<Seq<char>, Seq<EntryView>>| #[trigger]
                final(self)@.will_learn(files) == old(self)@.will_learn(files),
    {
        broadcast use lemma_views_push;

        while self.todo.len() > 0
            invariant
                self@.waiting is None,
                self@.config == old(self)@.config,
                self@.learned.examined == old(self)@.learned.examined,
                forall|files: Map<Seq<char>, Seq<EntryView>>| #[trigger]
                    self@.will_learn(files) == old(self)@.will_learn(files),
            decreases self.todo@.len(),
        {
            let ghost before = self@;
            match self.todo.pop() {
                Some(Todo::Keep(candidate)) => {
                    let ghost kept = candidate@;
                    self.learned.candidates.push(candidate);
                    assert(before.todo.last() == TodoView::Keep(kept));
                    assert(self@.todo =~= before.todo.drop_last());
                    assert(self@.learned =~= before.learned.and(SearchedView::project(kept)));
                    assert forall|files: Map<Seq<char>, Seq<EntryView>>| #[trigger]
                        self@.will_learn(files) == old(self)@.will_learn(files) by {
                        let rest = stack_comes_to(files, before.config, self@.todo);
                        let one = SearchedView::project(kept);
                        assert(before.will_learn(files) == old(self)@.will_learn(files));
                        lemma_and(before.learned, one, rest);
                        lemma_and(one.and(rest), rest, rest);
                        lemma_and(rest, rest, rest);
                    }
                },
                Some(Todo::Read(look)) => {
                    let ghost taken = look@;
                    let path = look.path.clone();
                    self.waiting = Some(look);
                    assert(before.todo.last() == TodoView::Read(taken));
                    assert(self@.todo =~= before.todo.drop_last());
                    assert forall|files: Map<Seq<char>, Seq<EntryView>>| #[trigger]
                        self@.will_learn(files) == old(self)@.will_learn(files) by {
                        let rest = stack_comes_to(files, before.config, self@.todo);
                        let one = looked(files, before.config, taken);
                        assert(before.will_learn(files) == old(self)@.will_learn(files));
                        lemma_and(one.and(rest), rest, rest);
                    }
                    return Some(path);
                },
                None => {},
            }
        }
        None
    }

    /// How many directories were looked at so far.
    pub fn examined(&self) -> (examined: usize)
        ensures
            examined == self@.learned.examined,
    {
        self.learned.examined
    }

    /// Takes in the entries of the directory that was asked for: `None` where it
    /// is none, which only a root is blamed for.
    pub fn give(&mut self, entries: Option<Vec<Entry>>)
        requires
            old(self)@.waiting is Some,
            entries matches Some(list) ==> old(self)@.learned.examined + list@.len() <= usize::MAX,
        ensures
            final(self)@.config == old(self)@.config,
            final(self)@.waiting is None,
            forall|files: Map<Seq<char>, Seq<EntryView>>|
                answers(files, old(self)@.waiting->0.path, entries_view(entries))
                    ==> #[trigger] final(self)@.will_learn(files) == old(self)@.will_learn(files),
    {
        broadcast use lemma_views_push;

        let ghost before = self@;
        let ghost look_view = before.waiting->0;
        let ghost answer = entries_view(entries);
        let look = match self.waiting.take() {
            Some(look) => look,
            None => {
                return ;
            },
        };
        assert(look@ == look_view);
        match entries {
            None => {
                if look.is_root {
                    self.learned.failures.push(look.path);
                    assert(self@.learned =~= before.learned.and(
                        SearchedView::failure(look_view.path),
                    ));
                } else {
                    assert(self@.learned =~= before.learned.and(SearchedView::nothing()));
                }
                assert forall|files: Map<Seq<char>, Seq<EntryView>>|
                    answers(files, look_view.path, answer) implies #[trigger] self@.will_learn(
                    files,
                ) == before.will_learn(files) by {
                    let rest = stack_comes_to(files, before.config, before.todo);
                    let one = looked(files, before.config, look_view);
                    lemma_and(before.learned, one, rest);
                    lemma_and(rest, rest, rest);
                }
            },
            Some(list) => {
                let visit = walk(&self.config, &look.category, look.depth, &list);
                let ghost all = views(list@);
                proof {
                    lemma_walked_count(before.config, all);
                }
                self.learned.examined = self.learned.examined + visit.examined;
                let ghost found = views(visit.found@);
                let ghost items = items_of(look.depth as nat, found);
                let ghost counted = SearchedView::looked_at(visit.examined as nat);
                let mut i: usize = visit.found.len();
                assert(items.skip(i as int).reverse() =~= seq![]);
                assert(views(self.todo@) =~= before.todo + items.skip(i as int).reverse());
                assert(self@.learned =~= before.learned.and(counted));
                while i > 0
                    invariant
                        i <= visit.found@.len(),
                        found == views(visit.found@),
                        items == items_of(look.depth as nat, found),
                        found == all_found(
                            before.config,
                            maybe_text(look.category),
                            look.depth as nat,
                            all,
                        ),
                        views(self.todo@) == before.todo + items.skip(i as int).reverse(),
                        self@.learned == before.learned.and(counted),
                        self@.waiting is None,
                        self@.config == before.config,
                    decreases i,
                {
                    i = i - 1;
                    let ghost stacked = views(self.todo@);
                    let item = match &visit.found[i] {
                        Found::Project(candidate) => Todo::Keep(candidate.copy()),
                        Found::Descend { name, path } => {
                            proof {
                                assert(found[i as int] == visit.found@[i as int]@);
                                lemma_descends_in_depth(
                                    before.config,
                                    maybe_text(look.category),
                                    look.depth as nat,
                                    all,
                                    i as int,
                                );
                            }
                            Todo::Read(
                                Look {
                                    path: path.clone(),
                                    category: Some(name.clone()),
                                    depth: look.depth + 1,
                                    is_root: false,
                                },
                            )
                        },
                    };
                    assert(items[i as int] == item_of(
                        look.depth as nat,
                        visit.found@[i as int]@,
                    ));
                    assert(item@ == items[i as int]);
                    self.todo.push(item);
                    assert(stacked == before.todo + items.skip(i + 1).reverse());
                    assert(views(self.todo@) =~= stacked.push(items[i as int]));
                    assert(items.skip(i as int).reverse() =~= items.skip(
                        i + 1,
                    ).reverse().push(items[i as int]));
                    assert(views(self.todo@) =~= before.todo + items.skip(i as int).reverse());
                }
                assert(items.skip(0) =~= items);
                assert forall|files: Map<Seq<char>, Seq<EntryView>>|
                    answers(files, look_view.path, answer) implies #[trigger] self@.will_learn(
                    files,
                ) == before.will_learn(files) by {
                    let rest = stack_comes_to(files, before.config, before.todo);
                    let inside = all_come_to(files, before.config, items);
                    lemma_stacked(files, before.config, before.todo, items);
                    lemma_below(
                        files,
                        before.config,
                        look_view.category,
                        look_view.depth,
                        all,
                    );
                    lemma_and(before.learned, counted, inside.and(rest));
                    lemma_and(counted, inside, rest);
                    lemma_and(inside.and(rest), rest, rest);
                }
            },
        }
    }

    /// What the search learned, once it is done.
    pub fn finish(self) -> (learned: Searched)
        requires
            self@.is_done(),
        ensures
            forall|files: Map<Seq<char>, Seq<EntryView>>| #[trigger]
                self@.will_learn(files) == learned@,
    {
        let ghost known = self@;
        assert forall|files: Map<Seq<char>, Seq<EntryView>>| #[trigger]
            known.will_learn(files) == known.learned by {
            let none = SearchedView::nothing();
            lemma_and(none, none, none);
            lemma_and(known.learned, none, none);
        }
        self.learned
    }
}

proof fn lemma_walked_count(config: ProjectConfigView, entries: Seq<EntryView>)
    ensures
        walked_count(config, entries) <= entries.len(),
    decreases entries.len(),
{
    if entries.len() > 0 {
        lemma_walked_count(config, entries.drop_last());
    }
}

proof fn lemma_descends_in_depth(
    config: ProjectConfigView,
    category: Option<Seq<char>>,
    depth: nat,
    entries: Seq<EntryView>,
    i: int,
)
    requires
        0 <= i < all_found(config, category, depth, entries).len(),
        all_found(config, category, depth, entries)[i] is Descend,
    ensures
        depth < config.max_depth,
    decreases entries.len(),
{
    if entries.len() > 0 {
        let before = all_found(config, category, depth, entries.drop_last());
        if i < before.len() {
            lemma_descends_in_depth(config, category, depth, entries.drop_last(), i);
        }
    }
}

/// A way down a tree that ends at a project: every directory on it is looked at,
/// none but the last holds a marker, and none lies deeper than allowed.
pub open spec fn leads_to_a_project(
    files: Map<Seq<char>, Seq<EntryView>>,
    config: ProjectConfigView,
    depth: nat,
    entries: Seq<EntryView>,
    trail: Seq<EntryView>,
) -> bool
    decreases trail.len(),
{
    &&& trail.len() > 0
    &&& entries.contains(trail[0])
    &&& is_walked(config, trail[0])
    &&& if trail.len() == 1 {
        trail[0].markers.len() > 0
    } else {
        &&& trail[0].markers.len() == 0
        &&& depth < config.max_depth
        &&& leads_to_a_project(
            files,
            config,
            depth + 1,
            listed(files, trail[0].path),
            trail.skip(1),
        )
    }
}

/// The project at the end of a way down, under the name of the directory that it
/// lies in, or under `category` where it lies at the start of the way.
pub open spec fn candidate_at(category: Option<Seq<char>>, trail: Seq<EntryView>) -> CandidateView {
    CandidateView {
        path: trail.last().path,
        name: trail.last().name,
        category: if trail.len() == 1 {
            category
        } else {
            Some(trail[trail.len() - 2].name)
        },
        stack: stack_of(trail.last().markers),
    }
}

/// Whether some way down leads to a project.
pub open spec fn is_led_to(
    files: Map<Seq<char>, Seq<EntryView>>,
    config: ProjectConfigView,
    category: Option<Seq<char>>,
    depth: nat,
    entries: Seq<EntryView>,
    candidate: CandidateView,
) -> bool {
    exists|trail: Seq<EntryView>| #[trigger]
        leads_to_a_project(files, config, depth, entries, trail) && candidate == candidate_at(
            category,
            trail,
        )
}

proof fn lemma_what_lies_below(
    files: Map<Seq<char>, Seq<EntryView>>,
    config: ProjectConfigView,
    category: Option<Seq<char>>,
    depth: nat,
    entries: Seq<EntryView>,
    candidate: CandidateView,
)
    ensures
        below(files, config, category, depth, entries).candidates.contains(candidate) <==> is_led_to(
            files,
            config,
            category,
            depth,
            entries,
            candidate,
        ),
    decreases levels_left(config, depth), entries.len(),
{
    if entries.len() > 0 {
        let front = entries.drop_last();
        let entry = entries.last();
        let before = below(files, config, category, depth, front).candidates;
        let whole = below(files, config, category, depth, entries).candidates;
        let found = found_in(config, category, depth, entry);
        lemma_what_lies_below(files, config, category, depth, front, candidate);
        if found matches Some(FoundView::Descend { name, path }) {
            lemma_what_lies_below(
                files,
                config,
                Some(entry.name),
                depth + 1,
                listed(files, entry.path),
                candidate,
            );
        }
        if whole.contains(candidate) {
            let k = whole.index_of(candidate);
            if k < before.len() {
                assert(before[k] == candidate);
                let trail = choose|trail: Seq<EntryView>| #[trigger]
                    leads_to_a_project(files, config, depth, front, trail) && candidate
                        == candidate_at(category, trail);
                let at = front.index_of(trail[0]);
                assert(entries[at] == trail[0]);
                assert(leads_to_a_project(files, config, depth, entries, trail));
            } else {
                match found {
                    Some(FoundView::Project(_)) => {
                        let trail = seq![entry];
                        assert(entries[entries.len() - 1] == trail[0]);
                        assert(leads_to_a_project(files, config, depth, entries, trail));
                        assert(candidate == candidate_at(category, trail));
                    },
                    Some(FoundView::Descend { name, path }) => {
                        let inner = listed(files, entry.path);
                        let inside = below(
                            files,
                            config,
                            Some(entry.name),
                            depth + 1,
                            inner,
                        ).candidates;
                        assert(inside[k - before.len()] == candidate);
                        let rest = choose|trail: Seq<EntryView>| #[trigger]
                            leads_to_a_project(files, config, depth + 1, inner, trail) && candidate
                                == candidate_at(Some(entry.name), trail);
                        let trail = seq![entry] + rest;
                        assert(trail.skip(1) =~= rest);
                        assert(entries[entries.len() - 1] == trail[0]);
                        assert(leads_to_a_project(files, config, depth, entries, trail));
                        assert(candidate == candidate_at(category, trail));
                    },
                    None => {},
                }
            }
        }
        if is_led_to(files, config, category, depth, entries, candidate) {
            let trail = choose|trail: Seq<EntryView>| #[trigger]
                leads_to_a_project(files, config, depth, entries, trail) && candidate
                    == candidate_at(category, trail);
            let at = entries.index_of(trail[0]);
            assert(entries[at] == trail[0]);
            if at < front.len() {
                assert(front[at] == trail[0]);
                assert(leads_to_a_project(files, config, depth, front, trail));
                let k = before.index_of(candidate);
                assert(whole[k] == candidate);
            } else {
                assert(trail[0] == entry);
                if trail.len() == 1 {
                    assert(whole[before.len() as int] == candidate);
                } else {
                    let inner = listed(files, entry.path);
                    let inside = below(files, config, Some(entry.name), depth + 1, inner).candidates;
                    let rest = trail.skip(1);
                    assert(candidate == candidate_at(Some(entry.name), rest));
                    assert(leads_to_a_project(files, config, depth + 1, inner, rest));
                    assert(is_led_to(
                        files,
                        config,
                        Some(entry.name),
                        depth + 1,
                        inner,
                        candidate,
                    ));
                    let k = inside.index_of(candidate);
                    assert(whole[before.len() + k] == candidate);
                }
            }
        }
    }
}

/// A search finds exactly the projects that some way down from the root leads
/// to. A project directly in the root has no category; any other goes by the
/// name of the directory it lies in.
pub proof fn law_a_search_finds_what_the_tree_holds(
    files: Map<Seq<char>, Seq<EntryView>>,
    config: ProjectConfigView,
    root: Seq<char>,
    candidate: CandidateView,
)
    requires
        files.contains_key(root),
    ensures
        comes_of(files, config, root_item(root)).candidates.contains(candidate) <==> exists|
            trail: Seq<EntryView>,
        | #[trigger]
            leads_to_a_project(files, config, 1, files[root], trail) && candidate == candidate_at(
                None,
                trail,
            ),
{
    lemma_what_lies_below(files, config, None, 1, files[root], candidate);
}

/// Where a project lies: at most as many levels below its root as configured,
/// with no hidden and no ignored directory on the way, and never inside another
/// project.
pub proof fn law_where_projects_lie(
    files: Map<Seq<char>, Seq<EntryView>>,
    config: ProjectConfigView,
    depth: nat,
    entries: Seq<EntryView>,
    trail: Seq<EntryView>,
)
    requires
        leads_to_a_project(files, config, depth, entries, trail),
    ensures
        trail.len() == 1 || depth + trail.len() - 1 <= config.max_depth,
        forall|i: int| 0 <= i < trail.len() ==> is_walked(config, #[trigger] trail[i]),
        forall|i: int| 0 <= i < trail.len() - 1 ==> (#[trigger] trail[i]).markers.len() == 0,
        trail.last().markers.len() > 0,
        forall|i: int|
            0 <= i < trail.len() - 1 ==> listed(files, (#[trigger] trail[i]).path).contains(
                trail[i + 1],
            ),
    decreases trail.len(),
{
    reveal_with_fuel(leads_to_a_project, 2);
    if trail.len() > 1 {
        let rest = trail.skip(1);
        law_where_projects_lie(
            files,
            config,
            depth + 1,
            listed(files, trail[0].path),
            rest,
        );
        assert forall|i: int| 0 <= i < trail.len() implies is_walked(
            config,
            #[trigger] trail[i],
        ) by {
            if i > 0 {
                assert(rest[i - 1] == trail[i]);
            }
        }
        assert forall|i: int| 0 <= i < trail.len() - 1 implies (
        #[trigger] trail[i]).markers.len() == 0 && listed(files, trail[i].path).contains(
            trail[i + 1],
        ) by {
            if i > 0 {
                assert(rest[i - 1] == trail[i]);
                assert(rest[i] == trail[i + 1]);
            } else {
                assert(rest[0] == trail[1]);
            }
        }
        assert(rest.last() == trail.last());
    }
}

/// The event about a root that is no directory.
pub open spec fn root_failed(root: Seq<char>) -> ScanEventView {
    ScanEventView::Failed { path: root, reason: "not a readable directory"@ }
}

/// What is reported before anything is asked about a project: the roots that
/// could not be searched, and the total where there is no project to ask about.
pub open spec fn opening(learned: SearchedView) -> Seq<ScanEventView> {
    learned.failures.map_values(|root: Seq<char>| root_failed(root)) + if learned.candidates.len()
        == 0 {
        seq![ScanEventView::Finished { scanned: learned.examined as usize }]
    } else {
        seq![]
    }
}

/// What is reported once a project has been asked about, with this many not
/// answered for before: the project, and after the last one the total.
pub open spec fn answered(left: nat, examined: usize, report: ScanEventView) -> Seq<ScanEventView> {
    if left == 1 {
        seq![report, ScanEventView::Finished { scanned: examined }]
    } else {
        seq![report]
    }
}

/// What is reported as the projects are answered for, in whatever order that is.
pub open spec fn all_answered(
    left: nat,
    examined: usize,
    reports: Seq<ScanEventView>,
) -> Seq<ScanEventView>
    decreases reports.len(),
{
    if reports.len() == 0 {
        seq![]
    } else {
        answered(left, examined, reports[0]) + all_answered(
            (left - 1) as nat,
            examined,
            reports.skip(1),
        )
    }
}

/// The projects that are asked about, by however many at once.
pub struct Asking {
    queue: Vec<Candidate>,
    /// How many are not answered for, those under way among them.
    left: usize,
    examined: usize,
}

/// How far the asking has come.
#[verifier::ext_equal]
pub struct AskingView {
    pub queue: Seq<CandidateView>,
    pub left: nat,
    pub examined: usize,
}

impl View for Asking {
    type V = AskingView;

    closed spec fn view(&self) -> AskingView {
        AskingView {
            queue: views(self.queue@),
            left: self.left as nat,
            examined: self.examined,
        }
    }
}

impl Asking {
    /// Starts asking about what a search found. Gives what is reported at once.
    pub fn start(learned: Searched) -> (started: (Asking, Vec<ScanEvent>))
        ensures
            started.0@ == (AskingView {
                queue: learned@.candidates,
                left: learned@.candidates.len(),
                examined: learned.examined,
            }),
            views(started.1@) == opening(learned@),
    {
        broadcast use lemma_views_push;

        let ghost failed = learned@.failures.map_values(|root: Seq<char>| root_failed(root));
        let mut events: Vec<ScanEvent> = Vec::new();
        let mut i: usize = 0;
        assert(views(events@) =~= failed.take(0));
        while i < learned.failures.len()
            invariant
                i <= learned.failures@.len(),
                failed == views(learned.failures@).map_values(
                    |root: Seq<char>| root_failed(root),
                ),
                views(events@) == failed.take(i as int),
            decreases learned.failures@.len() - i,
        {
            events.push(unreadable_root(learned.failures[i].as_str()));
            assert(failed[i as int] == root_failed(learned.failures@[i as int]@));
            assert(failed.take(i + 1) =~= failed.take(i as int).push(failed[i as int]));
            i = i + 1;
        }
        assert(failed.take(i as int) =~= failed);
        if learned.candidates.len() == 0 {
            events.push(ScanEvent::Finished { scanned: learned.examined });
        }
        assert(views(events@) =~= opening(learned@));
        let left: usize = learned.candidates.len();
        let examined: usize = learned.examined;
        let asking = Asking { queue: learned.candidates, left, examined };
        (asking, events)
    }

    /// The next project to ask about.
    pub fn take(&mut self) -> (candidate: Option<Candidate>)
        ensures
            match candidate {
                Some(candidate) => {
                    &&& old(self)@.queue.len() > 0
                    &&& candidate@ == old(self)@.queue[0]
                    &&& final(self)@ == (AskingView {
                        queue: old(self)@.queue.skip(1),
                        ..old(self)@
                    })
                },
                None => old(self)@.queue.len() == 0 && final(self)@ == old(self)@,
            },
    {
        if self.queue.len() == 0 {
            return None;
        }
        let ghost before = self@;
        let candidate = self.queue.remove(0);
        assert(self@.queue =~= before.queue.skip(1));
        Some(candidate)
    }

    /// Takes in what was learned about a project. Gives what is reported then.
    pub fn answer(
        &mut self,
        candidate: Candidate,
        framework: Option<String>,
        status: Result<GitStatus, GitError>,
    ) -> (events: Vec<ScanEvent>)
        requires
            old(self)@.left > 0,
        ensures
            views(events@) == answered(
                old(self)@.left,
                old(self)@.examined,
                reported(candidate@, maybe_text(framework), status_view(status)),
            ),
            final(self)@ == (AskingView { left: (old(self)@.left - 1) as nat, ..old(self)@ }),
    {
        broadcast use lemma_views_push;

        let ghost known = answered(
            self@.left,
            self@.examined,
            reported(candidate@, maybe_text(framework), status_view(status)),
        );
        let mut events: Vec<ScanEvent> = Vec::new();
        events.push(report(candidate, framework, status));
        self.left = self.left - 1;
        if self.left == 0 {
            events.push(ScanEvent::Finished { scanned: self.examined });
        }
        assert(views(events@) =~= known);
        events
    }
}

proof fn lemma_the_total_comes_last(left: nat, examined: usize, reports: Seq<ScanEventView>)
    requires
        reports.len() == left,
        left > 0,
    ensures
        all_answered(left, examined, reports) == reports.push(
            ScanEventView::Finished { scanned: examined },
        ),
    decreases left,
{
    let rest = reports.skip(1);
    if left == 1 {
        assert(rest.len() == 0);
        assert(all_answered(0, examined, rest) =~= seq![]);
    } else {
        lemma_the_total_comes_last((left - 1) as nat, examined, rest);
    }
    assert(all_answered(left, examined, reports) =~= reports.push(
        ScanEventView::Finished { scanned: examined },
    ));
}

/// Whatever is reported of the projects, and in whatever order, comes after the
/// roots that could not be searched and before, once, how many directories were
/// examined.
pub proof fn law_a_scan_reports_everything_once(learned: SearchedView, reports: Seq<ScanEventView>)
    requires
        reports.len() == learned.candidates.len(),
    ensures
        opening(learned) + all_answered(reports.len(), learned.examined as usize, reports)
            == learned.failures.map_values(|root: Seq<char>| root_failed(root)) + reports.push(
            ScanEventView::Finished { scanned: learned.examined as usize },
        ),
{
    let total = ScanEventView::Finished { scanned: learned.examined as usize };
    let told = all_answered(reports.len(), learned.examined as usize, reports);
    if reports.len() > 0 {
        lemma_the_total_comes_last(reports.len(), learned.examined as usize, reports);
    } else {
        assert(told =~= seq![]);
    }
    assert(opening(learned) + told =~= learned.failures.map_values(
        |root: Seq<char>| root_failed(root),
    ) + reports.push(total));
}

/// What is known of a project once git and its manifests have been asked, where
/// the same path is answered the same way every time.
pub open spec fn told(
    framework: spec_fn(Seq<char>) -> Option<Seq<char>>,
    status: spec_fn(Seq<char>) -> Result<GitStatusView, GitErrorView>,
) -> spec_fn(CandidateView) -> ScanEventView {
    |candidate: CandidateView|
        reported(candidate, framework(candidate.path), status(candidate.path))
}

/// A scan at work: what is still to be asked about, what is being asked about
/// right now, and what was reported so far.
#[verifier::ext_equal]
pub struct PoolView {
    pub asking: AskingView,
    pub busy: Seq<CandidateView>,
    pub sent: Seq<ScanEventView>,
}

/// Something a worker does: it takes a project to ask about, or reports on one
/// that it has taken.
pub enum Move {
    Take,
    Answer { busy: int },
}

impl PoolView {
    /// A scan that is about to ask about what a search found.
    pub open spec fn start(learned: SearchedView) -> PoolView {
        PoolView {
            asking: AskingView {
                queue: learned.candidates,
                left: learned.candidates.len(),
                examined: learned.examined as usize,
            },
            busy: seq![],
            sent: opening(learned),
        }
    }

    /// Whether a worker can do something, of so many that there are.
    pub open spec fn allows(self, workers: nat, step: Move) -> bool {
        match step {
            Move::Take => self.busy.len() < workers && self.asking.queue.len() > 0,
            Move::Answer { busy } => 0 <= busy < self.busy.len(),
        }
    }

    /// The scan after a worker did something: [`Asking::take`] and
    /// [`Asking::answer`], with what they report.
    pub open spec fn after(
        self,
        told: spec_fn(CandidateView) -> ScanEventView,
        step: Move,
    ) -> PoolView {
        match step {
            Move::Take => PoolView {
                asking: AskingView { queue: self.asking.queue.skip(1), ..self.asking },
                busy: self.busy.push(self.asking.queue[0]),
                ..self
            },
            Move::Answer { busy } => PoolView {
                asking: AskingView { left: (self.asking.left - 1) as nat, ..self.asking },
                busy: self.busy.remove(busy),
                sent: self.sent + answered(
                    self.asking.left,
                    self.asking.examined,
                    told(self.busy[busy]),
                ),
            },
        }
    }

    /// Whether nothing is left to be asked about.
    pub open spec fn is_done(self) -> bool {
        self.asking.queue.len() == 0 && self.busy.len() == 0
    }

    /// Whether so many workers can do all this, one thing after the other.
    pub open spec fn can_run(
        self,
        workers: nat,
        told: spec_fn(CandidateView) -> ScanEventView,
        steps: Seq<Move>,
    ) -> bool
        decreases steps.len(),
    {
        steps.len() == 0 || (self.allows(workers, steps[0]) && self.after(told, steps[0]).can_run(
            workers,
            told,
            steps.skip(1),
        ))
    }

    /// The scan after all this was done.
    pub open spec fn ran(
        self,
        told: spec_fn(CandidateView) -> ScanEventView,
        steps: Seq<Move>,
    ) -> PoolView
        decreases steps.len(),
    {
        if steps.len() == 0 {
            self
        } else {
            self.after(told, steps[0]).ran(told, steps.skip(1))
        }
    }

    /// What will have been reported in the end, whatever its order.
    pub open spec fn in_the_end(self, told: spec_fn(CandidateView) -> ScanEventView) -> Multiset<
        ScanEventView,
    > {
        self.sent.to_multiset().add(self.busy.map_values(told).to_multiset()).add(
            self.asking.queue.map_values(told).to_multiset(),
        ).add(
            if self.asking.left > 0 {
                Multiset::singleton(ScanEventView::Finished { scanned: self.asking.examined })
            } else {
                Multiset::empty()
            },
        )
    }

    /// What holds of a scan at any time.
    pub open spec fn is_sound(self) -> bool {
        &&& self.asking.left == self.asking.queue.len() + self.busy.len()
        &&& self.asking.left == 0 ==> self.sent.len() > 0 && self.sent.last()
            == (ScanEventView::Finished { scanned: self.asking.examined })
    }
}

proof fn lemma_a_move_changes_nothing_in_the_end(
    pool: PoolView,
    workers: nat,
    told: spec_fn(CandidateView) -> ScanEventView,
    step: Move,
)
    requires
        pool.is_sound(),
        pool.allows(workers, step),
    ensures
        pool.after(told, step).is_sound(),
        pool.after(told, step).asking.examined == pool.asking.examined,
        pool.after(told, step).in_the_end(told) == pool.in_the_end(told),
{
    broadcast use vstd::multiset::group_multiset_axioms;

    let next = pool.after(told, step);
    let queue = pool.asking.queue;
    match step {
        Move::Take => {
            let first = queue[0];
            let shown = queue.map_values(told);
            assert(next.busy.map_values(told) =~= pool.busy.map_values(told).push(told(first)));
            to_multiset_build(pool.busy.map_values(told), told(first));
            assert(next.asking.queue.map_values(told) =~= shown.remove(0));
            to_multiset_remove(shown, 0);
            assert(shown.contains(shown[0]));
            shown.to_multiset_ensures();
            assert(shown.to_multiset().count(shown[0]) > 0);
            assert(next.in_the_end(told) =~= pool.in_the_end(told));
        },
        Move::Answer { busy } => {
            let shown = pool.busy.map_values(told);
            let report = told(pool.busy[busy]);
            let total = ScanEventView::Finished { scanned: pool.asking.examined };
            assert(next.busy.map_values(told) =~= shown.remove(busy));
            to_multiset_remove(shown, busy);
            assert(shown[busy] == report);
            assert(shown.contains(shown[busy]));
            shown.to_multiset_ensures();
            assert(shown.to_multiset().count(report) > 0);
            to_multiset_build(pool.sent, report);
            if pool.asking.left == 1 {
                assert(next.sent =~= pool.sent.push(report).push(total));
                to_multiset_build(pool.sent.push(report), total);
            } else {
                assert(next.sent =~= pool.sent.push(report));
            }
            assert(next.in_the_end(told) =~= pool.in_the_end(told));
        },
    }
}

proof fn lemma_a_run_changes_nothing_in_the_end(
    pool: PoolView,
    workers: nat,
    told: spec_fn(CandidateView) -> ScanEventView,
    steps: Seq<Move>,
)
    requires
        pool.is_sound(),
        pool.can_run(workers, told, steps),
    ensures
        pool.ran(told, steps).is_sound(),
        pool.ran(told, steps).asking.examined == pool.asking.examined,
        pool.ran(told, steps).in_the_end(told) == pool.in_the_end(told),
    decreases steps.len(),
{
    if steps.len() > 0 {
        lemma_a_move_changes_nothing_in_the_end(pool, workers, told, steps[0]);
        lemma_a_run_changes_nothing_in_the_end(
            pool.after(told, steps[0]),
            workers,
            told,
            steps.skip(1),
        );
    }
}

/// What a scan reports, whatever its order: every root that could not be
/// searched, every project with what git said of it, and the total.
pub open spec fn scan_reports(
    learned: SearchedView,
    told: spec_fn(CandidateView) -> ScanEventView,
) -> Seq<ScanEventView> {
    learned.failures.map_values(|root: Seq<char>| root_failed(root))
        + learned.candidates.map_values(told).push(
        ScanEventView::Finished { scanned: learned.examined as usize },
    )
}

/// A finished scan has reported the same whatever the number of workers, none
/// included, and whichever of them was faster: one failure per root that is no
/// directory, per project exactly what git said of it, and the total, which
/// comes last. Only the order of what comes before the total may differ.
pub proof fn law_workers_change_the_order_alone(
    learned: SearchedView,
    workers: nat,
    framework: spec_fn(Seq<char>) -> Option<Seq<char>>,
    status: spec_fn(Seq<char>) -> Result<GitStatusView, GitErrorView>,
    steps: Seq<Move>,
)
    requires
        PoolView::start(learned).can_run(pool_size(workers), told(framework, status), steps),
        PoolView::start(learned).ran(told(framework, status), steps).is_done(),
    ensures
        ({
            let told = told(framework, status);
            let sent = PoolView::start(learned).ran(told, steps).sent;
            &&& sent.to_multiset() == scan_reports(learned, told).to_multiset()
            &&& sent.len() > 0
            &&& sent.last() == (ScanEventView::Finished { scanned: learned.examined as usize })
        }),
{
    broadcast use vstd::multiset::group_multiset_axioms;

    let told = told(framework, status);
    let start = PoolView::start(learned);
    let end = start.ran(told, steps);
    let failures = learned.failures.map_values(|root: Seq<char>| root_failed(root));
    let reports = learned.candidates.map_values(told);
    let total = ScanEventView::Finished { scanned: learned.examined as usize };
    if learned.candidates.len() == 0 {
        assert(opening(learned).last() == total);
        assert(reports =~= seq![]);
        assert(opening(learned) =~= failures + reports.push(total));
    } else {
        assert(opening(learned) =~= failures);
    }
    lemma_a_run_changes_nothing_in_the_end(start, pool_size(workers), told, steps);
    lemma_multiset_commutative(failures, reports.push(total));
    to_multiset_build(reports, total);
    assert(start.busy.map_values(told) =~= seq![]);
    assert(end.busy.map_values(told) =~= seq![]);
    assert(end.asking.queue.map_values(told) =~= seq![]);
    Seq::<ScanEventView>::empty().to_multiset_ensures();
    assert(Seq::<ScanEventView>::empty().to_multiset() =~= Multiset::empty());
    assert(start.in_the_end(told) =~= scan_reports(learned, told).to_multiset());
    assert(end.in_the_end(told) =~= end.sent.to_multiset());
}

/// A scan that is not finished can always go on, and with every step there is
/// less to do, so it comes to its end.
pub proof fn law_a_scan_comes_to_its_end(
    pool: PoolView,
    workers: nat,
    told: spec_fn(CandidateView) -> ScanEventView,
)
    ensures
        !pool.is_done() ==> exists|step: Move| #[trigger] pool.allows(pool_size(workers), step),
        forall|step: Move| #[trigger]
            pool.allows(pool_size(workers), step) ==> {
                let next = pool.after(told, step);
                2 * next.asking.queue.len() + next.busy.len() < 2 * pool.asking.queue.len()
                    + pool.busy.len()
            },
{
    if pool.busy.len() > 0 {
        assert(pool.allows(pool_size(workers), Move::Answer { busy: 0 }));
    } else if pool.asking.queue.len() > 0 {
        assert(pool.allows(pool_size(workers), Move::Take));
    }
}

/// A root that cannot be read is told by its path and holds nothing; one that can
/// be is no failure, and no directory below it is.
pub proof fn law_only_roots_can_fail(
    files: Map<Seq<char>, Seq<EntryView>>,
    config: ProjectConfigView,
    root: Seq<char>,
)
    ensures
        !files.contains_key(root) ==> comes_of(files, config, root_item(root)) == (SearchedView {
            failures: seq![root],
            candidates: seq![],
            examined: 0,
        }),
        files.contains_key(root) ==> comes_of(files, config, root_item(root)).failures.len() == 0,
{
    if files.contains_key(root) {
        lemma_nothing_below_fails(files, config, None, 1, files[root]);
    }
}

proof fn lemma_nothing_below_fails(
    files: Map<Seq<char>, Seq<EntryView>>,
    config: ProjectConfigView,
    category: Option<Seq<char>>,
    depth: nat,
    entries: Seq<EntryView>,
)
    ensures
        below(files, config, category, depth, entries).failures.len() == 0,
    decreases levels_left(config, depth), entries.len(),
{
    if entries.len() > 0 {
        lemma_nothing_below_fails(files, config, category, depth, entries.drop_last());
        if let Some(FoundView::Descend { name, path }) = found_in(
            config,
            category,
            depth,
            entries.last(),
        ) {
            if depth < config.max_depth {
                lemma_nothing_below_fails(
                    files,
                    config,
                    Some(name),
                    depth + 1,
                    listed(files, path),
                );
            }
        }
    }
}

/// What a search examines is every entry it looks into, at every level: one for
/// the entry itself and, where it is walked into, those below it, which are in
/// the category of its name.
pub proof fn law_every_level_is_examined(
    files: Map<Seq<char>, Seq<EntryView>>,
    config: ProjectConfigView,
    category: Option<Seq<char>>,
    depth: nat,
    entries: Seq<EntryView>,
    entry: EntryView,
)
    ensures
        ({
            let before = below(files, config, category, depth, entries);
            let all = below(files, config, category, depth, entries.push(entry));
            let looked_into = entry.is_dir && (entry.name.len() == 0 || entry.name[0] != '.')
                && !config.ignore.contains(entry.name);
            let inside = below(files, config, Some(entry.name), depth + 1, listed(files, entry.path));
            &&& !looked_into ==> all.examined == before.examined && all.candidates
                == before.candidates
            &&& looked_into && entry.markers.len() > 0 ==> all.examined == before.examined + 1
                && all.candidates.len() == before.candidates.len() + 1
            &&& looked_into && entry.markers.len() == 0 && depth < config.max_depth ==> all.examined
                == before.examined + 1 + inside.examined && all.candidates == before.candidates
                + inside.candidates
            &&& looked_into && entry.markers.len() == 0 && depth >= config.max_depth
                ==> all.examined == before.examined + 1 && all.candidates == before.candidates
        }),
{
    assert(entries.push(entry).drop_last() =~= entries);
    let before = below(files, config, category, depth, entries);
    let inside = below(files, config, Some(entry.name), depth + 1, listed(files, entry.path));
    assert(before.candidates + (Seq::<CandidateView>::empty() + Seq::<CandidateView>::empty())
        =~= before.candidates);
    assert(before.candidates + (Seq::<CandidateView>::empty() + inside.candidates)
        =~= before.candidates + inside.candidates);
}

/// Roots are searched in the order they are configured, and what one holds does
/// not change what another does.
pub proof fn law_roots_are_searched_in_turn(
    files: Map<Seq<char>, Seq<EntryView>>,
    config: ProjectConfigView,
    first: Seq<char>,
    rest: Seq<Seq<char>>,
)
    ensures
        ({
            let all = all_come_to(files, config, root_items(seq![first] + rest));
            let one = comes_of(files, config, root_item(first));
            let others = all_come_to(files, config, root_items(rest));
            &&& all.candidates == one.candidates + others.candidates
            &&& all.failures == one.failures + others.failures
            &&& all.examined == one.examined + others.examined
        }),
        all_come_to(files, config, root_items(seq![])) == SearchedView::nothing(),
{
    let items = root_items(seq![first] + rest);
    assert(items[0] == root_item(first));
    assert(items.skip(1) =~= root_items(rest));
}

} // verus!
