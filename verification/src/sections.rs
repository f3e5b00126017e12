//! A configuration file as plain values, and how a section of it is read.
//!
//! `toml` reads the text. What may stand in a section, what it defaults to and
//! what is refused is decided here.

use crate::entries::{entry_of, find_entry};
use crate::platform::Platform;
use crate::text::{has_part, lemma_views_push, parts_of, views};
use vstd::prelude::*;
use vstd::string::*;

verus! {

/// A TOML value.
#[derive(Debug)]
pub enum Toml {
    Text(String),
    Integer(i64),
    Boolean(bool),
    /// A float or a date.
    Other,
    Items(Vec<Toml>),
    /// The entries of a table, each name once.
    Table(Vec<(String, Toml)>),
}

/// What a TOML value says.
#[verifier::ext_equal]
pub enum TomlView {
    Text(Seq<char>),
    Integer(i64),
    Boolean(bool),
    Other,
    Items(Seq<TomlView>),
    Table(Seq<(Seq<char>, TomlView)>),
}

/// What a value says, member by member.
pub open spec fn said_by(value: Toml) -> TomlView
    decreases value,
{
    match value {
        Toml::Text(text) => TomlView::Text(text@),
        Toml::Integer(number) => TomlView::Integer(number),
        Toml::Boolean(flag) => TomlView::Boolean(flag),
        Toml::Other => TomlView::Other,
        Toml::Items(items) => TomlView::Items(
            Seq::new(
                items@.len(),
                |i: int|
                    if 0 <= i < items@.len() {
                        said_by(items@[i])
                    } else {
                        TomlView::Other
                    },
            ),
        ),
        Toml::Table(entries) => TomlView::Table(
            Seq::new(
                entries@.len(),
                |i: int|
                    if 0 <= i < entries@.len() {
                        (entries@[i].0@, said_by(entries@[i].1))
                    } else {
                        (Seq::empty(), TomlView::Other)
                    },
            ),
        ),
    }
}

impl View for Toml {
    type V = TomlView;

    open spec fn view(&self) -> TomlView {
        said_by(*self)
    }
}

/// `toml::Value`, the tree that `toml` reads a text into.
#[verifier::external_type_specification]
#[verifier::external_body]
pub struct ExTomlValue(toml::Value);

/// The table that a text writes, or why it writes none: what `toml::from_str`
/// makes of the text.
pub uninterp spec fn toml_document(text: Seq<char>) -> Result<
    Seq<(Seq<char>, TomlView)>,
    Seq<char>,
>;

/// A `toml::Value` in this crate's own terms, variant by variant. A table's
/// entries come in the order the map gives them.
#[verifier::external_body]
fn plain(value: toml::Value) -> (own: Toml) {
    match value {
        toml::Value::String(text) => Toml::Text(text),
        toml::Value::Integer(number) => Toml::Integer(number),
        toml::Value::Float(_) => Toml::Other,
        toml::Value::Boolean(flag) => Toml::Boolean(flag),
        toml::Value::Datetime(_) => Toml::Other,
        toml::Value::Array(items) => Toml::Items(items.into_iter().map(plain).collect()),
        toml::Value::Table(entries) => Toml::Table(
            entries.into_iter().map(|(name, value)| (name, plain(value))).collect(),
        ),
    }
}

/// `toml::from_str` into a `toml::Table`: the entries of the document or the
/// error's own words, both decided by the text alone.
#[verifier::external_body]
pub(crate) fn parse(text: &str) -> (document: Result<Vec<(String, Toml)>, String>)
    ensures
        match document {
            Ok(table) => toml_document(text@) == Ok::<Seq<(Seq<char>, TomlView)>, Seq<char>>(
                views(table@),
            ),
            Err(reason) => toml_document(text@) == Err::<Seq<(Seq<char>, TomlView)>, Seq<char>>(
                reason@,
            ),
        },
{
    toml::from_str::<toml::Table>(text).map(
        |table| table.into_iter().map(|(name, value)| (name, plain(value))).collect(),
    ).map_err(|error| error.to_string())
}

/// The items of a list, as a list of what they stand for.
pub proof fn lemma_items_view(items: Vec<Toml>)
    ensures
        (Toml::Items(items))@ == TomlView::Items(views(items@)),
{
    assert(said_by(Toml::Items(items))->Items_0 =~= views(items@));
}

/// The entries of a table, as a list of what they stand for.
pub proof fn lemma_table_view(entries: Vec<(String, Toml)>)
    ensures
        (Toml::Table(entries))@ == TomlView::Table(views(entries@)),
{
    assert(said_by(Toml::Table(entries))->Table_0 =~= views(entries@));
}

impl Toml {
    /// A copy of the value.
    pub fn copy(&self) -> (copy: Toml)
        ensures
            copy@ == self@,
        decreases self,
    {
        match self {
            Toml::Text(text) => Toml::Text(text.clone()),
            Toml::Integer(number) => Toml::Integer(*number),
            Toml::Boolean(flag) => Toml::Boolean(*flag),
            Toml::Other => Toml::Other,
            Toml::Items(items) => {
                let ghost all = views(items@);
                let mut list: Vec<Toml> = Vec::new();
                let mut i: usize = 0;
                assert(views(list@) =~= all.take(0));
                while i < items.len()
                    invariant
                        i <= items@.len(),
                        *self == Toml::Items(*items),
                        all == views(items@),
                        views(list@) == all.take(i as int),
                    decreases items@.len() - i,
                {
                    let ghost before = list@;
                    assert(decreases_to!(*self => self->Items_0));
                    assert(decreases_to!(items => items@));
                    assert(decreases_to!(items@ => items@[i as int]));
                    list.push(items[i].copy());
                    assert(views(list@) =~= views(before).push(all[i as int]));
                    assert(all.take(i + 1) =~= all.take(i as int).push(all[i as int]));
                    i = i + 1;
                }
                assert(all.take(i as int) =~= all);
                proof {
                    lemma_items_view(list);
                    lemma_items_view(*items);
                }
                Toml::Items(list)
            },
            Toml::Table(entries) => {
                let ghost all = views(entries@);
                let mut list: Vec<(String, Toml)> = Vec::new();
                let mut i: usize = 0;
                assert(views(list@) =~= all.take(0));
                while i < entries.len()
                    invariant
                        i <= entries@.len(),
                        *self == Toml::Table(*entries),
                        all == views(entries@),
                        views(list@) == all.take(i as int),
                    decreases entries@.len() - i,
                {
                    let ghost before = list@;
                    assert(decreases_to!(*self => self->Table_0));
                    assert(decreases_to!(entries => entries@));
                    assert(decreases_to!(entries@ => entries@[i as int]));
                    assert(decreases_to!(entries@[i as int] => entries@[i as int].1));
                    list.push((entries[i].0.clone(), entries[i].1.copy()));
                    assert(views(list@) =~= views(before).push(all[i as int]));
                    assert(all.take(i + 1) =~= all.take(i as int).push(all[i as int]));
                    i = i + 1;
                }
                assert(all.take(i as int) =~= all);
                proof {
                    lemma_table_view(list);
                    lemma_table_view(*entries);
                }
                Toml::Table(list)
            },
        }
    }
}

/// How many of the items have a key to go to.
pub open spec fn placed(keys: Seq<Seq<char>>, items: Seq<TomlView>) -> nat {
    if items.len() < keys.len() {
        items.len()
    } else {
        keys.len()
    }
}

/// A list read as a table: the items go to the keys in their order, and what
/// comes after the last key is not looked at.
pub open spec fn by_place(keys: Seq<Seq<char>>, items: Seq<TomlView>) -> Seq<
    (Seq<char>, TomlView),
> {
    Seq::new(placed(keys, items), |i: int| (keys[i], items[i]))
}

/// The table that a value stands for: a table itself, or a list where the keys
/// have an order.
pub open spec fn table_of(keys: Option<Seq<Seq<char>>>, value: TomlView) -> Option<
    Seq<(Seq<char>, TomlView)>,
> {
    match value {
        TomlView::Table(entries) => Some(entries),
        TomlView::Items(items) => match keys {
            Some(keys) => Some(by_place(keys, items)),
            None => None,
        },
        _ => None,
    }
}

/// What fixed names hold, where there are any.
pub open spec fn maybe_parts(names: Option<Vec<&'static str>>) -> Option<Seq<Seq<char>>> {
    match names {
        Some(names) => Some(parts_of(names@)),
        None => None,
    }
}

/// The table that a value stands for.
pub fn as_table(keys: &Option<Vec<&'static str>>, value: &Toml) -> (table: Option<
    Vec<(String, Toml)>,
>)
    ensures
        match table {
            Some(table) => table_of(maybe_parts(*keys), value@) == Some(views(table@)),
            None => table_of(maybe_parts(*keys), value@) is None,
        },
{
    match value {
        Toml::Table(_) => match value.copy() {
            Toml::Table(entries) => {
                proof {
                    lemma_table_view(entries);
                }
                Some(entries)
            },
            _ => None,
        },
        Toml::Items(items) => match keys {
            Some(keys) => {
                proof {
                    lemma_items_view(*items);
                }
                let ghost names = parts_of(keys@);
                let ghost all = by_place(names, views(items@));
                let mut table: Vec<(String, Toml)> = Vec::new();
                let mut i: usize = 0;
                assert(views(table@) =~= all.take(0));
                while i < items.len() && i < keys.len()
                    invariant
                        i <= items@.len(),
                        i <= keys@.len(),
                        names == parts_of(keys@),
                        all == by_place(names, views(items@)),
                        views(table@) == all.take(i as int),
                    decreases items@.len() - i,
                {
                    let ghost before = table@;
                    table.push((keys[i].to_owned(), items[i].copy()));
                    assert(all[i as int] == (names[i as int], views(items@)[i as int]));
                    assert(views(table@) =~= views(before).push(all[i as int]));
                    assert(all.take(i + 1) =~= all.take(i as int).push(all[i as int]));
                    i = i + 1;
                }
                assert(all.take(i as int) =~= all);
                Some(table)
            },
            None => None,
        },
        _ => None,
    }
}

/// What is wrong with a section.
#[derive(Debug)]
pub enum Problem {
    /// A key nobody reads. Said rather than ignored, so a typo does not pass
    /// silently.
    UnknownKey { section: String, key: String },
    /// A value of the wrong kind.
    WrongKind { section: String, key: String, wanted: &'static str },
}

/// What a problem says.
#[verifier::ext_equal]
pub enum ProblemView {
    UnknownKey { section: Seq<char>, key: Seq<char> },
    WrongKind { section: Seq<char>, key: Seq<char>, wanted: Seq<char> },
}

impl View for Problem {
    type V = ProblemView;

    open spec fn view(&self) -> ProblemView {
        match self {
            Problem::UnknownKey { section, key } => ProblemView::UnknownKey {
                section: section@,
                key: key@,
            },
            Problem::WrongKind { section, key, wanted } => ProblemView::WrongKind {
                section: section@,
                key: key@,
                wanted: wanted@,
            },
        }
    }
}

/// The sentence that reports a problem.
pub open spec fn problem_text(problem: ProblemView) -> Seq<char> {
    match problem {
        ProblemView::UnknownKey { section, key } => "unknown key `"@ + key + "` in ["@ + section
            + "]"@,
        ProblemView::WrongKind { section, key, wanted } => "`"@ + key + "` in ["@ + section
            + "] must be "@ + wanted,
    }
}

impl Problem {
    /// The sentence that reports this problem.
    pub fn to_string(&self) -> (text: String)
        ensures
            text@ == problem_text(self@),
    {
        match self {
            Problem::UnknownKey { section, key } => {
                let mut text = "unknown key `".to_owned();
                text.append(key.as_str());
                text.append("` in [");
                text.append(section.as_str());
                text.append("]");
                text
            },
            Problem::WrongKind { section, key, wanted } => {
                let mut text = "`".to_owned();
                text.append(key.as_str());
                text.append("` in [");
                text.append(section.as_str());
                text.append("] must be ");
                text.append(wanted);
                text
            },
        }
    }
}

/// A value of the wrong kind, and what was wanted.
pub open spec fn wrong_kind(section: Seq<char>, key: Seq<char>, wanted: Seq<char>) -> ProblemView {
    ProblemView::WrongKind { section, key, wanted }
}

fn wrong(section: &str, key: &str, wanted: &'static str) -> (problem: Problem)
    ensures
        problem@ == wrong_kind(section@, key@, wanted@),
{
    Problem::WrongKind { section: section.to_owned(), key: key.to_owned(), wanted }
}

/// The first key of a table that is not among the known ones.
pub open spec fn first_unknown(
    table: Seq<(Seq<char>, TomlView)>,
    known: Seq<Seq<char>>,
) -> Option<Seq<char>>
    decreases table.len(),
{
    if table.len() == 0 {
        None
    } else if !known.contains(table[0].0) {
        Some(table[0].0)
    } else {
        first_unknown(table.skip(1), known)
    }
}

/// A table without unknown keys has none anywhere, and one with an unknown key
/// is found out.
pub proof fn lemma_first_unknown(table: Seq<(Seq<char>, TomlView)>, known: Seq<Seq<char>>)
    ensures
        first_unknown(table, known) is None <==> forall|i: int|
            0 <= i < table.len() ==> known.contains((#[trigger] table[i]).0),
    decreases table.len(),
{
    if table.len() > 0 {
        let rest = table.skip(1);
        lemma_first_unknown(rest, known);
        if known.contains(table[0].0) && first_unknown(rest, known) is None {
            assert forall|i: int| 0 <= i < table.len() implies known.contains(
                (#[trigger] table[i]).0,
            ) by {
                if i > 0 {
                    assert(rest[i - 1] == table[i]);
                }
            }
        }
        if forall|i: int| 0 <= i < table.len() ==> known.contains((#[trigger] table[i]).0) {
            assert forall|i: int| 0 <= i < rest.len() implies known.contains(
                (#[trigger] rest[i]).0,
            ) by {
                assert(rest[i] == table[i + 1]);
            }
            assert(known.contains(table[0].0));
        }
    }
}

/// Finds a key that nobody reads.
pub fn check_keys(section: &str, table: &[(String, Toml)], known: &[&str]) -> (checked: Result<
    (),
    Problem,
>)
    ensures
        match checked {
            Ok(_) => first_unknown(views(table@), parts_of(known@)) is None,
            Err(problem) => first_unknown(views(table@), parts_of(known@)) matches Some(key)
                && problem@ == (ProblemView::UnknownKey { section: section@, key }),
        },
{
    let ghost all = views(table@);
    let mut i: usize = 0;
    assert(all.skip(0) =~= all);
    while i < table.len()
        invariant
            i <= table@.len(),
            all == views(table@),
            first_unknown(all, parts_of(known@)) == first_unknown(
                all.skip(i as int),
                parts_of(known@),
            ),
        decreases table@.len() - i,
    {
        assert(all.skip(i as int)[0] == table@[i as int]@);
        assert(all.skip(i as int).skip(1) =~= all.skip(i + 1));
        if !has_part(known, table[i].0.as_str()) {
            return Err(
                Problem::UnknownKey { section: section.to_owned(), key: table[i].0.clone() },
            );
        }
        i = i + 1;
    }
    Ok(())
}

/// A key that is a whole number from zero up to a limit, or missing.
pub open spec fn number_key(
    section: Seq<char>,
    table: Seq<(Seq<char>, TomlView)>,
    key: Seq<char>,
    limit: nat,
) -> Result<Option<nat>, ProblemView> {
    match entry_of(table, key) {
        None => Ok(None),
        Some(TomlView::Integer(number)) => if 0 <= number <= limit {
            Ok(Some(number as nat))
        } else {
            Err(wrong_kind(section, key, "a whole number in range"@))
        },
        Some(_) => Err(wrong_kind(section, key, "a whole number in range"@)),
    }
}

/// Reads a whole number.
pub fn read_number(section: &str, table: &[(String, Toml)], key: &str, limit: u64) -> (number:
    Result<Option<u64>, Problem>)
    ensures
        match number {
            Ok(Some(n)) => number_key(section@, views(table@), key@, limit as nat) == Ok::<
                Option<nat>,
                ProblemView,
            >(Some(n as nat)) && n <= limit,
            Ok(None) => number_key(section@, views(table@), key@, limit as nat) == Ok::<
                Option<nat>,
                ProblemView,
            >(None),
            Err(problem) => number_key(section@, views(table@), key@, limit as nat) == Err::<
                Option<nat>,
                ProblemView,
            >(problem@),
        },
{
    match find_entry(table, key) {
        None => Ok(None),
        Some(Toml::Integer(number)) => if *number >= 0 && *number as u64 <= limit {
            Ok(Some(*number as u64))
        } else {
            Err(wrong(section, key, "a whole number in range"))
        },
        Some(_) => Err(wrong(section, key, "a whole number in range")),
    }
}

/// A key that is a text, or missing.
pub open spec fn text_key(
    section: Seq<char>,
    table: Seq<(Seq<char>, TomlView)>,
    key: Seq<char>,
) -> Result<Option<Seq<char>>, ProblemView> {
    match entry_of(table, key) {
        None => Ok(None),
        Some(TomlView::Text(text)) => Ok(Some(text)),
        Some(_) => Err(wrong_kind(section, key, "a text"@)),
    }
}

/// Reads a text.
pub fn read_text(section: &str, table: &[(String, Toml)], key: &str) -> (text: Result<
    Option<String>,
    Problem,
>)
    ensures
        match text {
            Ok(Some(text)) => text_key(section@, views(table@), key@) == Ok::<
                Option<Seq<char>>,
                ProblemView,
            >(Some(text@)),
            Ok(None) => text_key(section@, views(table@), key@) == Ok::<
                Option<Seq<char>>,
                ProblemView,
            >(None),
            Err(problem) => text_key(section@, views(table@), key@) == Err::<
                Option<Seq<char>>,
                ProblemView,
            >(problem@),
        },
{
    match find_entry(table, key) {
        None => Ok(None),
        Some(Toml::Text(text)) => Ok(Some(text.clone())),
        Some(_) => Err(wrong(section, key, "a text")),
    }
}

/// A key that is true or false, or missing.
pub open spec fn flag_key(
    section: Seq<char>,
    table: Seq<(Seq<char>, TomlView)>,
    key: Seq<char>,
) -> Result<Option<bool>, ProblemView> {
    match entry_of(table, key) {
        None => Ok(None),
        Some(TomlView::Boolean(flag)) => Ok(Some(flag)),
        Some(_) => Err(wrong_kind(section, key, "true or false"@)),
    }
}

/// Reads a flag.
pub fn read_flag(section: &str, table: &[(String, Toml)], key: &str) -> (flag: Result<
    Option<bool>,
    Problem,
>)
    ensures
        match flag {
            Ok(flag) => flag_key(section@, views(table@), key@) == Ok::<Option<bool>, ProblemView>(
                flag,
            ),
            Err(problem) => flag_key(section@, views(table@), key@) == Err::<
                Option<bool>,
                ProblemView,
            >(problem@),
        },
{
    match find_entry(table, key) {
        None => Ok(None),
        Some(Toml::Boolean(flag)) => Ok(Some(*flag)),
        Some(_) => Err(wrong(section, key, "true or false")),
    }
}

/// A list of nothing but texts.
pub open spec fn all_texts(items: Seq<TomlView>) -> Option<Seq<Seq<char>>> {
    if forall|i: int| 0 <= i < items.len() ==> #[trigger] items[i] is Text {
        Some(items.map_values(|item: TomlView| item->Text_0))
    } else {
        None
    }
}

/// A key that is a list of texts, or missing.
pub open spec fn texts_key(
    section: Seq<char>,
    table: Seq<(Seq<char>, TomlView)>,
    key: Seq<char>,
) -> Result<Option<Seq<Seq<char>>>, ProblemView> {
    match entry_of(table, key) {
        None => Ok(None),
        Some(TomlView::Items(items)) => match all_texts(items) {
            Some(texts) => Ok(Some(texts)),
            None => Err(wrong_kind(section, key, "a list of texts"@)),
        },
        Some(_) => Err(wrong_kind(section, key, "a list of texts"@)),
    }
}

/// Reads the texts of a list.
pub fn item_texts(items: &Vec<Toml>) -> (list: Option<Vec<String>>)
    ensures
        match list {
            Some(list) => all_texts(views(items@)) == Some(views(list@)),
            None => all_texts(views(items@)) is None,
        },
{
    broadcast use lemma_views_push;

    let ghost all = views(items@);
    let mut list: Vec<String> = Vec::new();
    let mut i: usize = 0;
    while i < items.len()
        invariant
            i <= items@.len(),
            all == views(items@),
            forall|j: int| 0 <= j < i ==> #[trigger] all[j] is Text,
            views(list@) == all.take(i as int).map_values(|item: TomlView| item->Text_0),
        decreases items@.len() - i,
    {
        assert(all[i as int] == items@[i as int]@);
        match &items[i] {
            Toml::Text(text) => {
                list.push(text.clone());
            },
            _ => {
                assert(!(all[i as int] is Text));
                return None;
            },
        }
        assert(all.take(i + 1).map_values(|item: TomlView| item->Text_0) =~= all.take(
            i as int,
        ).map_values(|item: TomlView| item->Text_0).push(all[i as int]->Text_0));
        i = i + 1;
    }
    assert(all.take(i as int) =~= all);
    Some(list)
}

/// Reads a list of texts.
pub fn read_texts(section: &str, table: &[(String, Toml)], key: &str) -> (texts: Result<
    Option<Vec<String>>,
    Problem,
>)
    ensures
        match texts {
            Ok(Some(texts)) => texts_key(section@, views(table@), key@) == Ok::<
                Option<Seq<Seq<char>>>,
                ProblemView,
            >(Some(views(texts@))),
            Ok(None) => texts_key(section@, views(table@), key@) == Ok::<
                Option<Seq<Seq<char>>>,
                ProblemView,
            >(None),
            Err(problem) => texts_key(section@, views(table@), key@) == Err::<
                Option<Seq<Seq<char>>>,
                ProblemView,
            >(problem@),
        },
{
    match find_entry(table, key) {
        None => Ok(None),
        Some(Toml::Items(items)) => {
            proof {
                lemma_items_view(*items);
            }
            match item_texts(items) {
                Some(texts) => Ok(Some(texts)),
                None => Err(wrong(section, key, "a list of texts")),
            }
        },
        Some(_) => Err(wrong(section, key, "a list of texts")),
    }
}

/// A part of the configuration that is read from a table.
pub trait Section: View + Sized {
    /// What holds where the section, or a key of it, is not mentioned.
    spec fn absent(platform: Platform) -> Self::V;

    /// What a table of the file makes of the section.
    spec fn read_from(
        platform: Platform,
        section: Seq<char>,
        table: Seq<(Seq<char>, TomlView)>,
    ) -> Result<Self::V, ProblemView>;

    /// The keys of the section in the order in which a list gives their values,
    /// or none where any key may be there.
    spec fn keys() -> Option<Seq<Seq<char>>>;

    /// The keys of the section, in their order.
    fn key_names() -> (names: Option<Vec<&'static str>>)
        ensures
            maybe_parts(names) == Self::keys(),
    ;

    /// What holds where the section is not mentioned.
    fn fallback(platform: Platform) -> (value: Self)
        ensures
            value@ == Self::absent(platform),
    ;

    /// Reads the section from its table.
    fn read(platform: Platform, section: &str, table: &[(String, Toml)]) -> (value: Result<
        Self,
        Problem,
    >)
        ensures
            match value {
                Ok(value) => Self::read_from(platform, section@, views(table@)) == Ok::<
                    Self::V,
                    ProblemView,
                >(value@),
                Err(problem) => Self::read_from(platform, section@, views(table@)) == Err::<
                    Self::V,
                    ProblemView,
                >(problem@),
            },
    ;
}

/// What a document makes of a section: its table, or what holds without one.
pub open spec fn section_of<T: Section>(
    platform: Platform,
    table: Seq<(Seq<char>, TomlView)>,
    name: Seq<char>,
) -> Result<T::V, ProblemView> {
    match entry_of(table, name) {
        None => Ok(T::absent(platform)),
        Some(value) => match table_of(T::keys(), value) {
            Some(entries) => T::read_from(platform, name, entries),
            None => Err(wrong_kind(seq![], name, "a table"@)),
        },
    }
}

/// Reads a section of a document.
pub fn read_section<T: Section>(platform: Platform, table: &[(String, Toml)], name: &str) -> (value:
    Result<T, Problem>)
    ensures
        match value {
            Ok(value) => section_of::<T>(platform, views(table@), name@) == Ok::<
                T::V,
                ProblemView,
            >(value@),
            Err(problem) => section_of::<T>(platform, views(table@), name@) == Err::<
                T::V,
                ProblemView,
            >(problem@),
        },
{
    match find_entry(table, name) {
        None => Ok(T::fallback(platform)),
        Some(value) => match as_table(&T::key_names(), value) {
            Some(entries) => T::read(platform, name, entries.as_slice()),
            None => {
                let problem = wrong("", name, "a table");
                proof {
                    reveal_strlit("");
                    assert(""@ =~= seq![]);
                }
                Err(problem)
            },
        },
    }
}

/// What the tables of named sections make of them, every one or the first
/// problem.
pub open spec fn named_from<T: Section>(
    platform: Platform,
    name: Seq<char>,
    entries: Seq<(Seq<char>, TomlView)>,
) -> Result<Seq<(Seq<char>, T::V)>, ProblemView>
    decreases entries.len(),
{
    if entries.len() == 0 {
        Ok(seq![])
    } else {
        match named_from::<T>(platform, name, entries.drop_last()) {
            Err(problem) => Err(problem),
            Ok(before) => {
                let (key, value) = entries.last();
                match table_of(T::keys(), value) {
                    Some(table) => match T::read_from(
                        platform,
                        name + "."@ + key,
                        table,
                    ) {
                        Ok(read) => Ok(before.push((key, read))),
                        Err(problem) => Err(problem),
                    },
                    None => Err(wrong_kind(name, key, "a table"@)),
                }
            },
        }
    }
}

proof fn lemma_first_problem_stands<T: Section>(
    platform: Platform,
    name: Seq<char>,
    entries: Seq<(Seq<char>, TomlView)>,
    n: int,
)
    requires
        0 <= n <= entries.len(),
        named_from::<T>(platform, name, entries.take(n)) is Err,
    ensures
        named_from::<T>(platform, name, entries) == named_from::<T>(
            platform,
            name,
            entries.take(n),
        ),
    decreases entries.len() - n,
{
    if n < entries.len() {
        assert(entries.take(n + 1).drop_last() =~= entries.take(n));
        lemma_first_problem_stands::<T>(platform, name, entries, n + 1);
    } else {
        assert(entries.take(n) =~= entries);
    }
}

/// What a document makes of the sections under a name; none where it is not
/// mentioned.
pub open spec fn sections_of<T: Section>(
    platform: Platform,
    table: Seq<(Seq<char>, TomlView)>,
    name: Seq<char>,
) -> Result<Seq<(Seq<char>, T::V)>, ProblemView> {
    match entry_of(table, name) {
        None => Ok(seq![]),
        Some(TomlView::Table(entries)) => named_from::<T>(platform, name, entries),
        Some(_) => Err(wrong_kind(seq![], name, "a table"@)),
    }
}

/// Reads the sections under a name.
pub fn read_sections<T: Section>(platform: Platform, table: &[(String, Toml)], name: &str) -> (list:
    Result<Vec<(String, T)>, Problem>)
    ensures
        match list {
            Ok(list) => sections_of::<T>(platform, views(table@), name@) == Ok::<
                Seq<(Seq<char>, T::V)>,
                ProblemView,
            >(views(list@)),
            Err(problem) => sections_of::<T>(platform, views(table@), name@) == Err::<
                Seq<(Seq<char>, T::V)>,
                ProblemView,
            >(problem@),
        },
{
    let mut list: Vec<(String, T)> = Vec::new();
    assert(views(list@) =~= seq![]);
    match find_entry(table, name) {
        None => Ok(list),
        Some(Toml::Table(entries)) => {
            proof {
                lemma_table_view(*entries);
            }
            let ghost all = views(entries@);
            let mut i: usize = 0;
            while i < entries.len()
                invariant
                    i <= entries@.len(),
                    all == views(entries@),
                    sections_of::<T>(platform, views(table@), name@) == named_from::<T>(
                        platform,
                        name@,
                        all,
                    ),
                    named_from::<T>(platform, name@, all.take(i as int)) == Ok::<
                        Seq<(Seq<char>, T::V)>,
                        ProblemView,
                    >(views(list@)),
                decreases entries@.len() - i,
            {
                assert(all.take(i + 1).drop_last() =~= all.take(i as int));
                assert(all.take(i + 1).last() == entries@[i as int]@);
                let key = entries[i].0.as_str();
                match as_table(&T::key_names(), &entries[i].1) {
                    Some(inner) => {
                        let mut section = name.to_owned();
                        section.append(".");
                        section.append(key);
                        match T::read(platform, section.as_str(), inner.as_slice()) {
                            Ok(read) => {
                                let ghost before = views(list@);
                                let ghost said = read@;
                                list.push((entries[i].0.clone(), read));
                                assert(views(list@) =~= before.push((key@, said)));
                            },
                            Err(problem) => {
                                proof {
                                    lemma_first_problem_stands::<T>(platform, name@, all, i + 1);
                                }
                                return Err(problem);
                            },
                        }
                    },
                    _ => {
                        proof {
                            lemma_first_problem_stands::<T>(platform, name@, all, i + 1);
                        }
                        return Err(wrong(name, key, "a table"));
                    },
                }
                i = i + 1;
            }
            assert(all.take(i as int) =~= all);
            Ok(list)
        },
        Some(_) => {
            let problem = wrong("", name, "a table");
            proof {
                reveal_strlit("");
                assert(""@ =~= seq![]);
            }
            Err(problem)
        },
    }
}

/// A section under a name that cannot be read keeps all of them from being read.
pub proof fn lemma_a_problem_is_found<T: Section>(
    platform: Platform,
    name: Seq<char>,
    entries: Seq<(Seq<char>, TomlView)>,
    j: int,
)
    requires
        0 <= j < entries.len(),
        table_of(T::keys(), entries[j].1) matches Some(table) ==> T::read_from(
            platform,
            name + "."@ + entries[j].0,
            table,
        ) is Err,
    ensures
        named_from::<T>(platform, name, entries) is Err,
    decreases entries.len(),
{
    if j < entries.len() - 1 {
        assert(entries.drop_last()[j] == entries[j]);
        lemma_a_problem_is_found::<T>(platform, name, entries.drop_last(), j);
    }
}

/// Sections under a name that are read are read one by one, each from its own
/// table.
pub proof fn lemma_read_one_by_one<T: Section>(
    platform: Platform,
    name: Seq<char>,
    entries: Seq<(Seq<char>, TomlView)>,
)
    ensures
        named_from::<T>(platform, name, entries) matches Ok(list) ==> {
            &&& list.len() == entries.len()
            &&& forall|i: int|
                0 <= i < entries.len() ==> {
                    &&& (#[trigger] list[i]).0 == entries[i].0
                    &&& table_of(T::keys(), entries[i].1) matches Some(table)
                    &&& T::read_from(platform, name + "."@ + entries[i].0, table) == Ok::<
                        T::V,
                        ProblemView,
                    >(list[i].1)
                }
        },
    decreases entries.len(),
{
    if entries.len() > 0 {
        let front = entries.drop_last();
        lemma_read_one_by_one::<T>(platform, name, front);
        if let Ok(list) = named_from::<T>(platform, name, entries) {
            let before = named_from::<T>(platform, name, front)->Ok_0;
            assert forall|i: int| 0 <= i < entries.len() implies {
                &&& (#[trigger] list[i]).0 == entries[i].0
                &&& table_of(T::keys(), entries[i].1) matches Some(table)
                &&& T::read_from(platform, name + "."@ + entries[i].0, table) == Ok::<
                    T::V,
                    ProblemView,
                >(list[i].1)
            } by {
                if i < front.len() {
                    assert(list[i] == before[i]);
                    assert(front[i] == entries[i]);
                }
            }
        }
    }
}

/// A key is read as what it is meant to hold, is not there where it is not
/// written, and is refused by its name where it holds anything else.
pub proof fn law_a_key_holds_what_it_is_meant_to(
    section: Seq<char>,
    table: Seq<(Seq<char>, TomlView)>,
    key: Seq<char>,
    text: Seq<char>,
    number: i64,
    flag: bool,
    limit: nat,
)
    ensures
        entry_of(table, key) is None ==> text_key(section, table, key) == Ok::<
            Option<Seq<char>>,
            ProblemView,
        >(None) && number_key(section, table, key, limit) == Ok::<Option<nat>, ProblemView>(None)
            && flag_key(section, table, key) == Ok::<Option<bool>, ProblemView>(None),
        entry_of(table, key) == Some(TomlView::Text(text)) ==> text_key(section, table, key) == Ok::<
            Option<Seq<char>>,
            ProblemView,
        >(Some(text)) && number_key(section, table, key, limit) is Err && flag_key(
            section,
            table,
            key,
        ) is Err,
        entry_of(table, key) == Some(TomlView::Boolean(flag)) ==> flag_key(section, table, key)
            == Ok::<Option<bool>, ProblemView>(Some(flag)) && text_key(section, table, key) is Err,
        entry_of(table, key) == Some(TomlView::Integer(number)) && 0 <= number <= limit
            ==> number_key(section, table, key, limit) == Ok::<Option<nat>, ProblemView>(
            Some(number as nat),
        ),
        entry_of(table, key) == Some(TomlView::Integer(number)) && (number < 0 || number > limit)
            ==> number_key(section, table, key, limit) is Err,
        text_key(section, table, key) matches Err(ProblemView::WrongKind { section: at, key: of, .. })
            ==> at == section && of == key,
{
}

/// A table that holds a key that is not known is refused by that key, the first
/// of them.
pub proof fn law_the_first_unknown_key_is_named(
    table: Seq<(Seq<char>, TomlView)>,
    known: Seq<Seq<char>>,
)
    ensures
        match first_unknown(table, known) {
            Some(key) => exists|i: int|
                0 <= i < table.len() && (#[trigger] table[i]).0 == key && !known.contains(key)
                    && forall|j: int| 0 <= j < i ==> known.contains((#[trigger] table[j]).0),
            None => forall|i: int| 0 <= i < table.len() ==> known.contains((#[trigger] table[i]).0),
        },
    decreases table.len(),
{
    if table.len() > 0 && known.contains(table[0].0) {
        let rest = table.skip(1);
        law_the_first_unknown_key_is_named(rest, known);
        assert forall|i: int| 0 <= i < rest.len() implies #[trigger] rest[i] == table[i + 1] by {}
        match first_unknown(rest, known) {
            Some(key) => {
                let i = choose|i: int|
                    0 <= i < rest.len() && (#[trigger] rest[i]).0 == key && !known.contains(key)
                        && forall|j: int| 0 <= j < i ==> known.contains((#[trigger] rest[j]).0);
                assert(table[i + 1].0 == key);
                assert forall|j: int| 0 <= j < i + 1 implies known.contains(
                    (#[trigger] table[j]).0,
                ) by {
                    if j > 0 {
                        assert(table[j] == rest[j - 1]);
                    }
                }
            },
            None => {
                assert forall|i: int| 0 <= i < table.len() implies known.contains(
                    (#[trigger] table[i]).0,
                ) by {
                    if i > 0 {
                        assert(table[i] == rest[i - 1]);
                    }
                }
            },
        }
    } else if table.len() > 0 {
        assert(table[0].0 == first_unknown(table, known)->0);
    }
}

/// A section that is written as a list gives its values to its keys in order, as
/// far as there are values.
pub proof fn law_a_list_fills_the_keys_in_order(
    keys: Seq<Seq<char>>,
    items: Seq<TomlView>,
    entries: Seq<(Seq<char>, TomlView)>,
    i: int,
)
    ensures
        table_of(Some(keys), TomlView::Table(entries)) == Some(entries),
        0 <= i < keys.len() && i < items.len() ==> (table_of(
            Some(keys),
            TomlView::Items(items),
        ) matches Some(table) && i < table.len() && table[i] == (keys[i], items[i])),
        table_of(None, TomlView::Items(items)) is None,
{
}

/// A problem says which key of which section it is about.
pub proof fn law_a_problem_names_its_key(section: Seq<char>, key: Seq<char>, wanted: Seq<char>)
    ensures
        problem_text(ProblemView::UnknownKey { section, key }) == "unknown key `"@ + key + "` in ["@
            + section + "]"@,
        problem_text(ProblemView::WrongKind { section, key, wanted }) == "`"@ + key + "` in ["@
            + section + "] must be "@ + wanted,
{
}

/// A list of texts is read in its order, and a list that holds anything else is
/// refused.
pub proof fn law_a_list_of_texts_is_read_in_order(
    section: Seq<char>,
    table: Seq<(Seq<char>, TomlView)>,
    key: Seq<char>,
    items: Seq<TomlView>,
    texts: Seq<Seq<char>>,
    i: int,
)
    requires
        entry_of(table, key) == Some(TomlView::Items(items)),
    ensures
        items.len() == texts.len() && (forall|j: int|
            0 <= j < items.len() ==> #[trigger] items[j] == TomlView::Text(texts[j])) ==> texts_key(
            section,
            table,
            key,
        ) == Ok::<Option<Seq<Seq<char>>>, ProblemView>(Some(texts)),
        0 <= i < items.len() && !(items[i] is Text) ==> texts_key(section, table, key) is Err,
{
    if items.len() == texts.len() && (forall|j: int|
        0 <= j < items.len() ==> #[trigger] items[j] == TomlView::Text(texts[j])) {
        assert(items.map_values(|item: TomlView| item->Text_0) =~= texts);
    }
}

} // verus!
