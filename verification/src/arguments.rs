//! Describing a command line, and having one read.
//!
//! `clap` reads the arguments and writes the help; what the command line looks
//! like is said here in plain values, and so is what was found on it.

use crate::text::{
    char_is_digit, char_is_letter, chars_of, copy_texts, is_digit, is_letter, string_of, views,
};
use vstd::prelude::*;
use vstd::slice::*;
use vstd::string::*;

verus! {

/// What an argument takes.
#[derive(Debug, Clone, Copy, PartialEq, Eq, Structural)]
pub enum Takes {
    /// Nothing: it is there or it is not.
    Flag,
    /// One text.
    Text,
    /// One whole number from zero up to this one.
    Number(i64),
    /// As many texts as there are, and at least one where it is given at all.
    Texts,
    /// Everything after a `--`.
    Rest,
}

/// One argument of a command.
#[derive(Debug, Clone, Copy)]
pub struct Argument {
    pub id: &'static str,
    pub help: Option<&'static str>,
    /// What it is called after two dashes; without a name it goes by its place.
    pub long: Option<&'static str>,
    pub short: Option<char>,
    pub value_name: Option<&'static str>,
    pub takes: Takes,
    pub required: bool,
    /// The argument whose presence makes this one unnecessary.
    pub unless: Option<&'static str>,
    /// Whether it may stand behind any command as well.
    pub global: bool,
}

/// What an argument is.
#[verifier::ext_equal]
pub struct ArgumentView {
    pub id: Seq<char>,
    pub help: Option<Seq<char>>,
    pub long: Option<Seq<char>>,
    pub short: Option<char>,
    pub value_name: Option<Seq<char>>,
    pub takes: Takes,
    pub required: bool,
    pub unless: Option<Seq<char>>,
    pub global: bool,
}

/// What an optional fixed text holds.
pub open spec fn maybe_fixed(text: Option<&'static str>) -> Option<Seq<char>> {
    match text {
        Some(text) => Some(text@),
        None => None,
    }
}

impl View for Argument {
    type V = ArgumentView;

    open spec fn view(&self) -> ArgumentView {
        ArgumentView {
            id: self.id@,
            help: maybe_fixed(self.help),
            long: maybe_fixed(self.long),
            short: self.short,
            value_name: maybe_fixed(self.value_name),
            takes: self.takes,
            required: self.required,
            unless: maybe_fixed(self.unless),
            global: self.global,
        }
    }
}

/// A flag, off unless it is given.
pub open spec fn flag_of(id: Seq<char>, long: Seq<char>) -> ArgumentView {
    ArgumentView {
        id,
        help: None,
        long: Some(long),
        short: None,
        value_name: None,
        takes: Takes::Flag,
        required: false,
        unless: None,
        global: false,
    }
}

/// A named value.
pub open spec fn option_of(id: Seq<char>, long: Seq<char>, value_name: Seq<char>) -> ArgumentView {
    ArgumentView {
        value_name: Some(value_name),
        takes: Takes::Text,
        ..flag_of(id, long)
    }
}

/// A value that goes by its place, and has to be there.
pub open spec fn place_of(id: Seq<char>, value_name: Seq<char>) -> ArgumentView {
    ArgumentView { long: None, required: true, ..option_of(id, id, value_name) }
}

impl ArgumentView {
    /// The argument with a line of help.
    pub open spec fn helped_by(self, help: Seq<char>) -> ArgumentView {
        ArgumentView { help: Some(help), ..self }
    }

    /// The argument with a letter of its own.
    pub open spec fn lettered(self, short: char) -> ArgumentView {
        ArgumentView { short: Some(short), ..self }
    }

    /// The argument taking something else.
    pub open spec fn with_values(self, takes: Takes) -> ArgumentView {
        ArgumentView { takes, ..self }
    }

    /// The argument as one that has to be there.
    pub open spec fn needed(self) -> ArgumentView {
        ArgumentView { required: true, ..self }
    }

    /// The argument as one that has to be there unless another is.
    pub open spec fn needed_without(self, other: Seq<char>) -> ArgumentView {
        ArgumentView { required: false, unless: Some(other), ..self }
    }

    /// The argument as one that may stand behind any command.
    pub open spec fn everywhere(self) -> ArgumentView {
        ArgumentView { global: true, ..self }
    }
}

impl Argument {
    /// A flag, off unless it is given.
    pub fn flag(id: &'static str, long: &'static str) -> (argument: Argument)
        ensures
            argument@ == flag_of(id@, long@),
    {
        Argument {
            id,
            help: None,
            long: Some(long),
            short: None,
            value_name: None,
            takes: Takes::Flag,
            required: false,
            unless: None,
            global: false,
        }
    }

    /// A named value.
    pub fn option(id: &'static str, long: &'static str, value_name: &'static str) -> (argument:
        Argument)
        ensures
            argument@ == option_of(id@, long@, value_name@),
    {
        let mut argument = Argument::flag(id, long);
        argument.value_name = Some(value_name);
        argument.takes = Takes::Text;
        argument
    }

    /// A value that goes by its place, and has to be there.
    pub fn place(id: &'static str, value_name: &'static str) -> (argument: Argument)
        ensures
            argument@ == place_of(id@, value_name@),
    {
        let mut argument = Argument::option(id, id, value_name);
        argument.long = None;
        argument.required = true;
        argument
    }

    /// Gives the argument a line of help.
    pub fn help(self, help: &'static str) -> (argument: Argument)
        ensures
            argument@ == self@.helped_by(help@),
    {
        let mut argument = self;
        argument.help = Some(help);
        argument
    }

    /// Gives the argument a letter of its own.
    pub fn letter(self, short: char) -> (argument: Argument)
        ensures
            argument@ == self@.lettered(short),
    {
        let mut argument = self;
        argument.short = Some(short);
        argument
    }

    /// Has the argument take something else.
    pub fn taking(self, takes: Takes) -> (argument: Argument)
        ensures
            argument@ == self@.with_values(takes),
    {
        let mut argument = self;
        argument.takes = takes;
        argument
    }

    /// Makes the argument one that has to be there.
    pub fn need(self) -> (argument: Argument)
        ensures
            argument@ == self@.needed(),
    {
        let mut argument = self;
        argument.required = true;
        argument
    }

    /// Makes the argument one that has to be there unless another is.
    pub fn need_without(self, other: &'static str) -> (argument: Argument)
        ensures
            argument@ == self@.needed_without(other@),
    {
        let mut argument = self;
        argument.required = false;
        argument.unless = Some(other);
        argument
    }

    /// Lets the argument stand behind any command.
    pub fn anywhere(self) -> (argument: Argument)
        ensures
            argument@ == self@.everywhere(),
    {
        let mut argument = self;
        argument.global = true;
        argument
    }
}

/// A command: what it is for, what it takes, and the commands below it.
#[derive(Debug)]
pub struct Definition {
    pub name: &'static str,
    pub about: &'static str,
    pub long_about: Option<&'static str>,
    pub version: Option<&'static str>,
    pub arguments: Vec<Argument>,
    /// Whether one of the commands below has to be chosen.
    pub needs_command: bool,
    pub commands: Vec<Definition>,
}

/// What a command is.
#[verifier::ext_equal]
pub struct DefinitionView {
    pub name: Seq<char>,
    pub about: Seq<char>,
    pub long_about: Option<Seq<char>>,
    pub version: Option<Seq<char>>,
    pub arguments: Seq<ArgumentView>,
    pub needs_command: bool,
    pub commands: Seq<DefinitionView>,
}

/// What a command is, command by command.
pub open spec fn defined_by(definition: Definition) -> DefinitionView
    decreases definition,
{
    DefinitionView {
        name: definition.name@,
        about: definition.about@,
        long_about: maybe_fixed(definition.long_about),
        version: maybe_fixed(definition.version),
        arguments: views(definition.arguments@),
        needs_command: definition.needs_command,
        commands: Seq::new(
            definition.commands@.len(),
            |i: int|
                if 0 <= i < definition.commands@.len() {
                    defined_by(definition.commands@[i])
                } else {
                    arbitrary()
                },
        ),
    }
}

impl View for Definition {
    type V = DefinitionView;

    open spec fn view(&self) -> DefinitionView {
        defined_by(*self)
    }
}

/// A command that takes nothing yet.
pub open spec fn command_of(name: Seq<char>, about: Seq<char>) -> DefinitionView {
    DefinitionView {
        name,
        about,
        long_about: None,
        version: None,
        arguments: seq![],
        needs_command: false,
        commands: seq![],
    }
}

impl DefinitionView {
    /// The command with a longer description.
    pub open spec fn told(self, long_about: Seq<char>) -> DefinitionView {
        DefinitionView { long_about: Some(long_about), ..self }
    }

    /// The command with a version of its own.
    pub open spec fn released_as(self, version: Seq<char>) -> DefinitionView {
        DefinitionView { version: Some(version), ..self }
    }

    /// The command with one more argument.
    pub open spec fn with(self, argument: ArgumentView) -> DefinitionView {
        DefinitionView { arguments: self.arguments.push(argument), ..self }
    }

    /// The command with one more below it, one of which has to be chosen.
    pub open spec fn over(self, command: DefinitionView) -> DefinitionView {
        DefinitionView { needs_command: true, commands: self.commands.push(command), ..self }
    }
}

impl Definition {
    /// A command that takes nothing yet.
    pub fn command(name: &'static str, about: &'static str) -> (definition: Definition)
        ensures
            definition@ == command_of(name@, about@),
    {
        let definition = Definition {
            name,
            about,
            long_about: None,
            version: None,
            arguments: Vec::new(),
            needs_command: false,
            commands: Vec::new(),
        };
        assert(definition@.arguments =~= seq![]);
        assert(definition@.commands =~= seq![]);
        definition
    }

    /// Gives the command a longer description.
    pub fn tell(self, long_about: &'static str) -> (definition: Definition)
        ensures
            definition@ == self@.told(long_about@),
    {
        let mut definition = self;
        definition.long_about = Some(long_about);
        assert(definition@ =~= self@.told(long_about@));
        definition
    }

    /// Gives the command a version of its own.
    pub fn release(self, version: &'static str) -> (definition: Definition)
        ensures
            definition@ == self@.released_as(version@),
    {
        let mut definition = self;
        definition.version = Some(version);
        assert(definition@ =~= self@.released_as(version@));
        definition
    }

    /// Gives the command one more argument.
    pub fn argument(self, argument: Argument) -> (definition: Definition)
        ensures
            definition@ == self@.with(argument@),
    {
        let mut definition = self;
        definition.arguments.push(argument);
        assert(definition@ =~= self@.with(argument@));
        definition
    }

    /// Puts one more command below this one.
    pub fn below(self, command: Definition) -> (definition: Definition)
        ensures
            definition@ == self@.over(command@),
    {
        let mut definition = self;
        definition.needs_command = true;
        definition.commands.push(command);
        assert(definition@.commands =~= self@.commands.push(command@));
        definition
    }
}

/// What was given to one argument.
#[derive(Debug, Clone, PartialEq, Eq)]
pub struct Given {
    pub values: Vec<String>,
}

impl View for Given {
    type V = Seq<Seq<char>>;

    open spec fn view(&self) -> Seq<Seq<char>> {
        views(self.values@)
    }
}

/// One command that was chosen, and what was given to it.
#[derive(Debug, Clone, PartialEq, Eq)]
pub struct Level {
    pub name: String,
    pub given: Vec<(String, Given)>,
}

/// What was given to one command.
#[verifier::ext_equal]
pub struct LevelView {
    pub name: Seq<char>,
    pub given: Seq<(Seq<char>, Seq<Seq<char>>)>,
}

impl View for Level {
    type V = LevelView;

    open spec fn view(&self) -> LevelView {
        LevelView { name: self.name@, given: views(self.given@) }
    }
}

/// Why nothing is done about a command line, which may also be that help was
/// asked for.
#[derive(Debug, Clone, PartialEq, Eq)]
pub struct Refusal {
    pub text: String,
    pub is_error: bool,
}

impl View for Refusal {
    type V = (Seq<char>, bool);

    open spec fn view(&self) -> (Seq<char>, bool) {
        (self.text@, self.is_error)
    }
}

/// What a program that was refused its command line ends with.
pub open spec fn refused_with(is_error: bool) -> u8 {
    if is_error {
        2
    } else {
        0
    }
}

impl Refusal {
    pub fn exit_code(&self) -> (code: u8)
        ensures
            code == refused_with(self@.1),
    {
        if self.is_error {
            2
        } else {
            0
        }
    }
}

/// `clap::Arg`, one argument as `clap` knows it.
#[verifier::external_type_specification]
#[verifier::external_body]
pub struct ExArg(clap::Arg);

/// `clap::ArgMatches`, what `clap` found on a command line.
#[verifier::external_type_specification]
#[verifier::external_body]
pub struct ExArgMatches(clap::ArgMatches);

/// Whether a character parts a path, on one system or another.
pub open spec fn is_separator(c: char) -> bool {
    c == '/' || c == '\\' || c == ':'
}

/// What stands behind the last separator of a path.
pub open spec fn last_part(path: Seq<char>) -> Seq<char>
    decreases path.len(),
{
    if path.len() == 0 || is_separator(path.last()) {
        seq![]
    } else {
        last_part(path.drop_last()).push(path.last())
    }
}

/// Whether a program's name reads the same on every system: letters, digits,
/// dashes, underscores and dots, the first of them a letter or a digit.
pub open spec fn is_program_name(name: Seq<char>) -> bool {
    &&& name.len() > 0
    &&& is_letter(name[0]) || is_digit(name[0])
    &&& forall|i: int| 0 <= i < name.len() ==> is_name_char(#[trigger] name[i])
}

/// Whether a character may stand in a program's name.
pub open spec fn is_name_char(c: char) -> bool {
    is_letter(c) || is_digit(c) || c == '-' || c == '_' || c == '.'
}

/// What a program that was started by this path is called, where that is a name
/// that reads the same on every system; otherwise the name it was given here.
pub open spec fn program_called(path: Seq<char>, name: Seq<char>) -> Seq<char> {
    if is_program_name(last_part(path)) {
        last_part(path)
    } else {
        name
    }
}

/// The arguments with the program's plain name in front in place of the path it
/// was started by.
pub open spec fn plainly_called(arguments: Seq<Seq<char>>, name: Seq<char>) -> Seq<Seq<char>> {
    if arguments.len() == 0 {
        arguments
    } else {
        arguments.update(0, program_called(arguments[0], name))
    }
}

fn name_of(path: &str, name: &str) -> (called: String)
    ensures
        called@ == program_called(path@, name@),
{
    let chars = chars_of(path);
    let mut start: usize = chars.len();
    assert(chars@.skip(start as int) =~= seq![]);
    let ghost whole = chars@.take(chars@.len() as int);
    assert(whole =~= chars@);
    while start > 0 && !(chars[start - 1] == '/' || chars[start - 1] == '\\' || chars[start - 1]
        == ':')
        invariant
            start <= chars@.len(),
            last_part(chars@) == last_part(chars@.take(start as int)) + chars@.skip(start as int),
        decreases start,
    {
        let ghost front = chars@.take(start as int);
        assert(front.drop_last() =~= chars@.take(start - 1));
        assert(last_part(front.drop_last()).push(front.last()) + chars@.skip(start as int)
            =~= last_part(chars@.take(start - 1)) + chars@.skip(start - 1));
        start = start - 1;
    }
    let rest = slice_subrange(chars.as_slice(), start, chars.len());
    assert(rest@ =~= chars@.skip(start as int));
    assert(last_part(chars@) =~= rest@);
    let mut plain = rest.len() > 0 && (char_is_letter(rest[0]) || char_is_digit(rest[0]));
    let mut i: usize = 0;
    while i < rest.len()
        invariant
            i <= rest@.len(),
            plain <==> rest@.len() > 0 && (is_letter(rest@[0]) || is_digit(rest@[0])) && forall|
                j: int,
            | 0 <= j < i ==> is_name_char(#[trigger] rest@[j]),
        decreases rest@.len() - i,
    {
        let c = rest[i];
        plain = plain && (char_is_letter(c) || char_is_digit(c) || c == '-' || c == '_' || c
            == '.');
        i = i + 1;
    }
    if plain {
        string_of(rest)
    } else {
        name.to_owned()
    }
}

/// Puts the program's plain name in front of its arguments.
pub fn call_plainly(arguments: &[String], name: &str) -> (called: Vec<String>)
    ensures
        views(called@) == plainly_called(views(arguments@), name@),
{
    let mut called = copy_texts(arguments);
    if called.len() > 0 {
        assert(views(arguments@)[0] == arguments@[0]@);
        let plain = name_of(arguments[0].as_str(), name);
        let ghost before = views(called@);
        called.set(0, plain);
        assert(views(called@) =~= before.update(0, plain@));
    }
    called
}

/// A name that is plain stays plain, and a path gives one or falls back on one.
pub proof fn lemma_called_plainly(arguments: Seq<Seq<char>>, name: Seq<char>)
    requires
        is_program_name(name),
    ensures
        arguments.len() > 0 ==> is_program_name(plainly_called(arguments, name)[0]),
{
}

/// What a command line says under a definition, from the program itself to the
/// last command chosen, or the words it is refused with and whether they are an
/// error: what `clap::Command::try_get_matches_from` makes of the arguments.
pub uninterp spec fn clap_reading(
    definition: DefinitionView,
    arguments: Seq<Seq<char>>,
) -> Result<Seq<LevelView>, (Seq<char>, bool)>;

/// One argument in `clap`'s terms, setting by setting.
#[verifier::external_body]
fn plain_argument(argument: &Argument) -> (made: clap::Arg) {
    let made = clap::Arg::new(argument.id).help(argument.help).long(argument.long).short(
        argument.short,
    ).value_name(argument.value_name).required(argument.required).global(
        argument.global,
    ).required_unless_present_any(argument.unless);
    match argument.takes {
        Takes::Flag => made.action(clap::ArgAction::SetTrue),
        Takes::Text => made.action(clap::ArgAction::Set),
        Takes::Number(limit) => made.value_parser(
            clap::builder::RangedI64ValueParser::<i64>::new().range(0..=limit),
        ),
        Takes::Texts => made.action(clap::ArgAction::Append).num_args(1..),
        Takes::Rest => made.action(clap::ArgAction::Append).num_args(1..).last(true),
    }
}

/// What `clap` found, level by level: the values as they were written, under the
/// names of their arguments.
#[verifier::external_body]
fn plain_levels(name: &str, matches: &clap::ArgMatches) -> (levels: Vec<Level>) {
    let mut levels = matches.subcommand().map_or(
        Vec::new(),
        |(name, inside)| plain_levels(name, inside),
    );
    let written = |id: &clap::Id| matches.get_raw(id.as_str()).into_iter().flatten();
    let given = |id: &clap::Id| Given {
        values: written(id).map(|value| value.to_string_lossy().into_owned()).collect(),
    };
    let given = matches.ids().map(|id| (id.to_string(), given(id))).collect();
    levels.insert(0, Level { name: name.to_owned(), given });
    levels
}

/// `clap::Command::try_get_matches_from` on the one command line that is defined
/// here, whose commands stand at most two below the program: what was found on
/// it, or `clap`'s own words, both decided by the definition and the arguments
/// alone. `clap` panics on a definition that contradicts itself. It takes the
/// program's name from the first argument by `std::path::Path::file_name`, which
/// parts a path as the system does, so that argument is a name without any.
#[verifier::external_body]
pub(crate) fn read(definition: &Definition, arguments: &[String]) -> (found: Result<
    Vec<Level>,
    Refusal,
>)
    requires
        definition@ == crate::cli::command_line(),
        arguments@.len() > 0 ==> is_program_name(arguments@[0]@),
    ensures
        match found {
            Ok(levels) => clap_reading(definition@, views(arguments@)) == Ok::<
                Seq<LevelView>,
                (Seq<char>, bool),
            >(views(levels@)),
            Err(refusal) => clap_reading(definition@, views(arguments@)) == Err::<
                Seq<LevelView>,
                (Seq<char>, bool),
            >(refusal@),
        },
{
    let single = |one: &Definition|
        clap::Command::new(one.name).about(one.about).long_about(one.long_about).version(
            one.version,
        ).subcommand_required(one.needs_command).arg_required_else_help(one.needs_command).args(
            one.arguments.iter().map(plain_argument),
        );
    let group = |one: &Definition| single(one).subcommands(one.commands.iter().map(single));
    let whole = single(definition).subcommands(definition.commands.iter().map(group));
    whole.try_get_matches_from(arguments).map(
        |matches| plain_levels(definition.name, &matches),
    ).map_err(|error| Refusal { text: error.to_string(), is_error: error.use_stderr() })
}

/// A program is called by what stands behind the last separator of its path,
/// where that can be a program's name, and by its own name otherwise; the other
/// arguments stay as they are.
pub proof fn law_a_program_is_called_by_its_file_name(
    directory: Seq<char>,
    separator: char,
    file: Seq<char>,
    name: Seq<char>,
    rest: Seq<Seq<char>>,
)
    requires
        separator == '/' || separator == '\\' || separator == ':',
        file.len() > 0,
        forall|i: int| 0 <= i < file.len() ==> file[i] != '/' && file[i] != '\\' && file[i] != ':',
    ensures
        last_part(file) == file,
        last_part(directory + seq![separator] + file) == file,
        is_program_name(file) ==> plainly_called(
            seq![directory + seq![separator] + file] + rest,
            name,
        ) == seq![file] + rest,
        !is_program_name(file) ==> plainly_called(
            seq![directory + seq![separator] + file] + rest,
            name,
        ) == seq![name] + rest,
{
    lemma_last_part_is(seq![], file);
    assert(Seq::<char>::empty() + file =~= file);
    let front = directory + seq![separator];
    lemma_last_part_is(front, file);
    let all = seq![front + file] + rest;
    assert(all.update(0, file) =~= seq![file] + rest);
    assert(all.update(0, name) =~= seq![name] + rest);
}

proof fn lemma_last_part_is(front: Seq<char>, file: Seq<char>)
    requires
        front.len() > 0 ==> is_separator(front.last()),
        forall|i: int| 0 <= i < file.len() ==> !is_separator(file[i]),
    ensures
        last_part(front + file) == file,
    decreases file.len(),
{
    let whole = front + file;
    if file.len() == 0 {
        assert(whole =~= front);
        assert(last_part(front) =~= file);
    } else {
        assert(whole.last() == file.last());
        assert(!is_separator(file[file.len() - 1]));
        assert(whole.drop_last() =~= front + file.drop_last());
        lemma_last_part_is(front, file.drop_last());
        assert(file.drop_last().push(file.last()) =~= file);
    }
}

/// A refusal that is an error ends with two, and a request for help with zero.
pub proof fn law_only_an_error_ends_badly(is_error: bool)
    ensures
        refused_with(is_error) == 0 <==> !is_error,
        refused_with(is_error) == 2 <==> is_error,
{
}

} // verus!
