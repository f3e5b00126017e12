//! What the daemon says about one container: what it was made with, what became
//! of a command run inside it, and how much memory it uses.

use crate::docker::{DockerError, DockerErrorView};
use crate::entries::{entry_of, find_entry};
use crate::json::{
    json_document, lemma_fields_view, parse, read_texts, texts_of, Json, JsonView,
};
use crate::text::views;
use crate::transfer::Inspected;
use vstd::prelude::*;
use vstd::string::*;

verus! {

/// One field of an object, where the value is one and has it.
pub open spec fn field_of(json: JsonView, name: Seq<char>) -> Option<JsonView> {
    match json {
        JsonView::Fields(fields) => entry_of(fields, name),
        _ => None,
    }
}

/// Finds one field of an object.
pub fn field<'a>(json: &'a Json, name: &str) -> (found: Option<&'a Json>)
    ensures
        match found {
            Some(value) => field_of(json@, name@) == Some(value@),
            None => field_of(json@, name@) is None,
        },
{
    match json {
        Json::Fields(fields) => {
            proof {
                lemma_fields_view(*fields);
            }
            find_entry(fields.as_slice(), name)
        },
        _ => None,
    }
}

/// A field of a field.
pub open spec fn inner_of(json: JsonView, outer: Seq<char>, name: Seq<char>) -> Option<JsonView> {
    match field_of(json, outer) {
        Some(inside) => field_of(inside, name),
        None => None,
    }
}

/// Finds a field of a field.
pub fn inner<'a>(json: &'a Json, outer: &str, name: &str) -> (found: Option<&'a Json>)
    ensures
        match found {
            Some(value) => inner_of(json@, outer@, name@) == Some(value@),
            None => inner_of(json@, outer@, name@) is None,
        },
{
    match field(json, outer) {
        Some(inside) => field(inside, name),
        None => None,
    }
}

/// A whole number, where the value is one.
pub open spec fn number_of(json: Option<JsonView>) -> Option<u64> {
    match json {
        Some(JsonView::Unsigned(number)) => Some(number),
        _ => None,
    }
}

fn number(json: Option<&Json>) -> (number: Option<u64>)
    ensures
        number == number_of(
            match json {
                Some(json) => Some(json@),
                None => None,
            },
        ),
{
    match json {
        Some(Json::Unsigned(number)) => Some(*number),
        _ => None,
    }
}

/// What a container was made with: its image, its environment, and whether its
/// output is a terminal's rather than two separate streams.
#[derive(Debug, Clone, PartialEq, Eq)]
pub struct Container {
    pub inspected: Inspected,
    pub tty: bool,
}

impl View for Container {
    type V = ((Seq<char>, Seq<Seq<char>>), bool);

    open spec fn view(&self) -> ((Seq<char>, Seq<Seq<char>>), bool) {
        (self.inspected@, self.tty)
    }
}

/// The image in a container's description, empty where none is named.
pub open spec fn image_in(json: JsonView) -> Seq<char> {
    match inner_of(json, "Config"@, "Image"@) {
        Some(JsonView::Text(image)) => image,
        _ => seq![],
    }
}

/// The environment in a container's description, empty where none is given.
pub open spec fn environment_in(json: JsonView) -> Seq<Seq<char>> {
    match inner_of(json, "Config"@, "Env"@) {
        Some(list) => match texts_of(list) {
            Some(entries) => entries,
            None => seq![],
        },
        None => seq![],
    }
}

/// A container's description.
pub open spec fn described(json: JsonView) -> ((Seq<char>, Seq<Seq<char>>), bool) {
    (
        (image_in(json), environment_in(json)),
        inner_of(json, "Config"@, "Tty"@) == Some(JsonView::Bool(true)),
    )
}

/// Reads a container's description. One that says nothing of its environment
/// has none, and one that does not claim a terminal has none either.
pub fn describe(json: &Json) -> (container: Container)
    ensures
        container@ == described(json@),
{
    let image = match inner(json, "Config", "Image") {
        Some(Json::Text(image)) => image.clone(),
        _ => String::new(),
    };
    assert(image@ =~= image_in(json@));
    let env: Vec<String> = match inner(json, "Config", "Env") {
        Some(list) => match read_texts(list) {
            Some(entries) => entries,
            None => Vec::new(),
        },
        None => Vec::new(),
    };
    assert(views(env@) =~= environment_in(json@));
    let tty = match inner(json, "Config", "Tty") {
        Some(Json::Bool(tty)) => *tty,
        _ => false,
    };
    Container { inspected: Inspected { image, env }, tty }
}

/// What the daemon answered when asked about a container.
pub fn read_container(body: &str) -> (container: Result<Container, DockerError>)
    ensures
        match container {
            Ok(container) => json_document(body@) matches Ok(json) && container@ == described(
                json,
            ),
            Err(error) => json_document(body@) matches Err(reason) && error@
                == DockerErrorView::Malformed(reason),
        },
{
    match parse(body) {
        Ok(json) => Ok(describe(&json)),
        Err(reason) => Err(DockerError::Malformed(reason)),
    }
}

/// The name the daemon gave to a command that is about to run.
pub open spec fn command_named(json: JsonView) -> Result<Seq<char>, DockerErrorView> {
    match field_of(json, "Id"@) {
        Some(JsonView::Text(id)) => Ok(id),
        _ => Err(DockerErrorView::Malformed("exec without an id"@)),
    }
}

/// Reads the name of a command out of the daemon's answer.
pub fn command_id(json: &Json) -> (id: Result<String, DockerError>)
    ensures
        match id {
            Ok(id) => command_named(json@) == Ok::<Seq<char>, DockerErrorView>(id@),
            Err(error) => command_named(json@) == Err::<Seq<char>, DockerErrorView>(error@),
        },
{
    match field(json, "Id") {
        Some(Json::Text(id)) => Ok(id.clone()),
        _ => Err(DockerError::Malformed("exec without an id".to_owned())),
    }
}

/// What the daemon answered when a command was set up.
pub fn read_command_id(body: &str) -> (id: Result<String, DockerError>)
    ensures
        match json_document(body@) {
            Ok(json) => match id {
                Ok(id) => command_named(json) == Ok::<Seq<char>, DockerErrorView>(id@),
                Err(error) => command_named(json) == Err::<Seq<char>, DockerErrorView>(error@),
            },
            Err(reason) => id matches Err(error) && error@ == DockerErrorView::Malformed(reason),
        },
{
    match parse(body) {
        Ok(json) => command_id(&json),
        Err(reason) => Err(DockerError::Malformed(reason)),
    }
}

/// How a command ended. A command the daemon gives no usable code for has not
/// ended well, so it counts as failed rather than as zero.
pub open spec fn ended_with(json: JsonView) -> int {
    match number_of(field_of(json, "ExitCode"@)) {
        Some(code) => if code <= i32::MAX {
            code as int
        } else {
            -1
        },
        None => -1,
    }
}

/// Reads how a command ended.
pub fn exit_code(json: &Json) -> (code: i32)
    ensures
        code == ended_with(json@),
{
    match number(field(json, "ExitCode")) {
        Some(code) => if code <= i32::MAX as u64 {
            code as i32
        } else {
            -1
        },
        None => -1,
    }
}

/// What the daemon answered about a command that has run.
pub fn read_exit_code(body: &str) -> (code: Result<i32, DockerError>)
    ensures
        match code {
            Ok(code) => json_document(body@) matches Ok(json) && code == ended_with(json),
            Err(error) => json_document(body@) matches Err(reason) && error@
                == DockerErrorView::Malformed(reason),
        },
{
    match parse(body) {
        Ok(json) => Ok(exit_code(&json)),
        Err(reason) => Err(DockerError::Malformed(reason)),
    }
}

/// What is left of a container's memory once the file cache that the kernel
/// could drop is taken off, which is the number `docker stats` shows. A cache
/// that is not smaller than the use is not believed.
pub open spec fn without_cache(usage: u64, cache: Option<u64>, other: Option<u64>) -> u64 {
    if cache is Some && cache->0 < usage {
        (usage - cache->0) as u64
    } else if other is Some && other->0 < usage {
        (usage - other->0) as u64
    } else {
        usage
    }
}

/// How much memory a container uses, by its statistics.
pub open spec fn memory_in(json: JsonView) -> Option<u64> {
    match field_of(json, "memory_stats"@) {
        Some(memory) => match number_of(field_of(memory, "usage"@)) {
            Some(usage) => Some(
                without_cache(
                    usage,
                    number_of(inner_of(memory, "stats"@, "total_inactive_file"@)),
                    number_of(inner_of(memory, "stats"@, "inactive_file"@)),
                ),
            ),
            None => None,
        },
        None => None,
    }
}

/// Reads how much memory a container uses.
pub fn memory_used(json: &Json) -> (bytes: Option<u64>)
    ensures
        bytes == memory_in(json@),
{
    match field(json, "memory_stats") {
        Some(memory) => match number(field(memory, "usage")) {
            Some(usage) => {
                let cache = number(inner(memory, "stats", "total_inactive_file"));
                let other = number(inner(memory, "stats", "inactive_file"));
                if let Some(cache) = cache {
                    if cache < usage {
                        return Some(usage - cache);
                    }
                }
                if let Some(other) = other {
                    if other < usage {
                        return Some(usage - other);
                    }
                }
                Some(usage)
            },
            None => None,
        },
        None => None,
    }
}

/// What the daemon answered about a container's memory. An answer that cannot
/// be read is no reading, never a reading of zero.
pub fn read_memory_used(body: &str) -> (bytes: Option<u64>)
    ensures
        bytes == (match json_document(body@) {
            Ok(json) => memory_in(json),
            Err(_) => None,
        }),
{
    match parse(body) {
        Ok(json) => memory_used(&json),
        Err(_) => None,
    }
}

/// A command counts as ended well only where the daemon says so.
pub proof fn law_only_a_zero_is_success(json: JsonView)
    ensures
        ended_with(json) == 0 <==> field_of(json, "ExitCode"@) == Some(JsonView::Unsigned(0)),
{
}

/// Taking the cache off never makes a container use more, nor nothing where it
/// uses something.
pub proof fn law_the_cache_only_lowers_the_use(usage: u64, cache: Option<u64>, other: Option<u64>)
    ensures
        without_cache(usage, cache, other) <= usage,
        without_cache(usage, cache, other) == 0 <==> usage == 0,
{
}

/// What a container is said to be is read from its configuration: its image and
/// environment, empty where they are not there, and a terminal only where that
/// is said outright.
pub proof fn law_a_container_is_what_its_configuration_says(
    json: JsonView,
    config: JsonView,
    image: Seq<char>,
)
    ensures
        field_of(json, "Config"@) == Some(config) ==> {
            &&& field_of(config, "Image"@) == Some(JsonView::Text(image)) ==> image_in(json) == image
            &&& field_of(config, "Image"@) is None ==> image_in(json).len() == 0
            &&& field_of(config, "Env"@) is None ==> environment_in(json).len() == 0
            &&& field_of(config, "Env"@) matches Some(list) ==> (texts_of(list) matches Some(
                entries,
            ) ==> environment_in(json) == entries)
            &&& described(json).1 <==> field_of(config, "Tty"@) == Some(JsonView::Bool(true))
            &&& described(json).0 == (image_in(json), environment_in(json))
        },
        field_of(json, "Config"@) is None ==> image_in(json).len() == 0 && environment_in(json).len()
            == 0 && !described(json).1,
{
}

/// A command is known by the text of its `Id`, and nothing else will do.
pub proof fn law_a_command_is_known_by_its_id(json: JsonView, id: Seq<char>)
    ensures
        command_named(json) == Ok::<Seq<char>, DockerErrorView>(id) <==> field_of(json, "Id"@)
            == Some(JsonView::Text(id)),
        command_named(json) matches Err(error) ==> error == DockerErrorView::Malformed(
            "exec without an id"@,
        ),
{
}

/// A command ended with the number of its `ExitCode`; where that is no number, or
/// none a process ends with, it counts as failed.
pub proof fn law_an_exit_code_is_read_as_it_is(json: JsonView, code: u64)
    ensures
        field_of(json, "ExitCode"@) == Some(JsonView::Unsigned(code)) && code <= 2147483647
            ==> ended_with(json) == code,
        field_of(json, "ExitCode"@) == Some(JsonView::Unsigned(code)) && code > 2147483647
            ==> ended_with(json) == -1,
        !(field_of(json, "ExitCode"@) matches Some(JsonView::Unsigned(_))) ==> ended_with(json)
            == -1,
{
}

/// Memory in use is the usage less the cache that can be given back: the total
/// inactive file where it is less than the usage, else the inactive file where
/// that is; a container that reports no usage has none.
pub proof fn law_memory_is_the_use_less_the_cache(
    json: JsonView,
    memory: JsonView,
    usage: u64,
    cache: u64,
)
    requires
        field_of(json, "memory_stats"@) == Some(memory),
    ensures
        number_of(field_of(memory, "usage"@)) is None ==> memory_in(json) is None,
        field_of(memory, "usage"@) == Some(JsonView::Unsigned(usage)) ==> {
            let total = number_of(inner_of(memory, "stats"@, "total_inactive_file"@));
            let other = number_of(inner_of(memory, "stats"@, "inactive_file"@));
            &&& total == Some(cache) && cache < usage ==> memory_in(json) == Some(
                (usage - cache) as u64,
            )
            &&& (total is None || total->0 >= usage) && other == Some(cache) && cache < usage
                ==> memory_in(json) == Some((usage - cache) as u64)
            &&& (total is None || total->0 >= usage) && (other is None || other->0 >= usage)
                ==> memory_in(json) == Some(usage)
        },
{
}

} // verus!
