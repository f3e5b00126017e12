//! What the container host is costing this machine.
//!
//! Two numbers, because on Windows they are genuinely different things: how
//! much memory is in use inside the virtual machine docker runs in, and how
//! much that virtual machine is costing Windows. The second is usually the one
//! that explains why the laptop is struggling, and it is invisible from inside.
//!
//! Both are read from the output of a command. The commands are configurable
//! because the distribution name, the process name and even whether there is a
//! virtual machine at all differ per machine - on native Linux docker there is
//! no second number to show.

use crate::platform::Platform;
use crate::text::{
    all_digits, begins_with, char_is_digit, chars_of, decimal, is_digit, is_white,
    law_a_text_is_found_where_it_stands, law_pieces_come_apart, law_trimming_keeps_the_core,
    law_words_come_apart, leading_white, lemma_decimal_reads_back, lemma_leading_white, lines,
    lines_of, number_in, owned, parse_number, position_of, same_ignoring_case, same_letters,
    split_on, split_text, starts_with, string_of, trim, trim_start, trim_start_char, trimmed,
    trimmed_start, trimmed_start_of, views, words, words_of,
};
use vstd::prelude::*;
use vstd::string::*;

verus! {

#[derive(Debug, Clone, PartialEq, Eq)]
pub struct MemoryConfig {
    /// How often the numbers are re-read, in seconds. Zero turns the whole
    /// thing off.
    pub interval_secs: u64,
    /// A command whose output is read as `free -m`: memory in use inside
    /// whatever docker runs in.
    pub guest: Vec<String>,
    /// Process names whose memory is summed to show what that costs this
    /// machine. Empty where the question does not apply.
    pub host_process: Vec<String>,
}

/// What the configuration of the memory readings says.
#[verifier::ext_equal]
pub struct MemoryConfigView {
    pub interval_secs: u64,
    pub guest: Seq<Seq<char>>,
    pub host_process: Seq<Seq<char>>,
}

impl View for MemoryConfig {
    type V = MemoryConfigView;

    open spec fn view(&self) -> MemoryConfigView {
        MemoryConfigView {
            interval_secs: self.interval_secs,
            guest: views(self.guest@),
            host_process: views(self.host_process@),
        }
    }
}

/// What a platform reads when nobody has said otherwise.
pub open spec fn default_memory(platform: Platform) -> MemoryConfigView {
    match platform {
        Platform::Windows => MemoryConfigView {
            interval_secs: 5,
            guest: seq!["wsl"@, "free"@, "-m"@],
            host_process: seq!["vmmemWSL"@, "vmmem"@],
        },
        _ => MemoryConfigView {
            interval_secs: 5,
            guest: seq!["free"@, "-m"@],
            host_process: seq![],
        },
    }
}

/// The command that reads the guest's memory on a platform.
pub fn default_guest(platform: Platform) -> (command: Vec<String>)
    ensures
        views(command@) == default_memory(platform).guest,
{
    let command = match platform {
        // No distribution is named: `wsl` uses the default one, and naming
        // somebody else's would be a fact about one machine.
        Platform::Windows => owned(&["wsl", "free", "-m"]),
        _ => owned(&["free", "-m"]),
    };
    assert(views(command@) =~= default_memory(platform).guest);
    command
}

/// The processes that back docker on a platform.
pub fn default_host_process(platform: Platform) -> (names: Vec<String>)
    ensures
        views(names@) == default_memory(platform).host_process,
{
    let names = match platform {
        // WSL 2 names it one way, the older Hyper-V backend the other.
        Platform::Windows => owned(&["vmmemWSL", "vmmem"]),
        // Docker Desktop for macOS has a backing process too, but it is named
        // differently between versions and guessing wrong shows a confident
        // zero. Left empty until somebody sets it.
        _ => Vec::new(),
    };
    assert(views(names@) =~= default_memory(platform).host_process);
    names
}

impl MemoryConfig {
    /// The defaults of a platform.
    pub fn default(platform: Platform) -> (config: Self)
        ensures
            config@ == default_memory(platform),
    {
        MemoryConfig {
            interval_secs: 5,
            guest: default_guest(platform),
            host_process: default_host_process(platform),
        }
    }
}

/// What the two probes came back with. Either can be absent without the other
/// being useless.
#[derive(Debug, Clone, PartialEq, Eq)]
pub struct Reading {
    /// Bytes in use inside the machine docker runs in.
    pub guest_bytes: Option<u64>,
    /// The process that backs it, and what it costs this machine.
    pub host: Option<(String, u64)>,
}

impl Default for Reading {
    fn default() -> (reading: Self)
        ensures
            reading.guest_bytes is None,
            reading.host is None,
    {
        Reading { guest_bytes: None, host: None }
    }
}

impl Reading {
    pub fn is_empty(&self) -> (empty: bool)
        ensures
            empty == (self.guest_bytes is None && self.host is None),
    {
        self.guest_bytes.is_none() && self.host.is_none()
    }
}

/// Whether a line of `free` is the one about memory.
pub open spec fn is_memory_line(line: Seq<char>) -> bool {
    begins_with(trimmed_start(line), "Mem:"@)
}

/// The megabytes in the third column of the first memory line.
pub open spec fn used_megabytes(lines: Seq<Seq<char>>) -> Option<nat>
    decreases lines.len(),
{
    if lines.len() == 0 {
        None
    } else if is_memory_line(lines[0]) {
        let fields = words_of(lines[0]);
        if fields.len() < 3 {
            None
        } else {
            number_in(fields[2], u64::MAX as nat)
        }
    } else {
        used_megabytes(lines.skip(1))
    }
}

/// The megabytes in the "used" column of `free -m` output.
pub fn free_used_megabytes(output: &str) -> (megabytes: Option<u64>)
    ensures
        match megabytes {
            Some(n) => used_megabytes(lines_of(output@)) == Some(n as nat),
            None => used_megabytes(lines_of(output@)) is None,
        },
{
    let all = lines(chars_of(output).as_slice());
    let label = chars_of("Mem:");
    let mut i: usize = 0;
    assert(lines_of(output@).skip(0) == lines_of(output@));
    while i < all.len()
        invariant
            i <= all@.len(),
            label@ == "Mem:"@,
            views(all@) == lines_of(output@),
            used_megabytes(lines_of(output@)) == used_megabytes(lines_of(output@).skip(i as int)),
        decreases all@.len() - i,
    {
        let line = all[i].as_slice();
        assert(lines_of(output@).skip(i as int)[0] == line@) by {
            assert(views(all@)[i as int] == all@[i as int]@);
        }
        assert(lines_of(output@).skip(i as int).skip(1) == lines_of(output@).skip(i + 1));
        if starts_with(trim_start(line), label.as_slice()) {
            let fields = words(line);
            if fields.len() < 3 {
                return None;
            }
            assert(views(fields@)[2] == fields@[2]@);
            return parse_number(fields[2].as_slice(), u64::MAX);
        }
        i = i + 1;
    }
    None
}

/// Reads the "used" column from `free -m` output, in bytes.
///
/// The second column is total and the third is used; a `free` that prints
/// fewer than three is not one this can read, and says so rather than
/// reporting whichever number happened to be there.
pub fn parse_free_used(output: &str) -> (bytes: Option<u64>)
    requires
        used_megabytes(lines_of(output@)) matches Some(n) ==> n * 1048576 <= u64::MAX,
    ensures
        match bytes {
            Some(n) => used_megabytes(lines_of(output@)) matches Some(m) && n == m * 1048576,
            None => used_megabytes(lines_of(output@)) is None,
        },
{
    match free_used_megabytes(output) {
        Some(used) => Some(used * 1024 * 1024),
        None => None,
    }
}

/// Only the digits of a text.
pub open spec fn digits_in(text: Seq<char>) -> Seq<char> {
    text.filter(|c: char| is_digit(c))
}

/// The process a line of `tasklist /FO CSV /NH` names and what it costs, where
/// somebody asked about it. The size is grouped for display, and by what
/// depends on the locale, so only its digits count.
pub open spec fn task_cost(line: Seq<char>, wanted: Seq<Seq<char>>) -> Option<(Seq<char>, nat)> {
    let fields = split_on(line, "\",\""@);
    if fields.len() < 5 {
        None
    } else {
        let name = trimmed(trimmed_start_of(fields[0], '"'));
        if !(exists|i: int| 0 <= i < wanted.len() && same_letters(#[trigger] wanted[i], name)) {
            None
        } else {
            match number_in(digits_in(fields[4]), u64::MAX as nat) {
                Some(kilobytes) => Some((name, kilobytes * 1024)),
                None => None,
            }
        }
    }
}

/// The first name that matches, and what all that match cost together.
pub open spec fn tasks_cost(lines: Seq<Seq<char>>, wanted: Seq<Seq<char>>) -> Option<
    (Seq<char>, nat),
>
    decreases lines.len(),
{
    if lines.len() == 0 {
        None
    } else {
        let before = tasks_cost(lines.drop_last(), wanted);
        match task_cost(lines.last(), wanted) {
            None => before,
            Some((name, bytes)) => match before {
                Some((first, total)) => Some((first, total + bytes)),
                None => Some((name, bytes)),
            },
        }
    }
}

fn only_digits(text: &[char]) -> (digits: Vec<char>)
    ensures
        digits@ == digits_in(text@),
{
    let mut digits: Vec<char> = Vec::new();
    let mut i: usize = 0;
    let ghost keep = |c: char| is_digit(c);
    proof {
        reveal(Seq::filter);
    }
    while i < text.len()
        invariant
            i <= text@.len(),
            keep == (|c: char| is_digit(c)),
            digits@ == text@.take(i as int).filter(keep),
        decreases text@.len() - i,
    {
        proof {
            reveal(Seq::filter);
            assert(text@.take(i + 1).drop_last() =~= text@.take(i as int));
        }
        if char_is_digit(text[i]) {
            digits.push(text[i]);
        }
        i = i + 1;
    }
    assert(text@.take(i as int) =~= text@);
    digits
}

fn is_wanted(name: &[char], wanted: &[String]) -> (is: bool)
    ensures
        is == exists|i: int|
            0 <= i < views(wanted@).len() && same_letters(#[trigger] views(wanted@)[i], name@),
{
    let mut i: usize = 0;
    while i < wanted.len()
        invariant
            i <= wanted@.len(),
            forall|j: int| 0 <= j < i ==> !same_letters(#[trigger] views(wanted@)[j], name@),
        decreases wanted@.len() - i,
    {
        assert(views(wanted@)[i as int] == wanted@[i as int]@);
        if same_ignoring_case(chars_of(wanted[i].as_str()).as_slice(), name) {
            return true;
        }
        i = i + 1;
    }
    false
}

/// One line's process and its kilobytes.
fn task_kilobytes(line: &[char], wanted: &[String]) -> (task: Option<(String, u64)>)
    ensures
        match task {
            Some((name, kilobytes)) => task_cost(line@, views(wanted@)) == Some(
                (name@, kilobytes as nat * 1024),
            ),
            None => task_cost(line@, views(wanted@)) is None,
        },
{
    let separator = chars_of("\",\"");
    proof {
        reveal_strlit("\",\"");
    }
    let fields = split_text(line, separator.as_slice());
    if fields.len() < 5 {
        return None;
    }
    assert(views(fields@)[0] == fields@[0]@);
    assert(views(fields@)[4] == fields@[4]@);
    let name = trim(trim_start_char(fields[0].as_slice(), '"'));
    if !is_wanted(name, wanted) {
        return None;
    }
    match parse_number(only_digits(fields[4].as_slice()).as_slice(), u64::MAX) {
        Some(kilobytes) => Some((string_of(name), kilobytes)),
        None => None,
    }
}

/// What the wanted processes cost together, where the sum is a number this
/// machine can hold.
fn sum_tasks(output: &str, wanted: &[String]) -> (sum: Result<Option<(String, u64)>, ()>)
    ensures
        match sum {
            Ok(Some((name, bytes))) => tasks_cost(lines_of(output@), views(wanted@)) == Some(
                (name@, bytes as nat),
            ),
            Ok(None) => tasks_cost(lines_of(output@), views(wanted@)) is None,
            Err(_) => tasks_cost(lines_of(output@), views(wanted@)) matches Some((_, total))
                && total > u64::MAX,
        },
{
    let all = lines(chars_of(output).as_slice());
    let ghost every = lines_of(output@);
    let mut found: Option<(String, u64)> = None;
    let mut i: usize = 0;
    while i < all.len()
        invariant
            i <= all@.len(),
            every == lines_of(output@),
            views(all@) == every,
            match found {
                Some((name, bytes)) => tasks_cost(every.take(i as int), views(wanted@)) == Some(
                    (name@, bytes as nat),
                ),
                None => tasks_cost(every.take(i as int), views(wanted@)) is None,
            },
        decreases all@.len() - i,
    {
        assert(every.take(i + 1).drop_last() == every.take(i as int));
        assert(every.take(i + 1).last() == all@[i as int]@) by {
            assert(views(all@)[i as int] == all@[i as int]@);
        }
        if let Some((name, kilobytes)) = task_kilobytes(all[i].as_slice(), wanted) {
            proof {
                lemma_tasks_cost_grows(every, views(wanted@), i + 1);
            }
            if kilobytes > u64::MAX / 1024 {
                return Err(());
            }
            let bytes: u64 = kilobytes * 1024;
            found = match found {
                // Several processes of the same name are one cost, not two rows.
                Some((existing, total)) => {
                    if total > u64::MAX - bytes {
                        return Err(());
                    }
                    Some((existing, total + bytes))
                },
                None => Some((name, bytes)),
            };
        }
        i = i + 1;
    }
    assert(every.take(i as int) == every);
    Ok(found)
}

proof fn lemma_tasks_cost_grows(lines: Seq<Seq<char>>, wanted: Seq<Seq<char>>, n: int)
    requires
        0 <= n <= lines.len(),
    ensures
        tasks_cost(lines.take(n), wanted) matches Some((name, total)) ==> (tasks_cost(lines, wanted)
            matches Some((same, more)) && same == name && more >= total),
    decreases lines.len() - n,
{
    if n < lines.len() {
        lemma_tasks_cost_grows(lines, wanted, n + 1);
        assert(lines.take(n + 1).drop_last() == lines.take(n));
    } else {
        assert(lines.take(n) == lines);
    }
}

/// Whether what the wanted processes cost together is a number of bytes this
/// machine can hold.
pub fn tasklist_fits(output: &str, wanted: &[String]) -> (fits: bool)
    ensures
        fits == (tasks_cost(lines_of(output@), views(wanted@)) matches Some((_, total)) ==> total
            <= u64::MAX),
{
    match sum_tasks(output, wanted) {
        Ok(_) => true,
        Err(_) => false,
    }
}

/// Sums the memory of the named processes from `tasklist /FO CSV /NH` output,
/// in bytes.
///
/// The size field is grouped for display, and which character does the
/// grouping depends on the machine's locale - this one writes 855.312 K where
/// another writes 855,312 K. Every character that is not a digit is dropped,
/// which is the only reading that survives both.
pub fn parse_tasklist(output: &str, wanted: &[String]) -> (cost: Option<(String, u64)>)
    requires
        tasks_cost(lines_of(output@), views(wanted@)) matches Some((_, total)) ==> total
            <= u64::MAX,
    ensures
        match cost {
            Some((name, bytes)) => tasks_cost(lines_of(output@), views(wanted@)) == Some(
                (name@, bytes as nat),
            ),
            None => tasks_cost(lines_of(output@), views(wanted@)) is None,
        },
{
    match sum_tasks(output, wanted) {
        Ok(cost) => cost,
        Err(_) => None,
    }
}

/// Which character groups the digits is a locale setting, not a different
/// number: sizes with the same digits cost the same.
pub proof fn law_grouping_does_not_change_the_number(
    one: Seq<char>,
    other: Seq<char>,
    wanted: Seq<Seq<char>>,
)
    requires
        split_on(one, "\",\""@).len() == split_on(other, "\",\""@).len(),
        split_on(one, "\",\""@).len() >= 5,
        split_on(one, "\",\""@)[0] == split_on(other, "\",\""@)[0],
        digits_in(split_on(one, "\",\""@)[4]) == digits_in(split_on(other, "\",\""@)[4]),
    ensures
        task_cost(one, wanted) == task_cost(other, wanted),
{
}

/// What the two probes answered, read. A probe that failed is simply absent;
/// so is a cost that no machine could hold.
pub fn read(
    config: &MemoryConfig,
    guest_output: &Option<String>,
    host_output: &Option<String>,
) -> (reading: Reading)
    ensures
        match reading.guest_bytes {
            Some(n) => config.guest@.len() > 0 && (guest_output matches Some(output) && (
            used_megabytes(lines_of(output@)) matches Some(m) && n == m * 1048576)),
            None => config.guest@.len() > 0 ==> (guest_output matches Some(output) ==> (
            used_megabytes(lines_of(output@)) matches Some(m) ==> m * 1048576 > u64::MAX)),
        },
        match reading.host {
            Some((name, bytes)) => config.host_process@.len() > 0 && (host_output matches Some(
                output,
            ) && tasks_cost(lines_of(output@), views(config.host_process@)) == Some(
                (name@, bytes as nat),
            )),
            None => config.host_process@.len() > 0 ==> (host_output matches Some(output) ==> (
            tasks_cost(lines_of(output@), views(config.host_process@)) matches Some((_, total))
                ==> total > u64::MAX)),
        },
{
    let guest_bytes = match guest_output {
        Some(output) => if config.guest.len() == 0 {
            None
        } else {
            match free_used_megabytes(output.as_str()) {
                Some(used) => if used <= u64::MAX / 1048576 {
                    parse_free_used(output.as_str())
                } else {
                    None
                },
                None => None,
            }
        },
        None => None,
    };
    let host = match host_output {
        Some(output) => if config.host_process.len() == 0 || !tasklist_fits(
            output.as_str(),
            config.host_process.as_slice(),
        ) {
            None
        } else {
            parse_tasklist(output.as_str(), config.host_process.as_slice())
        },
        None => None,
    };
    Reading { guest_bytes, host }
}

/// Memory in use is the second number behind `Mem:`, on the first line that
/// begins so; lines before it say nothing.
#[verifier::rlimit(40)]
pub proof fn law_used_memory_stands_behind_its_label(
    front: Seq<char>,
    total: Seq<char>,
    used: u64,
    c: char,
    rest: Seq<char>,
    line: Seq<char>,
    lines: Seq<Seq<char>>,
)
    requires
        forall|i: int| 0 <= i < front.len() ==> is_white(#[trigger] front[i]),
        total.len() > 0,
        forall|i: int| 0 <= i < total.len() ==> !is_white(#[trigger] total[i]),
        is_white(c),
    ensures
        used_megabytes(
            seq![
                front + "Mem:"@ + seq![c] + (total + seq![c] + (decimal(used as nat) + seq![c]
                    + rest)),
            ] + lines,
        ) == Some(used as nat),
        !begins_with(trimmed_start(line), "Mem:"@) ==> used_megabytes(seq![line] + lines)
            == used_megabytes(lines),
{
    reveal_strlit("Mem:");
    let digits = decimal(used as nat);
    lemma_decimal_reads_back(used as nat, u64::MAX as nat);
    let last = digits + seq![c] + rest;
    let behind = total + seq![c] + last;
    let whole = front + "Mem:"@ + seq![c] + behind;
    assert forall|i: int| 0 <= i < digits.len() implies !is_white(#[trigger] digits[i]) by {
        assert(is_digit(digits[i]));
    }
    law_words_come_apart(front, "Mem:"@, c, behind);
    law_words_come_apart(front, total, c, last);
    law_words_come_apart(front, digits, c, rest);
    let fields = words_of(whole);
    assert(fields == seq!["Mem:"@] + (seq![total] + (seq![digits] + words_of(rest))));
    assert(fields[2] == digits);
    lemma_leading_white(whole);
    let n = front.len() as int;
    assert(whole[n] == 'M');
    assert(leading_white(whole) == n) by {
        if leading_white(whole) < n {
            assert(whole[leading_white(whole)] == front[leading_white(whole)]);
        }
    }
    assert(trimmed_start(whole).take(4) =~= "Mem:"@);
    let all = seq![whole] + lines;
    assert(all[0] == whole);
    let more = seq![line] + lines;
    assert(more[0] == line);
    assert(more.skip(1) =~= lines);
}

/// The cost of a process is the fifth field of its line, in kilobytes; the
/// processes that are looked for are summed under the first one's name, and no
/// other line counts.
#[verifier::rlimit(40)]
pub proof fn law_wanted_processes_are_summed(
    lines: Seq<Seq<char>>,
    name: Seq<char>,
    others: (Seq<char>, Seq<char>, Seq<char>),
    kilobytes: u64,
    wanted: Seq<Seq<char>>,
)
    requires
        name.len() > 0 && name[0] != ',' && !is_white(name[0]) && !is_white(name.last()),
        forall|i: int| 0 <= i < name.len() ==> name[i] != '"',
        forall|i: int| 0 <= i < others.0.len() ==> others.0[i] != '"',
        forall|i: int| 0 <= i < others.1.len() ==> others.1[i] != '"',
        forall|i: int| 0 <= i < others.2.len() ==> others.2[i] != '"',
    ensures
        ({
            let s = "\",\""@;
            let line = "\""@ + name + s + (others.0 + s + (others.1 + s + (others.2 + s + (decimal(
                kilobytes as nat,
            ) + " K"@))));
            let before = tasks_cost(lines, wanted);
            let all = tasks_cost(lines.push(line), wanted);
            if exists|i: int| 0 <= i < wanted.len() && same_letters(#[trigger] wanted[i], name) {
                all == Some(
                    match before {
                        Some((first, total)) => (first, (total + kilobytes * 1024) as nat),
                        None => (name, (kilobytes * 1024) as nat),
                    },
                )
            } else {
                all == before
            }
        }),
{
    let s = "\",\""@;
    let amount = decimal(kilobytes as nat) + " K"@;
    let line = "\""@ + name + s + (others.0 + s + (others.1 + s + (others.2 + s + amount)));
    lemma_decimal_reads_back(kilobytes as nat, u64::MAX as nat);
    lemma_digits_stay(decimal(kilobytes as nat));
    lemma_an_amount_has_no_quote(decimal(kilobytes as nat));
    lemma_fields_of_a_task(name, others, amount);
    lemma_cost_of_a_task(line, name, amount, kilobytes, wanted);
    lemma_costs_go_on(lines, line, wanted);
}

proof fn lemma_cost_of_a_task(
    line: Seq<char>,
    name: Seq<char>,
    amount: Seq<char>,
    kilobytes: u64,
    wanted: Seq<Seq<char>>,
)
    requires
        name.len() > 0 && !is_white(name[0]) && !is_white(name.last()),
        split_on(line, "\",\""@).len() == 5,
        trimmed_start_of(split_on(line, "\",\""@)[0], '"') == name,
        split_on(line, "\",\""@)[4] == amount,
        number_in(digits_in(amount), u64::MAX as nat) == Some(kilobytes as nat),
    ensures
        task_cost(line, wanted) == if exists|i: int|
            0 <= i < wanted.len() && same_letters(#[trigger] wanted[i], name) {
            Some((name, (kilobytes * 1024) as nat))
        } else {
            None
        },
{
    let none = Seq::<char>::empty();
    law_trimming_keeps_the_core(none, name, none);
    assert(none + name + none =~= name);
}

proof fn lemma_costs_go_on(lines: Seq<Seq<char>>, line: Seq<char>, wanted: Seq<Seq<char>>)
    ensures
        tasks_cost(lines.push(line), wanted) == match task_cost(line, wanted) {
            None => tasks_cost(lines, wanted),
            Some((name, bytes)) => match tasks_cost(lines, wanted) {
                Some((first, total)) => Some((first, total + bytes)),
                None => Some((name, bytes)),
            },
        },
{
    let all = lines.push(line);
    assert(all.drop_last() =~= lines);
    assert(all.last() == line);
}

#[verifier::rlimit(40)]
proof fn lemma_fields_of_a_task(
    name: Seq<char>,
    others: (Seq<char>, Seq<char>, Seq<char>),
    amount: Seq<char>,
)
    requires
        name.len() > 0 && name[0] != ',',
        forall|i: int| 0 <= i < name.len() ==> name[i] != '"',
        forall|i: int| 0 <= i < others.0.len() ==> others.0[i] != '"',
        forall|i: int| 0 <= i < others.1.len() ==> others.1[i] != '"',
        forall|i: int| 0 <= i < others.2.len() ==> others.2[i] != '"',
        forall|i: int| 0 <= i < amount.len() ==> amount[i] != '"',
    ensures
        ({
            let s = "\",\""@;
            let fields = split_on(
                "\""@ + name + s + (others.0 + s + (others.1 + s + (others.2 + s + amount))),
                s,
            );
            &&& fields.len() == 5
            &&& trimmed_start_of(fields[0], '"') == name
            &&& fields[4] == amount
        }),
{
    reveal_strlit("\"");
    reveal_strlit("\",\"");
    let s = "\",\""@;
    let fourth = others.2 + s + amount;
    let third = others.1 + s + fourth;
    let second = others.0 + s + third;
    let line = "\""@ + name + s + second;
    assert(line[0] == '"' && line[1] == name[0]);
    assert(!begins_with(line, s)) by {
        if begins_with(line, s) {
            assert(line.take(3)[1] == line[1]);
        }
    }
    assert(line.skip(1) =~= name + s + second);
    law_a_text_is_found_where_it_stands(name, s, second);
    let at = name.len() as int + 1;
    assert(position_of(line, s) == Some(at));
    assert(line.take(at) =~= "\""@ + name);
    assert(line.skip(at + 3) =~= second);
    law_pieces_come_apart(others.0, s, third);
    law_pieces_come_apart(others.1, s, fourth);
    law_pieces_come_apart(others.2, s, amount);
    law_pieces_come_apart(amount, s, seq![]);
    let fields = split_on(line, s);
    assert(fields == seq!["\""@ + name] + (seq![others.0] + (seq![others.1] + (seq![others.2]
        + seq![amount]))));
    assert(fields[0] == "\""@ + name);
    assert(("\""@ + name).skip(1) =~= name);
    assert(trimmed_start_of("\""@ + name, '"') == trimmed_start_of(name, '"'));
    assert(trimmed_start_of(name, '"') == name);
}

proof fn lemma_an_amount_has_no_quote(digits: Seq<char>)
    requires
        all_digits(digits),
    ensures
        forall|i: int| 0 <= i < (digits + " K"@).len() ==> (digits + " K"@)[i] != '"',
{
    reveal_strlit(" K");
    let amount = digits + " K"@;
    assert forall|i: int| 0 <= i < amount.len() implies amount[i] != '"' by {
        if i < digits.len() {
            assert(amount[i] == digits[i]);
            assert(is_digit(digits[i]));
        }
    }
}

proof fn lemma_digits_stay(digits: Seq<char>)
    requires
        all_digits(digits),
    ensures
        digits_in(digits + " K"@) == digits,
{
    reveal_strlit(" K");
    reveal(Seq::filter);
    let keep = |c: char| is_digit(c);
    let one = digits + " K"@;
    assert(one.last() == 'K');
    let two = one.drop_last();
    assert(two.last() == ' ');
    assert(two.drop_last() =~= digits);
    assert(one.filter(keep) == two.filter(keep));
    assert(two.filter(keep) == digits.filter(keep));
    lemma_all_kept(digits);
}

proof fn lemma_all_kept(digits: Seq<char>)
    requires
        all_digits(digits),
    ensures
        digits.filter(|c: char| is_digit(c)) == digits,
    decreases digits.len(),
{
    reveal(Seq::filter);
    if digits.len() > 0 {
        lemma_all_kept(digits.drop_last());
        assert(is_digit(digits.last()));
        assert(digits.drop_last().push(digits.last()) =~= digits);
    }
}

/// By default memory is read every five seconds from `free`, inside WSL on
/// Windows, where the processes behind WSL are summed too.
pub proof fn law_memory_is_read_by_default(platform: Platform)
    ensures
        default_memory(platform).interval_secs == 5,
        platform is Windows ==> default_memory(platform).guest == seq!["wsl"@, "free"@, "-m"@]
            && default_memory(platform).host_process == seq!["vmmemWSL"@, "vmmem"@],
        !(platform is Windows) ==> default_memory(platform).guest == seq!["free"@, "-m"@]
            && default_memory(platform).host_process.len() == 0,
{
}

} // verus!
