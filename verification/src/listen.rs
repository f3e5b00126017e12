//! Which process is holding a port.
//!
//! The question a developer actually asks is not "what has docker published"
//! but "what is on 8000, and can I have it back". Docker's own ports are only
//! part of the answer. The system's own tools are asked and their output is
//! read here, which keeps the reading a function of the text alone.

use crate::order::{in_order, is_ordered, law_sorting_orders_and_keeps, lemma_in_order_contains, sort, Ranked};
use crate::platform::Platform;
use crate::text::{
    all_digits, begins_with, chars_of, copy_texts, count_leading_digits, decimal, find_char,
    find_last_char, find_text, index_of, is_digit, join, joined, last_index_of,
    law_a_text_is_found_where_it_stands, law_numbers_are_read_as_written, law_pieces_come_apart,
    law_replacing_leaves_the_rest, leading_digits, lemma_decimal_reads_back, lemma_index_of_is,
    lemma_last_index_of_is, lemma_leading_digits_is, lemma_views_push, lines, lines_of, lower,
    maybe_text, number_in, number_text, owned, parse_number, position_of, replace_text, replaced,
    same_chars, same_ignoring_case, same_letters, signed_decimal, signed_text, split_on,
    split_text, string_of, trim, trim_end_char, trim_start_char, trimmed, trimmed_end_of,
    trimmed_start_of, views, words, words_of,
};
use std::collections::HashMap;
use vstd::prelude::*;
use vstd::slice::*;
use vstd::string::*;

verus! {

#[derive(Debug, Clone, PartialEq, Eq)]
pub struct Listener {
    pub port: u16,
    pub pid: Option<u32>,
    pub process: Option<String>,
}

/// What a listener says.
#[verifier::ext_equal]
pub struct ListenerView {
    pub port: u16,
    pub pid: Option<u32>,
    pub process: Option<Seq<char>>,
}

impl View for Listener {
    type V = ListenerView;

    open spec fn view(&self) -> ListenerView {
        ListenerView { port: self.port, pid: self.pid, process: maybe_text(self.process) }
    }
}

impl Ranked for Listener {
    open spec fn ranks(a: ListenerView, b: ListenerView) -> bool {
        a.port <= b.port
    }

    proof fn ranks_totally(a: ListenerView, b: ListenerView, c: ListenerView) {
    }

    fn not_after(&self, other: &Self) -> bool {
        self.port <= other.port
    }
}

#[derive(Debug)]
pub enum ListenError {
    Unavailable(String),
    Unsupported,
}

/// What a failure to list says.
#[verifier::ext_equal]
pub enum ListenErrorView {
    Unavailable(Seq<char>),
    Unsupported,
}

impl View for ListenError {
    type V = ListenErrorView;

    open spec fn view(&self) -> ListenErrorView {
        match self {
            ListenError::Unavailable(reason) => ListenErrorView::Unavailable(reason@),
            ListenError::Unsupported => ListenErrorView::Unsupported,
        }
    }
}

/// The sentence that reports a failure.
pub open spec fn listen_error_text(error: ListenErrorView) -> Seq<char> {
    match error {
        ListenErrorView::Unavailable(reason) => "cannot ask this system what is listening: "@
            + reason,
        ListenErrorView::Unsupported => "listing ports is not implemented for this platform yet"@,
    }
}

impl ListenError {
    /// The sentence that reports this failure.
    pub fn to_string(&self) -> (text: String)
        ensures
            text@ == listen_error_text(self@),
    {
        match self {
            ListenError::Unavailable(reason) => {
                let mut text = "cannot ask this system what is listening: ".to_owned();
                text.append(reason.as_str());
                text
            },
            ListenError::Unsupported => {
                "listing ports is not implemented for this platform yet".to_owned()
            },
        }
    }
}

/// The shape of a tool's output, which is a separate fact from which tool
/// produced it.
///
/// A probe has to name one. Telling this only which command to run would let a
/// wrong pairing return an empty list rather than an error, and an empty list
/// is indistinguishable from a machine with nothing listening.
#[derive(Debug, Clone, Copy, PartialEq, Eq, Structural)]
pub enum Format {
    /// `netstat -ano -p TCP` on Windows.
    WindowsNetstat,
    /// `netstat -lntp` on Linux, which prints neither the same columns nor
    /// the same words.
    LinuxNetstat,
    /// `ss -lntpH`, from iproute2.
    Ss,
}

/// The port behind the last colon of an address.
pub open spec fn port_in(address: Seq<char>) -> Option<u16> {
    let at = last_index_of(address, ':');
    if at < 0 {
        None
    } else {
        match number_in(address.skip(at + 1), u16::MAX as nat) {
            Some(port) => Some(port as u16),
            None => None,
        }
    }
}

/// A process number.
pub open spec fn pid_in(text: Seq<char>) -> Option<u32> {
    match number_in(text, u32::MAX as nat) {
        Some(pid) => Some(pid as u32),
        None => None,
    }
}

/// The owner a line of `ss` names: the process, and its number where there is
/// one.
pub open spec fn ss_owner(line: Seq<char>) -> Option<(Seq<char>, Option<u32>)> {
    match position_of(line, "users:((\""@) {
        Some(at) => {
            let rest = line.skip(at + "users:((\""@.len());
            let quote = index_of(rest, '"');
            if quote == rest.len() {
                None
            } else {
                let tail = rest.skip(quote + 1);
                let pid = match position_of(tail, "pid="@) {
                    Some(start) => {
                        let number = tail.skip(start + "pid="@.len());
                        pid_in(number.take(leading_digits(number)))
                    },
                    None => None,
                };
                Some((rest.take(quote), pid))
            }
        },
        None => None,
    }
}

/// The listener a line reports, for each shape of output.
pub open spec fn listener_in(format: Format, line: Seq<char>) -> Option<ListenerView> {
    let fields = words_of(line);
    match format {
        Format::WindowsNetstat => if fields.len() < 5 || !same_letters(fields[0], "tcp"@)
            || !same_letters(fields[3], "listening"@) {
            None
        } else {
            match port_in(fields[1]) {
                Some(port) => Some(ListenerView { port, pid: pid_in(fields[4]), process: None }),
                None => None,
            }
        },
        Format::LinuxNetstat => if fields.len() < 6 || !(fields[0] == "tcp"@ || fields[0]
            == "tcp6"@) || fields[5] != "LISTEN"@ {
            None
        } else {
            match port_in(fields[3]) {
                Some(port) => if fields.len() > 6 && fields[6] != "-"@ && index_of(fields[6], '/')
                    < fields[6].len() {
                    let at = index_of(fields[6], '/');
                    Some(
                        ListenerView {
                            port,
                            pid: pid_in(fields[6].take(at)),
                            process: Some(fields[6].skip(at + 1)),
                        },
                    )
                } else {
                    Some(ListenerView { port, pid: None, process: None })
                },
                None => None,
            }
        },
        Format::Ss => if fields.len() < 4 {
            None
        } else {
            match port_in(fields[3]) {
                Some(port) => match ss_owner(line) {
                    Some((name, pid)) => Some(ListenerView { port, pid, process: Some(name) }),
                    None => Some(ListenerView { port, pid: None, process: None }),
                },
                None => None,
            }
        },
    }
}

/// Whether two listeners are one row. Windows tells owners apart; the others
/// list a port once.
pub open spec fn one_row(format: Format, a: ListenerView, b: ListenerView) -> bool {
    a.port == b.port && (format == Format::WindowsNetstat ==> a.pid == b.pid)
}

/// Whether a row of the list is this one.
pub open spec fn holds_row(format: Format, rows: Seq<ListenerView>, row: ListenerView) -> bool {
    exists|k: int| 0 <= k < rows.len() && one_row(format, #[trigger] rows[k], row)
}

/// Whether a line reports this listener.
pub open spec fn reports(format: Format, lines: Seq<Seq<char>>, row: ListenerView) -> bool {
    exists|i: int| 0 <= i < lines.len() && listener_in(format, #[trigger] lines[i]) == Some(row)
}

/// The rows the lines give, the first of its kind each.
pub open spec fn rows_in(format: Format, lines: Seq<Seq<char>>) -> Seq<ListenerView>
    decreases lines.len(),
{
    if lines.len() == 0 {
        seq![]
    } else {
        let before = rows_in(format, lines.drop_last());
        match listener_in(format, lines.last()) {
            Some(row) => if holds_row(format, before, row) {
                before
            } else {
                before.push(row)
            },
            None => before,
        }
    }
}

/// What a tool's output reports: each row once, by port.
pub open spec fn listeners_in(format: Format, output: Seq<char>) -> Seq<ListenerView> {
    in_order::<Listener>(rows_in(format, lines_of(output)))
}

/// The port out of `0.0.0.0:8000`, `[::]:445` or `*:8080`.
pub fn port_of(address: &[char]) -> (port: Option<u16>)
    ensures
        port == port_in(address@),
{
    let end: usize = address.len();
    match find_last_char(address, ':') {
        Some(at) => {
            let number = slice_subrange(address, at + 1, end);
            assert(number@ == address@.skip(at + 1));
            match parse_number(number, u16::MAX as u64) {
                Some(port) => Some(port as u16),
                None => None,
            }
        },
        None => None,
    }
}

fn pid_of(text: &[char]) -> (pid: Option<u32>)
    ensures
        pid == pid_in(text@),
{
    match parse_number(text, u32::MAX as u64) {
        Some(pid) => Some(pid as u32),
        None => None,
    }
}

fn field_is(field: &[char], word: &str) -> (is: bool)
    ensures
        is == (field@ == word@),
{
    same_chars(field, chars_of(word).as_slice())
}

fn field_reads(field: &[char], word: &str) -> (reads: bool)
    ensures
        reads == same_letters(field@, word@),
{
    same_ignoring_case(field, chars_of(word).as_slice())
}

fn windows_line(line: &[char]) -> (row: Option<Listener>)
    ensures
        match row {
            Some(row) => listener_in(Format::WindowsNetstat, line@) == Some(row@),
            None => listener_in(Format::WindowsNetstat, line@) is None,
        },
{
    let fields = words(line);
    assert forall|i: int| 0 <= i < fields@.len() implies words_of(line@)[i] == #[trigger] fields@[i]@ by {
        assert(views(fields@)[i] == fields@[i]@);
    }
    if fields.len() < 5 || !field_reads(fields[0].as_slice(), "tcp") || !field_reads(
        fields[3].as_slice(),
        "listening",
    ) {
        return None;
    }
    match port_of(fields[1].as_slice()) {
        Some(port) => Some(Listener { port, pid: pid_of(fields[4].as_slice()), process: None }),
        None => None,
    }
}

fn linux_line(line: &[char]) -> (row: Option<Listener>)
    ensures
        match row {
            Some(row) => listener_in(Format::LinuxNetstat, line@) == Some(row@),
            None => listener_in(Format::LinuxNetstat, line@) is None,
        },
{
    let fields = words(line);
    assert forall|i: int| 0 <= i < fields@.len() implies words_of(line@)[i] == #[trigger] fields@[i]@ by {
        assert(views(fields@)[i] == fields@[i]@);
    }
    // tcp6 as well as tcp: a socket bound to :: holds the port for everything
    // that reaches it, whichever family the caller uses.
    if fields.len() < 6 || !(field_is(fields[0].as_slice(), "tcp") || field_is(
        fields[0].as_slice(),
        "tcp6",
    )) || !field_is(fields[5].as_slice(), "LISTEN") {
        return None;
    }
    let port: u16 = match port_of(fields[3].as_slice()) {
        Some(port) => port,
        None => {
            return None;
        },
    };
    // "1085/docker-proxy", or "-" when netstat was not run as root and will not
    // say. A dash is an absence, not a process of that name.
    if fields.len() > 6 && !field_is(fields[6].as_slice(), "-") {
        let owner = fields[6].as_slice();
        let end: usize = owner.len();
        let at: usize = find_char(owner, '/');
        if at < end {
            let number = slice_subrange(owner, 0, at);
            let name = slice_subrange(owner, at + 1, end);
            assert(number@ == owner@.take(at as int));
            assert(name@ == owner@.skip(at + 1));
            return Some(Listener { port, pid: pid_of(number), process: Some(string_of(name)) });
        }
    }
    Some(Listener { port, pid: None, process: None })
}

fn owner_in_ss(line: &[char]) -> (owner: Option<(String, Option<u32>)>)
    ensures
        match owner {
            Some((name, pid)) => ss_owner(line@) == Some((name@, pid)),
            None => ss_owner(line@) is None,
        },
{
    let marker = chars_of("users:((\"");
    let start: usize = match find_text(line, marker.as_slice()) {
        Some(at) => {
            let end: usize = line.len();
            at + marker.len()
        },
        None => {
            return None;
        },
    };
    let rest = slice_subrange(line, start, line.len());
    assert(rest@ == line@.skip(start as int));
    let quote: usize = find_char(rest, '"');
    if quote == rest.len() {
        return None;
    }
    let name = slice_subrange(rest, 0, quote);
    let tail = slice_subrange(rest, quote + 1, rest.len());
    assert(name@ == rest@.take(quote as int));
    assert(tail@ == rest@.skip(quote + 1));
    let label = chars_of("pid=");
    let pid = match find_text(tail, label.as_slice()) {
        Some(at) => {
            let end: usize = tail.len();
            let number = slice_subrange(tail, at + label.len(), end);
            assert(number@ == tail@.skip(at + label@.len()));
            let digits = slice_subrange(number, 0, count_leading_digits(number));
            assert(digits@ == number@.take(leading_digits(number@)));
            pid_of(digits)
        },
        None => None,
    };
    Some((string_of(name), pid))
}

fn ss_line(line: &[char]) -> (row: Option<Listener>)
    ensures
        match row {
            Some(row) => listener_in(Format::Ss, line@) == Some(row@),
            None => listener_in(Format::Ss, line@) is None,
        },
{
    let fields = words(line);
    assert forall|i: int| 0 <= i < fields@.len() implies words_of(line@)[i] == #[trigger] fields@[i]@ by {
        assert(views(fields@)[i] == fields@[i]@);
    }
    if fields.len() < 4 {
        return None;
    }
    let port: u16 = match port_of(fields[3].as_slice()) {
        Some(port) => port,
        None => {
            return None;
        },
    };
    // A socket with no owner still holds the port; it just cannot say who.
    match owner_in_ss(line) {
        Some((name, pid)) => Some(Listener { port, pid, process: Some(name) }),
        None => Some(Listener { port, pid: None, process: None }),
    }
}

fn line_row(format: Format, line: &[char]) -> (row: Option<Listener>)
    ensures
        match row {
            Some(row) => listener_in(format, line@) == Some(row@),
            None => listener_in(format, line@) is None,
        },
{
    match format {
        Format::WindowsNetstat => windows_line(line),
        Format::LinuxNetstat => linux_line(line),
        Format::Ss => ss_line(line),
    }
}

/// Whether a row is already there.
fn has_row(format: Format, found: &Vec<Listener>, row: &Listener) -> (has: bool)
    ensures
        has == holds_row(format, views(found@), row@),
{
    let mut i: usize = 0;
    while i < found.len()
        invariant
            i <= found@.len(),
            forall|j: int| 0 <= j < i ==> !one_row(format, #[trigger] views(found@)[j], row@),
        decreases found@.len() - i,
    {
        assert(views(found@)[i as int] == found@[i as int]@);
        if found[i].port == row.port && (format != Format::WindowsNetstat || found[i].pid
            == row.pid) {
            return true;
        }
        i = i + 1;
    }
    false
}

/// Reads output known to be in `format`.
pub fn read(output: &str, format: Format) -> (listeners: Vec<Listener>)
    ensures
        views(listeners@) == listeners_in(format, output@),
{
    broadcast use lemma_views_push;

    let all = lines(chars_of(output).as_slice());
    let mut found: Vec<Listener> = Vec::new();
    let mut i: usize = 0;
    while i < all.len()
        invariant
            i <= all@.len(),
            views(all@) == lines_of(output@),
            views(found@) == rows_in(format, lines_of(output@).take(i as int)),
        decreases all@.len() - i,
    {
        assert(lines_of(output@).take(i + 1).drop_last() == lines_of(output@).take(i as int));
        assert(lines_of(output@).take(i + 1).last() == all@[i as int]@) by {
            assert(views(all@)[i as int] == all@[i as int]@);
        }
        match line_row(format, all[i].as_slice()) {
            Some(row) => {
                if !has_row(format, &found, &row) {
                    found.push(row);
                }
            },
            None => {},
        }
        i = i + 1;
    }
    assert(lines_of(output@).take(i as int) == lines_of(output@));
    sort(found)
}

/// Reads `netstat -ano -p TCP`, the shape Windows prints.
///
/// A port listening on both address families is one service, so it appears
/// once: listing it twice makes a short list look long and a duplicate look
/// like a conflict.
pub fn parse_netstat(output: &str) -> (listeners: Vec<Listener>)
    ensures
        views(listeners@) == listeners_in(Format::WindowsNetstat, output@),
{
    read(output, Format::WindowsNetstat)
}

/// Reads `netstat -lntp` as Linux prints it, which is not how Windows prints
/// it: seven columns instead of five, the state spelled LISTEN rather than
/// LISTENING, and the owner given as `1085/docker-proxy` in one field instead
/// of a bare number.
///
/// Worth having as well as `parse_ss` because `ss` comes from iproute2, which
/// slim images and older distributions often leave out - and a machine without
/// it is exactly the machine where "what is on 8000" cannot be answered any
/// other way.
pub fn parse_linux_netstat(output: &str) -> (listeners: Vec<Listener>)
    ensures
        views(listeners@) == listeners_in(Format::LinuxNetstat, output@),
{
    read(output, Format::LinuxNetstat)
}

/// Reads `ss -lntpH`, which unlike netstat already knows the name.
pub fn parse_ss(output: &str) -> (listeners: Vec<Listener>)
    ensures
        views(listeners@) == listeners_in(Format::Ss, output@),
{
    read(output, Format::Ss)
}

/// The process a line of `tasklist /NH /FO CSV` names.
pub open spec fn task_in(line: Seq<char>) -> Option<(u32, Seq<char>)> {
    let fields = split_on(line, "\",\""@);
    if fields.len() < 2 {
        None
    } else {
        match pid_in(trimmed_end_of(trimmed_start_of(fields[1], '"'), '"')) {
            Some(pid) => Some((pid, trimmed_start_of(fields[0], '"'))),
            None => None,
        }
    }
}

/// The names the lines give, the last one for a number given twice.
pub open spec fn names_in(lines: Seq<Seq<char>>) -> Map<u32, Seq<char>>
    decreases lines.len(),
{
    if lines.len() == 0 {
        Map::empty()
    } else {
        let before = names_in(lines.drop_last());
        match task_in(lines.last()) {
            Some((pid, name)) => before.insert(pid, name),
            None => before,
        }
    }
}

/// What a lookup from number to name holds.
pub open spec fn names_of(names: Map<u32, String>) -> Map<u32, Seq<char>> {
    names.map_values(|name: String| name@)
}

fn task_line(line: &[char]) -> (task: Option<(u32, String)>)
    ensures
        match task {
            Some((pid, name)) => task_in(line@) == Some((pid, name@)),
            None => task_in(line@) is None,
        },
{
    let separator = chars_of("\",\"");
    proof {
        reveal_strlit("\",\"");
    }
    let fields = split_text(line, separator.as_slice());
    assert forall|i: int| 0 <= i < fields@.len() implies split_on(line@, "\",\""@)[i]
        == #[trigger] fields@[i]@ by {
        assert(views(fields@)[i] == fields@[i]@);
    }
    if fields.len() < 2 {
        return None;
    }
    let number = trim_end_char(trim_start_char(fields[1].as_slice(), '"'), '"');
    match pid_of(number) {
        Some(pid) => Some((pid, string_of(trim_start_char(fields[0].as_slice(), '"')))),
        None => None,
    }
}

/// Reads `tasklist /NH /FO CSV` into a lookup from number to name.
pub fn parse_tasklist(output: &str) -> (names: HashMap<u32, String>)
    ensures
        names_of(names@) == names_in(lines_of(output@)),
{
    let all = lines(chars_of(output).as_slice());
    let mut names: HashMap<u32, String> = HashMap::new();
    let mut i: usize = 0;
    assert(names_of(names@) =~= names_in(lines_of(output@).take(0)));
    while i < all.len()
        invariant
            i <= all@.len(),
            views(all@) == lines_of(output@),
            names_of(names@) == names_in(lines_of(output@).take(i as int)),
        decreases all@.len() - i,
    {
        assert(lines_of(output@).take(i + 1).drop_last() == lines_of(output@).take(i as int));
        assert(lines_of(output@).take(i + 1).last() == all@[i as int]@) by {
            assert(views(all@)[i as int] == all@[i as int]@);
        }
        let ghost before = names@;
        match task_line(all[i].as_slice()) {
            Some((pid, name)) => {
                names.insert(pid, name);
                assert(names_of(names@) =~= names_of(before).insert(pid, name@));
            },
            None => {},
        }
        i = i + 1;
    }
    assert(lines_of(output@).take(i as int) == lines_of(output@));
    names
}

/// A listener with the name its number has, or none where it has none. Without
/// a number there is nothing to look up.
pub open spec fn named(listener: ListenerView, names: Map<u32, Seq<char>>) -> ListenerView {
    match listener.pid {
        Some(pid) => ListenerView {
            process: if names.contains_key(pid) {
                Some(names[pid])
            } else {
                None
            },
            ..listener
        },
        None => listener,
    }
}

/// Fills in the names for the numbers that have one. A pid the process list
/// did not report stays a number rather than becoming a guess.
pub fn attach_names(listeners: &mut Vec<Listener>, names: &HashMap<u32, String>)
    ensures
        views(final(listeners)@) == views(old(listeners)@).map_values(
            |listener: ListenerView| named(listener, names_of(names@)),
        ),
{
    let ghost before = views(listeners@);
    let mut i: usize = 0;
    while i < listeners.len()
        invariant
            i <= listeners@.len(),
            before == views(old(listeners)@),
            listeners@.len() == before.len(),
            forall|j: int|
                0 <= j < i ==> #[trigger] listeners@[j]@ == named(before[j], names_of(names@)),
            forall|j: int| i <= j < listeners@.len() ==> #[trigger] listeners@[j]@ == before[j],
        decreases listeners@.len() - i,
    {
        assert(listeners@[i as int]@ == before[i as int]);
        let port: u16 = listeners[i].port;
        if let Some(pid) = listeners[i].pid {
            let process: Option<String> = match names.get(&pid) {
                Some(name) => Some(name.clone()),
                None => None,
            };
            assert(maybe_text(process) == (if names_of(names@).contains_key(pid) {
                Some(names_of(names@)[pid])
            } else {
                None
            }));
            listeners.set(i, Listener { port, pid: Some(pid), process });
            assert(listeners@[i as int]@ == named(before[i as int], names_of(names@)));
        }
        i = i + 1;
    }
    assert(views(listeners@) =~= before.map_values(
        |listener: ListenerView| named(listener, names_of(names@)),
    ));
}

/// One way of asking what is listening.
#[derive(Debug, Clone, PartialEq, Eq)]
pub struct Probe {
    pub command: Vec<String>,
    pub format: Format,
}

/// What a probe says.
#[verifier::ext_equal]
pub struct ProbeView {
    pub command: Seq<Seq<char>>,
    pub format: Format,
}

impl View for Probe {
    type V = ProbeView;

    open spec fn view(&self) -> ProbeView {
        ProbeView { command: views(self.command@), format: self.format }
    }
}

#[derive(Debug, Clone, PartialEq, Eq)]
pub struct PortsConfig {
    /// Tried in order until one of them answers. More than one entry is how a
    /// machine without iproute2 still gets an answer.
    pub probe: Vec<Probe>,
    /// The process list, for the formats that give a pid but no name. Empty
    /// where the probe already carries names, and never fatal: losing the
    /// names costs less than losing the ports.
    pub names: Vec<String>,
}

/// What the configuration of the port list says.
#[verifier::ext_equal]
pub struct PortsConfigView {
    pub probe: Seq<ProbeView>,
    pub names: Seq<Seq<char>>,
}

impl View for PortsConfig {
    type V = PortsConfigView;

    open spec fn view(&self) -> PortsConfigView {
        PortsConfigView { probe: views(self.probe@), names: views(self.names@) }
    }
}

/// What asks for the ports on a platform when nobody has said otherwise.
pub open spec fn default_ports(platform: Platform) -> PortsConfigView {
    match platform {
        Platform::Windows => PortsConfigView {
            probe: seq![
                ProbeView {
                    command: seq!["netstat"@, "-ano"@, "-p"@, "TCP"@],
                    format: Format::WindowsNetstat,
                },
            ],
            names: seq!["tasklist"@, "/NH"@, "/FO"@, "CSV"@],
        },
        Platform::Linux => PortsConfigView {
            probe: seq![
                ProbeView { command: seq!["ss"@, "-lntpH"@], format: Format::Ss },
                ProbeView { command: seq!["netstat"@, "-lntp"@], format: Format::LinuxNetstat },
            ],
            names: seq![],
        },
        _ => PortsConfigView { probe: seq![], names: seq![] },
    }
}

impl PortsConfig {
    /// The defaults of a platform. Where no format was ever captured from a
    /// real machine there is nothing, rather than a confident wrong answer.
    pub fn default(platform: Platform) -> (config: PortsConfig)
        ensures
            config@ == default_ports(platform),
    {
        let config = match platform {
            Platform::Windows => PortsConfig {
                probe: vec![
                    Probe {
                        command: owned(&["netstat", "-ano", "-p", "TCP"]),
                        format: Format::WindowsNetstat,
                    },
                ],
                names: owned(&["tasklist", "/NH", "/FO", "CSV"]),
            },
            Platform::Linux => PortsConfig {
                // ss first because it names the process itself. netstat after
                // it, because iproute2 is missing often enough that a machine
                // without it should still get an answer.
                probe: vec![
                    Probe { command: owned(&["ss", "-lntpH"]), format: Format::Ss },
                    Probe {
                        command: owned(&["netstat", "-lntp"]),
                        format: Format::LinuxNetstat,
                    },
                ],
                names: Vec::new(),
            },
            _ => PortsConfig { probe: Vec::new(), names: Vec::new() },
        };
        assert(config@.probe =~~= default_ports(platform).probe);
        assert(config@.names =~~= default_ports(platform).names);
        config
    }
}

/// How far asking the probes has come.
#[derive(Debug)]
pub enum Listening {
    /// Run this command and hand its answer back.
    Ask(Vec<String>),
    /// The ports are known; run this command for the names.
    AskNames(Vec<String>),
    /// What is listening, or why that cannot be said.
    Done(Result<Vec<Listener>, ListenError>),
}

/// What a step says.
#[verifier::ext_equal]
pub enum ListeningView {
    Ask(Seq<Seq<char>>),
    AskNames(Seq<Seq<char>>),
    Found(Seq<ListenerView>),
    Failed(ListenErrorView),
}

impl View for Listening {
    type V = ListeningView;

    open spec fn view(&self) -> ListeningView {
        match self {
            Listening::Ask(command) => ListeningView::Ask(views(command@)),
            Listening::AskNames(command) => ListeningView::AskNames(views(command@)),
            Listening::Done(Ok(listeners)) => ListeningView::Found(views(listeners@)),
            Listening::Done(Err(error)) => ListeningView::Failed(error@),
        }
    }
}

/// Why a probe gave no answer. The reason alone: what every one of them would
/// repeat is said once.
pub open spec fn refusal_text(error: ListenErrorView) -> Seq<char> {
    match error {
        ListenErrorView::Unavailable(reason) => reason,
        _ => listen_error_text(error),
    }
}

/// What a command that was run came back with.
pub open spec fn answer_view(answer: Result<String, ListenError>) -> Result<
    Seq<char>,
    ListenErrorView,
> {
    match answer {
        Ok(output) => Ok(output@),
        Err(error) => Err(error@),
    }
}

/// The answers, in the order the commands were run.
pub open spec fn answers_view(answers: Seq<Result<String, ListenError>>) -> Seq<
    Result<Seq<char>, ListenErrorView>,
> {
    answers.map_values(|answer: Result<String, ListenError>| answer_view(answer))
}

/// What the process list came back with: not asked yet, refused, or its output.
pub open spec fn names_answer(names: Option<Option<String>>) -> Option<Option<Seq<char>>> {
    match names {
        Some(answer) => Some(maybe_text(answer)),
        None => None,
    }
}

/// What follows once a probe has answered.
pub open spec fn after_answer(
    config: PortsConfigView,
    format: Format,
    output: Seq<char>,
    names: Option<Option<Seq<char>>>,
) -> ListeningView {
    let found = listeners_in(format, output);
    if config.names.len() == 0 {
        ListeningView::Found(found)
    } else {
        match names {
            None => ListeningView::AskNames(config.names),
            Some(None) => ListeningView::Found(found),
            Some(Some(processes)) => ListeningView::Found(
                found.map_values(
                    |listener: ListenerView| named(listener, names_in(lines_of(processes))),
                ),
            ),
        }
    }
}

/// What to do after the first `at` probes refused for the reasons `refused`,
/// with the answers still to be read.
pub open spec fn listening_from(
    config: PortsConfigView,
    at: int,
    answers: Seq<Result<Seq<char>, ListenErrorView>>,
    refused: Seq<Seq<char>>,
    names: Option<Option<Seq<char>>>,
) -> ListeningView
    decreases config.probe.len() - at,
{
    if at >= config.probe.len() {
        ListeningView::Failed(
            ListenErrorView::Unavailable(
                "nothing could list the ports: "@ + joined(refused, "; "@),
            ),
        )
    } else if config.probe[at].command.len() == 0 {
        listening_from(
            config,
            at + 1,
            answers,
            refused.push("a probe with no command in it"@),
            names,
        )
    } else if answers.len() == 0 {
        ListeningView::Ask(config.probe[at].command)
    } else {
        match answers[0] {
            Ok(output) => after_answer(config, config.probe[at].format, output, names),
            Err(error) => listening_from(
                config,
                at + 1,
                answers.skip(1),
                refused.push(refusal_text(error)),
                names,
            ),
        }
    }
}

/// What to do next, given every answer so far.
pub open spec fn listening_next(
    config: PortsConfigView,
    answers: Seq<Result<Seq<char>, ListenErrorView>>,
    names: Option<Option<Seq<char>>>,
) -> ListeningView {
    if config.probe.len() == 0 {
        ListeningView::Failed(
            ListenErrorView::Unavailable(
                "nothing is configured to list ports on this platform; set [ports].probe"@,
            ),
        )
    } else {
        listening_from(config, 0, answers, seq![], names)
    }
}

/// Asks each configured probe in turn, and takes the first answer.
///
/// Running a command is the caller's part: `answers` holds what the commands
/// asked for so far came back with, and `names` what the process list did. The
/// result is the next command to run, or the end.
pub fn listening(
    config: &PortsConfig,
    answers: &Vec<Result<String, ListenError>>,
    names: &Option<Option<String>>,
) -> (next: Listening)
    ensures
        next@ == listening_next(config@, answers_view(answers@), names_answer(*names)),
{
    broadcast use lemma_views_push;

    if config.probe.len() == 0 {
        return Listening::Done(
            Err(
                ListenError::Unavailable(
                    "nothing is configured to list ports on this platform; set [ports].probe".to_owned(),
                ),
            ),
        );
    }
    let ghost given = answers_view(answers@);
    let mut refused: Vec<String> = Vec::new();
    let mut used: usize = 0;
    let mut at: usize = 0;
    assert(given.skip(0) == given);
    assert(views(refused@) =~= Seq::<Seq<char>>::empty());
    while at < config.probe.len()
        invariant
            at <= config.probe@.len(),
            used <= answers@.len(),
            given == answers_view(answers@),
            listening_next(config@, given, names_answer(*names)) == listening_from(
                config@,
                at as int,
                given.skip(used as int),
                views(refused@),
                names_answer(*names),
            ),
        decreases config.probe@.len() - at,
    {
        let probe = &config.probe[at];
        let ghost before = views(refused@);
        assert(config@.probe[at as int] == probe@);
        if probe.command.len() == 0 {
            refused.push("a probe with no command in it".to_owned());
            assert(views(refused@) == before.push("a probe with no command in it"@));
            assert(listening_next(config@, given, names_answer(*names)) == listening_from(
                config@,
                at + 1,
                given.skip(used as int),
                views(refused@),
                names_answer(*names),
            ));
        } else if used == answers.len() {
            return Listening::Ask(copy_texts(probe.command.as_slice()));
        } else {
            assert(given.skip(used as int)[0] == answer_view(answers@[used as int]));
            match &answers[used] {
                Ok(output) => {
                    let mut listeners = read(output.as_str(), probe.format);
                    if config.names.len() > 0 {
                        match names {
                            None => {
                                return Listening::AskNames(copy_texts(config.names.as_slice()));
                            },
                            Some(None) => {},
                            // A missing process list costs the names, not the
                            // ports, so it is not allowed to fail the answer.
                            Some(Some(processes)) => {
                                attach_names(&mut listeners, &parse_tasklist(processes.as_str()));
                            },
                        }
                    }
                    return Listening::Done(Ok(listeners));
                },
                // Kept rather than replaced: with only the last one shown, a
                // machine missing every tool cannot be told from one where the
                // first tool merely errored.
                Err(error) => {
                    let reason = match error {
                        ListenError::Unavailable(reason) => reason.clone(),
                        ListenError::Unsupported => error.to_string(),
                    };
                    assert(reason@ == refusal_text(error@));
                    assert(given.skip(used as int)[0] == Err::<Seq<char>, ListenErrorView>(error@));
                    refused.push(reason);
                    assert(views(refused@) == before.push(refusal_text(error@)));
                },
            }
            assert(given.skip(used as int).skip(1) == given.skip(used + 1));
            used = used + 1;
        }
        at = at + 1;
    }
    let mut text = "nothing could list the ports: ".to_owned();
    text.append(join(refused.as_slice(), "; ").as_str());
    Listening::Done(Err(ListenError::Unavailable(text)))
}

/// The placeholder a kill command puts the process number in.
pub const PID: &'static str = "{pid}";

/// What ends a process on a platform, when nobody has said otherwise.
pub open spec fn kill_on(platform: Platform) -> Seq<Seq<char>> {
    match platform {
        Platform::Windows => seq!["taskkill"@, "/PID"@, "{pid}"@, "/F"@],
        _ => seq!["kill"@, "-TERM"@, "{pid}"@],
    }
}

/// What ends a process on `platform`, when nobody has said otherwise.
pub fn default_kill(platform: Platform) -> (command: Vec<String>)
    ensures
        views(command@) == kill_on(platform),
{
    let command = match platform {
        Platform::Windows => owned(&["taskkill", "/PID", PID, "/F"]),
        _ => owned(&["kill", "-TERM", PID]),
    };
    assert(views(command@) =~= kill_on(platform));
    command
}

/// What ending a process runs: the program as it is, and the arguments with the
/// number in place of the placeholder. The handful of numbers that are the
/// operating system itself are refused.
pub open spec fn terminate_with(command: Seq<Seq<char>>, pid: u32) -> Result<
    Seq<Seq<char>>,
    ListenErrorView,
> {
    if pid <= 4 {
        Err(
            ListenErrorView::Unavailable(
                decimal(pid as nat) + " belongs to the operating system"@,
            ),
        )
    } else if command.len() == 0 {
        Err(
            ListenErrorView::Unavailable(
                "nothing is configured to end a process; set [tools].kill"@,
            ),
        )
    } else {
        Ok(
            seq![command[0]] + command.skip(1).map_values(
                |argument: Seq<char>| replaced(argument, "{pid}"@, decimal(pid as nat)),
            ),
        )
    }
}

/// The command line that ends a process. Refuses the handful of numbers that
/// are the operating system itself, because "free this port" should never mean
/// "reboot".
pub fn terminate(command: &[String], pid: u32) -> (line: Result<Vec<String>, ListenError>)
    ensures
        match line {
            Ok(line) => terminate_with(views(command@), pid) == Ok::<
                Seq<Seq<char>>,
                ListenErrorView,
            >(views(line@)),
            Err(error) => terminate_with(views(command@), pid) == Err::<
                Seq<Seq<char>>,
                ListenErrorView,
            >(error@),
        },
{
    broadcast use lemma_views_push;

    let number = number_text(pid as u64);
    if pid <= 4 {
        let mut text = number;
        text.append(" belongs to the operating system");
        return Err(ListenError::Unavailable(text));
    }
    // An empty command means somebody deliberately removed it. Falling back to
    // a default they had just deleted would be the opposite of obeying them.
    if command.len() == 0 {
        return Err(
            ListenError::Unavailable(
                "nothing is configured to end a process; set [tools].kill".to_owned(),
            ),
        );
    }
    let mut line: Vec<String> = vec![command[0].clone()];
    let ghost all = views(command@);
    let ghost expected = seq![all[0]] + all.skip(1).map_values(
        |argument: Seq<char>| replaced(argument, "{pid}"@, decimal(pid as nat)),
    );
    let mut i: usize = 1;
    assert(views(line@) =~= expected.take(1));
    while i < command.len()
        invariant
            1 <= i <= command@.len(),
            number@ == decimal(pid as nat),
            all == views(command@),
            expected == seq![all[0]] + all.skip(1).map_values(
                |argument: Seq<char>| replaced(argument, "{pid}"@, decimal(pid as nat)),
            ),
            views(line@) == expected.take(i as int),
        decreases command@.len() - i,
    {
        proof {
            reveal_strlit("{pid}");
        }
        line.push(replace_text(command[i].as_str(), PID, number.as_str()));
        assert(expected[i as int] == replaced(all[i as int], "{pid}"@, decimal(pid as nat)));
        assert(expected.take(i + 1) == expected.take(i as int).push(expected[i as int]));
        i = i + 1;
    }
    assert(expected.take(i as int) == expected);
    Ok(line)
}

/// What a finished command means: its output, or why it failed.
pub open spec fn captured_as(
    program: Seq<char>,
    success: bool,
    code: Option<i32>,
    stdout: Seq<char>,
    stderr: Seq<char>,
) -> Result<Seq<char>, ListenErrorView> {
    if success {
        Ok(stdout)
    } else {
        let number = match code {
            Some(code) => code as int,
            None => -1,
        };
        Err(
            ListenErrorView::Unavailable(
                program + " exited "@ + signed_decimal(number) + ": "@ + trimmed(stderr),
            ),
        )
    }
}

/// Reads what a finished command came back with.
pub fn captured(
    program: &str,
    success: bool,
    code: Option<i32>,
    stdout: String,
    stderr: &str,
) -> (answer: Result<String, ListenError>)
    ensures
        answer_view(answer) == captured_as(program@, success, code, stdout@, stderr@),
{
    if success {
        return Ok(stdout);
    }
    let number: i32 = match code {
        Some(code) => code,
        None => -1,
    };
    let mut text = program.to_owned();
    text.append(" exited ");
    text.append(signed_text(number).as_str());
    text.append(": ");
    text.append(string_of(trim(chars_of(stderr).as_slice())).as_str());
    Err(ListenError::Unavailable(text))
}

proof fn lemma_rows_distinct(format: Format, lines: Seq<Seq<char>>)
    ensures
        forall|i: int, j: int|
            0 <= i < j < rows_in(format, lines).len() ==> !one_row(
                format,
                #[trigger] rows_in(format, lines)[i],
                #[trigger] rows_in(format, lines)[j],
            ),
    decreases lines.len(),
{
    if lines.len() > 0 {
        lemma_rows_distinct(format, lines.drop_last());
        let before = rows_in(format, lines.drop_last());
        let rows = rows_in(format, lines);
        assert forall|i: int, j: int| 0 <= i < j < rows.len() implies !one_row(
            format,
            #[trigger] rows[i],
            #[trigger] rows[j],
        ) by {
            assert(rows[i] == before[i]);
            if j < before.len() {
                assert(rows[j] == before[j]);
            }
        }
    }
}

/// Ports come back in order, so the list reads the same way twice.
pub proof fn law_listeners_come_by_port(format: Format, output: Seq<char>)
    ensures
        is_ordered::<Listener>(listeners_in(format, output)),
{
    law_sorting_orders_and_keeps::<Listener>(rows_in(format, lines_of(output)));
}

/// Every listener a line reports has its row in the list, and nothing is in the
/// list that no line reports.
pub proof fn law_listeners_are_what_the_lines_report(
    format: Format,
    output: Seq<char>,
    row: ListenerView,
)
    ensures
        listeners_in(format, output).contains(row) ==> reports(format, lines_of(output), row),
        reports(format, lines_of(output), row) ==> holds_row(
            format,
            listeners_in(format, output),
            row,
        ),
{
    let lines = lines_of(output);
    let rows = rows_in(format, lines);
    let sorted = listeners_in(format, output);
    lemma_in_order_contains::<Listener>(rows, row);
    if sorted.contains(row) {
        lemma_row_reported(format, lines, rows.index_of(row));
    }
    if reports(format, lines, row) {
        let i = choose|i: int|
            0 <= i < lines.len() && listener_in(format, #[trigger] lines[i]) == Some(row);
        lemma_report_held(format, lines, i);
        let k = choose|k: int| 0 <= k < rows.len() && one_row(format, #[trigger] rows[k], row);
        lemma_in_order_contains::<Listener>(rows, rows[k]);
        assert(rows.contains(rows[k]));
        let at = sorted.index_of(rows[k]);
        assert(one_row(format, sorted[at], row));
    }
}

proof fn lemma_row_reported(format: Format, lines: Seq<Seq<char>>, k: int)
    requires
        0 <= k < rows_in(format, lines).len(),
    ensures
        reports(format, lines, rows_in(format, lines)[k]),
    decreases lines.len(),
{
    let front = lines.drop_last();
    let before = rows_in(format, front);
    let row = rows_in(format, lines)[k];
    if k < before.len() {
        lemma_row_reported(format, front, k);
        let i = choose|i: int|
            0 <= i < front.len() && listener_in(format, #[trigger] front[i]) == Some(before[k]);
        assert(lines[i] == front[i]);
        assert(row == before[k]);
    } else {
        assert(listener_in(format, lines[lines.len() - 1]) == Some(row));
    }
}

proof fn lemma_report_held(format: Format, lines: Seq<Seq<char>>, i: int)
    requires
        0 <= i < lines.len(),
        listener_in(format, lines[i]) is Some,
    ensures
        holds_row(format, rows_in(format, lines), listener_in(format, lines[i])->0),
    decreases lines.len(),
{
    let front = lines.drop_last();
    let before = rows_in(format, front);
    let rows = rows_in(format, lines);
    let row = listener_in(format, lines[i])->0;
    if i < front.len() {
        assert(front[i] == lines[i]);
        lemma_report_held(format, front, i);
        let k = choose|k: int| 0 <= k < before.len() && one_row(format, #[trigger] before[k], row);
        assert(rows[k] == before[k]);
    } else if !holds_row(format, before, row) {
        assert(rows == before.push(row));
        assert(one_row(format, rows[before.len() as int], row));
    }
}

/// One service holding one port is one row: no two rows of the list are the
/// same one.
pub proof fn law_a_port_is_listed_once(format: Format, output: Seq<char>)
    ensures
        forall|i: int, j: int|
            0 <= i < j < listeners_in(format, output).len() ==> !one_row(
                format,
                #[trigger] listeners_in(format, output)[i],
                #[trigger] listeners_in(format, output)[j],
            ),
{
    let rows = rows_in(format, lines_of(output));
    let sorted = listeners_in(format, output);
    lemma_rows_distinct(format, lines_of(output));
    lemma_in_order_distinct(format, rows);
}

proof fn lemma_in_order_distinct(format: Format, rows: Seq<ListenerView>)
    requires
        forall|i: int, j: int|
            0 <= i < j < rows.len() ==> !one_row(format, #[trigger] rows[i], #[trigger] rows[j]),
    ensures
        forall|i: int, j: int|
            0 <= i < j < in_order::<Listener>(rows).len() ==> !one_row(
                format,
                #[trigger] in_order::<Listener>(rows)[i],
                #[trigger] in_order::<Listener>(rows)[j],
            ),
{
    broadcast use vstd::seq_lib::group_to_multiset_ensures;

    let sorted = in_order::<Listener>(rows);
    law_sorting_orders_and_keeps::<Listener>(rows);
    assert(rows.no_duplicates()) by {
        assert forall|i: int, j: int| 0 <= i < j < rows.len() implies rows[i] != rows[j] by {
            assert(!one_row(format, rows[i], rows[j]));
        }
    }
    rows.lemma_multiset_has_no_duplicates();
    sorted.lemma_multiset_has_no_duplicates_conv();
    assert forall|i: int, j: int| 0 <= i < j < sorted.len() implies !one_row(
        format,
        #[trigger] sorted[i],
        #[trigger] sorted[j],
    ) by {
        assert(sorted[i] != sorted[j]);
        lemma_in_order_contains::<Listener>(rows, sorted[i]);
        lemma_in_order_contains::<Listener>(rows, sorted[j]);
        assert(sorted.contains(sorted[i]) && sorted.contains(sorted[j]));
        let a = rows.index_of(sorted[i]);
        let b = rows.index_of(sorted[j]);
        if a < b {
            assert(!one_row(format, rows[a], rows[b]));
        } else {
            assert(!one_row(format, rows[b], rows[a]));
        }
    }
}

/// The numbers that are the operating system itself are never ended, whatever
/// command is configured.
pub proof fn law_the_system_is_never_ended(command: Seq<Seq<char>>, pid: u32)
    ensures
        terminate_with(command, pid) is Ok <==> pid > 4 && command.len() > 0,
{
}

/// The port of an address is the number behind its last colon, whatever stands
/// in front: a name, an address in brackets, or nothing.
pub proof fn law_the_port_follows_the_last_colon(front: Seq<char>, n: u16)
    ensures
        port_in(front + ":"@ + decimal(n as nat)) == Some(n),
{
    reveal_strlit(":");
    let address = front + ":"@ + decimal(n as nat);
    lemma_decimal_reads_back(n as nat, u16::MAX as nat);
    assert forall|i: int| front.len() < i < address.len() implies address[i] != ':' by {
        assert(address[i] == decimal(n as nat)[i - front.len() - 1]);
        assert(is_digit(address[i]));
    }
    assert(address[front.len() as int] == ':');
    lemma_last_index_of_is(address, ':', front.len() as int);
    assert(address.skip(front.len() as int + 1) =~= decimal(n as nat));
}

/// An address without a colon has no port, nor has one with anything but digits
/// behind the last colon, or with a number no port can be.
pub proof fn law_anything_else_is_no_port(front: Seq<char>, rest: Seq<char>, n: nat)
    requires
        forall|i: int| 0 <= i < rest.len() ==> rest[i] != ':',
    ensures
        port_in(rest) is None,
        port_in(front + ":"@) is None,
        rest.len() > 0 && !is_digit(rest.last()) ==> port_in(front + ":"@ + rest) is None,
        n > 65535 ==> port_in(front + ":"@ + decimal(n)) is None,
{
    reveal_strlit(":");
    lemma_last_index_of_is(rest, ':', -1);
    let bare = front + ":"@;
    lemma_last_index_of_is(bare, ':', front.len() as int);
    law_numbers_are_read_as_written(n, u16::MAX as nat, rest);
    assert(bare.skip(front.len() as int + 1) =~= Seq::<char>::empty());
    let address = front + ":"@ + rest;
    assert forall|i: int| front.len() < i < address.len() implies address[i] != ':' by {
        assert(address[i] == rest[i - front.len() - 1]);
    }
    lemma_last_index_of_is(address, ':', front.len() as int);
    assert(address.skip(front.len() as int + 1) =~= rest);
    if rest.len() > 0 && !is_digit(rest.last()) {
        let digits = if rest[0] == '+' {
            rest.skip(1)
        } else {
            rest
        };
        if digits.len() > 0 {
            assert(digits[digits.len() - 1] == rest.last());
            assert(!all_digits(digits));
        }
    }
    let other = front + ":"@ + decimal(n);
    lemma_decimal_reads_back(n, n);
    assert forall|i: int| front.len() < i < other.len() implies other[i] != ':' by {
        assert(other[i] == decimal(n)[i - front.len() - 1]);
        assert(is_digit(other[i]));
    }
    lemma_last_index_of_is(other, ':', front.len() as int);
    assert(other.skip(front.len() as int + 1) =~= decimal(n));
}

/// A line of `ss` is a listener where its fourth field ends in a port; the owner
/// does not decide that. A line of fewer fields is none.
pub proof fn law_ss_lists_every_socket(line: Seq<char>, front: Seq<char>, port: u16)
    ensures
        words_of(line).len() < 4 ==> listener_in(Format::Ss, line) is None,
        words_of(line).len() >= 4 && words_of(line)[3] == front + ":"@ + decimal(port as nat) ==> (
        listener_in(Format::Ss, line) matches Some(row) && row.port == port && (match ss_owner(
            line,
        ) {
            Some((name, pid)) => row.process == Some(name) && row.pid == pid,
            None => row.process is None && row.pid is None,
        })),
{
    law_the_port_follows_the_last_colon(front, port);
}

/// `ss` names the owner of a socket in quotes behind `users:((`, and its number
/// behind the next `pid=`; a line without that names none.
pub proof fn law_ss_names_the_owner(
    front: Seq<char>,
    name: Seq<char>,
    between: Seq<char>,
    pid: u32,
    rest: Seq<char>,
)
    requires
        forall|i: int| 0 <= i < front.len() ==> front[i] != 'u',
        forall|i: int| 0 <= i < name.len() ==> name[i] != '"',
        forall|i: int| 0 <= i < between.len() ==> between[i] != 'p',
        rest.len() > 0 ==> !is_digit(rest[0]),
    ensures
        ss_owner(front) is None,
        ss_owner(
            front + "users:((\""@ + name + "\""@ + between + "pid="@ + decimal(pid as nat) + rest,
        ) == Some((name, Some(pid))),
        ss_owner(front + "users:((\""@ + name + "\""@ + between) == Some((name, None::<u32>)),
{
    let mark = "users:((\""@;
    let digits = decimal(pid as nat);
    let tail = between + "pid="@ + digits + rest;
    lemma_ss_owner_stands_behind_the_mark(front, name, tail);
    lemma_ss_owner_stands_behind_the_mark(front, name, between);
    assert(front + mark + name + "\""@ + tail =~= front + mark + name + "\""@ + between + "pid="@
        + digits + rest);
    lemma_number_behind_pid(between, pid, rest);
}

/// The number behind the first `pid=` of a text.
spec fn number_behind_pid(tail: Seq<char>) -> Option<u32> {
    match position_of(tail, "pid="@) {
        Some(start) => {
            let number = tail.skip(start + "pid="@.len());
            pid_in(number.take(leading_digits(number)))
        },
        None => None,
    }
}

#[verifier::rlimit(40)]
proof fn lemma_ss_owner_stands_behind_the_mark(
    front: Seq<char>,
    name: Seq<char>,
    tail: Seq<char>,
)
    requires
        forall|i: int| 0 <= i < front.len() ==> front[i] != 'u',
        forall|i: int| 0 <= i < name.len() ==> name[i] != '"',
    ensures
        ss_owner(front) is None,
        ss_owner(front + "users:((\""@ + name + "\""@ + tail) == Some(
            (name, number_behind_pid(tail)),
        ),
{
    reveal_strlit("users:((\"");
    reveal_strlit("\"");
    let mark = "users:((\""@;
    let named = name + "\""@ + tail;
    let line = front + mark + named;
    assert(line =~= front + mark + name + "\""@ + tail);
    law_a_text_is_found_where_it_stands(front, mark, named);
    assert(line.skip((front.len() + mark.len()) as int) =~= named);
    assert(named[name.len() as int] == '"');
    lemma_index_of_is(named, '"', name.len() as int);
    assert(named.take(name.len() as int) =~= name);
    assert(named.skip(name.len() as int + 1) =~= tail);
}

#[verifier::rlimit(40)]
proof fn lemma_number_behind_pid(between: Seq<char>, pid: u32, rest: Seq<char>)
    requires
        forall|i: int| 0 <= i < between.len() ==> between[i] != 'p',
        rest.len() > 0 ==> !is_digit(rest[0]),
    ensures
        number_behind_pid(between) is None,
        number_behind_pid(between + "pid="@ + decimal(pid as nat) + rest) == Some(pid),
{
    reveal_strlit("pid=");
    let digits = decimal(pid as nat);
    lemma_decimal_reads_back(pid as nat, u32::MAX as nat);
    let number = digits + rest;
    let tail = between + "pid="@ + number;
    assert(tail =~= between + "pid="@ + digits + rest);
    law_a_text_is_found_where_it_stands(between, "pid="@, number);
    assert(tail.skip((between.len() + 4) as int) =~= number);
    lemma_leading_digits_is(digits, rest);
    assert(number.take(digits.len() as int) =~= digits);
}

/// A line of Linux's netstat is a listener where its protocol is `tcp` or
/// `tcp6`, its state is `LISTEN` and its fourth field ends in a port. Its owner
/// is a number, a slash and a name; a dash, or no field at all, is none.
#[verifier::rlimit(40)]
pub proof fn law_linux_netstat_lists_listening_sockets(
    line: Seq<char>,
    front: Seq<char>,
    port: u16,
    pid: u32,
    name: Seq<char>,
)
    ensures
        ({
            let fields = words_of(line);
            let row = listener_in(Format::LinuxNetstat, line);
            &&& fields.len() < 6 || (fields[0] != "tcp"@ && fields[0] != "tcp6"@) || fields[5]
                != "LISTEN"@ ==> row is None
            &&& fields.len() >= 6 && (fields[0] == "tcp"@ || fields[0] == "tcp6"@) && fields[5]
                == "LISTEN"@ && fields[3] == front + ":"@ + decimal(port as nat) ==> {
                &&& row is Some && row->0.port == port
                &&& fields.len() > 6 && fields[6] == decimal(pid as nat) + "/"@ + name ==> row->0.pid
                    == Some(pid) && row->0.process == Some(name)
                &&& fields.len() == 6 || fields[6] == "-"@ ==> row->0.pid is None
                    && row->0.process is None
            }
        }),
{
    reveal_strlit("/");
    reveal_strlit("-");
    law_the_port_follows_the_last_colon(front, port);
    lemma_decimal_reads_back(pid as nat, u32::MAX as nat);
    let digits = decimal(pid as nat);
    let owner = digits + "/"@ + name;
    assert forall|i: int| 0 <= i < digits.len() implies owner[i] != '/' by {
        assert(owner[i] == digits[i]);
        assert(is_digit(digits[i]));
    }
    assert(owner[digits.len() as int] == '/');
    lemma_index_of_is(owner, '/', digits.len() as int);
    assert(owner.take(digits.len() as int) =~= digits);
    assert(owner.skip(digits.len() as int + 1) =~= name);
    assert(is_digit(owner[0])) by {
        assert(owner[0] == digits[0]);
    }
}

/// A line of Windows' netstat is a listener where its protocol is TCP and its
/// state is LISTENING, in any case, and its second field ends in a port; the
/// fifth field is the owner.
pub proof fn law_windows_netstat_lists_listening_sockets(
    line: Seq<char>,
    front: Seq<char>,
    port: u16,
    pid: u32,
)
    ensures
        ({
            let fields = words_of(line);
            let row = listener_in(Format::WindowsNetstat, line);
            &&& fields.len() < 5 || !same_letters(fields[0], "TCP"@) || !same_letters(
                fields[3],
                "LISTENING"@,
            ) ==> row is None
            &&& fields.len() >= 5 && same_letters(fields[0], "TCP"@) && same_letters(
                fields[3],
                "LISTENING"@,
            ) && fields[1] == front + ":"@ + decimal(port as nat) ==> {
                &&& row is Some && row->0.port == port && row->0.process is None
                &&& fields[4] == decimal(pid as nat) ==> row->0.pid == Some(pid)
            }
        }),
{
    reveal_strlit("tcp");
    reveal_strlit("TCP");
    reveal_strlit("listening");
    reveal_strlit("LISTENING");
    law_the_port_follows_the_last_colon(front, port);
    lemma_decimal_reads_back(pid as nat, u32::MAX as nat);
    let fields = words_of(line);
    assert(same_letters("tcp"@, "TCP"@));
    assert(same_letters("listening"@, "LISTENING"@));
    lemma_same_letters_carry(fields[0], "tcp"@, "TCP"@);
    lemma_same_letters_carry(fields[3], "listening"@, "LISTENING"@);
}

proof fn lemma_same_letters_carry(text: Seq<char>, left: Seq<char>, right: Seq<char>)
    requires
        same_letters(left, right),
    ensures
        same_letters(text, left) == same_letters(text, right),
{
    if same_letters(text, left) {
        assert forall|i: int| 0 <= i < text.len() implies lower(#[trigger] text[i]) == lower(
            right[i],
        ) by {
            assert(lower(left[i]) == lower(right[i]));
        }
    }
    if same_letters(text, right) {
        assert forall|i: int| 0 <= i < text.len() implies lower(#[trigger] text[i]) == lower(
            left[i],
        ) by {
            assert(lower(left[i]) == lower(right[i]));
        }
    }
}

/// The process list gives a number its name: the first quoted field of a line
/// names the process that the second numbers, and the last line to name one
/// wins.
#[verifier::rlimit(40)]
pub proof fn law_the_process_list_names_numbers(
    lines: Seq<Seq<char>>,
    name: Seq<char>,
    pid: u32,
    rest: Seq<char>,
)
    requires
        name.len() > 0 && name[0] != ',',
        forall|i: int| 0 <= i < name.len() ==> name[i] != '"',
    ensures
        names_in(
            lines.push("\""@ + name + "\",\""@ + decimal(pid as nat) + "\",\""@ + rest),
        ) == names_in(lines).insert(pid, name),
{
    reveal_strlit("\"");
    reveal_strlit("\",\"");
    let separator = "\",\""@;
    let digits = decimal(pid as nat);
    lemma_decimal_reads_back(pid as nat, u32::MAX as nat);
    let behind = digits + separator + rest;
    let line = "\""@ + name + separator + behind;
    assert(line =~= "\""@ + name + separator + digits + separator + rest);
    assert(line[0] == '"' && line[1] == name[0]);
    assert(!begins_with(line, separator)) by {
        if begins_with(line, separator) {
            assert(line.take(3)[1] == line[1]);
        }
    }
    assert(line.skip(1) =~= name + separator + behind);
    law_a_text_is_found_where_it_stands(name, separator, behind);
    let at = name.len() as int + 1;
    assert(position_of(line, separator) == Some(at));
    assert(line.take(at) =~= "\""@ + name);
    assert(line.skip(at + 3) =~= behind);
    assert forall|i: int| 0 <= i < digits.len() implies digits[i] != separator[0] by {
        assert(is_digit(digits[i]));
    }
    law_pieces_come_apart(digits, separator, rest);
    let fields = split_on(line, separator);
    assert(fields =~= seq!["\""@ + name] + (seq![digits] + split_on(rest, separator)));
    assert(fields[0] == "\""@ + name);
    assert(fields[1] == digits);
    assert(is_digit(digits[0]));
    assert(is_digit(digits[digits.len() - 1]));
    assert(trimmed_start_of(digits, '"') == digits);
    assert(trimmed_end_of(digits, '"') == digits);
    assert(("\""@ + name).skip(1) =~= name);
    assert(trimmed_start_of("\""@ + name, '"') == trimmed_start_of(name, '"'));
    assert(trimmed_start_of(name, '"') == name);
    assert(task_in(line) == Some((pid, name)));
    let all = lines.push("\""@ + name + separator + digits + separator + rest);
    assert(all.drop_last() =~= lines);
    assert(all.last() == line);
}

/// A name is attached by number: the port and the number stay, and the process
/// is what the list calls that number, or nothing. A listener without a number
/// stays as it was.
pub proof fn law_names_are_attached_by_number(
    listener: ListenerView,
    names: Map<u32, Seq<char>>,
)
    ensures
        named(listener, names).port == listener.port,
        named(listener, names).pid == listener.pid,
        listener.pid is None ==> named(listener, names).process == listener.process,
        listener.pid matches Some(pid) ==> (if names.contains_key(pid) {
            named(listener, names).process == Some(names[pid])
        } else {
            named(listener, names).process is None
        }),
{
}

/// The first line that reports a port is the one listed: a later line adds a row
/// of its own or nothing, and changes none. It adds nothing where the port is
/// listed already; on Windows the owner has to be the same too.
pub proof fn law_a_later_line_changes_no_row(
    format: Format,
    lines: Seq<Seq<char>>,
    line: Seq<char>,
)
    ensures
        ({
            let before = rows_in(format, lines);
            let all = rows_in(format, lines.push(line));
            match listener_in(format, line) {
                None => all == before,
                Some(row) => if exists|k: int|
                    0 <= k < before.len() && (#[trigger] before[k]).port == row.port && (before[k].pid
                        == row.pid || !(format is WindowsNetstat)) {
                    all == before
                } else {
                    all == before.push(row)
                },
            }
        }),
{
    assert(lines.push(line).drop_last() =~= lines);
    let before = rows_in(format, lines);
    if let Some(row) = listener_in(format, line) {
        if holds_row(format, before, row) {
            let k = choose|k: int|
                0 <= k < before.len() && one_row(format, #[trigger] before[k], row);
            assert(before[k].port == row.port);
        }
        if exists|k: int|
            0 <= k < before.len() && (#[trigger] before[k]).port == row.port && (before[k].pid
                == row.pid || !(format is WindowsNetstat)) {
            let k = choose|k: int|
                0 <= k < before.len() && (#[trigger] before[k]).port == row.port && (before[k].pid
                    == row.pid || !(format is WindowsNetstat));
            assert(one_row(format, before[k], row));
        }
    }
}

/// Probes are asked in turn while each refuses. The next one is asked while there
/// is one left, and once all have refused, every reason is told.
pub proof fn law_probes_are_asked_in_turn(
    config: PortsConfigView,
    reasons: Seq<Seq<char>>,
    names: Option<Option<Seq<char>>>,
)
    requires
        0 < config.probe.len(),
        reasons.len() <= config.probe.len(),
        forall|i: int| 0 <= i < config.probe.len() ==> (#[trigger] config.probe[i]).command.len() > 0,
    ensures
        ({
            let answers = reasons.map_values(
                |reason: Seq<char>|
                    Err::<Seq<char>, ListenErrorView>(ListenErrorView::Unavailable(reason)),
            );
            let next = listening_next(config, answers, names);
            if reasons.len() < config.probe.len() {
                next == ListeningView::Ask(config.probe[reasons.len() as int].command)
            } else {
                next == ListeningView::Failed(
                    ListenErrorView::Unavailable(
                        "nothing could list the ports: "@ + joined(reasons, "; "@),
                    ),
                )
            }
        }),
{
    lemma_refusals_go_on(config, 0, reasons, None, seq![], names);
    assert(Seq::<Seq<char>>::empty() + reasons =~= reasons);
}

/// The first probe that answers is the one that is read, in its own format.
/// Without a process list that is the answer; with one it is asked for first,
/// and one that cannot be had costs the names alone.
#[verifier::rlimit(40)]
pub proof fn law_the_first_answer_is_read(
    config: PortsConfigView,
    reasons: Seq<Seq<char>>,
    output: Seq<char>,
    processes: Seq<char>,
)
    requires
        reasons.len() < config.probe.len(),
        forall|i: int| 0 <= i < config.probe.len() ==> (#[trigger] config.probe[i]).command.len() > 0,
    ensures
        ({
            let answers = reasons.map_values(
                |reason: Seq<char>|
                    Err::<Seq<char>, ListenErrorView>(ListenErrorView::Unavailable(reason)),
            ).push(Ok(output));
            let found = listeners_in(config.probe[reasons.len() as int].format, output);
            &&& config.names.len() == 0 ==> listening_next(config, answers, None)
                == ListeningView::Found(found)
            &&& config.names.len() > 0 ==> listening_next(config, answers, None)
                == ListeningView::AskNames(config.names)
            &&& listening_next(config, answers, Some(None)) == ListeningView::Found(found)
            &&& config.names.len() > 0 ==> listening_next(config, answers, Some(Some(processes)))
                == ListeningView::Found(
                found.map_values(
                    |listener: ListenerView| named(listener, names_in(lines_of(processes))),
                ),
            )
        }),
{
    lemma_refusals_go_on(config, 0, reasons, Some(output), seq![], None);
    lemma_refusals_go_on(config, 0, reasons, Some(output), seq![], Some(None));
    lemma_refusals_go_on(config, 0, reasons, Some(output), seq![], Some(Some(processes)));
}

#[verifier::rlimit(40)]
proof fn lemma_refusals_go_on(
    config: PortsConfigView,
    at: int,
    reasons: Seq<Seq<char>>,
    last: Option<Seq<char>>,
    refused: Seq<Seq<char>>,
    names: Option<Option<Seq<char>>>,
)
    requires
        0 <= at,
        at + reasons.len() <= config.probe.len(),
        last is Some ==> at + reasons.len() < config.probe.len(),
        forall|i: int| 0 <= i < config.probe.len() ==> (#[trigger] config.probe[i]).command.len() > 0,
    ensures
        ({
            let errors = reasons.map_values(
                |reason: Seq<char>|
                    Err::<Seq<char>, ListenErrorView>(ListenErrorView::Unavailable(reason)),
            );
            let answers = match last {
                Some(output) => errors.push(Ok(output)),
                None => errors,
            };
            let to = at + reasons.len();
            listening_from(config, at, answers, refused, names) == (match last {
                Some(output) => after_answer(config, config.probe[to].format, output, names),
                None => if to < config.probe.len() {
                    ListeningView::Ask(config.probe[to].command)
                } else {
                    ListeningView::Failed(
                        ListenErrorView::Unavailable(
                            "nothing could list the ports: "@ + joined(refused + reasons, "; "@),
                        ),
                    )
                },
            })
        }),
    decreases reasons.len(),
{
    let error = |reason: Seq<char>|
        Err::<Seq<char>, ListenErrorView>(ListenErrorView::Unavailable(reason));
    let errors = reasons.map_values(error);
    let answers = match last {
        Some(output) => errors.push(Ok(output)),
        None => errors,
    };
    if reasons.len() == 0 {
        assert(refused + reasons =~= refused);
    } else {
        let rest = reasons.skip(1);
        lemma_refusals_go_on(config, at + 1, rest, last, refused.push(reasons[0]), names);
        assert(refused.push(reasons[0]) + rest =~= refused + reasons);
        assert(answers[0] == error(reasons[0]));
        let behind = match last {
            Some(output) => rest.map_values(error).push(Ok(output)),
            None => rest.map_values(error),
        };
        assert(answers.skip(1) =~= behind);
        assert(config.probe[at].command.len() > 0);
    }
}

/// Ending a process runs the program that is configured, with the number where
/// an argument is the placeholder and every argument without a brace in it as it
/// was.
pub proof fn law_the_number_takes_the_place_of_the_placeholder(
    command: Seq<Seq<char>>,
    pid: u32,
)
    requires
        pid > 4,
        command.len() > 0,
    ensures
        terminate_with(command, pid) matches Ok(line) && line.len() == command.len() && line[0]
            == command[0] && forall|i: int|
            0 < i < command.len() ==> {
                &&& command[i] == "{pid}"@ ==> #[trigger] line[i] == decimal(pid as nat)
                &&& (forall|j: int| 0 <= j < command[i].len() ==> command[i][j] != '{') ==> line[i]
                    == command[i]
            },
{
    reveal_strlit("{pid}");
    let number = decimal(pid as nat);
    let line = terminate_with(command, pid)->Ok_0;
    assert forall|i: int| 0 < i < command.len() implies {
        &&& command[i] == "{pid}"@ ==> #[trigger] line[i] == number
        &&& (forall|j: int| 0 <= j < command[i].len() ==> command[i][j] != '{') ==> line[i]
            == command[i]
    } by {
        assert(line[i] == replaced(command[i], "{pid}"@, number));
        if command[i] == "{pid}"@ {
            let none = Seq::<char>::empty();
            law_replacing_leaves_the_rest(none, "{pid}"@, number, none);
            assert(none + "{pid}"@ + none =~= "{pid}"@);
            assert(none + number + none =~= number);
        }
        if forall|j: int| 0 <= j < command[i].len() ==> command[i][j] != '{' {
            law_replacing_leaves_the_rest(command[i], "{pid}"@, number, seq![]);
        }
    }
}

/// A command that succeeded gives its output and one that failed its complaint,
/// with the program and the number it ended with; one that was killed ended with
/// none, which is told as -1.
pub proof fn law_a_failed_command_says_why(
    program: Seq<char>,
    code: i32,
    stdout: Seq<char>,
    stderr: Seq<char>,
)
    ensures
        captured_as(program, true, Some(code), stdout, stderr) == Ok::<Seq<char>, ListenErrorView>(
            stdout,
        ),
        captured_as(program, false, Some(code), stdout, stderr) == Err::<
            Seq<char>,
            ListenErrorView,
        >(
            ListenErrorView::Unavailable(
                program + " exited "@ + signed_decimal(code as int) + ": "@ + trimmed(stderr),
            ),
        ),
        captured_as(program, false, None, stdout, stderr) == captured_as(
            program,
            false,
            Some(-1i32),
            stdout,
            stderr,
        ),
{
}

/// What is asked by default is read in the format it is written in: `ss` before
/// `netstat` on Linux, where both name the owner, and `netstat` with a process
/// list on Windows. No other platform is asked at all. A process is ended by
/// its number, in the argument that stands for it.
pub proof fn law_what_a_platform_is_asked()
    ensures
        default_ports(Platform::Linux).probe.map_values(
            |probe: ProbeView| (probe.command, probe.format),
        ) == seq![
            (seq!["ss"@, "-lntpH"@], Format::Ss),
            (seq!["netstat"@, "-lntp"@], Format::LinuxNetstat),
        ],
        default_ports(Platform::Linux).names.len() == 0,
        default_ports(Platform::Windows).probe.map_values(
            |probe: ProbeView| (probe.command, probe.format),
        ) == seq![(seq!["netstat"@, "-ano"@, "-p"@, "TCP"@], Format::WindowsNetstat)],
        default_ports(Platform::Windows).names == seq!["tasklist"@, "/NH"@, "/FO"@, "CSV"@],
        forall|platform: Platform|
            !(platform is Linux) && !(platform is Windows) ==> #[trigger] default_ports(
                platform,
            ).probe.len() == 0,
        forall|platform: Platform|
            #[trigger] kill_on(platform) == (if platform is Windows {
                seq!["taskkill"@, "/PID"@, "{pid}"@, "/F"@]
            } else {
                seq!["kill"@, "-TERM"@, "{pid}"@]
            }),
{
}

/// Ports come in ascending order.
pub proof fn law_ports_ascend(format: Format, output: Seq<char>, i: int, j: int)
    requires
        0 <= i < j < listeners_in(format, output).len(),
    ensures
        listeners_in(format, output)[i].port <= listeners_in(format, output)[j].port,
{
    law_listeners_come_by_port(format, output);
    let listed = listeners_in(format, output);
    assert(Listener::ranks(listed[i], listed[j]));
}

/// With nothing configured there is nothing to ask, and that is said; a probe
/// without a command is passed over and told with the refusals.
pub proof fn law_an_empty_probe_is_passed_over(
    config: PortsConfigView,
    answers: Seq<Result<Seq<char>, ListenErrorView>>,
    names: Option<Option<Seq<char>>>,
    output: Seq<char>,
)
    ensures
        config.probe.len() == 0 ==> listening_next(config, answers, names) == ListeningView::Failed(
            ListenErrorView::Unavailable(
                "nothing is configured to list ports on this platform; set [ports].probe"@,
            ),
        ),
        config.probe.len() == 1 && config.probe[0].command.len() == 0 ==> listening_next(
            config,
            answers,
            names,
        ) == ListeningView::Failed(
            ListenErrorView::Unavailable(
                "nothing could list the ports: "@ + "a probe with no command in it"@,
            ),
        ),
        config.probe.len() > 1 && config.probe[0].command.len() == 0
            && config.probe[1].command.len() > 0 ==> listening_next(config, seq![], names)
            == ListeningView::Ask(config.probe[1].command),
        config.probe.len() > 1 && config.probe[0].command.len() == 0
            && config.probe[1].command.len() > 0 && config.names.len() == 0 ==> listening_next(
            config,
            seq![Ok(output)],
            names,
        ) == ListeningView::Found(listeners_in(config.probe[1].format, output)),
{
    reveal_with_fuel(listening_from, 3);
    let one = seq!["a probe with no command in it"@];
    assert(joined(one, "; "@) == "a probe with no command in it"@);
    assert(Seq::<Seq<char>>::empty().push("a probe with no command in it"@) =~= one);
}

/// A failure is told with its reason.
pub proof fn law_a_listening_failure_says_why(reason: Seq<char>)
    ensures
        listen_error_text(ListenErrorView::Unavailable(reason))
            == "cannot ask this system what is listening: "@ + reason,
        listen_error_text(ListenErrorView::Unsupported)
            == "listing ports is not implemented for this platform yet"@,
        refusal_text(ListenErrorView::Unavailable(reason)) == reason,
{
}

/// An owner that Linux's netstat does not write as a number, a slash and a name
/// is none, and the port is listed all the same.
pub proof fn law_an_owner_without_a_slash_is_none(line: Seq<char>, front: Seq<char>, port: u16)
    requires
        words_of(line).len() > 6,
        words_of(line)[0] == "tcp"@ || words_of(line)[0] == "tcp6"@,
        words_of(line)[5] == "LISTEN"@,
        words_of(line)[3] == front + ":"@ + decimal(port as nat),
        forall|i: int| 0 <= i < words_of(line)[6].len() ==> words_of(line)[6][i] != '/',
    ensures
        listener_in(Format::LinuxNetstat, line) == Some(
            ListenerView { port, pid: None, process: None },
        ),
{
    law_the_port_follows_the_last_colon(front, port);
    let owner = words_of(line)[6];
    lemma_index_of_is(owner, '/', owner.len() as int);
}

} // verus!
