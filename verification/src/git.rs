//! Reading git state for a working tree.
//!
//! The branch is read straight from `.git/HEAD` rather than by running
//! `git rev-parse`: it is a single small file, and spawning a process per
//! repository is a cost worth avoiding. Only the change counts need git itself.

use crate::domain::{GitStatus, GitStatusView};
use crate::text::{
    begins_with, char_is_digit, chars_of, decimal, is_digit, is_white, law_lines_come_apart,
    law_only_blank_texts_trim_to_nothing, law_trimming_keeps_the_core, lines, lines_of, maybe_text,
    number_text, starts_with, string_of, trim, trimmed, views,
};
use vstd::prelude::*;
use vstd::slice::*;
use vstd::string::*;

verus! {

#[derive(Debug, PartialEq, Eq)]
pub enum GitError {
    Timeout(u64),
    Unavailable(String),
}

/// What a failure says.
#[verifier::ext_equal]
pub enum GitErrorView {
    Timeout(u64),
    Unavailable(Seq<char>),
}

impl View for GitError {
    type V = GitErrorView;

    open spec fn view(&self) -> GitErrorView {
        match self {
            GitError::Timeout(ms) => GitErrorView::Timeout(*ms),
            GitError::Unavailable(reason) => GitErrorView::Unavailable(reason@),
        }
    }
}

/// The sentence that reports a failure.
pub open spec fn git_error_text(error: GitErrorView) -> Seq<char> {
    match error {
        GitErrorView::Timeout(ms) => "git status did not answer within "@ + decimal(ms as nat)
            + " ms"@,
        GitErrorView::Unavailable(reason) => "could not run git: "@ + reason,
    }
}

impl GitError {
    /// The sentence that reports this failure.
    pub fn to_string(&self) -> (text: String)
        ensures
            text@ == git_error_text(self@),
    {
        match self {
            GitError::Timeout(ms) => {
                let mut text = "git status did not answer within ".to_owned();
                text.append(number_text(*ms).as_str());
                text.append(" ms");
                text
            },
            GitError::Unavailable(reason) => {
                let mut text = "could not run git: ".to_owned();
                text.append(reason.as_str());
                text
            },
        }
    }
}

pub trait GitReader {
    /// A directory that is not a repository is not an error; it reports a
    /// [`GitStatus::not_a_repository`]. `Err` means the answer is genuinely
    /// unknown, which callers must not render as "clean".
    fn status(&self, path: &str) -> Result<GitStatus, GitError>;
}

/// Whether a line of `git status --porcelain` says anything.
pub open spec fn is_entry(line: Seq<char>) -> bool {
    trimmed(line).len() > 0
}

/// Whether a line reports an entry git does not track.
pub open spec fn is_untracked(line: Seq<char>) -> bool {
    is_entry(line) && begins_with(line, "??"@)
}

/// Whether a line reports a tracked change.
pub open spec fn is_change(line: Seq<char>) -> bool {
    is_entry(line) && !begins_with(line, "??"@)
}

/// How many of the lines report a tracked change, and how many an untracked
/// entry.
pub open spec fn porcelain_counts(lines: Seq<Seq<char>>) -> (nat, nat)
    decreases lines.len(),
{
    if lines.len() == 0 {
        (0, 0)
    } else {
        let (modified, untracked) = porcelain_counts(lines.drop_last());
        if is_change(lines.last()) {
            (modified + 1, untracked)
        } else if is_untracked(lines.last()) {
            (modified, untracked + 1)
        } else {
            (modified, untracked)
        }
    }
}

/// Counts tracked changes and untracked entries in `git status --porcelain`
/// output. Pure, so the counting rules are testable without a repository.
pub fn parse_porcelain(output: &str) -> (counts: (usize, usize))
    ensures
        counts.0 == porcelain_counts(lines_of(output@)).0,
        counts.1 == porcelain_counts(lines_of(output@)).1,
{
    let all = lines(chars_of(output).as_slice());
    let mark = chars_of("??");
    let mut modified: usize = 0;
    let mut untracked: usize = 0;
    let mut i: usize = 0;
    while i < all.len()
        invariant
            i <= all@.len(),
            mark@ == "??"@,
            views(all@) == lines_of(output@),
            modified + untracked <= i,
            modified == porcelain_counts(lines_of(output@).take(i as int)).0,
            untracked == porcelain_counts(lines_of(output@).take(i as int)).1,
        decreases all@.len() - i,
    {
        assert(lines_of(output@).take(i + 1).drop_last() == lines_of(output@).take(i as int));
        assert(lines_of(output@).take(i + 1).last() == all@[i as int]@) by {
            assert(views(all@)[i as int] == all@[i as int]@);
        }
        let line = all[i].as_slice();
        if trim(line).len() > 0 {
            if starts_with(line, mark.as_slice()) {
                untracked = untracked + 1;
            } else {
                modified = modified + 1;
            }
        }
        i = i + 1;
    }
    assert(lines_of(output@).take(i as int) == lines_of(output@));
    (modified, untracked)
}

/// The directory that a `.git` file points to, as worktrees and submodules
/// leave one behind.
pub open spec fn gitdir_in(pointer: Seq<char>) -> Option<Seq<char>> {
    let text = trimmed(pointer);
    if begins_with(text, "gitdir:"@) {
        Some(trimmed(text.skip("gitdir:"@.len() as int)))
    } else {
        None
    }
}

/// Reads the `gitdir:` pointer out of a `.git` file.
pub fn gitdir_target(pointer: &str) -> (target: Option<String>)
    ensures
        maybe_text(target) == gitdir_in(pointer@),
{
    let chars = chars_of(pointer);
    let text = trim(chars.as_slice());
    let label = chars_of("gitdir:");
    if starts_with(text, label.as_slice()) {
        let rest = slice_subrange(text, label.len(), text.len());
        assert(rest@ == text@.skip(label@.len() as int));
        Some(string_of(trim(rest)))
    } else {
        None
    }
}

/// The digits that write a commit.
pub open spec fn is_hex(c: char) -> bool {
    is_digit(c) || ('a' <= c && c <= 'f') || ('A' <= c && c <= 'F')
}

/// The branch a `HEAD` file names, or the short commit it is detached at.
pub open spec fn head_branch(head: Seq<char>) -> Option<Seq<char>> {
    let text = trimmed(head);
    if begins_with(text, "ref: refs/heads/"@) {
        Some(text.skip("ref: refs/heads/"@.len() as int))
    } else if text.len() >= 7 && forall|i: int| 0 <= i < text.len() ==> is_hex(#[trigger] text[i]) {
        Some("detached:"@ + text.take(7))
    } else {
        None
    }
}

fn all_hex(text: &[char]) -> (all: bool)
    ensures
        all == forall|i: int| 0 <= i < text@.len() ==> is_hex(#[trigger] text@[i]),
{
    let mut i: usize = 0;
    while i < text.len()
        invariant
            i <= text@.len(),
            forall|j: int| 0 <= j < i ==> is_hex(#[trigger] text@[j]),
        decreases text@.len() - i,
    {
        let c = text[i];
        if !(char_is_digit(c) || ('a' <= c && c <= 'f') || ('A' <= c && c <= 'F')) {
            assert(!is_hex(text@[i as int]));
            return false;
        }
        i = i + 1;
    }
    true
}

/// Reads the current branch out of what `.git/HEAD` holds. `None` where it
/// holds neither a branch nor a commit.
pub fn read_branch(head: &str) -> (branch: Option<String>)
    ensures
        maybe_text(branch) == head_branch(head@),
{
    let chars = chars_of(head);
    let text = trim(chars.as_slice());
    let label = chars_of("ref: refs/heads/");
    if starts_with(text, label.as_slice()) {
        let rest = slice_subrange(text, label.len(), text.len());
        assert(rest@ == text@.skip(label@.len() as int));
        Some(string_of(rest))
    } else if text.len() >= 7 && all_hex(text) {
        let short = slice_subrange(text, 0, 7);
        assert(short@ == text@.take(7));
        let mut name = "detached:".to_owned();
        name.append(string_of(short).as_str());
        Some(name)
    } else {
        None
    }
}

/// What running git came to.
#[derive(Debug)]
pub enum GitAnswer {
    /// It ran to its end: whether it succeeded, what it printed, and what it
    /// complained of.
    Ended { success: bool, output: String, complaint: String },
    /// It could not be run, for this reason.
    Failed(String),
    /// It did not answer in time.
    Late,
}

/// Reads status by running `git status --porcelain`.
pub struct GitCli {
    timeout_ms: u64,
    /// The git to run. A bare "git" is found on PATH, which is right almost
    /// always and wrong on a machine with more than one.
    program: String,
}

/// What is said of a git that ran and failed.
pub open spec fn failed_reason(complaint: Seq<char>) -> Seq<char> {
    "git status failed: "@ + trimmed(complaint)
}

/// What a working tree's state is, once git has answered: a directory without a
/// branch is not a repository, whatever git says. A git that failed leaves the
/// answer unknown, whatever it printed before it did.
pub open spec fn status_after(
    timeout_ms: u64,
    branch: Option<Seq<char>>,
    answer: GitAnswer,
) -> Result<GitStatusView, GitErrorView> {
    match branch {
        None => Ok(GitStatusView { branch: None, modified: 0, untracked: 0 }),
        Some(name) => match answer {
            GitAnswer::Ended { success, output, complaint } => if success {
                let (modified, untracked) = porcelain_counts(lines_of(output@));
                Ok(
                    GitStatusView {
                        branch: Some(name),
                        modified: modified as usize,
                        untracked: untracked as usize,
                    },
                )
            } else {
                Err(GitErrorView::Unavailable(failed_reason(complaint@)))
            },
            GitAnswer::Failed(reason) => Err(GitErrorView::Unavailable(reason@)),
            GitAnswer::Late => Err(GitErrorView::Timeout(timeout_ms)),
        },
    }
}

impl GitCli {
    pub closed spec fn timeout_spec(&self) -> u64 {
        self.timeout_ms
    }

    pub closed spec fn program_spec(&self) -> Seq<char> {
        self.program@
    }

    pub fn new(timeout_ms: u64, program: String) -> (cli: Self)
        ensures
            cli.timeout_spec() == timeout_ms,
            cli.program_spec() == program@,
    {
        GitCli { timeout_ms, program }
    }

    /// How long git may take.
    pub fn timeout_ms(&self) -> (ms: u64)
        ensures
            ms == self.timeout_spec(),
    {
        self.timeout_ms
    }

    /// The command that asks for the changes in a directory.
    pub fn command_line(&self, directory: &str) -> (line: Vec<String>)
        ensures
            views(line@) == seq![
                self.program_spec(),
                "-C"@,
                directory@,
                "status"@,
                "--porcelain"@,
            ],
    {
        let line = vec![
            self.program.clone(),
            "-C".to_owned(),
            directory.to_owned(),
            "status".to_owned(),
            "--porcelain".to_owned(),
        ];
        assert(views(line@) =~= seq![
            self.program_spec(),
            "-C"@,
            directory@,
            "status"@,
            "--porcelain"@,
        ]);
        line
    }

    /// The state of a working tree from its branch and git's answer.
    pub fn status(&self, branch: Option<String>, answer: &GitAnswer) -> (status: Result<
        GitStatus,
        GitError,
    >)
        ensures
            match status {
                Ok(status) => status_after(self.timeout_spec(), maybe_text(branch), *answer) == Ok::<
                    GitStatusView,
                    GitErrorView,
                >(status@),
                Err(error) => status_after(self.timeout_spec(), maybe_text(branch), *answer)
                    == Err::<GitStatusView, GitErrorView>(error@),
            },
    {
        match branch {
            None => Ok(GitStatus::not_a_repository()),
            Some(name) => match answer {
                GitAnswer::Ended { success, output, complaint } => if *success {
                    let (modified, untracked) = parse_porcelain(output.as_str());
                    Ok(GitStatus { branch: Some(name), modified, untracked })
                } else {
                    let mut reason = "git status failed: ".to_owned();
                    let words = chars_of(complaint.as_str());
                    reason.append(string_of(trim(words.as_slice())).as_str());
                    Err(GitError::Unavailable(reason))
                },
                GitAnswer::Failed(reason) => Err(GitError::Unavailable(reason.clone())),
                GitAnswer::Late => Err(GitError::Timeout(self.timeout_ms)),
            },
        }
    }
}

/// Every line that says anything is counted once, as one or the other.
pub proof fn law_every_entry_is_counted_once(lines: Seq<Seq<char>>)
    ensures
        porcelain_counts(lines).0 + porcelain_counts(lines).1 == lines.filter(
            |line: Seq<char>| is_entry(line),
        ).len(),
    decreases lines.len(),
{
    reveal(Seq::filter);
    if lines.len() > 0 {
        law_every_entry_is_counted_once(lines.drop_last());
    }
}

/// An answer that is not known is never shown as a clean working tree: only a
/// git that ran to its end and succeeded says how a repository stands.
pub proof fn law_unknown_is_not_clean(timeout_ms: u64, branch: Seq<char>, answer: GitAnswer)
    ensures
        status_after(timeout_ms, Some(branch), answer) is Ok <==> (answer matches GitAnswer::Ended {
            success,
            ..
        } && success),
{
}

/// The two counts add up to the lines that hold any character but white space,
/// and the second counts those that begin with two question marks.
pub proof fn law_the_counts_are_of_the_lines(lines: Seq<Seq<char>>)
    ensures
        porcelain_counts(lines).0 + porcelain_counts(lines).1 == lines.filter(
            |line: Seq<char>| exists|i: int| 0 <= i < line.len() && !is_white(#[trigger] line[i]),
        ).len(),
        porcelain_counts(lines).1 == lines.filter(
            |line: Seq<char>| line.len() >= 2 && line[0] == '?' && line[1] == '?',
        ).len(),
    decreases lines.len(),
{
    reveal(Seq::filter);
    reveal_strlit("??");
    if lines.len() > 0 {
        law_the_counts_are_of_the_lines(lines.drop_last());
        let line = lines.last();
        law_only_blank_texts_trim_to_nothing(line);
        if begins_with(line, "??"@) {
            assert(line.take(2)[0] == line[0] && line.take(2)[1] == line[1]);
        }
        if line.len() >= 2 && line[0] == '?' && line[1] == '?' {
            assert(line.take(2) =~= "??"@);
            assert(!is_white(line[0]));
        }
    }
}

/// Each line of an output counts for itself: as an untracked entry where it
/// begins with two question marks, as a change where it holds anything else, and
/// not at all where it is blank.
pub proof fn law_a_line_counts_for_itself(line: Seq<char>, rest: Seq<char>)
    requires
        forall|i: int| 0 <= i < line.len() ==> line[i] != '\n',
        line.len() > 0 ==> line.last() != '\r',
    ensures
        ({
            let all = porcelain_counts(lines_of(line + seq!['\n'] + rest));
            let behind = porcelain_counts(lines_of(rest));
            if line.len() >= 2 && line[0] == '?' && line[1] == '?' {
                all == (behind.0, behind.1 + 1)
            } else if exists|i: int| 0 <= i < line.len() && !is_white(#[trigger] line[i]) {
                all == (behind.0 + 1, behind.1)
            } else {
                all == behind
            }
        }),
{
    reveal_strlit("??");
    law_lines_come_apart(line, rest);
    lemma_counts_from_the_front(line, lines_of(rest));
    law_only_blank_texts_trim_to_nothing(line);
    if begins_with(line, "??"@) {
        assert(line.take(2)[0] == line[0] && line.take(2)[1] == line[1]);
    }
    if line.len() >= 2 && line[0] == '?' && line[1] == '?' {
        assert(line.take(2) =~= "??"@);
        assert(!is_white(line[0]));
    }
}

proof fn lemma_counts_from_the_front(line: Seq<char>, rest: Seq<Seq<char>>)
    ensures
        porcelain_counts(seq![line] + rest) == (
            porcelain_counts(rest).0 + (if is_change(line) {
                1nat
            } else {
                0nat
            }),
            porcelain_counts(rest).1 + (if is_untracked(line) {
                1nat
            } else {
                0nat
            }),
        ),
    decreases rest.len(),
{
    let all = seq![line] + rest;
    if rest.len() == 0 {
        assert(all.drop_last() =~= seq![]);
        assert(porcelain_counts(all.drop_last()) == (0nat, 0nat));
        assert(all.last() == line);
    } else {
        lemma_counts_from_the_front(line, rest.drop_last());
        assert(all.drop_last() =~= seq![line] + rest.drop_last());
        assert(all.last() == rest.last());
    }
}

/// The branch is what a `HEAD` file writes behind `ref: refs/heads/`, slashes
/// and all, without the end of its line.
pub proof fn law_a_branch_is_read_whole(name: Seq<char>, end: Seq<char>)
    requires
        name.len() > 0 && !is_white(name.last()),
        forall|i: int| 0 <= i < end.len() ==> is_white(#[trigger] end[i]),
    ensures
        head_branch("ref: refs/heads/"@ + name + end) == Some(name),
{
    reveal_strlit("ref: refs/heads/");
    let core = "ref: refs/heads/"@ + name;
    assert(core[0] == 'r');
    assert(core.last() == name.last());
    law_trimming_keeps_the_core(seq![], core, end);
    assert(Seq::<char>::empty() + core + end =~= "ref: refs/heads/"@ + name + end);
    assert(core.take(16) =~= "ref: refs/heads/"@);
    assert(core.skip(16) =~= name);
}

/// A `HEAD` file that holds a commit is detached at its first seven digits, and
/// one that holds neither a commit nor a branch names none.
pub proof fn law_a_commit_is_shortened(text: Seq<char>, end: Seq<char>)
    requires
        text.len() > 0 && !is_white(text[0]) && !is_white(text.last()),
        forall|i: int| 0 <= i < end.len() ==> is_white(#[trigger] end[i]),
        !begins_with(text, "ref: refs/heads/"@),
    ensures
        ({
            let hex = |c: char|
                ('0' <= c && c <= '9') || ('a' <= c && c <= 'f') || ('A' <= c && c <= 'F');
            if text.len() >= 7 && forall|i: int| 0 <= i < text.len() ==> hex(#[trigger] text[i]) {
                head_branch(text + end) == Some("detached:"@ + text.take(7))
            } else {
                head_branch(text + end) is None
            }
        }),
{
    law_trimming_keeps_the_core(seq![], text, end);
    assert(Seq::<char>::empty() + text + end =~= text + end);
}

/// A worktree's `.git` file points to the path it writes behind `gitdir:`.
pub proof fn law_a_worktree_is_followed(gap: Seq<char>, path: Seq<char>, end: Seq<char>)
    requires
        path.len() > 0 && !is_white(path[0]) && !is_white(path.last()),
        forall|i: int| 0 <= i < gap.len() ==> is_white(#[trigger] gap[i]),
        forall|i: int| 0 <= i < end.len() ==> is_white(#[trigger] end[i]),
    ensures
        gitdir_in("gitdir:"@ + gap + path + end) == Some(path),
{
    reveal_strlit("gitdir:");
    let core = "gitdir:"@ + gap + path;
    assert(core[0] == 'g');
    assert(core.last() == path.last());
    law_trimming_keeps_the_core(seq![], core, end);
    assert(Seq::<char>::empty() + core + end =~= "gitdir:"@ + gap + path + end);
    assert(core.take(7) =~= "gitdir:"@);
    law_trimming_keeps_the_core(gap, path, seq![]);
    assert(core.skip(7) =~= gap + path + Seq::<char>::empty());
}

/// A repository that git could read is on the branch it was found on, with the
/// counts of what git printed; a directory without a branch is no repository.
/// What went wrong is handed on: the complaint behind its label, the reason, or
/// the time that was waited.
pub proof fn law_the_status_is_what_git_said(
    timeout_ms: u64,
    branch: Seq<char>,
    output: String,
    complaint: String,
    reason: String,
    answer: GitAnswer,
)
    ensures
        status_after(timeout_ms, None, answer) matches Ok(status) && status.branch is None
            && status.modified == 0 && status.untracked == 0,
        status_after(
            timeout_ms,
            Some(branch),
            GitAnswer::Ended { success: true, output, complaint },
        ) matches Ok(status) && status.branch == Some(branch) && status.modified
            == porcelain_counts(lines_of(output@)).0 as usize && status.untracked
            == porcelain_counts(lines_of(output@)).1 as usize,
        status_after(
            timeout_ms,
            Some(branch),
            GitAnswer::Ended { success: false, output, complaint },
        ) == Err::<GitStatusView, GitErrorView>(
            GitErrorView::Unavailable("git status failed: "@ + trimmed(complaint@)),
        ),
        status_after(timeout_ms, Some(branch), GitAnswer::Failed(reason)) == Err::<
            GitStatusView,
            GitErrorView,
        >(GitErrorView::Unavailable(reason@)),
        status_after(timeout_ms, Some(branch), GitAnswer::Late) == Err::<
            GitStatusView,
            GitErrorView,
        >(GitErrorView::Timeout(timeout_ms)),
{
}

/// A failure says how long git was waited for, or why it could not be run.
pub proof fn law_a_git_failure_says_why(ms: u64, reason: Seq<char>)
    ensures
        git_error_text(GitErrorView::Timeout(ms)) == "git status did not answer within "@ + decimal(
            ms as nat,
        ) + " ms"@,
        git_error_text(GitErrorView::Unavailable(reason)) == "could not run git: "@ + reason,
{
}

} // verus!
