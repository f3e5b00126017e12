//! How a collector is allowed to report.
//!
//! The shape here is the architectural rule made unavoidable: a scan reports
//! results as it finds them, it does not hand back a finished list. A draw loop
//! that gathers is a draw loop that blocks.

use crate::config::ProjectConfig;
use crate::domain::{Project, ProjectView};
use crate::text::{lemma_views_push, views};
use vstd::prelude::*;

verus! {

/// One thing a scan learned. Failures travel alongside results rather than
/// replacing them, so an unreadable directory costs one row, not the run.
#[derive(Debug, Clone, PartialEq, Eq)]
pub enum ScanEvent {
    Found(Project),
    Failed { path: String, reason: String },
    /// Sent once, last: how many directories were examined. Without it, a
    /// caller cannot tell "found nothing" apart from "looked at nothing".
    Finished { scanned: usize },
}

/// What an event says.
#[verifier::ext_equal]
pub enum ScanEventView {
    Found(ProjectView),
    Failed { path: Seq<char>, reason: Seq<char> },
    Finished { scanned: usize },
}

impl View for ScanEvent {
    type V = ScanEventView;

    open spec fn view(&self) -> ScanEventView {
        match self {
            ScanEvent::Found(project) => ScanEventView::Found(project@),
            ScanEvent::Failed { path, reason } => ScanEventView::Failed {
                path: path@,
                reason: reason@,
            },
            ScanEvent::Finished { scanned } => ScanEventView::Finished { scanned: *scanned },
        }
    }
}

pub trait ProjectScanner {
    /// Reports each project as soon as it is known. Callers that want
    /// everything at once use [`collect`].
    fn scan(&self, config: &ProjectConfig) -> Vec<ScanEvent>;
}

/// Everything a finished scan produced.
#[derive(Debug, PartialEq, Eq)]
pub struct ScanOutcome {
    pub projects: Vec<Project>,
    pub failures: Vec<(String, String)>,
    /// `None` when the scan ended without reporting a total, which means it
    /// was cut short rather than completed.
    pub scanned: Option<usize>,
}

/// What an outcome says.
#[verifier::ext_equal]
pub struct ScanOutcomeView {
    pub projects: Seq<ProjectView>,
    pub failures: Seq<(Seq<char>, Seq<char>)>,
    pub scanned: Option<usize>,
}

impl View for ScanOutcome {
    type V = ScanOutcomeView;

    open spec fn view(&self) -> ScanOutcomeView {
        ScanOutcomeView {
            projects: views(self.projects@),
            failures: views(self.failures@),
            scanned: self.scanned,
        }
    }
}

impl Default for ScanOutcome {
    fn default() -> (outcome: Self)
        ensures
            outcome@ == (ScanOutcomeView { projects: seq![], failures: seq![], scanned: None }),
    {
        let outcome = ScanOutcome { projects: Vec::new(), failures: Vec::new(), scanned: None };
        assert(outcome@.projects =~= seq![]);
        assert(outcome@.failures =~= seq![]);
        outcome
    }
}

/// What a run of events adds up to.
pub open spec fn outcome_of(events: Seq<ScanEventView>) -> ScanOutcomeView
    decreases events.len(),
{
    if events.len() == 0 {
        ScanOutcomeView { projects: seq![], failures: seq![], scanned: None }
    } else {
        let before = outcome_of(events.drop_last());
        match events.last() {
            ScanEventView::Found(project) => ScanOutcomeView {
                projects: before.projects.push(project),
                ..before
            },
            ScanEventView::Failed { path, reason } => ScanOutcomeView {
                failures: before.failures.push((path, reason)),
                ..before
            },
            ScanEventView::Finished { scanned } => ScanOutcomeView {
                scanned: Some(scanned),
                ..before
            },
        }
    }
}

/// Adds up a scan that ran to completion. This is what the non-interactive
/// commands use; the terminal UI takes the same events one by one instead.
pub fn collect(events: Vec<ScanEvent>) -> (outcome: ScanOutcome)
    ensures
        outcome@ == outcome_of(views(events@)),
{
    broadcast use lemma_views_push;

    let ghost all = views(events@);
    let mut outcome = ScanOutcome::default();
    assert(all.take(0) =~= seq![]);
    for event in it: events
        invariant
            it.seq() == events@,
            all == views(events@),
            outcome@ == outcome_of(all.take(it.index())),
    {
        assert(all.take(it.index() + 1).drop_last() =~= all.take(it.index()));
        assert(all.take(it.index() + 1).last() == event@);
        let ghost before = outcome@;
        match event {
            ScanEvent::Found(project) => {
                outcome.projects.push(project);
            },
            ScanEvent::Failed { path, reason } => {
                let ghost failure = (path@, reason@);
                outcome.failures.push((path, reason));
                assert(views(outcome.failures@) =~= before.failures.push(failure));
            },
            ScanEvent::Finished { scanned } => {
                outcome.scanned = Some(scanned);
            },
        }
        assert(outcome@ == outcome_of(all.take(it.index() + 1)));
    }
    assert(all.take(all.len() as int) =~= all);
    outcome
}

/// One unreadable directory costs one row, not the run: what was found is the
/// same with or without a failure among the events.
pub proof fn law_a_failure_costs_no_project(
    before: Seq<ScanEventView>,
    path: Seq<char>,
    reason: Seq<char>,
    after: Seq<ScanEventView>,
)
    ensures
        outcome_of(before.push(ScanEventView::Failed { path, reason }) + after).projects
            == outcome_of(before + after).projects,
        outcome_of(before.push(ScanEventView::Failed { path, reason }) + after).scanned
            == outcome_of(before + after).scanned,
    decreases after.len(),
{
    let failed = before.push(ScanEventView::Failed { path, reason });
    if after.len() == 0 {
        assert(failed + after =~= failed);
        assert(before + after =~= before);
        assert(failed.drop_last() =~= before);
    } else {
        law_a_failure_costs_no_project(before, path, reason, after.drop_last());
        assert((failed + after).drop_last() =~= failed + after.drop_last());
        assert((before + after).drop_last() =~= before + after.drop_last());
    }
}

/// A scan that ends without finishing reports no denominator, and one that
/// finishes reports its own.
pub proof fn law_only_a_finished_scan_has_a_denominator(events: Seq<ScanEventView>)
    ensures
        outcome_of(events).scanned is Some <==> exists|i: int|
            0 <= i < events.len() && #[trigger] events[i] is Finished,
    decreases events.len(),
{
    if events.len() > 0 {
        let front = events.drop_last();
        law_only_a_finished_scan_has_a_denominator(front);
        if exists|i: int| 0 <= i < front.len() && #[trigger] front[i] is Finished {
            let i = choose|i: int| 0 <= i < front.len() && #[trigger] front[i] is Finished;
            assert(events[i] is Finished);
        }
        if exists|i: int| 0 <= i < events.len() && #[trigger] events[i] is Finished {
            let i = choose|i: int| 0 <= i < events.len() && #[trigger] events[i] is Finished;
            if i < front.len() {
                assert(front[i] is Finished);
            }
        }
        assert(events[events.len() - 1] == events.last());
    }
}

/// Every project and every failure that is reported is kept, in order, and the
/// total is the last one told.
pub proof fn law_an_outcome_keeps_everything(
    events: Seq<ScanEventView>,
    project: ProjectView,
    path: Seq<char>,
    reason: Seq<char>,
    scanned: usize,
)
    ensures
        ({
            let before = outcome_of(events);
            let found = outcome_of(events.push(ScanEventView::Found(project)));
            let failed = outcome_of(events.push(ScanEventView::Failed { path, reason }));
            let finished = outcome_of(events.push(ScanEventView::Finished { scanned }));
            &&& found.projects == before.projects.push(project)
            &&& found.failures == before.failures && found.scanned == before.scanned
            &&& failed.failures == before.failures.push((path, reason))
            &&& failed.projects == before.projects && failed.scanned == before.scanned
            &&& finished.scanned == Some(scanned)
            &&& finished.projects == before.projects && finished.failures == before.failures
        }),
        outcome_of(seq![]).projects.len() == 0 && outcome_of(seq![]).failures.len() == 0
            && outcome_of(seq![]).scanned is None,
{
    assert(events.push(ScanEventView::Found(project)).drop_last() =~= events);
    assert(events.push(ScanEventView::Failed { path, reason }).drop_last() =~= events);
    assert(events.push(ScanEventView::Finished { scanned }).drop_last() =~= events);
}

} // verus!
