//! The batch runner: walks the manifest in order, hands each record to the
//! operation engine, and collects one outcome per repository.  A failed
//! repository never stops the batch, and the report keeps manifest order.

use vstd::prelude::*;

use crate::engine::{OpError, OpErrorView, PhaseResult, PhaseResultView, PhaseView, RepoOutcome,
    RepoOutcomeView};
use crate::manifest::{Manifest, Repo};

verus! {

/// Whether an error is hard: hard errors make the whole run exit non-zero,
/// while a mere non-zero exit of one invocation is reported but not
/// escalated.
pub open spec fn error_is_hard(e: OpErrorView) -> bool {
    match e {
        OpErrorView::SpawnError(_) => true,
        OpErrorView::UnstagedChanges(_) => true,
        OpErrorView::VcsNonZeroExit(_) => false,
    }
}

/// Whether a phase carries a hard failure.
pub open spec fn phase_is_hard_failure(p: PhaseView) -> bool {
    match p.result {
        PhaseResultView::Failure(e) => error_is_hard(e),
        _ => false,
    }
}

/// Whether any phase of an outcome carries a hard failure.
pub open spec fn outcome_has_hard_error(o: RepoOutcomeView) -> bool {
    exists|i: int| 0 <= i < o.phase_results.len() && phase_is_hard_failure(#[trigger] o.phase_results[i])
}

/// Scans one outcome for a hard failure.
pub fn has_hard_error(o: &RepoOutcome) -> (r: bool)
    ensures
        r == outcome_has_hard_error(o@),
{
    let mut i: usize = 0;
    while i < o.phase_results.len()
        invariant
            i <= o.phase_results.len(),
            o@.phase_results.len() == o.phase_results.len(),
            forall|j: int| 0 <= j < i ==> !phase_is_hard_failure(#[trigger] o@.phase_results[j]),
        decreases o.phase_results.len() - i,
    {
        proof {
            assert(o@.phase_results[i as int] == o.phase_results@[i as int]@);
        }
        let hard = match &o.phase_results[i].result {
            PhaseResult::Failure(e) => match e {
                OpError::SpawnError(_) => true,
                OpError::UnstagedChanges(_) => true,
                OpError::VcsNonZeroExit(_) => false,
            },
            _ => false,
        };
        if hard {
            proof {
                assert(phase_is_hard_failure(o@.phase_results[i as int]));
            }
            return true;
        }
        i = i + 1;
    }
    false
}

/// The whole batch ended without a hard error: this is exactly when the
/// process exits zero.
pub fn batch_exit_success(outcomes: &Vec<RepoOutcome>) -> (r: bool)
    ensures
        r == (forall|i: int|
            0 <= i < outcomes@.len() ==> !outcome_has_hard_error(#[trigger] outcomes@[i]@)),
{
    let mut i: usize = 0;
    while i < outcomes.len()
        invariant
            i <= outcomes.len(),
            forall|j: int| 0 <= j < i ==> !outcome_has_hard_error(#[trigger] outcomes@[j]@),
        decreases outcomes.len() - i,
    {
        if has_hard_error(&outcomes[i]) {
            return false;
        }
        i = i + 1;
    }
    true
}

/// Walks the manifest in order; one outcome is recorded per repository.
pub struct BatchRunner {
    /// The records, in manifest order.
    pub repos: Vec<Repo>,
    /// How many records have been run so far.
    pub next: usize,
    /// The outcomes recorded so far, one per run record, in order.
    pub outcomes: Vec<RepoOutcome>,
}

/// The records the runner has not yet handed out.
pub open spec fn pending_records(r: BatchRunner) -> Seq<Repo> {
    r.repos@.skip(r.next as int)
}

impl BatchRunner {
    /// Each recorded outcome belongs to the record at its own position.
    pub open spec fn wf(&self) -> bool {
        &&& self.next == self.outcomes@.len()
        &&& self.next <= self.repos@.len()
        &&& forall|i: int|
            0 <= i < self.outcomes@.len() ==> (#[trigger] self.outcomes@[i])@.record
                == self.repos@[i]@
    }

    /// A runner over the manifest's records.
    pub fn new(manifest: Manifest) -> (r: BatchRunner)
        ensures
            r.wf(),
            r.repos@ == manifest.repos@,
            r.outcomes@.len() == 0,
            r.next == 0,
    {
        BatchRunner { repos: manifest.repos, next: 0, outcomes: Vec::new() }
    }

    /// The record to run next.  This depends only on how many records have
    /// been run, never on what their outcomes were: an earlier failure does
    /// not keep later repositories from being attempted.
    pub fn next_repo(&self) -> (r: Option<&Repo>)
        ensures
            match r {
                Some(rep) => (self.next as int) < self.repos@.len() && *rep == self.repos@[self.next as int],
                None => self.next >= self.repos@.len(),
            },
    {
        if self.next < self.repos.len() {
            Some(&self.repos[self.next])
        } else {
            None
        }
    }

    /// Records the outcome of the record just handed out and moves on.
    pub fn record_outcome(&mut self, outcome: RepoOutcome)
        requires
            old(self).wf(),
            (old(self).next as int) < old(self).repos@.len(),
            outcome@.record == old(self).repos@[old(self).next as int]@,
        ensures
            final(self).wf(),
            final(self).repos@ == old(self).repos@,
            final(self).next == old(self).next + 1,
            final(self).outcomes@ == old(self).outcomes@.push(outcome),
    {
        self.outcomes.push(outcome);
        // reading the length grounds that `next`, below it, cannot overflow
        let bound = self.repos.len();
        assert(self.next < bound);
        self.next = self.next + 1;
    }

    /// The finished report: one outcome per record, in manifest order.
    pub fn report(self) -> (r: Vec<RepoOutcome>)
        requires
            self.wf(),
        ensures
            r@ == self.outcomes@,
            forall|i: int|
                0 <= i < r@.len() ==> (#[trigger] r@[i])@.record == self.repos@[i]@,
    {
        self.outcomes
    }
}

/// Manifest order preservation: once every record has been run, the
/// sequence of records in the report equals the manifest's record sequence.
pub proof fn lemma_batch_order(runner: BatchRunner)
    requires
        runner.wf(),
        runner.next == runner.repos@.len(),
    ensures
        runner.outcomes@.map_values(|o: RepoOutcome| o@.record) == runner.repos@.map_values(
            |x: Repo| x@,
        ),
{
    assert(runner.outcomes@.map_values(|o: RepoOutcome| o@.record) =~= runner.repos@.map_values(
        |x: Repo| x@,
    ));
}

/// Batch resilience: whatever outcome is recorded for the current record —
/// success, skip or failure — exactly that record leaves the pending list,
/// and every later repository is still attempted.
pub proof fn lemma_batch_resilience(pre: BatchRunner, post: BatchRunner, outcome: RepoOutcome)
    requires
        pre.wf(),
        (pre.next as int) < pre.repos@.len(),
        post.repos@ == pre.repos@,
        post.next == pre.next + 1,
        post.outcomes@ == pre.outcomes@.push(outcome),
    ensures
        pending_records(post) == pending_records(pre).drop_first(),
        forall|k: int|
            (pre.next as int) < k < pre.repos@.len() ==> pending_records(post).contains(
                #[trigger] pre.repos@[k],
            ),
{
    assert(pending_records(post) =~= pending_records(pre).drop_first());
    assert forall|k: int|
        (pre.next as int) < k < pre.repos@.len() implies pending_records(post).contains(
        pre.repos@[k],
    ) by {
        assert(pending_records(post)[k - (pre.next as int) - 1] == pre.repos@[k]);
    }
}

} // verus!
