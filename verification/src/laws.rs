//! Engine-level laws: statements about whole operation traces, proved
//! against the spec transition `model_step`.  A trace is the step `begin`
//! yields followed by one step per observed event; since every executable
//! transition equals its model transition, what is proved here holds of
//! every run the engine can perform.

use vstd::prelude::*;

use crate::cli::Command;
use crate::engine::{
    event_matches, init_view, model_begin, model_step, state_wf, target_request, EngineStateView,
    EngineStepView, EngineView, Layout, OpErrorView, PhaseResultView, PhaseView, VcsEventView,
};
use crate::inspector::{spec_get_branches, spec_get_worktrees, spec_has_worktrees};
use crate::manifest::RepoView;
use crate::vcs::{clone_request, current_branch_request, status_request, InvocationResultView,
    VcsOp};

verus! {

/// The steps the engine emits while a sequence of events is fed in.
pub open spec fn model_run(e: EngineView, evs: Seq<VcsEventView>) -> Seq<EngineStepView>
    decreases evs.len(),
{
    if evs.len() == 0 {
        Seq::<EngineStepView>::empty()
    } else {
        seq![model_step(e, evs[0]).1] + model_run(model_step(e, evs[0]).0, evs.drop_first())
    }
}

/// The engine after a sequence of events.
pub open spec fn model_run_end(e: EngineView, evs: Seq<VcsEventView>) -> EngineView
    decreases evs.len(),
{
    if evs.len() == 0 {
        e
    } else {
        model_run_end(model_step(e, evs[0]).0, evs.drop_first())
    }
}

/// Each event answers what the engine was waiting for at that point.
pub open spec fn wf_events(e: EngineView, evs: Seq<VcsEventView>) -> bool
    decreases evs.len(),
{
    evs.len() == 0 || (event_matches(e.state, evs[0]) && wf_events(
        model_step(e, evs[0]).0,
        evs.drop_first(),
    ))
}

/// The whole trace of one operation on one record.
pub open spec fn op_trace(record: RepoView, op: Command, evs: Seq<VcsEventView>) -> Seq<
    EngineStepView,
> {
    seq![model_begin(init_view(record, op)).1] + model_run(
        model_begin(init_view(record, op)).0,
        evs,
    )
}

/// The engine at the end of one operation's trace.
pub open spec fn op_trace_end(record: RepoView, op: Command, evs: Seq<VcsEventView>) -> EngineView {
    model_run_end(model_begin(init_view(record, op)).0, evs)
}

/// Well-formed event sequences for one operation.
pub open spec fn op_wf_events(record: RepoView, op: Command, evs: Seq<VcsEventView>) -> bool {
    wf_events(model_begin(init_view(record, op)).0, evs)
}

/// How many steps of a trace request an invocation of the given operation.
pub open spec fn count_op(steps: Seq<EngineStepView>, op: VcsOp) -> nat
    decreases steps.len(),
{
    if steps.len() == 0 {
        0
    } else {
        (match steps[0] {
            EngineStepView::Run(q) => if q.op == op {
                1nat
            } else {
                0nat
            },
            _ => 0nat,
        }) + count_op(steps.drop_first(), op)
    }
}

pub proof fn lemma_count_cons(s: EngineStepView, rest: Seq<EngineStepView>, op: VcsOp)
    ensures
        count_op(seq![s] + rest, op) == (match s {
            EngineStepView::Run(q) => if q.op == op {
                1nat
            } else {
                0nat
            },
            _ => 0nat,
        }) + count_op(rest, op),
{
    assert((seq![s] + rest)[0] == s);
    assert((seq![s] + rest).drop_first() =~= rest);
}

/// Clone is stateless in layout: however the path looks on disk, a clone
/// operation's whole trace is one clone invocation and the closing step;
/// in particular it asks for exactly one clone and for nothing else.
pub proof fn lemma_clone_stateless(record: RepoView, evs: Seq<VcsEventView>)
    requires
        op_wf_events(record, Command::Clone, evs),
        evs.len() >= 1,
    ensures
        evs.len() == 1,
        op_trace(record, Command::Clone, evs) == seq![
            EngineStepView::Run(clone_request(record)),
            EngineStepView::Finished,
        ],
        count_op(op_trace(record, Command::Clone, evs), VcsOp::Clone) == 1,
        forall|other: VcsOp|
            other != VcsOp::Clone ==> count_op(op_trace(record, Command::Clone, evs), other) == 0,
{
    let e0 = init_view(record, Command::Clone);
    let e1 = model_begin(e0).0;
    let e2 = model_step(e1, evs[0]).0;
    let s2 = model_step(e1, evs[0]).1;
    let rest = evs.drop_first();
    assert(e1.state is AwaitClone);
    assert(event_matches(e1.state, evs[0]) && wf_events(e2, rest));
    assert(!(evs[0] is Cloned));
    assert(e2.state is Done);
    assert(s2 == EngineStepView::Finished);
    if rest.len() > 0 {
        assert(event_matches(e2.state, rest[0]));
        assert(false);
    }
    assert(evs.len() == 1);
    assert(model_run(e2, rest) =~= Seq::<EngineStepView>::empty());
    assert(model_run(e1, evs) =~= seq![EngineStepView::Finished]);
    assert(op_trace(record, Command::Clone, evs) =~= seq![
        EngineStepView::Run(clone_request(record)),
        EngineStepView::Finished,
    ]);
    let tr = op_trace(record, Command::Clone, evs);
    assert forall|other: VcsOp| true implies count_op(tr, other) == (if other == VcsOp::Clone {
        1nat
    } else {
        0nat
    }) by {
        lemma_count_cons(tr[0], tr.drop_first(), other);
        assert(tr.drop_first() =~= seq![EngineStepView::Finished]
            + Seq::<EngineStepView>::empty());
        lemma_count_cons(EngineStepView::Finished, Seq::<EngineStepView>::empty(), other);
        assert(count_op(Seq::<EngineStepView>::empty(), other) == 0);
    }
}

/// Pull refusal: when the dirty-tree probe reports any output, the engine
/// asks only for the current branch, reports the refusal carrying that
/// branch verbatim, and never requests a pull.
pub proof fn lemma_pull_refusal(
    record: RepoView,
    evs: Seq<VcsEventView>,
    status: InvocationResultView,
)
    requires
        op_wf_events(record, Command::Pull, evs),
        evs.len() >= 1,
        evs[0] == VcsEventView::Ran(status),
        status.stdout.len() > 0,
    ensures
        evs.len() <= 2,
        op_trace(record, Command::Pull, evs)[1] == EngineStepView::Run(
            current_branch_request(record.path),
        ),
        count_op(op_trace(record, Command::Pull, evs), VcsOp::Pull) == 0,
        evs.len() == 2 ==> (evs[1] matches VcsEventView::Ran(cb) ==> op_trace_end(
            record,
            Command::Pull,
            evs,
        ).phases == seq![
            PhaseView {
                name: "Pull"@,
                result: PhaseResultView::Failure(OpErrorView::UnstagedChanges(cb.stdout)),
            },
        ]),
{
    let e0 = init_view(record, Command::Pull);
    let e1 = model_begin(e0).0;
    let e2 = model_step(e1, evs[0]).0;
    let s2 = model_step(e1, evs[0]).1;
    let rest = evs.drop_first();
    assert(e1.state is AwaitStatus);
    assert(event_matches(e1.state, evs[0]) && wf_events(e2, rest));
    assert(e2.state is AwaitCurrentBranch);
    assert(s2 == EngineStepView::Run(current_branch_request(record.path)));
    if rest.len() == 0 {
        assert(model_run(e2, rest) =~= Seq::<EngineStepView>::empty());
        assert(model_run(e1, evs) =~= seq![s2]);
        let tr = op_trace(record, Command::Pull, evs);
        assert(tr =~= seq![EngineStepView::Run(status_request(record.path)), s2]);
        lemma_count_cons(tr[0], tr.drop_first(), VcsOp::Pull);
        assert(tr.drop_first() =~= seq![s2] + Seq::<EngineStepView>::empty());
        lemma_count_cons(s2, Seq::<EngineStepView>::empty(), VcsOp::Pull);
        assert(count_op(Seq::<EngineStepView>::empty(), VcsOp::Pull) == 0);
    } else {
        assert(event_matches(e2.state, rest[0]));
        assert(!(rest[0] is Cloned));
        let e3 = model_step(e2, rest[0]).0;
        let s3 = model_step(e2, rest[0]).1;
        let rest2 = rest.drop_first();
        assert(wf_events(e3, rest2));
        assert(e3.state is Done);
        assert(s3 == EngineStepView::Finished);
        if rest2.len() > 0 {
            assert(event_matches(e3.state, rest2[0]));
            assert(false);
        }
        assert(evs.len() == 2);
        assert(rest[0] == evs[1]);
        assert(model_run(e3, rest2) =~= Seq::<EngineStepView>::empty());
        assert(model_run(e2, rest) =~= seq![s3]);
        assert(model_run(e1, evs) =~= seq![s2, s3]);
        let tr = op_trace(record, Command::Pull, evs);
        assert(tr =~= seq![EngineStepView::Run(status_request(record.path)), s2, s3]);
        lemma_count_cons(tr[0], tr.drop_first(), VcsOp::Pull);
        assert(tr.drop_first() =~= seq![s2] + seq![s3]);
        lemma_count_cons(s2, seq![s3], VcsOp::Pull);
        assert(seq![s3] =~= seq![s3] + Seq::<EngineStepView>::empty());
        lemma_count_cons(s3, Seq::<EngineStepView>::empty(), VcsOp::Pull);
        assert(count_op(Seq::<EngineStepView>::empty(), VcsOp::Pull) == 0);
        match evs[1] {
            VcsEventView::Ran(cb) => {
                assert(model_run_end(e3, rest2) == e3);
                assert(model_run_end(e2, rest) == e3);
                assert(model_run_end(e1, evs) == e3);
                assert(e3.phases =~= seq![
                    PhaseView {
                        name: "Pull"@,
                        result: PhaseResultView::Failure(OpErrorView::UnstagedChanges(cb.stdout)),
                    },
                ]);
            },
            _ => {},
        }
    }
}

/// Sync on a missing working copy: once the probe answers that the path is
/// not cloned, the trace holds exactly one clone invocation and never a
/// pull or push.
pub proof fn lemma_sync_not_cloned(record: RepoView, evs: Seq<VcsEventView>)
    requires
        op_wf_events(record, Command::Sync, evs),
        evs.len() >= 1,
        evs[0] == VcsEventView::Cloned(false),
    ensures
        evs.len() <= 2,
        count_op(op_trace(record, Command::Sync, evs), VcsOp::Clone) == 1,
        count_op(op_trace(record, Command::Sync, evs), VcsOp::Pull) == 0,
        count_op(op_trace(record, Command::Sync, evs), VcsOp::Push) == 0,
{
    let e0 = init_view(record, Command::Sync);
    let e1 = model_begin(e0).0;
    let e2 = model_step(e1, evs[0]).0;
    let s2 = model_step(e1, evs[0]).1;
    let rest = evs.drop_first();
    assert(e1.state is AwaitCloned);
    assert(event_matches(e1.state, evs[0]) && wf_events(e2, rest));
    assert(e2.state is AwaitClone);
    assert(s2 == EngineStepView::Run(clone_request(record)));
    if rest.len() == 0 {
        assert(model_run(e2, rest) =~= Seq::<EngineStepView>::empty());
        assert(model_run(e1, evs) =~= seq![s2]);
        let tr = op_trace(record, Command::Sync, evs);
        assert(tr =~= seq![EngineStepView::CheckCloned, s2]);
        assert forall|op: VcsOp| true implies count_op(tr, op) == (if op == VcsOp::Clone {
            1nat
        } else {
            0nat
        }) by {
            lemma_count_cons(tr[0], tr.drop_first(), op);
            assert(tr.drop_first() =~= seq![s2] + Seq::<EngineStepView>::empty());
            lemma_count_cons(s2, Seq::<EngineStepView>::empty(), op);
            assert(count_op(Seq::<EngineStepView>::empty(), op) == 0);
        }
    } else {
        assert(event_matches(e2.state, rest[0]));
        assert(!(rest[0] is Cloned));
        let e3 = model_step(e2, rest[0]).0;
        let s3 = model_step(e2, rest[0]).1;
        let rest2 = rest.drop_first();
        assert(wf_events(e3, rest2));
        assert(e3.state is Done);
        assert(s3 == EngineStepView::Finished);
        if rest2.len() > 0 {
            assert(event_matches(e3.state, rest2[0]));
            assert(false);
        }
        assert(evs.len() == 2);
        assert(model_run(e3, rest2) =~= Seq::<EngineStepView>::empty());
        assert(model_run(e2, rest) =~= seq![s3]);
        assert(model_run(e1, evs) =~= seq![s2, s3]);
        let tr = op_trace(record, Command::Sync, evs);
        assert(tr =~= seq![EngineStepView::CheckCloned, s2, s3]);
        assert forall|op: VcsOp| true implies count_op(tr, op) == (if op == VcsOp::Clone {
            1nat
        } else {
            0nat
        }) by {
            lemma_count_cons(tr[0], tr.drop_first(), op);
            assert(tr.drop_first() =~= seq![s2] + seq![s3]);
            lemma_count_cons(s2, seq![s3], op);
            assert(seq![s3] =~= seq![s3] + Seq::<EngineStepView>::empty());
            lemma_count_cons(s3, Seq::<EngineStepView>::empty(), op);
            assert(count_op(Seq::<EngineStepView>::empty(), op) == 0);
        }
    }
}

/// States from which a clone might still be requested.
pub open spec fn may_clone(st: EngineStateView) -> bool {
    match st {
        EngineStateView::Start => true,
        EngineStateView::AwaitCloned => true,
        EngineStateView::AwaitClone => true,
        _ => false,
    }
}

/// Outside the clone states, one step never requests a clone and never
/// returns to a clone state.
pub proof fn lemma_step_no_clone(e: EngineView, ev: VcsEventView)
    requires
        !may_clone(e.state),
    ensures
        !may_clone(model_step(e, ev).0.state),
        !(model_step(e, ev).1 matches EngineStepView::Run(q) && q.op == VcsOp::Clone),
{
}

/// Outside the clone states, a whole run never requests a clone.
pub proof fn lemma_run_no_clone(e: EngineView, evs: Seq<VcsEventView>)
    requires
        !may_clone(e.state),
    ensures
        count_op(model_run(e, evs), VcsOp::Clone) == 0,
    decreases evs.len(),
{
    if evs.len() > 0 {
        let e2 = model_step(e, evs[0]).0;
        let s = model_step(e, evs[0]).1;
        lemma_step_no_clone(e, evs[0]);
        lemma_run_no_clone(e2, evs.drop_first());
        lemma_count_cons(s, model_run(e2, evs.drop_first()), VcsOp::Clone);
        assert(model_run(e, evs) == seq![s] + model_run(e2, evs.drop_first()));
    }
}

/// Sync on a present working copy never issues a clone.
pub proof fn lemma_sync_cloned_no_clone(record: RepoView, evs: Seq<VcsEventView>)
    requires
        evs.len() >= 1,
        evs[0] == VcsEventView::Cloned(true),
    ensures
        count_op(op_trace(record, Command::Sync, evs), VcsOp::Clone) == 0,
{
    let e0 = init_view(record, Command::Sync);
    let e1 = model_begin(e0).0;
    let e2 = model_step(e1, evs[0]).0;
    let s2 = model_step(e1, evs[0]).1;
    assert(e1.state is AwaitCloned);
    assert(e2.state is AwaitStatus);
    assert(s2 == EngineStepView::Run(status_request(record.path)));
    lemma_run_no_clone(e2, evs.drop_first());
    assert(model_run(e1, evs) == seq![s2] + model_run(e2, evs.drop_first()));
    lemma_count_cons(s2, model_run(e2, evs.drop_first()), VcsOp::Clone);
    lemma_count_cons(EngineStepView::CheckCloned, model_run(e1, evs), VcsOp::Clone);
}

/// Progress rank of an operation: clone-related states, then the pull
/// phase, then the push phase, then done.  One step never lowers it.
pub open spec fn sync_rank(st: EngineStateView) -> int {
    match st {
        EngineStateView::Start => 0,
        EngineStateView::AwaitCloned => 0,
        EngineStateView::AwaitClone => 0,
        EngineStateView::AwaitStatus => 1,
        EngineStateView::AwaitCurrentBranch => 1,
        EngineStateView::AwaitWorktreeList { mode } => if mode is Pull {
            1
        } else {
            2
        },
        EngineStateView::AwaitBranchList { mode } => if mode is Pull {
            1
        } else {
            2
        },
        EngineStateView::AwaitTarget { mode, .. } => if mode is Pull {
            1
        } else {
            2
        },
        EngineStateView::Done => 3,
    }
}

pub proof fn lemma_step_rank_monotone(e: EngineView, ev: VcsEventView)
    ensures
        sync_rank(model_step(e, ev).0.state) >= sync_rank(e.state),
{
}

/// A pull invocation is only ever requested from a pull-phase state, a push
/// invocation only from a push-phase state.
pub proof fn lemma_step_rank_of_emission(e: EngineView, ev: VcsEventView)
    ensures
        (model_step(e, ev).1 matches EngineStepView::Run(q) && q.op == VcsOp::Pull) ==> sync_rank(
            e.state,
        ) == 1,
        (model_step(e, ev).1 matches EngineStepView::Run(q) && q.op == VcsOp::Push) ==> sync_rank(
            e.state,
        ) == 2,
{
}

/// From the push phase on, a run never requests another pull.
pub proof fn lemma_run_no_pull_after_push(e: EngineView, evs: Seq<VcsEventView>)
    requires
        sync_rank(e.state) >= 2,
    ensures
        count_op(model_run(e, evs), VcsOp::Pull) == 0,
    decreases evs.len(),
{
    if evs.len() > 0 {
        let e2 = model_step(e, evs[0]).0;
        let s = model_step(e, evs[0]).1;
        lemma_step_rank_monotone(e, evs[0]);
        lemma_step_rank_of_emission(e, evs[0]);
        lemma_run_no_pull_after_push(e2, evs.drop_first());
        lemma_count_cons(s, model_run(e2, evs.drop_first()), VcsOp::Pull);
        assert(model_run(e, evs) == seq![s] + model_run(e2, evs.drop_first()));
    }
}

/// The engines a run passes through: element `k` is the engine before the
/// `k`-th event is consumed.
pub open spec fn run_states(e: EngineView, evs: Seq<VcsEventView>) -> Seq<EngineView>
    decreases evs.len(),
{
    if evs.len() == 0 {
        Seq::<EngineView>::empty()
    } else {
        seq![e] + run_states(model_step(e, evs[0]).0, evs.drop_first())
    }
}

pub proof fn lemma_run_states_len(e: EngineView, evs: Seq<VcsEventView>)
    ensures
        run_states(e, evs).len() == evs.len(),
    decreases evs.len(),
{
    if evs.len() > 0 {
        lemma_run_states_len(model_step(e, evs[0]).0, evs.drop_first());
    }
}

pub proof fn lemma_run_len(e: EngineView, evs: Seq<VcsEventView>)
    ensures
        model_run(e, evs).len() == evs.len(),
    decreases evs.len(),
{
    if evs.len() > 0 {
        lemma_run_len(model_step(e, evs[0]).0, evs.drop_first());
    }
}

/// The `k`-th emitted step is the model step of the `k`-th passed state on
/// the `k`-th event.
pub proof fn lemma_run_indexing(e: EngineView, evs: Seq<VcsEventView>, k: int)
    requires
        0 <= k < evs.len(),
    ensures
        model_run(e, evs)[k] == model_step(run_states(e, evs)[k], evs[k]).1,
    decreases evs.len(),
{
    lemma_run_len(e, evs);
    lemma_run_states_len(e, evs);
    let e2 = model_step(e, evs[0]).0;
    lemma_run_len(e2, evs.drop_first());
    lemma_run_states_len(e2, evs.drop_first());
    if k == 0 {
        assert(run_states(e, evs)[0] == e);
        assert(model_run(e, evs)[0] == model_step(e, evs[0]).1);
    } else {
        lemma_run_indexing(e2, evs.drop_first(), k - 1);
        assert(run_states(e, evs)[k] == run_states(e2, evs.drop_first())[k - 1]);
        assert(evs.drop_first()[k - 1] == evs[k]);
        assert(model_run(e, evs)[k] == model_run(e2, evs.drop_first())[k - 1]);
    }
}

/// Two consecutive passed states are linked by one model step.
pub proof fn lemma_run_states_adjacent(e: EngineView, evs: Seq<VcsEventView>, k: int)
    requires
        0 <= k,
        k + 1 < evs.len(),
    ensures
        run_states(e, evs)[k + 1] == model_step(run_states(e, evs)[k], evs[k]).0,
    decreases evs.len(),
{
    lemma_run_states_len(e, evs);
    let e2 = model_step(e, evs[0]).0;
    lemma_run_states_len(e2, evs.drop_first());
    if k == 0 {
        assert(run_states(e, evs)[0] == e);
        assert(run_states(e, evs)[1] == run_states(e2, evs.drop_first())[0]);
        assert(run_states(e2, evs.drop_first())[0] == e2);
    } else {
        lemma_run_states_adjacent(e2, evs.drop_first(), k - 1);
        assert(run_states(e, evs)[k] == run_states(e2, evs.drop_first())[k - 1]);
        assert(run_states(e, evs)[k + 1] == run_states(e2, evs.drop_first())[k]);
        assert(evs.drop_first()[k - 1] == evs[k]);
    }
}

/// Ranks never decrease along the passed states.
pub proof fn lemma_run_states_monotone(e: EngineView, evs: Seq<VcsEventView>, i: int, j: int)
    requires
        0 <= i <= j < evs.len(),
    ensures
        sync_rank(run_states(e, evs)[j].state) >= sync_rank(run_states(e, evs)[i].state),
    decreases j - i,
{
    if i < j {
        lemma_run_states_monotone(e, evs, i, j - 1);
        lemma_run_states_adjacent(e, evs, j - 1);
        lemma_step_rank_monotone(run_states(e, evs)[j - 1], evs[j - 1]);
    }
}

/// Layout branching, order half: within one operation, every pull
/// invocation stands before every push invocation in the trace.
pub proof fn lemma_pull_before_push(
    record: RepoView,
    op: Command,
    evs: Seq<VcsEventView>,
    i: int,
    j: int,
)
    requires
        0 <= i < j < op_trace(record, op, evs).len(),
        op_trace(record, op, evs)[i] matches EngineStepView::Run(q) && q.op == VcsOp::Push,
    ensures
        !(op_trace(record, op, evs)[j] matches EngineStepView::Run(q2) && q2.op == VcsOp::Pull),
{
    let e0 = init_view(record, op);
    let e1 = model_begin(e0).0;
    let tr = op_trace(record, op, evs);
    lemma_run_len(e1, evs);
    lemma_run_states_len(e1, evs);
    assert(tr.len() == 1 + evs.len());
    if i == 0 {
        // the opening step never requests a push
        assert(tr[0] == model_begin(e0).1);
        match op {
            Command::Clone => assert(false),
            Command::Pull => assert(false),
            Command::Push => assert(false),
            Command::Sync => assert(false),
        }
    }
    assert(i >= 1);
    lemma_run_indexing(e1, evs, i - 1);
    lemma_run_indexing(e1, evs, j - 1);
    assert(tr[i] == model_run(e1, evs)[i - 1]);
    assert(tr[j] == model_run(e1, evs)[j - 1]);
    lemma_step_rank_of_emission(run_states(e1, evs)[i - 1], evs[i - 1]);
    assert(sync_rank(run_states(e1, evs)[i - 1].state) == 2);
    lemma_run_states_monotone(e1, evs, i - 1, j - 1);
    lemma_step_rank_of_emission(run_states(e1, evs)[j - 1], evs[j - 1]);
}

/// Layout branching, emission half: whenever the engine requests a pull or
/// push, the invocation targets the branch the loop stands at, in the
/// working directory its layout dictates.
pub proof fn lemma_target_emission(e: EngineView, ev: VcsEventView)
    requires
        state_wf(e.state),
        model_step(e, ev).1 matches EngineStepView::Run(q) && (q.op == VcsOp::Pull || q.op
            == VcsOp::Push),
    ensures
        model_step(e, ev).0.state matches EngineStateView::AwaitTarget {
            mode,
            layout,
            branches,
            idx,
            ..
        } && 0 <= idx < branches.len() && model_step(e, ev).1 == EngineStepView::Run(
            target_request(mode, layout, e.record.path, branches[idx]),
        ),
{
}

/// Layout branching, provenance half: the branch loop is entered only from
/// the layout probe — with the worktree list and the worktree directories
/// when the output shows a bare layout, with the plain branch list in the
/// repository root otherwise — and its branch list never changes while it
/// runs.
pub proof fn lemma_target_provenance(e: EngineView, ev: VcsEventView)
    requires
        event_matches(e.state, ev),
        state_wf(e.state),
        model_step(e, ev).0.state matches EngineStateView::AwaitTarget { .. },
    ensures
        model_step(e, ev).0.state matches EngineStateView::AwaitTarget {
            mode,
            layout,
            branches,
            idx,
            ..
        } ==> {
            ||| {
                &&& e.state matches EngineStateView::AwaitWorktreeList { mode: m0 }
                &&& m0 == mode
                &&& ev matches VcsEventView::Ran(r)
                &&& spec_has_worktrees(r.stdout)
                &&& layout == Layout::BareWithWorktrees
                &&& branches == spec_get_worktrees(r.stdout)
                &&& idx == 0
            }
            ||| {
                &&& e.state matches EngineStateView::AwaitBranchList { mode: m0 }
                &&& m0 == mode
                &&& ev matches VcsEventView::Ran(r)
                &&& layout == Layout::Normal
                &&& branches == spec_get_branches(r.stdout)
                &&& idx == 0
            }
            ||| {
                &&& e.state matches EngineStateView::AwaitTarget {
                    mode: m0,
                    layout: l0,
                    branches: b0,
                    idx: i0,
                    ..
                }
                &&& m0 == mode
                &&& l0 == layout
                &&& b0 == branches
                &&& idx == i0 + 1
            }
        },
{
}

/// The branch enumeration is consulted only after the layout probe showed
/// an ordinary working copy.
pub proof fn lemma_branch_list_provenance(e: EngineView, ev: VcsEventView)
    requires
        event_matches(e.state, ev),
        model_step(e, ev).0.state matches EngineStateView::AwaitBranchList { .. },
    ensures
        model_step(e, ev).0.state matches EngineStateView::AwaitBranchList { mode } ==> {
            &&& e.state matches EngineStateView::AwaitWorktreeList { mode: m0 }
            &&& m0 == mode
            &&& ev matches VcsEventView::Ran(r)
            &&& !spec_has_worktrees(r.stdout)
        },
{
}

} // verus!
