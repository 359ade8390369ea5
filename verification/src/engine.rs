//! The operation engine: a verified state machine that decides, for one
//! repository record and one requested operation, which version-control
//! invocations to run and what the repository's outcome is.
//!
//! The engine never touches the filesystem or spawns a process.  The host
//! drives it: `begin` yields the first step, and every `CheckCloned` or
//! `Run` step is answered through `on_event` with what the host observed,
//! until the engine answers `Finished`.  Every transition equals the spec
//! transition `model_step`, so the engine's whole behaviour is fixed at the
//! specification level.

use vstd::prelude::*;

use crate::cli::Command;
use crate::inspector::{
    get_branches, get_worktrees, has_unstaged_changes, has_worktrees, spec_get_branches,
    spec_get_worktrees, spec_has_worktrees,
};
use crate::manifest::{Repo, RepoView};
use crate::vcs::{
    branch_list_request, clone_request, current_branch_request, make_branch_list_request,
    make_clone_request, make_current_branch_request, make_status_request,
    make_worktree_list_request, pull_args, push_args, status_request, worktree_list_request,
    InvocationResult, InvocationResultView, VcsOp, VcsRequest, VcsRequestView,
};

verus! {

/// How a working copy is laid out.
#[derive(Debug, Clone, Copy, PartialEq, Eq, Structural)]
pub enum Layout {
    /// An ordinary working copy; branch iteration runs in its root.
    Normal,
    /// A bare root with attached worktrees; iteration runs per worktree.
    BareWithWorktrees,
}

/// Which of the two branch-iterating operations a loop performs.
#[derive(Debug, Clone, Copy, PartialEq, Eq, Structural)]
pub enum LoopMode {
    Pull,
    Push,
}

/// An error attached to one phase of a repository's outcome.
#[derive(Debug)]
pub enum OpError {
    /// The binary could not be spawned, or its output could not be decoded.
    SpawnError(String),
    /// A pull was refused: the working tree is dirty on the named branch.
    UnstagedChanges(String),
    /// The invocation ran and exited non-zero; carries its error output.
    VcsNonZeroExit(String),
}

/// Mathematical image of an `OpError`.
pub enum OpErrorView {
    SpawnError(Seq<char>),
    UnstagedChanges(Seq<char>),
    VcsNonZeroExit(Seq<char>),
}

impl View for OpError {
    type V = OpErrorView;

    open spec fn view(&self) -> OpErrorView {
        match self {
            OpError::SpawnError(m) => OpErrorView::SpawnError(m@),
            OpError::UnstagedChanges(b) => OpErrorView::UnstagedChanges(b@),
            OpError::VcsNonZeroExit(m) => OpErrorView::VcsNonZeroExit(m@),
        }
    }
}

/// The result of one observable step of an operation on one repository.
#[derive(Debug)]
pub enum PhaseResult {
    /// The step succeeded; carries its captured output.
    Success(String),
    /// The step had nothing to do; carries the reason.
    Skipped(String),
    /// The step failed.
    Failure(OpError),
}

/// Mathematical image of a `PhaseResult`.
pub enum PhaseResultView {
    Success(Seq<char>),
    Skipped(Seq<char>),
    Failure(OpErrorView),
}

impl View for PhaseResult {
    type V = PhaseResultView;

    open spec fn view(&self) -> PhaseResultView {
        match self {
            PhaseResult::Success(t) => PhaseResultView::Success(t@),
            PhaseResult::Skipped(t) => PhaseResultView::Skipped(t@),
            PhaseResult::Failure(e) => PhaseResultView::Failure(e@),
        }
    }
}

/// One named phase of a repository's outcome.
#[derive(Debug)]
pub struct Phase {
    pub name: String,
    pub result: PhaseResult,
}

/// Mathematical image of a `Phase`.
pub struct PhaseView {
    pub name: Seq<char>,
    pub result: PhaseResultView,
}

impl View for Phase {
    type V = PhaseView;

    open spec fn view(&self) -> PhaseView {
        PhaseView { name: self.name@, result: self.result@ }
    }
}

/// The phase list as the specification sees it.
pub open spec fn phases_vm(v: Seq<Phase>) -> Seq<PhaseView> {
    v.map_values(|p: Phase| p@)
}

/// Everything one repository produced during a run.
#[derive(Debug)]
pub struct RepoOutcome {
    /// The record the operation ran on.
    pub record: Repo,
    /// The phases, in the order they happened.
    pub phase_results: Vec<Phase>,
}

/// Mathematical image of a `RepoOutcome`.
pub struct RepoOutcomeView {
    pub record: RepoView,
    pub phase_results: Seq<PhaseView>,
}

impl View for RepoOutcome {
    type V = RepoOutcomeView;

    open spec fn view(&self) -> RepoOutcomeView {
        RepoOutcomeView { record: self.record@, phase_results: phases_vm(self.phase_results@) }
    }
}

/// What the host reports back for one engine step.
#[derive(Debug)]
pub enum VcsEvent {
    /// Answer to `CheckCloned`: whether `<path>/.git` exists.
    Cloned(bool),
    /// Answer to `Run`: the invocation ran and this is what it produced.
    Ran(InvocationResult),
    /// Answer to `Run`: the invocation could not be spawned, or its output
    /// could not be decoded; carries the host's message.
    SpawnFailed(String),
}

/// Mathematical image of a `VcsEvent`.
pub enum VcsEventView {
    Cloned(bool),
    Ran(InvocationResultView),
    SpawnFailed(Seq<char>),
}

impl View for VcsEvent {
    type V = VcsEventView;

    open spec fn view(&self) -> VcsEventView {
        match self {
            VcsEvent::Cloned(b) => VcsEventView::Cloned(*b),
            VcsEvent::Ran(r) => VcsEventView::Ran(r@),
            VcsEvent::SpawnFailed(m) => VcsEventView::SpawnFailed(m@),
        }
    }
}

/// What the engine asks the host to do next.
#[derive(Debug)]
pub enum EngineStep {
    /// Probe the filesystem: does `<path>/.git` exist?
    CheckCloned,
    /// Run the described invocation.
    Run(VcsRequest),
    /// The operation on this repository is over.
    Finished,
}

/// Mathematical image of an `EngineStep`.
pub enum EngineStepView {
    CheckCloned,
    Run(VcsRequestView),
    Finished,
}

impl View for EngineStep {
    type V = EngineStepView;

    open spec fn view(&self) -> EngineStepView {
        match self {
            EngineStep::CheckCloned => EngineStepView::CheckCloned,
            EngineStep::Run(q) => EngineStepView::Run(q@),
            EngineStep::Finished => EngineStepView::Finished,
        }
    }
}

/// Where the engine stands between two steps.
#[derive(Debug)]
pub enum EngineState {
    /// Nothing has been asked yet.
    Start,
    /// The clone-state probe is outstanding.
    AwaitCloned,
    /// The clone invocation is outstanding.
    AwaitClone,
    /// The dirty-tree probe (`status --porcelain`) is outstanding.
    AwaitStatus,
    /// The tree is dirty; the current-branch query is outstanding.
    AwaitCurrentBranch,
    /// The layout probe (`worktree list`) is outstanding.
    AwaitWorktreeList { mode: LoopMode },
    /// The branch enumeration (`branch`) is outstanding.
    AwaitBranchList { mode: LoopMode },
    /// The pull or push for `branches[idx]` is outstanding.
    AwaitTarget {
        mode: LoopMode,
        layout: Layout,
        branches: Vec<String>,
        idx: usize,
        first_err: Option<String>,
    },
    /// The outcome is complete.
    Done,
}

/// Mathematical image of an `EngineState`.
pub enum EngineStateView {
    Start,
    AwaitCloned,
    AwaitClone,
    AwaitStatus,
    AwaitCurrentBranch,
    AwaitWorktreeList { mode: LoopMode },
    AwaitBranchList { mode: LoopMode },
    AwaitTarget {
        mode: LoopMode,
        layout: Layout,
        branches: Seq<Seq<char>>,
        idx: int,
        first_err: Option<Seq<char>>,
    },
    Done,
}

impl View for EngineState {
    type V = EngineStateView;

    open spec fn view(&self) -> EngineStateView {
        match self {
            EngineState::Start => EngineStateView::Start,
            EngineState::AwaitCloned => EngineStateView::AwaitCloned,
            EngineState::AwaitClone => EngineStateView::AwaitClone,
            EngineState::AwaitStatus => EngineStateView::AwaitStatus,
            EngineState::AwaitCurrentBranch => EngineStateView::AwaitCurrentBranch,
            EngineState::AwaitWorktreeList { mode } => EngineStateView::AwaitWorktreeList {
                mode: *mode,
            },
            EngineState::AwaitBranchList { mode } => EngineStateView::AwaitBranchList {
                mode: *mode,
            },
            EngineState::AwaitTarget { mode, layout, branches, idx, first_err } => {
                EngineStateView::AwaitTarget {
                    mode: *mode,
                    layout: *layout,
                    branches: branches.deep_view(),
                    idx: *idx as int,
                    first_err: match first_err {
                        Some(m) => Some(m@),
                        None => None,
                    },
                }
            },
            EngineState::Done => EngineStateView::Done,
        }
    }
}

/// The operation engine for one repository record.
pub struct OpEngine {
    /// The record being operated on.
    pub record: Repo,
    /// The requested high-level operation.
    pub op: Command,
    /// The phases recorded so far.
    pub phases: Vec<Phase>,
    /// Where the engine stands.
    pub state: EngineState,
}

/// Mathematical image of an `OpEngine`.
pub struct EngineView {
    pub record: RepoView,
    pub op: Command,
    pub phases: Seq<PhaseView>,
    pub state: EngineStateView,
}

impl View for OpEngine {
    type V = EngineView;

    open spec fn view(&self) -> EngineView {
        EngineView {
            record: self.record@,
            op: self.op,
            phases: phases_vm(self.phases@),
            state: self.state@,
        }
    }
}

/// The working directory of one branch-targeted invocation: the worktree
/// subdirectory in a bare layout, the repository path itself otherwise.
pub open spec fn target_dir(layout: Layout, path: Seq<char>, branch: Seq<char>) -> Seq<char> {
    match layout {
        Layout::Normal => path,
        Layout::BareWithWorktrees => path + "/"@ + branch,
    }
}

/// The pull or push invocation for one branch under the given layout.
pub open spec fn target_request(
    mode: LoopMode,
    layout: Layout,
    path: Seq<char>,
    branch: Seq<char>,
) -> VcsRequestView {
    VcsRequestView {
        op: match mode {
            LoopMode::Pull => VcsOp::Pull,
            LoopMode::Push => VcsOp::Push,
        },
        args: match mode {
            LoopMode::Pull => pull_args(branch),
            LoopMode::Push => push_args(branch),
        },
        workdir: Some(target_dir(layout, path, branch)),
    }
}

/// The phase name of a branch-iterating operation.
pub open spec fn mode_name(mode: LoopMode) -> Seq<char> {
    match mode {
        LoopMode::Pull => "Pull"@,
        LoopMode::Push => "Push"@,
    }
}

/// The terminal success text of a branch-iterating operation.
pub open spec fn mode_done_text(mode: LoopMode) -> Seq<char> {
    match mode {
        LoopMode::Pull => "Pull complete!"@,
        LoopMode::Push => "Push complete!"@,
    }
}

/// `e` with one more phase recorded.
pub open spec fn with_phase(e: EngineView, name: Seq<char>, result: PhaseResultView) -> EngineView {
    EngineView { phases: e.phases.push(PhaseView { name, result }), ..e }
}

/// `e` moved to another state.
pub open spec fn with_state(e: EngineView, st: EngineStateView) -> EngineView {
    EngineView { state: st, ..e }
}

/// The engine as it is first built.
pub open spec fn init_view(record: RepoView, op: Command) -> EngineView {
    EngineView { record, op, phases: Seq::<PhaseView>::empty(), state: EngineStateView::Start }
}

/// Continuation after a pull or push phase has fully ended: within a sync,
/// a finished pull leads into the push and a finished push completes the
/// sync; a stand-alone operation is simply over.
pub open spec fn model_after_phase(e: EngineView, mode: LoopMode) -> (EngineView, EngineStepView) {
    if mode == LoopMode::Pull && e.op == Command::Sync {
        (
            with_state(e, EngineStateView::AwaitWorktreeList { mode: LoopMode::Push }),
            EngineStepView::Run(worktree_list_request(e.record.path)),
        )
    } else if mode == LoopMode::Push && e.op == Command::Sync {
        (
            with_state(
                with_phase(e, "Sync"@, PhaseResultView::Success("Sync complete!"@)),
                EngineStateView::Done,
            ),
            EngineStepView::Finished,
        )
    } else {
        (with_state(e, EngineStateView::Done), EngineStepView::Finished)
    }
}

/// Entry into the per-branch loop: no branches means the phase is skipped
/// outright, otherwise the first branch's invocation is issued.
pub open spec fn model_loop_entry(
    e: EngineView,
    mode: LoopMode,
    layout: Layout,
    branches: Seq<Seq<char>>,
) -> (EngineView, EngineStepView) {
    if branches.len() == 0 {
        model_after_phase(
            with_phase(e, mode_name(mode), PhaseResultView::Skipped("no branches"@)),
            mode,
        )
    } else {
        (
            with_state(
                e,
                EngineStateView::AwaitTarget { mode, layout, branches, idx: 0, first_err: None },
            ),
            EngineStepView::Run(target_request(mode, layout, e.record.path, branches[0])),
        )
    }
}

/// The first step of an operation.
pub open spec fn model_begin(e: EngineView) -> (EngineView, EngineStepView) {
    match e.op {
        Command::Clone => (
            with_state(e, EngineStateView::AwaitClone),
            EngineStepView::Run(clone_request(e.record)),
        ),
        Command::Pull => (
            with_state(e, EngineStateView::AwaitStatus),
            EngineStepView::Run(status_request(e.record.path)),
        ),
        Command::Push => (
            with_state(e, EngineStateView::AwaitWorktreeList { mode: LoopMode::Push }),
            EngineStepView::Run(worktree_list_request(e.record.path)),
        ),
        Command::Sync => (
            with_state(e, EngineStateView::AwaitCloned),
            EngineStepView::CheckCloned,
        ),
    }
}

/// Whether an event is the kind of answer the state is waiting for.
pub open spec fn event_matches(st: EngineStateView, ev: VcsEventView) -> bool {
    match st {
        EngineStateView::Start => false,
        EngineStateView::Done => false,
        EngineStateView::AwaitCloned => ev is Cloned,
        _ => !(ev is Cloned),
    }
}

/// Internal well-formedness: an outstanding branch-targeted invocation
/// always points at a branch of the enumerated list.
pub open spec fn state_wf(st: EngineStateView) -> bool {
    match st {
        EngineStateView::AwaitTarget { branches, idx, .. } => 0 <= idx < branches.len(),
        _ => true,
    }
}

/// The spec transition: what one observed event does to the engine, and
/// which step follows it.
pub open spec fn model_step(e: EngineView, ev: VcsEventView) -> (EngineView, EngineStepView) {
    match e.state {
        EngineStateView::Start => (e, EngineStepView::Finished),
        EngineStateView::Done => (e, EngineStepView::Finished),
        EngineStateView::AwaitCloned => match ev {
            VcsEventView::Cloned(true) => (
                with_state(e, EngineStateView::AwaitStatus),
                EngineStepView::Run(status_request(e.record.path)),
            ),
            VcsEventView::Cloned(false) => (
                with_state(e, EngineStateView::AwaitClone),
                EngineStepView::Run(clone_request(e.record)),
            ),
            _ => (e, EngineStepView::Finished),
        },
        EngineStateView::AwaitClone => match ev {
            VcsEventView::Ran(r) => {
                if r.exit_success {
                    let e1 = with_phase(e, "Clone"@, PhaseResultView::Success(r.stdout));
                    if e.op == Command::Sync {
                        (
                            with_state(
                                with_phase(
                                    e1,
                                    "Sync"@,
                                    PhaseResultView::Success("Sync complete!"@),
                                ),
                                EngineStateView::Done,
                            ),
                            EngineStepView::Finished,
                        )
                    } else {
                        (with_state(e1, EngineStateView::Done), EngineStepView::Finished)
                    }
                } else {
                    (
                        with_state(
                            with_phase(
                                e,
                                "Clone"@,
                                PhaseResultView::Failure(OpErrorView::VcsNonZeroExit(r.stderr)),
                            ),
                            EngineStateView::Done,
                        ),
                        EngineStepView::Finished,
                    )
                }
            },
            VcsEventView::SpawnFailed(m) => (
                with_state(
                    with_phase(
                        e,
                        "Clone"@,
                        PhaseResultView::Failure(OpErrorView::SpawnError(m)),
                    ),
                    EngineStateView::Done,
                ),
                EngineStepView::Finished,
            ),
            _ => (e, EngineStepView::Finished),
        },
        EngineStateView::AwaitStatus => match ev {
            VcsEventView::Ran(r) => {
                if r.stdout.len() > 0 {
                    (
                        with_state(e, EngineStateView::AwaitCurrentBranch),
                        EngineStepView::Run(current_branch_request(e.record.path)),
                    )
                } else {
                    (
                        with_state(
                            e,
                            EngineStateView::AwaitWorktreeList { mode: LoopMode::Pull },
                        ),
                        EngineStepView::Run(worktree_list_request(e.record.path)),
                    )
                }
            },
            VcsEventView::SpawnFailed(m) => (
                with_state(
                    with_phase(e, "Pull"@, PhaseResultView::Failure(OpErrorView::SpawnError(m))),
                    EngineStateView::Done,
                ),
                EngineStepView::Finished,
            ),
            _ => (e, EngineStepView::Finished),
        },
        EngineStateView::AwaitCurrentBranch => match ev {
            VcsEventView::Ran(r) => (
                with_state(
                    with_phase(
                        e,
                        "Pull"@,
                        PhaseResultView::Failure(OpErrorView::UnstagedChanges(r.stdout)),
                    ),
                    EngineStateView::Done,
                ),
                EngineStepView::Finished,
            ),
            VcsEventView::SpawnFailed(m) => (
                with_state(
                    with_phase(e, "Pull"@, PhaseResultView::Failure(OpErrorView::SpawnError(m))),
                    EngineStateView::Done,
                ),
                EngineStepView::Finished,
            ),
            _ => (e, EngineStepView::Finished),
        },
        EngineStateView::AwaitWorktreeList { mode } => match ev {
            VcsEventView::Ran(r) => {
                if spec_has_worktrees(r.stdout) {
                    model_loop_entry(
                        e,
                        mode,
                        Layout::BareWithWorktrees,
                        spec_get_worktrees(r.stdout),
                    )
                } else {
                    (
                        with_state(e, EngineStateView::AwaitBranchList { mode }),
                        EngineStepView::Run(branch_list_request(e.record.path)),
                    )
                }
            },
            VcsEventView::SpawnFailed(m) => (
                with_state(
                    with_phase(
                        e,
                        mode_name(mode),
                        PhaseResultView::Failure(OpErrorView::SpawnError(m)),
                    ),
                    EngineStateView::Done,
                ),
                EngineStepView::Finished,
            ),
            _ => (e, EngineStepView::Finished),
        },
        EngineStateView::AwaitBranchList { mode } => match ev {
            VcsEventView::Ran(r) => model_loop_entry(
                e,
                mode,
                Layout::Normal,
                spec_get_branches(r.stdout),
            ),
            VcsEventView::SpawnFailed(m) => (
                with_state(
                    with_phase(
                        e,
                        mode_name(mode),
                        PhaseResultView::Failure(OpErrorView::SpawnError(m)),
                    ),
                    EngineStateView::Done,
                ),
                EngineStepView::Finished,
            ),
            _ => (e, EngineStepView::Finished),
        },
        EngineStateView::AwaitTarget { mode, layout, branches, idx, first_err } => {
            let (e1, fe) = match ev {
                VcsEventView::Ran(r) => {
                    if r.exit_success {
                        (with_phase(e, mode_name(mode), PhaseResultView::Success(r.stdout)), first_err)
                    } else {
                        (
                            with_phase(
                                e,
                                mode_name(mode),
                                PhaseResultView::Failure(OpErrorView::VcsNonZeroExit(r.stderr)),
                            ),
                            first_err,
                        )
                    }
                },
                VcsEventView::SpawnFailed(m) => (
                    with_phase(
                        e,
                        mode_name(mode),
                        PhaseResultView::Failure(OpErrorView::SpawnError(m)),
                    ),
                    if first_err is None {
                        Some(m)
                    } else {
                        first_err
                    },
                ),
                _ => (e, first_err),
            };
            if idx + 1 < branches.len() {
                (
                    with_state(
                        e1,
                        EngineStateView::AwaitTarget {
                            mode,
                            layout,
                            branches,
                            idx: idx + 1,
                            first_err: fe,
                        },
                    ),
                    EngineStepView::Run(
                        target_request(mode, layout, e.record.path, branches[idx + 1]),
                    ),
                )
            } else {
                let e2 = match fe {
                    Some(m) => with_phase(
                        e1,
                        mode_name(mode),
                        PhaseResultView::Failure(OpErrorView::SpawnError(m)),
                    ),
                    None => with_phase(
                        e1,
                        mode_name(mode),
                        PhaseResultView::Success(mode_done_text(mode)),
                    ),
                };
                model_after_phase(e2, mode)
            }
        },
    }
}

/// The phase name of a loop mode, as a string slice.
fn mode_name_exec(mode: LoopMode) -> (r: &'static str)
    ensures
        r@ == mode_name(mode),
{
    match mode {
        LoopMode::Pull => "Pull",
        LoopMode::Push => "Push",
    }
}

/// The terminal success text of a loop mode, as a string slice.
fn mode_done_text_exec(mode: LoopMode) -> (r: &'static str)
    ensures
        r@ == mode_done_text(mode),
{
    match mode {
        LoopMode::Pull => "Pull complete!",
        LoopMode::Push => "Push complete!",
    }
}

/// Builds the pull or push invocation for one branch under a layout.
fn make_target_request(mode: LoopMode, layout: Layout, path: &str, branch: &str) -> (q: VcsRequest)
    ensures
        q@ == target_request(mode, layout, path@, branch@),
{
    let mut args: Vec<String> = Vec::new();
    match mode {
        LoopMode::Pull => args.push(String::from_str("pull")),
        LoopMode::Push => args.push(String::from_str("push")),
    }
    args.push(String::from_str("origin"));
    args.push(String::from_str(branch));
    let wd = match layout {
        Layout::Normal => String::from_str(path),
        Layout::BareWithWorktrees => {
            let mut s = String::from_str(path);
            s.append("/");
            s.append(branch);
            s
        },
    };
    proof {
        if mode is Pull {
            assert(args.deep_view() =~~= pull_args(branch@));
        } else {
            assert(args.deep_view() =~~= push_args(branch@));
        }
    }
    VcsRequest {
        op: match mode {
            LoopMode::Pull => VcsOp::Pull,
            LoopMode::Push => VcsOp::Push,
        },
        args,
        workdir: Some(wd),
    }
}

impl OpEngine {
    /// A fresh engine for one record and one requested operation.
    pub fn new(record: Repo, op: Command) -> (r: OpEngine)
        ensures
            r@ == init_view(record@, op),
    {
        let r = OpEngine { record, op, phases: Vec::new(), state: EngineState::Start };
        proof {
            assert(phases_vm(r.phases@) =~~= Seq::<PhaseView>::empty());
        }
        r
    }

    /// Records one more phase.
    fn push_phase(&mut self, name: &str, result: PhaseResult)
        ensures
            final(self)@ == with_phase(old(self)@, name@, result@),
    {
        let ghost rv = result@;
        self.phases.push(Phase { name: String::from_str(name), result });
        proof {
            assert(phases_vm(self.phases@) =~~= phases_vm(old(self).phases@).push(
                PhaseView { name: name@, result: rv },
            ));
        }
    }

    /// Continuation once a pull or push phase has fully ended.
    fn after_phase(&mut self, mode: LoopMode, Ghost(pre): Ghost<EngineView>) -> (r: EngineStep)
        requires
            old(self)@ == with_state(pre, EngineStateView::Done),
        ensures
            final(self)@ == model_after_phase(pre, mode).0,
            r@ == model_after_phase(pre, mode).1,
            state_wf(final(self)@.state),
    {
        match (mode, self.op) {
            (LoopMode::Pull, Command::Sync) => {
                let req = make_worktree_list_request(self.record.path.as_str());
                self.state = EngineState::AwaitWorktreeList { mode: LoopMode::Push };
                EngineStep::Run(req)
            },
            (LoopMode::Push, Command::Sync) => {
                self.push_phase("Sync", PhaseResult::Success(String::from_str("Sync complete!")));
                EngineStep::Finished
            },
            _ => EngineStep::Finished,
        }
    }

    /// Entry into the per-branch loop.
    fn loop_entry(
        &mut self,
        mode: LoopMode,
        layout: Layout,
        branches: Vec<String>,
        Ghost(pre): Ghost<EngineView>,
    ) -> (r: EngineStep)
        requires
            old(self)@ == with_state(pre, EngineStateView::Done),
        ensures
            final(self)@ == model_loop_entry(pre, mode, layout, branches.deep_view()).0,
            r@ == model_loop_entry(pre, mode, layout, branches.deep_view()).1,
            state_wf(final(self)@.state),
    {
        if branches.len() == 0 {
            let name = mode_name_exec(mode);
            self.push_phase(name, PhaseResult::Skipped(String::from_str("no branches")));
            self.after_phase(
                mode,
                Ghost(
                    with_phase(pre, mode_name(mode), PhaseResultView::Skipped("no branches"@)),
                ),
            )
        } else {
            let req = make_target_request(
                mode,
                layout,
                self.record.path.as_str(),
                branches[0].as_str(),
            );
            proof {
                assert(branches.deep_view()[0] == branches@[0]@);
            }
            self.state = EngineState::AwaitTarget {
                mode,
                layout,
                branches,
                idx: 0,
                first_err: None,
            };
            EngineStep::Run(req)
        }
    }

    /// The first step of the operation: what the host must do before any
    /// event can be reported.
    pub fn begin(&mut self) -> (r: EngineStep)
        requires
            old(self)@.state is Start,
        ensures
            final(self)@ == model_begin(old(self)@).0,
            r@ == model_begin(old(self)@).1,
            state_wf(final(self)@.state),
    {
        match self.op {
            Command::Clone => {
                let req = make_clone_request(&self.record);
                self.state = EngineState::AwaitClone;
                EngineStep::Run(req)
            },
            Command::Pull => {
                let req = make_status_request(self.record.path.as_str());
                self.state = EngineState::AwaitStatus;
                EngineStep::Run(req)
            },
            Command::Push => {
                let req = make_worktree_list_request(self.record.path.as_str());
                self.state = EngineState::AwaitWorktreeList { mode: LoopMode::Push };
                EngineStep::Run(req)
            },
            Command::Sync => {
                self.state = EngineState::AwaitCloned;
                EngineStep::CheckCloned
            },
        }
    }

    /// Feeds back what the host observed for the outstanding step and yields
    /// the next one; the transition is exactly `model_step`.
    pub fn on_event(&mut self, ev: VcsEvent) -> (r: EngineStep)
        requires
            event_matches(old(self)@.state, ev@),
            state_wf(old(self)@.state),
        ensures
            final(self)@ == model_step(old(self)@, ev@).0,
            r@ == model_step(old(self)@, ev@).1,
            state_wf(final(self)@.state),
    {
        let ghost e0 = self@;
        let mut st = EngineState::Done;
        core::mem::swap(&mut st, &mut self.state);
        match st {
            EngineState::Start => {
                proof {
                    assert(false);
                }
                EngineStep::Finished
            },
            EngineState::Done => {
                proof {
                    assert(false);
                }
                EngineStep::Finished
            },
            EngineState::AwaitCloned => match ev {
                VcsEvent::Cloned(b) => {
                    if b {
                        let req = make_status_request(self.record.path.as_str());
                        self.state = EngineState::AwaitStatus;
                        EngineStep::Run(req)
                    } else {
                        let req = make_clone_request(&self.record);
                        self.state = EngineState::AwaitClone;
                        EngineStep::Run(req)
                    }
                },
                _ => {
                    proof {
                        assert(false);
                    }
                    EngineStep::Finished
                },
            },
            EngineState::AwaitClone => match ev {
                VcsEvent::Ran(res) => {
                    if res.exit_success {
                        self.push_phase("Clone", PhaseResult::Success(res.stdout));
                        match self.op {
                            Command::Sync => {
                                self.push_phase(
                                    "Sync",
                                    PhaseResult::Success(String::from_str("Sync complete!")),
                                );
                            },
                            _ => {},
                        }
                        EngineStep::Finished
                    } else {
                        self.push_phase(
                            "Clone",
                            PhaseResult::Failure(OpError::VcsNonZeroExit(res.stderr)),
                        );
                        EngineStep::Finished
                    }
                },
                VcsEvent::SpawnFailed(m) => {
                    self.push_phase("Clone", PhaseResult::Failure(OpError::SpawnError(m)));
                    EngineStep::Finished
                },
                VcsEvent::Cloned(_) => {
                    proof {
                        assert(false);
                    }
                    EngineStep::Finished
                },
            },
            EngineState::AwaitStatus => match ev {
                VcsEvent::Ran(res) => {
                    if has_unstaged_changes(res.stdout.as_str()) {
                        let req = make_current_branch_request(self.record.path.as_str());
                        self.state = EngineState::AwaitCurrentBranch;
                        EngineStep::Run(req)
                    } else {
                        let req = make_worktree_list_request(self.record.path.as_str());
                        self.state = EngineState::AwaitWorktreeList { mode: LoopMode::Pull };
                        EngineStep::Run(req)
                    }
                },
                VcsEvent::SpawnFailed(m) => {
                    self.push_phase("Pull", PhaseResult::Failure(OpError::SpawnError(m)));
                    EngineStep::Finished
                },
                VcsEvent::Cloned(_) => {
                    proof {
                        assert(false);
                    }
                    EngineStep::Finished
                },
            },
            EngineState::AwaitCurrentBranch => match ev {
                VcsEvent::Ran(res) => {
                    self.push_phase(
                        "Pull",
                        PhaseResult::Failure(OpError::UnstagedChanges(res.stdout)),
                    );
                    EngineStep::Finished
                },
                VcsEvent::SpawnFailed(m) => {
                    self.push_phase("Pull", PhaseResult::Failure(OpError::SpawnError(m)));
                    EngineStep::Finished
                },
                VcsEvent::Cloned(_) => {
                    proof {
                        assert(false);
                    }
                    EngineStep::Finished
                },
            },
            EngineState::AwaitWorktreeList { mode } => match ev {
                VcsEvent::Ran(res) => {
                    if has_worktrees(res.stdout.as_str()) {
                        let branches = get_worktrees(res.stdout.as_str());
                        self.loop_entry(
                            mode,
                            Layout::BareWithWorktrees,
                            branches,
                            Ghost(e0),
                        )
                    } else {
                        let req = make_branch_list_request(self.record.path.as_str());
                        self.state = EngineState::AwaitBranchList { mode };
                        EngineStep::Run(req)
                    }
                },
                VcsEvent::SpawnFailed(m) => {
                    let name = mode_name_exec(mode);
                    self.push_phase(name, PhaseResult::Failure(OpError::SpawnError(m)));
                    EngineStep::Finished
                },
                VcsEvent::Cloned(_) => {
                    proof {
                        assert(false);
                    }
                    EngineStep::Finished
                },
            },
            EngineState::AwaitBranchList { mode } => match ev {
                VcsEvent::Ran(res) => {
                    let branches = get_branches(res.stdout.as_str());
                    self.loop_entry(mode, Layout::Normal, branches, Ghost(e0))
                },
                VcsEvent::SpawnFailed(m) => {
                    let name = mode_name_exec(mode);
                    self.push_phase(name, PhaseResult::Failure(OpError::SpawnError(m)));
                    EngineStep::Finished
                },
                VcsEvent::Cloned(_) => {
                    proof {
                        assert(false);
                    }
                    EngineStep::Finished
                },
            },
            EngineState::AwaitTarget { mode, layout, branches, idx, first_err } => {
                proof {
                    assert(state_wf(e0.state));
                    assert((idx as int) < branches.deep_view().len());
                    assert(branches.deep_view().len() == branches@.len());
                }
                let name = mode_name_exec(mode);
                let mut fe = first_err;
                match ev {
                    VcsEvent::Ran(res) => {
                        if res.exit_success {
                            self.push_phase(name, PhaseResult::Success(res.stdout));
                        } else {
                            self.push_phase(
                                name,
                                PhaseResult::Failure(OpError::VcsNonZeroExit(res.stderr)),
                            );
                        }
                    },
                    VcsEvent::SpawnFailed(m) => {
                        if fe.is_none() {
                            fe = Some(m.clone());
                        }
                        self.push_phase(name, PhaseResult::Failure(OpError::SpawnError(m)));
                    },
                    VcsEvent::Cloned(_) => {
                        proof {
                            assert(false);
                        }
                    },
                }
                if idx < branches.len() - 1 {
                    let req = make_target_request(
                        mode,
                        layout,
                        self.record.path.as_str(),
                        branches[idx + 1].as_str(),
                    );
                    proof {
                        assert(branches.deep_view()[idx + 1] == branches@[idx as int + 1]@);
                    }
                    self.state = EngineState::AwaitTarget {
                        mode,
                        layout,
                        branches,
                        idx: idx + 1,
                        first_err: fe,
                    };
                    EngineStep::Run(req)
                } else {
                    let ghost preterm = self@;
                    match fe {
                        Some(m2) => {
                            self.push_phase(
                                name,
                                PhaseResult::Failure(OpError::SpawnError(m2)),
                            );
                        },
                        None => {
                            let t = mode_done_text_exec(mode);
                            self.push_phase(name, PhaseResult::Success(String::from_str(t)));
                        },
                    }
                    let ghost e2 = EngineView { state: e0.state, ..self@ };
                    proof {
                        assert(self@ == with_state(e2, EngineStateView::Done));
                    }
                    self.after_phase(mode, Ghost(e2))
                }
            },
        }
    }

    /// The collected outcome for the repository.
    pub fn into_outcome(self) -> (r: RepoOutcome)
        ensures
            r@.record == self@.record,
            r@.phase_results == self@.phases,
    {
        RepoOutcome { record: self.record, phase_results: self.phases }
    }
}

} // verus!
