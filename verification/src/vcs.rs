//! The version-control driver surface.  The library never spawns the
//! underlying binary itself: it describes every wanted invocation as a
//! `VcsRequest` (argument vector plus working directory), and receives what
//! the host observed as an `InvocationResult`.  The argument vectors for the
//! recognized service are fixed here and verified against their spec forms.

use vstd::prelude::*;

use crate::manifest::{Repo, RepoView};

verus! {

/// The low-level operations the engine can ask the driver to run.
#[derive(Debug, Clone, Copy, PartialEq, Eq, Structural)]
pub enum VcsOp {
    Clone,
    Pull,
    Push,
    StatusPorcelain,
    WorktreeList,
    BranchList,
    CurrentBranch,
}

/// One wanted invocation of the version-control binary: the argument vector
/// after the binary name, and the working directory (`None` means the current
/// one is inherited).
#[derive(Debug)]
pub struct VcsRequest {
    pub op: VcsOp,
    pub args: Vec<String>,
    pub workdir: Option<String>,
}

/// Mathematical image of a `VcsRequest`.
pub struct VcsRequestView {
    pub op: VcsOp,
    pub args: Seq<Seq<char>>,
    pub workdir: Option<Seq<char>>,
}

impl View for VcsRequest {
    type V = VcsRequestView;

    open spec fn view(&self) -> VcsRequestView {
        VcsRequestView {
            op: self.op,
            args: self.args.deep_view(),
            workdir: match self.workdir {
                Some(w) => Some(w@),
                None => None,
            },
        }
    }
}

/// What one invocation produced: whether the process exited successfully,
/// and its captured output streams, decoded to text by the host.
#[derive(Debug)]
pub struct InvocationResult {
    pub exit_success: bool,
    pub stdout: String,
    pub stderr: String,
}

/// Mathematical image of an `InvocationResult`.
pub struct InvocationResultView {
    pub exit_success: bool,
    pub stdout: Seq<char>,
    pub stderr: Seq<char>,
}

impl View for InvocationResult {
    type V = InvocationResultView;

    open spec fn view(&self) -> InvocationResultView {
        InvocationResultView {
            exit_success: self.exit_success,
            stdout: self.stdout@,
            stderr: self.stderr@,
        }
    }
}

/// Argument vector of a clone: `clone <url> <path>`, with `--bare` appended
/// exactly when the record asks for a bare copy.
pub open spec fn clone_args(r: RepoView) -> Seq<Seq<char>> {
    if r.is_bare == Some(true) {
        seq!["clone"@, r.url, r.path, "--bare"@]
    } else {
        seq!["clone"@, r.url, r.path]
    }
}

/// The clone invocation; it inherits the current working directory.
pub open spec fn clone_request(r: RepoView) -> VcsRequestView {
    VcsRequestView { op: VcsOp::Clone, args: clone_args(r), workdir: None }
}

/// `status --porcelain`, run inside the working copy.
pub open spec fn status_request(path: Seq<char>) -> VcsRequestView {
    VcsRequestView {
        op: VcsOp::StatusPorcelain,
        args: seq!["status"@, "--porcelain"@],
        workdir: Some(path),
    }
}

/// `worktree list`, run inside the working copy.
pub open spec fn worktree_list_request(path: Seq<char>) -> VcsRequestView {
    VcsRequestView { op: VcsOp::WorktreeList, args: seq!["worktree"@, "list"@], workdir: Some(path) }
}

/// `branch`, run inside the working copy.
pub open spec fn branch_list_request(path: Seq<char>) -> VcsRequestView {
    VcsRequestView { op: VcsOp::BranchList, args: seq!["branch"@], workdir: Some(path) }
}

/// `branch --show-current`, run inside the working copy.
pub open spec fn current_branch_request(path: Seq<char>) -> VcsRequestView {
    VcsRequestView {
        op: VcsOp::CurrentBranch,
        args: seq!["branch"@, "--show-current"@],
        workdir: Some(path),
    }
}

/// `pull origin <branch>`.
pub open spec fn pull_args(branch: Seq<char>) -> Seq<Seq<char>> {
    seq!["pull"@, "origin"@, branch]
}

/// `push origin <branch>`.
pub open spec fn push_args(branch: Seq<char>) -> Seq<Seq<char>> {
    seq!["push"@, "origin"@, branch]
}

/// Builds the clone invocation for a record.
pub fn make_clone_request(r: &Repo) -> (q: VcsRequest)
    ensures
        q@ == clone_request(r@),
{
    let mut args: Vec<String> = Vec::new();
    args.push(String::from_str("clone"));
    args.push(r.url.clone());
    args.push(r.path.clone());
    let bare = match r.is_bare {
        Some(b) => b,
        None => false,
    };
    if bare {
        args.push(String::from_str("--bare"));
    }
    proof {
        assert(args.deep_view() =~~= clone_args(r@));
    }
    VcsRequest { op: VcsOp::Clone, args, workdir: None }
}

/// Builds the `status --porcelain` invocation.
pub fn make_status_request(path: &str) -> (q: VcsRequest)
    ensures
        q@ == status_request(path@),
{
    let mut args: Vec<String> = Vec::new();
    args.push(String::from_str("status"));
    args.push(String::from_str("--porcelain"));
    proof {
        assert(args.deep_view() =~~= seq!["status"@, "--porcelain"@]);
    }
    VcsRequest { op: VcsOp::StatusPorcelain, args, workdir: Some(String::from_str(path)) }
}

/// Builds the `worktree list` invocation.
pub fn make_worktree_list_request(path: &str) -> (q: VcsRequest)
    ensures
        q@ == worktree_list_request(path@),
{
    let mut args: Vec<String> = Vec::new();
    args.push(String::from_str("worktree"));
    args.push(String::from_str("list"));
    proof {
        assert(args.deep_view() =~~= seq!["worktree"@, "list"@]);
    }
    VcsRequest { op: VcsOp::WorktreeList, args, workdir: Some(String::from_str(path)) }
}

/// Builds the `branch` invocation.
pub fn make_branch_list_request(path: &str) -> (q: VcsRequest)
    ensures
        q@ == branch_list_request(path@),
{
    let mut args: Vec<String> = Vec::new();
    args.push(String::from_str("branch"));
    proof {
        assert(args.deep_view() =~~= seq!["branch"@]);
    }
    VcsRequest { op: VcsOp::BranchList, args, workdir: Some(String::from_str(path)) }
}

/// Builds the `branch --show-current` invocation.
pub fn make_current_branch_request(path: &str) -> (q: VcsRequest)
    ensures
        q@ == current_branch_request(path@),
{
    let mut args: Vec<String> = Vec::new();
    args.push(String::from_str("branch"));
    args.push(String::from_str("--show-current"));
    proof {
        assert(args.deep_view() =~~= seq!["branch"@, "--show-current"@]);
    }
    VcsRequest { op: VcsOp::CurrentBranch, args, workdir: Some(String::from_str(path)) }
}

} // verus!
