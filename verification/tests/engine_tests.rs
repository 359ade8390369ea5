use repoteer::batch::{batch_exit_success, has_hard_error, BatchRunner};
use repoteer::cli::Command;
use repoteer::engine::{
    EngineStep, OpEngine, OpError, PhaseResult, RepoOutcome, VcsEvent,
};
use repoteer::manifest::{Manifest, Repo, VCService};
use repoteer::vcs::{InvocationResult, VcsOp, VcsRequest};

fn repo(url: &str, path: &str, is_bare: Option<bool>) -> Repo {
    Repo { url: url.to_string(), service: VCService::Git, path: path.to_string(), is_bare }
}

fn ran(exit_success: bool, stdout: &str, stderr: &str) -> VcsEvent {
    VcsEvent::Ran(InvocationResult {
        exit_success,
        stdout: stdout.to_string(),
        stderr: stderr.to_string(),
    })
}

/// A recorded invocation: operation, argument vector, working directory.
type Call = (VcsOp, Vec<String>, Option<String>);

/// Drives one engine to completion against a scripted answerer, recording
/// every requested invocation.
fn drive<F>(r: Repo, op: Command, cloned: bool, mut stub: F, log: &mut Vec<Call>) -> RepoOutcome
where
    F: FnMut(&VcsRequest) -> VcsEvent,
{
    let mut eng = OpEngine::new(r, op);
    let mut step = eng.begin();
    loop {
        match step {
            EngineStep::CheckCloned => {
                step = eng.on_event(VcsEvent::Cloned(cloned));
            },
            EngineStep::Run(q) => {
                log.push((q.op, q.args.clone(), q.workdir.clone()));
                let ev = stub(&q);
                step = eng.on_event(ev);
            },
            EngineStep::Finished => break,
        }
    }
    eng.into_outcome()
}

fn args(v: &[&str]) -> Vec<String> {
    v.iter().map(|s| s.to_string()).collect()
}

#[test]
fn clone_two_fresh_repos_in_order() {
    // two records, neither cloned; the batch issues exactly two clones, in
    // manifest order, and exits successfully
    let m = Manifest {
        repos: vec![repo("urlA", "/a", None), repo("urlB", "/b", None)],
    };
    let mut log: Vec<Call> = Vec::new();
    let mut runner = BatchRunner::new(m);
    loop {
        let next = match runner.next_repo() {
            Some(r) => r.clone(),
            None => break,
        };
        let oc = drive(next, Command::Clone, false, |_q| ran(true, "", ""), &mut log);
        runner.record_outcome(oc);
    }
    let report = runner.report();
    assert_eq!(
        log,
        vec![
            (VcsOp::Clone, args(&["clone", "urlA", "/a"]), None),
            (VcsOp::Clone, args(&["clone", "urlB", "/b"]), None),
        ]
    );
    assert_eq!(report.len(), 2);
    assert_eq!(report[0].record.url, "urlA");
    assert_eq!(report[1].record.url, "urlB");
    assert!(batch_exit_success(&report));
}

#[test]
fn clone_is_stateless_in_layout() {
    // one clone invocation whatever the path state; --bare only when asked
    let mut log: Vec<Call> = Vec::new();
    drive(repo("u", "/p", None), Command::Clone, true, |_q| ran(true, "", ""), &mut log);
    assert_eq!(log, vec![(VcsOp::Clone, args(&["clone", "u", "/p"]), None)]);

    let mut log2: Vec<Call> = Vec::new();
    drive(repo("u", "/p", Some(true)), Command::Clone, false, |_q| ran(true, "", ""), &mut log2);
    assert_eq!(log2, vec![(VcsOp::Clone, args(&["clone", "u", "/p", "--bare"]), None)]);
}

#[test]
fn sync_mixed_states() {
    // record A is not cloned: sync clones it and stops; record B is cloned
    // and clean with one branch: sync pulls then pushes it
    let mut log: Vec<Call> = Vec::new();
    let oc_a = drive(repo("urlA", "/a", None), Command::Sync, false, |_q| ran(true, "", ""), &mut log);
    assert_eq!(log, vec![(VcsOp::Clone, args(&["clone", "urlA", "/a"]), None)]);
    assert!(!has_hard_error(&oc_a));

    let mut log_b: Vec<Call> = Vec::new();
    let oc_b = drive(
        repo("urlB", "/b", None),
        Command::Sync,
        true,
        |q| match q.op {
            VcsOp::StatusPorcelain => ran(true, "", ""),
            VcsOp::WorktreeList => ran(true, "/b  0123 [main]\n", ""),
            VcsOp::BranchList => ran(true, "* main\n", ""),
            VcsOp::Pull => ran(true, "Already up to date.\n", ""),
            VcsOp::Push => ran(true, "", ""),
            _ => panic!("unexpected request"),
        },
        &mut log_b,
    );
    assert_eq!(
        log_b,
        vec![
            (VcsOp::StatusPorcelain, args(&["status", "--porcelain"]), Some("/b".to_string())),
            (VcsOp::WorktreeList, args(&["worktree", "list"]), Some("/b".to_string())),
            (VcsOp::BranchList, args(&["branch"]), Some("/b".to_string())),
            (VcsOp::Pull, args(&["pull", "origin", "main"]), Some("/b".to_string())),
            (VcsOp::WorktreeList, args(&["worktree", "list"]), Some("/b".to_string())),
            (VcsOp::BranchList, args(&["branch"]), Some("/b".to_string())),
            (VcsOp::Push, args(&["push", "origin", "main"]), Some("/b".to_string())),
        ]
    );
    assert!(!has_hard_error(&oc_b));
    let last = oc_b.phase_results.last().unwrap();
    assert_eq!(last.name, "Sync");
    assert!(matches!(last.result, PhaseResult::Success(ref t) if t == "Sync complete!"));
}

#[test]
fn pull_refused_on_dirty_tree() {
    // a dirty tree refuses the pull: no pull invocation, an unstaged-changes
    // failure carrying the current branch, and a hard (non-zero) batch exit
    let mut log: Vec<Call> = Vec::new();
    let oc = drive(
        repo("urlC", "/c", None),
        Command::Pull,
        true,
        |q| match q.op {
            VcsOp::StatusPorcelain => ran(true, " M file.txt\n", ""),
            VcsOp::CurrentBranch => ran(true, "feat", ""),
            _ => panic!("unexpected request"),
        },
        &mut log,
    );
    assert!(log.iter().all(|c| c.0 != VcsOp::Pull));
    assert_eq!(log.len(), 2);
    assert_eq!(log[1].0, VcsOp::CurrentBranch);
    assert_eq!(oc.phase_results.len(), 1);
    assert!(matches!(
        oc.phase_results[0].result,
        PhaseResult::Failure(OpError::UnstagedChanges(ref b)) if b == "feat"
    ));
    assert!(has_hard_error(&oc));
    assert!(!batch_exit_success(&vec![oc]));
}

#[test]
fn worktree_aware_pull() {
    // a bare repository with two worktrees: each pull runs in its worktree
    // subdirectory with that worktree's branch
    let mut log: Vec<Call> = Vec::new();
    let oc = drive(
        repo("urlD", "/d", Some(true)),
        Command::Pull,
        true,
        |q| match q.op {
            VcsOp::StatusPorcelain => ran(true, "", ""),
            VcsOp::WorktreeList => ran(
                true,
                "/d            (bare)\n/d/main  0123 [main]\n/d/dev   4567 [dev]\n",
                "",
            ),
            VcsOp::Pull => ran(true, "", ""),
            _ => panic!("unexpected request"),
        },
        &mut log,
    );
    let pulls: Vec<&Call> = log.iter().filter(|c| c.0 == VcsOp::Pull).collect();
    assert_eq!(pulls.len(), 2);
    assert_eq!(pulls[0].1, args(&["pull", "origin", "main"]));
    assert_eq!(pulls[0].2, Some("/d/main".to_string()));
    assert_eq!(pulls[1].1, args(&["pull", "origin", "dev"]));
    assert_eq!(pulls[1].2, Some("/d/dev".to_string()));
    assert!(!has_hard_error(&oc));
}

#[test]
fn per_branch_push_failure_does_not_escalate() {
    // the push of the second branch exits non-zero: both pushes still run,
    // the outcome carries the failure, and the batch still exits zero
    let mut log: Vec<Call> = Vec::new();
    let oc = drive(
        repo("urlE", "/e", None),
        Command::Push,
        true,
        |q| match q.op {
            VcsOp::WorktreeList => ran(true, "/e  0123 [one]\n", ""),
            VcsOp::BranchList => ran(true, "* one\n  two\n", ""),
            VcsOp::Push => {
                if q.args[2] == "two" {
                    ran(false, "", "rejected")
                } else {
                    ran(true, "", "")
                }
            },
            _ => panic!("unexpected request"),
        },
        &mut log,
    );
    let pushes: Vec<&Call> = log.iter().filter(|c| c.0 == VcsOp::Push).collect();
    assert_eq!(pushes.len(), 2);
    let mut success = 0;
    let mut nonzero = 0;
    for p in &oc.phase_results {
        match &p.result {
            PhaseResult::Success(_) => success += 1,
            PhaseResult::Failure(OpError::VcsNonZeroExit(e)) => {
                assert_eq!(e, "rejected");
                nonzero += 1;
            },
            other => panic!("unexpected phase result {:?}", other),
        }
    }
    assert_eq!(nonzero, 1);
    assert!(success >= 1);
    assert!(!has_hard_error(&oc));
    assert!(batch_exit_success(&vec![oc]));
}

#[test]
fn pull_with_no_branches_is_skipped() {
    let mut log: Vec<Call> = Vec::new();
    let oc = drive(
        repo("u", "/p", None),
        Command::Pull,
        true,
        |q| match q.op {
            VcsOp::StatusPorcelain => ran(true, "", ""),
            VcsOp::WorktreeList => ran(true, "", ""),
            VcsOp::BranchList => ran(true, "", ""),
            _ => panic!("unexpected request"),
        },
        &mut log,
    );
    assert!(log.iter().all(|c| c.0 != VcsOp::Pull));
    assert_eq!(oc.phase_results.len(), 1);
    assert!(matches!(oc.phase_results[0].result, PhaseResult::Skipped(_)));
}

#[test]
fn spawn_failure_is_recorded_and_hard() {
    let mut log: Vec<Call> = Vec::new();
    let oc = drive(
        repo("u", "/p", None),
        Command::Clone,
        false,
        |_q| VcsEvent::SpawnFailed("binary not found".to_string()),
        &mut log,
    );
    assert!(matches!(
        oc.phase_results[0].result,
        PhaseResult::Failure(OpError::SpawnError(ref m)) if m == "binary not found"
    ));
    assert!(has_hard_error(&oc));
}
