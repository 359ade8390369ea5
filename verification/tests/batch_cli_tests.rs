use repoteer::batch::{batch_exit_success, BatchRunner};
use repoteer::cli::{effective_command, Args, Command, Config};
use repoteer::engine::{OpError, Phase, PhaseResult, RepoOutcome};
use repoteer::manifest::{Manifest, Repo, VCService};
use repoteer::task::RepoTask;
use repoteer::text::{get_output_lines, str_contains, str_eq, trim};
use repoteer::inspector::{get_branches, get_worktrees, has_unstaged_changes, has_worktrees};

fn repo(url: &str, path: &str) -> Repo {
    Repo { url: url.to_string(), service: VCService::Git, path: path.to_string(), is_bare: None }
}

fn outcome_for(r: &Repo, result: PhaseResult) -> RepoOutcome {
    RepoOutcome {
        record: r.clone(),
        phase_results: vec![Phase { name: "Pull".to_string(), result }],
    }
}

#[test]
fn batch_keeps_manifest_order_and_never_stops() {
    // the middle repository fails hard; all three are still attempted and
    // the report stays in manifest order
    let repos = vec![repo("u1", "/p1"), repo("u2", "/p2"), repo("u3", "/p3")];
    let m = Manifest { repos: repos.clone() };
    let mut runner = BatchRunner::new(m);
    let mut attempted: Vec<String> = Vec::new();
    let mut i = 0;
    loop {
        let next = match runner.next_repo() {
            Some(r) => r.clone(),
            None => break,
        };
        attempted.push(next.url.clone());
        let result = if i == 1 {
            PhaseResult::Failure(OpError::SpawnError("no binary".to_string()))
        } else {
            PhaseResult::Success(String::new())
        };
        runner.record_outcome(outcome_for(&next, result));
        i += 1;
    }
    assert_eq!(attempted, vec!["u1".to_string(), "u2".to_string(), "u3".to_string()]);
    let report = runner.report();
    assert_eq!(report.len(), 3);
    for (k, oc) in report.iter().enumerate() {
        assert_eq!(oc.record, repos[k]);
    }
    assert!(!batch_exit_success(&report));
}

#[test]
fn exit_code_classes() {
    let r = repo("u", "/p");
    // a mere non-zero exit of the underlying binary is not a hard error
    let soft = outcome_for(&r, PhaseResult::Failure(OpError::VcsNonZeroExit("conflict".to_string())));
    assert!(batch_exit_success(&vec![soft]));
    // an unstaged-changes refusal is
    let refused = outcome_for(&r, PhaseResult::Failure(OpError::UnstagedChanges("main".to_string())));
    assert!(!batch_exit_success(&vec![refused]));
    // a spawn error is
    let spawn = outcome_for(&r, PhaseResult::Failure(OpError::SpawnError("gone".to_string())));
    assert!(!batch_exit_success(&vec![spawn]));
    // skipped work is not
    let skipped = outcome_for(&r, PhaseResult::Skipped("no branches".to_string()));
    assert!(batch_exit_success(&vec![skipped]));
}

#[test]
fn config_carries_verbosity() {
    let a = Args { manifest: None, command: Some(Command::Pull), verbose: true };
    assert!(Config::new(&a).verbose);
    let b = Args { manifest: None, command: None, verbose: false };
    assert!(!Config::new(&b).verbose);
}

#[test]
fn sync_is_the_default_command() {
    assert!(matches!(effective_command(None), Command::Sync));
    assert!(matches!(effective_command(Some(Command::Clone)), Command::Clone));
}

#[test]
fn task_state_carries_heading_and_message() {
    let mut t = RepoTask::new(repo("git@example.com:r.git", "/r"));
    assert_eq!(t.state, "");
    t.update_state("running operation Pull on branch main".to_string());
    assert_eq!(
        t.state,
        "Repo:  git@example.com:r.git\n   running operation Pull on branch main"
    );
}

#[test]
fn output_lines_follow_text_conventions() {
    let lines = get_output_lines("a\r\nb\nlast");
    assert_eq!(lines, vec!["a".to_string(), "b".to_string(), "last".to_string()]);
    assert_eq!(get_output_lines(""), Vec::<String>::new());
    assert_eq!(get_output_lines("\n"), vec!["".to_string()]);
}

#[test]
fn text_searching_and_trimming() {
    assert!(str_contains("/d            (bare)", "(bare)"));
    assert!(!str_contains("/d/main  0123 [main]", "(bare)"));
    assert_eq!(trim("  \tworktree \r"), "worktree");
    assert!(str_eq("same", "same"));
    assert!(!str_eq("same", "Same"));
}

#[test]
fn inspector_reads_command_output() {
    assert!(has_unstaged_changes(" M file\n"));
    assert!(!has_unstaged_changes(""));
    assert!(has_worktrees("/d            (bare)\n/d/main  0123 [main]\n"));
    assert!(!has_worktrees("/d  0123 [main]\n"));
    assert!(!has_worktrees(""));
    assert_eq!(
        get_branches("* main\n  dev\n"),
        vec!["main".to_string(), "dev".to_string()]
    );
    assert_eq!(get_branches(""), Vec::<String>::new());
    assert_eq!(
        get_worktrees("/d            (bare)\n/d/main  0123 [main]\n/d/dev  4567 [dev]\n"),
        vec!["main".to_string(), "dev".to_string()]
    );
    // a line without a closing bracket contributes nothing
    assert_eq!(get_worktrees("/d            (bare)\n"), Vec::<String>::new());
}
