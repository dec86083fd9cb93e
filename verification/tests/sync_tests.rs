use md_kanban::sync::{
    start_sync, step, CmdOutput, GitOp, SyncEvent, SyncMachine, SyncPhase, SyncResult,
};

fn ran(success: bool, stdout: &str, stderr: &str) -> SyncEvent {
    SyncEvent::Completed(CmdOutput {
        success,
        stdout: String::from(stdout),
        stderr: String::from(stderr),
    })
}

fn run(branch: &str, events: Vec<SyncEvent>) -> SyncMachine {
    let mut m = start_sync(String::from(branch));
    for ev in events {
        m = step(m, ev);
    }
    m
}

fn outcome(m: SyncMachine) -> SyncResult {
    match m.phase {
        SyncPhase::Complete(r) => r,
        SyncPhase::Failed(e) => panic!("run failed: {}", e),
        _ => panic!("run not finished"),
    }
}

#[test]
fn no_new_commits_no_local_changes() {
    let m = run(
        "main",
        vec![
            ran(true, "main\n", ""),
            ran(true, "", ""),
            ran(true, "Already up to date.\n", ""),
            ran(true, "", ""),
            ran(true, "", ""),
        ],
    );
    let r = outcome(m);
    assert!(!r.pulled && !r.pushed && !r.conflicts);
    assert_eq!(r.message, "No changes.");
}

#[test]
fn no_new_commits_with_local_changes() {
    let m = run(
        "main",
        vec![
            ran(true, "main\n", ""),
            ran(true, "", ""),
            ran(true, "Already up to date.\n", ""),
            ran(true, "", ""),
            ran(true, " M tasks/a.md\n", ""),
            ran(true, "", ""),
            ran(true, "", ""),
        ],
    );
    let r = outcome(m);
    assert!(!r.pulled && r.pushed && !r.conflicts);
    assert_eq!(r.message, "Pushed local changes.");
}

#[test]
fn new_commits_no_local_changes() {
    let m = run(
        "main",
        vec![
            ran(true, "main\n", ""),
            ran(true, "", ""),
            ran(true, "Updating 1a2b..3c4d\nFast-forward\n", ""),
            ran(true, "", ""),
            ran(true, "", ""),
        ],
    );
    let r = outcome(m);
    assert!(r.pulled && !r.pushed && !r.conflicts);
    assert_eq!(r.message, "Fetched changes.");
}

#[test]
fn new_commits_and_local_changes() {
    let m = run(
        "main",
        vec![
            ran(true, "main\n", ""),
            ran(true, "", ""),
            ran(true, "Updating 1a2b..3c4d\nFast-forward\n", ""),
            ran(true, "", ""),
            ran(true, " M tasks/a.md\n", ""),
            ran(true, "", ""),
            ran(true, "", ""),
        ],
    );
    let r = outcome(m);
    assert!(r.pulled && r.pushed && !r.conflicts);
    assert_eq!(r.message, "Fetched changes and pushed local changes.");
}

#[test]
fn conflict_ends_the_run_at_once() {
    let m = run(
        "main",
        vec![
            ran(true, "main\n", ""),
            ran(true, "", ""),
            ran(false, "", "CONFLICT (content): Merge conflict in tasks/a.md\n"),
        ],
    );
    assert!(m.pending_op().is_none());
    let r = outcome(m);
    assert!(!r.pulled && !r.pushed && r.conflicts);
    assert_eq!(r.message, "Conflicts detected. Please resolve them manually.");
}

#[test]
fn missing_remote_ref_is_tolerated_then_pushes() {
    let m = run(
        "fresh",
        vec![
            ran(true, "fresh\n", ""),
            ran(true, "", ""),
            ran(false, "", "fatal: couldn't find remote ref fresh\n"),
            ran(true, "", ""),
            ran(true, "A  tasks/new.md\n", ""),
            ran(true, "", ""),
            ran(true, "", ""),
        ],
    );
    let r = outcome(m);
    assert!(!r.pulled && r.pushed && !r.conflicts);
    assert_eq!(r.message, "Pushed local changes.");
}

#[test]
fn second_run_with_no_edits_reports_no_changes() {
    // First run pushes local work; the second run, with nothing edited in
    // between, sees an up-to-date pull and a clean tree.
    let first = run(
        "main",
        vec![
            ran(true, "main\n", ""),
            ran(true, "", ""),
            ran(true, "Already up to date.\n", ""),
            ran(true, "", ""),
            ran(true, " M tasks/a.md\n", ""),
            ran(true, "", ""),
            ran(true, "", ""),
        ],
    );
    let r1 = outcome(first);
    assert!(r1.pushed);
    let second = run(
        "main",
        vec![
            ran(true, "main\n", ""),
            ran(true, "", ""),
            ran(true, "Already up to date.\n", ""),
            ran(true, "", ""),
            ran(true, "", ""),
        ],
    );
    let r2 = outcome(second);
    assert!(!r2.pulled && !r2.pushed && !r2.conflicts);
    assert_eq!(r2.message, "No changes.");
}

#[test]
fn different_branch_inserts_checkout() {
    let mut m = start_sync(String::from("work"));
    assert_eq!(m.pending_op(), Some(GitOp::QueryBranch));
    m = step(m, ran(true, "main\n", ""));
    assert_eq!(m.pending_op(), Some(GitOp::Checkout));
    m = step(m, ran(true, "Switched to branch 'work'\n", ""));
    assert_eq!(m.pending_op(), Some(GitOp::Fetch));
}

#[test]
fn failed_branch_query_is_tolerated() {
    let mut m = start_sync(String::from("work"));
    m = step(m, ran(false, "", "fatal: not a git repository\n"));
    assert_eq!(m.pending_op(), Some(GitOp::Fetch));
}

#[test]
fn failed_checkout_is_fatal() {
    let mut m = start_sync(String::from("work"));
    m = step(m, ran(true, "main\n", ""));
    m = step(m, ran(false, "", "error: pathspec 'work' did not match\n"));
    match m.phase {
        SyncPhase::Failed(e) => {
            assert_eq!(e, "git checkout failed: error: pathspec 'work' did not match\n");
        }
        _ => panic!("expected a fatal error"),
    }
}

#[test]
fn fetch_failure_is_ignored() {
    let mut m = start_sync(String::from("main"));
    m = step(m, ran(true, "main\n", ""));
    assert_eq!(m.pending_op(), Some(GitOp::Fetch));
    m = step(m, SyncEvent::LaunchFailed(String::from("no such file")));
    assert_eq!(m.pending_op(), Some(GitOp::Pull));
}

#[test]
fn other_pull_failure_is_fatal() {
    let m = run(
        "main",
        vec![
            ran(true, "main\n", ""),
            ran(true, "", ""),
            ran(false, "", "fatal: unable to access remote\n"),
        ],
    );
    match m.phase {
        SyncPhase::Failed(e) => assert_eq!(e, "git pull failed: fatal: unable to access remote\n"),
        _ => panic!("expected a fatal error"),
    }
}

#[test]
fn nothing_to_commit_is_tolerated() {
    let m = run(
        "main",
        vec![
            ran(true, "main\n", ""),
            ran(true, "", ""),
            ran(true, "Already up to date.\n", ""),
            ran(true, "", ""),
            ran(true, "?? note.txt\n", ""),
            ran(false, "", "nothing to commit, working tree clean\n"),
            ran(true, "", ""),
        ],
    );
    let r = outcome(m);
    assert!(r.pushed);
}

#[test]
fn failed_push_is_fatal() {
    let m = run(
        "main",
        vec![
            ran(true, "main\n", ""),
            ran(true, "", ""),
            ran(true, "Already up to date.\n", ""),
            ran(true, "", ""),
            ran(true, " M a\n", ""),
            ran(true, "", ""),
            ran(false, "", "rejected\n"),
        ],
    );
    match m.phase {
        SyncPhase::Failed(e) => assert_eq!(e, "git push failed: rejected\n"),
        _ => panic!("expected a fatal error"),
    }
}

#[test]
fn launch_failure_is_fatal_outside_fetch() {
    let mut m = start_sync(String::from("main"));
    m = step(m, SyncEvent::LaunchFailed(String::from("spawn error")));
    match m.phase {
        SyncPhase::Failed(e) => assert_eq!(e, "could not run git: spawn error"),
        _ => panic!("expected a fatal error"),
    }
}

#[test]
fn pending_ops_follow_the_linear_order() {
    let mut m = start_sync(String::from("main"));
    let mut ops: Vec<GitOp> = Vec::new();
    loop {
        match m.pending_op() {
            Some(op) => ops.push(op),
            None => break,
        }
        m = step(m, ran(true, if ops.len() == 1 { "main\n" } else { "" }, ""));
    }
    assert_eq!(
        ops,
        vec![
            GitOp::QueryBranch,
            GitOp::Fetch,
            GitOp::Pull,
            GitOp::Stage,
            GitOp::Status,
        ],
    );
}
