//! The sync workflow: a linear state machine that reconciles the working
//! directory with a named remote branch.
//!
//! The machine itself performs no I/O.  [`SyncMachine::pending_op`] names
//! the version-control operation to run next; the caller runs it and feeds
//! the outcome back through [`step`].  The machine decides every
//! transition: which failures are tolerated, when the run ends in a
//! conflict, and what the final message says.

use crate::text::{chars_eq, contains_chars, contains_seq, str_to_chars, trim_chars, trim_spec};
use vstd::prelude::*;

verus! {

/// What one finished sync run reports.
#[derive(Debug, Clone)]
pub struct SyncResult {
    pub pulled: bool,
    pub pushed: bool,
    pub conflicts: bool,
    pub message: String,
}

/// The mathematical value of a [`SyncResult`].
pub ghost struct SyncResultV {
    pub pulled: bool,
    pub pushed: bool,
    pub conflicts: bool,
    pub message: Seq<char>,
}

impl View for SyncResult {
    type V = SyncResultV;

    open spec fn view(&self) -> SyncResultV {
        SyncResultV {
            pulled: self.pulled,
            pushed: self.pushed,
            conflicts: self.conflicts,
            message: self.message@,
        }
    }
}

/// What a version-control command that actually ran reported back.
#[derive(Debug, Clone)]
pub struct CmdOutput {
    pub success: bool,
    pub stdout: String,
    pub stderr: String,
}

/// The mathematical value of a [`CmdOutput`].
pub ghost struct CmdOutputV {
    pub success: bool,
    pub out: Seq<char>,
    pub err: Seq<char>,
}

impl View for CmdOutput {
    type V = CmdOutputV;

    open spec fn view(&self) -> CmdOutputV {
        CmdOutputV { success: self.success, out: self.stdout@, err: self.stderr@ }
    }
}

/// What happened when the caller tried to run the pending operation.
#[derive(Debug, Clone)]
pub enum SyncEvent {
    /// The process ran to completion (successfully or not).
    Completed(CmdOutput),
    /// The process could not be started at all.
    LaunchFailed(String),
}

/// The mathematical value of a [`SyncEvent`].
pub ghost enum SyncEventV {
    Completed(CmdOutputV),
    LaunchFailed(Seq<char>),
}

impl View for SyncEvent {
    type V = SyncEventV;

    open spec fn view(&self) -> SyncEventV {
        match self {
            SyncEvent::Completed(o) => SyncEventV::Completed(o@),
            SyncEvent::LaunchFailed(d) => SyncEventV::LaunchFailed(d@),
        }
    }
}

/// The version-control operations the workflow asks its caller to run.
#[derive(Debug, Clone, Copy, PartialEq, Eq, Structural)]
pub enum GitOp {
    /// Query the current branch name.
    QueryBranch,
    /// Switch to the target branch.
    Checkout,
    /// Fetch the target branch from the remote.
    Fetch,
    /// Pull the target branch from the remote.
    Pull,
    /// Stage all working-directory changes.
    Stage,
    /// Query whether any change is pending.
    Status,
    /// Commit the staged changes.
    Commit,
    /// Push the target branch to the remote.
    Push,
}

/// The states of the workflow, in the order a run passes them.
#[derive(Debug, Clone)]
pub enum SyncPhase {
    DetectBranch,
    EnsureBranch,
    Fetch,
    Pull,
    StageAll,
    DetectChanges,
    Commit,
    Push,
    /// The run ended with a reportable outcome.
    Complete(SyncResult),
    /// The run ended with a fatal error.
    Failed(String),
}

/// The mathematical value of a [`SyncPhase`].
pub ghost enum PhaseV {
    DetectBranch,
    EnsureBranch,
    Fetch,
    Pull,
    StageAll,
    DetectChanges,
    Commit,
    Push,
    Complete(SyncResultV),
    Failed(Seq<char>),
}

impl View for SyncPhase {
    type V = PhaseV;

    open spec fn view(&self) -> PhaseV {
        match self {
            SyncPhase::DetectBranch => PhaseV::DetectBranch,
            SyncPhase::EnsureBranch => PhaseV::EnsureBranch,
            SyncPhase::Fetch => PhaseV::Fetch,
            SyncPhase::Pull => PhaseV::Pull,
            SyncPhase::StageAll => PhaseV::StageAll,
            SyncPhase::DetectChanges => PhaseV::DetectChanges,
            SyncPhase::Commit => PhaseV::Commit,
            SyncPhase::Push => PhaseV::Push,
            SyncPhase::Complete(r) => PhaseV::Complete(r@),
            SyncPhase::Failed(e) => PhaseV::Failed(e@),
        }
    }
}

/// One in-flight sync run.
#[derive(Debug, Clone)]
pub struct SyncMachine {
    /// The requested target branch.
    pub branch: String,
    /// Whether the pull brought new commits in.
    pub pulled: bool,
    pub phase: SyncPhase,
}

/// The mathematical value of a [`SyncMachine`].
pub ghost struct MachineV {
    pub branch: Seq<char>,
    pub pulled: bool,
    pub phase: PhaseV,
}

impl View for SyncMachine {
    type V = MachineV;

    open spec fn view(&self) -> MachineV {
        MachineV { branch: self.branch@, pulled: self.pulled, phase: self.phase@ }
    }
}

// ---------------------------------------------------------------------------
// Messages
// ---------------------------------------------------------------------------

/// The fixed message table for a finished run without conflicts.
pub open spec fn outcome_message(pulled: bool, pushed: bool) -> Seq<char> {
    if pulled && pushed {
        "Fetched changes and pushed local changes."@
    } else if pulled {
        "Fetched changes."@
    } else if pushed {
        "Pushed local changes."@
    } else {
        "No changes."@
    }
}

pub open spec fn conflict_message() -> Seq<char> {
    "Conflicts detected. Please resolve them manually."@
}

pub open spec fn launch_failure_message(detail: Seq<char>) -> Seq<char> {
    "could not run git: "@ + detail
}

/// The outcome of a run that finished without conflicts.
pub open spec fn finished(pulled: bool, pushed: bool) -> SyncResultV {
    SyncResultV {
        pulled,
        pushed,
        conflicts: false,
        message: outcome_message(pulled, pushed),
    }
}

/// The outcome of a run that stopped on a merge conflict.
pub open spec fn conflict_outcome() -> SyncResultV {
    SyncResultV { pulled: false, pushed: false, conflicts: true, message: conflict_message() }
}

// ---------------------------------------------------------------------------
// The transition relation
// ---------------------------------------------------------------------------

/// What one event does to the machine.  This is the whole decision logic of
/// the workflow; [`step`] implements it exactly.
pub open spec fn spec_step(m: MachineV, e: SyncEventV) -> MachineV {
    match m.phase {
        PhaseV::DetectBranch => match e {
            SyncEventV::Completed(o) => {
                let cur = if o.success {
                    trim_spec(o.out)
                } else {
                    Seq::<char>::empty()
                };
                if cur.len() > 0 && cur != m.branch {
                    MachineV { phase: PhaseV::EnsureBranch, ..m }
                } else {
                    MachineV { phase: PhaseV::Fetch, ..m }
                }
            },
            SyncEventV::LaunchFailed(d) => MachineV {
                phase: PhaseV::Failed(launch_failure_message(d)),
                ..m
            },
        },
        PhaseV::EnsureBranch => match e {
            SyncEventV::Completed(o) => if o.success {
                MachineV { phase: PhaseV::Fetch, ..m }
            } else {
                MachineV { phase: PhaseV::Failed("git checkout failed: "@ + o.err), ..m }
            },
            SyncEventV::LaunchFailed(d) => MachineV {
                phase: PhaseV::Failed(launch_failure_message(d)),
                ..m
            },
        },
        // The fetch is best effort: every outcome, even a failure to start
        // the process, is tolerated.
        PhaseV::Fetch => MachineV { phase: PhaseV::Pull, ..m },
        PhaseV::Pull => match e {
            SyncEventV::Completed(o) => if o.success {
                MachineV {
                    phase: PhaseV::StageAll,
                    pulled: !contains_seq(o.out, "Already up to date"@),
                    ..m
                }
            } else if contains_seq(o.err, "CONFLICT"@) || contains_seq(o.err, "conflict"@) {
                MachineV { phase: PhaseV::Complete(conflict_outcome()), ..m }
            } else if contains_seq(o.err, "couldn't find remote ref"@) {
                MachineV { phase: PhaseV::StageAll, ..m }
            } else {
                MachineV { phase: PhaseV::Failed("git pull failed: "@ + o.err), ..m }
            },
            SyncEventV::LaunchFailed(d) => MachineV {
                phase: PhaseV::Failed(launch_failure_message(d)),
                ..m
            },
        },
        PhaseV::StageAll => match e {
            SyncEventV::Completed(o) => if o.success {
                MachineV { phase: PhaseV::DetectChanges, ..m }
            } else {
                MachineV { phase: PhaseV::Failed("git add failed: "@ + o.err), ..m }
            },
            SyncEventV::LaunchFailed(d) => MachineV {
                phase: PhaseV::Failed(launch_failure_message(d)),
                ..m
            },
        },
        PhaseV::DetectChanges => match e {
            SyncEventV::Completed(o) => if trim_spec(o.out).len() > 0 {
                MachineV { phase: PhaseV::Commit, ..m }
            } else {
                MachineV { phase: PhaseV::Complete(finished(m.pulled, false)), ..m }
            },
            SyncEventV::LaunchFailed(d) => MachineV {
                phase: PhaseV::Failed(launch_failure_message(d)),
                ..m
            },
        },
        PhaseV::Commit => match e {
            SyncEventV::Completed(o) => if o.success || contains_seq(
                o.err,
                "nothing to commit"@,
            ) {
                MachineV { phase: PhaseV::Push, ..m }
            } else {
                MachineV { phase: PhaseV::Failed("git commit failed: "@ + o.err), ..m }
            },
            SyncEventV::LaunchFailed(d) => MachineV {
                phase: PhaseV::Failed(launch_failure_message(d)),
                ..m
            },
        },
        PhaseV::Push => match e {
            SyncEventV::Completed(o) => if o.success {
                MachineV { phase: PhaseV::Complete(finished(m.pulled, true)), ..m }
            } else {
                MachineV { phase: PhaseV::Failed("git push failed: "@ + o.err), ..m }
            },
            SyncEventV::LaunchFailed(d) => MachineV {
                phase: PhaseV::Failed(launch_failure_message(d)),
                ..m
            },
        },
        PhaseV::Complete(_) => m,
        PhaseV::Failed(_) => m,
    }
}

/// Which operation the caller must run in each state; `None` once the run
/// has ended.
pub open spec fn spec_pending(p: PhaseV) -> Option<GitOp> {
    match p {
        PhaseV::DetectBranch => Some(GitOp::QueryBranch),
        PhaseV::EnsureBranch => Some(GitOp::Checkout),
        PhaseV::Fetch => Some(GitOp::Fetch),
        PhaseV::Pull => Some(GitOp::Pull),
        PhaseV::StageAll => Some(GitOp::Stage),
        PhaseV::DetectChanges => Some(GitOp::Status),
        PhaseV::Commit => Some(GitOp::Commit),
        PhaseV::Push => Some(GitOp::Push),
        PhaseV::Complete(_) => None,
        PhaseV::Failed(_) => None,
    }
}

// ---------------------------------------------------------------------------
// Executable machine
// ---------------------------------------------------------------------------

/// Begins a sync run against the given target branch.
pub fn start_sync(branch: String) -> (m: SyncMachine)
    ensures
        m@ == (MachineV { branch: branch@, pulled: false, phase: PhaseV::DetectBranch }),
{
    SyncMachine { branch, pulled: false, phase: SyncPhase::DetectBranch }
}

impl SyncMachine {
    /// The operation the caller must run next, or `None` once the run has
    /// ended in `Complete` or `Failed`.
    pub fn pending_op(&self) -> (r: Option<GitOp>)
        ensures
            r == spec_pending(self@.phase),
    {
        match &self.phase {
            SyncPhase::DetectBranch => Some(GitOp::QueryBranch),
            SyncPhase::EnsureBranch => Some(GitOp::Checkout),
            SyncPhase::Fetch => Some(GitOp::Fetch),
            SyncPhase::Pull => Some(GitOp::Pull),
            SyncPhase::StageAll => Some(GitOp::Stage),
            SyncPhase::DetectChanges => Some(GitOp::Status),
            SyncPhase::Commit => Some(GitOp::Commit),
            SyncPhase::Push => Some(GitOp::Push),
            SyncPhase::Complete(_) => None,
            SyncPhase::Failed(_) => None,
        }
    }
}

/// A machine moved into a failed state with the given label and error text.
fn failed_with(m: SyncMachine, label: &str, err: &str) -> (r: SyncMachine)
    ensures
        r@ == (MachineV { phase: PhaseV::Failed(label@ + err@), ..m@ }),
{
    let mut msg = label.to_owned();
    msg.append(err);
    SyncMachine { phase: SyncPhase::Failed(msg), ..m }
}

/// A machine moved into the failed state for a process that could not be
/// started.
fn launch_failed(m: SyncMachine, detail: &str) -> (r: SyncMachine)
    ensures
        r@ == (MachineV { phase: PhaseV::Failed(launch_failure_message(detail@)), ..m@ }),
{
    failed_with(m, "could not run git: ", detail)
}

/// Whether `s` contains the fixed marker `pat`.
fn str_contains(s: &String, pat: &str) -> (r: bool)
    ensures
        r == contains_seq(s@, pat@),
{
    let sc = str_to_chars(s.as_str());
    let pc = str_to_chars(pat);
    contains_chars(&sc, &pc)
}

/// Feeds one event to the machine, as [`spec_step`] describes.
pub fn step(m: SyncMachine, ev: SyncEvent) -> (r: SyncMachine)
    ensures
        r@ == spec_step(m@, ev@),
{
    match &m.phase {
        SyncPhase::DetectBranch => match ev {
            SyncEvent::Completed(o) => {
                let cur: Vec<char> = if o.success {
                    let oc = str_to_chars(o.stdout.as_str());
                    trim_chars(&oc)
                } else {
                    Vec::new()
                };
                let bc = str_to_chars(m.branch.as_str());
                if cur.len() > 0 && !chars_eq(&cur, &bc) {
                    SyncMachine { phase: SyncPhase::EnsureBranch, ..m }
                } else {
                    SyncMachine { phase: SyncPhase::Fetch, ..m }
                }
            },
            SyncEvent::LaunchFailed(d) => launch_failed(m, d.as_str()),
        },
        SyncPhase::EnsureBranch => match ev {
            SyncEvent::Completed(o) => if o.success {
                SyncMachine { phase: SyncPhase::Fetch, ..m }
            } else {
                failed_with(m, "git checkout failed: ", o.stderr.as_str())
            },
            SyncEvent::LaunchFailed(d) => launch_failed(m, d.as_str()),
        },
        SyncPhase::Fetch => SyncMachine { phase: SyncPhase::Pull, ..m },
        SyncPhase::Pull => match ev {
            SyncEvent::Completed(o) => if o.success {
                let up_to_date = str_contains(&o.stdout, "Already up to date");
                SyncMachine { phase: SyncPhase::StageAll, pulled: !up_to_date, ..m }
            } else if str_contains(&o.stderr, "CONFLICT") || str_contains(&o.stderr, "conflict") {
                SyncMachine { phase: SyncPhase::Complete(conflict_result()), ..m }
            } else if str_contains(&o.stderr, "couldn't find remote ref") {
                SyncMachine { phase: SyncPhase::StageAll, ..m }
            } else {
                failed_with(m, "git pull failed: ", o.stderr.as_str())
            },
            SyncEvent::LaunchFailed(d) => launch_failed(m, d.as_str()),
        },
        SyncPhase::StageAll => match ev {
            SyncEvent::Completed(o) => if o.success {
                SyncMachine { phase: SyncPhase::DetectChanges, ..m }
            } else {
                failed_with(m, "git add failed: ", o.stderr.as_str())
            },
            SyncEvent::LaunchFailed(d) => launch_failed(m, d.as_str()),
        },
        SyncPhase::DetectChanges => match ev {
            SyncEvent::Completed(o) => {
                let oc = str_to_chars(o.stdout.as_str());
                let t = trim_chars(&oc);
                if t.len() > 0 {
                    SyncMachine { phase: SyncPhase::Commit, ..m }
                } else {
                    let pulled = m.pulled;
                    SyncMachine { phase: SyncPhase::Complete(finished_result(pulled, false)), ..m }
                }
            },
            SyncEvent::LaunchFailed(d) => launch_failed(m, d.as_str()),
        },
        SyncPhase::Commit => match ev {
            SyncEvent::Completed(o) => if o.success || str_contains(&o.stderr, "nothing to commit")
            {
                SyncMachine { phase: SyncPhase::Push, ..m }
            } else {
                failed_with(m, "git commit failed: ", o.stderr.as_str())
            },
            SyncEvent::LaunchFailed(d) => launch_failed(m, d.as_str()),
        },
        SyncPhase::Push => match ev {
            SyncEvent::Completed(o) => if o.success {
                let pulled = m.pulled;
                SyncMachine { phase: SyncPhase::Complete(finished_result(pulled, true)), ..m }
            } else {
                failed_with(m, "git push failed: ", o.stderr.as_str())
            },
            SyncEvent::LaunchFailed(d) => launch_failed(m, d.as_str()),
        },
        SyncPhase::Complete(_) => m,
        SyncPhase::Failed(_) => m,
    }
}

/// The report of a run that finished without conflicts, with its message
/// from the fixed table.
pub fn finished_result(pulled: bool, pushed: bool) -> (r: SyncResult)
    ensures
        r@ == finished(pulled, pushed),
{
    let message = if pulled && pushed {
        "Fetched changes and pushed local changes.".to_owned()
    } else if pulled {
        "Fetched changes.".to_owned()
    } else if pushed {
        "Pushed local changes.".to_owned()
    } else {
        "No changes.".to_owned()
    };
    SyncResult { pulled, pushed, conflicts: false, message }
}

/// The report of a run that stopped on a merge conflict.
pub fn conflict_result() -> (r: SyncResult)
    ensures
        r@ == conflict_outcome(),
{
    SyncResult {
        pulled: false,
        pushed: false,
        conflicts: true,
        message: "Conflicts detected. Please resolve them manually.".to_owned(),
    }
}

// ---------------------------------------------------------------------------
// Laws of whole runs
// ---------------------------------------------------------------------------

/// A whole run: the machine after consuming the events in order.
pub open spec fn run_steps(m: MachineV, evs: Seq<SyncEventV>) -> MachineV
    decreases evs.len(),
{
    if evs.len() == 0 {
        m
    } else {
        run_steps(spec_step(m, evs[0]), evs.drop_first())
    }
}

/// Whether a machine's outcome, if it has one, is consistent: a conflict
/// outcome reports no pull and no push with the conflict message, and any
/// other outcome carries exactly the message of the fixed table for its
/// `(pulled, pushed)` pair.
pub open spec fn outcome_consistent(m: MachineV) -> bool {
    m.phase matches PhaseV::Complete(r) ==> {
        &&& r.conflicts ==> (!r.pulled && !r.pushed && r.message == conflict_message())
        &&& !r.conflicts ==> r.message == outcome_message(r.pulled, r.pushed)
    }
}

/// Every reachable outcome is consistent: the final message is always the
/// one the fixed table assigns to what actually happened.
pub proof fn lemma_run_outcome_consistent(m: MachineV, evs: Seq<SyncEventV>)
    requires
        outcome_consistent(m),
    ensures
        outcome_consistent(run_steps(m, evs)),
    decreases evs.len(),
{
    if evs.len() > 0 {
        lemma_run_outcome_consistent(spec_step(m, evs[0]), evs.drop_first());
    }
}

/// Idempotence of the workflow: a run that finds nothing to do reports
/// `(pulled: false, pushed: false, conflicts: false)`.  In particular,
/// running the workflow twice in a row with no intervening edits makes the
/// second run look exactly like this: its pull reports that everything is
/// already up to date and its status query reports a clean tree.
pub proof fn lemma_quiescent_run_reports_no_changes(
    branch: Seq<char>,
    detect: CmdOutputV,
    fetch_ev: SyncEventV,
    pull: CmdOutputV,
    stage: CmdOutputV,
    status: CmdOutputV,
)
    requires
        detect.success ==> trim_spec(detect.out) == branch,
        pull.success,
        contains_seq(pull.out, "Already up to date"@),
        stage.success,
        trim_spec(status.out).len() == 0,
    ensures
        ({
            let m0 = MachineV { branch, pulled: false, phase: PhaseV::DetectBranch };
            let evs = seq![
                SyncEventV::Completed(detect),
                fetch_ev,
                SyncEventV::Completed(pull),
                SyncEventV::Completed(stage),
                SyncEventV::Completed(status),
            ];
            run_steps(m0, evs) == (MachineV {
                branch,
                pulled: false,
                phase: PhaseV::Complete(finished(false, false)),
            })
        }),
{
    let m0 = MachineV { branch, pulled: false, phase: PhaseV::DetectBranch };
    let evs = seq![
        SyncEventV::Completed(detect),
        fetch_ev,
        SyncEventV::Completed(pull),
        SyncEventV::Completed(stage),
        SyncEventV::Completed(status),
    ];
    let m1 = spec_step(m0, evs[0]);
    assert(m1.phase == PhaseV::Fetch);
    let m2 = spec_step(m1, evs[1]);
    let m3 = spec_step(m2, evs[2]);
    let m4 = spec_step(m3, evs[3]);
    let m5 = spec_step(m4, evs[4]);
    let e1 = evs.drop_first();
    let e2 = e1.drop_first();
    let e3 = e2.drop_first();
    let e4 = e3.drop_first();
    let e5 = e4.drop_first();
    assert(e1 =~= seq![
        fetch_ev,
        SyncEventV::Completed(pull),
        SyncEventV::Completed(stage),
        SyncEventV::Completed(status),
    ]);
    assert(e2 =~= seq![
        SyncEventV::Completed(pull),
        SyncEventV::Completed(stage),
        SyncEventV::Completed(status),
    ]);
    assert(e3 =~= seq![SyncEventV::Completed(stage), SyncEventV::Completed(status)]);
    assert(e4 =~= seq![SyncEventV::Completed(status)]);
    assert(e5 =~= Seq::<SyncEventV>::empty());
    assert(run_steps(m0, evs) == run_steps(m1, e1));
    assert(run_steps(m1, e1) == run_steps(m2, e2));
    assert(run_steps(m2, e2) == run_steps(m3, e3));
    assert(run_steps(m3, e3) == run_steps(m4, e4));
    assert(run_steps(m4, e4) == run_steps(m5, e5));
    assert(run_steps(m0, evs) == m5);
}

} // verus!
