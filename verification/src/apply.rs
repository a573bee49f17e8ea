//! Applying a stored plan, as decisions: whether the apply may start, which
//! files are snapshotted, the run it starts, and, for each event of the run
//! (an operation performed or failed, the verification done), the run's
//! next state and what to do next. Taking snapshots, writing files, running
//! processes, verifying and journaling happen outside.
use vstd::prelude::*;
use crate::catalog::{get_package_manager, lockfiles_spec, statics};
use crate::guidance::{touched_paths, touched_sorted};
use crate::model::{
    diagnostics_view, Diagnostic, DiagnosticView, DiagnosticSeverity, MigrationPlan, PlannedOperation,
    ProcessExecutionRecord, SnapshotEntry, StoredPlan, StoredRun, SCHEMA_VERSION,
};
use crate::plan::{no_evidence, operations_view};
use crate::sorted::insert_sorted;
use crate::text::{chars_eq, chars_of, join, join_exec, push_chars, push_str, str_eq, strictly_sorted, string_of, strs, texts};

verus! {

/// Why an apply of a stored plan does not start: without the plan's exact
/// approval, for a plan that is not executable, or when the repository's
/// fingerprint is no longer the plan's baseline (checked in that order).
pub open spec fn apply_refusal(plan: MigrationPlan, approval: Option<Seq<char>>, fingerprint: Seq<char>) -> Option<
    Seq<char>,
> {
    if approval != Some(plan.plan_id@) {
        Some("apply requires exact approval for "@ + plan.plan_id@)
    } else if !plan.executable {
        Some("plan "@ + plan.plan_id@ + " is not executable"@)
    } else if fingerprint != plan.repository_fingerprint@ {
        Some("migration-relevant repository evidence changed after planning"@)
    } else {
        None
    }
}

pub open spec fn opt_str(s: Option<&str>) -> Option<Seq<char>> {
    match s {
        Some(a) => Some(a@),
        None => None,
    }
}

/// The checks made before an apply starts (see `apply_refusal`).
pub fn apply_gate(stored: &StoredPlan, approval: Option<&str>, current_fingerprint: &str) -> (r: Result<(), String>)
    ensures
        match r {
            Ok(()) => apply_refusal(stored.plan, opt_str(approval), current_fingerprint@) is None,
            Err(e) => apply_refusal(stored.plan, opt_str(approval), current_fingerprint@) == Some(e@),
        },
{
    let plan = &stored.plan;
    let id = chars_of(plan.plan_id.as_str());
    let approved = match approval {
        Some(a) => chars_eq(&chars_of(a), &id),
        None => false,
    };
    if !approved {
        let mut t = chars_of("apply requires exact approval for ");
        push_chars(&mut t, &id);
        return Err(string_of(&t));
    }
    if !plan.executable {
        let mut t = chars_of("plan ");
        push_chars(&mut t, &id);
        push_str(&mut t, " is not executable");
        return Err(string_of(&t));
    }
    if !chars_eq(&chars_of(current_fingerprint), &chars_of(plan.repository_fingerprint.as_str())) {
        return Err("migration-relevant repository evidence changed after planning".to_owned());
    }
    Ok(())
}

/// The files snapshotted before an apply: those the plan writes or deletes
/// and the target's lockfiles, each once, in increasing order.
pub fn snapshot_paths(plan: &MigrationPlan) -> (r: Vec<String>)
    ensures
        strictly_sorted(strs(r@)),
        strs(r@).to_set() == touched_paths(operations_view(plan.operations@)).union(
            lockfiles_spec(plan.target).to_set(),
        ),
{
    let mut v = touched_sorted(plan);
    let ghost base = texts(v@).to_set();
    let d = get_package_manager(plan.target);
    let ghost lf = statics(d.lockfiles@);
    let mut i: usize = 0;
    assert(lf.take(0).to_set() =~= Set::empty());
    assert(base.union(Set::empty()) =~= base);
    while i < d.lockfiles.len()
        invariant
            i <= d.lockfiles.len(),
            lf == statics(d.lockfiles@),
            strictly_sorted(texts(v@)),
            texts(v@).to_set() == base.union(lf.take(i as int).to_set()),
        decreases d.lockfiles.len() - i,
    {
        let c = chars_of(d.lockfiles[i]);
        insert_sorted(&mut v, c);
        proof {
            assert(lf.take(i + 1) =~= lf.take(i as int).push(c@));
            lf.take(i as int).lemma_push_to_set_commute(c@);
        }
        assert(texts(v@).to_set() =~= base.union(lf.take(i + 1).to_set()));
        i = i + 1;
    }
    assert(lf.take(d.lockfiles.len() as int) =~= lf);
    let r = crate::text::strings_of(&v);
    r
}

/// The run an apply starts: `applying`, with the plan and its snapshot,
/// and nothing performed yet.
pub fn begin_run(plan: MigrationPlan, run_id: &str, snapshot_entries: Vec<SnapshotEntry>) -> (r: StoredRun)
    ensures
        r.schema_version@ == SCHEMA_VERSION@,
        r.run_id@ == run_id@,
        r.plan == plan,
        r.state@ == "applying"@,
        r.snapshot_directory@ == "runs/"@ + run_id@ + "/snapshots"@,
        r.snapshot_entries == snapshot_entries,
        r.dependency_state_cleanups@.len() == 0,
        r.target_executable is None,
        r.processes@.len() == 0,
        r.diagnostics@.len() == 0,
{
    let mut dir = chars_of("runs/");
    push_str(&mut dir, run_id);
    push_str(&mut dir, "/snapshots");
    StoredRun {
        schema_version: SCHEMA_VERSION.to_owned(),
        run_id: run_id.to_owned(),
        plan,
        state: "applying".to_owned(),
        snapshot_directory: string_of(&dir),
        snapshot_entries,
        dependency_state_cleanups: Vec::new(),
        target_executable: None,
        processes: Vec::new(),
        diagnostics: Vec::new(),
    }
}

/// What happened to the step an apply asked for.
pub enum ApplyEvent {
    /// The operation's file mutations were made, and its command, when it
    /// has one, ran with this record.
    Performed { process: Option<ProcessExecutionRecord> },
    /// The operation could not be carried out, for this reason.
    Failed { message: String },
    /// The applied repository was verified.
    Verified { passed: bool, diagnostics: Vec<Diagnostic> },
}

/// What an apply does next.
#[derive(Debug, Clone, Copy, PartialEq, Eq, Structural)]
pub enum ApplyAction {
    /// Perform the operation at this index.
    Perform(usize),
    /// Verify the applied repository.
    Verify,
    /// The run is over.
    Finish,
}

/// The first operation at or after `from` that is not of the `verify`
/// phase (those are the verification's own).
pub open spec fn next_operation(ops: Seq<PlannedOperation>, from: int) -> Option<int>
    decreases ops.len() - from,
{
    if from < 0 || from >= ops.len() {
        None
    } else if ops[from].phase@ != "verify"@ {
        Some(from)
    } else {
        next_operation(ops, from + 1)
    }
}

fn next_operation_exec(ops: &Vec<PlannedOperation>, from: usize) -> (r: Option<usize>)
    ensures
        r == match next_operation(ops@, from as int) {
            Some(i) => Some(i as usize),
            None => None::<usize>,
        },
        r matches Some(i) ==> from <= i < ops@.len(),
{
    let mut i = from;
    while i < ops.len()
        invariant
            from <= i,
            next_operation(ops@, from as int) == next_operation(ops@, i as int),
        decreases ops.len() - i,
    {
        if !str_eq(&chars_of(ops[i].phase.as_str()), "verify") {
            return Some(i);
        }
        i = i + 1;
    }
    None
}

/// A step of the run's journal: the run moves to `state` and, when it
/// reaches an operation or the verification, asks for it.
pub open spec fn advance(ops: Seq<PlannedOperation>, from: int) -> (Seq<char>, ApplyAction) {
    match next_operation(ops, from) {
        Some(i) => ("applying"@, ApplyAction::Perform(i as usize)),
        None => ("verifying"@, ApplyAction::Verify),
    }
}

/// The first step of a run just begun.
pub fn start_run(run: StoredRun) -> (r: (StoredRun, ApplyAction))
    ensures
        (r.0.state@, r.1) == advance(run.plan.operations@, 0),
        r.0.run_id == run.run_id,
        r.0.plan == run.plan,
        r.0.snapshot_entries == run.snapshot_entries,
        r.0.processes == run.processes,
        r.0.diagnostics == run.diagnostics,
{
    let mut run = run;
    match next_operation_exec(&run.plan.operations, 0) {
        Some(i) => {
            run.state = "applying".to_owned();
            (run, ApplyAction::Perform(i))
        },
        None => {
            run.state = "verifying".to_owned();
            (run, ApplyAction::Verify)
        },
    }
}

/// The failure of an operation, with the command line that rolls the run
/// back.
pub open spec fn execution_failed(summary: Seq<char>, run_id: Seq<char>) -> DiagnosticView {
    DiagnosticView {
        code: "EXECUTION_FAILED"@,
        severity: DiagnosticSeverity::Error,
        summary,
        blocking: true,
        evidence: no_evidence(),
        remediation: seq!["Run pkgshift rollback "@ + run_id + " --approve "@ + run_id + "."@],
    }
}

fn execution_failed_exec(summary: &[char], run_id: &str) -> (d: Diagnostic)
    ensures
        d@ == execution_failed(summary@, run_id@),
{
    let mut rem = chars_of("Run pkgshift rollback ");
    push_str(&mut rem, run_id);
    push_str(&mut rem, " --approve ");
    push_str(&mut rem, run_id);
    push_str(&mut rem, ".");
    let mut rems: Vec<String> = Vec::new();
    rems.push(string_of(&rem));
    let d = Diagnostic::blocking("EXECUTION_FAILED", string_of(summary).as_str(), rems);
    assert(d@.evidence =~= no_evidence());
    assert(d@.remediation =~= execution_failed(summary@, run_id@).remediation);
    d
}

/// The summary of a command that did not complete successfully.
pub open spec fn command_failed(command: Seq<Seq<char>>) -> Seq<char> {
    join(command, " "@) + " did not complete successfully"@
}

/// The run after an event of the operation at `current` (or of the
/// verification), and what to do next:
/// - a performed operation records its process; a process that did not
///   succeed fails the run; otherwise the run goes on to the next operation
///   that is not of the `verify` phase, or to the verification;
/// - a failed operation fails the run with that message;
/// - a verification ends the run `succeeded` or `failed` and adds its
///   diagnostics.
/// A failed run asks for nothing more and names its rollback.
pub fn apply_step(run: StoredRun, current: usize, event: ApplyEvent) -> (r: (StoredRun, ApplyAction))
    requires
        current < run.plan.operations@.len(),
    ensures
        r.0.run_id == run.run_id,
        r.0.plan == run.plan,
        r.0.snapshot_entries == run.snapshot_entries,
        r.0.snapshot_directory == run.snapshot_directory,
        match event {
            ApplyEvent::Performed { process } => match process {
                Some(p) => r.0.processes@ == run.processes@.push(p) && if p.success {
                    (r.0.state@, r.1) == advance(run.plan.operations@, current + 1) && r.0.diagnostics == run.diagnostics
                } else {
                    r.0.state@ == "failed"@ && r.1 == ApplyAction::Finish && diagnostics_view(r.0.diagnostics@)
                        == diagnostics_view(run.diagnostics@).push(
                        execution_failed(
                            command_failed(strs(run.plan.operations@[current as int].command@)),
                            run.run_id@,
                        ),
                    )
                },
                None => r.0.processes == run.processes && (r.0.state@, r.1) == advance(
                    run.plan.operations@,
                    current + 1,
                ) && r.0.diagnostics == run.diagnostics,
            },
            ApplyEvent::Failed { message } => r.0.processes == run.processes && r.0.state@ == "failed"@ && r.1
                == ApplyAction::Finish && diagnostics_view(r.0.diagnostics@) == diagnostics_view(run.diagnostics@).push(
                execution_failed(message@, run.run_id@),
            ),
            ApplyEvent::Verified { passed, diagnostics } => r.0.processes == run.processes && r.0.state@ == (if passed {
                "succeeded"@
            } else {
                "failed"@
            }) && r.1 == ApplyAction::Finish && diagnostics_view(r.0.diagnostics@) == diagnostics_view(run.diagnostics@)
                + diagnostics_view(diagnostics@),
        },
{
    let ghost run0 = run;
    assert(current < run.plan.operations.len());
    let mut run = run;
    match event {
        ApplyEvent::Performed { process } => {
            match process {
                Some(p) => {
                    let success = p.success;
                    run.processes.push(p);
                    if !success {
                        let cmd = &run.plan.operations[current].command;
                        let mut parts: Vec<Vec<char>> = Vec::new();
                        let mut k: usize = 0;
                        while k < cmd.len()
                            invariant
                                k <= cmd.len(),
                                texts(parts@) == strs(cmd@).take(k as int),
                            decreases cmd.len() - k,
                        {
                            let ghost before = parts@;
                            parts.push(chars_of(cmd[k].as_str()));
                            assert(texts(parts@) =~= texts(before).push(cmd@[k as int]@));
                            assert(strs(cmd@).take(k + 1) =~= strs(cmd@).take(k as int).push(cmd@[k as int]@));
                            k = k + 1;
                        }
                        assert(strs(cmd@).take(cmd.len() as int) =~= strs(cmd@));
                        let mut summary = join_exec(&parts, " ");
                        push_str(&mut summary, " did not complete successfully");
                        let d = execution_failed_exec(&summary, run.run_id.as_str());
                        let ghost before = run.diagnostics@;
                        run.diagnostics.push(d);
                        assert(diagnostics_view(run.diagnostics@) =~= diagnostics_view(before).push(d@));
                        run.state = "failed".to_owned();
                        return (run, ApplyAction::Finish);
                    }
                },
                None => {},
            }
            match next_operation_exec(&run.plan.operations, current + 1) {
                Some(i) => {
                    run.state = "applying".to_owned();
                    (run, ApplyAction::Perform(i))
                },
                None => {
                    run.state = "verifying".to_owned();
                    (run, ApplyAction::Verify)
                },
            }
        },
        ApplyEvent::Failed { message } => {
            let d = execution_failed_exec(&chars_of(message.as_str()), run.run_id.as_str());
            let ghost before = run.diagnostics@;
            run.diagnostics.push(d);
            assert(diagnostics_view(run.diagnostics@) =~= diagnostics_view(before).push(d@));
            run.state = "failed".to_owned();
            (run, ApplyAction::Finish)
        },
        ApplyEvent::Verified { passed, diagnostics } => {
            let ghost before = run.diagnostics@;
            let mut k: usize = 0;
            while k < diagnostics.len()
                invariant
                    k <= diagnostics.len(),
                    run.run_id == run0.run_id,
                    run.plan == run0.plan,
                    run.snapshot_entries == run0.snapshot_entries,
                    run.snapshot_directory == run0.snapshot_directory,
                    run.processes == run0.processes,
                    diagnostics_view(run.diagnostics@) == diagnostics_view(before) + diagnostics_view(diagnostics@).take(
                        k as int,
                    ),
                decreases diagnostics.len() - k,
            {
                let ghost b = run.diagnostics@;
                run.diagnostics.push(diagnostics[k].duplicate());
                assert(diagnostics_view(run.diagnostics@) =~= diagnostics_view(b).push(diagnostics@[k as int]@));
                assert(diagnostics_view(diagnostics@).take(k + 1) =~= diagnostics_view(diagnostics@).take(k as int).push(
                    diagnostics@[k as int]@,
                ));
                k = k + 1;
            }
            assert(diagnostics_view(diagnostics@).take(diagnostics.len() as int) =~= diagnostics_view(diagnostics@));
            run.state = if passed {
                "succeeded".to_owned()
            } else {
                "failed".to_owned()
            };
            (run, ApplyAction::Finish)
        },
    }
}

/// A run never asks for an operation of the `verify` phase, nor for one
/// past the end of the plan.
pub proof fn law_apply_asks_for_real_operations(ops: Seq<PlannedOperation>, from: int)
    ensures
        next_operation(ops, from) matches Some(i) ==> from <= i < ops.len() && ops[i].phase@ != "verify"@,
    decreases ops.len() - from,
{
    if 0 <= from < ops.len() && ops[from].phase@ == "verify"@ {
        law_apply_asks_for_real_operations(ops, from + 1);
    }
}

} // verus!
