//! The stored plans and runs: where they live, the checks made when they
//! are loaded, and how a run's state changes when it is verified or rolled
//! back.
use vstd::prelude::*;
use crate::checks::{digests_view, report_view, verification_spec, verify_plan, ReportView};
use crate::model::{
    diagnostics_view, Diagnostic, DiagnosticSeverity, DiagnosticView, PackageIr, PackageManagerCandidate,
    PackageManagerId, StoredPlan, StoredRun, VerificationReport, VerificationStatus,
};
use crate::json::JsonValue;
use crate::plan::no_evidence;
use crate::store::{open_plan_envelope, open_plan_spec, open_run_envelope, open_run_spec, seal, sealed};
use crate::project_ir::path_join;
use crate::text::{chars_eq, chars_of, push_str, starts_with, str_eq, str_starts_with, string_of, strs};

verus! {

/// Where a stored plan lives: `plans/<id>.json` below the state directory.
pub open spec fn plan_path_spec(state_directory: Seq<char>, plan_id: Seq<char>) -> Seq<char> {
    path_join(path_join(state_directory, "plans"@), plan_id + ".json"@)
}

/// Where a stored run lives: `runs/<id>/run.json` below the state directory.
pub open spec fn run_path_spec(state_directory: Seq<char>, run_id: Seq<char>) -> Seq<char> {
    path_join(path_join(path_join(state_directory, "runs"@), run_id), "run.json"@)
}

fn join_exec(a: &str, b: &str) -> (r: String)
    ensures
        r@ == path_join(a@, b@),
{
    let ac = chars_of(a);
    let bc = chars_of(b);
    let mut out = chars_of(a);
    if bc.len() > 0 && bc[0] == '/' {
        return b.to_owned();
    }
    if !(ac.len() == 0 || ac[ac.len() - 1] == '/') {
        push_str(&mut out, "/");
    }
    push_str(&mut out, b);
    string_of(&out)
}

/// The path of the stored plan `plan_id`; refused unless the identifier
/// starts with `plan_`.
pub fn plan_path(state_directory: &str, plan_id: &str) -> (r: Result<String, String>)
    ensures
        match r {
            Ok(p) => starts_with(plan_id@, "plan_"@) && p@ == plan_path_spec(state_directory@, plan_id@),
            Err(e) => !starts_with(plan_id@, "plan_"@) && e@ == "plan identifiers must start with plan_"@,
        },
{
    let id = chars_of(plan_id);
    if !str_starts_with(&id, "plan_") {
        return Err("plan identifiers must start with plan_".to_owned());
    }
    let plans = join_exec(state_directory, "plans");
    let mut file = chars_of(plan_id);
    push_str(&mut file, ".json");
    let f = string_of(&file);
    Ok(join_exec(plans.as_str(), f.as_str()))
}

/// The path of the stored run `run_id`; refused unless the identifier
/// starts with `run_`.
pub fn run_path(state_directory: &str, run_id: &str) -> (r: Result<String, String>)
    ensures
        match r {
            Ok(p) => starts_with(run_id@, "run_"@) && p@ == run_path_spec(state_directory@, run_id@),
            Err(e) => !starts_with(run_id@, "run_"@) && e@ == "run identifiers must start with run_"@,
        },
{
    let id = chars_of(run_id);
    if !str_starts_with(&id, "run_") {
        return Err("run identifiers must start with run_".to_owned());
    }
    let runs = join_exec(state_directory, "runs");
    let dir = join_exec(runs.as_str(), run_id);
    Ok(join_exec(dir.as_str(), "run.json"))
}

/// Where a plan is saved and what is written there: the plan's path and its
/// content sealed in a store envelope (see `sealed`). `content` is the
/// stored plan written as JSON.
pub fn save_plan(state_directory: &str, plan_id: &str, content: JsonValue) -> (r: Result<(String, JsonValue), String>)
    ensures
        match r {
            Ok((p, e)) => starts_with(plan_id@, "plan_"@) && p@ == plan_path_spec(state_directory@, plan_id@) && e@
                == sealed(content@),
            Err(m) => !starts_with(plan_id@, "plan_"@) && m@ == "plan identifiers must start with plan_"@,
        },
{
    let path = plan_path(state_directory, plan_id)?;
    Ok((path, seal(content)))
}

/// A stored plan read for `plan_id` from its envelope at `path`, where
/// `stored` is the envelope's content decoded: refused as `open_plan_spec`
/// says (a wrong prefix, an envelope whose schema version or digest does
/// not match its content, or content for another plan), and when the
/// decoded plan carries another identifier.
pub fn load_plan(plan_id: &str, path: &str, envelope: &JsonValue, stored: StoredPlan) -> (r: Result<StoredPlan, String>)
    ensures
        match r {
            Ok(p) => open_plan_spec(plan_id@, path@, envelope@) is Ok && stored.plan.plan_id@ == plan_id@ && p == stored,
            Err(e) => match open_plan_spec(plan_id@, path@, envelope@) {
                Err(m) => e@ == m,
                Ok(_) => stored.plan.plan_id@ != plan_id@ && e@ == "stored plan identity does not match its path"@,
            },
        },
{
    open_plan_envelope(plan_id, path, envelope)?;
    let id = chars_of(plan_id);
    let stored_id = chars_of(stored.plan.plan_id.as_str());
    if !chars_eq(&stored_id, &id) {
        return Err("stored plan identity does not match its path".to_owned());
    }
    Ok(stored)
}

/// A stored run read for `run_id` from its envelope at `path`, where `run`
/// is the envelope's content decoded, as `load_plan` says of plans.
pub fn load_run(run_id: &str, path: &str, envelope: &JsonValue, run: StoredRun) -> (r: Result<StoredRun, String>)
    ensures
        match r {
            Ok(x) => open_run_spec(run_id@, path@, envelope@) is Ok && run.run_id@ == run_id@ && x == run,
            Err(e) => match open_run_spec(run_id@, path@, envelope@) {
                Err(m) => e@ == m,
                Ok(_) => run.run_id@ != run_id@ && e@ == "stored run identity does not match its path"@,
            },
        },
{
    open_run_envelope(run_id, path, envelope)?;
    let id = chars_of(run_id);
    let stored_id = chars_of(run.run_id.as_str());
    if !chars_eq(&stored_id, &id) {
        return Err("stored run identity does not match its path".to_owned());
    }
    Ok(run)
}

/// The package directories a stored plan expects, in order.
pub open spec fn expected_packages(stored: StoredPlan) -> Seq<Seq<char>> {
    stored.project_ir.packages@.map_values(|p: PackageIr| p.path@)
}

/// Whether some process of the run succeeded.
pub open spec fn install_succeeded(run: StoredRun) -> bool {
    exists|i: int| 0 <= i < run.processes@.len() && (#[trigger] run.processes@[i]).success
}

/// Verifies a run of a stored plan, given the facts gathered about the
/// repository now (see `verification_spec`): the report, and the run with
/// its state (`succeeded` or `failed`) and diagnostics taken from the
/// report; everything else in the run is kept.
pub fn verify_stored_run(
    run: StoredRun,
    stored: &StoredPlan,
    run_id: &str,
    digests: &[(String, Option<String>)],
    selected: Option<PackageManagerId>,
    candidates: &Vec<PackageManagerCandidate>,
    present: &Vec<String>,
    current_packages: &Vec<String>,
) -> (r: (StoredRun, VerificationReport))
    ensures
        report_view(r.1) == verification_spec(
            run.plan,
            run_id@,
            digests_view(digests@),
            selected,
            candidates@,
            strs(present@),
            strs(current_packages@),
            expected_packages(*stored),
            install_succeeded(run),
        ),
        r.0.state@ == (if r.1.status == VerificationStatus::Passed {
            "succeeded"@
        } else {
            "failed"@
        }),
        diagnostics_view(r.0.diagnostics@) == diagnostics_view(r.1.diagnostics@),
        r.0.schema_version == run.schema_version,
        r.0.run_id == run.run_id,
        r.0.plan == run.plan,
        r.0.snapshot_directory == run.snapshot_directory,
        r.0.snapshot_entries == run.snapshot_entries,
        r.0.dependency_state_cleanups == run.dependency_state_cleanups,
        r.0.target_executable == run.target_executable,
        r.0.processes == run.processes,
{
    let mut expected: Vec<String> = Vec::new();
    let mut i: usize = 0;
    while i < stored.project_ir.packages.len()
        invariant
            i <= stored.project_ir.packages.len(),
            strs(expected@) == expected_packages(*stored).take(i as int),
        decreases stored.project_ir.packages.len() - i,
    {
        let p = stored.project_ir.packages[i].path.as_str().to_owned();
        let ghost before = expected@;
        expected.push(p);
        assert(strs(expected@) =~= strs(before).push(p@));
        assert(expected_packages(*stored).take(i + 1) =~= expected_packages(*stored).take(i as int).push(
            stored.project_ir.packages@[i as int].path@,
        ));
        i = i + 1;
    }
    assert(expected_packages(*stored).take(stored.project_ir.packages.len() as int) =~= expected_packages(*stored));
    let mut succeeded = false;
    let mut k: usize = 0;
    while k < run.processes.len()
        invariant
            k <= run.processes.len(),
            succeeded == exists|j: int| 0 <= j < k && (#[trigger] run.processes@[j]).success,
        decreases run.processes.len() - k,
    {
        if run.processes[k].success {
            succeeded = true;
        }
        k = k + 1;
    }
    let report = verify_plan(
        &run.plan,
        run_id,
        digests,
        selected,
        candidates,
        present,
        current_packages,
        &expected,
        succeeded,
    );
    let passed = match report.status {
        VerificationStatus::Passed => true,
        _ => false,
    };
    let mut copies: Vec<Diagnostic> = Vec::new();
    crate::plan::extend_copies(&mut copies, &report.diagnostics);
    assert(diagnostics_view(copies@) =~= diagnostics_view(report.diagnostics@));
    let mut out = run;
    out.state = if passed {
        "succeeded".to_owned()
    } else {
        "failed".to_owned()
    };
    out.diagnostics = copies;
    (out, report)
}

/// A rollback of `run_id` goes ahead only with that exact approval.
pub fn check_rollback_approval(run_id: &str, approval: Option<&str>) -> (r: Result<(), String>)
    ensures
        match r {
            Ok(()) => approval matches Some(a) && a@ == run_id@,
            Err(e) => !(approval matches Some(a) && a@ == run_id@) && e@ == "rollback requires exact approval for "@
                + run_id@,
        },
{
    let approved = match approval {
        Some(a) => {
            let ac = chars_of(a);
            let rc = chars_of(run_id);
            chars_eq(&ac, &rc)
        },
        None => false,
    };
    if !approved {
        let mut t = chars_of("rollback requires exact approval for ");
        push_str(&mut t, run_id);
        return Err(string_of(&t));
    }
    Ok(())
}

/// A run already rolled back is not rolled back again.
pub fn check_rollback_state(run: &StoredRun, run_id: &str) -> (r: Result<(), String>)
    ensures
        match r {
            Ok(()) => run.state@ != "rolled-back"@,
            Err(e) => run.state@ == "rolled-back"@ && e@ == "run "@ + run_id@ + " is already rolled back"@,
        },
{
    let st = chars_of(run.state.as_str());
    if str_eq(&st, "rolled-back") {
        let mut t = chars_of("run ");
        push_str(&mut t, run_id);
        push_str(&mut t, " is already rolled back");
        return Err(string_of(&t));
    }
    Ok(())
}

pub open spec fn rollback_failed() -> DiagnosticView {
    DiagnosticView {
        code: "ROLLBACK_FAILED"@,
        severity: DiagnosticSeverity::Error,
        summary: "restored repository fingerprint does not match the plan baseline"@,
        blocking: true,
        evidence: no_evidence(),
        remediation: seq!["Preserve the state directory and inspect snapshot integrity."@],
    }
}

pub open spec fn external_effects_remain() -> DiagnosticView {
    DiagnosticView {
        code: "ROLLBACK_EXTERNAL_EFFECTS_REMAIN"@,
        severity: DiagnosticSeverity::Warning,
        summary: "Repository files were restored; dependency cache and node_modules effects are not reverted."@,
        blocking: false,
        evidence: no_evidence(),
        remediation: seq!["Reinstall the source dependency state when node_modules parity is required."@],
    }
}

/// Whether a rollback of `run_id` may restore the run's snapshot: refused
/// without that exact approval (checked first), then for a run already
/// rolled back.
pub open spec fn rollback_refusal(run_id: Seq<char>, approval: Option<Seq<char>>, state: Seq<char>) -> Option<Seq<char>> {
    if approval != Some(run_id) {
        Some("rollback requires exact approval for "@ + run_id)
    } else if state == "rolled-back"@ {
        Some("run "@ + run_id + " is already rolled back"@)
    } else {
        None
    }
}

pub open spec fn opt_str(s: Option<&str>) -> Option<Seq<char>> {
    match s {
        Some(a) => Some(a@),
        None => None,
    }
}

/// The checks made before a run's snapshot is restored, given the run's
/// recorded state (see `rollback_refusal`).
pub fn rollback_gate(run_id: &str, approval: Option<&str>, state: &str) -> (r: Result<(), String>)
    ensures
        match r {
            Ok(()) => rollback_refusal(run_id@, opt_str(approval), state@) is None,
            Err(e) => rollback_refusal(run_id@, opt_str(approval), state@) == Some(e@),
        },
{
    match check_rollback_approval(run_id, approval) {
        Err(e) => Err(e),
        Ok(()) => {
            if str_eq(&chars_of(state), "rolled-back") {
                let mut t = chars_of("run ");
                push_str(&mut t, run_id);
                push_str(&mut t, " is already rolled back");
                return Err(string_of(&t));
            }
            Ok(())
        },
    }
}

/// The rollback of `run_id`: refused as `rollback_refusal` says, with the
/// run left as it was; otherwise the run after its snapshot was restored
/// (see `finish_rollback`), given the repository's fingerprint now.
pub fn rollback_stored_run(run_id: &str, approval: Option<&str>, run: StoredRun, restored_fingerprint: &str) -> (r:
    Result<StoredRun, String>)
    ensures
        match r {
            Err(e) => rollback_refusal(run_id@, opt_str(approval), run.state@) == Some(e@),
            Ok(x) => rollback_refusal(run_id@, opt_str(approval), run.state@) is None && finished_rollback(
                run,
                restored_fingerprint@,
                x,
            ),
        },
{
    match rollback_gate(run_id, approval, run.state.as_str()) {
        Err(e) => Err(e),
        Ok(()) => Ok(finish_rollback(run, restored_fingerprint)),
    }
}

/// The run after its snapshot was restored: rolled back with a warning that
/// dependency effects remain when the fingerprint matches the plan's
/// baseline; otherwise failed, with the failure added to its diagnostics.
/// Everything else in the run is kept.
pub open spec fn finished_rollback(run: StoredRun, restored_fingerprint: Seq<char>, r: StoredRun) -> bool {
    &&& restored_fingerprint == run.plan.repository_fingerprint@ ==> r.state@ == "rolled-back"@ && diagnostics_view(
        r.diagnostics@,
    ) == seq![external_effects_remain()]
    &&& restored_fingerprint != run.plan.repository_fingerprint@ ==> r.state@ == "rollback-failed"@ && diagnostics_view(
        r.diagnostics@,
    ) == diagnostics_view(run.diagnostics@).push(rollback_failed())
    &&& r.schema_version == run.schema_version
    &&& r.run_id == run.run_id
    &&& r.plan == run.plan
    &&& r.snapshot_directory == run.snapshot_directory
    &&& r.snapshot_entries == run.snapshot_entries
    &&& r.dependency_state_cleanups == run.dependency_state_cleanups
    &&& r.target_executable == run.target_executable
    &&& r.processes == run.processes
}

/// The state and diagnostics of a run after its snapshot was restored,
/// given its baseline fingerprint, the fingerprint now and its diagnostics
/// so far (see `finished_rollback`).
pub fn rollback_outcome(baseline: &str, restored_fingerprint: &str, diagnostics: Vec<Diagnostic>) -> (r: (
    String,
    Vec<Diagnostic>,
))
    ensures
        restored_fingerprint@ == baseline@ ==> r.0@ == "rolled-back"@ && diagnostics_view(r.1@) == seq![
            external_effects_remain(),
        ],
        restored_fingerprint@ != baseline@ ==> r.0@ == "rollback-failed"@ && diagnostics_view(r.1@)
            == diagnostics_view(diagnostics@).push(rollback_failed()),
{
    if !chars_eq(&chars_of(restored_fingerprint), &chars_of(baseline)) {
        let mut rem: Vec<String> = Vec::new();
        rem.push("Preserve the state directory and inspect snapshot integrity.".to_owned());
        let d = Diagnostic::blocking(
            "ROLLBACK_FAILED",
            "restored repository fingerprint does not match the plan baseline",
            rem,
        );
        assert(d@.evidence =~= no_evidence());
        assert(d@.remediation =~= rollback_failed().remediation);
        let mut ds = diagnostics;
        let ghost before = ds@;
        ds.push(d);
        assert(diagnostics_view(ds@) =~= diagnostics_view(before).push(d@));
        ("rollback-failed".to_owned(), ds)
    } else {
        let mut rem: Vec<String> = Vec::new();
        rem.push("Reinstall the source dependency state when node_modules parity is required.".to_owned());
        let d = Diagnostic {
            code: "ROLLBACK_EXTERNAL_EFFECTS_REMAIN".to_owned(),
            severity: DiagnosticSeverity::Warning,
            summary: "Repository files were restored; dependency cache and node_modules effects are not reverted.".to_owned(),
            blocking: false,
            evidence: Vec::new(),
            remediation: rem,
        };
        assert(d@.evidence =~= no_evidence());
        assert(d@.remediation =~= external_effects_remain().remediation);
        let mut ds: Vec<Diagnostic> = Vec::new();
        ds.push(d);
        assert(diagnostics_view(ds@) =~= seq![external_effects_remain()]);
        ("rolled-back".to_owned(), ds)
    }
}

fn finish_rollback(run: StoredRun, restored_fingerprint: &str) -> (r: StoredRun)
    ensures
        finished_rollback(run, restored_fingerprint@, r),
        restored_fingerprint@ == run.plan.repository_fingerprint@ ==> r.state@ == "rolled-back"@ && diagnostics_view(
            r.diagnostics@,
        ) == seq![external_effects_remain()],
        restored_fingerprint@ != run.plan.repository_fingerprint@ ==> r.state@ == "rollback-failed"@
            && diagnostics_view(r.diagnostics@) == diagnostics_view(run.diagnostics@).push(rollback_failed()),
        r.schema_version == run.schema_version,
        r.run_id == run.run_id,
        r.plan == run.plan,
        r.snapshot_directory == run.snapshot_directory,
        r.snapshot_entries == run.snapshot_entries,
        r.dependency_state_cleanups == run.dependency_state_cleanups,
        r.target_executable == run.target_executable,
        r.processes == run.processes,
{
    let mut out = run;
    let mut diagnostics: Vec<Diagnostic> = Vec::new();
    std::mem::swap(&mut diagnostics, &mut out.diagnostics);
    let (state, ds) = rollback_outcome(out.plan.repository_fingerprint.as_str(), restored_fingerprint, diagnostics);
    out.state = state;
    out.diagnostics = ds;
    out
}

} // verus!
