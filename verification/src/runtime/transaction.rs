//! Applying, verifying and rolling back a runtime plan, as decisions:
//! whether an apply or a rollback may go ahead, what the verification of the
//! applied repository reports, and the state a rolled-back run ends in.
//! Snapshots, file writes and the inspection happen outside.
use vstd::prelude::*;
use crate::model::{
    diagnostics_view, Diagnostic, DiagnosticSeverity, DiagnosticView, EvidenceDetail, VerificationStatus,
};
use crate::plan::{mutations_view, no_evidence, operations_view, MutationView, OperationView};
use crate::text::{chars_eq, chars_of, find_char, find_char_exec, push_str, slice_of, str_eq, string_of, strs, texts};
use super::model::RuntimeMigrationPlan;

verus! {

pub open spec fn opt_text_view(d: Option<String>) -> Option<Seq<char>> {
    match d {
        Some(s) => Some(s@),
        None => None,
    }
}

pub open spec fn opt_str(s: Option<&str>) -> Option<Seq<char>> {
    match s {
        Some(a) => Some(a@),
        None => None,
    }
}

/// Why an apply of a runtime plan does not start: without the plan's exact
/// approval, for a plan that is not executable, or when the repository's
/// runtime fingerprint is no longer the plan's baseline (in that order).
pub open spec fn runtime_apply_refusal(
    plan_id: Seq<char>,
    executable: bool,
    baseline: Seq<char>,
    approval: Option<Seq<char>>,
    fingerprint: Seq<char>,
) -> Option<Seq<char>> {
    if approval != Some(plan_id) {
        Some("runtime apply requires exact approval for "@ + plan_id)
    } else if !executable {
        Some("runtime plan "@ + plan_id + " is not executable"@)
    } else if fingerprint != baseline {
        Some("runtime migration-relevant repository evidence changed after planning"@)
    } else {
        None
    }
}

/// The checks made before a runtime apply starts.
pub fn runtime_apply_gate(plan: &RuntimeMigrationPlan, approval: Option<&str>, current_fingerprint: &str) -> (r: Result<
    (),
    String,
>)
    ensures
        match r {
            Ok(()) => runtime_apply_refusal(
                plan.plan_id@,
                plan.executable,
                plan.repository_fingerprint@,
                opt_str(approval),
                current_fingerprint@,
            ) is None,
            Err(e) => runtime_apply_refusal(
                plan.plan_id@,
                plan.executable,
                plan.repository_fingerprint@,
                opt_str(approval),
                current_fingerprint@,
            ) == Some(e@),
        },
{
    let id = chars_of(plan.plan_id.as_str());
    let approved = match approval {
        Some(a) => chars_eq(&chars_of(a), &id),
        None => false,
    };
    if !approved {
        let mut t = chars_of("runtime apply requires exact approval for ");
        push_str(&mut t, plan.plan_id.as_str());
        return Err(string_of(&t));
    }
    if !plan.executable {
        let mut t = chars_of("runtime plan ");
        push_str(&mut t, plan.plan_id.as_str());
        push_str(&mut t, " is not executable");
        return Err(string_of(&t));
    }
    if !chars_eq(&chars_of(current_fingerprint), &chars_of(plan.repository_fingerprint.as_str())) {
        return Err("runtime migration-relevant repository evidence changed after planning".to_owned());
    }
    Ok(())
}

/// A runtime failure, with the command line that rolls the run back.
pub open spec fn runtime_failure(code: Seq<char>, summary: Seq<char>, run_id: Seq<char>) -> DiagnosticView {
    DiagnosticView {
        code,
        severity: DiagnosticSeverity::Error,
        summary,
        blocking: true,
        evidence: no_evidence(),
        remediation: seq!["Run pkgshift runtime rollback "@ + run_id + " --approve "@ + run_id + "."@],
    }
}

pub fn runtime_failure_exec(code: &str, summary: &str, run_id: &str) -> (d: Diagnostic)
    ensures
        d@ == runtime_failure(code@, summary@, run_id@),
{
    let mut rem = chars_of("Run pkgshift runtime rollback ");
    push_str(&mut rem, run_id);
    push_str(&mut rem, " --approve ");
    push_str(&mut rem, run_id);
    push_str(&mut rem, ".");
    let mut rems: Vec<String> = Vec::new();
    rems.push(string_of(&rem));
    let d = Diagnostic::blocking(code, summary, rems);
    assert(d@.evidence =~= no_evidence());
    assert(d@.remediation =~= runtime_failure(code@, summary@, run_id@).remediation);
    d
}

/// Every mutation of the operations, in order.
pub open spec fn all_mutations(ops: Seq<OperationView>) -> Seq<MutationView>
    decreases ops.len(),
{
    if ops.len() == 0 {
        seq![]
    } else {
        all_mutations(ops.drop_last()) + ops.last().mutations
    }
}

/// Whether each mutation's file now has the digest the plan expects of it
/// (`current` lists those digests in mutation order).
pub open spec fn after_digests_match(ms: Seq<MutationView>, current: Seq<Option<Seq<char>>>) -> bool {
    current.len() == ms.len() && forall|i: int| 0 <= i < ms.len() ==> #[trigger] current[i] == ms[i].after_digest
}

/// Where a residue was found: the part before its first `:`.
pub open spec fn residue_location(value: Seq<char>) -> Seq<char> {
    match find_char(value, ':') {
        Some(i) => value.take(i),
        None => value,
    }
}

/// The diagnostic of Bun references left after a runtime migration, with
/// the first 64 as evidence.
pub open spec fn residue_remains(residues: Seq<Seq<char>>, run_id: Seq<char>) -> DiagnosticView {
    DiagnosticView {
        code: "RUNTIME_BUN_RESIDUE_REMAINS"@,
        severity: DiagnosticSeverity::Error,
        summary: crate::digest::decimal(residues.len()) + " Bun runtime reference(s) remain after migration."@,
        blocking: true,
        evidence: residues.take(if residues.len() < 64 {
            residues.len() as int
        } else {
            64
        }).map_values(|v: Seq<char>| (residue_location(v), "Bun runtime residue"@)),
        remediation: seq!["Run pkgshift runtime rollback "@ + run_id + " --approve "@ + run_id + "."@],
    }
}

pub open spec fn digest_failure(run_id: Seq<char>) -> DiagnosticView {
    runtime_failure(
        "RUNTIME_AFTER_DIGEST_FAILED"@,
        "At least one runtime mutation no longer matches its planned afterDigest."@,
        run_id,
    )
}

/// What the verification of an applied runtime plan finds, given the
/// digests of the mutated files now and the Bun references the inspection
/// still finds.
pub struct RuntimeVerification {
    pub status: VerificationStatus,
    pub digests_passed: bool,
    pub residue_passed: bool,
    pub diagnostics: Vec<Diagnostic>,
}

fn residue_diagnostic(residues: &Vec<String>, run_id: &str) -> (d: Diagnostic)
    ensures
        d@ == residue_remains(strs(residues@), run_id@),
{
    let ghost rv = strs(residues@);
    let n: usize = if residues.len() < 64 {
        residues.len()
    } else {
        64
    };
    let mut evidence: Vec<EvidenceDetail> = Vec::new();
    let mut i: usize = 0;
    while i < n
        invariant
            i <= n <= residues.len(),
            rv == strs(residues@),
            evidence@.map_values(|e: EvidenceDetail| e@) == rv.take(i as int).map_values(
                |v: Seq<char>| (residue_location(v), "Bun runtime residue"@),
            ),
        decreases n - i,
    {
        let c = chars_of(residues[i].as_str());
        let location = match find_char_exec(&c, ':') {
            Some(k) => {
                proof {
                    crate::text::lemma_find_char_bounds(c@, ':');
                }
                slice_of(&c, 0, k)
            },
            None => slice_of(&c, 0, c.len()),
        };
        assert(location@ =~= residue_location(rv[i as int]));
        let ghost before = evidence@;
        evidence.push(EvidenceDetail { location: string_of(&location), detail: "Bun runtime residue".to_owned() });
        assert(evidence@.map_values(|e: EvidenceDetail| e@) =~= before.map_values(|e: EvidenceDetail| e@).push(
            (residue_location(rv[i as int]), "Bun runtime residue"@),
        ));
        assert(rv.take(i + 1).map_values(|v: Seq<char>| (residue_location(v), "Bun runtime residue"@)) =~= rv.take(
            i as int,
        ).map_values(|v: Seq<char>| (residue_location(v), "Bun runtime residue"@)).push(
            (residue_location(rv[i as int]), "Bun runtime residue"@),
        ));
        i = i + 1;
    }
    let count = crate::digest::decimal_exec(residues.len());
    let mut summary = count;
    push_str(&mut summary, " Bun runtime reference(s) remain after migration.");
    let mut rem = chars_of("Run pkgshift runtime rollback ");
    push_str(&mut rem, run_id);
    push_str(&mut rem, " --approve ");
    push_str(&mut rem, run_id);
    push_str(&mut rem, ".");
    let mut rems: Vec<String> = Vec::new();
    rems.push(string_of(&rem));
    let d = Diagnostic {
        code: "RUNTIME_BUN_RESIDUE_REMAINS".to_owned(),
        severity: DiagnosticSeverity::Error,
        summary: string_of(&summary),
        blocking: true,
        evidence,
        remediation: rems,
    };
    assert(d@.remediation =~= residue_remains(rv, run_id@).remediation);
    assert(d@.evidence =~= residue_remains(rv, run_id@).evidence);
    d
}

/// The verification of an applied runtime plan: the planned after-digests
/// must hold (`current` gives the digests now, in mutation order) and no
/// Bun reference may remain; each failure adds its diagnostic.
pub fn verify_runtime(plan: &RuntimeMigrationPlan, run_id: &str, current: &Vec<Option<String>>, residues: &Vec<String>) -> (r:
    RuntimeVerification)
    ensures
        r.digests_passed == after_digests_match(
            all_mutations(operations_view(plan.operations@)),
            current@.map_values(|d: Option<String>| opt_text_view(d)),
        ),
        r.residue_passed == (residues@.len() == 0),
        r.status == if r.digests_passed && r.residue_passed {
            VerificationStatus::Passed
        } else {
            VerificationStatus::Failed
        },
        diagnostics_view(r.diagnostics@) == (if r.digests_passed {
            seq![]
        } else {
            seq![digest_failure(run_id@)]
        }) + (if r.residue_passed {
            seq![]
        } else {
            seq![residue_remains(strs(residues@), run_id@)]
        }),
{
    let ghost ov = operations_view(plan.operations@);
    let ghost cv = current@.map_values(|d: Option<String>| opt_text_view(d));
    let mut flat: Vec<Option<String>> = Vec::new();
    let mut i: usize = 0;
    while i < plan.operations.len()
        invariant
            i <= plan.operations.len(),
            ov == operations_view(plan.operations@),
            flat@.map_values(|d: Option<String>| opt_text_view(d)) == all_mutations(
                ov.take(i as int),
            ).map_values(|m: MutationView| m.after_digest),
        decreases plan.operations.len() - i,
    {
        assert(ov.take(i + 1).drop_last() =~= ov.take(i as int));
        let ms = &plan.operations[i].mutations;
        let ghost base = flat@.map_values(|d: Option<String>| opt_text_view(d));
        let mut k: usize = 0;
        while k < ms.len()
            invariant
                k <= ms.len(),
                flat@.map_values(|d: Option<String>| opt_text_view(d)) == base + mutations_view(
                    ms@,
                ).take(k as int).map_values(|m: MutationView| m.after_digest),
            decreases ms.len() - k,
        {
            let d = match &ms[k].after_digest {
                Some(s) => Some(s.as_str().to_owned()),
                None => None,
            };
            let ghost before = flat@;
            flat.push(d);
            assert(flat@.map_values(|d: Option<String>| opt_text_view(d)) =~= before.map_values(
                |d: Option<String>| opt_text_view(d),
            ).push(mutations_view(ms@)[k as int].after_digest));
            assert(mutations_view(ms@).take(k + 1).map_values(|m: MutationView| m.after_digest) =~= mutations_view(
                ms@,
            ).take(k as int).map_values(|m: MutationView| m.after_digest).push(mutations_view(ms@)[k as int].after_digest));
            k = k + 1;
        }
        assert(mutations_view(ms@).take(ms.len() as int) =~= mutations_view(ms@));
        assert(ov.take(i + 1).last().mutations == mutations_view(ms@));
        assert(all_mutations(ov.take(i + 1)).map_values(|m: MutationView| m.after_digest) =~= all_mutations(
            ov.take(i as int),
        ).map_values(|m: MutationView| m.after_digest) + mutations_view(ms@).map_values(
            |m: MutationView| m.after_digest,
        ));
        i = i + 1;
    }
    assert(ov.take(plan.operations.len() as int) =~= ov);
    let ghost fv = flat@.map_values(|d: Option<String>| opt_text_view(d));
    let ghost am = all_mutations(ov);
    let mut digests_passed = current.len() == flat.len();
    assert(am.map_values(|m: MutationView| m.after_digest).len() == am.len());
    let mut j: usize = 0;
    while j < flat.len() && digests_passed
        invariant
            j <= flat.len(),
            digests_passed ==> current.len() == flat.len(),
            fv == flat@.map_values(|d: Option<String>| opt_text_view(d)),
            cv == current@.map_values(|d: Option<String>| opt_text_view(d)),
            fv == am.map_values(|m: MutationView| m.after_digest),
            am.len() == flat.len(),
            digests_passed ==> forall|q: int| 0 <= q < j ==> cv[q] == am[q].after_digest,
            !digests_passed ==> !after_digests_match(am, cv),
            current.len() != flat.len() ==> !digests_passed,
        decreases flat.len() - j,
    {
        let same = match (&current[j], &flat[j]) {
            (Some(a), Some(b)) => chars_eq(&chars_of(a.as_str()), &chars_of(b.as_str())),
            (None, None) => true,
            _ => false,
        };
        assert(fv[j as int] == opt_text_view(flat@[j as int]));
        assert(cv[j as int] == opt_text_view(current@[j as int]));
        assert(fv[j as int] == am[j as int].after_digest);
        if !same {
            assert(cv[j as int] != am[j as int].after_digest);
            digests_passed = false;
        }
        j = j + 1;
    }
    assert(digests_passed == after_digests_match(am, cv));
    let residue_passed = residues.len() == 0;
    let mut diagnostics: Vec<Diagnostic> = Vec::new();
    if !digests_passed {
        diagnostics.push(
            runtime_failure_exec(
                "RUNTIME_AFTER_DIGEST_FAILED",
                "At least one runtime mutation no longer matches its planned afterDigest.",
                run_id,
            ),
        );
    }
    let ghost first = diagnostics_view(diagnostics@);
    if !residue_passed {
        diagnostics.push(residue_diagnostic(residues, run_id));
    }
    assert(diagnostics_view(diagnostics@) =~= (if digests_passed {
        seq![]
    } else {
        seq![digest_failure(run_id@)]
    }) + (if residue_passed {
        seq![]
    } else {
        seq![residue_remains(strs(residues@), run_id@)]
    }));
    let status = if digests_passed && residue_passed {
        VerificationStatus::Passed
    } else {
        VerificationStatus::Failed
    };
    RuntimeVerification { status, digests_passed, residue_passed, diagnostics }
}

/// Why a runtime rollback does not restore the snapshot: without the run's
/// exact approval (checked first), or for a run already rolled back.
pub open spec fn runtime_rollback_refusal(run_id: Seq<char>, approval: Option<Seq<char>>, state: Seq<char>) -> Option<
    Seq<char>,
> {
    if approval != Some(run_id) {
        Some("runtime rollback requires exact approval for "@ + run_id)
    } else if state == "rolled-back"@ {
        Some("runtime run "@ + run_id + " is already rolled back"@)
    } else {
        None
    }
}

pub fn runtime_rollback_gate(run_id: &str, approval: Option<&str>, state: &str) -> (r: Result<(), String>)
    ensures
        match r {
            Ok(()) => runtime_rollback_refusal(run_id@, opt_str(approval), state@) is None,
            Err(e) => runtime_rollback_refusal(run_id@, opt_str(approval), state@) == Some(e@),
        },
{
    let id = chars_of(run_id);
    let approved = match approval {
        Some(a) => chars_eq(&chars_of(a), &id),
        None => false,
    };
    if !approved {
        let mut t = chars_of("runtime rollback requires exact approval for ");
        push_str(&mut t, run_id);
        return Err(string_of(&t));
    }
    if str_eq(&chars_of(state), "rolled-back") {
        let mut t = chars_of("runtime run ");
        push_str(&mut t, run_id);
        push_str(&mut t, " is already rolled back");
        return Err(string_of(&t));
    }
    Ok(())
}

pub open spec fn runtime_rollback_failed(run_id: Seq<char>) -> DiagnosticView {
    runtime_failure(
        "RUNTIME_ROLLBACK_FAILED"@,
        "Restored runtime repository fingerprint does not match the plan baseline."@,
        run_id,
    )
}

/// The state and diagnostics of a runtime run after its snapshot was
/// restored: rolled back with no diagnostics when the repository's runtime
/// fingerprint is the plan's baseline again, otherwise failed with the
/// rollback failure.
pub fn finish_runtime_rollback(run_id: &str, baseline: &str, restored_fingerprint: &str) -> (r: (String, Vec<Diagnostic>))
    ensures
        restored_fingerprint@ == baseline@ ==> r.0@ == "rolled-back"@ && r.1@.len() == 0,
        restored_fingerprint@ != baseline@ ==> r.0@ == "rollback-failed"@ && diagnostics_view(r.1@) == seq![
            runtime_rollback_failed(run_id@),
        ],
{
    if chars_eq(&chars_of(restored_fingerprint), &chars_of(baseline)) {
        ("rolled-back".to_owned(), Vec::new())
    } else {
        let mut ds: Vec<Diagnostic> = Vec::new();
        ds.push(
            runtime_failure_exec(
                "RUNTIME_ROLLBACK_FAILED",
                "Restored runtime repository fingerprint does not match the plan baseline.",
                run_id,
            ),
        );
        assert(diagnostics_view(ds@) =~= seq![runtime_rollback_failed(run_id@)]);
        ("rollback-failed".to_owned(), ds)
    }
}

} // verus!
