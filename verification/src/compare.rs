//! The decisions of a multi-target comparison once each candidate is
//! planned: its identifier, the notices for candidates that cannot run an
//! isolated trial, each candidate's status, and the outcome when the source
//! repository did or did not stay unchanged. The trials themselves run
//! outside.
use vstd::prelude::*;
use crate::digest::{frame, push_frame, short_digest, short_digest_spec};
use crate::model::{
    diagnostics_view, manager_name, Diagnostic, DiagnosticSeverity, DiagnosticView, EvidenceDetail, MigrationPlan,
    PackageManagerId, SCHEMA_VERSION,
};
use crate::plan::no_evidence;
use crate::project_ir::{concat_texts, counted, lemma_concat_step, push_counted_start};
use crate::text::{chars_of, push_str, string_of, texts};

verus! {

/// One candidate's part of the comparison identity: its target and plan.
pub open spec fn candidate_text(p: MigrationPlan) -> Seq<char> {
    frame(manager_name(p.target)) + frame(p.plan_id@)
}

/// The comparison identifier: the schema version and each candidate's
/// target and plan, in order.
pub open spec fn comparison_id_spec(plans: Seq<MigrationPlan>) -> Seq<char> {
    short_digest_spec(
        "plan_compare_"@,
        frame(SCHEMA_VERSION@) + counted(plans.map_values(|p: MigrationPlan| candidate_text(p))),
    )
}

pub fn comparison_id(plans: &Vec<MigrationPlan>) -> (r: String)
    ensures
        r@ == comparison_id_spec(plans@),
{
    let ghost items = plans@.map_values(|p: MigrationPlan| candidate_text(p));
    let mut text: Vec<char> = Vec::new();
    push_frame(&mut text, &chars_of(SCHEMA_VERSION));
    let ghost head = text@;
    push_counted_start(&mut text, plans.len());
    let ghost base = text@;
    let mut i: usize = 0;
    assert(items.take(0) =~= Seq::<Seq<char>>::empty());
    while i < plans.len()
        invariant
            i <= plans.len(),
            items == plans@.map_values(|p: MigrationPlan| candidate_text(p)),
            text@ == base + concat_texts(items.take(i as int)),
        decreases plans.len() - i,
    {
        push_frame(&mut text, &chars_of(plans[i].target.as_str()));
        push_frame(&mut text, &chars_of(plans[i].plan_id.as_str()));
        proof {
            lemma_concat_step(items, i as int);
        }
        assert(text@ =~= base + concat_texts(items.take(i + 1)));
        i = i + 1;
    }
    assert(items.take(plans.len() as int) =~= items);
    assert(text@ =~= frame(SCHEMA_VERSION@) + counted(items));
    short_digest("plan_compare_", &text)
}

/// The evidence of one blocking diagnostic of a candidate.
pub open spec fn blocker_evidence(target: PackageManagerId, d: DiagnosticView) -> (Seq<char>, Seq<char>) {
    (manager_name(target), d.code + ": "@ + d.summary)
}

/// The evidence of the candidate's blocking diagnostics, in order.
pub open spec fn blockers(target: PackageManagerId, ds: Seq<DiagnosticView>) -> Seq<(Seq<char>, Seq<char>)>
    decreases ds.len(),
{
    if ds.len() == 0 {
        seq![]
    } else {
        blockers(target, ds.drop_last()) + if ds.last().blocking {
            seq![blocker_evidence(target, ds.last())]
        } else {
            seq![]
        }
    }
}

/// The notice of a candidate kept in the comparison that cannot run its
/// isolated trial.
pub open spec fn blocked_notice(p: MigrationPlan) -> DiagnosticView {
    DiagnosticView {
        code: "COMPARISON_CANDIDATE_BLOCKED"@,
        severity: DiagnosticSeverity::Warning,
        summary: manager_name(p.target) + " is retained for comparison but cannot execute its isolated trial."@,
        blocking: false,
        evidence: blockers(p.target, diagnostics_view(p.diagnostics@)),
        remediation: seq!["Review the candidate plan diagnostics; other executable targets may still run."@],
    }
}

/// One notice for each candidate whose plan is not executable, in order.
pub open spec fn blocked_notices(plans: Seq<MigrationPlan>) -> Seq<DiagnosticView>
    decreases plans.len(),
{
    if plans.len() == 0 {
        seq![]
    } else {
        blocked_notices(plans.drop_last()) + if !plans.last().executable {
            seq![blocked_notice(plans.last())]
        } else {
            seq![]
        }
    }
}

fn notice_of(p: &MigrationPlan) -> (d: Diagnostic)
    ensures
        d@ == blocked_notice(*p),
{
    let ghost dv = diagnostics_view(p.diagnostics@);
    let mut evidence: Vec<EvidenceDetail> = Vec::new();
    let mut i: usize = 0;
    while i < p.diagnostics.len()
        invariant
            i <= p.diagnostics.len(),
            dv == diagnostics_view(p.diagnostics@),
            evidence@.map_values(|e: EvidenceDetail| e@) == blockers(p.target, dv.take(i as int)),
        decreases p.diagnostics.len() - i,
    {
        assert(dv.take(i + 1).drop_last() =~= dv.take(i as int));
        let d = &p.diagnostics[i];
        assert(dv[i as int] == d@);
        let ghost before = evidence@.map_values(|e: EvidenceDetail| e@);
        if d.blocking {
            let mut detail = chars_of(d.code.as_str());
            push_str(&mut detail, ": ");
            push_str(&mut detail, d.summary.as_str());
            evidence.push(EvidenceDetail { location: p.target.as_str().to_owned(), detail: string_of(&detail) });
            assert(evidence@.map_values(|e: EvidenceDetail| e@) =~= before.push(blocker_evidence(p.target, d@)));
        } else {
            assert(evidence@.map_values(|e: EvidenceDetail| e@) =~= before);
        }
        i = i + 1;
    }
    assert(dv.take(p.diagnostics.len() as int) =~= dv);
    let mut summary = chars_of(p.target.as_str());
    push_str(&mut summary, " is retained for comparison but cannot execute its isolated trial.");
    let mut rems: Vec<String> = Vec::new();
    rems.push("Review the candidate plan diagnostics; other executable targets may still run.".to_owned());
    let d = Diagnostic {
        code: "COMPARISON_CANDIDATE_BLOCKED".to_owned(),
        severity: DiagnosticSeverity::Warning,
        summary: string_of(&summary),
        blocking: false,
        evidence,
        remediation: rems,
    };
    assert(d@.remediation =~= blocked_notice(*p).remediation);
    d
}

/// The notices of the candidates that cannot run their trial.
pub fn blocked_candidate_notices(plans: &Vec<MigrationPlan>) -> (r: Vec<Diagnostic>)
    ensures
        diagnostics_view(r@) == blocked_notices(plans@),
{
    let mut r: Vec<Diagnostic> = Vec::new();
    let mut i: usize = 0;
    while i < plans.len()
        invariant
            i <= plans.len(),
            diagnostics_view(r@) == blocked_notices(plans@.take(i as int)),
        decreases plans.len() - i,
    {
        assert(plans@.take(i + 1).drop_last() =~= plans@.take(i as int));
        assert(plans@.take(i + 1).last() == plans@[i as int]);
        let ghost before = diagnostics_view(r@);
        if !plans[i].executable {
            let d = notice_of(&plans[i]);
            r.push(d);
            assert(diagnostics_view(r@) =~= before.push(d@));
        } else {
            assert(diagnostics_view(r@) =~= before);
        }
        assert(blocked_notices(plans@.take(i + 1)) =~= diagnostics_view(r@));
        i = i + 1;
    }
    assert(plans@.take(plans.len() as int) =~= plans@);
    r
}

/// How a candidate of a comparison ended.
#[derive(Debug, Clone, Copy, PartialEq, Eq, Structural)]
pub enum CandidateStatus {
    Passed,
    Failed,
    Blocked,
}

/// A candidate whose plan cannot run is blocked; otherwise its trial
/// decides.
pub fn candidate_status(executable: bool, trial_passed: bool) -> (r: CandidateStatus)
    ensures
        r == if !executable {
            CandidateStatus::Blocked
        } else if trial_passed {
            CandidateStatus::Passed
        } else {
            CandidateStatus::Failed
        },
{
    if !executable {
        CandidateStatus::Blocked
    } else if trial_passed {
        CandidateStatus::Passed
    } else {
        CandidateStatus::Failed
    }
}

pub open spec fn repository_changed() -> DiagnosticView {
    DiagnosticView {
        code: "COMPARISON_REPOSITORY_CHANGED"@,
        severity: DiagnosticSeverity::Error,
        summary: "The source repository changed while isolated target comparisons were running."@,
        blocking: true,
        evidence: no_evidence(),
        remediation: seq!["Inspect concurrent repository activity before comparing again."@],
    }
}

/// The exit status and diagnostics of a comparison: 0 and none when the
/// source repository's fingerprint is still the baseline, otherwise 5 and
/// the change.
pub fn comparison_outcome(baseline: &str, current_fingerprint: &str) -> (r: (i32, Vec<Diagnostic>))
    ensures
        current_fingerprint@ == baseline@ ==> r.0 == 0 && r.1@.len() == 0,
        current_fingerprint@ != baseline@ ==> r.0 == 5 && diagnostics_view(r.1@) == seq![repository_changed()],
{
    if crate::text::chars_eq(&chars_of(current_fingerprint), &chars_of(baseline)) {
        (0, Vec::new())
    } else {
        let mut rems: Vec<String> = Vec::new();
        rems.push("Inspect concurrent repository activity before comparing again.".to_owned());
        let d = Diagnostic::blocking(
            "COMPARISON_REPOSITORY_CHANGED",
            "The source repository changed while isolated target comparisons were running.",
            rems,
        );
        assert(d@.evidence =~= no_evidence());
        assert(d@.remediation =~= repository_changed().remediation);
        let mut ds: Vec<Diagnostic> = Vec::new();
        ds.push(d);
        assert(diagnostics_view(ds@) =~= seq![repository_changed()]);
        (5, ds)
    }
}

} // verus!
