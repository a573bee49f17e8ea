//! The verification of an applied migration run: each check and its
//! evidence, the overall status, and the report's identifier.
use vstd::prelude::*;
use crate::catalog::{get_package_manager, lockfiles_spec};
use crate::digest::{decimal, decimal_exec, frame, frame_list, short_digest, short_digest_spec};
use crate::lock_graph::lockfile::opt_text;
use crate::model::{
    diagnostics_view, manager_name, Diagnostic, DiagnosticSeverity, DiagnosticView, MigrationPlan,
    PackageManagerCandidate, PackageManagerId, VerificationCheck, VerificationReport, VerificationStatus,
    SCHEMA_VERSION,
};
use crate::plan::{
    diagnostic_text, mutation_view, mutations_view, no_evidence, operations_view, push_diagnostics_counted,
    push_name, push_text, push_texts, MutationView, OperationView,
};
use crate::project_ir::{concat_texts, counted, lemma_concat_step, push_counted_start};
use crate::text::{chars_eq, chars_of, join, join_exec, push_chars, push_str, string_of, strs, texts};

verus! {

/// The mathematical content of a verification check.
pub struct CheckView {
    pub id: Seq<char>,
    pub status: VerificationStatus,
    pub summary: Seq<char>,
    pub evidence: Seq<Seq<char>>,
}

pub open spec fn check_view(c: VerificationCheck) -> CheckView {
    CheckView { id: c.id@, status: c.status, summary: c.summary@, evidence: strs(c.evidence@) }
}

pub open spec fn checks_view(s: Seq<VerificationCheck>) -> Seq<CheckView> {
    s.map_values(|c: VerificationCheck| check_view(c))
}

pub open spec fn pass_fail(ok: bool) -> VerificationStatus {
    if ok {
        VerificationStatus::Passed
    } else {
        VerificationStatus::Failed
    }
}

/// All planned mutations, operation by operation.
pub open spec fn all_mutations(ops: Seq<OperationView>) -> Seq<MutationView>
    decreases ops.len(),
{
    if ops.len() == 0 {
        seq![]
    } else {
        all_mutations(ops.drop_last()) + ops.last().mutations
    }
}

/// The recorded digest of a path (the first entry for it), if any.
pub open spec fn digest_of(digests: Seq<(Seq<char>, Option<Seq<char>>)>, path: Seq<char>) -> Option<Seq<char>>
    decreases digests.len(),
{
    if digests.len() == 0 {
        None
    } else if digests[0].0 == path {
        digests[0].1
    } else {
        digest_of(digests.drop_first(), path)
    }
}

/// The paths of the mutations whose file does not have the planned digest.
pub open spec fn mismatched(ms: Seq<MutationView>, digests: Seq<(Seq<char>, Option<Seq<char>>)>) -> Seq<Seq<char>>
    decreases ms.len(),
{
    if ms.len() == 0 {
        seq![]
    } else {
        mismatched(ms.drop_last(), digests) + if digest_of(digests, ms.last().path) != ms.last().after_digest {
            seq![ms.last().path]
        } else {
            seq![]
        }
    }
}

pub open spec fn digest_check(mismatches: Seq<Seq<char>>) -> CheckView {
    CheckView {
        id: "planned-file-digests"@,
        status: pass_fail(mismatches.len() == 0),
        summary: if mismatches.len() == 0 {
            "Every planned file mutation matches its post-apply digest."@
        } else {
            decimal(mismatches.len()) + " planned file mutations do not match."@
        },
        evidence: mismatches,
    }
}

pub open spec fn candidate_text(c: PackageManagerCandidate) -> Seq<char> {
    manager_name(c.manager) + ":"@ + decimal(c.score as nat)
}

pub open spec fn selection_check(
    target: PackageManagerId,
    selected: Option<PackageManagerId>,
    candidates: Seq<PackageManagerCandidate>,
) -> CheckView {
    CheckView {
        id: "target-selection"@,
        status: pass_fail(selected == Some(target)),
        summary: if selected == Some(target) {
            manager_name(target) + " is the selected package manager."@
        } else {
            "Expected "@ + manager_name(target) + ", detected "@ + match selected {
                Some(m) => manager_name(m),
                None => "none"@,
            } + "."@
        },
        evidence: candidates.map_values(|c: PackageManagerCandidate| candidate_text(c)),
    }
}

/// The paths among `paths` that are present, in order.
pub open spec fn keep_present(paths: Seq<Seq<char>>, present: Seq<Seq<char>>) -> Seq<Seq<char>>
    decreases paths.len(),
{
    if paths.len() == 0 {
        seq![]
    } else {
        keep_present(paths.drop_last(), present) + if present.contains(paths.last()) {
            seq![paths.last()]
        } else {
            seq![]
        }
    }
}

/// The target's lockfiles that exist, in catalog order.
pub open spec fn existing_lockfiles(target: PackageManagerId, present: Seq<Seq<char>>) -> Seq<Seq<char>> {
    keep_present(lockfiles_spec(target), present)
}

pub open spec fn lockfile_check(target: PackageManagerId, locks: Seq<Seq<char>>) -> CheckView {
    CheckView {
        id: "target-lockfile"@,
        status: pass_fail(locks.len() > 0),
        summary: if locks.len() == 0 {
            "No "@ + manager_name(target) + " lockfile was generated."@
        } else {
            "Target dependency state exists: "@ + join(locks, ", "@) + "."@
        },
        evidence: locks,
    }
}

pub open spec fn membership_check(expected: Seq<Seq<char>>, current: Seq<Seq<char>>) -> CheckView {
    CheckView {
        id: "workspace-membership"@,
        status: pass_fail(current == expected),
        summary: if current == expected {
            "Workspace package membership is preserved."@
        } else {
            "Workspace package membership changed."@
        },
        evidence: seq!["expected:"@ + join(expected, ","@), "actual:"@ + join(current, ","@)],
    }
}

pub open spec fn install_check(succeeded: bool) -> CheckView {
    CheckView {
        id: "target-install"@,
        status: pass_fail(succeeded),
        summary: if succeeded {
            "The target installation operation completed successfully."@
        } else {
            "The target installation operation is not successful."@
        },
        evidence: seq![if succeeded {
            "success:true"@
        } else {
            "success:false"@
        }],
    }
}

pub open spec fn drift_check() -> CheckView {
    CheckView {
        id: "dependency-graph-drift"@,
        status: VerificationStatus::Skipped,
        summary: "Resolved graph drift is not compared in the Rust MVP."@,
        evidence: seq!["This limitation is reported explicitly."@],
    }
}

/// The number of failed checks.
pub open spec fn failed_count(cs: Seq<CheckView>) -> nat
    decreases cs.len(),
{
    if cs.len() == 0 {
        0
    } else {
        failed_count(cs.drop_last()) + if cs.last().status == VerificationStatus::Failed {
            1nat
        } else {
            0nat
        }
    }
}

pub open spec fn failure_diagnostics(failed: nat) -> Seq<DiagnosticView> {
    if failed == 0 {
        seq![]
    } else {
        seq![
            DiagnosticView {
                code: "VERIFICATION_FAILED"@,
                severity: DiagnosticSeverity::Error,
                summary: decimal(failed) + " blocking verification checks failed."@,
                blocking: true,
                evidence: no_evidence(),
                remediation: seq!["Repair the repository or roll back the run."@],
            },
        ]
    }
}

pub open spec fn status_name(s: VerificationStatus) -> Seq<char> {
    match s {
        VerificationStatus::Passed => "passed"@,
        VerificationStatus::Failed => "failed"@,
        VerificationStatus::Skipped => "skipped"@,
    }
}

pub open spec fn check_text(c: CheckView) -> Seq<char> {
    frame(c.id) + frame(status_name(c.status)) + frame(c.summary) + frame_list(c.evidence)
}

/// The text a verification report's identifier digests.
pub open spec fn report_identity(
    run_id: Seq<char>,
    plan_id: Seq<char>,
    status: VerificationStatus,
    checks: Seq<CheckView>,
    diagnostics: Seq<DiagnosticView>,
) -> Seq<char> {
    frame(run_id) + frame(plan_id) + frame(status_name(status)) + counted(
        checks.map_values(|c: CheckView| check_text(c)),
    ) + counted(diagnostics.map_values(|d: DiagnosticView| diagnostic_text(d)))
}

/// The mathematical content of a verification report.
pub struct ReportView {
    pub schema_version: Seq<char>,
    pub report_id: Seq<char>,
    pub run_id: Seq<char>,
    pub plan_id: Seq<char>,
    pub status: VerificationStatus,
    pub checks: Seq<CheckView>,
    pub diagnostics: Seq<DiagnosticView>,
    pub has_comparison: bool,
}

pub open spec fn report_view(r: VerificationReport) -> ReportView {
    ReportView {
        schema_version: r.schema_version@,
        report_id: r.report_id@,
        run_id: r.run_id@,
        plan_id: r.plan_id@,
        status: r.status,
        checks: checks_view(r.checks@),
        diagnostics: diagnostics_view(r.diagnostics@),
        has_comparison: r.lock_graph_comparison is Some,
    }
}

pub open spec fn digests_view(d: Seq<(String, Option<String>)>) -> Seq<(Seq<char>, Option<Seq<char>>)> {
    d.map_values(|e: (String, Option<String>)| (e.0@, opt_text(e.1)))
}

/// The verification of a run of `plan`, given the digest of each file now
/// (path and digest, none where the file is missing), the package manager
/// the repository now selects with its candidates, the files present, the
/// packages now found and those expected, and whether the install
/// succeeded: six checks (file digests, target selection, target lockfile,
/// workspace membership, install, and the graph drift this check leaves
/// out), failed when any check fails.
pub open spec fn verification_spec(
    plan: MigrationPlan,
    run_id: Seq<char>,
    digests: Seq<(Seq<char>, Option<Seq<char>>)>,
    selected: Option<PackageManagerId>,
    candidates: Seq<PackageManagerCandidate>,
    present: Seq<Seq<char>>,
    current_packages: Seq<Seq<char>>,
    expected_packages: Seq<Seq<char>>,
    install_succeeded: bool,
) -> ReportView {
    let checks = seq![
        digest_check(mismatched(all_mutations(operations_view(plan.operations@)), digests)),
        selection_check(plan.target, selected, candidates),
        lockfile_check(plan.target, existing_lockfiles(plan.target, present)),
        membership_check(expected_packages, current_packages),
        install_check(install_succeeded),
        drift_check(),
    ];
    let failed = failed_count(checks);
    let status = pass_fail(failed == 0);
    let diagnostics = failure_diagnostics(failed);
    ReportView {
        schema_version: SCHEMA_VERSION@,
        report_id: short_digest_spec(
            "verification_"@,
            report_identity(run_id, plan.plan_id@, status, checks, diagnostics),
        ),
        run_id,
        plan_id: plan.plan_id@,
        status,
        checks,
        diagnostics,
        has_comparison: false,
    }
}

fn find_digest(digests: &[(String, Option<String>)], path: &[char]) -> (r: Option<String>)
    ensures
        opt_text(r) == digest_of(digests_view(digests@), path@),
{
    let ghost dv = digests_view(digests@);
    assert(dv.skip(0) =~= dv);
    let mut i: usize = 0;
    while i < digests.len()
        invariant
            i <= digests.len(),
            dv == digests_view(digests@),
            digest_of(dv, path@) == digest_of(dv.skip(i as int), path@),
        decreases digests.len() - i,
    {
        assert(dv.skip(i as int)[0] == dv[i as int]);
        assert(dv.skip(i as int).drop_first() =~= dv.skip(i + 1));
        let c = chars_of(digests[i].0.as_str());
        if chars_eq(&c, path) {
            return match &digests[i].1 {
                Some(d) => Some(d.as_str().to_owned()),
                None => None,
            };
        }
        i = i + 1;
    }
    None
}

fn opt_eq(a: &Option<String>, b: &Option<String>) -> (r: bool)
    ensures
        r == (opt_text(*a) == opt_text(*b)),
{
    match (a, b) {
        (None, None) => true,
        (Some(x), Some(y)) => {
            let xc = chars_of(x.as_str());
            let yc = chars_of(y.as_str());
            chars_eq(&xc, &yc)
        },
        _ => false,
    }
}

proof fn lemma_mismatched_push(ms: Seq<MutationView>, m: MutationView, digests: Seq<(Seq<char>, Option<Seq<char>>)>)
    ensures
        mismatched(ms.push(m), digests) == mismatched(ms, digests) + if digest_of(digests, m.path) != m.after_digest {
            seq![m.path]
        } else {
            seq![]
        },
{
    assert(ms.push(m).drop_last() =~= ms);
}

/// The paths of the planned mutations whose file does not have the planned
/// digest now.
fn mismatched_paths(plan: &MigrationPlan, digests: &[(String, Option<String>)]) -> (r: Vec<String>)
    ensures
        strs(r@) == mismatched(all_mutations(operations_view(plan.operations@)), digests_view(digests@)),
{
    let ghost ov = operations_view(plan.operations@);
    let ghost dv = digests_view(digests@);
    let mut out: Vec<String> = Vec::new();
    let mut i: usize = 0;
    assert(ov.take(0) =~= Seq::<OperationView>::empty());
    assert(strs(out@) =~= Seq::<Seq<char>>::empty());
    while i < plan.operations.len()
        invariant
            i <= plan.operations.len(),
            ov == operations_view(plan.operations@),
            dv == digests_view(digests@),
            strs(out@) == mismatched(all_mutations(ov.take(i as int)), dv),
        decreases plan.operations.len() - i,
    {
        let ms = &plan.operations[i].mutations;
        let ghost mv = mutations_view(ms@);
        let ghost base = all_mutations(ov.take(i as int));
        assert(ov.take(i + 1).drop_last() =~= ov.take(i as int));
        assert(ov.take(i + 1).last().mutations == mv);
        assert(base + mv.take(0) =~= base);
        let mut k: usize = 0;
        while k < ms.len()
            invariant
                k <= ms.len(),
                mv == mutations_view(ms@),
                dv == digests_view(digests@),
                strs(out@) == mismatched(base + mv.take(k as int), dv),
            decreases ms.len() - k,
        {
            let m = &ms[k];
            let p = chars_of(m.path.as_str());
            let current = find_digest(digests, &p);
            proof {
                assert(base + mv.take(k + 1) =~= (base + mv.take(k as int)).push(mv[k as int]));
                lemma_mismatched_push(base + mv.take(k as int), mv[k as int], dv);
                assert(mv[k as int] == mutation_view(*m));
            }
            let ghost before = out@;
            if !opt_eq(&current, &m.after_digest) {
                let s = m.path.as_str().to_owned();
                out.push(s);
                assert(strs(out@) =~= strs(before).push(s@));
            }
            assert(strs(out@) =~= mismatched(base + mv.take(k + 1), dv));
            k = k + 1;
        }
        assert(mv.take(ms.len() as int) =~= mv);
        i = i + 1;
    }
    assert(ov.take(plan.operations.len() as int) =~= ov);
    out
}

fn strings_from(v: &Vec<Vec<char>>) -> (r: Vec<String>)
    ensures
        strs(r@) == texts(v@),
{
    crate::text::strings_of(v)
}

fn check_of(id: &str, status: VerificationStatus, summary: Vec<char>, evidence: Vec<String>) -> (r: VerificationCheck)
    ensures
        check_view(r) == (CheckView { id: id@, status, summary: summary@, evidence: strs(evidence@) }),
{
    VerificationCheck { id: id.to_owned(), status, summary: string_of(&summary), evidence }
}

fn status_of(ok: bool) -> (r: VerificationStatus)
    ensures
        r == pass_fail(ok),
{
    if ok {
        VerificationStatus::Passed
    } else {
        VerificationStatus::Failed
    }
}

fn digest_check_exec(mismatches: Vec<String>) -> (r: VerificationCheck)
    ensures
        check_view(r) == digest_check(strs(mismatches@)),
{
    let ok = mismatches.len() == 0;
    let summary = if ok {
        chars_of("Every planned file mutation matches its post-apply digest.")
    } else {
        let mut t = decimal_exec(mismatches.len());
        push_str(&mut t, " planned file mutations do not match.");
        t
    };
    check_of("planned-file-digests", status_of(ok), summary, mismatches)
}

fn selection_check_exec(
    target: PackageManagerId,
    selected: Option<PackageManagerId>,
    candidates: &Vec<PackageManagerCandidate>,
) -> (r: VerificationCheck)
    ensures
        check_view(r) == selection_check(target, selected, candidates@),
{
    let ok = selected == Some(target);
    let summary = if ok {
        let mut t = chars_of(target.as_str());
        push_str(&mut t, " is the selected package manager.");
        t
    } else {
        let mut t = chars_of("Expected ");
        push_str(&mut t, target.as_str());
        push_str(&mut t, ", detected ");
        match selected {
            Some(m) => push_str(&mut t, m.as_str()),
            None => push_str(&mut t, "none"),
        }
        push_str(&mut t, ".");
        t
    };
    let mut evidence: Vec<String> = Vec::new();
    let mut i: usize = 0;
    while i < candidates.len()
        invariant
            i <= candidates.len(),
            strs(evidence@) == candidates@.take(i as int).map_values(|c: PackageManagerCandidate| candidate_text(c)),
        decreases candidates.len() - i,
    {
        let mut t = chars_of(candidates[i].manager.as_str());
        push_str(&mut t, ":");
        let d = crate::digest::decimal_u64(candidates[i].score as u64);
        push_chars(&mut t, &d);
        let s = string_of(&t);
        let ghost before = evidence@;
        evidence.push(s);
        assert(strs(evidence@) =~= strs(before).push(s@));
        assert(candidates@.take(i + 1).map_values(|c: PackageManagerCandidate| candidate_text(c)) =~= candidates@.take(
            i as int,
        ).map_values(|c: PackageManagerCandidate| candidate_text(c)).push(candidate_text(candidates@[i as int])));
        i = i + 1;
    }
    assert(candidates@.take(candidates.len() as int) =~= candidates@);
    check_of("target-selection", status_of(ok), summary, evidence)
}

fn is_present(present: &Vec<String>, p: &str) -> (r: bool)
    ensures
        r == strs(present@).contains(p@),
{
    let pc = chars_of(p);
    let mut i: usize = 0;
    while i < present.len()
        invariant
            i <= present.len(),
            pc@ == p@,
            forall|j: int| 0 <= j < i ==> strs(present@)[j] != p@,
        decreases present.len() - i,
    {
        let c = chars_of(present[i].as_str());
        assert(strs(present@)[i as int] == present@[i as int]@);
        if chars_eq(&c, &pc) {
            assert(strs(present@)[i as int] == p@);
            return true;
        }
        i = i + 1;
    }
    false
}

fn lockfile_check_exec(target: PackageManagerId, present: &Vec<String>) -> (r: VerificationCheck)
    ensures
        check_view(r) == lockfile_check(target, existing_lockfiles(target, strs(present@))),
{
    let d = get_package_manager(target);
    let ghost lf = crate::catalog::statics(d.lockfiles@);
    let ghost pv = strs(present@);
    let mut locks: Vec<Vec<char>> = Vec::new();
    let mut i: usize = 0;
    assert(lf.take(0) =~= Seq::<Seq<char>>::empty());
    assert(texts(locks@) =~= Seq::<Seq<char>>::empty());
    while i < d.lockfiles.len()
        invariant
            i <= d.lockfiles.len(),
            lf == crate::catalog::statics(d.lockfiles@),
            pv == strs(present@),
            texts(locks@) == keep_present(lf.take(i as int), pv),
        decreases d.lockfiles.len() - i,
    {
        assert(lf.take(i + 1).drop_last() =~= lf.take(i as int));
        assert(lf.take(i + 1).last() == d.lockfiles@[i as int]@);
        let ghost before = texts(locks@);
        if is_present(present, d.lockfiles[i]) {
            let c = chars_of(d.lockfiles[i]);
            let ghost lb = locks@;
            locks.push(c);
            assert(texts(locks@) =~= texts(lb).push(c@));
        }
        assert(texts(locks@) =~= keep_present(lf.take(i + 1), pv));
        i = i + 1;
    }
    assert(lf.take(d.lockfiles.len() as int) =~= lf);
    let ok = locks.len() > 0;
    let summary = if !ok {
        let mut t = chars_of("No ");
        push_str(&mut t, target.as_str());
        push_str(&mut t, " lockfile was generated.");
        t
    } else {
        let mut t = chars_of("Target dependency state exists: ");
        let j = join_exec(&locks, ", ");
        push_chars(&mut t, &j);
        push_str(&mut t, ".");
        t
    };
    check_of("target-lockfile", status_of(ok), summary, strings_from(&locks))
}

fn same_texts(a: &Vec<String>, b: &Vec<String>) -> (r: bool)
    ensures
        r == (strs(a@) == strs(b@)),
{
    if a.len() != b.len() {
        assert(strs(a@).len() != strs(b@).len());
        return false;
    }
    let mut i: usize = 0;
    while i < a.len()
        invariant
            i <= a.len() == b.len(),
            forall|j: int| 0 <= j < i ==> strs(a@)[j] == strs(b@)[j],
        decreases a.len() - i,
    {
        let x = chars_of(a[i].as_str());
        let y = chars_of(b[i].as_str());
        if !chars_eq(&x, &y) {
            assert(strs(a@)[i as int] != strs(b@)[i as int]);
            return false;
        }
        i = i + 1;
    }
    assert(strs(a@) =~= strs(b@));
    true
}

fn membership_check_exec(expected: &Vec<String>, current: &Vec<String>) -> (r: VerificationCheck)
    ensures
        check_view(r) == membership_check(strs(expected@), strs(current@)),
{
    let ok = same_texts(current, expected);
    let summary = if ok {
        chars_of("Workspace package membership is preserved.")
    } else {
        chars_of("Workspace package membership changed.")
    };
    let ec = crate::lock_graph::graph::strings_chars(expected);
    let cc = crate::lock_graph::graph::strings_chars(current);
    let mut e1 = chars_of("expected:");
    let j1 = join_exec(&ec, ",");
    push_chars(&mut e1, &j1);
    let mut e2 = chars_of("actual:");
    let j2 = join_exec(&cc, ",");
    push_chars(&mut e2, &j2);
    let mut evidence: Vec<String> = Vec::new();
    evidence.push(string_of(&e1));
    evidence.push(string_of(&e2));
    let r = check_of("workspace-membership", status_of(ok), summary, evidence);
    assert(check_view(r).evidence =~= membership_check(strs(expected@), strs(current@)).evidence);
    r
}

fn install_check_exec(succeeded: bool) -> (r: VerificationCheck)
    ensures
        check_view(r) == install_check(succeeded),
{
    let summary = if succeeded {
        chars_of("The target installation operation completed successfully.")
    } else {
        chars_of("The target installation operation is not successful.")
    };
    let mut evidence: Vec<String> = Vec::new();
    if succeeded {
        evidence.push("success:true".to_owned());
    } else {
        evidence.push("success:false".to_owned());
    }
    let r = check_of("target-install", status_of(succeeded), summary, evidence);
    assert(check_view(r).evidence =~= install_check(succeeded).evidence);
    r
}

fn drift_check_exec() -> (r: VerificationCheck)
    ensures
        check_view(r) == drift_check(),
{
    let mut evidence: Vec<String> = Vec::new();
    evidence.push("This limitation is reported explicitly.".to_owned());
    let r = check_of(
        "dependency-graph-drift",
        VerificationStatus::Skipped,
        chars_of("Resolved graph drift is not compared in the Rust MVP."),
        evidence,
    );
    assert(check_view(r).evidence =~= drift_check().evidence);
    r
}

fn push_check(out: &mut Vec<VerificationCheck>, c: VerificationCheck)
    ensures
        checks_view(final(out)@) == checks_view(old(out)@).push(check_view(c)),
{
    let ghost before = out@;
    out.push(c);
    assert(checks_view(out@) =~= checks_view(before).push(check_view(c)));
}

fn count_failed(checks: &Vec<VerificationCheck>) -> (r: usize)
    ensures
        r == failed_count(checks_view(checks@)),
{
    let ghost cv = checks_view(checks@);
    let mut n: usize = 0;
    let mut i: usize = 0;
    while i < checks.len()
        invariant
            i <= checks.len(),
            cv == checks_view(checks@),
            n == failed_count(cv.take(i as int)),
            n <= i,
        decreases checks.len() - i,
    {
        assert(cv.take(i + 1).drop_last() =~= cv.take(i as int));
        assert(cv.take(i + 1).last() == check_view(checks@[i as int]));
        match checks[i].status {
            VerificationStatus::Failed => {
                n = n + 1;
            },
            _ => {},
        }
        i = i + 1;
    }
    assert(cv.take(checks.len() as int) =~= cv);
    n
}

fn push_check_text(out: &mut Vec<char>, c: &VerificationCheck)
    ensures
        final(out)@ == old(out)@ + check_text(check_view(*c)),
{
    let ghost o = out@;
    push_text(out, &c.id);
    match c.status {
        VerificationStatus::Passed => push_name(out, "passed"),
        VerificationStatus::Failed => push_name(out, "failed"),
        VerificationStatus::Skipped => push_name(out, "skipped"),
    }
    push_text(out, &c.summary);
    push_texts(out, &c.evidence);
    assert(out@ =~= o + check_text(check_view(*c)));
}

fn push_checks_counted(out: &mut Vec<char>, cs: &Vec<VerificationCheck>)
    ensures
        final(out)@ == old(out)@ + counted(checks_view(cs@).map_values(|c: CheckView| check_text(c))),
{
    let ghost o = out@;
    let ghost items = checks_view(cs@).map_values(|c: CheckView| check_text(c));
    push_counted_start(out, cs.len());
    let ghost base = out@;
    let mut i: usize = 0;
    while i < cs.len()
        invariant
            i <= cs.len(),
            items == checks_view(cs@).map_values(|c: CheckView| check_text(c)),
            out@ == base + concat_texts(items.take(i as int)),
        decreases cs.len() - i,
    {
        push_check_text(out, &cs[i]);
        proof {
            lemma_concat_step(items, i as int);
        }
        assert(out@ =~= base + concat_texts(items.take(i + 1)));
        i = i + 1;
    }
    assert(items.take(cs.len() as int) =~= items);
    assert(out@ =~= o + counted(items));
}

/// The verification report of a run (see `verification_spec`): the facts
/// about the repository after the run are taken as gathered.
pub fn verify_plan(
    plan: &MigrationPlan,
    run_id: &str,
    digests: &[(String, Option<String>)],
    selected: Option<PackageManagerId>,
    candidates: &Vec<PackageManagerCandidate>,
    present: &Vec<String>,
    current_packages: &Vec<String>,
    expected_packages: &Vec<String>,
    install_succeeded: bool,
) -> (r: VerificationReport)
    ensures
        report_view(r) == verification_spec(
            *plan,
            run_id@,
            digests_view(digests@),
            selected,
            candidates@,
            strs(present@),
            strs(current_packages@),
            strs(expected_packages@),
            install_succeeded,
        ),
{
    let mut checks: Vec<VerificationCheck> = Vec::new();
    assert(checks_view(checks@) =~= Seq::<CheckView>::empty());
    let mismatches = mismatched_paths(plan, digests);
    push_check(&mut checks, digest_check_exec(mismatches));
    push_check(&mut checks, selection_check_exec(plan.target, selected, candidates));
    push_check(&mut checks, lockfile_check_exec(plan.target, present));
    push_check(&mut checks, membership_check_exec(expected_packages, current_packages));
    push_check(&mut checks, install_check_exec(install_succeeded));
    push_check(&mut checks, drift_check_exec());
    let ghost cv = checks_view(checks@);
    assert(cv =~= seq![
        digest_check(mismatched(all_mutations(operations_view(plan.operations@)), digests_view(digests@))),
        selection_check(plan.target, selected, candidates@),
        lockfile_check(plan.target, existing_lockfiles(plan.target, strs(present@))),
        membership_check(strs(expected_packages@), strs(current_packages@)),
        install_check(install_succeeded),
        drift_check(),
    ]);
    let failed = count_failed(&checks);
    let mut diagnostics: Vec<Diagnostic> = Vec::new();
    if failed > 0 {
        let mut t = decimal_exec(failed);
        push_str(&mut t, " blocking verification checks failed.");
        let mut rem: Vec<String> = Vec::new();
        rem.push("Repair the repository or roll back the run.".to_owned());
        let d = Diagnostic {
            code: "VERIFICATION_FAILED".to_owned(),
            severity: DiagnosticSeverity::Error,
            summary: string_of(&t),
            blocking: true,
            evidence: Vec::new(),
            remediation: rem,
        };
        diagnostics.push(d);
        assert(d@.evidence =~= no_evidence());
        assert(d@.remediation =~= seq!["Repair the repository or roll back the run."@]);
    }
    assert(diagnostics_view(diagnostics@) =~= failure_diagnostics(failed as nat));
    let status = status_of(failed == 0);
    let mut text: Vec<char> = Vec::new();
    push_text(&mut text, &run_id.to_owned());
    push_text(&mut text, &plan.plan_id);
    match status {
        VerificationStatus::Passed => push_name(&mut text, "passed"),
        VerificationStatus::Failed => push_name(&mut text, "failed"),
        VerificationStatus::Skipped => push_name(&mut text, "skipped"),
    }
    push_checks_counted(&mut text, &checks);
    push_diagnostics_counted(&mut text, &diagnostics);
    assert(text@ =~= report_identity(run_id@, plan.plan_id@, status, cv, diagnostics_view(diagnostics@)));
    let report_id = short_digest("verification_", &text);
    VerificationReport {
        schema_version: SCHEMA_VERSION.to_owned(),
        report_id,
        run_id: run_id.to_owned(),
        plan_id: plan.plan_id.as_str().to_owned(),
        status,
        checks,
        diagnostics,
        lock_graph_comparison: None,
    }
}

} // verus!
