//! Readiness of a repository for a migration: the verdict, what the
//! migration would touch, and the integrations that mention package managers.
use vstd::prelude::*;
use crate::capability::{analysis_of, analyze_capabilities};
use crate::catalog::{catalog_tier, get_package_manager};
use crate::digest::{decimal, frame, frame_list, short_digest, short_digest_spec};
use crate::lock_graph::graph::opt_frame;
use crate::lock_graph::lockfile::opt_text;
use crate::plan::{
    deref_graph, diagnostic_text, flag, plan_package_manager_migration, plan_spec, plan_view,
    policy_text, push_count, push_diagnostics_counted, push_flag, push_name, push_policy_text,
    push_summary_text, push_text, push_texts, summary_text, tier_name, PlanView, ProjectTransformation,
};
use crate::policy::{policy_view, EdgeEquivalencePolicy, VerificationPolicy};
use crate::project_ir::{counted, push_counted_start, concat_texts, lemma_concat_step};
use crate::model::{
    manager_name, CapabilityAnalysis, CapabilitySummary, LockGraph, ProjectInspection, SupportTier,
    diagnostics_view, Diagnostic, DiagnosticSeverity, DiagnosticView, IntegrationInspection, IntegrationKind, MigrationPlan,
    MutationAction, PackageManagerId, PlannedOperation, ProjectIr, SCHEMA_VERSION,
};
use crate::sorted::{
    insert_sorted, insert_sorted_list, list_texts, lists_listed, lists_sorted, sorted_list_set,
    sorted_list_strings, sorted_set, sorted_strings,
};
use crate::plan::{operation_view, operations_view, mutation_view, mutations_view, MutationView, OperationView};
use crate::text::{chars_of, chars_eq, chars_lt, seq_lt, str_eq, strictly_sorted, strs, texts};

verus! {

/// How ready a repository is for a migration to one target.
#[derive(Debug, Clone, Copy, PartialEq, Eq, Structural)]
pub enum ReadinessVerdict {
    Ready,
    ReviewRequired,
    Blocked,
    AlreadySelected,
}

/// The files of each integration kind that mention a package manager.
#[derive(Debug, Clone, PartialEq, Eq)]
pub struct IntegrationImpact {
    pub ci: Vec<String>,
    pub containers: Vec<String>,
    pub documentation: Vec<String>,
    pub automation: Vec<String>,
}

impl IntegrationImpact {
    /// The number of files listed, over all kinds.
    pub fn total(&self) -> (r: usize)
        requires
            self.ci@.len() + self.containers@.len() + self.documentation@.len() + self.automation@.len()
                <= usize::MAX,
        ensures
            r == self.ci@.len() + self.containers@.len() + self.documentation@.len() + self.automation@.len(),
    {
        self.ci.len() + self.containers.len() + self.documentation.len() + self.automation.len()
    }
}

/// What a migration plan would do to the repository.
#[derive(Debug, Clone, PartialEq, Eq)]
pub struct MigrationEffects {
    pub file_writes: Vec<String>,
    pub file_deletions: Vec<String>,
    pub dependency_state_cleanups: Vec<String>,
    pub source_artifact_retirements: Vec<String>,
    pub process_commands: Vec<Vec<String>>,
    pub verification_scripts: Vec<String>,
}

pub struct MigrationReadiness {
    pub schema_version: String,
    pub report_id: String,
    pub verdict: ReadinessVerdict,
    pub read_only: bool,
    pub migration_available: bool,
    pub available_after_review: bool,
    pub accepted_lossy: bool,
    pub verification_policy: VerificationPolicy,
    pub source: Option<PackageManagerId>,
    pub target: PackageManagerId,
    pub target_tier: SupportTier,
    pub repository_fingerprint: String,
    pub project_ir_id: Option<String>,
    pub capability_analysis_id: Option<String>,
    pub package_count: usize,
    pub workspace_configured: bool,
    pub workspace_patterns: Vec<String>,
    pub available_root_scripts: Vec<String>,
    pub integrations: IntegrationImpact,
    pub capabilities: CapabilitySummary,
    pub effects: MigrationEffects,
    pub diagnostics: Vec<Diagnostic>,
}

/// What a readiness assessment reads: the inspection, the project model
/// where one could be built, and the source lock graph where there is one.
pub struct ReadinessContext {
    pub inspection: ProjectInspection,
    pub project_ir: Option<ProjectIr>,
    pub source_lock_graph: Option<LockGraph>,
}

/// The capability analysis behind a readiness report, and the report.
pub struct ReadinessAssessment {
    pub capability_analysis: Option<CapabilityAnalysis>,
    pub report: MigrationReadiness,
}

impl MigrationReadiness {
    /// The schema version readiness reports carry.
    pub fn schema_version() -> (r: String)
        ensures
            r@ == SCHEMA_VERSION@,
    {
        SCHEMA_VERSION.to_owned()
    }
}

pub open spec fn is_review_blocker(d: DiagnosticView) -> bool {
    d.code == "LOSSY_ACCEPTANCE_REQUIRED"@
}

/// The verdict for `target` and whether the migration becomes available
/// once lossy changes are accepted: the current manager is already selected;
/// any blocker blocks, unless every blocker only asks for that acceptance;
/// an executable plan with warnings needs review; an executable plan is
/// ready; anything else is blocked.
pub open spec fn verdict_spec(
    source: Option<PackageManagerId>,
    target: PackageManagerId,
    diagnostics: Seq<DiagnosticView>,
    executable: bool,
) -> (ReadinessVerdict, bool) {
    let has_blocker = exists|i: int| 0 <= i < diagnostics.len() && diagnostics[i].blocking;
    let review_only = forall|i: int|
        0 <= i < diagnostics.len() && #[trigger] diagnostics[i].blocking ==> is_review_blocker(diagnostics[i]);
    if source == Some(target) {
        (ReadinessVerdict::AlreadySelected, false)
    } else if has_blocker {
        if review_only {
            (ReadinessVerdict::ReviewRequired, true)
        } else {
            (ReadinessVerdict::Blocked, false)
        }
    } else if executable && exists|i: int|
        0 <= i < diagnostics.len() && diagnostics[i].severity == DiagnosticSeverity::Warning {
        (ReadinessVerdict::ReviewRequired, false)
    } else if executable {
        (ReadinessVerdict::Ready, false)
    } else {
        (ReadinessVerdict::Blocked, false)
    }
}

/// A blocker other than the request to accept lossy changes blocks the
/// migration outright: accepting lossy changes cannot clear it, so it is not
/// available after review.
pub proof fn law_other_blockers_block(
    source: Option<PackageManagerId>,
    target: PackageManagerId,
    diagnostics: Seq<DiagnosticView>,
    executable: bool,
    i: int,
)
    requires
        source != Some(target),
        0 <= i < diagnostics.len(),
        diagnostics[i].blocking,
        diagnostics[i].code != "LOSSY_ACCEPTANCE_REQUIRED"@,
    ensures
        verdict_spec(source, target, diagnostics, executable) == (ReadinessVerdict::Blocked, false),
{
}

/// The current manager is reported as already selected; a migration is
/// ready only when its plan is executable with neither blockers nor
/// warnings; a plan that cannot run and has no blocker is blocked.
pub proof fn law_verdict_cases(
    source: Option<PackageManagerId>,
    target: PackageManagerId,
    diagnostics: Seq<DiagnosticView>,
    executable: bool,
)
    ensures
        source == Some(target) ==> verdict_spec(source, target, diagnostics, executable) == (
            ReadinessVerdict::AlreadySelected,
            false,
        ),
        verdict_spec(source, target, diagnostics, executable).0 == ReadinessVerdict::Ready ==> executable && source
            != Some(target) && forall|i: int|
            0 <= i < diagnostics.len() ==> !diagnostics[i].blocking && diagnostics[i].severity
                != DiagnosticSeverity::Warning,
        source != Some(target) && !executable && (forall|i: int| 0 <= i < diagnostics.len() ==> !diagnostics[i].blocking)
            ==> verdict_spec(source, target, diagnostics, executable) == (ReadinessVerdict::Blocked, false),
{
}

/// A migration is reported available after review exactly when it has
/// blockers and every one of them only asks for lossy changes to be
/// accepted; it is then the verdict that asks for review.
pub proof fn law_available_after_review(
    source: Option<PackageManagerId>,
    target: PackageManagerId,
    diagnostics: Seq<DiagnosticView>,
    executable: bool,
)
    ensures
        verdict_spec(source, target, diagnostics, executable).1 <==> (source != Some(target) && (exists|i: int|
            0 <= i < diagnostics.len() && diagnostics[i].blocking) && (forall|i: int|
            0 <= i < diagnostics.len() && diagnostics[i].blocking ==> diagnostics[i].code
                == "LOSSY_ACCEPTANCE_REQUIRED"@)),
        verdict_spec(source, target, diagnostics, executable).1 ==> verdict_spec(
            source,
            target,
            diagnostics,
            executable,
        ).0 == ReadinessVerdict::ReviewRequired,
{
}

pub fn verdict(
    source: Option<PackageManagerId>,
    target: PackageManagerId,
    diagnostics: &[Diagnostic],
    executable: bool,
) -> (r: (ReadinessVerdict, bool))
    ensures
        r == verdict_spec(source, target, diagnostics_view(diagnostics@), executable),
{
    let ghost dv = diagnostics_view(diagnostics@);
    if source == Some(target) {
        return (ReadinessVerdict::AlreadySelected, false);
    }
    let mut has_blocker = false;
    let mut review_only = true;
    let mut has_warning = false;
    let mut i: usize = 0;
    while i < diagnostics.len()
        invariant
            i <= diagnostics.len(),
            dv == diagnostics_view(diagnostics@),
            has_blocker == exists|j: int| 0 <= j < i && dv[j].blocking,
            review_only == forall|j: int| 0 <= j < i && #[trigger] dv[j].blocking ==> is_review_blocker(dv[j]),
            has_warning == exists|j: int| 0 <= j < i && dv[j].severity == DiagnosticSeverity::Warning,
        decreases diagnostics.len() - i,
    {
        let d = &diagnostics[i];
        assert(dv[i as int] == d@);
        if d.blocking {
            has_blocker = true;
            let c = chars_of(d.code.as_str());
            if !str_eq(&c, "LOSSY_ACCEPTANCE_REQUIRED") {
                review_only = false;
            }
        }
        if d.severity == DiagnosticSeverity::Warning {
            has_warning = true;
        }
        i = i + 1;
    }
    if has_blocker {
        if review_only {
            (ReadinessVerdict::ReviewRequired, true)
        } else {
            (ReadinessVerdict::Blocked, false)
        }
    } else if executable && has_warning {
        (ReadinessVerdict::ReviewRequired, false)
    } else if executable {
        (ReadinessVerdict::Ready, false)
    } else {
        (ReadinessVerdict::Blocked, false)
    }
}

/// The paths of the integrations of one kind.
pub open spec fn kind_paths(integrations: Seq<IntegrationInspection>, kind: IntegrationKind) -> Set<Seq<char>> {
    Set::new(|p: Seq<char>| exists|i: int| 0 <= i < integrations.len() && (#[trigger] integrations[i]).kind == kind && integrations[i].path@ == p)
}

pub open spec fn integrations_of(project: Option<ProjectIr>) -> Seq<IntegrationInspection> {
    match project {
        Some(p) => p.integrations@,
        None => seq![],
    }
}

/// Each kind's integration paths, increasing and each once.
pub open spec fn impact_spec(r: IntegrationImpact, integrations: Seq<IntegrationInspection>) -> bool {
    &&& strs(r.ci@) == sorted_set(kind_paths(integrations, IntegrationKind::Ci))
    &&& strs(r.containers@) == sorted_set(kind_paths(integrations, IntegrationKind::Container))
    &&& strs(r.documentation@) == sorted_set(kind_paths(integrations, IntegrationKind::Documentation))
    &&& strs(r.automation@) == sorted_set(kind_paths(integrations, IntegrationKind::Automation))
}

fn paths_of_kind(integrations: &Vec<IntegrationInspection>, kind: IntegrationKind) -> (r: Vec<String>)
    ensures
        strs(r@) == sorted_set(kind_paths(integrations@, kind)),
{
    let mut v: Vec<Vec<char>> = Vec::new();
    let mut i: usize = 0;
    while i < integrations.len()
        invariant
            i <= integrations.len(),
            strictly_sorted(texts(v@)),
            texts(v@).to_set() == kind_paths(integrations@.take(i as int), kind),
        decreases integrations.len() - i,
    {
        let ghost before = texts(v@).to_set();
        if integrations[i].kind == kind {
            let p = chars_of(integrations[i].path.as_str());
            insert_sorted(&mut v, p);
        }
        assert(texts(v@).to_set() =~= kind_paths(integrations@.take(i + 1), kind)) by {
            assert forall|x: Seq<char>| kind_paths(integrations@.take(i + 1), kind).contains(x) implies #[trigger] texts(v@).to_set().contains(x) by {
                let j = choose|j: int| 0 <= j < i + 1 && (#[trigger] integrations@.take(i + 1)[j]).kind == kind && integrations@.take(i + 1)[j].path@ == x;
                if j < i {
                    assert(integrations@.take(i as int)[j] == integrations@[j]);
                    assert(kind_paths(integrations@.take(i as int), kind).contains(x));
                }
            }
            assert forall|x: Seq<char>| #[trigger] texts(v@).to_set().contains(x) implies kind_paths(integrations@.take(i + 1), kind).contains(x) by {
                if before.contains(x) {
                    let j = choose|j: int| 0 <= j < i && (#[trigger] integrations@.take(i as int)[j]).kind == kind && integrations@.take(i as int)[j].path@ == x;
                    assert(integrations@.take(i + 1)[j] == integrations@[j]);
                } else {
                    assert(integrations@.take(i + 1)[i as int] == integrations@[i as int]);
                }
            }
        }
        i = i + 1;
    }
    assert(integrations@.take(integrations.len() as int) =~= integrations@);
    sorted_strings(&v, Ghost(kind_paths(integrations@, kind)))
}

/// The integration files of the project, by kind.
pub fn integration_impact(project: Option<&ProjectIr>) -> (r: IntegrationImpact)
    ensures
        impact_spec(
            r,
            match project {
                Some(p) => p.integrations@,
                None => seq![],
            },
        ),
{
    let empty: Vec<IntegrationInspection> = Vec::new();
    let integrations = match project {
        Some(p) => &p.integrations,
        None => &empty,
    };
    IntegrationImpact {
        ci: paths_of_kind(integrations, IntegrationKind::Ci),
        containers: paths_of_kind(integrations, IntegrationKind::Container),
        documentation: paths_of_kind(integrations, IntegrationKind::Documentation),
        automation: paths_of_kind(integrations, IntegrationKind::Automation),
    }
}

/// The script names of the project's root package (the first package at
/// the root package path), if there is one.
pub open spec fn root_scripts_spec(project: Option<ProjectIr>) -> Seq<Seq<char>> {
    match project {
        None => seq![],
        Some(p) => if exists|i: int| 0 <= i < p.packages@.len() && p.packages@[i].path@ == p.root_package_path@ {
            let i = choose|i: int|
                0 <= i < p.packages@.len() && p.packages@[i].path@ == p.root_package_path@ && forall|j: int|
                    0 <= j < i ==> p.packages@[j].path@ != p.root_package_path@;
            strs(p.packages@[i].script_names@)
        } else {
            seq![]
        },
    }
}

fn copy_strings(v: &Vec<String>) -> (r: Vec<String>)
    ensures
        strs(r@) == strs(v@),
{
    let mut r: Vec<String> = Vec::new();
    let mut i: usize = 0;
    while i < v.len()
        invariant
            i <= v.len(),
            strs(r@) == strs(v@).take(i as int),
        decreases v.len() - i,
    {
        let ghost before = r@;
        let x = v[i].as_str().to_owned();
        r.push(x);
        assert(strs(r@) =~= strs(before).push(x@));
        assert(strs(r@) =~= strs(v@).take(i + 1));
        i = i + 1;
    }
    assert(strs(v@).take(v.len() as int) =~= strs(v@));
    r
}

pub fn available_root_scripts(project: Option<&ProjectIr>) -> (r: Vec<String>)
    ensures
        strs(r@) == root_scripts_spec(
            match project {
                Some(p) => Some(*p),
                None => None,
            },
        ),
{
    let p = match project {
        Some(p) => p,
        None => {
            let r: Vec<String> = Vec::new();
            assert(strs(r@) =~= Seq::<Seq<char>>::empty());
            return r;
        },
    };
    let root = chars_of(p.root_package_path.as_str());
    let mut i: usize = 0;
    while i < p.packages.len()
        invariant
            i <= p.packages.len(),
            root@ == p.root_package_path@,
            project == Some(p),
            forall|j: int| 0 <= j < i ==> p.packages@[j].path@ != p.root_package_path@,
        decreases p.packages.len() - i,
    {
        let path = chars_of(p.packages[i].path.as_str());
        if chars_eq(&path, &root) {
            assert(p.packages@[i as int].path@ == p.root_package_path@);
            proof {
                let k = choose|k: int|
                    0 <= k < p.packages@.len() && p.packages@[k].path@ == p.root_package_path@ && forall|j: int|
                        0 <= j < k ==> p.packages@[j].path@ != p.root_package_path@;
                if k < i {
                } else if k > i {
                    assert(p.packages@[i as int].path@ == p.root_package_path@);
                }
                assert(k == i);
                assert(root_scripts_spec(Some(*p)) == strs(p.packages@[i as int].script_names@));
            }
            let r = copy_strings(&p.packages[i].script_names);
            assert(project == Some(p));
            return r;
        }
        i = i + 1;
    }
    let r: Vec<String> = Vec::new();
    assert(strs(r@) =~= Seq::<Seq<char>>::empty());
    r
}

/// The paths of the mutations with the given action.
pub open spec fn action_paths(ms: Seq<MutationView>, action: MutationAction) -> Set<Seq<char>>
    decreases ms.len(),
{
    if ms.len() == 0 {
        Set::empty()
    } else {
        action_paths(ms.drop_last(), action).union(
            if ms.last().action == action {
                set![ms.last().path]
            } else {
                Set::empty()
            },
        )
    }
}

/// What the operations contribute, together.
pub open spec fn union_over<A>(ops: Seq<OperationView>, f: spec_fn(OperationView) -> Set<A>) -> Set<A>
    decreases ops.len(),
{
    if ops.len() == 0 {
        Set::empty()
    } else {
        union_over(ops.drop_last(), f).union(f(ops.last()))
    }
}

/// The files a mutation of the given action touches, in every operation or
/// only in those that retire source artifacts.
pub open spec fn touched(action: MutationAction, retire_only: bool) -> spec_fn(OperationView) -> Set<Seq<char>> {
    |o: OperationView|
        if !retire_only || o.kind == "source.retire"@ {
            action_paths(o.mutations, action)
        } else {
            Set::empty()
        }
}

/// The local dependency directories the cleanup operations remove.
pub open spec fn cleaned() -> spec_fn(OperationView) -> Set<Seq<char>> {
    |o: OperationView|
        if o.kind == crate::cleanup::OPERATION_KIND@ {
            o.paths.to_set()
        } else {
            Set::empty()
        }
}

/// The commands the operations run.
pub open spec fn commands_run() -> spec_fn(OperationView) -> Set<Seq<Seq<char>>> {
    |o: OperationView|
        if o.command.len() > 0 {
            set![o.command]
        } else {
            Set::empty()
        }
}

pub struct EffectsView {
    pub file_writes: Seq<Seq<char>>,
    pub file_deletions: Seq<Seq<char>>,
    pub dependency_state_cleanups: Seq<Seq<char>>,
    pub source_artifact_retirements: Seq<Seq<char>>,
    pub process_commands: Seq<Seq<Seq<char>>>,
    pub verification_scripts: Seq<Seq<char>>,
}

pub open spec fn effects_view(e: MigrationEffects) -> EffectsView {
    EffectsView {
        file_writes: strs(e.file_writes@),
        file_deletions: strs(e.file_deletions@),
        dependency_state_cleanups: strs(e.dependency_state_cleanups@),
        source_artifact_retirements: strs(e.source_artifact_retirements@),
        process_commands: e.process_commands@.map_values(|c: Vec<String>| strs(c@)),
        verification_scripts: strs(e.verification_scripts@),
    }
}

pub open spec fn plan_operations_of(plan: Option<MigrationPlan>) -> Seq<OperationView> {
    match plan {
        Some(p) => operations_view(p.operations@),
        None => seq![],
    }
}

/// What a plan would do: the files it writes and deletes, the dependency
/// directories it removes, the source artifacts it retires and the commands
/// it runs (each increasing and each once), and the scripts the verification
/// runs.
pub open spec fn effects_spec(ops: Seq<OperationView>, scripts: Seq<Seq<char>>) -> EffectsView {
    EffectsView {
        file_writes: sorted_set(union_over(ops, touched(MutationAction::Write, false))),
        file_deletions: sorted_set(union_over(ops, touched(MutationAction::Delete, false))),
        dependency_state_cleanups: sorted_set(union_over(ops, cleaned())),
        source_artifact_retirements: sorted_set(union_over(ops, touched(MutationAction::Delete, true))),
        process_commands: sorted_list_set(union_over(ops, commands_run())),
        verification_scripts: scripts,
    }
}

proof fn lemma_union_step<A>(ops: Seq<OperationView>, f: spec_fn(OperationView) -> Set<A>, i: int)
    requires
        0 <= i < ops.len(),
    ensures
        union_over(ops.take(i + 1), f) == union_over(ops.take(i), f).union(f(ops[i])),
{
    assert(ops.take(i + 1).drop_last() =~= ops.take(i));
}

fn is_kind(op: &PlannedOperation, kind: &str) -> (r: bool)
    ensures
        r == (op.kind@ == kind@),
{
    let c = chars_of(op.kind.as_str());
    str_eq(&c, kind)
}

/// The paths of the mutations with `action`, over the operations (or only
/// those that retire source artifacts).
fn touched_paths(ops: &Vec<PlannedOperation>, action: MutationAction, retire_only: bool) -> (r: Vec<String>)
    ensures
        strs(r@) == sorted_set(union_over(operations_view(ops@), touched(action, retire_only))),
{
    let ghost ov = operations_view(ops@);
    let ghost f = touched(action, retire_only);
    let mut v: Vec<Vec<char>> = Vec::new();
    assert(ov.take(0).len() == 0);
    assert(union_over(ov.take(0), f) =~= Set::empty());
    assert(texts(v@).to_set() =~= Set::empty());
    let mut i: usize = 0;
    while i < ops.len()
        invariant
            i <= ops.len(),
            ov == operations_view(ops@),
            f == touched(action, retire_only),
            strictly_sorted(texts(v@)),
            texts(v@).to_set() == union_over(ov.take(i as int), f),
        decreases ops.len() - i,
    {
        proof {
            lemma_union_step(ov, f, i as int);
        }
        let ghost base = union_over(ov.take(i as int), f);
        let op = &ops[i];
        assert(ov[i as int] == operation_view(*op));
        if !retire_only || is_kind(op, "source.retire") {
            let ghost mv = mutations_view(op.mutations@);
            assert(f(ov[i as int]) == action_paths(mv, action));
            let mut k: usize = 0;
            assert(action_paths(mv.take(0), action) =~= Set::empty());
            while k < op.mutations.len()
                invariant
                    k <= op.mutations.len(),
                    mv == mutations_view(op.mutations@),
                    strictly_sorted(texts(v@)),
                    texts(v@).to_set() == base.union(action_paths(mv.take(k as int), action)),
                decreases op.mutations.len() - k,
            {
                assert(mv.take(k + 1).drop_last() =~= mv.take(k as int));
                assert(mv.take(k + 1).last() == mutation_view(op.mutations@[k as int]));
                if op.mutations[k].action == action {
                    let p = chars_of(op.mutations[k].path.as_str());
                    insert_sorted(&mut v, p);
                }
                assert(texts(v@).to_set() =~= base.union(action_paths(mv.take(k + 1), action)));
                k = k + 1;
            }
            assert(mv.take(op.mutations.len() as int) =~= mv);
        } else {
            assert(f(ov[i as int]) =~= Set::empty());
            assert(texts(v@).to_set() =~= base.union(f(ov[i as int])));
        }
        i = i + 1;
    }
    assert(ov.take(ops.len() as int) =~= ov);
    sorted_strings(&v, Ghost(union_over(ov, f)))
}

/// The local dependency directories the cleanup operations remove.
fn cleaned_paths(ops: &Vec<PlannedOperation>) -> (r: Vec<String>)
    ensures
        strs(r@) == sorted_set(union_over(operations_view(ops@), cleaned())),
{
    let ghost ov = operations_view(ops@);
    let ghost f = cleaned();
    let mut v: Vec<Vec<char>> = Vec::new();
    assert(union_over(ov.take(0), f) =~= Set::empty());
    assert(texts(v@).to_set() =~= Set::empty());
    let mut i: usize = 0;
    while i < ops.len()
        invariant
            i <= ops.len(),
            ov == operations_view(ops@),
            f == cleaned(),
            strictly_sorted(texts(v@)),
            texts(v@).to_set() == union_over(ov.take(i as int), f),
        decreases ops.len() - i,
    {
        proof {
            lemma_union_step(ov, f, i as int);
        }
        let ghost base = union_over(ov.take(i as int), f);
        let op = &ops[i];
        assert(ov[i as int] == operation_view(*op));
        if is_kind(op, crate::cleanup::OPERATION_KIND) {
            let ghost pv = strs(op.paths@);
            assert(f(ov[i as int]) == pv.to_set());
            let mut k: usize = 0;
            assert(pv.take(0).to_set() =~= Set::empty());
            while k < op.paths.len()
                invariant
                    k <= op.paths.len(),
                    pv == strs(op.paths@),
                    strictly_sorted(texts(v@)),
                    texts(v@).to_set() == base.union(pv.take(k as int).to_set()),
                decreases op.paths.len() - k,
            {
                let p = chars_of(op.paths[k].as_str());
                insert_sorted(&mut v, p);
                proof {
                    assert(pv.take(k + 1) =~= pv.take(k as int).push(p@));
                    pv.take(k as int).lemma_push_to_set_commute(p@);
                }
                assert(texts(v@).to_set() =~= base.union(pv.take(k + 1).to_set()));
                k = k + 1;
            }
            assert(pv.take(op.paths.len() as int) =~= pv);
        } else {
            assert(f(ov[i as int]) =~= Set::empty());
            assert(texts(v@).to_set() =~= base.union(f(ov[i as int])));
        }
        i = i + 1;
    }
    assert(ov.take(ops.len() as int) =~= ov);
    sorted_strings(&v, Ghost(union_over(ov, f)))
}

/// The commands the operations run, increasing and each once.
fn commands_of(ops: &Vec<PlannedOperation>) -> (r: Vec<Vec<String>>)
    ensures
        r@.map_values(|c: Vec<String>| strs(c@)) == sorted_list_set(union_over(operations_view(ops@), commands_run())),
{
    let ghost ov = operations_view(ops@);
    let ghost f = commands_run();
    let mut v: Vec<Vec<Vec<char>>> = Vec::new();
    assert(union_over(ov.take(0), f) =~= Set::empty());
    assert(list_texts(v@).to_set() =~= Set::empty());
    let mut i: usize = 0;
    while i < ops.len()
        invariant
            i <= ops.len(),
            ov == operations_view(ops@),
            f == commands_run(),
            crate::sorted::lists_strictly_sorted(list_texts(v@)),
            list_texts(v@).to_set() == union_over(ov.take(i as int), f),
        decreases ops.len() - i,
    {
        proof {
            lemma_union_step(ov, f, i as int);
        }
        let op = &ops[i];
        assert(ov[i as int] == operation_view(*op));
        if op.command.len() > 0 {
            let c = crate::lock_graph::graph::strings_chars(&op.command);
            insert_sorted_list(&mut v, c);
            assert(list_texts(v@).to_set() =~= union_over(ov.take(i + 1), f));
        } else {
            assert(f(ov[i as int]) =~= Set::empty());
            assert(list_texts(v@).to_set() =~= union_over(ov.take(i + 1), f));
        }
        i = i + 1;
    }
    assert(ov.take(ops.len() as int) =~= ov);
    sorted_list_strings(&v, Ghost(union_over(ov, f)))
}

/// What the plan would do to the repository (see `effects_spec`).
pub fn migration_effects(plan: Option<&MigrationPlan>, verification_scripts: &Vec<String>) -> (r: MigrationEffects)
    ensures
        effects_view(r) == effects_spec(
            plan_operations_of(
                match plan {
                    Some(p) => Some(*p),
                    None => None,
                },
            ),
            strs(verification_scripts@),
        ),
{
    let empty: Vec<PlannedOperation> = Vec::new();
    let ops = match plan {
        Some(p) => &p.operations,
        None => &empty,
    };
    assert(operations_view(empty@) =~= Seq::<OperationView>::empty());
    let r = MigrationEffects {
        file_writes: touched_paths(ops, MutationAction::Write, false),
        file_deletions: touched_paths(ops, MutationAction::Delete, false),
        dependency_state_cleanups: cleaned_paths(ops),
        source_artifact_retirements: touched_paths(ops, MutationAction::Delete, true),
        process_commands: commands_of(ops),
        verification_scripts: copy_strings(verification_scripts),
    };
    r
}

pub open spec fn verdict_name(v: ReadinessVerdict) -> Seq<char> {
    match v {
        ReadinessVerdict::Ready => "ready"@,
        ReadinessVerdict::ReviewRequired => "review-required"@,
        ReadinessVerdict::Blocked => "blocked"@,
        ReadinessVerdict::AlreadySelected => "already-selected"@,
    }
}

/// Each kind's integration paths, increasing and each once.
pub open spec fn impact_of(integrations: Seq<IntegrationInspection>) -> (
    Seq<Seq<char>>,
    Seq<Seq<char>>,
    Seq<Seq<char>>,
    Seq<Seq<char>>,
) {
    (
        sorted_set(kind_paths(integrations, IntegrationKind::Ci)),
        sorted_set(kind_paths(integrations, IntegrationKind::Container)),
        sorted_set(kind_paths(integrations, IntegrationKind::Documentation)),
        sorted_set(kind_paths(integrations, IntegrationKind::Automation)),
    )
}

pub open spec fn impact_view(i: IntegrationImpact) -> (Seq<Seq<char>>, Seq<Seq<char>>, Seq<Seq<char>>, Seq<Seq<char>>) {
    (strs(i.ci@), strs(i.containers@), strs(i.documentation@), strs(i.automation@))
}

pub open spec fn impact_text(i: (Seq<Seq<char>>, Seq<Seq<char>>, Seq<Seq<char>>, Seq<Seq<char>>)) -> Seq<char> {
    frame_list(i.0) + frame_list(i.1) + frame_list(i.2) + frame_list(i.3)
}

pub open spec fn effects_text(e: EffectsView) -> Seq<char> {
    frame_list(e.file_writes) + frame_list(e.file_deletions) + frame_list(e.dependency_state_cleanups) + frame_list(
        e.source_artifact_retirements,
    ) + counted(e.process_commands.map_values(|c: Seq<Seq<char>>| frame_list(c))) + frame_list(e.verification_scripts)
}

pub open spec fn opt_manager(m: Option<PackageManagerId>) -> Option<Seq<char>> {
    match m {
        Some(x) => Some(manager_name(x)),
        None => None,
    }
}

/// The mathematical content of a readiness report.
pub struct ReadinessView {
    pub schema_version: Seq<char>,
    pub report_id: Seq<char>,
    pub verdict: ReadinessVerdict,
    pub read_only: bool,
    pub migration_available: bool,
    pub available_after_review: bool,
    pub accepted_lossy: bool,
    pub verification_policy: (Seq<(Seq<char>, Seq<char>, Option<Seq<char>>)>, EdgeEquivalencePolicy),
    pub source: Option<PackageManagerId>,
    pub target: PackageManagerId,
    pub target_tier: SupportTier,
    pub repository_fingerprint: Seq<char>,
    pub project_ir_id: Option<Seq<char>>,
    pub capability_analysis_id: Option<Seq<char>>,
    pub package_count: nat,
    pub workspace_configured: bool,
    pub workspace_patterns: Seq<Seq<char>>,
    pub available_root_scripts: Seq<Seq<char>>,
    pub integrations: (Seq<Seq<char>>, Seq<Seq<char>>, Seq<Seq<char>>, Seq<Seq<char>>),
    pub capabilities: CapabilitySummary,
    pub effects: EffectsView,
    pub diagnostics: Seq<DiagnosticView>,
}

pub open spec fn readiness_view(m: MigrationReadiness) -> ReadinessView {
    ReadinessView {
        schema_version: m.schema_version@,
        report_id: m.report_id@,
        verdict: m.verdict,
        read_only: m.read_only,
        migration_available: m.migration_available,
        available_after_review: m.available_after_review,
        accepted_lossy: m.accepted_lossy,
        verification_policy: policy_view(m.verification_policy),
        source: m.source,
        target: m.target,
        target_tier: m.target_tier,
        repository_fingerprint: m.repository_fingerprint@,
        project_ir_id: opt_text(m.project_ir_id),
        capability_analysis_id: opt_text(m.capability_analysis_id),
        package_count: m.package_count as nat,
        workspace_configured: m.workspace_configured,
        workspace_patterns: strs(m.workspace_patterns@),
        available_root_scripts: strs(m.available_root_scripts@),
        integrations: impact_view(m.integrations),
        capabilities: m.capabilities,
        effects: effects_view(m.effects),
        diagnostics: diagnostics_view(m.diagnostics@),
    }
}

/// The first part of the text a readiness report's identifier digests.
pub open spec fn readiness_head(
    fingerprint: Seq<char>,
    project_ir_id: Option<Seq<char>>,
    analysis_id: Option<Seq<char>>,
    source: Option<PackageManagerId>,
    target: PackageManagerId,
    verdict: ReadinessVerdict,
    executable: bool,
    available_after_review: bool,
    accepted_lossy: bool,
) -> Seq<char> {
    frame(fingerprint) + opt_frame(project_ir_id) + opt_frame(analysis_id) + opt_frame(opt_manager(source)) + frame(
        manager_name(target),
    ) + frame(tier_name(catalog_tier(target))) + frame(verdict_name(verdict)) + flag(executable) + flag(
        available_after_review,
    ) + flag(accepted_lossy)
}

/// The rest of that text.
pub open spec fn readiness_tail(
    policy: (Seq<(Seq<char>, Seq<char>, Option<Seq<char>>)>, EdgeEquivalencePolicy),
    package_count: nat,
    patterns: Seq<Seq<char>>,
    scripts: Seq<Seq<char>>,
    integrations: (Seq<Seq<char>>, Seq<Seq<char>>, Seq<Seq<char>>, Seq<Seq<char>>),
    capabilities: CapabilitySummary,
    effects: EffectsView,
    diagnostics: Seq<DiagnosticView>,
) -> Seq<char> {
    policy_text(policy) + frame(decimal(package_count)) + frame_list(patterns) + frame_list(scripts) + impact_text(
        integrations,
    ) + summary_text(capabilities) + effects_text(effects) + counted(
        diagnostics.map_values(|d: DiagnosticView| diagnostic_text(d)),
    )
}

/// The plan a readiness assessment makes: one where there is a project
/// model, an analysis and a selected package manager.
pub open spec fn expected_plan(
    context: ReadinessContext,
    target: PackageManagerId,
    accepted_lossy: bool,
    policy: VerificationPolicy,
    transformation: ProjectTransformation,
    runtime_diagnostics: Seq<Diagnostic>,
    analysis: Option<CapabilityAnalysis>,
) -> Option<PlanView> {
    match (context.project_ir, analysis, context.inspection.package_manager.selected) {
        (Some(ir), Some(a), Some(source)) => Some(
            plan_spec(
                source,
                context.inspection,
                ir,
                a,
                context.source_lock_graph,
                target,
                accepted_lossy,
                policy,
                transformation,
                runtime_diagnostics,
            ),
        ),
        _ => None,
    }
}

/// The readiness report for `target`, given the analysis and the plan made:
/// the plan's diagnostics (else the project model's, else the
/// inspection's), the verdict they give, what the plan would change, the
/// integrations, and the project's shape.
pub open spec fn readiness_spec(
    context: ReadinessContext,
    target: PackageManagerId,
    accepted_lossy: bool,
    scripts: Seq<Seq<char>>,
    policy: VerificationPolicy,
    analysis: Option<CapabilityAnalysis>,
    plan: Option<PlanView>,
) -> ReadinessView {
    let diagnostics = match plan {
        Some(p) => p.diagnostics,
        None => match context.project_ir {
            Some(ir) => diagnostics_view(ir.diagnostics@),
            None => diagnostics_view(context.inspection.diagnostics@),
        },
    };
    let source = match context.project_ir {
        Some(ir) => ir.source,
        None => None,
    };
    let executable = match plan {
        Some(p) => p.executable,
        None => false,
    };
    let (verdict, review) = verdict_spec(source, target, diagnostics, executable);
    let integrations = impact_of(integrations_of(context.project_ir));
    let effects = effects_spec(
        match plan {
            Some(p) => p.operations,
            None => seq![],
        },
        scripts,
    );
    let capabilities = match analysis {
        Some(a) => a.summary,
        None => CapabilitySummary { native: 0, transform: 0, lossy: 0, unsupported: 0, unknown: 0, not_applicable: 0 },
    };
    let package_count: nat = match context.project_ir {
        Some(ir) => ir.packages@.len(),
        None => 0,
    };
    let patterns = match context.project_ir {
        Some(ir) => strs(ir.workspace_patterns@),
        None => seq![],
    };
    let root_scripts = root_scripts_spec(context.project_ir);
    let project_ir_id = match context.project_ir {
        Some(ir) => Some(ir.project_ir_id@),
        None => None,
    };
    let analysis_id = match analysis {
        Some(a) => Some(a.analysis_id@),
        None => None,
    };
    ReadinessView {
        schema_version: SCHEMA_VERSION@,
        report_id: short_digest_spec(
            "doctor_"@,
            readiness_head(
                context.inspection.fingerprint@,
                project_ir_id,
                analysis_id,
                source,
                target,
                verdict,
                executable,
                review,
                accepted_lossy,
            ) + readiness_tail(
                policy_view(policy),
                package_count,
                patterns,
                root_scripts,
                integrations,
                capabilities,
                effects,
                diagnostics,
            ),
        ),
        verdict,
        read_only: true,
        migration_available: executable,
        available_after_review: review,
        accepted_lossy,
        verification_policy: policy_view(policy),
        source,
        target,
        target_tier: catalog_tier(target),
        repository_fingerprint: context.inspection.fingerprint@,
        project_ir_id,
        capability_analysis_id: analysis_id,
        package_count,
        workspace_configured: context.inspection.workspace.configured,
        workspace_patterns: patterns,
        available_root_scripts: root_scripts,
        integrations,
        capabilities,
        effects,
        diagnostics,
    }
}

fn push_opt_text(out: &mut Vec<char>, o: &Option<String>)
    ensures
        final(out)@ == old(out)@ + opt_frame(opt_text(*o)),
{
    crate::lock_graph::graph::push_opt_frame(out, o);
}

/// The identifiers that open a readiness report's identity text.
pub open spec fn readiness_ids(
    fingerprint: Seq<char>,
    project_ir_id: Option<Seq<char>>,
    analysis_id: Option<Seq<char>>,
    source: Option<PackageManagerId>,
) -> Seq<char> {
    frame(fingerprint) + opt_frame(project_ir_id) + opt_frame(analysis_id) + opt_frame(opt_manager(source))
}

fn push_readiness_ids(
    out: &mut Vec<char>,
    fingerprint: &String,
    project_ir_id: &Option<String>,
    analysis_id: &Option<String>,
    source: Option<PackageManagerId>,
)
    ensures
        final(out)@ == old(out)@ + readiness_ids(fingerprint@, opt_text(*project_ir_id), opt_text(*analysis_id), source),
{
    let ghost o = out@;
    push_text(out, fingerprint);
    push_opt_text(out, project_ir_id);
    push_opt_text(out, analysis_id);
    let name: Option<String> = match source {
        Some(m) => Some(m.as_str().to_owned()),
        None => None,
    };
    assert(opt_text(name) == opt_manager(source));
    push_opt_text(out, &name);
    assert(out@ =~= o + readiness_ids(fingerprint@, opt_text(*project_ir_id), opt_text(*analysis_id), source));
}

fn push_verdict(out: &mut Vec<char>, verdict: ReadinessVerdict)
    ensures
        final(out)@ == old(out)@ + frame(verdict_name(verdict)),
{
    match verdict {
        ReadinessVerdict::Ready => push_name(out, "ready"),
        ReadinessVerdict::ReviewRequired => push_name(out, "review-required"),
        ReadinessVerdict::Blocked => push_name(out, "blocked"),
        ReadinessVerdict::AlreadySelected => push_name(out, "already-selected"),
    }
}

#[verifier::rlimit(40)]
fn push_readiness_head(
    out: &mut Vec<char>,
    fingerprint: &String,
    project_ir_id: &Option<String>,
    analysis_id: &Option<String>,
    source: Option<PackageManagerId>,
    target: PackageManagerId,
    verdict: ReadinessVerdict,
    executable: bool,
    review: bool,
    accepted_lossy: bool,
)
    ensures
        final(out)@ == old(out)@ + readiness_head(
            fingerprint@,
            opt_text(*project_ir_id),
            opt_text(*analysis_id),
            source,
            target,
            verdict,
            executable,
            review,
            accepted_lossy,
        ),
{
    let ghost o = out@;
    push_readiness_ids(out, fingerprint, project_ir_id, analysis_id, source);
    let ghost a = out@;
    push_name(out, target.as_str());
    push_name(out, "production");
    push_verdict(out, verdict);
    push_flag(out, executable);
    push_flag(out, review);
    push_flag(out, accepted_lossy);
    assert(out@ =~= a + frame(manager_name(target)) + frame(tier_name(catalog_tier(target))) + frame(
        verdict_name(verdict),
    ) + flag(executable) + flag(review) + flag(accepted_lossy));
    assert(readiness_head(
        fingerprint@,
        opt_text(*project_ir_id),
        opt_text(*analysis_id),
        source,
        target,
        verdict,
        executable,
        review,
        accepted_lossy,
    ) =~= readiness_ids(fingerprint@, opt_text(*project_ir_id), opt_text(*analysis_id), source) + frame(
        manager_name(target),
    ) + frame(tier_name(catalog_tier(target))) + frame(verdict_name(verdict)) + flag(executable) + flag(review)
        + flag(accepted_lossy));
}

fn push_effects_text(out: &mut Vec<char>, e: &MigrationEffects)
    ensures
        final(out)@ == old(out)@ + effects_text(effects_view(*e)),
{
    let ghost o = out@;
    push_texts(out, &e.file_writes);
    push_texts(out, &e.file_deletions);
    push_texts(out, &e.dependency_state_cleanups);
    push_texts(out, &e.source_artifact_retirements);
    let ghost items = effects_view(*e).process_commands.map_values(|c: Seq<Seq<char>>| frame_list(c));
    push_counted_start(out, e.process_commands.len());
    let ghost base = out@;
    let mut i: usize = 0;
    while i < e.process_commands.len()
        invariant
            i <= e.process_commands.len(),
            items == effects_view(*e).process_commands.map_values(|c: Seq<Seq<char>>| frame_list(c)),
            out@ == base + concat_texts(items.take(i as int)),
        decreases e.process_commands.len() - i,
    {
        push_texts(out, &e.process_commands[i]);
        proof {
            lemma_concat_step(items, i as int);
        }
        assert(out@ =~= base + concat_texts(items.take(i + 1)));
        i = i + 1;
    }
    assert(items.take(e.process_commands.len() as int) =~= items);
    push_texts(out, &e.verification_scripts);
    assert(out@ =~= o + effects_text(effects_view(*e)));
}

/// The project's shape in a readiness report's identity text.
pub open spec fn readiness_shape(
    policy: (Seq<(Seq<char>, Seq<char>, Option<Seq<char>>)>, EdgeEquivalencePolicy),
    package_count: nat,
    patterns: Seq<Seq<char>>,
    scripts: Seq<Seq<char>>,
    integrations: (Seq<Seq<char>>, Seq<Seq<char>>, Seq<Seq<char>>, Seq<Seq<char>>),
) -> Seq<char> {
    policy_text(policy) + frame(decimal(package_count)) + frame_list(patterns) + frame_list(scripts) + impact_text(
        integrations,
    )
}

fn push_readiness_shape(
    out: &mut Vec<char>,
    policy: &VerificationPolicy,
    package_count: usize,
    patterns: &Vec<String>,
    scripts: &Vec<String>,
    integrations: &IntegrationImpact,
)
    ensures
        final(out)@ == old(out)@ + readiness_shape(
            policy_view(*policy),
            package_count as nat,
            strs(patterns@),
            strs(scripts@),
            impact_view(*integrations),
        ),
{
    let ghost o = out@;
    push_policy_text(out, policy);
    push_count(out, package_count);
    push_texts(out, patterns);
    push_texts(out, scripts);
    let ghost a = out@;
    push_texts(out, &integrations.ci);
    push_texts(out, &integrations.containers);
    push_texts(out, &integrations.documentation);
    push_texts(out, &integrations.automation);
    assert(out@ =~= a + impact_text(impact_view(*integrations)));
    assert(out@ =~= o + readiness_shape(
        policy_view(*policy),
        package_count as nat,
        strs(patterns@),
        strs(scripts@),
        impact_view(*integrations),
    ));
}

fn push_readiness_tail(
    out: &mut Vec<char>,
    policy: &VerificationPolicy,
    package_count: usize,
    patterns: &Vec<String>,
    scripts: &Vec<String>,
    integrations: &IntegrationImpact,
    capabilities: &CapabilitySummary,
    effects: &MigrationEffects,
    diagnostics: &Vec<Diagnostic>,
)
    ensures
        final(out)@ == old(out)@ + readiness_tail(
            policy_view(*policy),
            package_count as nat,
            strs(patterns@),
            strs(scripts@),
            impact_view(*integrations),
            *capabilities,
            effects_view(*effects),
            diagnostics_view(diagnostics@),
        ),
{
    let ghost o = out@;
    push_readiness_shape(out, policy, package_count, patterns, scripts, integrations);
    push_summary_text(out, capabilities);
    push_effects_text(out, effects);
    push_diagnostics_counted(out, diagnostics);
    assert(readiness_tail(
        policy_view(*policy),
        package_count as nat,
        strs(patterns@),
        strs(scripts@),
        impact_view(*integrations),
        *capabilities,
        effects_view(*effects),
        diagnostics_view(diagnostics@),
    ) =~= readiness_shape(
        policy_view(*policy),
        package_count as nat,
        strs(patterns@),
        strs(scripts@),
        impact_view(*integrations),
    ) + summary_text(*capabilities) + effects_text(effects_view(*effects)) + counted(
        diagnostics_view(diagnostics@).map_values(|d: DiagnosticView| diagnostic_text(d)),
    ));
    assert(out@ =~= o + readiness_tail(
        policy_view(*policy),
        package_count as nat,
        strs(patterns@),
        strs(scripts@),
        impact_view(*integrations),
        *capabilities,
        effects_view(*effects),
        diagnostics_view(diagnostics@),
    ));
}

fn copy_diagnostics(v: &Vec<Diagnostic>) -> (r: Vec<Diagnostic>)
    ensures
        diagnostics_view(r@) == diagnostics_view(v@),
{
    let mut out: Vec<Diagnostic> = Vec::new();
    let mut k: usize = 0;
    while k < v.len()
        invariant
            k <= v.len(),
            diagnostics_view(out@) == diagnostics_view(v@).take(k as int),
        decreases v.len() - k,
    {
        let x = v[k].duplicate();
        let ghost before = out@;
        out.push(x);
        assert(diagnostics_view(out@) =~= diagnostics_view(before).push(x@));
        assert(diagnostics_view(v@).take(k + 1) =~= diagnostics_view(v@).take(k as int).push(v@[k as int]@));
        k = k + 1;
    }
    assert(diagnostics_view(v@).take(v.len() as int) =~= diagnostics_view(v@));
    out
}

/// The readiness of the project in `context` for a migration to `target`
/// (see `readiness_spec`), with the capability analysis it rests on. The
/// transformation of the project's files and the diagnostics of the
/// runtime-reference scan are taken as computed.
#[verifier::rlimit(60)]
pub fn assess(
    context: &ReadinessContext,
    target: PackageManagerId,
    accepted_lossy: bool,
    verification_scripts: &Vec<String>,
    verification_policy: &VerificationPolicy,
    transformation: &ProjectTransformation,
    runtime_diagnostics: &Vec<Diagnostic>,
) -> (r: ReadinessAssessment)
    ensures
        match context.project_ir {
            Some(ir) => match ir.source {
                Some(s) => r.capability_analysis matches Some(a) && analysis_of(a, ir, s, target),
                None => r.capability_analysis is None,
            },
            None => r.capability_analysis is None,
        },
        readiness_view(r.report) == readiness_spec(
            *context,
            target,
            accepted_lossy,
            strs(verification_scripts@),
            *verification_policy,
            r.capability_analysis,
            expected_plan(
                *context,
                target,
                accepted_lossy,
                *verification_policy,
                *transformation,
                runtime_diagnostics@,
                r.capability_analysis,
            ),
        ),
{
    let analysis = match &context.project_ir {
        Some(p) => match analyze_capabilities(p, target) {
            Ok(a) => a,
            Err(_) => None,
        },
        None => None,
    };
    let graph = context.source_lock_graph.as_ref();
    assert(deref_graph(graph) == context.source_lock_graph);
    let plan = match (&context.project_ir, &analysis) {
        (Some(p), Some(a)) => plan_package_manager_migration(
            &context.inspection,
            p,
            a,
            graph,
            target,
            accepted_lossy,
            verification_policy,
            transformation,
            runtime_diagnostics,
        ),
        _ => None,
    };
    let ghost expected = expected_plan(
        *context,
        target,
        accepted_lossy,
        *verification_policy,
        *transformation,
        runtime_diagnostics@,
        analysis,
    );
    assert(match plan {
        Some(p) => expected == Some(plan_view(p)),
        None => expected is None,
    });
    let diagnostics = match &plan {
        Some(p) => copy_diagnostics(&p.diagnostics),
        None => match &context.project_ir {
            Some(ir) => copy_diagnostics(&ir.diagnostics),
            None => copy_diagnostics(&context.inspection.diagnostics),
        },
    };
    let source = match &context.project_ir {
        Some(ir) => ir.source,
        None => None,
    };
    let executable = match &plan {
        Some(p) => p.executable,
        None => false,
    };
    let (verdict_value, review) = verdict(source, target, &diagnostics, executable);
    let integrations = integration_impact(context.project_ir.as_ref());
    let effects = migration_effects(plan.as_ref(), verification_scripts);
    let capabilities = match &analysis {
        Some(a) => a.summary,
        None => CapabilitySummary { native: 0, transform: 0, lossy: 0, unsupported: 0, unknown: 0, not_applicable: 0 },
    };
    let package_count = match &context.project_ir {
        Some(ir) => ir.packages.len(),
        None => 0,
    };
    let workspace_patterns = match &context.project_ir {
        Some(ir) => copy_strings(&ir.workspace_patterns),
        None => Vec::new(),
    };
    let scripts = available_root_scripts(context.project_ir.as_ref());
    let project_ir_id = match &context.project_ir {
        Some(ir) => Some(ir.project_ir_id.as_str().to_owned()),
        None => None,
    };
    let analysis_id = match &analysis {
        Some(a) => Some(a.analysis_id.as_str().to_owned()),
        None => None,
    };
    let target_tier = get_package_manager(target).tier;
    let mut text: Vec<char> = Vec::new();
    push_readiness_head(
        &mut text,
        &context.inspection.fingerprint,
        &project_ir_id,
        &analysis_id,
        source,
        target,
        verdict_value,
        executable,
        review,
        accepted_lossy,
    );
    push_readiness_tail(
        &mut text,
        verification_policy,
        package_count,
        &workspace_patterns,
        &scripts,
        &integrations,
        &capabilities,
        &effects,
        &diagnostics,
    );
    assert(text@ =~= readiness_head(
        context.inspection.fingerprint@,
        opt_text(project_ir_id),
        opt_text(analysis_id),
        source,
        target,
        verdict_value,
        executable,
        review,
        accepted_lossy,
    ) + readiness_tail(
        policy_view(*verification_policy),
        package_count as nat,
        strs(workspace_patterns@),
        strs(scripts@),
        impact_view(integrations),
        capabilities,
        effects_view(effects),
        diagnostics_view(diagnostics@),
    ));
    let report_id = short_digest("doctor_", &text);
    let report = MigrationReadiness {
        schema_version: MigrationReadiness::schema_version(),
        report_id,
        verdict: verdict_value,
        read_only: true,
        migration_available: executable,
        available_after_review: review,
        accepted_lossy,
        verification_policy: verification_policy.duplicate(),
        source,
        target,
        target_tier,
        repository_fingerprint: context.inspection.fingerprint.as_str().to_owned(),
        project_ir_id,
        capability_analysis_id: analysis_id,
        package_count,
        workspace_configured: context.inspection.workspace.configured,
        workspace_patterns,
        available_root_scripts: scripts,
        integrations,
        capabilities,
        effects,
        diagnostics,
    };
    let ghost rs = readiness_spec(
        *context,
        target,
        accepted_lossy,
        strs(verification_scripts@),
        *verification_policy,
        analysis,
        expected,
    );
    let ghost rv = readiness_view(report);
    assert(rv.diagnostics == rs.diagnostics);
    assert(rv.verdict == rs.verdict);
    assert(rv.available_after_review == rs.available_after_review);
    assert(rv.migration_available == rs.migration_available);
    assert(rv.integrations == rs.integrations);
    assert(rv.effects == rs.effects);
    assert(rv.capabilities == rs.capabilities);
    assert(rv.package_count == rs.package_count);
    assert(rv.workspace_patterns == rs.workspace_patterns);
    assert(rv.available_root_scripts == rs.available_root_scripts);
    assert(rv.project_ir_id == rs.project_ir_id);
    assert(rv.capability_analysis_id == rs.capability_analysis_id);
    assert(rv.report_id == rs.report_id);
    assert(rv.target_tier == rs.target_tier);
    assert(rv.verification_policy == rs.verification_policy);
    ReadinessAssessment { capability_analysis: analysis, report }
}

} // verus!
