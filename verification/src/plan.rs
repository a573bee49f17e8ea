//! The migration plan: the ordered operations that move a project from its
//! package manager to a target, the diagnostics that gate them, and the
//! plan's content identifier.
use vstd::prelude::*;
use crate::digest::{decimal, decimal_exec, decimal_u64, frame, frame_list, push_frame, push_frame_list};
use crate::catalog::{
    catalog_tier, display_name_spec, executable_requirement, get_package_manager, install_command_spec,
    lockfiles_spec, native_import_spec, native_import_strategy, pin_spec, pinned_version, statics,
};
use crate::cleanup::{cleanup_operation, plan_operation};
use crate::model::{
    diagnostics_view, manager_name, CapabilityAnalysis, CapabilityDecision, CapabilitySummary, Diagnostic,
    DiagnosticSeverity, DiagnosticView, EvidenceDetail, ExecutableRequirement, LockGraph, MigrationPlan,
    MutationAction, NativeImportMode, NativeImportStrategy, PackageManagerId, PlannedFileMutation,
    PlannedOperation, ProjectInspection, ProjectIr, SideEffect, SupportTier, SCHEMA_VERSION,
};
use crate::policy::{policy_view, EdgeEquivalencePolicy, TargetPlatform, VerificationPolicy};
use crate::project_ir::{
    concat_texts, counted, lemma_concat_step, packages_view, push_counted_start, PackageView,
};
use crate::digest::{short_digest, short_digest_spec};
use crate::lock_graph::graph::{opt_frame, push_opt_frame, strings_chars};
use crate::lock_graph::lockfile::opt_text;
use crate::sorted::{insert_sorted, lemma_sorted_unique, lists_sorted, sorted_set, sorted_strings};
use crate::text::{chars_of, push_chars, push_str, string_of, strictly_sorted, strs, texts};

verus! {

/// The mathematical content of a planned file mutation.
pub struct MutationView {
    pub path: Seq<char>,
    pub action: MutationAction,
    pub before_digest: Option<Seq<char>>,
    pub after_digest: Option<Seq<char>>,
    pub content: Option<Seq<char>>,
    pub reason: Seq<char>,
    pub capabilities: Seq<Seq<char>>,
}

pub open spec fn mutation_view(m: PlannedFileMutation) -> MutationView {
    MutationView {
        path: m.path@,
        action: m.action,
        before_digest: opt_text(m.before_digest),
        after_digest: opt_text(m.after_digest),
        content: opt_text(m.content),
        reason: m.reason@,
        capabilities: strs(m.capabilities@),
    }
}

pub open spec fn mutations_view(s: Seq<PlannedFileMutation>) -> Seq<MutationView> {
    s.map_values(|m: PlannedFileMutation| mutation_view(m))
}

/// The mathematical content of a planned operation.
pub struct OperationView {
    pub id: Seq<char>,
    pub phase: Seq<char>,
    pub kind: Seq<char>,
    pub description: Seq<char>,
    pub paths: Seq<Seq<char>>,
    pub command: Seq<Seq<char>>,
    pub timeout_seconds: Option<u64>,
    pub capabilities: Seq<Seq<char>>,
    pub side_effect: SideEffect,
    pub reversible: bool,
    pub preconditions: Seq<Seq<char>>,
    pub postconditions: Seq<Seq<char>>,
    pub mutations: Seq<MutationView>,
}

pub open spec fn operation_view(o: PlannedOperation) -> OperationView {
    OperationView {
        id: o.id@,
        phase: o.phase@,
        kind: o.kind@,
        description: o.description@,
        paths: strs(o.paths@),
        command: strs(o.command@),
        timeout_seconds: o.timeout_seconds,
        capabilities: strs(o.capabilities@),
        side_effect: o.side_effect,
        reversible: o.reversible,
        preconditions: strs(o.preconditions@),
        postconditions: strs(o.postconditions@),
        mutations: mutations_view(o.mutations@),
    }
}

pub open spec fn operations_view(s: Seq<PlannedOperation>) -> Seq<OperationView> {
    s.map_values(|o: PlannedOperation| operation_view(o))
}

pub open spec fn zeros(n: nat) -> Seq<char> {
    Seq::new(n, |i: int| '0')
}

/// The identifier of the operation at a (1-based) position: `op_` and the
/// position written with at least three digits.
pub open spec fn op_id(index: nat) -> Seq<char> {
    let d = decimal(index);
    "op_"@ + (if d.len() < 3 {
        zeros((3 - d.len()) as nat)
    } else {
        seq![]
    }) + d
}

pub fn op_id_exec(index: usize) -> (r: String)
    ensures
        r@ == op_id(index as nat),
{
    let d = decimal_exec(index);
    let mut out = chars_of("op_");
    if d.len() < 3 {
        let n = 3 - d.len();
        let ghost base = out@;
        let mut k: usize = 0;
        while k < n
            invariant
                k <= n,
                out@ == base + zeros(k as nat),
            decreases n - k,
        {
            out.push('0');
            assert(out@ =~= base + zeros((k + 1) as nat));
            k = k + 1;
        }
    }
    let ghost mid = out@;
    push_chars(&mut out, &d);
    assert(out@ =~= op_id(index as nat));
    string_of(&out)
}

/// The capabilities the mutations name.
pub open spec fn mutation_capabilities(ms: Seq<MutationView>) -> Set<Seq<char>>
    decreases ms.len(),
{
    if ms.len() == 0 {
        Set::empty()
    } else {
        mutation_capabilities(ms.drop_last()).union(ms.last().capabilities.to_set())
    }
}

pub open spec fn mutation_paths(ms: Seq<MutationView>) -> Seq<Seq<char>> {
    ms.map_values(|m: MutationView| m.path)
}

/// An operation that writes the given files; none without files.
pub open spec fn file_operation(
    index: nat,
    phase: Seq<char>,
    kind: Seq<char>,
    description: Seq<char>,
    ms: Seq<MutationView>,
) -> Option<OperationView> {
    if ms.len() == 0 {
        None
    } else {
        Some(
            OperationView {
                id: op_id(index),
                phase,
                kind,
                description,
                paths: mutation_paths(ms),
                command: seq![],
                timeout_seconds: None,
                capabilities: sorted_set(mutation_capabilities(ms)),
                side_effect: SideEffect::RepositoryWrite,
                reversible: true,
                preconditions: seq!["Current file digests match the accepted plan."@],
                postconditions: seq!["Written file digests match the accepted plan."@],
                mutations: ms,
            },
        )
    }
}

fn one_string(s: &str) -> (r: Vec<String>)
    ensures
        strs(r@) == seq![s@],
{
    let mut r: Vec<String> = Vec::new();
    r.push(s.to_owned());
    assert(strs(r@) =~= seq![s@]);
    r
}

/// The capabilities of the mutations, increasing and each once.
fn capabilities_of(ms: &Vec<PlannedFileMutation>) -> (r: Vec<String>)
    ensures
        strs(r@) == sorted_set(mutation_capabilities(mutations_view(ms@))),
{
    let ghost mv = mutations_view(ms@);
    let mut v: Vec<Vec<char>> = Vec::new();
    let mut i: usize = 0;
    assert(mutation_capabilities(mv.take(0)) =~= Set::empty());
    assert(texts(v@).to_set() =~= Set::empty());
    while i < ms.len()
        invariant
            i <= ms.len(),
            mv == mutations_view(ms@),
            strictly_sorted(texts(v@)),
            texts(v@).to_set() == mutation_capabilities(mv.take(i as int)),
        decreases ms.len() - i,
    {
        assert(mv.take(i + 1).drop_last() =~= mv.take(i as int));
        let caps = &ms[i].capabilities;
        let ghost cv = strs(caps@);
        assert(mv.take(i + 1).last().capabilities == cv);
        let ghost base = mutation_capabilities(mv.take(i as int));
        let mut k: usize = 0;
        assert(cv.take(0).to_set() =~= Set::empty());
        while k < caps.len()
            invariant
                k <= caps.len(),
                cv == strs(caps@),
                strictly_sorted(texts(v@)),
                texts(v@).to_set() == base.union(cv.take(k as int).to_set()),
            decreases caps.len() - k,
        {
            let c = chars_of(caps[k].as_str());
            insert_sorted(&mut v, c);
            proof {
                assert(cv.take(k + 1) =~= cv.take(k as int).push(c@));
                cv.take(k as int).lemma_push_to_set_commute(c@);
            }
            assert(texts(v@).to_set() =~= base.union(cv.take(k + 1).to_set()));
            k = k + 1;
        }
        assert(cv.take(caps.len() as int) =~= cv);
        i = i + 1;
    }
    assert(mv.take(ms.len() as int) =~= mv);
    sorted_strings(&v, Ghost(mutation_capabilities(mv)))
}

fn copy_mutation(m: &PlannedFileMutation) -> (r: PlannedFileMutation)
    ensures
        mutation_view(r) == mutation_view(*m),
{
    let before_digest = match &m.before_digest {
        Some(x) => Some(x.as_str().to_owned()),
        None => None,
    };
    let after_digest = match &m.after_digest {
        Some(x) => Some(x.as_str().to_owned()),
        None => None,
    };
    let content = match &m.content {
        Some(x) => Some(x.as_str().to_owned()),
        None => None,
    };
    let r = PlannedFileMutation {
        path: m.path.as_str().to_owned(),
        action: m.action,
        before_digest,
        after_digest,
        content,
        reason: m.reason.as_str().to_owned(),
        capabilities: copy_strings(&m.capabilities),
    };
    r
}

pub(crate) fn copy_strings(v: &Vec<String>) -> (r: Vec<String>)
    ensures
        strs(r@) == strs(v@),
{
    let mut r: Vec<String> = Vec::new();
    let mut i: usize = 0;
    while i < v.len()
        invariant
            i <= v.len(),
            strs(r@) == strs(v@).take(i as int),
        decreases v.len() - i,
    {
        let s = v[i].as_str().to_owned();
        let ghost before = r@;
        r.push(s);
        assert(strs(r@) =~= strs(before).push(s@));
        assert(strs(v@).take(i + 1) =~= strs(v@).take(i as int).push(v@[i as int]@));
        i = i + 1;
    }
    assert(strs(v@).take(v.len() as int) =~= strs(v@));
    r
}

/// The operation that writes the given files, if there are any.
fn file_operation_exec(
    index: usize,
    phase: &str,
    kind: &str,
    description: String,
    mutations: &Vec<PlannedFileMutation>,
) -> (r: Option<PlannedOperation>)
    ensures
        match file_operation(index as nat, phase@, kind@, description@, mutations_view(mutations@)) {
            None => r is None,
            Some(o) => r matches Some(x) && operation_view(x) == o,
        },
{
    if mutations.len() == 0 {
        return None;
    }
    let ghost mv = mutations_view(mutations@);
    let mut paths: Vec<String> = Vec::new();
    let mut copies: Vec<PlannedFileMutation> = Vec::new();
    let mut i: usize = 0;
    while i < mutations.len()
        invariant
            i <= mutations.len(),
            mv == mutations_view(mutations@),
            strs(paths@) == mutation_paths(mv).take(i as int),
            mutations_view(copies@) == mv.take(i as int),
        decreases mutations.len() - i,
    {
        let p = mutations[i].path.as_str().to_owned();
        let c = copy_mutation(&mutations[i]);
        let ghost bp = paths@;
        let ghost bc = copies@;
        paths.push(p);
        copies.push(c);
        assert(strs(paths@) =~= strs(bp).push(p@));
        assert(mutation_paths(mv).take(i + 1) =~= mutation_paths(mv).take(i as int).push(mv[i as int].path));
        assert(mutations_view(copies@) =~= mutations_view(bc).push(mutation_view(c)));
        assert(mv.take(i + 1) =~= mv.take(i as int).push(mv[i as int]));
        i = i + 1;
    }
    assert(mutation_paths(mv).take(mutations.len() as int) =~= mutation_paths(mv));
    assert(mv.take(mutations.len() as int) =~= mv);
    let capabilities = capabilities_of(mutations);
    let r = PlannedOperation {
        id: op_id_exec(index),
        phase: phase.to_owned(),
        kind: kind.to_owned(),
        description,
        paths,
        command: Vec::new(),
        timeout_seconds: None,
        capabilities,
        side_effect: SideEffect::RepositoryWrite,
        reversible: true,
        preconditions: one_string("Current file digests match the accepted plan."),
        postconditions: one_string("Written file digests match the accepted plan."),
        mutations: copies,
    };
    assert(strs(r.command@) =~= Seq::<Seq<char>>::empty());
    Some(r)
}

/// The mathematical content of a native import strategy.
pub struct NativeView {
    pub id: Seq<char>,
    pub source: PackageManagerId,
    pub target: PackageManagerId,
    pub mode: NativeImportMode,
    pub command: Seq<Seq<char>>,
    pub summary: Seq<char>,
}

pub open spec fn native_view(n: NativeImportStrategy) -> NativeView {
    NativeView {
        id: n.id@,
        source: n.source,
        target: n.target,
        mode: n.mode,
        command: strs(n.command@),
        summary: n.summary@,
    }
}

pub open spec fn opt_native_view(n: Option<NativeImportStrategy>) -> Option<NativeView> {
    match n {
        Some(x) => Some(native_view(x)),
        None => None,
    }
}

/// The file writes a project transformation plans, by kind, with the
/// diagnostics it raised.
pub struct ProjectTransformation {
    pub diagnostics: Vec<Diagnostic>,
    pub manifest_mutations: Vec<PlannedFileMutation>,
    pub configuration_mutations: Vec<PlannedFileMutation>,
    pub integration_mutations: Vec<PlannedFileMutation>,
    pub cleanup_mutations: Vec<PlannedFileMutation>,
}

/// The capability ids the decisions are about, in order.
pub open spec fn decision_features(ds: Seq<CapabilityDecision>) -> Seq<Seq<char>> {
    ds.map_values(|d: CapabilityDecision| d.feature_id@)
}

/// The operation that runs a dedicated target-native lockfile importer.
pub open spec fn import_operation(index: nat, n: NativeView, target: PackageManagerId, features: Seq<Seq<char>>) -> OperationView {
    OperationView {
        id: op_id(index),
        phase: "install"@,
        kind: "dependency.import-target"@,
        description: n.summary,
        paths: lockfiles_spec(target),
        command: n.command,
        timeout_seconds: None,
        capabilities: features,
        side_effect: SideEffect::DependencyState,
        reversible: true,
        preconditions: seq!["Source dependency state and target configuration match the accepted plan."@],
        postconditions: seq!["The target-native importer exits successfully."@],
        mutations: seq![],
    }
}

/// The summary of an importer that the target's install runs itself.
pub open spec fn integrated_import(native: Option<NativeView>) -> Option<Seq<char>> {
    match native {
        Some(n) => if n.mode == NativeImportMode::InstallIntegrated {
            Some(n.summary)
        } else {
            None
        },
        None => None,
    }
}

/// The target install.
pub open spec fn install_operation(
    index: nat,
    integrated: Option<Seq<char>>,
    target: PackageManagerId,
    features: Seq<Seq<char>>,
) -> OperationView {
    OperationView {
        id: op_id(index),
        phase: "install"@,
        kind: if integrated is Some {
            "dependency.import-and-install-target"@
        } else {
            "dependency.install-target"@
        },
        description: match integrated {
            Some(summary) => summary,
            None => "Generate "@ + display_name_spec(target) + " dependency state without lifecycle scripts."@,
        },
        paths: lockfiles_spec(target),
        command: install_command_spec(target),
        timeout_seconds: None,
        capabilities: features,
        side_effect: SideEffect::DependencyState,
        reversible: true,
        preconditions: seq!["Target configuration matches the plan."@],
        postconditions: seq!["The target installer exits successfully."@],
        mutations: seq![],
    }
}

/// The final verification.
pub open spec fn verify_operation(index: nat, features: Seq<Seq<char>>) -> OperationView {
    OperationView {
        id: op_id(index),
        phase: "verify"@,
        kind: "migration.verify"@,
        description: "Verify planned digests and target dependency state."@,
        paths: seq![],
        command: seq![],
        timeout_seconds: None,
        capabilities: features,
        side_effect: SideEffect::NoEffect,
        reversible: false,
        preconditions: seq!["All apply operations completed."@],
        postconditions: seq!["No blocking verification check remains."@],
        mutations: seq![],
    }
}

pub open spec fn push_op(ops: Seq<OperationView>, o: Option<OperationView>) -> Seq<OperationView> {
    match o {
        Some(x) => ops.push(x),
        None => ops,
    }
}

/// The operations of a migration from `source` to `target`, in order: render
/// manifests, render configuration, translate integrations (each only where
/// files change), remove local dependency state, run a dedicated importer
/// where there is one, install, retire source-only files (where any), and
/// verify. None where source and target are the same manager.
pub open spec fn plan_operations(
    source: PackageManagerId,
    target: PackageManagerId,
    manifest_ms: Seq<MutationView>,
    configuration_ms: Seq<MutationView>,
    integration_ms: Seq<MutationView>,
    cleanup_ms: Seq<MutationView>,
    packages: Seq<PackageView>,
    native: Option<NativeView>,
    features: Seq<Seq<char>>,
) -> Seq<OperationView> {
    if source == target {
        seq![]
    } else {
        let tn = display_name_spec(target);
        let sn = display_name_spec(source);
        let a = push_op(
            seq![],
            file_operation(
                1,
                "configure"@,
                "manifest.render-target"@,
                "Render "@ + tn + "-compatible package manifests."@,
                manifest_ms,
            ),
        );
        let b = push_op(
            a,
            file_operation(
                a.len() + 1,
                "configure"@,
                "configuration.render-target"@,
                "Render deterministic "@ + tn + " configuration."@,
                configuration_ms,
            ),
        );
        let c = push_op(
            b,
            file_operation(
                b.len() + 1,
                "integrate"@,
                "integration.translate-commands"@,
                "Translate recognized "@ + sn + " commands in repository integrations."@,
                integration_ms,
            ),
        );
        let d = c.push(cleanup_operation(c.len() + 1, packages));
        let e = match native {
            Some(n) => if n.mode == NativeImportMode::DedicatedCommand {
                d.push(import_operation(d.len() + 1, n, target, features))
            } else {
                d
            },
            None => d,
        };
        let f = e.push(install_operation(e.len() + 1, integrated_import(native), target, features));
        let g = push_op(
            f,
            file_operation(
                f.len() + 1,
                "cleanup"@,
                "source.retire"@,
                "Retire source-only "@ + sn + " artifacts."@,
                cleanup_ms,
            ),
        );
        g.push(verify_operation(g.len() + 1, features))
    }
}

fn owned(v: &Vec<&'static str>) -> (r: Vec<String>)
    ensures
        strs(r@) == statics(v@),
{
    let mut r: Vec<String> = Vec::new();
    let mut i: usize = 0;
    while i < v.len()
        invariant
            i <= v.len(),
            strs(r@) == statics(v@).take(i as int),
        decreases v.len() - i,
    {
        let s = v[i].to_owned();
        let ghost before = r@;
        r.push(s);
        assert(strs(r@) =~= strs(before).push(s@));
        assert(statics(v@).take(i + 1) =~= statics(v@).take(i as int).push(v@[i as int]@));
        i = i + 1;
    }
    assert(statics(v@).take(v.len() as int) =~= statics(v@));
    r
}

fn text_of(parts_a: &str, middle: &str, parts_b: &str) -> (r: String)
    ensures
        r@ == parts_a@ + middle@ + parts_b@,
{
    let mut t = chars_of(parts_a);
    push_str(&mut t, middle);
    push_str(&mut t, parts_b);
    string_of(&t)
}

fn push_some(ops: &mut Vec<PlannedOperation>, o: Option<PlannedOperation>)
    ensures
        final(ops)@.len() <= old(ops)@.len() + 1,
        operations_view(final(ops)@) == push_op(operations_view(old(ops)@), match o {
            Some(x) => Some(operation_view(x)),
            None => None,
        }),
{
    match o {
        Some(x) => {
            let ghost before = ops@;
            ops.push(x);
            assert(operations_view(ops@) =~= operations_view(before).push(operation_view(x)));
        },
        None => {},
    }
}

fn push_op_exec(ops: &mut Vec<PlannedOperation>, x: PlannedOperation)
    ensures
        final(ops)@.len() == old(ops)@.len() + 1,
        operations_view(final(ops)@) == operations_view(old(ops)@).push(operation_view(x)),
{
    let ghost before = ops@;
    ops.push(x);
    assert(operations_view(ops@) =~= operations_view(before).push(operation_view(x)));
}

fn import_operation_exec(index: usize, n: &NativeImportStrategy, target: PackageManagerId, features: &Vec<String>) -> (r: PlannedOperation)
    ensures
        operation_view(r) == import_operation(index as nat, native_view(*n), target, strs(features@)),
{
    let d = get_package_manager(target);
    let r = PlannedOperation {
        id: op_id_exec(index),
        phase: "install".to_owned(),
        kind: "dependency.import-target".to_owned(),
        description: n.summary.as_str().to_owned(),
        paths: owned(&d.lockfiles),
        command: copy_strings(&n.command),
        timeout_seconds: None,
        capabilities: copy_strings(features),
        side_effect: SideEffect::DependencyState,
        reversible: true,
        preconditions: one_string("Source dependency state and target configuration match the accepted plan."),
        postconditions: one_string("The target-native importer exits successfully."),
        mutations: Vec::new(),
    };
    assert(mutations_view(r.mutations@) =~= Seq::<MutationView>::empty());
    r
}

fn install_operation_exec(
    index: usize,
    native: &Option<NativeImportStrategy>,
    target: PackageManagerId,
    features: &Vec<String>,
) -> (r: PlannedOperation)
    ensures
        operation_view(r) == install_operation(index as nat, integrated_import(opt_native_view(*native)), target, strs(features@)),
{
    let d = get_package_manager(target);
    let integrated = match native {
        Some(n) => match n.mode {
            NativeImportMode::InstallIntegrated => true,
            NativeImportMode::DedicatedCommand => false,
        },
        None => false,
    };
    let kind = if integrated {
        "dependency.import-and-install-target"
    } else {
        "dependency.install-target"
    };
    let description = match native {
        Some(n) => if integrated {
            n.summary.as_str().to_owned()
        } else {
            text_of("Generate ", d.display_name, " dependency state without lifecycle scripts.")
        },
        None => text_of("Generate ", d.display_name, " dependency state without lifecycle scripts."),
    };
    let r = PlannedOperation {
        id: op_id_exec(index),
        phase: "install".to_owned(),
        kind: kind.to_owned(),
        description,
        paths: owned(&d.lockfiles),
        command: owned(&d.install_command),
        timeout_seconds: None,
        capabilities: copy_strings(features),
        side_effect: SideEffect::DependencyState,
        reversible: true,
        preconditions: one_string("Target configuration matches the plan."),
        postconditions: one_string("The target installer exits successfully."),
        mutations: Vec::new(),
    };
    assert(mutations_view(r.mutations@) =~= Seq::<MutationView>::empty());
    r
}

fn verify_operation_exec(index: usize, features: &Vec<String>) -> (r: PlannedOperation)
    ensures
        operation_view(r) == verify_operation(index as nat, strs(features@)),
{
    let r = PlannedOperation {
        id: op_id_exec(index),
        phase: "verify".to_owned(),
        kind: "migration.verify".to_owned(),
        description: "Verify planned digests and target dependency state.".to_owned(),
        paths: Vec::new(),
        command: Vec::new(),
        timeout_seconds: None,
        capabilities: copy_strings(features),
        side_effect: SideEffect::NoEffect,
        reversible: false,
        preconditions: one_string("All apply operations completed."),
        postconditions: one_string("No blocking verification check remains."),
        mutations: Vec::new(),
    };
    assert(strs(r.paths@) =~= Seq::<Seq<char>>::empty());
    assert(strs(r.command@) =~= Seq::<Seq<char>>::empty());
    assert(mutations_view(r.mutations@) =~= Seq::<MutationView>::empty());
    r
}

/// The capability ids of the decisions, in order.
fn decision_features_exec(ds: &Vec<CapabilityDecision>) -> (r: Vec<String>)
    ensures
        strs(r@) == decision_features(ds@),
{
    let mut r: Vec<String> = Vec::new();
    let mut i: usize = 0;
    while i < ds.len()
        invariant
            i <= ds.len(),
            strs(r@) == decision_features(ds@).take(i as int),
        decreases ds.len() - i,
    {
        let s = ds[i].feature_id.as_str().to_owned();
        let ghost before = r@;
        r.push(s);
        assert(strs(r@) =~= strs(before).push(s@));
        assert(decision_features(ds@).take(i + 1) =~= decision_features(ds@).take(i as int).push(ds@[i as int].feature_id@));
        i = i + 1;
    }
    assert(decision_features(ds@).take(ds.len() as int) =~= decision_features(ds@));
    r
}

/// The operations of the plan (see `plan_operations`).
fn plan_operations_exec(
    source: PackageManagerId,
    target: PackageManagerId,
    transformation: &ProjectTransformation,
    project: &ProjectIr,
    native: &Option<NativeImportStrategy>,
    features: &Vec<String>,
) -> (r: Vec<PlannedOperation>)
    ensures
        operations_view(r@) == plan_operations(
            source,
            target,
            mutations_view(transformation.manifest_mutations@),
            mutations_view(transformation.configuration_mutations@),
            mutations_view(transformation.integration_mutations@),
            mutations_view(transformation.cleanup_mutations@),
            packages_view(project.packages@),
            opt_native_view(*native),
            strs(features@),
        ),
{
    let mut ops: Vec<PlannedOperation> = Vec::new();
    assert(operations_view(ops@) =~= Seq::<OperationView>::empty());
    if source == target {
        return ops;
    }
    let td = get_package_manager(target);
    let sd = get_package_manager(source);
    let o = file_operation_exec(
        ops.len() + 1,
        "configure",
        "manifest.render-target",
        text_of("Render ", td.display_name, "-compatible package manifests."),
        &transformation.manifest_mutations,
    );
    push_some(&mut ops, o);
    assert(ops.len() <= 1);
    let o = file_operation_exec(
        ops.len() + 1,
        "configure",
        "configuration.render-target",
        text_of("Render deterministic ", td.display_name, " configuration."),
        &transformation.configuration_mutations,
    );
    push_some(&mut ops, o);
    assert(ops.len() <= 2);
    let o = file_operation_exec(
        ops.len() + 1,
        "integrate",
        "integration.translate-commands",
        text_of("Translate recognized ", sd.display_name, " commands in repository integrations."),
        &transformation.integration_mutations,
    );
    push_some(&mut ops, o);
    assert(ops.len() <= 3);
    let c = plan_operation(ops.len() + 1, project);
    push_op_exec(&mut ops, c);
    match native {
        Some(n) => {
            let dedicated = match n.mode {
                NativeImportMode::DedicatedCommand => true,
                NativeImportMode::InstallIntegrated => false,
            };
            if dedicated {
                let x = import_operation_exec(ops.len() + 1, n, target, features);
                push_op_exec(&mut ops, x);
            }
        },
        None => {},
    }
    assert(ops.len() <= 5);
    let x = install_operation_exec(ops.len() + 1, native, target, features);
    push_op_exec(&mut ops, x);
    let o = file_operation_exec(
        ops.len() + 1,
        "cleanup",
        "source.retire",
        text_of("Retire source-only ", sd.display_name, " artifacts."),
        &transformation.cleanup_mutations,
    );
    push_some(&mut ops, o);
    assert(ops.len() <= 7);
    let v = verify_operation_exec(ops.len() + 1, features);
    push_op_exec(&mut ops, v);
    ops
}

pub open spec fn no_evidence() -> Seq<(Seq<char>, Seq<char>)> {
    seq![]
}

/// No importer turns the source lockfile into target dependency state.
pub open spec fn native_unavailable(source: PackageManagerId, target: PackageManagerId) -> DiagnosticView {
    DiagnosticView {
        code: "NATIVE_IMPORT_UNAVAILABLE"@,
        severity: DiagnosticSeverity::Warning,
        summary: "No verified target-native lockfile importer is registered for "@ + manager_name(source)
            + " to "@ + manager_name(target) + "."@,
        blocking: false,
        evidence: no_evidence(),
        remediation: seq!["pkgshift will generate target dependency state and require lock graph verification."@],
    }
}

pub open spec fn target_preview(target: PackageManagerId) -> DiagnosticView {
    DiagnosticView {
        code: "PM_TARGET_PREVIEW"@,
        severity: DiagnosticSeverity::Warning,
        summary: display_name_spec(target) + " is a preview migration target."@,
        blocking: false,
        evidence: no_evidence(),
        remediation: seq!["Use the plan for assessment; preview targets cannot be applied."@],
    }
}

pub open spec fn already_selected(target: PackageManagerId) -> DiagnosticView {
    DiagnosticView {
        code: "PM_TARGET_ALREADY_SELECTED"@,
        severity: DiagnosticSeverity::Warning,
        summary: display_name_spec(target) + " is already selected."@,
        blocking: false,
        evidence: no_evidence(),
        remediation: seq!["Select another target or verify the current state."@],
    }
}

pub open spec fn lossy_acceptance_required() -> DiagnosticView {
    DiagnosticView {
        code: "LOSSY_ACCEPTANCE_REQUIRED"@,
        severity: DiagnosticSeverity::Error,
        summary: "Lossy capability decisions require explicit acceptance in the plan."@,
        blocking: true,
        evidence: no_evidence(),
        remediation: seq!["Review the diagnostics and re-plan with --accept-lossy."@],
    }
}

pub open spec fn push_if(s: Seq<DiagnosticView>, c: bool, d: DiagnosticView) -> Seq<DiagnosticView> {
    if c {
        s.push(d)
    } else {
        s
    }
}

/// The plan's diagnostics: those of the project, the analysis, the
/// transformation, the runtime scan and the source lock graph, then the
/// plan's own warnings and the lossy gate.
pub open spec fn plan_diagnostics(
    earlier: Seq<DiagnosticView>,
    source: PackageManagerId,
    target: PackageManagerId,
    graph_present: bool,
    native_missing: bool,
    lossy_unaccepted: bool,
) -> Seq<DiagnosticView> {
    let a = push_if(earlier, source != target && graph_present && native_missing, native_unavailable(source, target));
    let b = push_if(a, catalog_tier(target) == SupportTier::PreviewTarget, target_preview(target));
    let c = push_if(b, source == target, already_selected(target));
    push_if(c, lossy_unaccepted, lossy_acceptance_required())
}

/// The native import the plan uses: none without a source lockfile.
pub open spec fn plan_native(source: PackageManagerId, target: PackageManagerId, graph_present: bool) -> Option<NativeView> {
    if !graph_present {
        None
    } else {
        match native_import_spec(source, target) {
            None => None,
            Some(s) => Some(NativeView { id: s.0, source, target, mode: s.1, command: s.2, summary: s.3 }),
        }
    }
}

pub open spec fn any_blocking(ds: Seq<DiagnosticView>) -> bool {
    exists|i: int| 0 <= i < ds.len() && (#[trigger] ds[i]).blocking
}

/// What the run checks after applying the plan.
pub open spec fn plan_verification(graph_present: bool) -> Seq<Seq<char>> {
    seq![
        "planned file digests match"@,
        "target package manager is selected"@,
        "target lockfile exists"@,
        "source-only artifacts are retired"@,
        "pre-migration local dependency state was removed before target installation"@,
        "workspace membership is preserved"@,
        "target installation operation succeeded"@,
        if graph_present {
            "source and target resolution sets match"@
        } else {
            "resolved graph comparison is skipped when no source lockfile exists"@
        },
    ]
}

/// The executable a target needs: its program, required version, version
/// command and pin.
pub open spec fn requirement_spec(id: PackageManagerId) -> (Seq<char>, Seq<char>, Seq<Seq<char>>, Seq<char>) {
    (
        install_command_spec(id)[0],
        pinned_version(pin_spec(id)),
        seq![install_command_spec(id)[0], "--version"@],
        pin_spec(id),
    )
}

pub open spec fn requirement_view(r: ExecutableRequirement) -> (Seq<char>, Seq<char>, Seq<Seq<char>>, Seq<char>) {
    (r.program@, r.required_version@, strs(r.version_command@), r.package_manager_pin@)
}

pub open spec fn flag(b: bool) -> Seq<char> {
    if b {
        "1"@
    } else {
        "0"@
    }
}

pub open spec fn tier_name(t: SupportTier) -> Seq<char> {
    match t {
        SupportTier::ProductionTarget => "production"@,
        SupportTier::PreviewTarget => "preview"@,
    }
}

pub open spec fn mode_name(m: NativeImportMode) -> Seq<char> {
    match m {
        NativeImportMode::DedicatedCommand => "dedicated-command"@,
        NativeImportMode::InstallIntegrated => "install-integrated"@,
    }
}

pub open spec fn side_effect_name(e: SideEffect) -> Seq<char> {
    match e {
        SideEffect::NoEffect => "none"@,
        SideEffect::RepositoryWrite => "repository-write"@,
        SideEffect::FilesystemWrite => "filesystem-write"@,
        SideEffect::DependencyState => "dependency-state"@,
        SideEffect::ProcessExecution => "process-execution"@,
    }
}

pub open spec fn action_name(a: MutationAction) -> Seq<char> {
    match a {
        MutationAction::Write => "write"@,
        MutationAction::Delete => "delete"@,
    }
}

pub open spec fn severity_name(s: DiagnosticSeverity) -> Seq<char> {
    match s {
        DiagnosticSeverity::Info => "info"@,
        DiagnosticSeverity::Warning => "warning"@,
        DiagnosticSeverity::Error => "error"@,
    }
}

pub open spec fn edge_name(e: EdgeEquivalencePolicy) -> Seq<char> {
    match e {
        EdgeEquivalencePolicy::Report => "report"@,
        EdgeEquivalencePolicy::Strict => "strict"@,
    }
}

pub open spec fn summary_text(s: CapabilitySummary) -> Seq<char> {
    frame(decimal(s.native as nat)) + frame(decimal(s.transform as nat)) + frame(decimal(s.lossy as nat)) + frame(
        decimal(s.unsupported as nat),
    ) + frame(decimal(s.unknown as nat)) + frame(decimal(s.not_applicable as nat))
}

pub open spec fn native_text(n: Option<NativeView>) -> Seq<char> {
    match n {
        None => "-"@,
        Some(x) => "+"@ + frame(x.id) + frame(manager_name(x.source)) + frame(manager_name(x.target)) + frame(
            mode_name(x.mode),
        ) + frame_list(x.command) + frame(x.summary),
    }
}

pub open spec fn platform_text(p: (Seq<char>, Seq<char>, Option<Seq<char>>)) -> Seq<char> {
    frame(p.0) + frame(p.1) + opt_frame(p.2)
}

pub open spec fn policy_text(p: (Seq<(Seq<char>, Seq<char>, Option<Seq<char>>)>, EdgeEquivalencePolicy)) -> Seq<char> {
    counted(p.0.map_values(|t: (Seq<char>, Seq<char>, Option<Seq<char>>)| platform_text(t))) + frame(edge_name(p.1))
}

pub open spec fn requirement_text(r: (Seq<char>, Seq<char>, Seq<Seq<char>>, Seq<char>)) -> Seq<char> {
    frame(r.0) + frame(r.1) + frame_list(r.2) + frame(r.3)
}

pub open spec fn timeout_text(t: Option<u64>) -> Seq<char> {
    match t {
        None => "-"@,
        Some(x) => "+"@ + frame(decimal(x as nat)),
    }
}

pub open spec fn mutation_text(m: MutationView) -> Seq<char> {
    frame(m.path) + frame(action_name(m.action)) + opt_frame(m.before_digest) + opt_frame(m.after_digest) + opt_frame(
        m.content,
    ) + frame(m.reason) + frame_list(m.capabilities)
}

pub open spec fn operation_text(o: OperationView) -> Seq<char> {
    frame(o.id) + frame(o.phase) + frame(o.kind) + frame(o.description) + frame_list(o.paths) + frame_list(o.command)
        + timeout_text(o.timeout_seconds) + frame_list(o.capabilities) + frame(side_effect_name(o.side_effect)) + flag(
        o.reversible,
    ) + frame_list(o.preconditions) + frame_list(o.postconditions) + counted(
        o.mutations.map_values(|m: MutationView| mutation_text(m)),
    )
}

pub open spec fn diagnostic_text(d: DiagnosticView) -> Seq<char> {
    frame(d.code) + frame(severity_name(d.severity)) + frame(d.summary) + flag(d.blocking) + counted(
        d.evidence.map_values(|e: (Seq<char>, Seq<char>)| frame(e.0) + frame(e.1)),
    ) + frame_list(d.remediation)
}

/// The text the plan identifier digests: everything the plan holds but
/// its verification list, which follows from the rest.
pub open spec fn plan_identity(
    source: PackageManagerId,
    target: PackageManagerId,
    fingerprint: Seq<char>,
    project_ir_id: Seq<char>,
    analysis_id: Seq<char>,
    summary: CapabilitySummary,
    graph_id: Option<Seq<char>>,
    native: Option<NativeView>,
    accepted_lossy: bool,
    executable: bool,
    policy: (Seq<(Seq<char>, Seq<char>, Option<Seq<char>>)>, EdgeEquivalencePolicy),
    operations: Seq<OperationView>,
    diagnostics: Seq<DiagnosticView>,
) -> Seq<char> {
    frame(SCHEMA_VERSION@) + frame(manager_name(source)) + frame(manager_name(target)) + frame(
        tier_name(catalog_tier(target)),
    ) + frame(fingerprint) + frame(project_ir_id) + frame(analysis_id) + summary_text(summary) + opt_frame(graph_id)
        + native_text(native) + flag(accepted_lossy) + flag(executable) + policy_text(policy) + requirement_text(
        requirement_spec(target),
    ) + counted(operations.map_values(|o: OperationView| operation_text(o))) + counted(
        diagnostics.map_values(|d: DiagnosticView| diagnostic_text(d)),
    )
}

/// The mathematical content of a migration plan.
pub struct PlanView {
    pub schema_version: Seq<char>,
    pub plan_id: Seq<char>,
    pub executable: bool,
    pub accepted_lossy: bool,
    pub source: PackageManagerId,
    pub target: PackageManagerId,
    pub target_tier: SupportTier,
    pub repository_fingerprint: Seq<char>,
    pub project_ir_id: Seq<char>,
    pub capability_analysis_id: Seq<char>,
    pub capability_summary: CapabilitySummary,
    pub source_lock_graph_id: Option<Seq<char>>,
    pub native_import: Option<NativeView>,
    pub target_executable: Option<(Seq<char>, Seq<char>, Seq<Seq<char>>, Seq<char>)>,
    pub verification_policy: (Seq<(Seq<char>, Seq<char>, Option<Seq<char>>)>, EdgeEquivalencePolicy),
    pub operations: Seq<OperationView>,
    pub diagnostics: Seq<DiagnosticView>,
    pub verification: Seq<Seq<char>>,
}

pub open spec fn plan_view(p: MigrationPlan) -> PlanView {
    PlanView {
        schema_version: p.schema_version@,
        plan_id: p.plan_id@,
        executable: p.executable,
        accepted_lossy: p.accepted_lossy,
        source: p.source,
        target: p.target,
        target_tier: p.target_tier,
        repository_fingerprint: p.repository_fingerprint@,
        project_ir_id: p.project_ir_id@,
        capability_analysis_id: p.capability_analysis_id@,
        capability_summary: p.capability_summary,
        source_lock_graph_id: opt_text(p.source_lock_graph_id),
        native_import: opt_native_view(p.native_import),
        target_executable: match p.target_executable {
            Some(r) => Some(requirement_view(r)),
            None => None,
        },
        verification_policy: policy_view(p.verification_policy),
        operations: operations_view(p.operations@),
        diagnostics: diagnostics_view(p.diagnostics@),
        verification: strs(p.verification@),
    }
}

pub open spec fn graph_id_of(g: Option<LockGraph>) -> Option<Seq<char>> {
    match g {
        Some(x) => Some(x.graph_id@),
        None => None,
    }
}

pub open spec fn graph_diagnostics(g: Option<LockGraph>) -> Seq<DiagnosticView> {
    match g {
        Some(x) => diagnostics_view(x.diagnostics@),
        None => seq![],
    }
}

/// The plan that moves the inspected project from `source` to `target`,
/// given the project model, the capability analysis, the source lock graph
/// if there is one, whether lossy decisions were accepted, the verification
/// policy, the transformation of the project's files and the diagnostics of
/// the runtime-reference scan.
pub open spec fn plan_spec(
    source: PackageManagerId,
    inspection: ProjectInspection,
    project_ir: ProjectIr,
    analysis: CapabilityAnalysis,
    graph: Option<LockGraph>,
    target: PackageManagerId,
    accepted_lossy: bool,
    policy: VerificationPolicy,
    transformation: ProjectTransformation,
    runtime_diagnostics: Seq<Diagnostic>,
) -> PlanView {
    let native = plan_native(source, target, graph is Some);
    let earlier = diagnostics_view(project_ir.diagnostics@) + diagnostics_view(analysis.diagnostics@)
        + diagnostics_view(transformation.diagnostics@) + diagnostics_view(runtime_diagnostics) + graph_diagnostics(
        graph,
    );
    let diagnostics = plan_diagnostics(
        earlier,
        source,
        target,
        graph is Some,
        native is None,
        analysis.summary.lossy > 0 && !accepted_lossy,
    );
    let features = decision_features(analysis.decisions@);
    let operations = plan_operations(
        source,
        target,
        mutations_view(transformation.manifest_mutations@),
        mutations_view(transformation.configuration_mutations@),
        mutations_view(transformation.integration_mutations@),
        mutations_view(transformation.cleanup_mutations@),
        packages_view(project_ir.packages@),
        native,
        features,
    );
    let executable = source != target && catalog_tier(target) == SupportTier::ProductionTarget && !any_blocking(
        diagnostics,
    );
    PlanView {
        schema_version: SCHEMA_VERSION@,
        plan_id: short_digest_spec(
            "plan_"@,
            plan_identity(
                source,
                target,
                inspection.fingerprint@,
                project_ir.project_ir_id@,
                analysis.analysis_id@,
                analysis.summary,
                graph_id_of(graph),
                native,
                accepted_lossy,
                executable,
                policy_view(policy),
                operations,
                diagnostics,
            ),
        ),
        executable,
        accepted_lossy,
        source,
        target,
        target_tier: catalog_tier(target),
        repository_fingerprint: inspection.fingerprint@,
        project_ir_id: project_ir.project_ir_id@,
        capability_analysis_id: analysis.analysis_id@,
        capability_summary: analysis.summary,
        source_lock_graph_id: graph_id_of(graph),
        native_import: native,
        target_executable: Some(requirement_spec(target)),
        verification_policy: policy_view(policy),
        operations,
        diagnostics,
        verification: plan_verification(graph is Some),
    }
}

pub(crate) fn push_name(out: &mut Vec<char>, name: &str)
    ensures
        final(out)@ == old(out)@ + frame(name@),
{
    let c = chars_of(name);
    push_frame(out, &c);
}

pub(crate) fn push_text(out: &mut Vec<char>, s: &String)
    ensures
        final(out)@ == old(out)@ + frame(s@),
{
    let c = chars_of(s.as_str());
    push_frame(out, &c);
}

pub(crate) fn push_texts(out: &mut Vec<char>, v: &Vec<String>)
    ensures
        final(out)@ == old(out)@ + frame_list(strs(v@)),
{
    let c = strings_chars(v);
    push_frame_list(out, &c);
}

pub(crate) fn push_flag(out: &mut Vec<char>, b: bool)
    ensures
        final(out)@ == old(out)@ + flag(b),
{
    if b {
        push_str(out, "1");
    } else {
        push_str(out, "0");
    }
}

pub(crate) fn push_count(out: &mut Vec<char>, n: usize)
    ensures
        final(out)@ == old(out)@ + frame(decimal(n as nat)),
{
    let d = decimal_exec(n);
    push_frame(out, &d);
}

pub(crate) fn push_summary_text(out: &mut Vec<char>, s: &CapabilitySummary)
    ensures
        final(out)@ == old(out)@ + summary_text(*s),
{
    let ghost o = out@;
    push_count(out, s.native);
    push_count(out, s.transform);
    push_count(out, s.lossy);
    push_count(out, s.unsupported);
    push_count(out, s.unknown);
    push_count(out, s.not_applicable);
    assert(out@ =~= o + summary_text(*s));
}

fn push_mode(out: &mut Vec<char>, m: NativeImportMode)
    ensures
        final(out)@ == old(out)@ + frame(mode_name(m)),
{
    match m {
        NativeImportMode::DedicatedCommand => push_name(out, "dedicated-command"),
        NativeImportMode::InstallIntegrated => push_name(out, "install-integrated"),
    }
}

pub open spec fn native_fields(x: NativeView) -> Seq<char> {
    frame(x.id) + frame(manager_name(x.source)) + frame(manager_name(x.target)) + frame(mode_name(x.mode))
        + frame_list(x.command) + frame(x.summary)
}

fn push_native_fields(out: &mut Vec<char>, x: &NativeImportStrategy)
    ensures
        final(out)@ == old(out)@ + native_fields(native_view(*x)),
{
    let ghost o = out@;
    push_text(out, &x.id);
    push_name(out, x.source.as_str());
    push_name(out, x.target.as_str());
    push_mode(out, x.mode);
    push_texts(out, &x.command);
    push_text(out, &x.summary);
    assert(out@ =~= o + native_fields(native_view(*x)));
}

#[verifier::rlimit(30)]
fn push_native_text(out: &mut Vec<char>, n: &Option<NativeImportStrategy>)
    ensures
        final(out)@ == old(out)@ + native_text(opt_native_view(*n)),
{
    let ghost o = out@;
    match n {
        None => push_str(out, "-"),
        Some(x) => {
            push_str(out, "+");
            push_native_fields(out, x);
            assert(native_text(opt_native_view(*n)) == "+"@ + native_fields(native_view(*x)));
            assert(out@ =~= o + native_text(opt_native_view(*n)));
        },
    }
}

fn push_platform_text(out: &mut Vec<char>, t: &TargetPlatform)
    ensures
        final(out)@ == old(out)@ + platform_text(crate::policy::target_view(*t)),
{
    let ghost o = out@;
    push_text(out, &t.os);
    push_text(out, &t.cpu);
    push_opt_frame(out, &t.libc);
    assert(out@ =~= o + platform_text(crate::policy::target_view(*t)));
}

pub(crate) fn push_policy_text(out: &mut Vec<char>, p: &VerificationPolicy)
    ensures
        final(out)@ == old(out)@ + policy_text(policy_view(*p)),
{
    let ghost o = out@;
    let ghost items = policy_view(*p).0.map_values(|t: (Seq<char>, Seq<char>, Option<Seq<char>>)| platform_text(t));
    push_counted_start(out, p.target_platforms.len());
    let ghost base = out@;
    let mut i: usize = 0;
    while i < p.target_platforms.len()
        invariant
            i <= p.target_platforms.len(),
            items == policy_view(*p).0.map_values(|t: (Seq<char>, Seq<char>, Option<Seq<char>>)| platform_text(t)),
            out@ == base + concat_texts(items.take(i as int)),
        decreases p.target_platforms.len() - i,
    {
        push_platform_text(out, &p.target_platforms[i]);
        proof {
            lemma_concat_step(items, i as int);
        }
        assert(out@ =~= base + concat_texts(items.take(i + 1)));
        i = i + 1;
    }
    assert(items.take(p.target_platforms.len() as int) =~= items);
    match p.edge_equivalence {
        EdgeEquivalencePolicy::Report => push_name(out, "report"),
        EdgeEquivalencePolicy::Strict => push_name(out, "strict"),
    }
    assert(out@ =~= o + policy_text(policy_view(*p)));
}

fn push_requirement_text(out: &mut Vec<char>, r: &ExecutableRequirement)
    ensures
        final(out)@ == old(out)@ + requirement_text(requirement_view(*r)),
{
    let ghost o = out@;
    push_text(out, &r.program);
    push_text(out, &r.required_version);
    push_texts(out, &r.version_command);
    push_text(out, &r.package_manager_pin);
    assert(out@ =~= o + requirement_text(requirement_view(*r)));
}

fn push_mutation_text(out: &mut Vec<char>, m: &PlannedFileMutation)
    ensures
        final(out)@ == old(out)@ + mutation_text(mutation_view(*m)),
{
    let ghost o = out@;
    push_text(out, &m.path);
    match m.action {
        MutationAction::Write => push_name(out, "write"),
        MutationAction::Delete => push_name(out, "delete"),
    }
    push_opt_frame(out, &m.before_digest);
    push_opt_frame(out, &m.after_digest);
    push_opt_frame(out, &m.content);
    push_text(out, &m.reason);
    push_texts(out, &m.capabilities);
    assert(out@ =~= o + mutation_text(mutation_view(*m)));
}

fn push_mutations_counted(out: &mut Vec<char>, ms: &Vec<PlannedFileMutation>)
    ensures
        final(out)@ == old(out)@ + counted(mutations_view(ms@).map_values(|m: MutationView| mutation_text(m))),
{
    let ghost o = out@;
    let ghost items = mutations_view(ms@).map_values(|m: MutationView| mutation_text(m));
    push_counted_start(out, ms.len());
    let ghost base = out@;
    let mut i: usize = 0;
    while i < ms.len()
        invariant
            i <= ms.len(),
            items == mutations_view(ms@).map_values(|m: MutationView| mutation_text(m)),
            out@ == base + concat_texts(items.take(i as int)),
        decreases ms.len() - i,
    {
        push_mutation_text(out, &ms[i]);
        proof {
            lemma_concat_step(items, i as int);
        }
        assert(out@ =~= base + concat_texts(items.take(i + 1)));
        i = i + 1;
    }
    assert(items.take(ms.len() as int) =~= items);
    assert(out@ =~= o + counted(items));
}

/// The part of an operation's text before its lists of conditions.
pub open spec fn operation_head(o: OperationView) -> Seq<char> {
    frame(o.id) + frame(o.phase) + frame(o.kind) + frame(o.description) + frame_list(o.paths) + frame_list(o.command)
        + timeout_text(o.timeout_seconds) + frame_list(o.capabilities) + frame(side_effect_name(o.side_effect)) + flag(
        o.reversible,
    )
}

fn push_timeout(out: &mut Vec<char>, t: Option<u64>)
    ensures
        final(out)@ == old(out)@ + timeout_text(t),
{
    match t {
        None => push_str(out, "-"),
        Some(x) => {
            let ghost o = out@;
            push_str(out, "+");
            let d = decimal_u64(x);
            push_frame(out, &d);
            assert(out@ =~= o + timeout_text(t));
        },
    }
}

fn push_side_effect(out: &mut Vec<char>, e: SideEffect)
    ensures
        final(out)@ == old(out)@ + frame(side_effect_name(e)),
{
    match e {
        SideEffect::NoEffect => push_name(out, "none"),
        SideEffect::RepositoryWrite => push_name(out, "repository-write"),
        SideEffect::FilesystemWrite => push_name(out, "filesystem-write"),
        SideEffect::DependencyState => push_name(out, "dependency-state"),
        SideEffect::ProcessExecution => push_name(out, "process-execution"),
    }
}

/// The first fields of an operation's text.
pub open spec fn operation_start(o: OperationView) -> Seq<char> {
    frame(o.id) + frame(o.phase) + frame(o.kind) + frame(o.description) + frame_list(o.paths) + frame_list(o.command)
}

fn push_operation_start(out: &mut Vec<char>, op: &PlannedOperation)
    ensures
        final(out)@ == old(out)@ + operation_start(operation_view(*op)),
{
    let ghost o = out@;
    push_text(out, &op.id);
    push_text(out, &op.phase);
    push_text(out, &op.kind);
    push_text(out, &op.description);
    push_texts(out, &op.paths);
    push_texts(out, &op.command);
    assert(out@ =~= o + operation_start(operation_view(*op)));
}

fn push_operation_head(out: &mut Vec<char>, op: &PlannedOperation)
    ensures
        final(out)@ == old(out)@ + operation_head(operation_view(*op)),
{
    let ghost o = out@;
    push_operation_start(out, op);
    push_timeout(out, op.timeout_seconds);
    push_texts(out, &op.capabilities);
    push_side_effect(out, op.side_effect);
    push_flag(out, op.reversible);
    let ghost v = operation_view(*op);
    assert(operation_head(v) == operation_start(v) + timeout_text(v.timeout_seconds) + frame_list(v.capabilities)
        + frame(side_effect_name(v.side_effect)) + flag(v.reversible));
    assert(out@ =~= o + operation_head(v));
}

fn push_operation_text(out: &mut Vec<char>, op: &PlannedOperation)
    ensures
        final(out)@ == old(out)@ + operation_text(operation_view(*op)),
{
    let ghost o = out@;
    push_operation_head(out, op);
    push_texts(out, &op.preconditions);
    push_texts(out, &op.postconditions);
    push_mutations_counted(out, &op.mutations);
    let ghost v = operation_view(*op);
    assert(operation_text(v) == operation_head(v) + frame_list(v.preconditions) + frame_list(v.postconditions)
        + counted(v.mutations.map_values(|m: MutationView| mutation_text(m))));
    assert(out@ =~= o + operation_text(v));
}

#[verifier::rlimit(40)]
pub(crate) fn push_operations_counted(out: &mut Vec<char>, ops: &Vec<PlannedOperation>)
    ensures
        final(out)@ == old(out)@ + counted(operations_view(ops@).map_values(|o: OperationView| operation_text(o))),
{
    let ghost o = out@;
    let ghost items = operations_view(ops@).map_values(|o: OperationView| operation_text(o));
    push_counted_start(out, ops.len());
    let ghost base = out@;
    let mut i: usize = 0;
    while i < ops.len()
        invariant
            i <= ops.len(),
            items == operations_view(ops@).map_values(|o: OperationView| operation_text(o)),
            out@ == base + concat_texts(items.take(i as int)),
        decreases ops.len() - i,
    {
        push_operation_text(out, &ops[i]);
        proof {
            lemma_concat_step(items, i as int);
        }
        assert(out@ =~= base + concat_texts(items.take(i + 1)));
        i = i + 1;
    }
    assert(items.take(ops.len() as int) =~= items);
    assert(out@ =~= o + counted(items));
}

fn push_evidence_counted(out: &mut Vec<char>, ev: &Vec<EvidenceDetail>)
    ensures
        final(out)@ == old(out)@ + counted(
            ev@.map_values(|e: EvidenceDetail| e@).map_values(|e: (Seq<char>, Seq<char>)| frame(e.0) + frame(e.1)),
        ),
{
    let ghost o = out@;
    let ghost items = ev@.map_values(|e: EvidenceDetail| e@).map_values(
        |e: (Seq<char>, Seq<char>)| frame(e.0) + frame(e.1),
    );
    push_counted_start(out, ev.len());
    let ghost base = out@;
    let mut i: usize = 0;
    while i < ev.len()
        invariant
            i <= ev.len(),
            items == ev@.map_values(|e: EvidenceDetail| e@).map_values(
                |e: (Seq<char>, Seq<char>)| frame(e.0) + frame(e.1),
            ),
            out@ == base + concat_texts(items.take(i as int)),
        decreases ev.len() - i,
    {
        let ghost b = out@;
        push_text(out, &ev[i].location);
        push_text(out, &ev[i].detail);
        assert(out@ =~= b + items[i as int]);
        proof {
            lemma_concat_step(items, i as int);
        }
        assert(out@ =~= base + concat_texts(items.take(i + 1)));
        i = i + 1;
    }
    assert(items.take(ev.len() as int) =~= items);
    assert(out@ =~= o + counted(items));
}

fn push_diagnostic_text(out: &mut Vec<char>, d: &Diagnostic)
    ensures
        final(out)@ == old(out)@ + diagnostic_text(d@),
{
    let ghost o = out@;
    push_text(out, &d.code);
    match d.severity {
        DiagnosticSeverity::Info => push_name(out, "info"),
        DiagnosticSeverity::Warning => push_name(out, "warning"),
        DiagnosticSeverity::Error => push_name(out, "error"),
    }
    push_text(out, &d.summary);
    push_flag(out, d.blocking);
    push_evidence_counted(out, &d.evidence);
    push_texts(out, &d.remediation);
    assert(d@.remediation =~= strs(d.remediation@));
    assert(out@ =~= o + diagnostic_text(d@));
}

pub(crate) fn push_diagnostics_counted(out: &mut Vec<char>, ds: &Vec<Diagnostic>)
    ensures
        final(out)@ == old(out)@ + counted(diagnostics_view(ds@).map_values(|d: DiagnosticView| diagnostic_text(d))),
{
    let ghost o = out@;
    let ghost items = diagnostics_view(ds@).map_values(|d: DiagnosticView| diagnostic_text(d));
    push_counted_start(out, ds.len());
    let ghost base = out@;
    let mut i: usize = 0;
    while i < ds.len()
        invariant
            i <= ds.len(),
            items == diagnostics_view(ds@).map_values(|d: DiagnosticView| diagnostic_text(d)),
            out@ == base + concat_texts(items.take(i as int)),
        decreases ds.len() - i,
    {
        push_diagnostic_text(out, &ds[i]);
        proof {
            lemma_concat_step(items, i as int);
        }
        assert(out@ =~= base + concat_texts(items.take(i + 1)));
        i = i + 1;
    }
    assert(items.take(ds.len() as int) =~= items);
    assert(out@ =~= o + counted(items));
}

pub(crate) fn extend_copies(out: &mut Vec<Diagnostic>, v: &Vec<Diagnostic>)
    ensures
        diagnostics_view(final(out)@) == diagnostics_view(old(out)@) + diagnostics_view(v@),
{
    let ghost base = diagnostics_view(out@);
    let mut i: usize = 0;
    while i < v.len()
        invariant
            i <= v.len(),
            diagnostics_view(out@) == base + diagnostics_view(v@).take(i as int),
        decreases v.len() - i,
    {
        let d = v[i].duplicate();
        let ghost before = out@;
        out.push(d);
        assert(diagnostics_view(out@) =~= diagnostics_view(before).push(d@));
        assert(diagnostics_view(v@).take(i + 1) =~= diagnostics_view(v@).take(i as int).push(v@[i as int]@));
        i = i + 1;
    }
    assert(diagnostics_view(v@).take(v.len() as int) =~= diagnostics_view(v@));
}

fn warning(code: &str, summary: String, remediation: &str) -> (r: Diagnostic)
    ensures
        r@ == (DiagnosticView {
            code: code@,
            severity: DiagnosticSeverity::Warning,
            summary: summary@,
            blocking: false,
            evidence: no_evidence(),
            remediation: seq![remediation@],
        }),
{
    let r = Diagnostic {
        code: code.to_owned(),
        severity: DiagnosticSeverity::Warning,
        summary,
        blocking: false,
        evidence: Vec::new(),
        remediation: one_string(remediation),
    };
    assert(r@.evidence =~= no_evidence());
    assert(r@.remediation =~= seq![remediation@]);
    r
}

pub(crate) fn push_diagnostic(out: &mut Vec<Diagnostic>, d: Diagnostic)
    ensures
        diagnostics_view(final(out)@) == diagnostics_view(old(out)@).push(d@),
{
    let ghost before = out@;
    out.push(d);
    assert(diagnostics_view(out@) =~= diagnostics_view(before).push(d@));
}

/// The plan's diagnostics (see `plan_diagnostics`).
fn plan_diagnostics_exec(
    project_ir: &ProjectIr,
    analysis: &CapabilityAnalysis,
    transformation: &ProjectTransformation,
    runtime_diagnostics: &Vec<Diagnostic>,
    graph: Option<&LockGraph>,
    source: PackageManagerId,
    target: PackageManagerId,
    native_missing: bool,
    lossy_unaccepted: bool,
) -> (r: Vec<Diagnostic>)
    ensures
        diagnostics_view(r@) == plan_diagnostics(
            diagnostics_view(project_ir.diagnostics@) + diagnostics_view(analysis.diagnostics@)
                + diagnostics_view(transformation.diagnostics@) + diagnostics_view(runtime_diagnostics@)
                + graph_diagnostics(deref_graph(graph)),
            source,
            target,
            graph is Some,
            native_missing,
            lossy_unaccepted,
        ),
{
    let mut out: Vec<Diagnostic> = Vec::new();
    assert(diagnostics_view(out@) =~= Seq::<DiagnosticView>::empty());
    extend_copies(&mut out, &project_ir.diagnostics);
    extend_copies(&mut out, &analysis.diagnostics);
    extend_copies(&mut out, &transformation.diagnostics);
    extend_copies(&mut out, runtime_diagnostics);
    match graph {
        Some(g) => extend_copies(&mut out, &g.diagnostics),
        None => {},
    }
    assert(diagnostics_view(out@) =~= diagnostics_view(project_ir.diagnostics@) + diagnostics_view(analysis.diagnostics@)
        + diagnostics_view(transformation.diagnostics@) + diagnostics_view(runtime_diagnostics@)
        + graph_diagnostics(deref_graph(graph)));
    let td = get_package_manager(target);
    if source != target && graph.is_some() && native_missing {
        let mut t = chars_of("No verified target-native lockfile importer is registered for ");
        push_str(&mut t, source.as_str());
        push_str(&mut t, " to ");
        push_str(&mut t, target.as_str());
        push_str(&mut t, ".");
        let d = warning(
            "NATIVE_IMPORT_UNAVAILABLE",
            string_of(&t),
            "pkgshift will generate target dependency state and require lock graph verification.",
        );
        push_diagnostic(&mut out, d);
    }
    let preview = match td.tier {
        SupportTier::PreviewTarget => true,
        SupportTier::ProductionTarget => false,
    };
    if preview {
        let d = warning(
            "PM_TARGET_PREVIEW",
            text_of("", td.display_name, " is a preview migration target."),
            "Use the plan for assessment; preview targets cannot be applied.",
        );
        push_diagnostic(&mut out, d);
    }
    if source == target {
        let mut t = chars_of(td.display_name);
        push_str(&mut t, " is already selected.");
        let d = warning(
            "PM_TARGET_ALREADY_SELECTED",
            string_of(&t),
            "Select another target or verify the current state.",
        );
        push_diagnostic(&mut out, d);
    }
    if lossy_unaccepted {
        let d = Diagnostic::blocking(
            "LOSSY_ACCEPTANCE_REQUIRED",
            "Lossy capability decisions require explicit acceptance in the plan.",
            one_string("Review the diagnostics and re-plan with --accept-lossy."),
        );
        assert(d@.evidence =~= no_evidence());
        assert(d@.remediation =~= seq!["Review the diagnostics and re-plan with --accept-lossy."@]);
        assert(d@ == lossy_acceptance_required());
        push_diagnostic(&mut out, d);
    }
    out
}

pub open spec fn deref_graph(g: Option<&LockGraph>) -> Option<LockGraph> {
    match g {
        Some(x) => Some(*x),
        None => None,
    }
}

pub(crate) fn has_blocking(ds: &Vec<Diagnostic>) -> (r: bool)
    ensures
        r == any_blocking(diagnostics_view(ds@)),
{
    let mut i: usize = 0;
    while i < ds.len()
        invariant
            i <= ds.len(),
            forall|j: int| 0 <= j < i ==> !(#[trigger] diagnostics_view(ds@)[j]).blocking,
        decreases ds.len() - i,
    {
        if ds[i].blocking {
            assert(diagnostics_view(ds@)[i as int].blocking);
            return true;
        }
        i = i + 1;
    }
    false
}

fn verification_list(graph_present: bool) -> (r: Vec<String>)
    ensures
        strs(r@) == plan_verification(graph_present),
{
    let mut r: Vec<String> = Vec::new();
    r.push("planned file digests match".to_owned());
    r.push("target package manager is selected".to_owned());
    r.push("target lockfile exists".to_owned());
    r.push("source-only artifacts are retired".to_owned());
    r.push("pre-migration local dependency state was removed before target installation".to_owned());
    r.push("workspace membership is preserved".to_owned());
    r.push("target installation operation succeeded".to_owned());
    if graph_present {
        r.push("source and target resolution sets match".to_owned());
    } else {
        r.push("resolved graph comparison is skipped when no source lockfile exists".to_owned());
    }
    assert(strs(r@) =~= plan_verification(graph_present));
    r
}

/// The names and identifiers that open the plan's identity text.
pub open spec fn identity_names(
    source: PackageManagerId,
    target: PackageManagerId,
    fingerprint: Seq<char>,
    project_ir_id: Seq<char>,
    analysis_id: Seq<char>,
) -> Seq<char> {
    frame(SCHEMA_VERSION@) + frame(manager_name(source)) + frame(manager_name(target)) + frame(
        tier_name(catalog_tier(target)),
    ) + frame(fingerprint) + frame(project_ir_id) + frame(analysis_id)
}

/// The first part of the plan's identity text.
pub open spec fn identity_head(
    source: PackageManagerId,
    target: PackageManagerId,
    fingerprint: Seq<char>,
    project_ir_id: Seq<char>,
    analysis_id: Seq<char>,
    summary: CapabilitySummary,
    graph_id: Option<Seq<char>>,
    native: Option<NativeView>,
) -> Seq<char> {
    identity_names(source, target, fingerprint, project_ir_id, analysis_id) + summary_text(summary) + opt_frame(
        graph_id,
    ) + native_text(native)
}

fn push_identity_names(
    out: &mut Vec<char>,
    source: PackageManagerId,
    target: PackageManagerId,
    fingerprint: &String,
    project_ir_id: &String,
    analysis_id: &String,
)
    ensures
        final(out)@ == old(out)@ + identity_names(source, target, fingerprint@, project_ir_id@, analysis_id@),
{
    let ghost o = out@;
    push_name(out, SCHEMA_VERSION);
    push_name(out, source.as_str());
    push_name(out, target.as_str());
    push_name(out, "production");
    push_text(out, fingerprint);
    push_text(out, project_ir_id);
    push_text(out, analysis_id);
    assert(out@ =~= o + identity_names(source, target, fingerprint@, project_ir_id@, analysis_id@));
}

fn push_identity_head(
    out: &mut Vec<char>,
    source: PackageManagerId,
    target: PackageManagerId,
    fingerprint: &String,
    project_ir_id: &String,
    analysis_id: &String,
    summary: &CapabilitySummary,
    graph_id: &Option<String>,
    native: &Option<NativeImportStrategy>,
)
    ensures
        final(out)@ == old(out)@ + identity_head(
            source,
            target,
            fingerprint@,
            project_ir_id@,
            analysis_id@,
            *summary,
            opt_text(*graph_id),
            opt_native_view(*native),
        ),
{
    let ghost o = out@;
    push_identity_names(out, source, target, fingerprint, project_ir_id, analysis_id);
    let ghost a = out@;
    push_summary_text(out, summary);
    let ghost b = out@;
    push_opt_frame(out, graph_id);
    let ghost c = out@;
    push_native_text(out, native);
    assert(out@ =~= o + identity_head(
        source,
        target,
        fingerprint@,
        project_ir_id@,
        analysis_id@,
        *summary,
        opt_text(*graph_id),
        opt_native_view(*native),
    ));
}

fn plan_identity_exec(
    source: PackageManagerId,
    target: PackageManagerId,
    fingerprint: &String,
    project_ir_id: &String,
    analysis_id: &String,
    summary: &CapabilitySummary,
    graph_id: &Option<String>,
    native: &Option<NativeImportStrategy>,
    accepted_lossy: bool,
    executable: bool,
    policy: &VerificationPolicy,
    requirement: &ExecutableRequirement,
    operations: &Vec<PlannedOperation>,
    diagnostics: &Vec<Diagnostic>,
) -> (r: Vec<char>)
    requires
        requirement_view(*requirement) == requirement_spec(target),
    ensures
        r@ == plan_identity(
            source,
            target,
            fingerprint@,
            project_ir_id@,
            analysis_id@,
            *summary,
            opt_text(*graph_id),
            opt_native_view(*native),
            accepted_lossy,
            executable,
            policy_view(*policy),
            operations_view(operations@),
            diagnostics_view(diagnostics@),
        ),
{
    let mut out: Vec<char> = Vec::new();
    push_identity_head(&mut out, source, target, fingerprint, project_ir_id, analysis_id, summary, graph_id, native);
    let ghost h = out@;
    push_flag(&mut out, accepted_lossy);
    push_flag(&mut out, executable);
    push_policy_text(&mut out, policy);
    push_requirement_text(&mut out, requirement);
    push_operations_counted(&mut out, operations);
    push_diagnostics_counted(&mut out, diagnostics);
    let ghost native_v = opt_native_view(*native);
    assert(plan_identity(
        source,
        target,
        fingerprint@,
        project_ir_id@,
        analysis_id@,
        *summary,
        opt_text(*graph_id),
        native_v,
        accepted_lossy,
        executable,
        policy_view(*policy),
        operations_view(operations@),
        diagnostics_view(diagnostics@),
    ) == identity_head(
        source,
        target,
        fingerprint@,
        project_ir_id@,
        analysis_id@,
        *summary,
        opt_text(*graph_id),
        native_v,
    ) + flag(accepted_lossy) + flag(executable) + policy_text(policy_view(*policy)) + requirement_text(
        requirement_spec(target),
    ) + counted(operations_view(operations@).map_values(|o: OperationView| operation_text(o))) + counted(
        diagnostics_view(diagnostics@).map_values(|d: DiagnosticView| diagnostic_text(d)),
    ));
    assert(out@ =~= plan_identity(
        source,
        target,
        fingerprint@,
        project_ir_id@,
        analysis_id@,
        *summary,
        opt_text(*graph_id),
        native_v,
        accepted_lossy,
        executable,
        policy_view(*policy),
        operations_view(operations@),
        diagnostics_view(diagnostics@),
    ));
    out
}

/// The plan that moves the inspected project to `target` (see `plan_spec`);
/// none where the inspection selected no package manager. The
/// transformation of the project's files and the diagnostics of the
/// runtime-reference scan are taken as computed.
pub fn plan_package_manager_migration(
    inspection: &ProjectInspection,
    project_ir: &ProjectIr,
    analysis: &CapabilityAnalysis,
    source_lock_graph: Option<&LockGraph>,
    target: PackageManagerId,
    accepted_lossy: bool,
    verification_policy: &VerificationPolicy,
    transformation: &ProjectTransformation,
    runtime_diagnostics: &Vec<Diagnostic>,
) -> (r: Option<MigrationPlan>)
    ensures
        match inspection.package_manager.selected {
            None => r is None,
            Some(source) => r matches Some(p) && plan_view(p) == plan_spec(
                source,
                *inspection,
                *project_ir,
                *analysis,
                deref_graph(source_lock_graph),
                target,
                accepted_lossy,
                *verification_policy,
                *transformation,
                runtime_diagnostics@,
            ),
        },
{
    let source = match inspection.package_manager.selected {
        None => {
            return None;
        },
        Some(s) => s,
    };
    let graph_present = source_lock_graph.is_some();
    let native = native_import_strategy(source, target, graph_present);
    assert(opt_native_view(native) == plan_native(source, target, graph_present));
    let native_missing = native.is_none();
    let lossy_unaccepted = analysis.summary.lossy > 0 && !accepted_lossy;
    let diagnostics = plan_diagnostics_exec(
        project_ir,
        analysis,
        transformation,
        runtime_diagnostics,
        source_lock_graph,
        source,
        target,
        native_missing,
        lossy_unaccepted,
    );
    let features = decision_features_exec(&analysis.decisions);
    let operations = plan_operations_exec(source, target, transformation, project_ir, &native, &features);
    let td = get_package_manager(target);
    let production = match td.tier {
        SupportTier::ProductionTarget => true,
        SupportTier::PreviewTarget => false,
    };
    let executable = source != target && production && !has_blocking(&diagnostics);
    let requirement = executable_requirement(target);
    assert(requirement_view(requirement) == requirement_spec(target));
    let graph_id: Option<String> = match source_lock_graph {
        Some(g) => Some(g.graph_id.as_str().to_owned()),
        None => None,
    };
    assert(opt_text(graph_id) == graph_id_of(deref_graph(source_lock_graph)));
    let id_text = plan_identity_exec(
        source,
        target,
        &inspection.fingerprint,
        &project_ir.project_ir_id,
        &analysis.analysis_id,
        &analysis.summary,
        &graph_id,
        &native,
        accepted_lossy,
        executable,
        verification_policy,
        &requirement,
        &operations,
        &diagnostics,
    );
    let plan_id = short_digest("plan_", &id_text);
    let p = MigrationPlan {
        schema_version: SCHEMA_VERSION.to_owned(),
        plan_id,
        executable,
        accepted_lossy,
        source,
        target,
        target_tier: td.tier,
        repository_fingerprint: inspection.fingerprint.as_str().to_owned(),
        project_ir_id: project_ir.project_ir_id.as_str().to_owned(),
        capability_analysis_id: analysis.analysis_id.as_str().to_owned(),
        capability_summary: analysis.summary,
        source_lock_graph_id: graph_id,
        native_import: native,
        target_executable: Some(requirement),
        verification_policy: verification_policy.duplicate(),
        operations,
        diagnostics,
        verification: verification_list(graph_present),
    };
    Some(p)
}

} // verus!
