//! The Bun-to-Deno runtime plan: the recipes applied to each input file, the
//! writes they make, the permissions they need, and the diagnostics that
//! gate the plan.
use vstd::prelude::*;
use crate::digest::{decimal, digest_bytes_spec, digest_text, frame, frame_list, short_digest, short_digest_spec};
use crate::model::{
    diagnostics_view, Diagnostic, DiagnosticSeverity, DiagnosticView, EvidenceDetail, MutationAction,
    PlannedFileMutation, PlannedOperation, SideEffect, SCHEMA_VERSION,
};
use crate::plan::{
    extend_copies, has_blocking, push_diagnostic, push_diagnostics_counted, push_name, push_operations_counted,
    push_text, push_texts, any_blocking, diagnostic_text, mutation_view, mutations_view, no_evidence, operation_text, operation_view,
    operations_view, MutationView, OperationView,
};
use crate::project_ir::{concat_texts, counted, lemma_concat_step, push_counted_start};
use crate::sorted::{
    insert_sorted, insert_sorted_list, lemma_lists_sorted_unique, list_lt, list_texts, lists_eq_exec, lists_listed,
    lists_strictly_sorted, sorted_list_set, sorted_set, sorted_strings,
};
use crate::text::{chars_lt, lemma_seq_lt_total, strictly_sorted, texts};
use crate::text::{seq_lt, strs};
use super::model::{
    permission_at, permission_name, DenoPermission, PermissionSet, RuntimeFile, RuntimeInspection,
    RuntimeMigrationPlan, RuntimeRecipeApplication,
};
use super::recipe::chain::{
    applications_spec, application_view, can_transform_file, file_examinable, transform_file, transform_file_view,
};
use crate::text::{chars_eq, chars_of, push_str, string_of};

verus! {

/// What the recipes did to the files so far: their diagnostics, the
/// permissions they need, the recipe applications of the files they changed
/// and the writes of those files.
pub struct FoldView {
    pub diagnostics: Seq<DiagnosticView>,
    pub permissions: Set<DenoPermission>,
    pub recipes: Seq<(Seq<char>, Seq<char>, usize)>,
    pub mutations: Seq<MutationView>,
}

pub open spec fn text_digest(t: Seq<char>) -> Seq<char> {
    digest_bytes_spec(vstd::utf8::encode_utf8(t))
}

/// The write of a file the recipes changed.
pub open spec fn recipe_mutation(
    path: Seq<char>,
    before: Seq<char>,
    after: Seq<char>,
    apps: Seq<(Seq<char>, Seq<char>, usize)>,
) -> MutationView {
    MutationView {
        path,
        action: MutationAction::Write,
        before_digest: Some(text_digest(before)),
        after_digest: Some(text_digest(after)),
        content: Some(after),
        reason: "Apply deterministic Bun-to-Deno runtime recipes and retire supported Bun residues."@,
        capabilities: apps.map_values(|a: (Seq<char>, Seq<char>, usize)| a.0),
    }
}

/// The recipes applied to each file in turn.
pub open spec fn fold_files(files: Seq<RuntimeFile>, perms: Set<DenoPermission>) -> FoldView
    decreases files.len(),
{
    if files.len() == 0 {
        FoldView { diagnostics: seq![], permissions: Set::empty(), recipes: seq![], mutations: seq![] }
    } else {
        let prev = fold_files(files.drop_last(), perms);
        let f = files.last();
        let v = transform_file_view(f.path@, f.content@, perms);
        let apps = applications_spec(f.path@, v.counts);
        if v.content == f.content@ {
            FoldView {
                diagnostics: prev.diagnostics + v.diagnostics,
                permissions: prev.permissions.union(v.permissions),
                recipes: prev.recipes,
                mutations: prev.mutations,
            }
        } else {
            FoldView {
                diagnostics: prev.diagnostics + v.diagnostics,
                permissions: prev.permissions.union(v.permissions),
                recipes: prev.recipes + apps,
                mutations: prev.mutations.push(recipe_mutation(f.path@, f.content@, v.content, apps)),
            }
        }
    }
}

pub open spec fn not_detected() -> DiagnosticView {
    DiagnosticView {
        code: "RUNTIME_BUN_SOURCE_NOT_DETECTED"@,
        severity: DiagnosticSeverity::Error,
        summary: "No Bun runtime API, import, script, type dependency, or configuration evidence was detected."@,
        blocking: true,
        evidence: no_evidence(),
        remediation: seq![
            "Run this command from a Bun runtime project root, or use package-manager migration commands for lockfile-only changes."@,
        ],
    }
}

pub open spec fn no_safe_recipes() -> DiagnosticView {
    DiagnosticView {
        code: "RUNTIME_NO_SAFE_RECIPES"@,
        severity: DiagnosticSeverity::Error,
        summary: "Bun runtime evidence was detected, but no safe deterministic mutation was available."@,
        blocking: true,
        evidence: no_evidence(),
        remediation: seq!["Resolve the reported unsupported APIs before retrying."@],
    }
}

pub open spec fn permission_required(p: DenoPermission) -> DiagnosticView {
    DiagnosticView {
        code: "DENO_PERMISSION_REQUIRED"@,
        severity: DiagnosticSeverity::Error,
        summary: "The planned runtime recipes require the explicit Deno '"@ + permission_name(p) + "' permission."@,
        blocking: true,
        evidence: seq![("runtime-plan"@, "required permission: "@ + permission_name(p))],
        remediation: seq!["Retry with --deno-permission "@ + permission_name(p) + " after reviewing the access requirement."@],
    }
}

/// The permissions needed and not granted, in declaration order.
pub open spec fn missing_permissions(required: Set<DenoPermission>, granted: Set<DenoPermission>) -> Seq<DenoPermission> {
    Seq::new(8, |i: int| permission_at(i)).filter(|p: DenoPermission| required.contains(p) && !granted.contains(p))
}

/// The granted permissions, in declaration order.
pub open spec fn granted_list(granted: Set<DenoPermission>) -> Seq<DenoPermission> {
    Seq::new(8, |i: int| permission_at(i)).filter(|p: DenoPermission| granted.contains(p))
}

/// A diagnostic's key: its code and the location of its first evidence.
pub open spec fn diag_key(d: DiagnosticView) -> Seq<Seq<char>> {
    seq![d.code, if d.evidence.len() > 0 {
        d.evidence[0].0
    } else {
        ""@
    }]
}

pub open spec fn key_set(ds: Seq<DiagnosticView>) -> Set<Seq<Seq<char>>> {
    ds.map_values(|d: DiagnosticView| diag_key(d)).to_set()
}

/// The first diagnostic with the key.
pub open spec fn first_with_key(ds: Seq<DiagnosticView>, k: Seq<Seq<char>>) -> DiagnosticView
    decreases ds.len(),
{
    if ds.len() == 0 {
        arbitrary()
    } else if key_set(ds.drop_last()).contains(k) {
        first_with_key(ds.drop_last(), k)
    } else {
        ds.last()
    }
}

/// One diagnostic per key, the first, ordered by key.
pub open spec fn dedup_diagnostics(ds: Seq<DiagnosticView>) -> Seq<DiagnosticView> {
    sorted_list_set(key_set(ds)).map_values(|k: Seq<Seq<char>>| first_with_key(ds, k))
}

/// Recipe applications by path, then recipe.
pub open spec fn recipe_lt(a: (Seq<char>, Seq<char>, usize), b: (Seq<char>, Seq<char>, usize)) -> bool {
    seq_lt(a.1, b.1) || (a.1 == b.1 && seq_lt(a.0, b.0))
}

pub open spec fn insert_recipe(
    s: Seq<(Seq<char>, Seq<char>, usize)>,
    e: (Seq<char>, Seq<char>, usize),
) -> Seq<(Seq<char>, Seq<char>, usize)>
    decreases s.len(),
{
    if s.len() == 0 {
        seq![e]
    } else if !recipe_lt(e, s.last()) {
        s.push(e)
    } else {
        insert_recipe(s.drop_last(), e).push(s.last())
    }
}

/// The applications ordered by path and recipe, equal keys keeping their
/// order.
pub open spec fn sort_recipes(s: Seq<(Seq<char>, Seq<char>, usize)>) -> Seq<(Seq<char>, Seq<char>, usize)>
    decreases s.len(),
{
    if s.len() == 0 {
        seq![]
    } else {
        insert_recipe(sort_recipes(s.drop_last()), s.last())
    }
}

pub open spec fn insert_mutation(s: Seq<MutationView>, e: MutationView) -> Seq<MutationView>
    decreases s.len(),
{
    if s.len() == 0 {
        seq![e]
    } else if !seq_lt(e.path, s.last().path) {
        s.push(e)
    } else {
        insert_mutation(s.drop_last(), e).push(s.last())
    }
}

/// The writes ordered by path, equal paths keeping their order.
pub open spec fn sort_mutations(s: Seq<MutationView>) -> Seq<MutationView>
    decreases s.len(),
{
    if s.len() == 0 {
        seq![]
    } else {
        insert_mutation(sort_mutations(s.drop_last()), s.last())
    }
}

/// The one operation that applies the recipes' writes.
pub open spec fn runtime_operation(ms: Seq<MutationView>, rs: Seq<(Seq<char>, Seq<char>, usize)>) -> OperationView {
    OperationView {
        id: "runtime.apply-recipes"@,
        phase: "apply"@,
        kind: "runtime.recipe-application"@,
        description: "Apply digest-bound Bun-to-Deno source, script, and type recipes."@,
        paths: ms.map_values(|m: MutationView| m.path),
        command: seq![],
        timeout_seconds: None,
        capabilities: sorted_set(rs.map_values(|r: (Seq<char>, Seq<char>, usize)| r.0).to_set()),
        side_effect: SideEffect::RepositoryWrite,
        reversible: true,
        preconditions: seq![
            "Every mutation target still matches its reviewed beforeDigest."@,
            "The runtime repository fingerprint still matches the plan baseline."@,
        ],
        postconditions: seq![
            "Every mutation target matches its planned afterDigest."@,
            "No Bun runtime residue remains in the supported inspection boundary."@,
        ],
        mutations: ms,
    }
}

/// The diagnostics before de-duplication: the refused inputs, the absence
/// of Bun evidence, the recipes' diagnostics, each missing permission, and
/// the absence of any safe write.
pub open spec fn raw_runtime_diagnostics(inspection: RuntimeInspection, perms: Set<DenoPermission>) -> Seq<DiagnosticView> {
    let fold = fold_files(inspection.files@, perms);
    let input = diagnostics_view(inspection.input_diagnostics@);
    let a = if inspection.bun_evidence@.len() == 0 && input.len() == 0 {
        input.push(not_detected())
    } else {
        input
    };
    let b = a + fold.diagnostics + missing_permissions(fold.permissions, perms).map_values(
        |p: DenoPermission| permission_required(p),
    );
    if inspection.bun_evidence@.len() > 0 && fold.mutations.len() == 0 {
        b.push(no_safe_recipes())
    } else {
        b
    }
}

pub open spec fn recipe_text(r: (Seq<char>, Seq<char>, usize)) -> Seq<char> {
    frame(r.0) + frame(r.1) + frame(decimal(r.2 as nat))
}

/// The text the runtime plan's identifier digests.
pub open spec fn runtime_identity(
    fingerprint: Seq<char>,
    permissions: Seq<DenoPermission>,
    recipes: Seq<(Seq<char>, Seq<char>, usize)>,
    operations: Seq<OperationView>,
    diagnostics: Seq<DiagnosticView>,
) -> Seq<char> {
    frame(SCHEMA_VERSION@) + frame("bun"@) + frame("deno"@) + frame(fingerprint) + frame_list(
        permissions.map_values(|p: DenoPermission| permission_name(p)),
    ) + counted(recipes.map_values(|r: (Seq<char>, Seq<char>, usize)| recipe_text(r))) + counted(
        operations.map_values(|o: OperationView| operation_text(o)),
    ) + counted(diagnostics.map_values(|d: DiagnosticView| diagnostic_text(d)))
}

/// The mathematical content of a runtime plan.
pub struct RuntimePlanView {
    pub schema_version: Seq<char>,
    pub plan_id: Seq<char>,
    pub executable: bool,
    pub source: Seq<char>,
    pub target: Seq<char>,
    pub repository_fingerprint: Seq<char>,
    pub permissions: Seq<DenoPermission>,
    pub recipes: Seq<(Seq<char>, Seq<char>, usize)>,
    pub operations: Seq<OperationView>,
    pub diagnostics: Seq<DiagnosticView>,
    pub verification: Seq<Seq<char>>,
}

pub open spec fn runtime_plan_view(p: RuntimeMigrationPlan) -> RuntimePlanView {
    RuntimePlanView {
        schema_version: p.schema_version@,
        plan_id: p.plan_id@,
        executable: p.executable,
        source: p.source@,
        target: p.target@,
        repository_fingerprint: p.repository_fingerprint@,
        permissions: p.permissions@,
        recipes: p.recipes@.map_values(|a: RuntimeRecipeApplication| application_view(a)),
        operations: operations_view(p.operations@),
        diagnostics: diagnostics_view(p.diagnostics@),
        verification: strs(p.verification@),
    }
}

/// The runtime plan for the inspected files with the granted permissions:
/// the recipes applied, one operation writing the changed files (none if
/// nothing changed), the de-duplicated diagnostics, executable when there
/// is something to write and nothing blocks.
pub open spec fn runtime_plan_spec(inspection: RuntimeInspection, perms: Set<DenoPermission>) -> RuntimePlanView {
    let fold = fold_files(inspection.files@, perms);
    let diagnostics = dedup_diagnostics(raw_runtime_diagnostics(inspection, perms));
    let recipes = sort_recipes(fold.recipes);
    let mutations = sort_mutations(fold.mutations);
    let operations = if mutations.len() == 0 {
        seq![]
    } else {
        seq![runtime_operation(mutations, recipes)]
    };
    let executable = operations.len() > 0 && !any_blocking(diagnostics);
    let permissions = granted_list(perms);
    RuntimePlanView {
        schema_version: SCHEMA_VERSION@,
        plan_id: short_digest_spec(
            "runtime_plan_"@,
            runtime_identity(inspection.fingerprint@, permissions, recipes, operations, diagnostics),
        ),
        executable,
        source: "bun"@,
        target: "deno"@,
        repository_fingerprint: inspection.fingerprint@,
        permissions,
        recipes,
        operations,
        diagnostics,
        verification: seq!["planned-after-digests"@, "bun-runtime-residue"@],
    }
}

/// A runtime plan is executable exactly when it has operations and no
/// blocking diagnostic.
pub proof fn law_runtime_plan_executable(inspection: RuntimeInspection, perms: Set<DenoPermission>)
    ensures
        ({
            let p = runtime_plan_spec(inspection, perms);
            p.executable <==> p.operations.len() > 0 && !any_blocking(p.diagnostics)
        }),
{
}

/// Whether every input file can be examined by the recipes.
pub open spec fn inspection_examinable(inspection: RuntimeInspection) -> bool {
    forall|i: int|
        0 <= i < inspection.files@.len() ==> file_examinable(
            #[trigger] inspection.files@[i].path@,
            inspection.files@[i].content@,
        )
}

/// The recipe ids of the applications, in order.
fn recipe_ids(apps: &Vec<RuntimeRecipeApplication>) -> (r: Vec<String>)
    ensures
        strs(r@) == apps@.map_values(|a: RuntimeRecipeApplication| application_view(a)).map_values(
            |a: (Seq<char>, Seq<char>, usize)| a.0,
        ),
{
    let ghost target = apps@.map_values(|a: RuntimeRecipeApplication| application_view(a)).map_values(
        |a: (Seq<char>, Seq<char>, usize)| a.0,
    );
    let mut r: Vec<String> = Vec::new();
    let mut i: usize = 0;
    while i < apps.len()
        invariant
            i <= apps.len(),
            target == apps@.map_values(|a: RuntimeRecipeApplication| application_view(a)).map_values(
                |a: (Seq<char>, Seq<char>, usize)| a.0,
            ),
            strs(r@) == target.take(i as int),
        decreases apps.len() - i,
    {
        let s = apps[i].recipe_id.as_str().to_owned();
        let ghost before = r@;
        r.push(s);
        assert(strs(r@) =~= strs(before).push(s@));
        assert(target.take(i + 1) =~= target.take(i as int).push(target[i as int]));
        i = i + 1;
    }
    assert(target.take(apps.len() as int) =~= target);
    r
}

fn copy_application(a: &RuntimeRecipeApplication) -> (r: RuntimeRecipeApplication)
    ensures
        application_view(r) == application_view(*a),
{
    RuntimeRecipeApplication {
        recipe_id: a.recipe_id.as_str().to_owned(),
        path: a.path.as_str().to_owned(),
        replacements: a.replacements,
    }
}

/// The recipes applied to each file in turn (see `fold_files`).
fn fold_exec(files: &Vec<RuntimeFile>, perms: &PermissionSet) -> (r: (
    Vec<Diagnostic>,
    PermissionSet,
    Vec<RuntimeRecipeApplication>,
    Vec<PlannedFileMutation>,
))
    requires
        perms.wf(),
        forall|i: int| 0 <= i < files@.len() ==> file_examinable(#[trigger] files@[i].path@, files@[i].content@),
    ensures
        r.1.wf(),
        ({
            let f = fold_files(files@, perms@);
            &&& diagnostics_view(r.0@) == f.diagnostics
            &&& r.1@ == f.permissions
            &&& r.2@.map_values(|a: RuntimeRecipeApplication| application_view(a)) == f.recipes
            &&& mutations_view(r.3@) == f.mutations
        }),
{
    let mut diags: Vec<Diagnostic> = Vec::new();
    let mut required = PermissionSet::new();
    let mut recipes: Vec<RuntimeRecipeApplication> = Vec::new();
    let mut mutations: Vec<PlannedFileMutation> = Vec::new();
    let mut i: usize = 0;
    assert(files@.take(0) =~= Seq::<RuntimeFile>::empty());
    assert(diagnostics_view(diags@) =~= Seq::<DiagnosticView>::empty());
    assert(recipes@.map_values(|a: RuntimeRecipeApplication| application_view(a)) =~= Seq::<
        (Seq<char>, Seq<char>, usize),
    >::empty());
    assert(mutations_view(mutations@) =~= Seq::<MutationView>::empty());
    while i < files.len()
        invariant
            i <= files.len(),
            perms.wf(),
            required.wf(),
            forall|j: int| 0 <= j < files@.len() ==> file_examinable(#[trigger] files@[j].path@, files@[j].content@),
            ({
                let f = fold_files(files@.take(i as int), perms@);
                &&& diagnostics_view(diags@) == f.diagnostics
                &&& required@ == f.permissions
                &&& recipes@.map_values(|a: RuntimeRecipeApplication| application_view(a)) == f.recipes
                &&& mutations_view(mutations@) == f.mutations
            }),
        decreases files.len() - i,
    {
        let file = &files[i];
        assert(file_examinable(files@[i as int].path@, files@[i as int].content@));
        assert(files@.take(i + 1).drop_last() =~= files@.take(i as int));
        assert(files@.take(i + 1).last() == *file);
        let ghost prev_d = diagnostics_view(diags@);
        let ghost prev_r = recipes@.map_values(|a: RuntimeRecipeApplication| application_view(a));
        let ghost prev_m = mutations_view(mutations@);
        let out = transform_file(file, perms);
        required.extend(&out.required_permissions);
        let mut k: usize = 0;
        while k < out.diagnostics.len()
            invariant
                k <= out.diagnostics.len(),
                diagnostics_view(diags@) == prev_d + diagnostics_view(out.diagnostics@).take(k as int),
            decreases out.diagnostics.len() - k,
        {
            let d = out.diagnostics[k].duplicate();
            let ghost before = diags@;
            diags.push(d);
            assert(diagnostics_view(diags@) =~= diagnostics_view(before).push(d@));
            assert(diagnostics_view(out.diagnostics@).take(k + 1) =~= diagnostics_view(out.diagnostics@).take(
                k as int,
            ).push(out.diagnostics@[k as int]@));
            k = k + 1;
        }
        assert(diagnostics_view(out.diagnostics@).take(out.diagnostics.len() as int) =~= diagnostics_view(
            out.diagnostics@,
        ));
        let before_c = chars_of(file.content.as_str());
        let after_c = chars_of(out.content.as_str());
        if !chars_eq(&before_c, &after_c) {
            let caps = recipe_ids(&out.applications);
            let mut a: usize = 0;
            while a < out.applications.len()
                invariant
                    a <= out.applications.len(),
                    recipes@.map_values(|x: RuntimeRecipeApplication| application_view(x)) == prev_r
                        + out.applications@.map_values(|x: RuntimeRecipeApplication| application_view(x)).take(
                        a as int,
                    ),
                decreases out.applications.len() - a,
            {
                let x = copy_application(&out.applications[a]);
                let ghost before = recipes@;
                recipes.push(x);
                assert(recipes@.map_values(|x: RuntimeRecipeApplication| application_view(x)) =~= before.map_values(
                    |x: RuntimeRecipeApplication| application_view(x),
                ).push(application_view(x)));
                assert(out.applications@.map_values(|x: RuntimeRecipeApplication| application_view(x)).take(a + 1)
                    =~= out.applications@.map_values(|x: RuntimeRecipeApplication| application_view(x)).take(
                    a as int,
                ).push(application_view(out.applications@[a as int])));
                a = a + 1;
            }
            assert(out.applications@.map_values(|x: RuntimeRecipeApplication| application_view(x)).take(
                out.applications.len() as int,
            ) =~= out.applications@.map_values(|x: RuntimeRecipeApplication| application_view(x)));
            let m = PlannedFileMutation {
                path: file.path.as_str().to_owned(),
                action: MutationAction::Write,
                before_digest: Some(digest_text(file.content.as_str())),
                after_digest: Some(digest_text(out.content.as_str())),
                content: Some(out.content.as_str().to_owned()),
                reason: "Apply deterministic Bun-to-Deno runtime recipes and retire supported Bun residues.".to_owned(),
                capabilities: caps,
            };
            let ghost before_m = mutations@;
            mutations.push(m);
            assert(mutations_view(mutations@) =~= mutations_view(before_m).push(mutation_view(m)));
        }
        i = i + 1;
    }
    assert(files@.take(files.len() as int) =~= files@);
    (diags, required, recipes, mutations)
}

proof fn lemma_key_set_push(s: Seq<DiagnosticView>, d: DiagnosticView)
    ensures
        key_set(s.push(d)) == key_set(s).insert(diag_key(d)),
{
    assert(s.push(d).map_values(|x: DiagnosticView| diag_key(x)) =~= s.map_values(|x: DiagnosticView| diag_key(x)).push(
        diag_key(d),
    ));
    s.map_values(|x: DiagnosticView| diag_key(x)).lemma_push_to_set_commute(diag_key(d));
}

/// The first diagnostic with a key is the one at its first index.
proof fn lemma_first_with_key_at(ds: Seq<DiagnosticView>, k: Seq<Seq<char>>, i: int)
    requires
        0 <= i < ds.len(),
        diag_key(ds[i]) == k,
        forall|j: int| 0 <= j < i ==> diag_key(#[trigger] ds[j]) != k,
    ensures
        first_with_key(ds, k) == ds[i],
    decreases ds.len(),
{
    let front = ds.drop_last();
    if i < ds.len() - 1 {
        assert(front.map_values(|x: DiagnosticView| diag_key(x))[i] == k);
        assert(key_set(front).contains(k));
        assert forall|j: int| 0 <= j < i implies diag_key(#[trigger] front[j]) != k by {
            assert(front[j] == ds[j]);
        }
        lemma_first_with_key_at(front, k, i);
    } else {
        if key_set(front).contains(k) {
            let keys = front.map_values(|x: DiagnosticView| diag_key(x));
            let m = choose|m: int| 0 <= m < keys.len() && #[trigger] keys[m] == k;
            assert(diag_key(ds[m]) == k);
        }
    }
}

fn key_of(d: &Diagnostic) -> (r: Vec<Vec<char>>)
    ensures
        texts(r@) == diag_key(d@),
{
    let code = chars_of(d.code.as_str());
    let location = if d.evidence.len() > 0 {
        chars_of(d.evidence[0].location.as_str())
    } else {
        proof {
            reveal_strlit("");
        }
        let e: Vec<char> = Vec::new();
        assert(e@ =~= ""@);
        e
    };
    assert(location@ == diag_key(d@)[1]);
    let mut r: Vec<Vec<char>> = Vec::new();
    r.push(code);
    r.push(location);
    assert(texts(r@) =~= seq![code@, location@]);
    r
}

/// One diagnostic per key, the first, ordered by key (see
/// `dedup_diagnostics`).
fn dedup_exec(ds: &Vec<Diagnostic>) -> (r: Vec<Diagnostic>)
    ensures
        diagnostics_view(r@) == dedup_diagnostics(diagnostics_view(ds@)),
{
    let ghost dv = diagnostics_view(ds@);
    let mut keys: Vec<Vec<Vec<char>>> = Vec::new();
    let mut i: usize = 0;
    assert(dv.take(0) =~= Seq::<DiagnosticView>::empty());
    assert(key_set(dv.take(0)) =~= Set::empty());
    assert(list_texts(keys@).to_set() =~= Set::empty());
    while i < ds.len()
        invariant
            i <= ds.len(),
            dv == diagnostics_view(ds@),
            lists_strictly_sorted(list_texts(keys@)),
            list_texts(keys@).to_set() == key_set(dv.take(i as int)),
        decreases ds.len() - i,
    {
        let k = key_of(&ds[i]);
        proof {
            assert(dv.take(i + 1) =~= dv.take(i as int).push(dv[i as int]));
            lemma_key_set_push(dv.take(i as int), dv[i as int]);
        }
        insert_sorted_list(&mut keys, k);
        i = i + 1;
    }
    assert(dv.take(ds.len() as int) =~= dv);
    let ghost kt = list_texts(keys@);
    proof {
        assert(lists_listed(kt, key_set(dv)));
        assert(lists_listed(sorted_list_set(key_set(dv)), key_set(dv)));
        lemma_lists_sorted_unique(sorted_list_set(key_set(dv)), kt);
    }
    let ghost target = dedup_diagnostics(dv);
    let mut out: Vec<Diagnostic> = Vec::new();
    let mut j: usize = 0;
    while j < keys.len()
        invariant
            j <= keys.len(),
            dv == diagnostics_view(ds@),
            kt == list_texts(keys@),
            kt.to_set() == key_set(dv),
            target == dedup_diagnostics(dv),
            target == kt.map_values(|k: Seq<Seq<char>>| first_with_key(dv, k)),
            diagnostics_view(out@) == target.take(j as int),
        decreases keys.len() - j,
    {
        let ghost kj = kt[j as int];
        assert(kt.to_set().contains(kj));
        let mut idx: usize = 0;
        while idx < ds.len() && !lists_eq_exec(&key_of(&ds[idx]), &keys[j])
            invariant
                idx <= ds.len(),
                j < keys.len(),
                dv == diagnostics_view(ds@),
                kj == texts(keys@[j as int]@),
                forall|m: int| 0 <= m < idx ==> diag_key(#[trigger] dv[m]) != kj,
            decreases ds.len() - idx,
        {
            assert(dv[idx as int] == ds@[idx as int]@);
            idx = idx + 1;
        }
        if idx < ds.len() {
            assert(dv[idx as int] == ds@[idx as int]@);
            proof {
                lemma_first_with_key_at(dv, kj, idx as int);
            }
            let d = ds[idx].duplicate();
            let ghost before = out@;
            out.push(d);
            assert(diagnostics_view(out@) =~= diagnostics_view(before).push(d@));
            assert(target.take(j + 1) =~= target.take(j as int).push(target[j as int]));
        } else {
            proof {
                assert(key_set(dv).contains(kj));
                let keys_v = dv.map_values(|x: DiagnosticView| diag_key(x));
                let m = choose|m: int| 0 <= m < keys_v.len() && #[trigger] keys_v[m] == kj;
                assert(diag_key(dv[m]) == kj);
            }
        }
        j = j + 1;
    }
    assert(target.take(keys.len() as int) =~= target);
    out
}

pub open spec fn recipes_view(v: Seq<RuntimeRecipeApplication>) -> Seq<(Seq<char>, Seq<char>, usize)> {
    v.map_values(|a: RuntimeRecipeApplication| application_view(a))
}

proof fn lemma_insert_recipe(s: Seq<(Seq<char>, Seq<char>, usize)>, e: (Seq<char>, Seq<char>, usize), j: int)
    requires
        0 <= j <= s.len(),
        forall|k: int| j <= k < s.len() ==> recipe_lt(e, #[trigger] s[k]),
        j == 0 || !recipe_lt(e, s[j - 1]),
    ensures
        insert_recipe(s, e) == s.insert(j, e),
    decreases s.len(),
{
    if s.len() == 0 {
        assert(s.insert(j, e) =~= seq![e]);
    } else if !recipe_lt(e, s.last()) {
        assert(j == s.len());
        assert(s.insert(j, e) =~= s.push(e));
    } else {
        lemma_insert_recipe(s.drop_last(), e, j);
        assert(s.drop_last().insert(j, e).push(s.last()) =~= s.insert(j, e));
    }
}

fn recipe_lt_exec(a: &RuntimeRecipeApplication, b: &RuntimeRecipeApplication) -> (r: bool)
    ensures
        r == recipe_lt(application_view(*a), application_view(*b)),
{
    let ap = chars_of(a.path.as_str());
    let bp = chars_of(b.path.as_str());
    let ai = chars_of(a.recipe_id.as_str());
    let bi = chars_of(b.recipe_id.as_str());
    chars_lt(&ap, &bp) || (chars_eq(&ap, &bp) && chars_lt(&ai, &bi))
}

/// The applications ordered by path and recipe (see `sort_recipes`).
fn sorted_recipes(v: Vec<RuntimeRecipeApplication>) -> (r: Vec<RuntimeRecipeApplication>)
    ensures
        recipes_view(r@) == sort_recipes(recipes_view(v@)),
{
    let ghost all = recipes_view(v@);
    let total = v.len();
    let mut rest = v;
    let mut out: Vec<RuntimeRecipeApplication> = Vec::new();
    let mut k: usize = 0;
    while k < total
        invariant
            k <= total == all.len(),
            rest@.len() == total - k,
            recipes_view(rest@) == all.skip(k as int),
            recipes_view(out@) == sort_recipes(all.take(k as int)),
        decreases total - k,
    {
        let ghost rv = rest@;
        let e = rest.remove(0);
        assert forall|j: int| 0 <= j < rest@.len() implies application_view(#[trigger] rest@[j]) == all.skip(k + 1)[j] by {
            assert(rest@[j] == rv[j + 1]);
            assert(all.skip(k + 1)[j] == all.skip(k as int)[j + 1]);
        }
        assert(recipes_view(rest@) =~= all.skip(k + 1));
        assert(application_view(e) == all[k as int]) by {
            assert(recipes_view(rv)[0] == all.skip(k as int)[0]);
        }
        assert(all.take(k + 1).drop_last() =~= all.take(k as int));
        let ghost cur = recipes_view(out@);
        let mut q = out.len();
        while q > 0 && recipe_lt_exec(&e, &out[q - 1])
            invariant
                q <= out.len(),
                cur == recipes_view(out@),
                forall|i: int| q <= i < cur.len() ==> recipe_lt(application_view(e), #[trigger] cur[i]),
            decreases q,
        {
            q = q - 1;
        }
        proof {
            lemma_insert_recipe(cur, application_view(e), q as int);
        }
        out.insert(q, e);
        assert(recipes_view(out@) =~= cur.insert(q as int, application_view(e)));
        k = k + 1;
    }
    assert(all.take(total as int) =~= all);
    out
}

proof fn lemma_insert_mutation(s: Seq<MutationView>, e: MutationView, j: int)
    requires
        0 <= j <= s.len(),
        forall|k: int| j <= k < s.len() ==> seq_lt(e.path, #[trigger] s[k].path),
        j == 0 || !seq_lt(e.path, s[j - 1].path),
    ensures
        insert_mutation(s, e) == s.insert(j, e),
    decreases s.len(),
{
    if s.len() == 0 {
        assert(s.insert(j, e) =~= seq![e]);
    } else if !seq_lt(e.path, s.last().path) {
        assert(j == s.len());
        assert(s.insert(j, e) =~= s.push(e));
    } else {
        lemma_insert_mutation(s.drop_last(), e, j);
        assert(s.drop_last().insert(j, e).push(s.last()) =~= s.insert(j, e));
    }
}

/// The writes ordered by path (see `sort_mutations`).
fn sorted_mutations(v: Vec<PlannedFileMutation>) -> (r: Vec<PlannedFileMutation>)
    ensures
        mutations_view(r@) == sort_mutations(mutations_view(v@)),
{
    let ghost all = mutations_view(v@);
    let total = v.len();
    let mut rest = v;
    let mut out: Vec<PlannedFileMutation> = Vec::new();
    let mut k: usize = 0;
    while k < total
        invariant
            k <= total == all.len(),
            rest@.len() == total - k,
            mutations_view(rest@) == all.skip(k as int),
            mutations_view(out@) == sort_mutations(all.take(k as int)),
        decreases total - k,
    {
        let ghost rv = rest@;
        let e = rest.remove(0);
        assert forall|j: int| 0 <= j < rest@.len() implies mutation_view(#[trigger] rest@[j]) == all.skip(k + 1)[j] by {
            assert(rest@[j] == rv[j + 1]);
            assert(all.skip(k + 1)[j] == all.skip(k as int)[j + 1]);
        }
        assert(mutations_view(rest@) =~= all.skip(k + 1));
        assert(mutation_view(e) == all[k as int]) by {
            assert(mutations_view(rv)[0] == all.skip(k as int)[0]);
        }
        assert(all.take(k + 1).drop_last() =~= all.take(k as int));
        let ghost cur = mutations_view(out@);
        let ep = chars_of(e.path.as_str());
        let mut q = out.len();
        while q > 0 && chars_lt(&ep, &chars_of(out[q - 1].path.as_str()))
            invariant
                q <= out.len(),
                ep@ == e.path@,
                cur == mutations_view(out@),
                forall|i: int| q <= i < cur.len() ==> seq_lt(e.path@, #[trigger] cur[i].path),
            decreases q,
        {
            q = q - 1;
        }
        proof {
            lemma_insert_mutation(cur, mutation_view(e), q as int);
        }
        out.insert(q, e);
        assert(mutations_view(out@) =~= cur.insert(q as int, mutation_view(e)));
        k = k + 1;
    }
    assert(all.take(total as int) =~= all);
    out
}

fn two_strings(a: &str, b: &str) -> (r: Vec<String>)
    ensures
        strs(r@) == seq![a@, b@],
{
    let mut r: Vec<String> = Vec::new();
    r.push(a.to_owned());
    r.push(b.to_owned());
    assert(strs(r@) =~= seq![a@, b@]);
    r
}

/// The operation that writes the changed files (see `runtime_operation`).
fn runtime_operation_exec(mutations: Vec<PlannedFileMutation>, recipes: &Vec<RuntimeRecipeApplication>) -> (r: PlannedOperation)
    ensures
        operation_view(r) == runtime_operation(mutations_view(mutations@), recipes_view(recipes@)),
{
    let ghost mv = mutations_view(mutations@);
    let mut paths: Vec<String> = Vec::new();
    let mut i: usize = 0;
    while i < mutations.len()
        invariant
            i <= mutations.len(),
            mv == mutations_view(mutations@),
            strs(paths@) == mv.map_values(|m: MutationView| m.path).take(i as int),
        decreases mutations.len() - i,
    {
        let p = mutations[i].path.as_str().to_owned();
        let ghost before = paths@;
        paths.push(p);
        assert(strs(paths@) =~= strs(before).push(p@));
        assert(mv.map_values(|m: MutationView| m.path).take(i + 1) =~= mv.map_values(|m: MutationView| m.path).take(
            i as int,
        ).push(mv[i as int].path));
        i = i + 1;
    }
    assert(mv.map_values(|m: MutationView| m.path).take(mutations.len() as int) =~= mv.map_values(
        |m: MutationView| m.path,
    ));
    let ghost ids = recipes_view(recipes@).map_values(|r: (Seq<char>, Seq<char>, usize)| r.0);
    let mut v: Vec<Vec<char>> = Vec::new();
    let mut k: usize = 0;
    assert(ids.take(0).to_set() =~= Set::empty());
    assert(texts(v@).to_set() =~= Set::empty());
    while k < recipes.len()
        invariant
            k <= recipes.len(),
            ids == recipes_view(recipes@).map_values(|r: (Seq<char>, Seq<char>, usize)| r.0),
            strictly_sorted(texts(v@)),
            texts(v@).to_set() == ids.take(k as int).to_set(),
        decreases recipes.len() - k,
    {
        let c = chars_of(recipes[k].recipe_id.as_str());
        insert_sorted(&mut v, c);
        proof {
            assert(ids.take(k + 1) =~= ids.take(k as int).push(c@));
            ids.take(k as int).lemma_push_to_set_commute(c@);
        }
        k = k + 1;
    }
    assert(ids.take(recipes.len() as int) =~= ids);
    let capabilities = sorted_strings(&v, Ghost(ids.to_set()));
    let r = PlannedOperation {
        id: "runtime.apply-recipes".to_owned(),
        phase: "apply".to_owned(),
        kind: "runtime.recipe-application".to_owned(),
        description: "Apply digest-bound Bun-to-Deno source, script, and type recipes.".to_owned(),
        paths,
        command: Vec::new(),
        timeout_seconds: None,
        capabilities,
        side_effect: SideEffect::RepositoryWrite,
        reversible: true,
        preconditions: two_strings(
            "Every mutation target still matches its reviewed beforeDigest.",
            "The runtime repository fingerprint still matches the plan baseline.",
        ),
        postconditions: two_strings(
            "Every mutation target matches its planned afterDigest.",
            "No Bun runtime residue remains in the supported inspection boundary.",
        ),
        mutations,
    };
    assert(strs(r.command@) =~= Seq::<Seq<char>>::empty());
    r
}

/// The diagnostics before de-duplication (see `raw_runtime_diagnostics`).
fn raw_diagnostics_exec(
    inspection: &RuntimeInspection,
    perms: &PermissionSet,
    fold_diags: &Vec<Diagnostic>,
    required: &PermissionSet,
    no_mutations: bool,
) -> (r: Vec<Diagnostic>)
    requires
        perms.wf(),
        required.wf(),
        diagnostics_view(fold_diags@) == fold_files(inspection.files@, perms@).diagnostics,
        required@ == fold_files(inspection.files@, perms@).permissions,
        no_mutations == (fold_files(inspection.files@, perms@).mutations.len() == 0),
    ensures
        diagnostics_view(r@) == raw_runtime_diagnostics(*inspection, perms@),
{
    let mut out: Vec<Diagnostic> = Vec::new();
    assert(diagnostics_view(out@) =~= Seq::<DiagnosticView>::empty());
    extend_copies(&mut out, &inspection.input_diagnostics);
    assert(diagnostics_view(out@) =~= diagnostics_view(inspection.input_diagnostics@));
    if inspection.bun_evidence.len() == 0 && inspection.input_diagnostics.len() == 0 {
        let mut rem: Vec<String> = Vec::new();
        rem.push(
            "Run this command from a Bun runtime project root, or use package-manager migration commands for lockfile-only changes.".to_owned(),
        );
        let d = Diagnostic::blocking(
            "RUNTIME_BUN_SOURCE_NOT_DETECTED",
            "No Bun runtime API, import, script, type dependency, or configuration evidence was detected.",
            rem,
        );
        assert(d@.evidence =~= no_evidence());
        assert(d@.remediation =~= not_detected().remediation);
        push_diagnostic(&mut out, d);
    }
    extend_copies(&mut out, fold_diags);
    let missing = required.difference_vec(perms);
    let ghost base = diagnostics_view(out@);
    let ghost mp = missing_permissions(required@, perms@).map_values(|p: DenoPermission| permission_required(p));
    assert(missing@ == missing_permissions(required@, perms@));
    let mut i: usize = 0;
    while i < missing.len()
        invariant
            i <= missing.len(),
            missing@ == missing_permissions(required@, perms@),
            mp == missing_permissions(required@, perms@).map_values(|p: DenoPermission| permission_required(p)),
            diagnostics_view(out@) == base + mp.take(i as int),
        decreases missing.len() - i,
    {
        let p = missing[i];
        let mut summary = chars_of("The planned runtime recipes require the explicit Deno '");
        push_str(&mut summary, p.name());
        push_str(&mut summary, "' permission.");
        let mut detail = chars_of("required permission: ");
        push_str(&mut detail, p.name());
        let mut remediation = chars_of("Retry with --deno-permission ");
        push_str(&mut remediation, p.name());
        push_str(&mut remediation, " after reviewing the access requirement.");
        let mut evidence: Vec<EvidenceDetail> = Vec::new();
        evidence.push(EvidenceDetail { location: "runtime-plan".to_owned(), detail: string_of(&detail) });
        let mut rem: Vec<String> = Vec::new();
        rem.push(string_of(&remediation));
        let d = Diagnostic {
            code: "DENO_PERMISSION_REQUIRED".to_owned(),
            severity: DiagnosticSeverity::Error,
            summary: string_of(&summary),
            blocking: true,
            evidence,
            remediation: rem,
        };
        assert(d@.evidence =~= permission_required(p).evidence);
        assert(d@.remediation =~= permission_required(p).remediation);
        assert(d@ == mp[i as int]);
        push_diagnostic(&mut out, d);
        assert(mp.take(i + 1) =~= mp.take(i as int).push(mp[i as int]));
        i = i + 1;
    }
    assert(mp.take(missing.len() as int) =~= mp);
    if inspection.bun_evidence.len() > 0 && no_mutations {
        let mut rem: Vec<String> = Vec::new();
        rem.push("Resolve the reported unsupported APIs before retrying.".to_owned());
        let d = Diagnostic::blocking(
            "RUNTIME_NO_SAFE_RECIPES",
            "Bun runtime evidence was detected, but no safe deterministic mutation was available.",
            rem,
        );
        assert(d@.evidence =~= no_evidence());
        assert(d@.remediation =~= no_safe_recipes().remediation);
        push_diagnostic(&mut out, d);
    }
    out
}

fn push_recipes_counted(out: &mut Vec<char>, rs: &Vec<RuntimeRecipeApplication>)
    ensures
        final(out)@ == old(out)@ + counted(recipes_view(rs@).map_values(|r: (Seq<char>, Seq<char>, usize)| recipe_text(r))),
{
    let ghost o = out@;
    let ghost items = recipes_view(rs@).map_values(|r: (Seq<char>, Seq<char>, usize)| recipe_text(r));
    push_counted_start(out, rs.len());
    let ghost base = out@;
    let mut i: usize = 0;
    while i < rs.len()
        invariant
            i <= rs.len(),
            items == recipes_view(rs@).map_values(|r: (Seq<char>, Seq<char>, usize)| recipe_text(r)),
            out@ == base + concat_texts(items.take(i as int)),
        decreases rs.len() - i,
    {
        let ghost b = out@;
        push_text(out, &rs[i].recipe_id);
        push_text(out, &rs[i].path);
        let d = crate::digest::decimal_exec(rs[i].replacements);
        crate::digest::push_frame(out, &d);
        assert(out@ =~= b + items[i as int]);
        proof {
            lemma_concat_step(items, i as int);
        }
        assert(out@ =~= base + concat_texts(items.take(i + 1)));
        i = i + 1;
    }
    assert(items.take(rs.len() as int) =~= items);
    assert(out@ =~= o + counted(items));
}

/// Whether every inspected file can be examined by the recipes (a plan can
/// be made only then).
pub fn runtime_plan_examinable(inspection: &RuntimeInspection) -> (r: bool)
    ensures
        r == inspection_examinable(*inspection),
{
    let mut i: usize = 0;
    while i < inspection.files.len()
        invariant
            i <= inspection.files.len(),
            forall|j: int|
                0 <= j < i ==> file_examinable(#[trigger] inspection.files@[j].path@, inspection.files@[j].content@),
        decreases inspection.files.len() - i,
    {
        if !can_transform_file(&inspection.files[i]) {
            return false;
        }
        i = i + 1;
    }
    true
}

/// The runtime plan for the inspected files with the granted permissions
/// (see `runtime_plan_spec`).
pub fn create_runtime_plan(inspection: &RuntimeInspection, permissions: &PermissionSet) -> (r: RuntimeMigrationPlan)
    requires
        permissions.wf(),
        inspection_examinable(*inspection),
    ensures
        runtime_plan_view(r) == runtime_plan_spec(*inspection, permissions@),
{
    let (fold_diags, required, recipes, mutations) = fold_exec(&inspection.files, permissions);
    let no_mutations = mutations.len() == 0;
    let raw = raw_diagnostics_exec(inspection, permissions, &fold_diags, &required, no_mutations);
    let diagnostics = dedup_exec(&raw);
    let recipes = sorted_recipes(recipes);
    let mutations = sorted_mutations(mutations);
    let mut operations: Vec<PlannedOperation> = Vec::new();
    if mutations.len() > 0 {
        let op = runtime_operation_exec(mutations, &recipes);
        operations.push(op);
        assert(operations_view(operations@) =~= seq![operation_view(op)]);
    } else {
        assert(operations_view(operations@) =~= Seq::<OperationView>::empty());
    }
    let executable = operations.len() > 0 && !has_blocking(&diagnostics);
    let granted = permissions.to_vec();
    let mut names: Vec<String> = Vec::new();
    let mut i: usize = 0;
    while i < granted.len()
        invariant
            i <= granted.len(),
            strs(names@) == granted@.take(i as int).map_values(|p: DenoPermission| permission_name(p)),
        decreases granted.len() - i,
    {
        let n = granted[i].name().to_owned();
        let ghost before = names@;
        names.push(n);
        assert(strs(names@) =~= strs(before).push(n@));
        assert(granted@.take(i + 1).map_values(|p: DenoPermission| permission_name(p)) =~= granted@.take(
            i as int,
        ).map_values(|p: DenoPermission| permission_name(p)).push(permission_name(granted@[i as int])));
        i = i + 1;
    }
    assert(granted@.take(granted.len() as int) =~= granted@);
    let mut text: Vec<char> = Vec::new();
    push_name(&mut text, SCHEMA_VERSION);
    push_name(&mut text, "bun");
    push_name(&mut text, "deno");
    push_text(&mut text, &inspection.fingerprint);
    push_texts(&mut text, &names);
    push_recipes_counted(&mut text, &recipes);
    push_operations_counted(&mut text, &operations);
    push_diagnostics_counted(&mut text, &diagnostics);
    assert(text@ =~= runtime_identity(
        inspection.fingerprint@,
        granted@,
        recipes_view(recipes@),
        operations_view(operations@),
        diagnostics_view(diagnostics@),
    ));
    let plan_id = short_digest("runtime_plan_", &text);
    RuntimeMigrationPlan {
        schema_version: SCHEMA_VERSION.to_owned(),
        plan_id,
        executable,
        source: "bun".to_owned(),
        target: "deno".to_owned(),
        repository_fingerprint: inspection.fingerprint.as_str().to_owned(),
        permissions: granted,
        recipes,
        operations,
        diagnostics,
        verification: two_strings("planned-after-digests", "bun-runtime-residue"),
    }
}

} // verus!
