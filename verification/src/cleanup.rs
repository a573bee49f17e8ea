//! Pre-migration dependency state: the operation that removes the packages'
//! local `node_modules` before the target install, and the checks that
//! confirm the source manager's traces are gone.
use vstd::prelude::*;
use crate::catalog::{configuration_files_spec, get_package_manager, lockfiles_spec, statics};
use crate::checks::{check_view, keep_present, pass_fail, CheckView};
use crate::digest::{decimal, decimal_exec};
use crate::model::{
    DependencyStateCleanupRecord, MigrationPlan, PackageManagerId, PlannedOperation, ProjectIr, SideEffect,
    VerificationCheck, VerificationStatus,
};
use crate::plan::{op_id, op_id_exec, operation_view, operations_view, OperationView};
use crate::text::{
    chars_eq, contains_seq, ends_with, is_ascii_alnum, is_ascii_alnum_exec, matches_at, matches_at_exec, push_chars,
    str_contains, str_ends_with, string_of,
};
use crate::json::{
    as_object, find_member, get, get_member, json_view, member_index, members_view, object_members, read_json,
    serde_json_read, Json, JsonValue,
};
use crate::model::{diagnostics_view, Diagnostic, DiagnosticSeverity, DiagnosticView, EvidenceDetail};
use crate::project_ir::{find_manifest, manifest_text, manifests_view};
use crate::sorted::{
    insert_sorted_list, lemma_lists_sorted_unique, list_texts, lists_listed, lists_strictly_sorted, sorted_list_set,
};
use crate::project_ir::{package_view, packages_view, PackageView};
use crate::sorted::{insert_sorted, lists_sorted, sorted_set, sorted_strings};
use crate::text::{chars_of, push_str, str_eq, strictly_sorted, strs, texts};

verus! {

/// The kind of the cleanup operation.
pub const OPERATION_KIND: &'static str = "dependency.clean-source-state";

/// The local dependency directory of a package directory.
pub open spec fn node_modules_path(package_path: Seq<char>) -> Seq<char> {
    if package_path == "."@ {
        "node_modules"@
    } else {
        package_path + "/node_modules"@
    }
}

/// The local dependency directories of the packages.
pub open spec fn cleanup_paths(packages: Seq<PackageView>) -> Set<Seq<char>> {
    Set::new(|p: Seq<char>| exists|i: int| 0 <= i < packages.len() && p == node_modules_path(#[trigger] packages[i].path))
}

/// The operation that removes the packages' local dependency state.
pub open spec fn cleanup_operation(index: nat, packages: Seq<PackageView>) -> OperationView {
    OperationView {
        id: op_id(index),
        phase: "install"@,
        kind: OPERATION_KIND@,
        description: "Remove pre-migration local dependency state before the target install."@,
        paths: sorted_set(cleanup_paths(packages)),
        command: seq![],
        timeout_seconds: None,
        capabilities: seq![],
        side_effect: SideEffect::DependencyState,
        reversible: false,
        preconditions: seq!["Cleanup paths are package-local node_modules directories from the accepted project IR."@],
        postconditions: seq!["No pre-migration local dependency state remains before target installation."@],
        mutations: seq![],
    }
}

fn node_modules_exec(package_path: &str) -> (r: Vec<char>)
    ensures
        r@ == node_modules_path(package_path@),
{
    let c = chars_of(package_path);
    if str_eq(&c, ".") {
        chars_of("node_modules")
    } else {
        let mut m = c;
        push_str(&mut m, "/node_modules");
        m
    }
}

fn one_line(s: &str) -> (r: Vec<String>)
    ensures
        strs(r@) == seq![s@],
{
    let mut r: Vec<String> = Vec::new();
    r.push(s.to_owned());
    assert(strs(r@) =~= seq![s@]);
    r
}

/// The cleanup operation at position `index` for the project's packages.
pub fn plan_operation(index: usize, project: &ProjectIr) -> (r: PlannedOperation)
    ensures
        crate::plan::operation_view(r) == cleanup_operation(index as nat, packages_view(project.packages@)),
{
    let ghost pv = packages_view(project.packages@);
    let mut v: Vec<Vec<char>> = Vec::new();
    let mut i: usize = 0;
    assert(cleanup_paths(pv.take(0)) =~= Set::empty());
    assert(texts(v@).to_set() =~= Set::empty());
    while i < project.packages.len()
        invariant
            i <= project.packages.len(),
            pv == packages_view(project.packages@),
            strictly_sorted(texts(v@)),
            texts(v@).to_set() == cleanup_paths(pv.take(i as int)),
        decreases project.packages.len() - i,
    {
        let p = node_modules_exec(project.packages[i].path.as_str());
        insert_sorted(&mut v, p);
        proof {
            let a = pv.take(i as int);
            let b = pv.take(i + 1);
            assert(b[i as int] == package_view(project.packages@[i as int]));
            assert forall|x: Seq<char>| cleanup_paths(b).contains(x) <==> cleanup_paths(a).insert(p@).contains(x) by {
                if cleanup_paths(b).contains(x) {
                    let k = choose|k: int| 0 <= k < b.len() && x == node_modules_path(#[trigger] b[k].path);
                    if k < i {
                        assert(a[k] == b[k]);
                    }
                }
                if cleanup_paths(a).contains(x) {
                    let k = choose|k: int| 0 <= k < a.len() && x == node_modules_path(#[trigger] a[k].path);
                    assert(b[k] == a[k]);
                }
                if x == p@ {
                    assert(x == node_modules_path(b[i as int].path));
                }
            }
            assert(cleanup_paths(b) =~= cleanup_paths(a).insert(p@));
        }
        i = i + 1;
    }
    assert(pv.take(project.packages.len() as int) =~= pv);
    let paths = sorted_strings(&v, Ghost(cleanup_paths(pv)));
    let r = PlannedOperation {
        id: op_id_exec(index),
        phase: "install".to_owned(),
        kind: OPERATION_KIND.to_owned(),
        description: "Remove pre-migration local dependency state before the target install.".to_owned(),
        paths,
        command: Vec::new(),
        timeout_seconds: None,
        capabilities: Vec::new(),
        side_effect: SideEffect::DependencyState,
        reversible: false,
        preconditions: one_line("Cleanup paths are package-local node_modules directories from the accepted project IR."),
        postconditions: one_line("No pre-migration local dependency state remains before target installation."),
        mutations: Vec::new(),
    };
    assert(strs(r.command@) =~= Seq::<Seq<char>>::empty());
    assert(strs(r.capabilities@) =~= Seq::<Seq<char>>::empty());
    assert(crate::plan::mutations_view(r.mutations@) =~= Seq::<crate::plan::MutationView>::empty());
    r
}

/// The cleanup operations of a list of operations, in order.
pub open spec fn cleanup_ops(ops: Seq<OperationView>) -> Seq<OperationView>
    decreases ops.len(),
{
    if ops.len() == 0 {
        seq![]
    } else {
        cleanup_ops(ops.drop_last()) + if ops.last().kind == OPERATION_KIND@ {
            seq![ops.last()]
        } else {
            seq![]
        }
    }
}

/// What a cleanup record says: the operation it is for, and the paths it
/// removed and found absent.
pub struct RecordView {
    pub operation_id: Seq<char>,
    pub removed_paths: Seq<Seq<char>>,
    pub absent_paths: Seq<Seq<char>>,
}

pub open spec fn record_view(r: DependencyStateCleanupRecord) -> RecordView {
    RecordView { operation_id: r.operation_id@, removed_paths: strs(r.removed_paths@), absent_paths: strs(r.absent_paths@) }
}

/// The first record of an operation.
pub open spec fn find_record(records: Seq<RecordView>, id: Seq<char>) -> Option<RecordView>
    decreases records.len(),
{
    if records.len() == 0 {
        None
    } else if records[0].operation_id == id {
        Some(records[0])
    } else {
        find_record(records.drop_first(), id)
    }
}

pub open spec fn prefixed(prefix: Seq<char>, s: Seq<Seq<char>>) -> Seq<Seq<char>> {
    s.map_values(|p: Seq<char>| prefix + p)
}

/// The evidence a record gives.
pub open spec fn record_evidence(r: RecordView) -> Seq<Seq<char>> {
    prefixed("removed:"@, r.removed_paths) + prefixed("alreadyAbsent:"@, r.absent_paths)
}

/// Whether a record accounts for exactly the operation's paths.
pub open spec fn record_complete(r: RecordView, op: OperationView) -> bool {
    (r.removed_paths + r.absent_paths).to_set() == op.paths.to_set()
}

/// Whether every cleanup operation, in order, has a complete record, with
/// the evidence gathered up to the first that does not.
pub open spec fn walk_records(ops: Seq<OperationView>, records: Seq<RecordView>) -> (bool, Seq<Seq<char>>)
    decreases ops.len(),
{
    if ops.len() == 0 {
        (true, seq![])
    } else {
        match find_record(records, ops[0].id) {
            None => (false, seq!["missingRecord:"@ + ops[0].id]),
            Some(r) => if record_complete(r, ops[0]) {
                let rest = walk_records(ops.drop_first(), records);
                (rest.0, record_evidence(r) + rest.1)
            } else {
                (false, record_evidence(r))
            },
        }
    }
}

/// The check that the pre-migration dependency state was removed: skipped
/// for a plan without cleanup operations, passed when every cleanup
/// operation has a record accounting for exactly its paths.
pub open spec fn clean_install_spec(plan: MigrationPlan, records: Seq<RecordView>) -> CheckView {
    let ops = cleanup_ops(operations_view(plan.operations@));
    let w = walk_records(ops, records);
    CheckView {
        id: "clean-target-install"@,
        status: if ops.len() == 0 {
            VerificationStatus::Skipped
        } else if w.0 {
            VerificationStatus::Passed
        } else {
            VerificationStatus::Failed
        },
        summary: if ops.len() == 0 {
            "The stored plan predates explicit local dependency-state cleanup."@
        } else if w.0 {
            "Pre-migration local dependency state was removed before target installation."@
        } else {
            "Pre-migration local dependency-state cleanup is incomplete."@
        },
        evidence: w.1,
    }
}

pub open spec fn records_view(v: Seq<DependencyStateCleanupRecord>) -> Seq<RecordView> {
    v.map_values(|r: DependencyStateCleanupRecord| record_view(r))
}

fn cleanup_ops_exec(ops: &Vec<PlannedOperation>) -> (r: Vec<usize>)
    ensures
        r@.len() == cleanup_ops(operations_view(ops@)).len(),
        forall|j: int| 0 <= j < r@.len() ==> #[trigger] r@[j] < ops@.len() && operation_view(ops@[r@[j] as int])
            == cleanup_ops(operations_view(ops@))[j],
{
    let ghost ov = operations_view(ops@);
    let mut r: Vec<usize> = Vec::new();
    let mut i: usize = 0;
    assert(cleanup_ops(ov.take(0)) =~= Seq::<OperationView>::empty());
    while i < ops.len()
        invariant
            i <= ops.len(),
            ov == operations_view(ops@),
            r@.len() == cleanup_ops(ov.take(i as int)).len(),
            forall|j: int| 0 <= j < r@.len() ==> #[trigger] r@[j] < ops@.len() && operation_view(ops@[r@[j] as int])
                == cleanup_ops(ov.take(i as int))[j],
        decreases ops.len() - i,
    {
        assert(ov.take(i + 1).drop_last() =~= ov.take(i as int));
        assert(ov.take(i + 1).last() == operation_view(ops@[i as int]));
        let c = chars_of(ops[i].kind.as_str());
        if str_eq(&c, OPERATION_KIND) {
            r.push(i);
        }
        i = i + 1;
    }
    assert(ov.take(ops.len() as int) =~= ov);
    r
}

fn find_record_exec(records: &[DependencyStateCleanupRecord], id: &String) -> (r: Option<usize>)
    ensures
        match r {
            Some(k) => k < records@.len() && find_record(records_view(records@), id@) == Some(record_view(records@[k as int])),
            None => find_record(records_view(records@), id@) is None,
        },
{
    let ghost rv = records_view(records@);
    assert(rv.skip(0) =~= rv);
    let idc = chars_of(id.as_str());
    let mut i: usize = 0;
    while i < records.len()
        invariant
            i <= records.len(),
            idc@ == id@,
            rv == records_view(records@),
            find_record(rv, id@) == find_record(rv.skip(i as int), id@),
        decreases records.len() - i,
    {
        assert(rv.skip(i as int)[0] == rv[i as int]);
        assert(rv.skip(i as int).drop_first() =~= rv.skip(i + 1));
        let c = chars_of(records[i].operation_id.as_str());
        if chars_eq(&c, &idc) {
            return Some(i);
        }
        i = i + 1;
    }
    None
}

fn push_prefixed(out: &mut Vec<String>, prefix: &str, v: &Vec<String>)
    ensures
        strs(final(out)@) == strs(old(out)@) + prefixed(prefix@, strs(v@)),
{
    let ghost base = strs(out@);
    let mut i: usize = 0;
    while i < v.len()
        invariant
            i <= v.len(),
            strs(out@) == base + prefixed(prefix@, strs(v@)).take(i as int),
        decreases v.len() - i,
    {
        let mut t = chars_of(prefix);
        push_str(&mut t, v[i].as_str());
        let s = string_of(&t);
        let ghost before = out@;
        out.push(s);
        assert(strs(out@) =~= strs(before).push(s@));
        assert(prefixed(prefix@, strs(v@)).take(i + 1) =~= prefixed(prefix@, strs(v@)).take(i as int).push(
            prefix@ + v@[i as int]@,
        ));
        i = i + 1;
    }
    assert(prefixed(prefix@, strs(v@)).take(v.len() as int) =~= prefixed(prefix@, strs(v@)));
}

fn contains_text(v: &Vec<String>, x: &[char]) -> (r: bool)
    ensures
        r == strs(v@).contains(x@),
{
    let mut i: usize = 0;
    while i < v.len()
        invariant
            i <= v.len(),
            forall|j: int| 0 <= j < i ==> strs(v@)[j] != x@,
        decreases v.len() - i,
    {
        let c = chars_of(v[i].as_str());
        assert(strs(v@)[i as int] == v@[i as int]@);
        if chars_eq(&c, x) {
            return true;
        }
        i = i + 1;
    }
    false
}

/// Whether every member of `a` is in `b` or `c`.
fn all_within(a: &Vec<String>, b: &Vec<String>, c: &Vec<String>) -> (r: bool)
    ensures
        r == (forall|i: int| 0 <= i < a@.len() ==> (strs(b@) + strs(c@)).contains(#[trigger] strs(a@)[i])),
{
    let mut i: usize = 0;
    while i < a.len()
        invariant
            i <= a.len(),
            forall|j: int| 0 <= j < i ==> (strs(b@) + strs(c@)).contains(#[trigger] strs(a@)[j]),
        decreases a.len() - i,
    {
        let x = chars_of(a[i].as_str());
        assert(strs(a@)[i as int] == x@);
        let inb = contains_text(b, &x);
        let inc = contains_text(c, &x);
        proof {
            if inb {
                let k = choose|k: int| 0 <= k < strs(b@).len() && strs(b@)[k] == x@;
                assert((strs(b@) + strs(c@))[k] == x@);
            }
            if inc {
                let k = choose|k: int| 0 <= k < strs(c@).len() && strs(c@)[k] == x@;
                assert((strs(b@) + strs(c@))[strs(b@).len() + k] == x@);
            }
            if !inb && !inc {
                if (strs(b@) + strs(c@)).contains(x@) {
                    let k = choose|k: int| 0 <= k < (strs(b@) + strs(c@)).len() && (strs(b@) + strs(c@))[k] == x@;
                    if k < strs(b@).len() {
                        assert(strs(b@)[k] == x@);
                    } else {
                        assert(strs(c@)[k - strs(b@).len()] == x@);
                    }
                }
            }
        }
        if !inb && !inc {
            return false;
        }
        i = i + 1;
    }
    true
}

fn record_complete_exec(r: &DependencyStateCleanupRecord, op: &PlannedOperation) -> (b: bool)
    ensures
        b == record_complete(record_view(*r), operation_view(*op)),
{
    let ghost rec = strs(r.removed_paths@) + strs(r.absent_paths@);
    let ghost exp = strs(op.paths@);
    let nothing: Vec<String> = Vec::new();
    let forward = all_within(&r.removed_paths, &op.paths, &nothing);
    let forward2 = all_within(&r.absent_paths, &op.paths, &nothing);
    let backward = all_within(&op.paths, &r.removed_paths, &r.absent_paths);
    proof {
        let empty: Seq<Seq<char>> = strs(nothing@);
        assert(exp + empty =~= exp);
        if forward && forward2 && backward {
            assert forall|x: Seq<char>| rec.to_set().contains(x) <==> exp.to_set().contains(x) by {
                if rec.to_set().contains(x) {
                    let k = choose|k: int| 0 <= k < rec.len() && rec[k] == x;
                    if k < strs(r.removed_paths@).len() {
                        assert(strs(r.removed_paths@)[k] == x);
                    } else {
                        assert(strs(r.absent_paths@)[k - strs(r.removed_paths@).len()] == x);
                    }
                }
                if exp.to_set().contains(x) {
                    let k = choose|k: int| 0 <= k < exp.len() && exp[k] == x;
                    assert(rec.contains(exp[k]));
                }
            }
            assert(rec.to_set() =~= exp.to_set());
        } else if !forward {
            let i = choose|i: int| 0 <= i < r.removed_paths@.len() && !(exp + empty).contains(#[trigger] strs(r.removed_paths@)[i]);
            assert(rec[i] == strs(r.removed_paths@)[i]);
            assert(rec.to_set().contains(rec[i]));
        } else if !forward2 {
            let i = choose|i: int| 0 <= i < r.absent_paths@.len() && !(exp + empty).contains(#[trigger] strs(r.absent_paths@)[i]);
            assert(rec[strs(r.removed_paths@).len() + i] == strs(r.absent_paths@)[i]);
            assert(rec.to_set().contains(strs(r.absent_paths@)[i]));
        } else {
            let i = choose|i: int| 0 <= i < op.paths@.len() && !rec.contains(#[trigger] exp[i]);
            assert(exp.to_set().contains(exp[i]));
        }
    }
    forward && forward2 && backward
}

/// The check that the pre-migration dependency state was removed (see
/// `clean_install_spec`).
pub fn clean_install_check(plan: &MigrationPlan, records: &[DependencyStateCleanupRecord]) -> (r: VerificationCheck)
    ensures
        check_view(r) == clean_install_spec(*plan, records_view(records@)),
{
    let ghost ov = operations_view(plan.operations@);
    let ghost cops = cleanup_ops(ov);
    let ghost rv = records_view(records@);
    let idx = cleanup_ops_exec(&plan.operations);
    let mut evidence: Vec<String> = Vec::new();
    let mut complete = true;
    let mut i: usize = 0;
    assert(cops.skip(0) =~= cops);
    assert(strs(evidence@) =~= Seq::<Seq<char>>::empty());
    while i < idx.len()
        invariant_except_break
            i <= idx.len(),
            complete,
            idx@.len() == cops.len(),
            forall|j: int| 0 <= j < idx@.len() ==> #[trigger] idx@[j] < plan.operations@.len() && operation_view(
                plan.operations@[idx@[j] as int],
            ) == cops[j],
            cops == cleanup_ops(ov),
            ov == operations_view(plan.operations@),
            rv == records_view(records@),
            walk_records(cops, rv) == (walk_records(cops.skip(i as int), rv).0, strs(evidence@) + walk_records(
                cops.skip(i as int),
                rv,
            ).1),
        ensures
            walk_records(cops, rv) == (complete, strs(evidence@)),
        decreases idx.len() - i,
    {
        let op = &plan.operations[idx[i]];
        let ghost rest = cops.skip(i as int);
        assert(rest[0] == cops[i as int]);
        assert(rest.drop_first() =~= cops.skip(i + 1));
        assert(operation_view(*op) == rest[0]);
        match find_record_exec(records, &op.id) {
            None => {
                let mut t = chars_of("missingRecord:");
                push_str(&mut t, op.id.as_str());
                let s = string_of(&t);
                let ghost before = evidence@;
                evidence.push(s);
                assert(strs(evidence@) =~= strs(before).push(s@));
                complete = false;
                assert(strs(evidence@) =~= strs(before) + seq!["missingRecord:"@ + op.id@]);
                break;
            },
            Some(k) => {
                let rec = &records[k];
                assert(rv[k as int] == record_view(*rec));
                let ghost before = strs(evidence@);
                push_prefixed(&mut evidence, "removed:", &rec.removed_paths);
                push_prefixed(&mut evidence, "alreadyAbsent:", &rec.absent_paths);
                assert(strs(evidence@) =~= before + record_evidence(record_view(*rec)));
                if !record_complete_exec(rec, op) {
                    complete = false;
                    break;
                }
            },
        }
        i = i + 1;
    }
    proof {
        if complete {
            assert(cops.skip(idx.len() as int) =~= Seq::<OperationView>::empty());
            assert(strs(evidence@) + Seq::<Seq<char>>::empty() =~= strs(evidence@));
        }
    }
    let no_ops = idx.len() == 0;
    let status = if no_ops {
        VerificationStatus::Skipped
    } else if complete {
        VerificationStatus::Passed
    } else {
        VerificationStatus::Failed
    };
    let summary = if no_ops {
        "The stored plan predates explicit local dependency-state cleanup."
    } else if complete {
        "Pre-migration local dependency state was removed before target installation."
    } else {
        "Pre-migration local dependency-state cleanup is incomplete."
    };
    VerificationCheck { id: "clean-target-install".to_owned(), status, summary: summary.to_owned(), evidence }
}

/// The artifacts of a manager: its lockfiles, then its configuration files.
pub open spec fn artifacts(id: PackageManagerId) -> Seq<Seq<char>> {
    lockfiles_spec(id) + configuration_files_spec(id)
}

/// Whether an artifact of `source` is retired by a migration to `target`:
/// the target does not use it, and it is not a Deno configuration file.
pub open spec fn retired(path: Seq<char>, source: PackageManagerId, target: PackageManagerId) -> bool {
    !artifacts(target).contains(path) && !(source == PackageManagerId::Deno && (path == "deno.json"@ || path
        == "deno.jsonc"@))
}

pub open spec fn keep_retired(paths: Seq<Seq<char>>, source: PackageManagerId, target: PackageManagerId) -> Seq<Seq<char>>
    decreases paths.len(),
{
    if paths.len() == 0 {
        seq![]
    } else {
        keep_retired(paths.drop_last(), source, target) + if retired(paths.last(), source, target) {
            seq![paths.last()]
        } else {
            seq![]
        }
    }
}

/// The source-only artifacts a migration retires, in catalog order.
pub open spec fn source_only_artifacts(source: PackageManagerId, target: PackageManagerId) -> Seq<Seq<char>> {
    keep_retired(artifacts(source), source, target)
}

/// The check that no source-only artifact remains, given the files present.
pub open spec fn source_artifact_spec(plan: MigrationPlan, present: Seq<Seq<char>>) -> CheckView {
    let expected = source_only_artifacts(plan.source, plan.target);
    let residues = keep_present(expected, present);
    CheckView {
        id: "source-artifact-residue"@,
        status: pass_fail(residues.len() == 0),
        summary: if residues.len() == 0 {
            "No source-only package manager artifact remains in the repository."@
        } else {
            decimal(residues.len()) + " source-only package manager artifacts remain."@
        },
        evidence: if residues.len() == 0 {
            seq!["retired:"@ + decimal(expected.len())]
        } else {
            residues
        },
    }
}

fn artifacts_exec(id: PackageManagerId) -> (r: Vec<String>)
    ensures
        strs(r@) == artifacts(id),
{
    let d = get_package_manager(id);
    let mut r: Vec<String> = Vec::new();
    let ghost all = statics(d.lockfiles@) + statics(d.configuration_files@);
    let mut i: usize = 0;
    while i < d.lockfiles.len()
        invariant
            i <= d.lockfiles.len(),
            strs(r@) == statics(d.lockfiles@).take(i as int),
        decreases d.lockfiles.len() - i,
    {
        let s = d.lockfiles[i].to_owned();
        let ghost before = r@;
        r.push(s);
        assert(strs(r@) =~= strs(before).push(s@));
        assert(statics(d.lockfiles@).take(i + 1) =~= statics(d.lockfiles@).take(i as int).push(d.lockfiles@[i as int]@));
        i = i + 1;
    }
    assert(statics(d.lockfiles@).take(d.lockfiles.len() as int) =~= statics(d.lockfiles@));
    let mut k: usize = 0;
    while k < d.configuration_files.len()
        invariant
            k <= d.configuration_files.len(),
            strs(r@) == statics(d.lockfiles@) + statics(d.configuration_files@).take(k as int),
        decreases d.configuration_files.len() - k,
    {
        let s = d.configuration_files[k].to_owned();
        let ghost before = r@;
        r.push(s);
        assert(strs(r@) =~= strs(before).push(s@));
        assert(statics(d.configuration_files@).take(k + 1) =~= statics(d.configuration_files@).take(k as int).push(
            d.configuration_files@[k as int]@,
        ));
        k = k + 1;
    }
    assert(statics(d.configuration_files@).take(d.configuration_files.len() as int) =~= statics(
        d.configuration_files@,
    ));
    r
}

/// The source-only artifacts a migration retires (see
/// `source_only_artifacts`).
pub fn source_only_artifacts_exec(source: PackageManagerId, target: PackageManagerId) -> (r: Vec<String>)
    ensures
        strs(r@) == source_only_artifacts(source, target),
{
    let all = artifacts_exec(source);
    let target_all = artifacts_exec(target);
    let ghost av = strs(all@);
    let mut r: Vec<String> = Vec::new();
    let mut i: usize = 0;
    assert(av.take(0) =~= Seq::<Seq<char>>::empty());
    assert(strs(r@) =~= Seq::<Seq<char>>::empty());
    while i < all.len()
        invariant
            i <= all.len(),
            av == strs(all@),
            strs(target_all@) == artifacts(target),
            strs(r@) == keep_retired(av.take(i as int), source, target),
        decreases all.len() - i,
    {
        assert(av.take(i + 1).drop_last() =~= av.take(i as int));
        assert(av.take(i + 1).last() == all@[i as int]@);
        let c = chars_of(all[i].as_str());
        let used = contains_text(&target_all, &c);
        let deno_config = source == PackageManagerId::Deno && (str_eq(&c, "deno.json") || str_eq(&c, "deno.jsonc"));
        let ghost before = r@;
        if !used && !deno_config {
            let s = all[i].as_str().to_owned();
            r.push(s);
            assert(strs(r@) =~= strs(before).push(s@));
        }
        assert(strs(r@) =~= keep_retired(av.take(i + 1), source, target));
        i = i + 1;
    }
    assert(av.take(all.len() as int) =~= av);
    r
}

/// The check that no source-only artifact remains (see
/// `source_artifact_spec`); `present` lists the repository files that exist.
pub fn source_artifact_check(plan: &MigrationPlan, present: &Vec<String>) -> (r: VerificationCheck)
    ensures
        check_view(r) == source_artifact_spec(*plan, strs(present@)),
{
    let expected = source_only_artifacts_exec(plan.source, plan.target);
    let ghost ev = strs(expected@);
    let ghost pv = strs(present@);
    let mut residues: Vec<String> = Vec::new();
    let mut i: usize = 0;
    assert(ev.take(0) =~= Seq::<Seq<char>>::empty());
    assert(strs(residues@) =~= Seq::<Seq<char>>::empty());
    while i < expected.len()
        invariant
            i <= expected.len(),
            ev == strs(expected@),
            pv == strs(present@),
            strs(residues@) == keep_present(ev.take(i as int), pv),
        decreases expected.len() - i,
    {
        assert(ev.take(i + 1).drop_last() =~= ev.take(i as int));
        assert(ev.take(i + 1).last() == expected@[i as int]@);
        let c = chars_of(expected[i].as_str());
        let ghost before = residues@;
        if contains_text(present, &c) {
            let s = expected[i].as_str().to_owned();
            residues.push(s);
            assert(strs(residues@) =~= strs(before).push(s@));
        }
        assert(strs(residues@) =~= keep_present(ev.take(i + 1), pv));
        i = i + 1;
    }
    assert(ev.take(expected.len() as int) =~= ev);
    let clean = residues.len() == 0;
    let summary = if clean {
        chars_of("No source-only package manager artifact remains in the repository.")
    } else {
        let mut t = decimal_exec(residues.len());
        push_str(&mut t, " source-only package manager artifacts remain.");
        t
    };
    let evidence = if clean {
        let mut t = chars_of("retired:");
        let d = decimal_exec(expected.len());
        push_chars(&mut t, &d);
        let mut v: Vec<String> = Vec::new();
        v.push(string_of(&t));
        assert(strs(v@) =~= seq!["retired:"@ + decimal(ev.len())]);
        v
    } else {
        residues
    };
    let status = if clean {
        VerificationStatus::Passed
    } else {
        VerificationStatus::Failed
    };
    VerificationCheck {
        id: "source-artifact-residue".to_owned(),
        status,
        summary: string_of(&summary),
        evidence,
    }
}

pub open spec fn word_char(c: char) -> bool {
    is_ascii_alnum(c) || c == '_'
}

/// Whether an occurrence of `t` at `p` stands on its own: no word
/// character just before or just after it.
pub open spec fn standalone_at(c: Seq<char>, t: Seq<char>, p: int) -> bool {
    (p == 0 || !word_char(c[p - 1])) && (p + t.len() == c.len() || !word_char(c[p + t.len()]))
}

/// Whether one of the non-overlapping occurrences of `t` from `p` on (as
/// `match_indices` finds them) stands on its own.
pub open spec fn token_from(c: Seq<char>, t: Seq<char>, p: int) -> bool
    decreases c.len() - p,
{
    if t.len() == 0 || p < 0 || p + t.len() > c.len() {
        false
    } else if matches_at(c, t, p) {
        standalone_at(c, t, p) || token_from(c, t, p + t.len())
    } else {
        token_from(c, t, p + 1)
    }
}

/// Whether `token` occurs in `command` as a word of its own.
pub open spec fn command_token(command: Seq<char>, token: Seq<char>) -> bool {
    token_from(command, token, 0)
}

/// Whether `token` (not empty) occurs in `command` as a word of its own.
pub fn contains_command_token(command: &str, token: &str) -> (r: bool)
    requires
        token@.len() > 0,
    ensures
        r == command_token(command@, token@),
{
    let c = chars_of(command);
    let t = chars_of(token);
    let mut p: usize = 0;
    while t.len() <= c.len() - p
        invariant
            c@ == command@,
            t@ == token@,
            t@.len() > 0,
            p <= c.len(),
            command_token(c@, t@) == token_from(c@, t@, p as int),
        decreases c.len() - p,
    {
        if matches_at_exec(&c, &t, p) {
            let before_ok = p == 0 || !(is_ascii_alnum_exec(c[p - 1]) || c[p - 1] == '_');
            let end = p + t.len();
            let after_ok = end == c.len() || !(is_ascii_alnum_exec(c[end]) || c[end] == '_');
            if before_ok && after_ok {
                return true;
            }
            p = end;
        } else {
            p = p + 1;
        }
    }
    false
}

pub open spec fn source_extensions() -> Seq<Seq<char>> {
    seq![".js"@, ".jsx"@, ".mjs"@, ".cjs"@, ".ts"@, ".tsx"@, ".mts"@, ".cts"@]
}

/// A JavaScript or TypeScript source path.
pub open spec fn source_code_path(path: Seq<char>) -> bool {
    exists|i: int| 0 <= i < 8 && ends_with(path, #[trigger] source_extensions()[i])
}

fn extension_at(i: usize) -> (r: &'static str)
    requires
        i < 8,
    ensures
        r@ == source_extensions()[i as int],
{
    match i {
        0 => ".js",
        1 => ".jsx",
        2 => ".mjs",
        3 => ".cjs",
        4 => ".ts",
        5 => ".tsx",
        6 => ".mts",
        _ => ".cts",
    }
}

pub fn is_source_code_path(path: &str) -> (r: bool)
    ensures
        r == source_code_path(path@),
{
    let c = chars_of(path);
    let mut i: usize = 0;
    while i < 8
        invariant
            i <= 8,
            c@ == path@,
            forall|j: int| 0 <= j < i ==> !ends_with(path@, #[trigger] source_extensions()[j]),
        decreases 8 - i,
    {
        if str_ends_with(&c, extension_at(i)) {
            return true;
        }
        i = i + 1;
    }
    false
}

/// A reference: its location and what it is.
pub open spec fn reference(location: Seq<char>, detail: Seq<char>) -> Seq<Seq<char>> {
    seq![location, detail]
}

pub open spec fn dependency_sections() -> Seq<Seq<char>> {
    seq!["dependencies"@, "devDependencies"@, "optionalDependencies"@, "peerDependencies"@]
}

pub open spec fn bun_type_packages() -> Seq<Seq<char>> {
    seq!["@types/bun"@, "bun-types"@]
}

/// Whether a section of the manifest declares the package.
pub open spec fn declares(doc: Json, section: Seq<char>, name: Seq<char>) -> bool {
    match as_object(get(doc, section)) {
        Some(ms) => find_member(ms, name) is Some,
        None => false,
    }
}

/// The Bun type packages a manifest declares, as references.
pub open spec fn dependency_refs(doc: Json, mp: Seq<char>) -> Set<Seq<Seq<char>>> {
    Set::new(
        |k: Seq<Seq<char>>|
            exists|s: int, n: int|
                0 <= s < 4 && 0 <= n < 2 && declares(doc, dependency_sections()[s], bun_type_packages()[n]) && k
                    == reference(
                    mp + "#/"@ + dependency_sections()[s] + "/"@ + bun_type_packages()[n],
                    "runtime dependency:"@ + bun_type_packages()[n],
                ),
    )
}

/// Whether a script runs `bun` or `bunx`.
pub open spec fn bun_script(v: Json) -> bool {
    match v {
        Json::Str(cmd) => command_token(cmd, "bun"@) || command_token(cmd, "bunx"@),
        _ => false,
    }
}

/// The scripts that run Bun, as references.
pub open spec fn script_refs(ms: Seq<(Seq<char>, Json)>, mp: Seq<char>) -> Set<Seq<Seq<char>>>
    decreases ms.len(),
{
    if ms.len() == 0 {
        Set::empty()
    } else {
        script_refs(ms.drop_last(), mp).union(
            if bun_script(ms.last().1) {
                set![reference(mp + "#/scripts/"@ + ms.last().0, "Bun runtime command"@)]
            } else {
                Set::empty()
            },
        )
    }
}

/// The references a manifest holds.
pub open spec fn manifest_refs(doc: Json, mp: Seq<char>) -> Set<Seq<Seq<char>>> {
    dependency_refs(doc, mp).union(
        match as_object(get(doc, "scripts"@)) {
            Some(ms) => script_refs(ms, mp),
            None => Set::empty(),
        },
    )
}

/// The references so far with those of one more manifest, or why it could
/// not be read.
pub open spec fn package_refs_step(
    refs: Set<Seq<Seq<char>>>,
    mp: Seq<char>,
    manifests: Seq<(Seq<char>, Seq<char>)>,
) -> Result<Set<Seq<Seq<char>>>, Seq<char>> {
    match manifest_text(manifests, mp) {
        None => Ok(refs),
        Some(text) => match serde_json_read(text) {
            Err(e) => Err(mp + ": "@ + e),
            Ok(doc) => match doc {
                Json::Object(_) => Ok(refs.union(manifest_refs(doc, mp))),
                _ => Err(mp + ": expected a JSON object"@),
            },
        },
    }
}

/// The references of the packages' manifests, or why one could not be read.
pub open spec fn package_refs(
    manifest_paths: Seq<Seq<char>>,
    manifests: Seq<(Seq<char>, Seq<char>)>,
) -> Result<Set<Seq<Seq<char>>>, Seq<char>>
    decreases manifest_paths.len(),
{
    if manifest_paths.len() == 0 {
        Ok(Set::empty())
    } else {
        match package_refs(manifest_paths.drop_last(), manifests) {
            Err(e) => Err(e),
            Ok(refs) => package_refs_step(refs, manifest_paths.last(), manifests),
        }
    }
}

pub open spec fn source_tokens() -> Seq<(Seq<char>, Seq<char>)> {
    seq![
        ("Bun."@, "Bun global API"@),
        ("\"bun:"@, "bun: module import"@),
        ("'bun:"@, "bun: module import"@),
        ("`bun:"@, "bun: module import"@),
    ]
}

/// The largest source file the scan reads, in bytes.
pub const MAX_SOURCE_BYTES: usize = 512000;

/// The references a source file holds (none unless it is a source path
/// within the size limit).
pub open spec fn file_refs(path: Seq<char>, content: Seq<char>) -> Set<Seq<Seq<char>>> {
    if source_code_path(path) && vstd::utf8::encode_utf8(content).len() <= MAX_SOURCE_BYTES {
        Set::new(
            |k: Seq<Seq<char>>|
                exists|i: int|
                    0 <= i < 4 && contains_seq(content, #[trigger] source_tokens()[i].0) && k == reference(
                        path,
                        source_tokens()[i].1,
                    ),
        )
    } else {
        Set::empty()
    }
}

pub open spec fn source_refs(sources: Seq<(Seq<char>, Seq<char>)>) -> Set<Seq<Seq<char>>>
    decreases sources.len(),
{
    if sources.len() == 0 {
        Set::empty()
    } else {
        source_refs(sources.drop_last()).union(file_refs(sources.last().0, sources.last().1))
    }
}

pub open spec fn preserved_references(refs: Seq<Seq<Seq<char>>>) -> DiagnosticView {
    DiagnosticView {
        code: "SOURCE_RUNTIME_REFERENCES_PRESERVED"@,
        severity: DiagnosticSeverity::Warning,
        summary: decimal(refs.len()) + " Bun runtime reference(s) remain outside the package-manager migration boundary."@,
        blocking: false,
        evidence: refs.take(if refs.len() < 64 {
            refs.len() as int
        } else {
            64
        }).map_values(|k: Seq<Seq<char>>| (k[0], k[1])),
        remediation: seq![
            "Migrate or intentionally retain the reported Bun runtime semantics; pkgshift never deletes them automatically."@,
        ],
    }
}

/// The manifest paths of the project's packages, in order.
pub open spec fn manifest_paths_of(project: ProjectIr) -> Seq<Seq<char>> {
    project.packages@.map_values(|p: crate::model::PackageIr| p.manifest_path@)
}

/// The warning about Bun runtime references a Bun migration leaves behind,
/// given the manifests read (path and text) and the source files read (path
/// and text): none unless the project's source is Bun and the target is not;
/// otherwise one warning counting the references, with the first 64 in
/// order as evidence, if there are any; an error where a manifest cannot be
/// read as a JSON object.
pub open spec fn runtime_reference_spec(
    project: ProjectIr,
    target: PackageManagerId,
    manifests: Seq<(Seq<char>, Seq<char>)>,
    sources: Seq<(Seq<char>, Seq<char>)>,
) -> Result<Seq<DiagnosticView>, Seq<char>> {
    if project.source != Some(PackageManagerId::Bun) || target == PackageManagerId::Bun {
        Ok(seq![])
    } else {
        match package_refs(manifest_paths_of(project), manifests) {
            Err(e) => Err(e),
            Ok(refs) => {
                let all = sorted_list_set(refs.union(source_refs(sources)));
                if all.len() == 0 {
                    Ok(seq![])
                } else {
                    Ok(seq![preserved_references(all)])
                }
            },
        }
    }
}

fn push_reference(v: &mut Vec<Vec<Vec<char>>>, location: Vec<char>, detail: Vec<char>)
    requires
        lists_strictly_sorted(list_texts(old(v)@)),
    ensures
        lists_strictly_sorted(list_texts(final(v)@)),
        list_texts(final(v)@).to_set() == list_texts(old(v)@).to_set().insert(reference(location@, detail@)),
{
    let ghost k = reference(location@, detail@);
    let mut x: Vec<Vec<char>> = Vec::new();
    x.push(location);
    x.push(detail);
    assert(texts(x@) =~= k);
    insert_sorted_list(v, x);
}

pub(crate) fn section_at(s: usize) -> (r: &'static str)
    requires
        s < 4,
    ensures
        r@ == dependency_sections()[s as int],
{
    match s {
        0 => "dependencies",
        1 => "devDependencies",
        2 => "optionalDependencies",
        _ => "peerDependencies",
    }
}

pub(crate) fn bun_package_at(n: usize) -> (r: &'static str)
    requires
        n < 2,
    ensures
        r@ == bun_type_packages()[n as int],
{
    match n {
        0 => "@types/bun",
        _ => "bun-types",
    }
}

/// The references of the first `idx` (section, package) pairs.
pub open spec fn dependency_refs_upto(doc: Json, mp: Seq<char>, idx: int) -> Set<Seq<Seq<char>>> {
    Set::new(
        |k: Seq<Seq<char>>|
            exists|s: int, n: int|
                0 <= s < 4 && 0 <= n < 2 && s * 2 + n < idx && declares(doc, dependency_sections()[s], bun_type_packages()[n])
                    && k == reference(
                    mp + "#/"@ + dependency_sections()[s] + "/"@ + bun_type_packages()[n],
                    "runtime dependency:"@ + bun_type_packages()[n],
                ),
    )
}

fn add_dependency_refs(v: &mut Vec<Vec<Vec<char>>>, doc: &JsonValue, mp: &str)
    requires
        lists_strictly_sorted(list_texts(old(v)@)),
    ensures
        lists_strictly_sorted(list_texts(final(v)@)),
        list_texts(final(v)@).to_set() == list_texts(old(v)@).to_set().union(dependency_refs(json_view(*doc), mp@)),
{
    let ghost d = json_view(*doc);
    let ghost base = list_texts(v@).to_set();
    assert(dependency_refs_upto(d, mp@, 0) =~= Set::empty());
    let mut idx: usize = 0;
    while idx < 8
        invariant
            idx <= 8,
            d == json_view(*doc),
            lists_strictly_sorted(list_texts(v@)),
            list_texts(v@).to_set() == base.union(dependency_refs_upto(d, mp@, idx as int)),
        decreases 8 - idx,
    {
        let s = idx / 2;
        let n = idx % 2;
        let section = section_at(s);
        let name = bun_package_at(n);
        let declared = match object_members(get_member(doc, section)) {
            Some(ms) => member_index(ms, name).is_some(),
            None => false,
        };
        assert(declared == declares(d, dependency_sections()[s as int], bun_type_packages()[n as int]));
        let ghost before = list_texts(v@).to_set();
        let ghost k = reference(
            mp@ + "#/"@ + dependency_sections()[s as int] + "/"@ + bun_type_packages()[n as int],
            "runtime dependency:"@ + bun_type_packages()[n as int],
        );
        if declared {
            let mut loc = chars_of(mp);
            push_str(&mut loc, "#/");
            push_str(&mut loc, section);
            push_str(&mut loc, "/");
            push_str(&mut loc, name);
            let mut detail = chars_of("runtime dependency:");
            push_str(&mut detail, name);
            assert(loc@ =~= mp@ + "#/"@ + dependency_sections()[s as int] + "/"@ + bun_type_packages()[n as int]);
            push_reference(v, loc, detail);
        }
        proof {
            let next = dependency_refs_upto(d, mp@, idx + 1);
            let prev = dependency_refs_upto(d, mp@, idx as int);
            assert(s * 2 + n == idx);
            assert forall|x: Seq<Seq<char>>| next.contains(x) <==> (prev.contains(x) || (declared && x == k)) by {
                if next.contains(x) {
                    let (s2, n2) = choose|s2: int, n2: int|
                        0 <= s2 < 4 && 0 <= n2 < 2 && s2 * 2 + n2 < idx + 1 && declares(
                            d,
                            dependency_sections()[s2],
                            bun_type_packages()[n2],
                        ) && x == reference(
                            mp@ + "#/"@ + dependency_sections()[s2] + "/"@ + bun_type_packages()[n2],
                            "runtime dependency:"@ + bun_type_packages()[n2],
                        );
                    if s2 * 2 + n2 < idx {
                        assert(prev.contains(x));
                    } else {
                        assert(s2 == s && n2 == n);
                    }
                }
                if prev.contains(x) {
                    let (s2, n2) = choose|s2: int, n2: int|
                        0 <= s2 < 4 && 0 <= n2 < 2 && s2 * 2 + n2 < idx && declares(
                            d,
                            dependency_sections()[s2],
                            bun_type_packages()[n2],
                        ) && x == reference(
                            mp@ + "#/"@ + dependency_sections()[s2] + "/"@ + bun_type_packages()[n2],
                            "runtime dependency:"@ + bun_type_packages()[n2],
                        );
                    assert(next.contains(x));
                }
                if declared && x == k {
                    assert(next.contains(x));
                }
            }
            if declared {
                assert(list_texts(v@).to_set() =~= base.union(next));
            } else {
                assert(list_texts(v@).to_set() =~= base.union(next));
            }
        }
        idx = idx + 1;
    }
    assert(dependency_refs_upto(d, mp@, 8) =~= dependency_refs(d, mp@));
}

fn add_script_refs(v: &mut Vec<Vec<Vec<char>>>, doc: &JsonValue, mp: &str)
    requires
        lists_strictly_sorted(list_texts(old(v)@)),
    ensures
        lists_strictly_sorted(list_texts(final(v)@)),
        list_texts(final(v)@).to_set() == list_texts(old(v)@).to_set().union(
            match as_object(get(json_view(*doc), "scripts"@)) {
                Some(ms) => script_refs(ms, mp@),
                None => Set::empty(),
            },
        ),
{
    let ghost base = list_texts(v@).to_set();
    match object_members(get_member(doc, "scripts")) {
        None => {
            assert(base.union(Set::empty()) =~= base);
        },
        Some(ms) => {
            let ghost mv = members_view(ms@);
            assert(script_refs(mv.take(0), mp@) =~= Set::empty());
            assert(base.union(Set::empty()) =~= base);
            let mut k: usize = 0;
            while k < ms.len()
                invariant
                    k <= ms.len(),
                    mv == members_view(ms@),
                    lists_strictly_sorted(list_texts(v@)),
                    list_texts(v@).to_set() == base.union(script_refs(mv.take(k as int), mp@)),
                decreases ms.len() - k,
            {
                assert(mv.take(k + 1).drop_last() =~= mv.take(k as int));
                assert(mv.take(k + 1).last() == mv[k as int]);
                assert(mv[k as int].1 == json_view(ms@[k as int].1));
                assert(mv[k as int].0 == ms@[k as int].0@);
                proof {
                    reveal_strlit("bun");
                    reveal_strlit("bunx");
                }
                let runs_bun = match &ms[k].1 {
                    JsonValue::Str(cmd) => contains_command_token(cmd.as_str(), "bun") || contains_command_token(
                        cmd.as_str(),
                        "bunx",
                    ),
                    _ => false,
                };
                let ghost before = list_texts(v@).to_set();
                if runs_bun {
                    let mut loc = chars_of(mp);
                    push_str(&mut loc, "#/scripts/");
                    push_str(&mut loc, ms[k].0.as_str());
                    push_reference(v, loc, chars_of("Bun runtime command"));
                }
                assert(list_texts(v@).to_set() =~= base.union(script_refs(mv.take(k + 1), mp@)));
                k = k + 1;
            }
            assert(mv.take(ms.len() as int) =~= mv);
        },
    }
}

fn source_token_at(i: usize) -> (r: (&'static str, &'static str))
    requires
        i < 4,
    ensures
        (r.0@, r.1@) == source_tokens()[i as int],
{
    match i {
        0 => ("Bun.", "Bun global API"),
        1 => ("\"bun:", "bun: module import"),
        2 => ("'bun:", "bun: module import"),
        _ => ("`bun:", "bun: module import"),
    }
}

pub open spec fn file_refs_upto(path: Seq<char>, content: Seq<char>, t: int) -> Set<Seq<Seq<char>>> {
    Set::new(
        |k: Seq<Seq<char>>|
            exists|i: int|
                0 <= i < t && i < 4 && contains_seq(content, #[trigger] source_tokens()[i].0) && k == reference(
                    path,
                    source_tokens()[i].1,
                ),
    )
}

fn add_file_refs(v: &mut Vec<Vec<Vec<char>>>, path: &String, content: &String)
    requires
        lists_strictly_sorted(list_texts(old(v)@)),
    ensures
        lists_strictly_sorted(list_texts(final(v)@)),
        list_texts(final(v)@).to_set() == list_texts(old(v)@).to_set().union(file_refs(path@, content@)),
{
    let ghost base = list_texts(v@).to_set();
    if !is_source_code_path(path.as_str()) || content.as_str().as_bytes().len() > MAX_SOURCE_BYTES {
        assert(file_refs(path@, content@) =~= Set::empty());
        assert(base.union(Set::empty()) =~= base);
        return;
    }
    let cc = chars_of(content.as_str());
    assert(file_refs_upto(path@, content@, 0) =~= Set::empty());
    assert(base.union(Set::empty()) =~= base);
    let mut t: usize = 0;
    while t < 4
        invariant
            t <= 4,
            cc@ == content@,
            lists_strictly_sorted(list_texts(v@)),
            list_texts(v@).to_set() == base.union(file_refs_upto(path@, content@, t as int)),
        decreases 4 - t,
    {
        let (token, detail) = source_token_at(t);
        let found = str_contains(&cc, token);
        let ghost k = reference(path@, source_tokens()[t as int].1);
        if found {
            push_reference(v, chars_of(path.as_str()), chars_of(detail));
        }
        proof {
            let next = file_refs_upto(path@, content@, t + 1);
            let prev = file_refs_upto(path@, content@, t as int);
            assert forall|x: Seq<Seq<char>>| next.contains(x) <==> (prev.contains(x) || (found && x == k)) by {
                if next.contains(x) {
                    let i = choose|i: int|
                        0 <= i < t + 1 && i < 4 && contains_seq(content@, #[trigger] source_tokens()[i].0) && x
                            == reference(path@, source_tokens()[i].1);
                    if i < t {
                        assert(prev.contains(x));
                    }
                }
                if prev.contains(x) {
                    let i = choose|i: int|
                        0 <= i < t && i < 4 && contains_seq(content@, #[trigger] source_tokens()[i].0) && x
                            == reference(path@, source_tokens()[i].1);
                    assert(next.contains(x));
                }
                if found && x == k {
                    assert(contains_seq(content@, source_tokens()[t as int].0));
                    assert(next.contains(x));
                }
            }
            assert(list_texts(v@).to_set() =~= base.union(next));
        }
        t = t + 1;
    }
    assert(file_refs_upto(path@, content@, 4) =~= file_refs(path@, content@));
}

proof fn lemma_package_refs_err_stays(
    paths: Seq<Seq<char>>,
    manifests: Seq<(Seq<char>, Seq<char>)>,
    j: int,
    k: int,
    e: Seq<char>,
)
    requires
        0 <= j <= k <= paths.len(),
        package_refs(paths.take(j), manifests) == Err::<Set<Seq<Seq<char>>>, Seq<char>>(e),
    ensures
        package_refs(paths.take(k), manifests) == Err::<Set<Seq<Seq<char>>>, Seq<char>>(e),
    decreases k - j,
{
    if k > j {
        lemma_package_refs_err_stays(paths, manifests, j, k - 1, e);
        assert(paths.take(k).drop_last() =~= paths.take(k - 1));
    }
}

pub open spec fn sources_view(v: Seq<(String, String)>) -> Seq<(Seq<char>, Seq<char>)> {
    v.map_values(|e: (String, String)| (e.0@, e.1@))
}

fn add_package_refs(v: &mut Vec<Vec<Vec<char>>>, mp: &str, manifests: &[(String, String)]) -> (r: Result<(), String>)
    requires
        lists_strictly_sorted(list_texts(old(v)@)),
    ensures
        lists_strictly_sorted(list_texts(final(v)@)),
        match r {
            Ok(()) => package_refs_step(list_texts(old(v)@).to_set(), mp@, manifests_view(manifests@)) == Ok::<
                Set<Seq<Seq<char>>>,
                Seq<char>,
            >(list_texts(final(v)@).to_set()),
            Err(e) => package_refs_step(list_texts(old(v)@).to_set(), mp@, manifests_view(manifests@)) == Err::<
                Set<Seq<Seq<char>>>,
                Seq<char>,
            >(e@),
        },
{
    let mpc = chars_of(mp);
    match find_manifest(manifests, &mpc) {
        None => Ok(()),
        Some(text) => match read_json(text.as_str()) {
            Err(e) => {
                let mut t = chars_of(mp);
                push_str(&mut t, ": ");
                push_str(&mut t, e.as_str());
                Err(string_of(&t))
            },
            Ok(doc) => {
                let is_object = match &doc {
                    JsonValue::Object(_) => true,
                    _ => false,
                };
                if !is_object {
                    let mut t = chars_of(mp);
                    push_str(&mut t, ": expected a JSON object");
                    return Err(string_of(&t));
                }
                let ghost before = list_texts(v@).to_set();
                add_dependency_refs(v, &doc, mp);
                add_script_refs(v, &doc, mp);
                assert(list_texts(v@).to_set() =~= before.union(manifest_refs(json_view(doc), mp@)));
                Ok(())
            },
        },
    }
}

proof fn lemma_script_refs_pairs(ms: Seq<(Seq<char>, Json)>, mp: Seq<char>)
    ensures
        forall|x: Seq<Seq<char>>| #[trigger] script_refs(ms, mp).contains(x) ==> x.len() == 2,
    decreases ms.len(),
{
    if ms.len() > 0 {
        lemma_script_refs_pairs(ms.drop_last(), mp);
        assert forall|x: Seq<Seq<char>>| #[trigger] script_refs(ms, mp).contains(x) implies x.len() == 2 by {
            if script_refs(ms.drop_last(), mp).contains(x) {
            }
        }
    }
}

proof fn lemma_source_refs_pairs(sources: Seq<(Seq<char>, Seq<char>)>)
    ensures
        forall|x: Seq<Seq<char>>| #[trigger] source_refs(sources).contains(x) ==> x.len() == 2,
    decreases sources.len(),
{
    if sources.len() > 0 {
        lemma_source_refs_pairs(sources.drop_last());
        assert forall|x: Seq<Seq<char>>| #[trigger] source_refs(sources).contains(x) implies x.len() == 2 by {
            if source_refs(sources.drop_last()).contains(x) {
            } else {
                let f = file_refs(sources.last().0, sources.last().1);
                assert(f.contains(x));
                let i = choose|i: int|
                    0 <= i < 4 && contains_seq(sources.last().1, #[trigger] source_tokens()[i].0) && x == reference(
                        sources.last().0,
                        source_tokens()[i].1,
                    );
            }
        }
    }
}

proof fn lemma_package_refs_pairs(paths: Seq<Seq<char>>, manifests: Seq<(Seq<char>, Seq<char>)>)
    ensures
        package_refs(paths, manifests) matches Ok(s) ==> forall|x: Seq<Seq<char>>| #[trigger] s.contains(x) ==> x.len() == 2,
    decreases paths.len(),
{
    if paths.len() > 0 {
        lemma_package_refs_pairs(paths.drop_last(), manifests);
        let mp = paths.last();
        match manifest_text(manifests, mp) {
            Some(text) => match serde_json_read(text) {
                Ok(doc) => match as_object(get(doc, "scripts"@)) {
                    Some(ms) => lemma_script_refs_pairs(ms, mp),
                    None => {},
                },
                Err(_) => {},
            },
            None => {},
        }
    }
}

/// The warning about Bun runtime references a migration from Bun leaves
/// behind (see `runtime_reference_spec`): `manifests` are the package
/// manifests read and `sources` the source files read, each as path and
/// text.
pub fn runtime_reference_diagnostics(
    project: &ProjectIr,
    target: PackageManagerId,
    manifests: &[(String, String)],
    sources: &[(String, String)],
) -> (r: Result<Vec<Diagnostic>, String>)
    ensures
        match r {
            Ok(ds) => runtime_reference_spec(*project, target, manifests_view(manifests@), sources_view(sources@))
                == Ok::<Seq<DiagnosticView>, Seq<char>>(diagnostics_view(ds@)),
            Err(e) => runtime_reference_spec(*project, target, manifests_view(manifests@), sources_view(sources@))
                == Err::<Seq<DiagnosticView>, Seq<char>>(e@),
        },
{
    if project.source != Some(PackageManagerId::Bun) || target == PackageManagerId::Bun {
        let r: Vec<Diagnostic> = Vec::new();
        assert(diagnostics_view(r@) =~= Seq::<DiagnosticView>::empty());
        return Ok(r);
    }
    let ghost paths = manifest_paths_of(*project);
    let ghost mv = manifests_view(manifests@);
    let mut v: Vec<Vec<Vec<char>>> = Vec::new();
    assert(paths.take(0) =~= Seq::<Seq<char>>::empty());
    assert(list_texts(v@).to_set() =~= Set::empty());
    let mut i: usize = 0;
    while i < project.packages.len()
        invariant
            i <= project.packages.len(),
            paths == manifest_paths_of(*project),
            project.source == Some(PackageManagerId::Bun),
            target != PackageManagerId::Bun,
            mv == manifests_view(manifests@),
            lists_strictly_sorted(list_texts(v@)),
            package_refs(paths.take(i as int), mv) == Ok::<Set<Seq<Seq<char>>>, Seq<char>>(list_texts(v@).to_set()),
        decreases project.packages.len() - i,
    {
        assert(paths.take(i + 1).drop_last() =~= paths.take(i as int));
        assert(paths.take(i + 1).last() == project.packages@[i as int].manifest_path@);
        match add_package_refs(&mut v, project.packages[i].manifest_path.as_str(), manifests) {
            Err(e) => {
                proof {
                    lemma_package_refs_err_stays(paths, mv, i + 1, paths.len() as int, e@);
                    assert(paths.take(paths.len() as int) =~= paths);
                }
                return Err(e);
            },
            Ok(()) => {},
        }
        i = i + 1;
    }
    assert(paths.take(project.packages.len() as int) =~= paths);
    let ghost manifest_set = list_texts(v@).to_set();
    let ghost sv = sources_view(sources@);
    let mut k: usize = 0;
    assert(source_refs(sv.take(0)) =~= Set::empty());
    assert(manifest_set.union(Set::empty()) =~= manifest_set);
    while k < sources.len()
        invariant
            k <= sources.len(),
            sv == sources_view(sources@),
            lists_strictly_sorted(list_texts(v@)),
            list_texts(v@).to_set() == manifest_set.union(source_refs(sv.take(k as int))),
        decreases sources.len() - k,
    {
        assert(sv.take(k + 1).drop_last() =~= sv.take(k as int));
        assert(sv.take(k + 1).last() == (sources@[k as int].0@, sources@[k as int].1@));
        add_file_refs(&mut v, &sources[k].0, &sources[k].1);
        assert(list_texts(v@).to_set() =~= manifest_set.union(source_refs(sv.take(k + 1))));
        k = k + 1;
    }
    assert(sv.take(sources.len() as int) =~= sv);
    let ghost all_set = manifest_set.union(source_refs(sv));
    proof {
        assert(lists_listed(list_texts(v@), all_set));
        assert(lists_listed(sorted_list_set(all_set), all_set));
        lemma_lists_sorted_unique(sorted_list_set(all_set), list_texts(v@));
    }
    let mut out: Vec<Diagnostic> = Vec::new();
    if v.len() == 0 {
        assert(diagnostics_view(out@) =~= Seq::<DiagnosticView>::empty());
        return Ok(out);
    }
    let ghost lv = list_texts(v@);
    proof {
        lemma_package_refs_pairs(paths, mv);
        lemma_source_refs_pairs(sv);
        assert forall|m: int| 0 <= m < v@.len() implies (#[trigger] v@[m])@.len() == 2 by {
            assert(lv[m] == texts(v@[m]@));
            assert(lv.to_set().contains(lv[m]));
        }
    }
    let limit: usize = if v.len() < 64 {
        v.len()
    } else {
        64
    };
    let mut evidence: Vec<EvidenceDetail> = Vec::new();
    let mut j: usize = 0;
    while j < limit
        invariant
            j <= limit <= v.len(),
            lv == list_texts(v@),
            forall|m: int| 0 <= m < v@.len() ==> (#[trigger] v@[m])@.len() == 2,
            evidence@.map_values(|e: EvidenceDetail| e@) == lv.take(j as int).map_values(
                |x: Seq<Seq<char>>| (x[0], x[1]),
            ),
        decreases limit - j,
    {
        assert(lv[j as int] == texts(v@[j as int]@));
        let e = EvidenceDetail { location: string_of(&v[j][0]), detail: string_of(&v[j][1]) };
        let ghost before = evidence@;
        evidence.push(e);
        assert(evidence@.map_values(|e: EvidenceDetail| e@) =~= before.map_values(|e: EvidenceDetail| e@).push(e@));
        assert(lv.take(j + 1).map_values(|x: Seq<Seq<char>>| (x[0], x[1])) =~= lv.take(j as int).map_values(
            |x: Seq<Seq<char>>| (x[0], x[1]),
        ).push((lv[j as int][0], lv[j as int][1])));
        j = j + 1;
    }
    let mut summary = decimal_exec(v.len());
    push_str(&mut summary, " Bun runtime reference(s) remain outside the package-manager migration boundary.");
    let mut rem: Vec<String> = Vec::new();
    rem.push(
        "Migrate or intentionally retain the reported Bun runtime semantics; pkgshift never deletes them automatically.".to_owned(),
    );
    let d = Diagnostic {
        code: "SOURCE_RUNTIME_REFERENCES_PRESERVED".to_owned(),
        severity: DiagnosticSeverity::Warning,
        summary: string_of(&summary),
        blocking: false,
        evidence,
        remediation: rem,
    };
    assert(d@.remediation =~= preserved_references(lv).remediation);
    assert(d@.evidence =~= preserved_references(lv).evidence);
    out.push(d);
    assert(diagnostics_view(out@) =~= seq![preserved_references(lv)]);
    Ok(out)
}

} // verus!
