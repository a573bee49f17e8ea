//! The decisions of the guided commands once a plan exists: whether to
//! stop, ask for approval, run a trial or apply, the exact command line
//! that approves the plan, and the exit status of each outcome.
use vstd::prelude::*;
use crate::model::{
    ascii_lowercase, ascii_lowercase_exec, manager_name, Diagnostic, DiagnosticSeverity, DiagnosticView,
    MigrationPlan, PackageManagerId,
};
use crate::plan::{mutations_view, no_evidence, operations_view, MutationView, OperationView};
use crate::catalog::normalize_package_manager_id;
use crate::detect::manager_at;
use crate::model::parse_manager_spec;
use crate::runtime::model::{permission_at, permission_name, DenoPermission, PermissionSet};
use crate::sorted::{insert_sorted, lemma_sorted_len, lists_sorted, sorted_set};
use crate::text::{chars_of, push_str, str_eq, string_of, strictly_sorted, strs, texts, trim, trimmed};

verus! {

/// What a guided command does with a plan.
#[derive(Debug, Clone, Copy, PartialEq, Eq, Structural)]
pub enum NextStep {
    /// The plan cannot be applied; it is reported as a plan is.
    Report,
    /// The plan is shown for review; `approval_missing` unless this is a
    /// dry run.
    Review { approval_missing: bool },
    /// The approved plan runs in an isolated trial.
    Trial,
    /// The approved plan is applied.
    Apply,
}

/// A plan that cannot be applied is reported; a dry run, or a plan without
/// its exact approval, is shown for review; an approved plan runs as a
/// trial when one is asked for, and is applied otherwise.
pub open spec fn next_step_spec(
    executable: bool,
    dry_run: bool,
    trial: bool,
    approval: Option<Seq<char>>,
    plan_id: Seq<char>,
) -> NextStep {
    if !executable {
        NextStep::Report
    } else if dry_run || approval != Some(plan_id) {
        NextStep::Review { approval_missing: !dry_run }
    } else if trial {
        NextStep::Trial
    } else {
        NextStep::Apply
    }
}

pub fn next_step(executable: bool, dry_run: bool, trial: bool, approval: Option<&str>, plan_id: &str) -> (r: NextStep)
    ensures
        r == next_step_spec(
            executable,
            dry_run,
            trial,
            match approval {
                Some(a) => Some(a@),
                None => None,
            },
            plan_id@,
        ),
{
    if !executable {
        return NextStep::Report;
    }
    let approved = match approval {
        Some(a) => {
            let ac = chars_of(a);
            let pc = chars_of(plan_id);
            crate::text::chars_eq(&ac, &pc)
        },
        None => false,
    };
    if dry_run || !approved {
        NextStep::Review { approval_missing: !dry_run }
    } else if trial {
        NextStep::Trial
    } else {
        NextStep::Apply
    }
}

/// The exit status of a guided command. `failed` says, of a reported plan,
/// that it has a blocking diagnostic, and of a trial or an applied run, that
/// it failed. A blocked report exits with 3, a review that lacks approval
/// with 7, a failed run with 5, a trial whose verification failed with 6
/// (5 when it failed before verifying), and everything else with 0.
pub open spec fn exit_code_spec(step: NextStep, failed: bool, verified: bool) -> i32 {
    match step {
        NextStep::Report => if failed {
            3
        } else {
            0
        },
        NextStep::Review { approval_missing } => if approval_missing {
            7
        } else {
            0
        },
        NextStep::Trial => if !failed {
            0
        } else if verified {
            6
        } else {
            5
        },
        NextStep::Apply => if failed {
            5
        } else {
            0
        },
    }
}

pub fn exit_code(step: NextStep, failed: bool, verified: bool) -> (r: i32)
    ensures
        r == exit_code_spec(step, failed, verified),
{
    match step {
        NextStep::Report => if failed {
            3
        } else {
            0
        },
        NextStep::Review { approval_missing } => if approval_missing {
            7
        } else {
            0
        },
        NextStep::Trial => if !failed {
            0
        } else if verified {
            6
        } else {
            5
        },
        NextStep::Apply => if failed {
            5
        } else {
            0
        },
    }
}

pub open spec fn approval_tail(plan_id: Seq<char>) -> Seq<Seq<char>> {
    seq!["--approve"@, plan_id, "--json"@, "--no-color"@, "--non-interactive"@]
}

/// The command line that approves a guided plan: the target, the flags the
/// plan was made with, the verification scripts, the state directory
/// (except for a trial), and the plan's identifier.
pub open spec fn guided_argv_spec(
    target: PackageManagerId,
    accept_lossy: bool,
    trial: bool,
    scripts: Seq<Seq<char>>,
    state_directory: Option<Seq<char>>,
    plan_id: Seq<char>,
) -> Seq<Seq<char>> {
    seq!["pkgshift"@, "to"@, manager_name(target)] + (if accept_lossy {
        seq!["--accept-lossy"@]
    } else {
        seq![]
    }) + (if trial {
        seq!["--trial"@]
    } else {
        seq![]
    }) + script_flags(scripts) + (match state_directory {
        Some(d) => if !trial {
            seq!["--state-dir"@, d]
        } else {
            seq![]
        },
        None => seq![],
    }) + approval_tail(plan_id)
}

/// `--verify-script` before each script.
pub open spec fn script_flags(scripts: Seq<Seq<char>>) -> Seq<Seq<char>>
    decreases scripts.len(),
{
    if scripts.len() == 0 {
        seq![]
    } else {
        script_flags(scripts.drop_last()) + seq!["--verify-script"@, scripts.last()]
    }
}

fn push_owned(v: &mut Vec<String>, s: &str)
    ensures
        strs(final(v)@) == strs(old(v)@).push(s@),
{
    let ghost before = v@;
    v.push(s.to_owned());
    assert(strs(v@) =~= strs(before).push(s@));
}

fn push_approval_tail(v: &mut Vec<String>, plan_id: &str)
    ensures
        strs(final(v)@) == strs(old(v)@) + approval_tail(plan_id@),
{
    let ghost o = strs(v@);
    push_owned(v, "--approve");
    push_owned(v, plan_id);
    push_owned(v, "--json");
    push_owned(v, "--no-color");
    push_owned(v, "--non-interactive");
    assert(strs(v@) =~= o + approval_tail(plan_id@));
}

/// The command line that approves a guided plan (see `guided_argv_spec`).
pub fn guided_approval_argv(
    target: PackageManagerId,
    accept_lossy: bool,
    trial: bool,
    scripts: &Vec<String>,
    state_directory: Option<&str>,
    plan_id: &str,
) -> (r: Vec<String>)
    ensures
        strs(r@) == guided_argv_spec(
            target,
            accept_lossy,
            trial,
            strs(scripts@),
            match state_directory {
                Some(d) => Some(d@),
                None => None,
            },
            plan_id@,
        ),
{
    let mut v: Vec<String> = Vec::new();
    push_owned(&mut v, "pkgshift");
    push_owned(&mut v, "to");
    push_owned(&mut v, target.as_str());
    assert(strs(v@) =~= seq!["pkgshift"@, "to"@, manager_name(target)]);
    let ghost head = strs(v@);
    if accept_lossy {
        push_owned(&mut v, "--accept-lossy");
    }
    if trial {
        push_owned(&mut v, "--trial");
    }
    let ghost flags = strs(v@);
    assert(flags =~= head + (if accept_lossy {
        seq!["--accept-lossy"@]
    } else {
        seq![]
    }) + (if trial {
        seq!["--trial"@]
    } else {
        seq![]
    }));
    let ghost sv = strs(scripts@);
    let mut i: usize = 0;
    assert(sv.take(0) =~= Seq::<Seq<char>>::empty());
    assert(flags + script_flags(sv.take(0)) =~= flags);
    while i < scripts.len()
        invariant
            i <= scripts.len(),
            sv == strs(scripts@),
            strs(v@) == flags + script_flags(sv.take(i as int)),
        decreases scripts.len() - i,
    {
        assert(sv.take(i + 1).drop_last() =~= sv.take(i as int));
        assert(sv.take(i + 1).last() == scripts@[i as int]@);
        push_owned(&mut v, "--verify-script");
        push_owned(&mut v, scripts[i].as_str());
        assert(strs(v@) =~= flags + script_flags(sv.take(i + 1)));
        i = i + 1;
    }
    assert(sv.take(scripts.len() as int) =~= sv);
    let ghost with_scripts = strs(v@);
    match state_directory {
        Some(d) => {
            if !trial {
                push_owned(&mut v, "--state-dir");
                push_owned(&mut v, d);
            }
        },
        None => {},
    }
    let ghost with_dir = strs(v@);
    push_approval_tail(&mut v, plan_id);
    assert(strs(v@) =~= guided_argv_spec(
        target,
        accept_lossy,
        trial,
        sv,
        match state_directory {
            Some(d) => Some(d@),
            None => None,
        },
        plan_id@,
    ));
    v
}

/// The review diagnostic of a guided plan that lacks its approval.
pub open spec fn guided_approval_required(target: PackageManagerId, trial: bool, plan_id: Seq<char>) -> DiagnosticView {
    DiagnosticView {
        code: "APPROVAL_REQUIRED"@,
        severity: DiagnosticSeverity::Error,
        summary: "Guided migration requires exact approval for "@ + plan_id + "."@,
        blocking: true,
        evidence: no_evidence(),
        remediation: seq![
            "Retry with pkgshift to "@ + manager_name(target) + (if trial {
                " --trial"@
            } else {
                ""@
            }) + " --approve "@ + plan_id + "."@,
        ],
    }
}

pub fn guided_approval_diagnostic(target: PackageManagerId, trial: bool, plan_id: &str) -> (r: Diagnostic)
    ensures
        r@ == guided_approval_required(target, trial, plan_id@),
{
    let mut summary = chars_of("Guided migration requires exact approval for ");
    push_str(&mut summary, plan_id);
    push_str(&mut summary, ".");
    let mut retry = chars_of("Retry with pkgshift to ");
    push_str(&mut retry, target.as_str());
    if trial {
        push_str(&mut retry, " --trial");
    } else {
        proof {
            reveal_strlit("");
        }
        assert(retry@ + ""@ =~= retry@);
    }
    push_str(&mut retry, " --approve ");
    push_str(&mut retry, plan_id);
    push_str(&mut retry, ".");
    let mut rem: Vec<String> = Vec::new();
    rem.push(string_of(&retry));
    let d = Diagnostic::blocking("APPROVAL_REQUIRED", string_of(&summary).as_str(), rem);
    assert(d@.evidence =~= no_evidence());
    assert(d@.remediation =~= guided_approval_required(target, trial, plan_id@).remediation);
    d
}

/// The files the plan's operations write or delete.
pub open spec fn touched_paths(ops: Seq<OperationView>) -> Set<Seq<char>>
    decreases ops.len(),
{
    if ops.len() == 0 {
        Set::empty()
    } else {
        touched_paths(ops.drop_last()).union(
            ops.last().mutations.map_values(|m: MutationView| m.path).to_set(),
        )
    }
}

/// The files the plan's operations write or delete, in increasing order.
pub(crate) fn touched_sorted(plan: &MigrationPlan) -> (v: Vec<Vec<char>>)
    ensures
        strictly_sorted(texts(v@)),
        texts(v@).to_set() == touched_paths(operations_view(plan.operations@)),
{
    let ghost ov = operations_view(plan.operations@);
    let mut v: Vec<Vec<char>> = Vec::new();
    let mut i: usize = 0;
    assert(touched_paths(ov.take(0)) =~= Set::empty());
    assert(texts(v@).to_set() =~= Set::empty());
    while i < plan.operations.len()
        invariant
            i <= plan.operations.len(),
            ov == operations_view(plan.operations@),
            strictly_sorted(texts(v@)),
            texts(v@).to_set() == touched_paths(ov.take(i as int)),
        decreases plan.operations.len() - i,
    {
        assert(ov.take(i + 1).drop_last() =~= ov.take(i as int));
        let ms = &plan.operations[i].mutations;
        let ghost mp = mutations_view(ms@).map_values(|m: MutationView| m.path);
        assert(ov.take(i + 1).last().mutations.map_values(|m: MutationView| m.path) == mp);
        let ghost base = touched_paths(ov.take(i as int));
        let mut k: usize = 0;
        assert(mp.take(0).to_set() =~= Set::empty());
        assert(base.union(Set::empty()) =~= base);
        while k < ms.len()
            invariant
                k <= ms.len(),
                mp == mutations_view(ms@).map_values(|m: MutationView| m.path),
                strictly_sorted(texts(v@)),
                texts(v@).to_set() == base.union(mp.take(k as int).to_set()),
            decreases ms.len() - k,
        {
            let c = chars_of(ms[k].path.as_str());
            insert_sorted(&mut v, c);
            proof {
                assert(mp.take(k + 1) =~= mp.take(k as int).push(c@));
                mp.take(k as int).lemma_push_to_set_commute(c@);
            }
            assert(texts(v@).to_set() =~= base.union(mp.take(k + 1).to_set()));
            k = k + 1;
        }
        assert(mp.take(ms.len() as int) =~= mp);
        i = i + 1;
    }
    assert(ov.take(plan.operations.len() as int) =~= ov);
    v
}

/// The number of distinct files the plan touches.
pub fn planned_file_count(plan: &MigrationPlan) -> (r: usize)
    ensures
        r == sorted_set(touched_paths(operations_view(plan.operations@))).len(),
{
    let v = touched_sorted(plan);
    proof {
        let s = touched_paths(operations_view(plan.operations@));
        assert(lists_sorted(texts(v@), s));
        assert(lists_sorted(sorted_set(s), s));
        crate::sorted::lemma_sorted_unique(sorted_set(s), texts(v@));
    }
    v.len()
}

/// Whether a runtime target is Deno (the one runtime target).
pub open spec fn runtime_target_supported_spec(target: Seq<char>) -> bool {
    ascii_lowercase(trim(target)) == "deno"@
}

pub fn runtime_target_supported(target: &str) -> (r: bool)
    ensures
        r == runtime_target_supported_spec(target@),
{
    let t = trimmed(&chars_of(target));
    let lower = ascii_lowercase_exec(&t);
    str_eq(&lower, "deno")
}

/// The permission a (trimmed, case-insensitive) name denotes.
pub open spec fn permission_from_name(value: Seq<char>) -> Option<DenoPermission> {
    let v = ascii_lowercase(trim(value));
    if exists|i: int| 0 <= i < 8 && v == permission_name(#[trigger] permission_at(i)) {
        Some(permission_at(choose|i: int| 0 <= i < 8 && v == permission_name(#[trigger] permission_at(i))))
    } else {
        None
    }
}

fn permission_of(value: &str) -> (r: Option<DenoPermission>)
    ensures
        r == permission_from_name(value@),
{
    let t = trimmed(&chars_of(value));
    let v = ascii_lowercase_exec(&t);
    let mut i: usize = 0;
    while i < 8
        invariant
            i <= 8,
            v@ == ascii_lowercase(trim(value@)),
            forall|j: int| 0 <= j < i ==> v@ != permission_name(#[trigger] permission_at(j)),
        decreases 8 - i,
    {
        let p = crate::runtime::model::permission_at_exec(i);
        if str_eq(&v, p.name()) {
            proof {
                let w = choose|j: int| 0 <= j < 8 && v@ == permission_name(#[trigger] permission_at(j));
                assert(permission_name(permission_at(w)) == permission_name(permission_at(i as int)));
                lemma_permission_names_distinct(w, i as int);
            }
            return Some(p);
        }
        i = i + 1;
    }
    None
}

proof fn lemma_permission_names_distinct(a: int, b: int)
    requires
        0 <= a < 8,
        0 <= b < 8,
        permission_name(permission_at(a)) == permission_name(permission_at(b)),
    ensures
        permission_at(a) == permission_at(b),
{
    reveal_strlit("read");
    reveal_strlit("write");
    reveal_strlit("net");
    reveal_strlit("env");
    reveal_strlit("run");
    reveal_strlit("sys");
    reveal_strlit("ffi");
    reveal_strlit("hrtime");
    let na = permission_name(permission_at(a));
    assert(na.len() >= 3);
    assert(na[0] == permission_name(permission_at(b))[0]);
    assert(na[1] == permission_name(permission_at(b))[1]);
}

/// Every Deno permission's own name denotes it.
pub proof fn law_permission_name_round_trip(p: DenoPermission)
    ensures
        permission_from_name(permission_name(p)) == Some(p),
{
    reveal_strlit("read");
    reveal_strlit("write");
    reveal_strlit("net");
    reveal_strlit("env");
    reveal_strlit("run");
    reveal_strlit("sys");
    reveal_strlit("ffi");
    reveal_strlit("hrtime");
    let i = crate::runtime::model::permission_index(p);
    assert(permission_at(i) == p);
    crate::model::lemma_plain_name(permission_name(p));
    let v = ascii_lowercase(trim(permission_name(p)));
    assert(v == permission_name(permission_at(i)));
    let w = choose|j: int| 0 <= j < 8 && v == permission_name(#[trigger] permission_at(j));
    lemma_permission_names_distinct(w, i);
}

/// The command line offered for approval names the plan exactly: its
/// `--approve` argument is the plan's identifier, and that approval lets an
/// executable plan go on to its trial or to being applied.
pub proof fn law_offered_approval_proceeds(
    target: PackageManagerId,
    accept_lossy: bool,
    trial: bool,
    scripts: Seq<Seq<char>>,
    state_directory: Option<Seq<char>>,
    plan_id: Seq<char>,
)
    ensures
        ({
            let argv = guided_argv_spec(target, accept_lossy, trial, scripts, state_directory, plan_id);
            &&& argv[argv.len() - 5] == "--approve"@
            &&& argv[argv.len() - 4] == plan_id
        }),
        next_step_spec(true, false, trial, Some(plan_id), plan_id) == (if trial {
            NextStep::Trial
        } else {
            NextStep::Apply
        }),
{
    let argv = guided_argv_spec(target, accept_lossy, trial, scripts, state_directory, plan_id);
    assert(argv.len() >= 5);
    assert(argv.subrange(argv.len() - 5, argv.len() as int) =~= approval_tail(plan_id));
}

/// The permissions the names denote, or the first name that denotes none.
pub open spec fn parse_permissions_spec(values: Seq<Seq<char>>) -> Result<Set<DenoPermission>, Seq<char>>
    decreases values.len(),
{
    if values.len() == 0 {
        Ok(Set::empty())
    } else {
        match permission_from_name(values[0]) {
            None => Err(values[0]),
            Some(p) => match parse_permissions_spec(values.drop_first()) {
                Err(e) => Err(e),
                Ok(s) => Ok(s.insert(p)),
            },
        }
    }
}

/// The permissions the names denote; on failure, the first name that
/// denotes none.
pub fn parse_permissions(values: &Vec<String>) -> (r: Result<PermissionSet, String>)
    ensures
        match r {
            Ok(s) => s.wf() && parse_permissions_spec(strs(values@)) == Ok::<Set<DenoPermission>, Seq<char>>(s@),
            Err(e) => parse_permissions_spec(strs(values@)) == Err::<Set<DenoPermission>, Seq<char>>(e@),
        },
{
    let ghost vs = strs(values@);
    let mut set = PermissionSet::new();
    let mut i: usize = 0;
    assert(vs.skip(0) =~= vs);
    proof {
        match parse_permissions_spec(vs) {
            Err(e) => {},
            Ok(s) => {
                assert(s.union(set@) =~= s);
            },
        }
    }
    while i < values.len()
        invariant
            i <= values.len(),
            vs == strs(values@),
            set.wf(),
            forall|j: int| 0 <= j < i ==> #[trigger] permission_from_name(vs[j]) is Some,
            parse_permissions_spec(vs) == match parse_permissions_spec(vs.skip(i as int)) {
                Err(e) => Err::<Set<DenoPermission>, Seq<char>>(e),
                Ok(s) => Ok(s.union(set@)),
            },
        decreases values.len() - i,
    {
        assert(vs.skip(i as int)[0] == vs[i as int]);
        assert(vs.skip(i as int).drop_first() =~= vs.skip(i + 1));
        match permission_of(values[i].as_str()) {
            None => {
                return Err(values[i].as_str().to_owned());
            },
            Some(p) => {
                let ghost before = set@;
                set.insert(p);
                proof {
                    match parse_permissions_spec(vs.skip(i + 1)) {
                        Err(e) => {},
                        Ok(s) => {
                            assert(s.insert(p).union(before) =~= s.union(set@));
                        },
                    }
                }
            },
        }
        i = i + 1;
    }
    assert(vs.skip(values.len() as int) =~= Seq::<Seq<char>>::empty());
    assert(Set::<DenoPermission>::empty().union(set@) =~= set@);
    Ok(set)
}

/// The command line that approves a runtime plan: the granted permissions,
/// the state directory if one was given, and the plan's identifier.
pub open spec fn runtime_argv_spec(
    permissions: Seq<DenoPermission>,
    state_directory: Option<Seq<char>>,
    plan_id: Seq<char>,
) -> Seq<Seq<char>> {
    seq!["pkgshift"@, "runtime"@, "to"@, "deno"@] + permission_flags(permissions) + (match state_directory {
        Some(d) => seq!["--state-dir"@, d],
        None => seq![],
    }) + approval_tail(plan_id)
}

/// `--deno-permission` before each permission's name.
pub open spec fn permission_flags(ps: Seq<DenoPermission>) -> Seq<Seq<char>>
    decreases ps.len(),
{
    if ps.len() == 0 {
        seq![]
    } else {
        permission_flags(ps.drop_last()) + seq!["--deno-permission"@, permission_name(ps.last())]
    }
}

pub fn runtime_approval_argv(permissions: &Vec<DenoPermission>, state_directory: Option<&str>, plan_id: &str) -> (r: Vec<
    String,
>)
    ensures
        strs(r@) == runtime_argv_spec(
            permissions@,
            match state_directory {
                Some(d) => Some(d@),
                None => None,
            },
            plan_id@,
        ),
{
    let mut v: Vec<String> = Vec::new();
    push_owned(&mut v, "pkgshift");
    push_owned(&mut v, "runtime");
    push_owned(&mut v, "to");
    push_owned(&mut v, "deno");
    let ghost head = strs(v@);
    assert(head =~= seq!["pkgshift"@, "runtime"@, "to"@, "deno"@]);
    let mut i: usize = 0;
    assert(permissions@.take(0) =~= Seq::<DenoPermission>::empty());
    assert(head + permission_flags(permissions@.take(0)) =~= head);
    while i < permissions.len()
        invariant
            i <= permissions.len(),
            strs(v@) == head + permission_flags(permissions@.take(i as int)),
        decreases permissions.len() - i,
    {
        assert(permissions@.take(i + 1).drop_last() =~= permissions@.take(i as int));
        push_owned(&mut v, "--deno-permission");
        push_owned(&mut v, permissions[i].name());
        assert(strs(v@) =~= head + permission_flags(permissions@.take(i + 1)));
        i = i + 1;
    }
    assert(permissions@.take(permissions.len() as int) =~= permissions@);
    match state_directory {
        Some(d) => {
            push_owned(&mut v, "--state-dir");
            push_owned(&mut v, d);
        },
        None => {},
    }
    push_approval_tail(&mut v, plan_id);
    assert(strs(v@) =~= runtime_argv_spec(
        permissions@,
        match state_directory {
            Some(d) => Some(d@),
            None => None,
        },
        plan_id@,
    ));
    v
}

/// The review diagnostic of a runtime plan that lacks its approval.
pub open spec fn runtime_approval_required(plan_id: Seq<char>) -> DiagnosticView {
    DiagnosticView {
        code: "APPROVAL_REQUIRED"@,
        severity: DiagnosticSeverity::Error,
        summary: "Runtime migration requires exact approval for "@ + plan_id + "."@,
        blocking: true,
        evidence: no_evidence(),
        remediation: seq!["Execute the returned nextActions[0].argv unchanged after review."@],
    }
}

pub fn runtime_approval_diagnostic(plan_id: &str) -> (r: Diagnostic)
    ensures
        r@ == runtime_approval_required(plan_id@),
{
    let mut summary = chars_of("Runtime migration requires exact approval for ");
    push_str(&mut summary, plan_id);
    push_str(&mut summary, ".");
    let mut rem: Vec<String> = Vec::new();
    rem.push("Execute the returned nextActions[0].argv unchanged after review.".to_owned());
    let d = Diagnostic::blocking("APPROVAL_REQUIRED", string_of(&summary).as_str(), rem);
    assert(d@.evidence =~= no_evidence());
    assert(d@.remediation =~= runtime_approval_required(plan_id@).remediation);
    d
}


/// Why the targets of a comparison were refused.
#[derive(Debug, Clone, PartialEq, Eq)]
pub enum TargetsRefusal {
    /// The first target that names no package manager.
    Unsupported(String),
    /// Fewer than two distinct package managers were named.
    TooFew,
}

/// The first of the values that names no package manager.
pub open spec fn first_unknown(ts: Seq<Seq<char>>) -> Option<Seq<char>>
    decreases ts.len(),
{
    if ts.len() == 0 {
        None
    } else if parse_manager_spec(ts[0]) is None {
        Some(ts[0])
    } else {
        first_unknown(ts.drop_first())
    }
}

/// Whether one of the values names `m`.
pub open spec fn named(ts: Seq<Seq<char>>, m: PackageManagerId) -> bool {
    exists|j: int| 0 <= j < ts.len() && parse_manager_spec(#[trigger] ts[j]) == Some(m)
}

/// The package managers the values name, each once, in catalog order.
pub open spec fn chosen_targets(ts: Seq<Seq<char>>) -> Seq<PackageManagerId> {
    Seq::new(7, |i: int| manager_at(i)).filter(|m: PackageManagerId| named(ts, m))
}

/// The distinct targets of a comparison, in catalog order; refused at the
/// first value that names no package manager, or when fewer than two
/// distinct package managers are named.
pub fn normalize_targets(targets: &Vec<String>) -> (r: Result<Vec<PackageManagerId>, TargetsRefusal>)
    ensures
        match r {
            Ok(ids) => first_unknown(strs(targets@)) is None && chosen_targets(strs(targets@)).len() >= 2 && ids@
                == chosen_targets(strs(targets@)),
            Err(TargetsRefusal::Unsupported(v)) => first_unknown(strs(targets@)) == Some(v@),
            Err(TargetsRefusal::TooFew) => first_unknown(strs(targets@)) is None && chosen_targets(
                strs(targets@),
            ).len() < 2,
        },
{
    let ghost ts = strs(targets@);
    let mut present: Vec<bool> = vec![false, false, false, false, false, false, false];
    let mut i: usize = 0;
    assert(ts.skip(0) =~= ts);
    while i < targets.len()
        invariant
            i <= targets.len(),
            ts == strs(targets@),
            present@.len() == 7,
            first_unknown(ts) == first_unknown(ts.skip(i as int)),
            forall|k: int|
                0 <= k < 7 ==> (present@[k] <==> exists|j: int|
                    0 <= j < i && parse_manager_spec(#[trigger] ts[j]) == Some(manager_at(k))),
        decreases targets.len() - i,
    {
        assert(ts.skip(i as int)[0] == ts[i as int]);
        assert(ts.skip(i as int).drop_first() =~= ts.skip(i + 1));
        match normalize_package_manager_id(targets[i].as_str()) {
            None => {
                return Err(TargetsRefusal::Unsupported(targets[i].as_str().to_owned()));
            },
            Some(m) => {
                let k = m.rank() as usize;
                assert(manager_at(k as int) == m);
                present.set(k, true);
                assert forall|q: int| 0 <= q < 7 implies (present@[q] <==> exists|j: int|
                    0 <= j < i + 1 && parse_manager_spec(#[trigger] ts[j]) == Some(manager_at(q))) by {
                    if q == k {
                        assert(parse_manager_spec(ts[i as int]) == Some(manager_at(q)));
                    } else {
                        if exists|j: int| 0 <= j < i + 1 && parse_manager_spec(#[trigger] ts[j]) == Some(manager_at(q)) {
                            let j = choose|j: int| 0 <= j < i + 1 && parse_manager_spec(#[trigger] ts[j]) == Some(manager_at(q));
                            if j == i {
                                assert(manager_at(q) == m);
                                assert(false);
                            }
                        }
                    }
                }
            },
        }
        i = i + 1;
    }
    assert(ts.skip(targets.len() as int) =~= Seq::<Seq<char>>::empty());
    let ghost all = Seq::new(7, |q: int| manager_at(q));
    let ghost pred = |m: PackageManagerId| named(ts, m);
    let mut ids: Vec<PackageManagerId> = Vec::new();
    let mut k: usize = 0;
    while k < 7
        invariant
            k <= 7,
            present@.len() == 7,
            all == Seq::new(7, |q: int| manager_at(q)),
            pred == (|m: PackageManagerId| named(ts, m)),
            forall|q: int| 0 <= q < 7 ==> (present@[q] <==> named(ts, #[trigger] manager_at(q))),
            ids@ == all.take(k as int).filter(pred),
        decreases 7 - k,
    {
        proof {
            assert(all.take(k + 1).drop_last() =~= all.take(k as int));
            reveal_with_fuel(Seq::filter, 1);
        }
        if present[k] {
            let m = crate::detect::manager_at_exec(k);
            ids.push(m);
        }
        k = k + 1;
    }
    assert(all.take(7) =~= all);
    if ids.len() < 2 {
        Err(TargetsRefusal::TooFew)
    } else {
        Ok(ids)
    }
}

/// The diagnostic of refused comparison targets.
pub open spec fn targets_refused(unsupported: Option<Seq<char>>) -> DiagnosticView {
    match unsupported {
        Some(v) => DiagnosticView {
            code: "PM_TARGET_UNSUPPORTED"@,
            severity: DiagnosticSeverity::Error,
            summary: "Unsupported package manager target: "@ + v,
            blocking: true,
            evidence: no_evidence(),
            remediation: seq!["Run pkgshift support and use a listed adapter identifier."@],
        },
        None => DiagnosticView {
            code: "COMPARISON_TARGET_COUNT_INVALID"@,
            severity: DiagnosticSeverity::Error,
            summary: "Multi-target comparison requires at least two distinct package manager targets."@,
            blocking: true,
            evidence: no_evidence(),
            remediation: seq!["Provide two or more targets, for example: pkgshift compare bun deno."@],
        },
    }
}

pub fn targets_refusal_diagnostic(refusal: &TargetsRefusal) -> (r: Diagnostic)
    ensures
        r@ == targets_refused(
            match refusal {
                TargetsRefusal::Unsupported(v) => Some(v@),
                TargetsRefusal::TooFew => None,
            },
        ),
{
    let mut rem: Vec<String> = Vec::new();
    let d = match refusal {
        TargetsRefusal::Unsupported(v) => {
            rem.push("Run pkgshift support and use a listed adapter identifier.".to_owned());
            let mut summary = chars_of("Unsupported package manager target: ");
            push_str(&mut summary, v.as_str());
            Diagnostic::blocking("PM_TARGET_UNSUPPORTED", string_of(&summary).as_str(), rem)
        },
        TargetsRefusal::TooFew => {
            rem.push("Provide two or more targets, for example: pkgshift compare bun deno.".to_owned());
            Diagnostic::blocking(
                "COMPARISON_TARGET_COUNT_INVALID",
                "Multi-target comparison requires at least two distinct package manager targets.",
                rem,
            )
        },
    };
    assert(d@.evidence =~= no_evidence());
    assert(d@.remediation =~= targets_refused(
        match refusal {
            TargetsRefusal::Unsupported(v) => Some(v@),
            TargetsRefusal::TooFew => None,
        },
    ).remediation);
    d
}

} // verus!
