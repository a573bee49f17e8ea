use pkgshift::model::{Diagnostic, DiagnosticSeverity, EvidenceDetail};
use pkgshift::runtime::model::{DenoPermission, PermissionSet, RuntimeFile, RuntimeInspection};
use pkgshift::model::VerificationStatus;
use pkgshift::runtime::plan::{create_runtime_plan, runtime_plan_examinable};
use pkgshift::runtime::transaction::{
    finish_runtime_rollback, runtime_apply_gate, runtime_rollback_gate, verify_runtime,
};

fn hono_inspection() -> RuntimeInspection {
    RuntimeInspection {
        fingerprint: "runtime_repo_fixture".to_owned(),
        files: vec![RuntimeFile {
            path: "src/index.ts".to_owned(),
            content: "import { Hono } from \"hono\";\nconst app = new Hono();\nBun.serve({ port: 3000, fetch: app.fetch });\n"
                .to_owned(),
        }],
        bun_evidence: vec!["src/index.ts:Bun global API".to_owned()],
        input_diagnostics: Vec::new(),
    }
}

#[test]
fn permission_is_part_of_executability_and_identity() {
    let inspection = hono_inspection();
    assert!(runtime_plan_examinable(&inspection));
    let blocked = create_runtime_plan(&inspection, &PermissionSet::new());
    let executable = create_runtime_plan(&inspection, &PermissionSet::from_slice(&[DenoPermission::Net]));
    assert!(!blocked.executable);
    assert!(executable.executable);
    assert_ne!(blocked.plan_id, executable.plan_id);
    assert!(blocked.diagnostics.iter().any(|d| d.code == "DENO_PERMISSION_REQUIRED"));
    assert_eq!(executable.permissions, vec![DenoPermission::Net]);
    assert_eq!(executable.operations.len(), 1);
    let operation = &executable.operations[0];
    assert_eq!(operation.id, "runtime.apply-recipes");
    assert_eq!(operation.paths, vec!["src/index.ts"]);
    let mutation = &operation.mutations[0];
    assert!(mutation.before_digest.as_deref().is_some_and(|d| d.starts_with("sha256:")));
    assert_ne!(mutation.before_digest, mutation.after_digest);
    assert!(executable.plan_id.starts_with("runtime_plan_"));
    assert_eq!(executable.verification, vec!["planned-after-digests", "bun-runtime-residue"]);
}

#[test]
fn oversized_inputs_block_without_claiming_no_bun_source() {
    let inspection = RuntimeInspection {
        fingerprint: "runtime_repo_large".to_owned(),
        files: Vec::new(),
        bun_evidence: Vec::new(),
        input_diagnostics: vec![Diagnostic {
            code: "RUNTIME_SOURCE_FILE_TOO_LARGE".to_owned(),
            severity: DiagnosticSeverity::Error,
            summary: "A runtime input exceeds the deterministic inspection size limit.".to_owned(),
            blocking: true,
            evidence: vec![EvidenceDetail {
                location: "src.ts".to_owned(),
                detail: "The runtime inspection boundary cannot safely read this entry.".to_owned(),
            }],
            remediation: vec!["Split the file below 512,000 bytes or migrate it explicitly before retrying.".to_owned()],
        }],
    };
    let plan = create_runtime_plan(&inspection, &PermissionSet::new());
    assert!(!plan.executable);
    assert!(plan.diagnostics.iter().any(|d| d.code == "RUNTIME_SOURCE_FILE_TOO_LARGE"));
    assert!(plan.diagnostics.iter().all(|d| d.code != "RUNTIME_BUN_SOURCE_NOT_DETECTED"));
}

#[test]
fn reports_a_project_without_bun_evidence() {
    let inspection = RuntimeInspection {
        fingerprint: "runtime_repo_empty".to_owned(),
        files: vec![RuntimeFile { path: "main.ts".to_owned(), content: "console.log(1);\n".to_owned() }],
        bun_evidence: Vec::new(),
        input_diagnostics: Vec::new(),
    };
    let plan = create_runtime_plan(&inspection, &PermissionSet::new());
    assert!(!plan.executable);
    assert!(plan.operations.is_empty());
    assert_eq!(plan.diagnostics.len(), 1);
    assert_eq!(plan.diagnostics[0].code, "RUNTIME_BUN_SOURCE_NOT_DETECTED");
}

#[test]
fn keeps_one_diagnostic_per_code_and_location() {
    let twice = Diagnostic {
        code: "RUNTIME_SOURCE_SYMLINK_UNSUPPORTED".to_owned(),
        severity: DiagnosticSeverity::Error,
        summary: "first".to_owned(),
        blocking: true,
        evidence: vec![EvidenceDetail { location: "b.ts".to_owned(), detail: "x".to_owned() }],
        remediation: Vec::new(),
    };
    let mut second = twice.clone();
    second.summary = "second".to_owned();
    let mut other = twice.clone();
    other.evidence[0].location = "a.ts".to_owned();
    let inspection = RuntimeInspection {
        fingerprint: "runtime_repo_links".to_owned(),
        files: Vec::new(),
        bun_evidence: Vec::new(),
        input_diagnostics: vec![twice, second, other],
    };
    let plan = create_runtime_plan(&inspection, &PermissionSet::new());
    assert_eq!(plan.diagnostics.len(), 2);
    assert_eq!(plan.diagnostics[0].evidence[0].location, "a.ts");
    assert_eq!(plan.diagnostics[1].summary, "first");
}

#[test]
fn gates_verifies_and_rolls_back_a_runtime_run() {
    let inspection = hono_inspection();
    let plan = create_runtime_plan(&inspection, &PermissionSet::from_slice(&[DenoPermission::Net]));
    let id = plan.plan_id.clone();
    assert_eq!(
        runtime_apply_gate(&plan, None, "runtime_repo_fixture").unwrap_err(),
        format!("runtime apply requires exact approval for {id}")
    );
    assert_eq!(
        runtime_apply_gate(&plan, Some(&id), "runtime_repo_other").unwrap_err(),
        "runtime migration-relevant repository evidence changed after planning"
    );
    assert!(runtime_apply_gate(&plan, Some(&id), "runtime_repo_fixture").is_ok());
    let blocked = create_runtime_plan(&inspection, &PermissionSet::new());
    assert_eq!(
        runtime_apply_gate(&blocked, Some(&blocked.plan_id), "runtime_repo_fixture").unwrap_err(),
        format!("runtime plan {} is not executable", blocked.plan_id)
    );

    let after = plan.operations[0].mutations[0].after_digest.clone();
    let clean = verify_runtime(&plan, "runtime_run_1", &vec![after.clone()], &Vec::new());
    assert_eq!(clean.status, VerificationStatus::Passed);
    assert!(clean.diagnostics.is_empty());
    let residues = vec!["src/index.ts:Bun global API".to_owned()];
    let dirty = verify_runtime(&plan, "runtime_run_1", &vec![Some("sha256:x".to_owned())], &residues);
    assert_eq!(dirty.status, VerificationStatus::Failed);
    let codes: Vec<&str> = dirty.diagnostics.iter().map(|d| d.code.as_str()).collect();
    assert_eq!(codes, vec!["RUNTIME_AFTER_DIGEST_FAILED", "RUNTIME_BUN_RESIDUE_REMAINS"]);
    assert_eq!(dirty.diagnostics[1].summary, "1 Bun runtime reference(s) remain after migration.");
    assert_eq!(dirty.diagnostics[1].evidence[0].location, "src/index.ts");
    assert_eq!(
        dirty.diagnostics[1].remediation,
        vec!["Run pkgshift runtime rollback runtime_run_1 --approve runtime_run_1.".to_owned()]
    );
    assert!(!verify_runtime(&plan, "r", &Vec::new(), &Vec::new()).digests_passed);

    assert_eq!(
        runtime_rollback_gate("runtime_run_1", Some("x"), "succeeded").unwrap_err(),
        "runtime rollback requires exact approval for runtime_run_1"
    );
    assert_eq!(
        runtime_rollback_gate("runtime_run_1", Some("runtime_run_1"), "rolled-back").unwrap_err(),
        "runtime run runtime_run_1 is already rolled back"
    );
    let (state, diagnostics) = finish_runtime_rollback("runtime_run_1", "base", "base");
    assert_eq!(state, "rolled-back");
    assert!(diagnostics.is_empty());
    let (state, diagnostics) = finish_runtime_rollback("runtime_run_1", "base", "other");
    assert_eq!(state, "rollback-failed");
    assert_eq!(diagnostics[0].code, "RUNTIME_ROLLBACK_FAILED");
}
