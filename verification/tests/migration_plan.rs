use pkgshift::capability::analyze_capabilities;
use pkgshift::checks::verify_plan;
use pkgshift::cleanup::{
    clean_install_check, contains_command_token, is_source_code_path, plan_operation, runtime_reference_diagnostics,
    source_artifact_check, source_only_artifacts_exec,
};
use pkgshift::detect::detect_from_files;
use pkgshift::apply::{apply_gate, apply_step, begin_run, snapshot_paths, start_run, ApplyAction, ApplyEvent};
use pkgshift::guidance::planned_file_count;
use pkgshift::model::ProcessExecutionRecord;
use pkgshift::json::JsonValue;
use pkgshift::store::{digest_json, seal};
use pkgshift::doctor::{assess, migration_effects, ReadinessContext, ReadinessVerdict};
use pkgshift::model::{
    DependencyStateCleanupRecord, ManifestInspection, MigrationPlan, MutationAction, PackageIr, PackageManagerId,
    PlannedFileMutation, ProjectInspection, ProjectIr, StoredRun, VerificationStatus, WorkspaceInspection,
    SCHEMA_VERSION,
};
use pkgshift::plan::{op_id_exec, plan_package_manager_migration, ProjectTransformation};
use pkgshift::policy::{EdgeEquivalencePolicy, TargetPlatform, VerificationPolicy};
use pkgshift::project_ir::build_project_ir;
use pkgshift::transaction::{
    check_rollback_approval, check_rollback_state, load_run, plan_path, rollback_gate, rollback_stored_run, run_path,
    verify_stored_run,
};

fn inspection(package_manager: &str, files: &[&str]) -> ProjectInspection {
    let present: Vec<String> = files.iter().map(|f| f.to_string()).collect();
    ProjectInspection {
        root: "/fixture".to_owned(),
        fingerprint: "sha256:fixture".to_owned(),
        relevant_files: present.clone(),
        manifest: Some(ManifestInspection {
            path: "package.json".to_owned(),
            name: Some("fixture".to_owned()),
            private: Some(true),
            package_manager: Some(package_manager.to_owned()),
        }),
        package_manager: detect_from_files(Some(package_manager), &present),
        workspace: WorkspaceInspection { configured: false, sources: Vec::new() },
        integrations: Vec::new(),
        diagnostics: Vec::new(),
    }
}

fn project_of(inspection: &ProjectInspection, manifest: &str) -> ProjectIr {
    build_project_ir(
        inspection,
        &inspection.relevant_files,
        &[("package.json".to_owned(), manifest.to_owned())],
        None,
        None,
        false,
        false,
    )
    .expect("IR build")
    .expect("project IR")
}

fn no_transformation() -> ProjectTransformation {
    ProjectTransformation {
        diagnostics: Vec::new(),
        manifest_mutations: Vec::new(),
        configuration_mutations: Vec::new(),
        integration_mutations: Vec::new(),
        cleanup_mutations: Vec::new(),
    }
}

fn write(path: &str, capability: &str) -> PlannedFileMutation {
    PlannedFileMutation {
        path: path.to_owned(),
        action: MutationAction::Write,
        before_digest: None,
        after_digest: Some("sha256:after".to_owned()),
        content: Some("{}".to_owned()),
        reason: "render".to_owned(),
        capabilities: vec![capability.to_owned()],
    }
}

fn plan_for(
    inspection: &ProjectInspection,
    project: &ProjectIr,
    target: PackageManagerId,
    transformation: &ProjectTransformation,
    policy: &VerificationPolicy,
) -> MigrationPlan {
    let analysis = analyze_capabilities(project, target).expect("analysis").expect("source selected");
    plan_package_manager_migration(inspection, project, &analysis, None, target, false, policy, transformation, &Vec::new())
        .expect("selected source")
}

#[test]
fn operation_identifiers_have_three_digits_at_least() {
    assert_eq!(op_id_exec(1), "op_001");
    assert_eq!(op_id_exec(42), "op_042");
    assert_eq!(op_id_exec(1234), "op_1234");
}

#[test]
fn plans_a_pnpm_project_to_bun_in_order() {
    let inspection = inspection("pnpm@11.21.0", &["package.json", "pnpm-lock.yaml"]);
    let project = project_of(&inspection, r#"{"name":"fixture","private":true}"#);
    let mut transformation = no_transformation();
    transformation.manifest_mutations.push(write("package.json", "b.cap"));
    transformation.manifest_mutations.push(write("packages/a/package.json", "a.cap"));
    transformation.cleanup_mutations.push(PlannedFileMutation {
        path: "pnpm-lock.yaml".to_owned(),
        action: MutationAction::Delete,
        before_digest: Some("sha256:before".to_owned()),
        after_digest: None,
        content: None,
        reason: "retire".to_owned(),
        capabilities: Vec::new(),
    });
    let plan = plan_for(&inspection, &project, PackageManagerId::Bun, &transformation, &VerificationPolicy::default_policy());
    assert_eq!(plan.source, PackageManagerId::Pnpm);
    assert_eq!(plan.target, PackageManagerId::Bun);
    assert!(plan.plan_id.starts_with("plan_"));
    let kinds: Vec<&str> = plan.operations.iter().map(|o| o.kind.as_str()).collect();
    assert_eq!(
        kinds,
        vec![
            "manifest.render-target",
            "dependency.clean-source-state",
            "dependency.install-target",
            "source.retire",
            "migration.verify",
        ]
    );
    let ids: Vec<&str> = plan.operations.iter().map(|o| o.id.as_str()).collect();
    assert_eq!(ids, vec!["op_001", "op_002", "op_003", "op_004", "op_005"]);
    assert_eq!(plan.operations[0].description, "Render Bun-compatible package manifests.");
    assert_eq!(plan.operations[0].capabilities, vec!["a.cap", "b.cap"]);
    assert_eq!(plan.operations[0].paths, vec!["package.json", "packages/a/package.json"]);
    assert_eq!(plan.operations[1].paths, vec!["node_modules"]);
    assert_eq!(plan.operations[2].description, "Generate Bun dependency state without lifecycle scripts.");
    assert_eq!(plan.operations[2].command, vec!["bun", "install", "--ignore-scripts"]);
    assert_eq!(plan.operations[3].description, "Retire source-only pnpm artifacts.");
    assert_eq!(
        plan.verification.last().map(String::as_str),
        Some("resolved graph comparison is skipped when no source lockfile exists")
    );
    let requirement = plan.target_executable.as_ref().expect("target executable");
    assert_eq!(requirement.required_version, "1.3.14");
    assert_eq!(requirement.package_manager_pin, "bun@1.3.14");
    assert_eq!(plan.executable, !plan.diagnostics.iter().any(|d| d.blocking));
    assert_eq!(planned_file_count(&plan), 3);
}

#[test]
fn the_same_manager_is_no_migration() {
    let inspection = inspection("pnpm@11.21.0", &["package.json", "pnpm-lock.yaml"]);
    let project = project_of(&inspection, r#"{"name":"fixture"}"#);
    let plan = plan_for(&inspection, &project, PackageManagerId::Pnpm, &no_transformation(), &VerificationPolicy::default_policy());
    assert!(plan.operations.is_empty());
    assert!(!plan.executable);
    assert!(plan.diagnostics.iter().any(|d| d.code == "PM_TARGET_ALREADY_SELECTED"));
}

#[test]
fn the_verification_policy_is_part_of_the_plan_identity() {
    let inspection = inspection("pnpm@11.21.0", &["package.json", "pnpm-lock.yaml"]);
    let project = project_of(&inspection, r#"{"name":"fixture"}"#);
    let default_plan =
        plan_for(&inspection, &project, PackageManagerId::Bun, &no_transformation(), &VerificationPolicy::default_policy());
    let strict = VerificationPolicy {
        target_platforms: vec![TargetPlatform { os: "darwin".to_owned(), cpu: "arm64".to_owned(), libc: None }],
        edge_equivalence: EdgeEquivalencePolicy::Strict,
    };
    let strict_plan = plan_for(&inspection, &project, PackageManagerId::Bun, &no_transformation(), &strict);
    assert_ne!(default_plan.plan_id, strict_plan.plan_id);
    assert_eq!(strict_plan.verification_policy, strict);
    let again = plan_for(&inspection, &project, PackageManagerId::Bun, &no_transformation(), &strict);
    assert_eq!(again.plan_id, strict_plan.plan_id);
}

#[test]
fn effects_list_what_the_plan_touches() {
    let inspection = inspection("pnpm@11.21.0", &["package.json", "pnpm-lock.yaml"]);
    let project = project_of(&inspection, r#"{"name":"fixture"}"#);
    let mut transformation = no_transformation();
    transformation.manifest_mutations.push(write("package.json", "x"));
    transformation.cleanup_mutations.push(PlannedFileMutation {
        path: "pnpm-lock.yaml".to_owned(),
        action: MutationAction::Delete,
        before_digest: None,
        after_digest: None,
        content: None,
        reason: "retire".to_owned(),
        capabilities: Vec::new(),
    });
    let plan = plan_for(&inspection, &project, PackageManagerId::Bun, &transformation, &VerificationPolicy::default_policy());
    let effects = migration_effects(Some(&plan), &vec!["test".to_owned()]);
    assert_eq!(effects.file_writes, vec!["package.json"]);
    assert_eq!(effects.file_deletions, vec!["pnpm-lock.yaml"]);
    assert_eq!(effects.source_artifact_retirements, vec!["pnpm-lock.yaml"]);
    assert_eq!(effects.dependency_state_cleanups, vec!["node_modules"]);
    assert_eq!(effects.process_commands, vec![vec!["bun".to_owned(), "install".to_owned(), "--ignore-scripts".to_owned()]]);
    assert_eq!(effects.verification_scripts, vec!["test"]);
    let none = migration_effects(None, &Vec::new());
    assert!(none.file_writes.is_empty() && none.process_commands.is_empty());
}

#[test]
fn assesses_readiness_from_the_plan() {
    let inspection = inspection("pnpm@11.21.0", &["package.json", "pnpm-lock.yaml"]);
    let project = project_of(&inspection, r#"{"name":"fixture","scripts":{"test":"vitest"}}"#);
    let context = ReadinessContext { inspection, project_ir: Some(project), source_lock_graph: None };
    let assessment = assess(
        &context,
        PackageManagerId::Bun,
        false,
        &Vec::new(),
        &VerificationPolicy::default_policy(),
        &no_transformation(),
        &Vec::new(),
    );
    let report = &assessment.report;
    assert!(assessment.capability_analysis.is_some());
    assert!(report.read_only);
    assert!(report.report_id.starts_with("doctor_"));
    assert_eq!(report.package_count, 1);
    assert_eq!(report.available_root_scripts, vec!["test"]);
    assert_eq!(report.source, Some(PackageManagerId::Pnpm));
    let expected = if report.diagnostics.iter().any(|d| d.blocking) {
        report.verdict == ReadinessVerdict::Blocked || report.verdict == ReadinessVerdict::ReviewRequired
    } else {
        report.verdict == ReadinessVerdict::Ready || report.verdict == ReadinessVerdict::ReviewRequired
    };
    assert!(expected);
    let selected = assess(
        &context,
        PackageManagerId::Pnpm,
        false,
        &Vec::new(),
        &VerificationPolicy::default_policy(),
        &no_transformation(),
        &Vec::new(),
    );
    assert_eq!(selected.report.verdict, ReadinessVerdict::AlreadySelected);
    assert!(!selected.report.migration_available);
}

fn bun_project(paths: &[&str]) -> ProjectIr {
    ProjectIr {
        schema_version: SCHEMA_VERSION.to_owned(),
        project_ir_id: "ir_cleanup".to_owned(),
        repository_fingerprint: "sha256:fixture".to_owned(),
        source: Some(PackageManagerId::Bun),
        root_package_path: ".".to_owned(),
        packages: paths
            .iter()
            .map(|path| PackageIr {
                path: (*path).to_owned(),
                manifest_path: if *path == "." { "package.json".to_owned() } else { format!("{path}/package.json") },
                name: None,
                version: None,
                private: Some(true),
                dependencies: Vec::new(),
                script_names: Vec::new(),
            })
            .collect(),
        workspace_patterns: Vec::new(),
        features: Vec::new(),
        integrations: Vec::new(),
        diagnostics: Vec::new(),
    }
}

#[test]
fn plans_the_removal_of_package_local_dependency_state() {
    let operation = plan_operation(4, &bun_project(&["packages/app", "."]));
    assert_eq!(operation.id, "op_004");
    assert_eq!(operation.paths, ["node_modules", "packages/app/node_modules"]);
    assert!(!operation.reversible);
    assert_eq!(operation.kind, "dependency.clean-source-state");
}

#[test]
fn checks_cleanup_records_against_the_plan() {
    let inspection = inspection("bun@1.3.14", &["package.json", "bun.lock"]);
    let project = bun_project(&[".", "packages/app"]);
    let analysis = analyze_capabilities(&project, PackageManagerId::Deno).expect("analysis").expect("source");
    let plan = plan_package_manager_migration(
        &inspection,
        &project,
        &analysis,
        None,
        PackageManagerId::Deno,
        true,
        &VerificationPolicy::default_policy(),
        &no_transformation(),
        &Vec::new(),
    )
    .expect("plan");
    let cleanup_id = plan.operations.iter().find(|o| o.kind == "dependency.clean-source-state").expect("cleanup").id.clone();
    let record = DependencyStateCleanupRecord {
        operation_id: cleanup_id.clone(),
        removed_paths: vec!["node_modules".to_owned()],
        absent_paths: vec!["packages/app/node_modules".to_owned()],
    };
    let passed = clean_install_check(&plan, &[record]);
    assert_eq!(passed.status, VerificationStatus::Passed);
    assert_eq!(passed.evidence, vec!["removed:node_modules", "alreadyAbsent:packages/app/node_modules"]);
    let failed = clean_install_check(&plan, &[]);
    assert_eq!(failed.status, VerificationStatus::Failed);
    assert_eq!(failed.evidence, vec![format!("missingRecord:{cleanup_id}")]);
    let partial = DependencyStateCleanupRecord {
        operation_id: cleanup_id,
        removed_paths: vec!["node_modules".to_owned()],
        absent_paths: Vec::new(),
    };
    assert_eq!(clean_install_check(&plan, &[partial]).status, VerificationStatus::Failed);
    let mut older = plan.clone();
    older.operations.clear();
    assert_eq!(clean_install_check(&older, &[]).status, VerificationStatus::Skipped);
}

#[test]
fn source_artifacts_are_those_the_target_does_not_use() {
    assert_eq!(source_only_artifacts_exec(PackageManagerId::Pnpm, PackageManagerId::Bun), vec![
        "pnpm-lock.yaml",
        "pnpm-workspace.yaml",
        ".pnpmfile.cjs",
    ]);
    assert_eq!(source_only_artifacts_exec(PackageManagerId::Deno, PackageManagerId::Npm), vec!["deno.lock"]);
    let inspection = inspection("pnpm@11.21.0", &["package.json", "pnpm-lock.yaml"]);
    let project = project_of(&inspection, r#"{"name":"fixture"}"#);
    let plan = plan_for(&inspection, &project, PackageManagerId::Bun, &no_transformation(), &VerificationPolicy::default_policy());
    let clean = source_artifact_check(&plan, &vec!["package.json".to_owned()]);
    assert_eq!(clean.status, VerificationStatus::Passed);
    assert_eq!(clean.evidence, vec!["retired:3"]);
    let residue = source_artifact_check(&plan, &vec!["pnpm-lock.yaml".to_owned()]);
    assert_eq!(residue.status, VerificationStatus::Failed);
    assert_eq!(residue.summary, "1 source-only package manager artifacts remain.");
}

#[test]
fn reports_bun_runtime_references_in_manifests_and_sources() {
    let manifest = r#"{
  "devDependencies": { "@types/bun": "1.3.14" },
  "scripts": { "test": "bun test" }
}
"#;
    let source = "import { test } from \"bun:test\";\nBun.serve({ fetch() {} });\n";
    let diagnostics = runtime_reference_diagnostics(
        &bun_project(&["."]),
        PackageManagerId::Deno,
        &[("package.json".to_owned(), manifest.to_owned())],
        &[("src/server.ts".to_owned(), source.to_owned()), ("README.md".to_owned(), "Bun.serve".to_owned())],
    )
    .expect("runtime reference scan");
    assert_eq!(diagnostics.len(), 1);
    assert_eq!(diagnostics[0].code, "SOURCE_RUNTIME_REFERENCES_PRESERVED");
    assert!(!diagnostics[0].blocking);
    assert_eq!(diagnostics[0].evidence.len(), 4);
    assert_eq!(diagnostics[0].evidence[0].location, "package.json#/devDependencies/@types/bun");
    assert_eq!(
        diagnostics[0].summary,
        "4 Bun runtime reference(s) remain outside the package-manager migration boundary."
    );
    let to_bun = runtime_reference_diagnostics(&bun_project(&["."]), PackageManagerId::Bun, &[], &[]).expect("scan");
    assert!(to_bun.is_empty());
}

#[test]
fn command_tokens_stand_on_their_own() {
    assert!(contains_command_token("bun test", "bun"));
    assert!(contains_command_token("npm run x && bunx vitest", "bunx"));
    assert!(!contains_command_token("bunx vitest", "bun"));
    assert!(!contains_command_token("my_bun", "bun"));
    assert!(contains_command_token("run-bun", "bun"));
    assert!(is_source_code_path("src/a.mts"));
    assert!(!is_source_code_path("src/a.md"));
}

#[test]
fn verifies_a_run_and_records_its_outcome() {
    let inspection = inspection("pnpm@11.21.0", &["package.json", "pnpm-lock.yaml"]);
    let project = project_of(&inspection, r#"{"name":"fixture"}"#);
    let mut transformation = no_transformation();
    transformation.manifest_mutations.push(write("package.json", "x"));
    let plan = plan_for(&inspection, &project, PackageManagerId::Bun, &transformation, &VerificationPolicy::default_policy());
    let detection = detect_from_files(Some("bun@1.3.14"), &vec!["bun.lock".to_owned()]);
    let report = verify_plan(
        &plan,
        "run_1",
        &[("package.json".to_owned(), Some("sha256:after".to_owned()))],
        detection.selected,
        &detection.candidates,
        &vec!["bun.lock".to_owned()],
        &vec![".".to_owned()],
        &vec![".".to_owned()],
        true,
    );
    assert_eq!(report.status, VerificationStatus::Passed);
    assert!(report.report_id.starts_with("verification_"));
    assert_eq!(report.checks.len(), 6);
    assert_eq!(report.checks[1].summary, "bun is the selected package manager.");
    assert_eq!(report.checks[2].summary, "Target dependency state exists: bun.lock.");
    assert_eq!(report.checks[3].evidence, vec!["expected:.", "actual:."]);
    assert_eq!(report.checks[5].status, VerificationStatus::Skipped);
    let failed = verify_plan(&plan, "run_1", &[], None, &Vec::new(), &Vec::new(), &Vec::new(), &vec![".".to_owned()], false);
    assert_eq!(failed.status, VerificationStatus::Failed);
    assert_eq!(failed.checks[0].evidence, vec!["package.json"]);
    assert_eq!(failed.checks[1].summary, "Expected bun, detected none.");
    assert_eq!(failed.diagnostics[0].code, "VERIFICATION_FAILED");
    assert_eq!(failed.diagnostics[0].summary, "5 blocking verification checks failed.");

    let run = StoredRun {
        schema_version: SCHEMA_VERSION.to_owned(),
        run_id: "run_1".to_owned(),
        plan: plan.clone(),
        state: "applied".to_owned(),
        snapshot_directory: "runs/run_1/snapshot".to_owned(),
        snapshot_entries: Vec::new(),
        dependency_state_cleanups: Vec::new(),
        target_executable: None,
        processes: Vec::new(),
        diagnostics: Vec::new(),
    };
    let envelope = seal(JsonValue::Object(vec![("runId".to_owned(), JsonValue::Str("run_1".to_owned()))]));
    let path = "/state/runs/run_1/run.json";
    assert!(load_run("run_1", path, &envelope, run.clone()).is_ok());
    assert_eq!(load_run("run_2", path, &envelope, run.clone()).unwrap_err(), "stored run identity does not match its path");
    assert_eq!(load_run("x", path, &envelope, run.clone()).unwrap_err(), "run identifiers must start with run_");
    let mut renamed = run.clone();
    renamed.run_id = "run_9".to_owned();
    assert_eq!(load_run("run_1", path, &envelope, renamed).unwrap_err(), "stored run identity does not match its path");
    let tampered = JsonValue::Object(vec![
        ("content".to_owned(), JsonValue::Object(vec![("runId".to_owned(), JsonValue::Str("run_1".to_owned())), ("state".to_owned(), JsonValue::Str("x".to_owned()))])),
        ("digest".to_owned(), JsonValue::Str(digest_json(&JsonValue::Object(vec![("runId".to_owned(), JsonValue::Str("run_1".to_owned()))])))),
        ("storeSchemaVersion".to_owned(), JsonValue::Str("1.0".to_owned())),
    ]);
    assert_eq!(
        load_run("run_1", path, &tampered, run.clone()).unwrap_err(),
        "stored artifact failed integrity verification: /state/runs/run_1/run.json"
    );
    let stored = pkgshift::model::StoredPlan {
        schema_version: SCHEMA_VERSION.to_owned(),
        plan: plan.clone(),
        project_ir: project.clone(),
        capability_analysis: analyze_capabilities(&project, PackageManagerId::Bun).expect("a").expect("b"),
        source_lock_graph: None,
    };
    let (verified, _) = verify_stored_run(run.clone(), &stored, "run_1", &[], None, &Vec::new(), &Vec::new(), &Vec::new());
    assert_eq!(verified.state, "failed");
    assert_eq!(verified.diagnostics[0].code, "VERIFICATION_FAILED");

    assert!(check_rollback_approval("run_1", Some("run_1")).is_ok());
    assert_eq!(check_rollback_approval("run_1", None).unwrap_err(), "rollback requires exact approval for run_1");
    assert!(check_rollback_state(&run, "run_1").is_ok());
    assert_eq!(
        rollback_stored_run("run_1", Some("run_2"), run.clone(), "sha256:fixture").unwrap_err(),
        "rollback requires exact approval for run_1"
    );
    let restored = rollback_stored_run("run_1", Some("run_1"), run.clone(), "sha256:fixture").expect("rolled back");
    assert_eq!(restored.state, "rolled-back");
    assert_eq!(restored.diagnostics[0].code, "ROLLBACK_EXTERNAL_EFFECTS_REMAIN");
    assert_eq!(check_rollback_state(&restored, "run_1").unwrap_err(), "run run_1 is already rolled back");
    assert_eq!(
        rollback_stored_run("run_1", Some("run_1"), restored, "sha256:fixture").unwrap_err(),
        "run run_1 is already rolled back"
    );
    assert_eq!(rollback_gate("run_1", None, &run.state).unwrap_err(), "rollback requires exact approval for run_1");
    let drifted = rollback_stored_run("run_1", Some("run_1"), run, "sha256:other").expect("restored");
    assert_eq!(drifted.state, "rollback-failed");
    assert_eq!(drifted.diagnostics[0].code, "ROLLBACK_FAILED");
}

#[test]
fn stored_artifacts_live_under_the_state_directory() {
    assert_eq!(plan_path("/state", "plan_abc").unwrap(), "/state/plans/plan_abc.json");
    assert_eq!(plan_path("/state", "abc").unwrap_err(), "plan identifiers must start with plan_");
    assert_eq!(run_path("/state/", "run_1").unwrap(), "/state/runs/run_1/run.json");
}

#[test]
fn applies_a_stored_plan_step_by_step() {
    let inspection = inspection("pnpm@11.21.0", &["package.json", "pnpm-lock.yaml"]);
    let project = project_of(&inspection, r#"{"name":"fixture"}"#);
    let mut transformation = no_transformation();
    transformation.manifest_mutations.push(write("package.json", "x"));
    let plan = plan_for(&inspection, &project, PackageManagerId::Bun, &transformation, &VerificationPolicy::default_policy());
    assert!(plan.executable);
    let stored = pkgshift::model::StoredPlan {
        schema_version: SCHEMA_VERSION.to_owned(),
        plan: plan.clone(),
        project_ir: project.clone(),
        capability_analysis: analyze_capabilities(&project, PackageManagerId::Bun).expect("a").expect("b"),
        source_lock_graph: None,
    };
    let id = plan.plan_id.clone();
    assert_eq!(apply_gate(&stored, None, "sha256:fixture").unwrap_err(), format!("apply requires exact approval for {id}"));
    assert_eq!(
        apply_gate(&stored, Some(&id), "sha256:changed").unwrap_err(),
        "migration-relevant repository evidence changed after planning"
    );
    assert!(apply_gate(&stored, Some(&id), "sha256:fixture").is_ok());
    let paths = snapshot_paths(&plan);
    assert_eq!(paths, vec!["bun.lock".to_owned(), "bun.lockb".to_owned(), "package.json".to_owned()]);

    let run = begin_run(plan.clone(), "run_7", Vec::new());
    assert_eq!(run.state, "applying");
    assert_eq!(run.snapshot_directory, "runs/run_7/snapshots");
    let (run, action) = start_run(run);
    assert_eq!(action, ApplyAction::Perform(0));
    let (run, action) = apply_step(run, 0, ApplyEvent::Performed { process: None });
    let ApplyAction::Perform(install) = action else { panic!("expected the next operation") };
    let failed_process = ProcessExecutionRecord {
        operation_id: plan.operations[install].id.clone(),
        argv: plan.operations[install].command.clone(),
        exit_code: Some(1),
        stdout: String::new(),
        stderr: String::new(),
        success: false,
        timed_out: false,
        duration_millis: None,
    };
    let (failed, action) = apply_step(run.clone(), install, ApplyEvent::Performed { process: Some(failed_process) });
    assert_eq!(action, ApplyAction::Finish);
    assert_eq!(failed.state, "failed");
    assert_eq!(failed.processes.len(), 1);
    assert_eq!(failed.diagnostics[0].code, "EXECUTION_FAILED");
    assert_eq!(
        failed.diagnostics[0].summary,
        format!("{} did not complete successfully", plan.operations[install].command.join(" "))
    );
    assert_eq!(failed.diagnostics[0].remediation, vec!["Run pkgshift rollback run_7 --approve run_7.".to_owned()]);
    let (broken, _) = apply_step(run.clone(), install, ApplyEvent::Failed { message: "disk full".to_owned() });
    assert_eq!(broken.diagnostics[0].summary, "disk full");
    let mut current = install;
    let mut run = run;
    loop {
        let (next, action) = apply_step(run, current, ApplyEvent::Performed { process: None });
        run = next;
        match action {
            ApplyAction::Perform(i) => {
                assert_ne!(plan.operations[i].phase, "verify");
                current = i;
            }
            ApplyAction::Verify => break,
            ApplyAction::Finish => panic!("no failure was reported"),
        }
    }
    assert_eq!(run.state, "verifying");
    let (done, action) = apply_step(run, current, ApplyEvent::Verified { passed: true, diagnostics: Vec::new() });
    assert_eq!(action, ApplyAction::Finish);
    assert_eq!(done.state, "succeeded");
}

#[test]
fn comparison_candidates_are_identified_and_blocked_ones_noted() {
    let inspection = inspection("pnpm@11.21.0", &["package.json", "pnpm-lock.yaml"]);
    let project = project_of(&inspection, r#"{"name":"fixture"}"#);
    let policy = VerificationPolicy::default_policy();
    let to_bun = plan_for(&inspection, &project, PackageManagerId::Bun, &no_transformation(), &policy);
    let same = plan_for(&inspection, &project, PackageManagerId::Pnpm, &no_transformation(), &policy);
    let plans = vec![to_bun.clone(), same.clone()];
    let id = pkgshift::compare::comparison_id(&plans);
    assert!(id.starts_with("plan_compare_"));
    assert_eq!(id, pkgshift::compare::comparison_id(&plans));
    assert_ne!(id, pkgshift::compare::comparison_id(&vec![same.clone(), to_bun.clone()]));
    let notices = pkgshift::compare::blocked_candidate_notices(&plans);
    assert_eq!(notices.len(), usize::from(!to_bun.executable) + 1);
    let last = notices.last().expect("the same-manager plan is blocked");
    assert_eq!(last.code, "COMPARISON_CANDIDATE_BLOCKED");
    assert_eq!(last.summary, "pnpm is retained for comparison but cannot execute its isolated trial.");
    assert!(last.evidence.iter().all(|e| e.location == "pnpm"));
    let blocking: Vec<String> =
        same.diagnostics.iter().filter(|d| d.blocking).map(|d| format!("{}: {}", d.code, d.summary)).collect();
    let details: Vec<String> = last.evidence.iter().map(|e| e.detail.clone()).collect();
    assert_eq!(details, blocking);
}
