use pkgshift::catalog::normalize_package_manager_id;
use pkgshift::guidance::{
    exit_code, guided_approval_argv, guided_approval_diagnostic, next_step, parse_permissions, runtime_approval_argv,
    normalize_targets, runtime_approval_diagnostic, runtime_target_supported, targets_refusal_diagnostic, NextStep,
    TargetsRefusal,
};
use pkgshift::model::{DiagnosticSeverity, PackageManagerId};
use pkgshift::runtime::model::DenoPermission;

fn strings(values: &[&str]) -> Vec<String> {
    values.iter().map(|v| v.to_string()).collect()
}

#[test]
fn a_plan_that_cannot_run_is_reported() {
    assert_eq!(next_step(false, false, false, Some("plan_x"), "plan_x"), NextStep::Report);
    assert_eq!(exit_code(NextStep::Report, true, false), 3);
    assert_eq!(exit_code(NextStep::Report, false, false), 0);
}

#[test]
fn a_plan_without_its_exact_approval_is_reviewed() {
    assert_eq!(next_step(true, false, false, None, "plan_x"), NextStep::Review { approval_missing: true });
    assert_eq!(next_step(true, false, false, Some("plan_y"), "plan_x"), NextStep::Review { approval_missing: true });
    assert_eq!(next_step(true, true, false, Some("plan_x"), "plan_x"), NextStep::Review { approval_missing: false });
    assert_eq!(exit_code(NextStep::Review { approval_missing: true }, false, false), 7);
    assert_eq!(exit_code(NextStep::Review { approval_missing: false }, false, false), 0);
}

#[test]
fn an_approved_plan_is_tried_or_applied() {
    assert_eq!(next_step(true, false, true, Some("plan_x"), "plan_x"), NextStep::Trial);
    assert_eq!(next_step(true, false, false, Some("plan_x"), "plan_x"), NextStep::Apply);
    assert_eq!(exit_code(NextStep::Trial, false, false), 0);
    assert_eq!(exit_code(NextStep::Trial, true, true), 6);
    assert_eq!(exit_code(NextStep::Trial, true, false), 5);
    assert_eq!(exit_code(NextStep::Apply, true, false), 5);
    assert_eq!(exit_code(NextStep::Apply, false, false), 0);
}

#[test]
fn the_guided_approval_command_repeats_the_plan_flags() {
    let argv = guided_approval_argv(
        PackageManagerId::Bun,
        true,
        false,
        &strings(&["test", "lint"]),
        Some(".state"),
        "plan_abc",
    );
    assert_eq!(
        argv,
        strings(&[
            "pkgshift",
            "to",
            "bun",
            "--accept-lossy",
            "--verify-script",
            "test",
            "--verify-script",
            "lint",
            "--state-dir",
            ".state",
            "--approve",
            "plan_abc",
            "--json",
            "--no-color",
            "--non-interactive",
        ])
    );
    let trial = guided_approval_argv(PackageManagerId::Pnpm, false, true, &Vec::new(), Some(".state"), "plan_abc");
    assert_eq!(
        trial,
        strings(&["pkgshift", "to", "pnpm", "--trial", "--approve", "plan_abc", "--json", "--no-color", "--non-interactive"])
    );
}

#[test]
fn the_guided_approval_diagnostic_names_the_retry() {
    let d = guided_approval_diagnostic(PackageManagerId::Bun, true, "plan_abc");
    assert_eq!(d.code, "APPROVAL_REQUIRED");
    assert_eq!(d.severity, DiagnosticSeverity::Error);
    assert!(d.blocking);
    assert_eq!(d.summary, "Guided migration requires exact approval for plan_abc.");
    assert_eq!(d.remediation, vec!["Retry with pkgshift to bun --trial --approve plan_abc.".to_owned()]);
    let plain = guided_approval_diagnostic(PackageManagerId::Npm, false, "plan_abc");
    assert_eq!(plain.remediation, vec!["Retry with pkgshift to npm --approve plan_abc.".to_owned()]);
}

#[test]
fn only_deno_is_a_runtime_target() {
    assert!(runtime_target_supported("deno"));
    assert!(runtime_target_supported("  DeNo "));
    assert!(!runtime_target_supported("node"));
    assert!(!runtime_target_supported(""));
}

#[test]
fn permissions_are_parsed_case_insensitively() {
    let set = parse_permissions(&strings(&[" Read", "net", "READ", "hrtime"])).expect("known permissions");
    assert_eq!(set.to_vec(), vec![DenoPermission::Read, DenoPermission::Net, DenoPermission::Hrtime]);
    assert_eq!(parse_permissions(&strings(&["read", "disk", "wide"])).err(), Some("disk".to_owned()));
    assert!(parse_permissions(&Vec::new()).expect("empty").is_empty());
}

#[test]
fn every_permission_name_parses_to_itself() {
    for p in [
        DenoPermission::Read,
        DenoPermission::Write,
        DenoPermission::Net,
        DenoPermission::Env,
        DenoPermission::Run,
        DenoPermission::Sys,
        DenoPermission::Ffi,
        DenoPermission::Hrtime,
    ] {
        let set = parse_permissions(&vec![p.name().to_owned()]).expect("own name");
        assert_eq!(set.to_vec(), vec![p]);
    }
}

#[test]
fn every_manager_name_parses_to_itself() {
    for id in [
        PackageManagerId::Npm,
        PackageManagerId::Pnpm,
        PackageManagerId::YarnClassic,
        PackageManagerId::YarnModern,
        PackageManagerId::Bun,
        PackageManagerId::Vlt,
        PackageManagerId::Deno,
    ] {
        assert_eq!(normalize_package_manager_id(id.as_str()), Some(id));
    }
}

#[test]
fn the_runtime_approval_command_grants_the_permissions() {
    let argv = runtime_approval_argv(&vec![DenoPermission::Read, DenoPermission::Env], None, "rtplan_1");
    assert_eq!(
        argv,
        strings(&[
            "pkgshift",
            "runtime",
            "to",
            "deno",
            "--deno-permission",
            "read",
            "--deno-permission",
            "env",
            "--approve",
            "rtplan_1",
            "--json",
            "--no-color",
            "--non-interactive",
        ])
    );
    let with_dir = runtime_approval_argv(&Vec::new(), Some("/s"), "rtplan_1");
    assert_eq!(&with_dir[4..6], &["--state-dir".to_owned(), "/s".to_owned()]);
    let d = runtime_approval_diagnostic("rtplan_1");
    assert_eq!(d.summary, "Runtime migration requires exact approval for rtplan_1.");
    assert_eq!(d.remediation, vec!["Execute the returned nextActions[0].argv unchanged after review.".to_owned()]);
}

#[test]
fn comparison_targets_are_distinct_and_in_catalog_order() {
    assert_eq!(
        normalize_targets(&strings(&["deno", " BUN", "bun", "npm"])),
        Ok(vec![PackageManagerId::Npm, PackageManagerId::Bun, PackageManagerId::Deno])
    );
    assert_eq!(normalize_targets(&strings(&["bun", "yarn@1", "yarn-classic"])).map(|v| v.len()), Ok(2));
}

#[test]
fn comparison_targets_are_refused_with_a_reason() {
    let unknown = normalize_targets(&strings(&["bun", "cargo", "nix"])).unwrap_err();
    assert_eq!(unknown, TargetsRefusal::Unsupported("cargo".to_owned()));
    assert_eq!(targets_refusal_diagnostic(&unknown).summary, "Unsupported package manager target: cargo");
    let few = normalize_targets(&strings(&["bun", "Bun"])).unwrap_err();
    assert_eq!(few, TargetsRefusal::TooFew);
    assert_eq!(targets_refusal_diagnostic(&few).code, "COMPARISON_TARGET_COUNT_INVALID");
    assert_eq!(normalize_targets(&Vec::new()), Err(TargetsRefusal::TooFew));
}

#[test]
fn manager_names_are_trimmed_and_lower_cased() {
    for value in ["pnpm", "  PNPM ", "Pnpm\n", "\tpnPM"] {
        assert_eq!(normalize_package_manager_id(value), Some(PackageManagerId::Pnpm));
        assert_eq!(
            normalize_package_manager_id(value),
            normalize_package_manager_id(&value.trim().to_ascii_lowercase())
        );
    }
    assert_eq!(normalize_package_manager_id("YARN@1"), Some(PackageManagerId::YarnClassic));
    assert_eq!(normalize_package_manager_id("pn pm"), None);
}

#[test]
fn comparison_outcomes_follow_the_repository_fingerprint() {
    use_comparison_outcome();
}

fn use_comparison_outcome() {
    let (code, diagnostics) = pkgshift::compare::comparison_outcome("sha256:a", "sha256:a");
    assert_eq!(code, 0);
    assert!(diagnostics.is_empty());
    let (code, diagnostics) = pkgshift::compare::comparison_outcome("sha256:a", "sha256:b");
    assert_eq!(code, 5);
    assert_eq!(diagnostics[0].code, "COMPARISON_REPOSITORY_CHANGED");
    assert_eq!(pkgshift::compare::candidate_status(false, true), pkgshift::compare::CandidateStatus::Blocked);
    assert_eq!(pkgshift::compare::candidate_status(true, false), pkgshift::compare::CandidateStatus::Failed);
    assert_eq!(pkgshift::compare::candidate_status(true, true), pkgshift::compare::CandidateStatus::Passed);
}
