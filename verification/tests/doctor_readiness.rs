use pkgshift::doctor::{available_root_scripts, integration_impact, verdict, IntegrationImpact, MigrationReadiness, ReadinessVerdict};
use pkgshift::model::{
    Diagnostic, DiagnosticSeverity, IntegrationInspection, IntegrationKind, PackageIr, PackageManagerId, ProjectIr,
    SCHEMA_VERSION,
};

#[test]
fn distinguishes_review_only_blockers_from_hard_blockers() {
    let lossy = Diagnostic::blocking("LOSSY_ACCEPTANCE_REQUIRED", "review required", Vec::new());
    assert_eq!(
        verdict(Some(PackageManagerId::Pnpm), PackageManagerId::Bun, &[lossy], false),
        (ReadinessVerdict::ReviewRequired, true)
    );
    let unsupported = Diagnostic::blocking("CAPABILITY_UNSUPPORTED", "blocked", Vec::new());
    assert_eq!(
        verdict(Some(PackageManagerId::Pnpm), PackageManagerId::Bun, &[unsupported], false),
        (ReadinessVerdict::Blocked, false)
    );
}

#[test]
fn verdict_covers_selected_ready_and_warning_cases() {
    assert_eq!(
        verdict(Some(PackageManagerId::Bun), PackageManagerId::Bun, &[], true),
        (ReadinessVerdict::AlreadySelected, false)
    );
    assert_eq!(verdict(None, PackageManagerId::Bun, &[], true), (ReadinessVerdict::Ready, false));
    assert_eq!(verdict(None, PackageManagerId::Bun, &[], false), (ReadinessVerdict::Blocked, false));
    let mut warning = Diagnostic::blocking("SOMETHING", "note", Vec::new());
    warning.blocking = false;
    warning.severity = DiagnosticSeverity::Warning;
    assert_eq!(
        verdict(None, PackageManagerId::Bun, &[warning], true),
        (ReadinessVerdict::ReviewRequired, false)
    );
}

fn project(integrations: Vec<IntegrationInspection>) -> ProjectIr {
    ProjectIr {
        schema_version: SCHEMA_VERSION.to_owned(),
        project_ir_id: "ir".to_owned(),
        repository_fingerprint: "sha256:x".to_owned(),
        source: Some(PackageManagerId::Npm),
        root_package_path: ".".to_owned(),
        packages: vec![
            PackageIr {
                path: "packages/a".to_owned(),
                manifest_path: "packages/a/package.json".to_owned(),
                name: None,
                version: None,
                private: None,
                dependencies: Vec::new(),
                script_names: vec!["lint".to_owned()],
            },
            PackageIr {
                path: ".".to_owned(),
                manifest_path: "package.json".to_owned(),
                name: None,
                version: None,
                private: None,
                dependencies: Vec::new(),
                script_names: vec!["build".to_owned(), "test".to_owned()],
            },
        ],
        workspace_patterns: Vec::new(),
        features: Vec::new(),
        integrations,
        diagnostics: Vec::new(),
    }
}

#[test]
fn integration_impact_groups_sorts_and_counts_files() {
    let item = |kind, path: &str| IntegrationInspection { kind, path: path.to_owned(), package_manager_tokens: vec!["npm".to_owned()] };
    let p = project(vec![
        item(IntegrationKind::Ci, ".github/workflows/b.yml"),
        item(IntegrationKind::Ci, ".github/workflows/a.yml"),
        item(IntegrationKind::Container, "Dockerfile"),
        item(IntegrationKind::Ci, ".github/workflows/a.yml"),
    ]);
    let impact: IntegrationImpact = integration_impact(Some(&p));
    assert_eq!(impact.ci, vec![".github/workflows/a.yml".to_owned(), ".github/workflows/b.yml".to_owned()]);
    assert_eq!(impact.containers, vec!["Dockerfile".to_owned()]);
    assert!(impact.documentation.is_empty());
    assert_eq!(impact.total(), 3);
    assert_eq!(integration_impact(None).total(), 0);
    assert_eq!(available_root_scripts(Some(&p)), vec!["build".to_owned(), "test".to_owned()]);
    assert!(available_root_scripts(None).is_empty());
    assert_eq!(MigrationReadiness::schema_version(), SCHEMA_VERSION);
}
