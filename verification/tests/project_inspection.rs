use pkgshift::detect::detect_from_files;
use pkgshift::inspection::inspect_project_parts;
use pkgshift::model::{IntegrationKind, PackageManagerId};

fn strings(values: &[&str]) -> Vec<String> {
    values.iter().map(|v| v.to_string()).collect()
}

#[test]
fn explicit_manifest_evidence_wins() {
    let detection = detect_from_files(Some("pnpm@11.21.0"), &strings(&["pnpm-lock.yaml"]));
    assert_eq!(detection.selected, Some(PackageManagerId::Pnpm));
    assert_eq!(detection.candidates[0].score, 200);
}

#[test]
fn bare_yarn_lock_is_ambiguous() {
    let detection = detect_from_files(None, &strings(&["yarn.lock"]));
    assert_eq!(detection.selected, None);
    assert!(detection.diagnostics.iter().any(|d| d.code == "PM_SOURCE_AMBIGUOUS" && d.blocking));
}

#[test]
fn assembles_an_inspection_from_what_was_read() {
    let files = strings(&["package.json", "pnpm-lock.yaml", "pnpm-workspace.yaml"]);
    let integrations = vec![
        (".github/workflows/ci.yml".to_owned(), "run: PNPM install && npm test".to_owned()),
        ("Dockerfile".to_owned(), "FROM node".to_owned()),
    ];
    let inspection = inspect_project_parts(
        "/repo",
        "sha256:abc",
        &files,
        Some(r#"{"name":"demo","private":true,"packageManager":"pnpm@11.21.0","workspaces":["apps/*"]}"#),
        Some("packages:\n  - 'packages/*'\n"),
        &integrations,
    );
    assert_eq!(inspection.root, "/repo");
    assert_eq!(inspection.fingerprint, "sha256:abc");
    assert_eq!(inspection.relevant_files, files);
    let manifest = inspection.manifest.expect("manifest");
    assert_eq!(manifest.name.as_deref(), Some("demo"));
    assert_eq!(manifest.private, Some(true));
    assert_eq!(manifest.package_manager.as_deref(), Some("pnpm@11.21.0"));
    assert_eq!(inspection.package_manager.selected, Some(PackageManagerId::Pnpm));
    assert!(inspection.workspace.configured);
    let locations: Vec<&str> = inspection.workspace.sources.iter().map(|s| s.location.as_str()).collect();
    assert_eq!(locations, vec!["package.json", "pnpm-workspace.yaml"]);
    assert_eq!(inspection.workspace.sources[1].patterns, strings(&["packages/*"]));
    assert_eq!(inspection.integrations.len(), 1);
    assert_eq!(inspection.integrations[0].kind, IntegrationKind::Ci);
    assert_eq!(inspection.integrations[0].package_manager_tokens, strings(&["npm", "pnpm"]));
    assert!(inspection.diagnostics.is_empty());
}

#[test]
fn reports_a_missing_or_invalid_manifest() {
    let missing = inspect_project_parts("/repo", "sha256:0", &Vec::new(), None, None, &Vec::new());
    assert_eq!(missing.diagnostics[0].code, "MANIFEST_NOT_FOUND");
    assert!(missing.manifest.is_none());
    let invalid = inspect_project_parts("/repo", "sha256:0", &Vec::new(), Some("[1, 2]"), None, &Vec::new());
    assert_eq!(invalid.diagnostics[0].code, "MANIFEST_INVALID");
    assert_eq!(
        invalid.diagnostics[0].remediation,
        vec!["Fix package.json before retrying inspection: package.json: expected a JSON object".to_owned()]
    );
    assert!(!invalid.workspace.configured);
}
