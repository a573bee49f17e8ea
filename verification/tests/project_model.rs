use pkgshift::detect::detect_from_files;
use pkgshift::digest::{digest_bytes, digest_text};
use pkgshift::json::{strip_json_comments_and_trailing_commas, JsonValue};
use pkgshift::model::{
    DependencyProtocol, ManifestInspection, PackageManagerId, ProjectInspection, WorkspaceInspection,
    WorkspaceSource,
};
use pkgshift::project_ir::{build_project_ir, manifest_package, manifest_path};

fn workspace_inspection(package_manager: &str, files: &[&str], patterns: &[&str]) -> ProjectInspection {
    let present: Vec<String> = files.iter().map(|f| f.to_string()).collect();
    let detection = detect_from_files(Some(package_manager), &present);
    let sources = if patterns.is_empty() {
        Vec::new()
    } else {
        vec![WorkspaceSource {
            location: "package.json".to_owned(),
            patterns: patterns.iter().map(|p| p.to_string()).collect(),
        }]
    };
    ProjectInspection {
        root: "/fixture".to_owned(),
        fingerprint: "sha256:fixture".to_owned(),
        relevant_files: present,
        manifest: Some(ManifestInspection {
            path: "package.json".to_owned(),
            name: Some("fixture".to_owned()),
            private: Some(true),
            package_manager: Some(package_manager.to_owned()),
        }),
        package_manager: detection,
        workspace: WorkspaceInspection { configured: !sources.is_empty(), sources },
        integrations: Vec::new(),
        diagnostics: Vec::new(),
    }
}

fn strings(items: &[&str]) -> Vec<String> {
    items.iter().map(|s| s.to_string()).collect()
}

#[test]
fn builds_a_workspace_model_from_the_read_manifests() {
    let files = ["package.json", "packages/app/package.json", "pnpm-lock.yaml", ".npmrc"];
    let inspection = workspace_inspection("pnpm@11.21.0", &files, &["packages/*"]);
    assert_eq!(inspection.package_manager.selected, Some(PackageManagerId::Pnpm));
    let manifests = vec![
        (
            "package.json".to_owned(),
            r#"{"name":"fixture","private":true,"packageManager":"pnpm@11.21.0","workspaces":["packages/*"]}"#
                .to_owned(),
        ),
        (
            "packages/app/package.json".to_owned(),
            r#"{"name":"@fixture/app","dependencies":{"lib":"workspace:*"},"scripts":{"test":"x","build":"y"}}"#
                .to_owned(),
        ),
    ];
    let ir = build_project_ir(
        &inspection,
        &strings(&files),
        &manifests,
        Some("//registry.npmjs.org/:_authToken=secret-value\n"),
        None,
        false,
        false,
    )
    .expect("IR build")
    .expect("project IR");
    assert_eq!(ir.packages.len(), 2);
    assert_eq!(ir.packages[0].path, ".");
    assert_eq!(ir.packages[0].private, Some(true));
    assert_eq!(ir.packages[1].path, "packages/app");
    assert_eq!(ir.packages[1].manifest_path, "packages/app/package.json");
    assert_eq!(ir.packages[1].name.as_deref(), Some("@fixture/app"));
    assert_eq!(ir.packages[1].script_names, vec!["build", "test"]);
    let dependency = &ir.packages[1].dependencies[0];
    assert_eq!(dependency.protocol, DependencyProtocol::Workspace);
    assert_eq!(dependency.location, "packages/app/package.json#/dependencies/lib");
    let ids: Vec<&str> = ir.features.iter().map(|f| f.id.as_str()).collect();
    assert_eq!(ids, vec!["dependency.workspace-protocol", "registry.npmrc", "workspace.manifest"]);
    assert_eq!(ir.features[0].count, 1);
    assert_eq!(ir.features[0].locations, vec!["packages/app/package.json#/dependencies/lib"]);
    assert_eq!(ir.workspace_patterns, vec!["packages/*"]);
    assert!(ir.project_ir_id.starts_with("ir_"));
    assert_eq!(ir.project_ir_id.len(), "ir_".len() + 16);
    assert_eq!(ir.repository_fingerprint, "sha256:fixture");
    assert_eq!(ir.root_package_path, ".");
}

#[test]
fn the_model_identifier_follows_its_content() {
    let files = ["package.json", "pnpm-lock.yaml"];
    let inspection = workspace_inspection("pnpm@11.21.0", &files, &[]);
    let build = |text: &str| {
        build_project_ir(
            &inspection,
            &strings(&files),
            &[("package.json".to_owned(), text.to_owned())],
            None,
            None,
            false,
            false,
        )
        .expect("IR build")
        .expect("project IR")
    };
    let first = build(r#"{"name":"a"}"#);
    let again = build(r#"{"name":"a"}"#);
    let other = build(r#"{"name":"b"}"#);
    assert_eq!(first.project_ir_id, again.project_ir_id);
    assert_ne!(first.project_ir_id, other.project_ir_id);
}

#[test]
fn refuses_a_manifest_that_is_not_an_object() {
    let files = ["package.json", "pnpm-lock.yaml"];
    let inspection = workspace_inspection("pnpm@11.21.0", &files, &[]);
    let error = build_project_ir(
        &inspection,
        &strings(&files),
        &[("package.json".to_owned(), "[1, 2]".to_owned())],
        None,
        None,
        false,
        false,
    )
    .expect_err("array manifest");
    assert_eq!(error, "package.json: expected a JSON object");
    let error = build_project_ir(
        &inspection,
        &strings(&files),
        &[("package.json".to_owned(), "{".to_owned())],
        None,
        None,
        false,
        false,
    )
    .expect_err("truncated manifest");
    assert!(error.starts_with("package.json: "));
}

#[test]
fn no_model_without_a_selected_manager_or_manifest() {
    let files = ["package.json"];
    let mut inspection = workspace_inspection("pnpm@11.21.0", &files, &[]);
    inspection.package_manager.selected = None;
    let built = build_project_ir(&inspection, &strings(&files), &[], None, None, false, false).expect("no error");
    assert!(built.is_none());
    let mut inspection = workspace_inspection("pnpm@11.21.0", &files, &[]);
    inspection.manifest = None;
    let built = build_project_ir(&inspection, &strings(&files), &[], None, None, false, false).expect("no error");
    assert!(built.is_none());
}

#[test]
fn configuration_files_are_features() {
    let files = ["package.json", "pnpm-lock.yaml"];
    let inspection = workspace_inspection("pnpm@11.21.0", &files, &["packages/*", "!packages/legacy"]);
    let ir = build_project_ir(
        &inspection,
        &strings(&files),
        &[("package.json".to_owned(), r#"{"overrides":{"a":{"b":"1"}},"resolutions":null}"#.to_owned())],
        Some("node-linker=isolated\n"),
        Some("nodeLinker: pnp\n"),
        true,
        true,
    )
    .expect("IR build")
    .expect("project IR");
    let ids: Vec<&str> = ir.features.iter().map(|f| f.id.as_str()).collect();
    assert_eq!(
        ids,
        vec![
            "hook.pnpmfile",
            "install.isolated-linker",
            "install.pnp-linker",
            "policy.yarn-constraints",
            "registry.npmrc",
            "resolution.nested-overrides",
            "resolution.overrides",
            "workspace.manifest",
            "workspace.negative-patterns",
        ]
    );
    assert_eq!(ir.workspace_patterns, vec!["!packages/legacy", "packages/*"]);
}

#[test]
fn reads_the_package_a_parsed_manifest_describes() {
    let doc = JsonValue::Object(vec![
        ("devDependencies".to_owned(), JsonValue::Object(vec![("x".to_owned(), JsonValue::Str("catalog:".to_owned()))])),
        ("name".to_owned(), JsonValue::Str("lib".to_owned())),
        ("version".to_owned(), JsonValue::Str("1.0.0".to_owned())),
    ]);
    let (package, features) = manifest_package(&doc, "packages/lib").expect("object manifest");
    assert_eq!(package.manifest_path, "packages/lib/package.json");
    assert_eq!(package.version.as_deref(), Some("1.0.0"));
    assert_eq!(package.dependencies[0].protocol, DependencyProtocol::Catalog);
    assert_eq!(features.len(), 1);
    assert_eq!(features[0].id, "dependency.catalog-protocol");
    assert!(manifest_package(&JsonValue::Null, ".").is_none());
}

#[test]
fn manifest_paths_join_like_paths() {
    assert_eq!(manifest_path("/repo", "."), "/repo/package.json");
    assert_eq!(manifest_path("/repo/", "packages/app"), "/repo/packages/app/package.json");
    assert_eq!(manifest_path("/repo", "/elsewhere"), "/elsewhere/package.json");
}

#[test]
fn digests_are_sha256_of_the_bytes() {
    assert_eq!(
        digest_bytes(b"abc"),
        "sha256:ba7816bf8f01cfea414140de5dae2223b00361a396177a9cb410ff61f20015ad"
    );
    assert_eq!(
        digest_text(""),
        "sha256:e3b0c44298fc1c149afbf4c8996fb92427ae41e4649b934ca495991b7852b855"
    );
}

#[test]
fn strips_comments_and_trailing_commas() {
    assert_eq!(
        strip_json_comments_and_trailing_commas("{\"a\": 1, // note\n \"b\": [1, 2,], /* x */}"),
        "{\"a\": 1, \n \"b\": [1, 2] }"
    );
    assert_eq!(strip_json_comments_and_trailing_commas("\"// kept\""), "\"// kept\"");
}
