use pkgshift::lock_graph::comparison::{
    compare_lock_graphs, compare_lock_graphs_for_project, compare_lock_graphs_for_project_with_policy,
};
use pkgshift::model::{
    DependencyIr, DependencyProtocol, LockGraph, LockGraphEdge, LockGraphNode, PackageIr, PackageManagerId,
    ProjectIr, VerificationStatus, SCHEMA_VERSION,
};
use pkgshift::policy::{EdgeEquivalencePolicy, PackagePlatformConstraint, VerificationPolicy};

fn project_ir_with_dependencies(dependencies: &[(&str, &str)]) -> ProjectIr {
    ProjectIr {
        schema_version: SCHEMA_VERSION.to_owned(),
        project_ir_id: "ir_fixture".to_owned(),
        repository_fingerprint: "sha256:fixture".to_owned(),
        source: Some(PackageManagerId::Npm),
        root_package_path: ".".to_owned(),
        packages: vec![PackageIr {
            path: ".".to_owned(),
            manifest_path: "package.json".to_owned(),
            name: Some("fixture".to_owned()),
            version: Some("1.0.0".to_owned()),
            private: Some(true),
            dependencies: dependencies
                .iter()
                .map(|(section, name)| DependencyIr {
                    package_path: ".".to_owned(),
                    section: (*section).to_owned(),
                    name: (*name).to_owned(),
                    specifier: "*".to_owned(),
                    protocol: DependencyProtocol::Semver,
                    location: format!("package.json#/{section}/{name}"),
                })
                .collect(),
            script_names: Vec::new(),
        }],
        workspace_patterns: Vec::new(),
        features: Vec::new(),
        integrations: Vec::new(),
        diagnostics: Vec::new(),
    }
}

fn graph(id: &str, manager: PackageManagerId, nodes: &[(&str, &str)], edges: &[(&str, &str, &str)]) -> LockGraph {
    LockGraph {
        schema_version: SCHEMA_VERSION.to_owned(),
        graph_id: id.to_owned(),
        manager,
        lockfile_path: "fixture.lock".to_owned(),
        lockfile_digest: format!("sha256:{id}"),
        format: "npm-package-lock".to_owned(),
        complete: true,
        nodes: nodes
            .iter()
            .map(|(name, version)| LockGraphNode {
                locator: format!("node_modules/{name}"),
                name: (*name).to_owned(),
                version: (*version).to_owned(),
                integrity: Some(format!("sha512-{name}-{version}")),
                platform: PackagePlatformConstraint::empty(),
            })
            .collect(),
        edges: edges
            .iter()
            .map(|(from, dependency, kind)| LockGraphEdge {
                from: (*from).to_owned(),
                dependency: (*dependency).to_owned(),
                kind: (*kind).to_owned(),
                target: None,
            })
            .collect(),
        diagnostics: Vec::new(),
    }
}

#[test]
fn reports_resolution_drift() {
    let source = LockGraph {
        schema_version: SCHEMA_VERSION.to_owned(),
        graph_id: "lockgraph_source".to_owned(),
        manager: PackageManagerId::Npm,
        lockfile_path: "package-lock.json".to_owned(),
        lockfile_digest: "sha256:source".to_owned(),
        format: "npm-package-lock".to_owned(),
        complete: true,
        nodes: vec![LockGraphNode {
            locator: "node_modules/example".to_owned(),
            name: "example".to_owned(),
            version: "1.0.0".to_owned(),
            integrity: Some("sha512-old".to_owned()),
            platform: PackagePlatformConstraint::empty(),
        }],
        edges: Vec::new(),
        diagnostics: Vec::new(),
    };
    let mut target = source.clone();
    target.graph_id = "lockgraph_target".to_owned();
    target.manager = PackageManagerId::Pnpm;
    target.nodes[0].version = "1.1.0".to_owned();
    let comparison = compare_lock_graphs(&source, &target).expect("comparison");
    assert_eq!(comparison.status, VerificationStatus::Failed);
    assert_eq!(comparison.added_resolutions, ["example@1.1.0"]);
    assert_eq!(comparison.removed_resolutions, ["example@1.0.0"]);

    let mut integrity_target = source.clone();
    integrity_target.graph_id = "lockgraph_integrity_target".to_owned();
    integrity_target.manager = PackageManagerId::Pnpm;
    integrity_target.nodes[0].integrity = Some("sha512-new".to_owned());
    let integrity_comparison = compare_lock_graphs(&source, &integrity_target).expect("integrity comparison");
    assert_eq!(integrity_comparison.status, VerificationStatus::Failed);
    assert_eq!(integrity_comparison.integrity_mismatches, ["example@1.0.0"]);
}

#[test]
fn reachable_policy_prunes_stale_lockfile_resolutions() {
    let project_ir = project_ir_with_dependencies(&[("dependencies", "live")]);
    let source = graph(
        "lockgraph_source",
        PackageManagerId::Npm,
        &[("child", "2.0.0"), ("live", "1.0.0"), ("stale", "9.0.0")],
        &[("live@1.0.0", "child", "dependency")],
    );
    let target = graph(
        "lockgraph_target",
        PackageManagerId::Deno,
        &[("child", "2.0.0"), ("live", "1.0.0")],
        &[("live@1.0.0", "child", "dependency")],
    );
    let comparison = compare_lock_graphs_for_project(&source, &target, &project_ir).expect("reachable comparison");
    assert_eq!(comparison.policy, "reachable-resolution-set-v2");
    assert_eq!(comparison.status, VerificationStatus::Passed);
    assert_eq!(comparison.source_resolutions, 2);
    assert_eq!(comparison.pruned_source_resolutions, ["stale@9.0.0"]);
    assert!(comparison.removed_resolutions.is_empty());
}

#[test]
fn reachable_policy_tolerates_absent_optional_platform_branches() {
    let project_ir = project_ir_with_dependencies(&[("dependencies", "live")]);
    let source = graph(
        "lockgraph_source",
        PackageManagerId::Npm,
        &[("live", "1.0.0"), ("platform-package", "1.0.0")],
        &[("live@1.0.0", "platform-package", "optional")],
    );
    let target = graph("lockgraph_target", PackageManagerId::Deno, &[("live", "1.0.0")], &[]);
    let comparison = compare_lock_graphs_for_project(&source, &target, &project_ir).expect("optional comparison");
    assert_eq!(comparison.status, VerificationStatus::Passed);
    assert_eq!(comparison.optional_platform_differences, ["source-only:platform-package@1.0.0"]);
}

#[test]
fn reachable_policy_still_blocks_optional_version_drift() {
    let project_ir = project_ir_with_dependencies(&[("dependencies", "live")]);
    let source = graph(
        "lockgraph_source",
        PackageManagerId::Npm,
        &[("live", "1.0.0"), ("platform-package", "1.0.0")],
        &[("live@1.0.0", "platform-package", "optional")],
    );
    let target = graph(
        "lockgraph_target",
        PackageManagerId::Deno,
        &[("live", "1.0.0"), ("platform-package", "2.0.0")],
        &[("live@1.0.0", "platform-package", "optional")],
    );
    let comparison =
        compare_lock_graphs_for_project(&source, &target, &project_ir).expect("optional drift comparison");
    assert_eq!(comparison.status, VerificationStatus::Failed);
    assert_eq!(comparison.added_resolutions, ["platform-package@2.0.0"]);
    assert_eq!(comparison.removed_resolutions, ["platform-package@1.0.0"]);
    assert!(comparison.optional_platform_differences.is_empty());
}

#[test]
fn reachable_policy_fails_closed_for_unresolved_required_edges() {
    let project_ir = project_ir_with_dependencies(&[("dependencies", "live")]);
    let source = graph(
        "lockgraph_source",
        PackageManagerId::Npm,
        &[("live", "1.0.0")],
        &[("live@1.0.0", "missing", "dependency")],
    );
    let target = source.clone();
    let comparison =
        compare_lock_graphs_for_project(&source, &target, &project_ir).expect("unresolved comparison");
    assert_eq!(comparison.status, VerificationStatus::Failed);
    assert_eq!(comparison.reachability_issues.len(), 2);
    assert!(comparison.reachability_issues.iter().all(|issue| issue.contains("unresolved required edge")));
}

#[test]
fn a_graph_compared_with_itself_passes() {
    let source = graph(
        "lockgraph_same",
        PackageManagerId::Npm,
        &[("a", "1.0.0"), ("b", "2.0.0")],
        &[("a@1.0.0", "b", "dependency")],
    );
    let comparison = compare_lock_graphs(&source, &source).expect("comparison");
    assert_eq!(comparison.status, VerificationStatus::Passed);
    assert_eq!(comparison.source_resolutions, 2);
    assert_eq!(comparison.target_resolutions, 2);
    assert!(comparison.added_resolutions.is_empty());
    assert!(comparison.edge_changes.is_empty());
}

#[test]
fn swapping_source_and_target_swaps_added_and_removed() {
    let source = graph("lockgraph_a", PackageManagerId::Npm, &[("x", "1.0.0")], &[]);
    let target = graph("lockgraph_b", PackageManagerId::Pnpm, &[("x", "2.0.0")], &[]);
    let forward = compare_lock_graphs(&source, &target).expect("forward");
    let backward = compare_lock_graphs(&target, &source).expect("backward");
    assert_eq!(forward.added_resolutions, backward.removed_resolutions);
    assert_eq!(forward.removed_resolutions, backward.added_resolutions);
}

#[test]
fn edge_changes_fail_only_a_strict_comparison() {
    let source = graph("lockgraph_a", PackageManagerId::Npm, &[("a", "1.0.0"), ("b", "1.0.0")], &[("a@1.0.0", "b", "dependency")]);
    let target = graph("lockgraph_b", PackageManagerId::Pnpm, &[("a", "1.0.0"), ("b", "1.0.0")], &[("a@1.0.0", "b", "peer")]);
    let reported = compare_lock_graphs(&source, &target).expect("comparison");
    assert_eq!(reported.status, VerificationStatus::Passed);
    assert_eq!(reported.edge_changes, ["a@1.0.0 -> b (dependency)", "a@1.0.0 -> b (peer)"]);
    let mut strict = VerificationPolicy::default_policy();
    strict.edge_equivalence = EdgeEquivalencePolicy::Strict;
    let project_ir = project_ir_with_dependencies(&[("dependencies", "a")]);
    let strict_comparison =
        compare_lock_graphs_for_project_with_policy(&source, &target, &project_ir, &strict).expect("strict comparison");
    assert_eq!(strict_comparison.status, VerificationStatus::Failed);
}

#[test]
fn unsupported_formats_compare_as_whole_resolution_sets() {
    let mut source = graph("src", PackageManagerId::Vlt, &[("a", "1.0.0"), ("stale", "2.0.0")], &[(".", "a", "prod")]);
    source.format = "vlt-lock-v1".to_owned();
    let mut target = graph("dst", PackageManagerId::Bun, &[("a", "1.0.0")], &[(".", "a", "prod")]);
    target.format = "bun-binary".to_owned();
    let project_ir = project_ir_with_dependencies(&[("a", "^1.0.0")]);
    let aware = compare_lock_graphs_for_project_with_policy(&source, &target, &project_ir, &VerificationPolicy::default_policy())
        .expect("comparison");
    let plain = compare_lock_graphs(&source, &target).expect("comparison");
    assert_eq!(aware, plain);
    assert_eq!(aware.policy, "resolution-set-v1");
    assert!(aware.pruned_source_resolutions.is_empty());
    assert_eq!(aware.removed_resolutions, vec!["stale@2.0.0"]);
}
