use pkgshift::lock_graph::comparison::{compare_lock_graphs, compare_lock_graphs_for_project};
use pkgshift::lock_graph::graph::lock_graph_from_lockfile;
use pkgshift::model::{
    DependencyIr, DependencyProtocol, PackageIr, PackageManagerId, ProjectIr, VerificationStatus, SCHEMA_VERSION,
};

fn project_ir_with_dependencies(dependencies: &[(&str, &str)]) -> ProjectIr {
    ProjectIr {
        schema_version: SCHEMA_VERSION.to_owned(),
        project_ir_id: "ir_fixture".to_owned(),
        repository_fingerprint: "sha256:fixture".to_owned(),
        source: Some(PackageManagerId::Npm),
        root_package_path: ".".to_owned(),
        packages: vec![PackageIr {
            path: ".".to_owned(),
            manifest_path: "package.json".to_owned(),
            name: Some("fixture".to_owned()),
            version: Some("1.0.0".to_owned()),
            private: Some(true),
            dependencies: dependencies
                .iter()
                .map(|(section, name)| DependencyIr {
                    package_path: ".".to_owned(),
                    section: (*section).to_owned(),
                    name: (*name).to_owned(),
                    specifier: "*".to_owned(),
                    protocol: DependencyProtocol::Semver,
                    location: format!("package.json#/{section}/{name}"),
                })
                .collect(),
            script_names: Vec::new(),
        }],
        workspace_patterns: Vec::new(),
        features: Vec::new(),
        integrations: Vec::new(),
        diagnostics: Vec::new(),
    }
}

#[test]
fn compares_npm_and_pnpm_resolution_sets() {
    let source = lock_graph_from_lockfile(
        PackageManagerId::Npm,
        "package-lock.json",
        br#"{
  "lockfileVersion": 3,
  "packages": {
    "": { "dependencies": { "example": "^1.0.0" } },
    "node_modules/example": {
      "version": "1.2.3",
      "integrity": "sha512-example",
      "dependencies": { "child": "^2.0.0" }
    },
    "node_modules/example/node_modules/child": {
      "version": "2.1.0",
      "integrity": "sha512-child"
    }
  }
}"#,
    );
    let target = lock_graph_from_lockfile(
        PackageManagerId::Pnpm,
        "pnpm-lock.yaml",
        b"lockfileVersion: '9.0'\npackages:\n  example@1.2.3:\n    resolution: {integrity: sha512-example}\n  child@2.1.0:\n    resolution: {integrity: sha512-child}\nsnapshots:\n  example@1.2.3:\n    dependencies:\n      child: 2.1.0\n  child@2.1.0: {}\n",
    );
    assert!(source.complete);
    assert!(target.complete);
    let comparison = compare_lock_graphs(&source, &target).expect("comparison");
    assert_eq!(comparison.status, VerificationStatus::Passed);
    assert!(comparison.added_resolutions.is_empty());
    assert!(comparison.removed_resolutions.is_empty());
}

#[test]
fn excludes_local_pnpm_package_locators_from_the_registry_graph() {
    let graph = lock_graph_from_lockfile(
        PackageManagerId::Pnpm,
        "pnpm-lock.yaml",
        b"lockfileVersion: '9.0'\npackages:\n  example@1.2.3:\n    resolution: {integrity: sha512-example}\n  '@fixture/local@file:packages/local':\n    resolution: {directory: packages/local, type: directory}\nsnapshots:\n  example@1.2.3: {}\n  '@fixture/local@file:packages/local': {}\n",
    );
    assert!(graph.complete);
    assert_eq!(graph.nodes.len(), 1);
    assert_eq!(graph.nodes[0].name, "example");
}

#[test]
fn extracts_yarn_and_bun_text_lockfiles() {
    let classic = lock_graph_from_lockfile(
        PackageManagerId::YarnClassic,
        "yarn.lock",
        b"# yarn lockfile v1\n\nleft-pad@^1.0.0:\n  version \"1.3.0\"\n  integrity sha512-example\n  dependencies:\n    repeat-string \"^1.6.1\"\n",
    );
    assert!(classic.complete);
    assert_eq!(classic.nodes[0].name, "left-pad");
    assert_eq!(classic.nodes[0].version, "1.3.0");
    assert_eq!(classic.edges[0].dependency, "repeat-string");

    let modern = lock_graph_from_lockfile(
        PackageManagerId::YarnModern,
        "yarn.lock",
        b"__metadata:\n  version: 8\n\n\"left-pad@npm:^1.0.0\":\n  version: 1.3.0\n  resolution: \"left-pad@npm:1.3.0\"\n  checksum: 10/example\n  dependencies:\n    repeat-string: \"npm:^1.6.1\"\n",
    );
    assert!(modern.complete);
    assert_eq!(modern.nodes[0].name, "left-pad");
    assert_eq!(modern.nodes[0].version, "1.3.0");

    let bun = lock_graph_from_lockfile(
        PackageManagerId::Bun,
        "bun.lock",
        br#"{
  "lockfileVersion": 1,
  "packages": {
    "left-pad": ["left-pad@1.3.0", "", { "dependencies": { "repeat-string": "^1.6.1" } }, "sha512-example"],
    "repeat-string": ["repeat-string@1.6.1", "", {}, "sha512-child"],
  },
}
"#,
    );
    assert!(bun.complete);
    assert_eq!(bun.nodes[0].name, "left-pad");
    assert_eq!(bun.nodes[0].version, "1.3.0");
    assert_eq!(bun.edges[0].dependency, "repeat-string");
    assert_eq!(bun.edges[0].target.as_deref(), Some("repeat-string@1.6.1"));
}

#[test]
fn reachable_policy_uses_exact_bun_edge_targets() {
    let source = lock_graph_from_lockfile(
        PackageManagerId::Bun,
        "bun.lock",
        br#"{
  "lockfileVersion": 1,
  "workspaces": { "": { "dependencies": { "live": "1.0.0" } } },
  "packages": {
    "live": ["live@1.0.0", "", { "dependencies": { "child": "^2.0.0" } }, "sha512-live"],
    "child": ["child@2.0.0", "", {}, "sha512-child-current"],
    "stale-parent/child": ["child@1.0.0", "", {}, "sha512-child-stale"],
  },
}
"#,
    );
    let target = lock_graph_from_lockfile(
        PackageManagerId::Deno,
        "deno.lock",
        br#"{
  "version": "5",
  "npm": {
    "live@1.0.0": { "integrity": "sha512-live", "dependencies": ["child@2.0.0"] },
    "child@2.0.0": { "integrity": "sha512-child-current" }
  }
}
"#,
    );
    let project_ir = project_ir_with_dependencies(&[("dependencies", "live")]);
    let comparison = compare_lock_graphs_for_project(&source, &target, &project_ir).expect("exact Bun comparison");
    assert_eq!(comparison.status, VerificationStatus::Passed);
    assert_eq!(comparison.source_resolutions, 2);
    assert_eq!(comparison.pruned_source_resolutions, ["child@1.0.0"]);
}

#[test]
fn extracts_vlt_and_deno_lock_graphs() {
    let vlt = lock_graph_from_lockfile(
        PackageManagerId::Vlt,
        "vlt-lock.json",
        br#"{
  "lockfileVersion": 1,
  "nodes": {
    "~npm~left-pad@1.3.0": [0, "left-pad", "sha512-example", "https://registry.npmjs.org/left-pad/-/left-pad-1.3.0.tgz"],
    "~npm~@scope+package@2.1.0~peer.1": [0, "@scope/package", "sha512-scoped", "https://registry.npmjs.org/@scope/package/-/package-2.1.0.tgz"]
  },
  "edges": {}
}"#,
    );
    assert!(vlt.complete);
    assert_eq!(vlt.nodes.len(), 2);
    assert!(vlt.nodes.iter().any(|node| node.name == "@scope/package" && node.version == "2.1.0"));

    let deno = lock_graph_from_lockfile(
        PackageManagerId::Deno,
        "deno.lock",
        br#"{
  "version": "5",
  "specifiers": {"npm:left-pad@^1.0.0": "1.3.0"},
  "npm": {
    "left-pad@1.3.0": {"integrity": "sha512-example", "dependencies": ["repeat-string@1.6.1"]},
    "repeat-string@1.6.1": {"integrity": "sha512-child"}
  }
}"#,
    );
    assert!(deno.complete);
    assert_eq!(deno.nodes.len(), 2);
    assert_eq!(deno.edges[0].dependency, "repeat-string");
}

#[test]
fn normalizes_deno_peer_contexts_to_registry_versions() {
    let graph = lock_graph_from_lockfile(
        PackageManagerId::Deno,
        "deno.lock",
        br#"{
  "version": "5",
  "npm": {
    "eslint-plugin-example@1.2.3_eslint@9.0.0": {
      "integrity": "sha512-example",
      "dependencies": ["eslint@9.0.0"]
    }
  }
}"#,
    );
    assert!(graph.complete);
    assert_eq!(graph.nodes[0].name, "eslint-plugin-example");
    assert_eq!(graph.nodes[0].version, "1.2.3");
}

#[test]
fn fails_closed_for_invalid_or_binary_lockfiles() {
    let invalid = lock_graph_from_lockfile(PackageManagerId::Pnpm, "pnpm-lock.yaml", b"packages: [");
    assert!(!invalid.complete);
    assert_eq!(invalid.diagnostics[0].code, "LOCK_GRAPH_PARSE_FAILED");
    assert!(invalid.diagnostics[0].blocking);

    let incomplete = lock_graph_from_lockfile(PackageManagerId::Npm, "package-lock.json", br#"{"lockfileVersion":3}"#);
    assert!(!incomplete.complete);
    assert_eq!(incomplete.diagnostics[0].code, "LOCK_GRAPH_PARSE_FAILED");
    assert_eq!(
        incomplete.diagnostics[0].summary,
        "The source lockfile graph could not be parsed: package-lock files without a packages map are not supported"
    );

    let binary = lock_graph_from_lockfile(PackageManagerId::Bun, "bun.lockb", &[0, 1, 2, 3]);
    assert!(!binary.complete);
    assert_eq!(binary.format, "bun-binary");
    assert_eq!(binary.diagnostics[0].code, "LOCK_GRAPH_FORMAT_UNSUPPORTED");
    assert!(binary.diagnostics[0].blocking);
}

#[test]
fn rejects_bytes_that_are_not_utf8() {
    let graph = lock_graph_from_lockfile(PackageManagerId::Npm, "package-lock.json", &[0xff, 0xfe]);
    assert!(!graph.complete);
    assert_eq!(graph.diagnostics[0].code, "LOCK_GRAPH_ENCODING_INVALID");
    assert!(graph.diagnostics[0].summary.starts_with("The source lockfile is not UTF-8: "));
    assert!(graph.lockfile_digest.starts_with("sha256:"));
    assert_eq!(graph.lockfile_digest.len(), "sha256:".len() + 64);
}

#[test]
fn orders_nodes_and_deduplicates_edges() {
    let graph = lock_graph_from_lockfile(
        PackageManagerId::Npm,
        "package-lock.json",
        br#"{
  "lockfileVersion": 3,
  "packages": {
    "node_modules/zed": {"version": "1.0.0", "dependencies": {"a": "1"}, "os": ["Linux", "darwin", "linux"]},
    "node_modules/@scope/a": {"version": "2.0.0"},
    "node_modules/x/node_modules/zed": {"version": "1.0.0", "dependencies": {"a": "1"}}
  }
}"#,
    );
    assert!(graph.complete);
    let names: Vec<(&str, &str, &str)> =
        graph.nodes.iter().map(|n| (n.name.as_str(), n.version.as_str(), n.locator.as_str())).collect();
    assert_eq!(
        names,
        vec![
            ("@scope/a", "2.0.0", "node_modules/@scope/a"),
            ("zed", "1.0.0", "node_modules/x/node_modules/zed"),
            ("zed", "1.0.0", "node_modules/zed"),
        ]
    );
    assert_eq!(graph.edges.len(), 1);
    assert_eq!(graph.edges[0].from, "zed@1.0.0");
    assert_eq!(graph.nodes[2].platform.os, vec!["darwin".to_owned(), "linux".to_owned()]);
    assert!(graph.graph_id.starts_with("lockgraph_"));
    assert_eq!(graph.graph_id.len(), "lockgraph_".len() + 16);
}
