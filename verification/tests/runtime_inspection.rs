use pkgshift::runtime::inspect::{
    bun_evidence, inspect_runtime_entries, residual_references, runtime_input_path, RuntimeEntry,
};

fn file(path: &str, content: &str) -> RuntimeEntry {
    RuntimeEntry::File {
        path: path.to_owned(),
        size: Some(content.len() as u64),
        content: Some(content.to_owned()),
    }
}

#[test]
fn ignores_comments_and_package_manager_pin() {
    let entries = vec![
        file("package.json", r#"{"packageManager":"bun@1.3.0","scripts":{"test":"deno test"}}"#),
        file("main.ts", "// Bun.serve is documented here\n"),
    ];
    let inspection = inspect_runtime_entries(&entries);
    assert!(inspection.bun_evidence.is_empty());
    assert_eq!(inspection.files.len(), 2);
    assert!(inspection.fingerprint.starts_with("runtime_repo_"));
}

#[test]
fn blocks_oversized_runtime_inputs() {
    let entries = vec![RuntimeEntry::File { path: "main.ts".to_owned(), size: Some(512_001), content: None }];
    let inspection = inspect_runtime_entries(&entries);
    assert_eq!(inspection.input_diagnostics[0].code, "RUNTIME_SOURCE_FILE_TOO_LARGE");
    assert!(inspection.files.is_empty());
    assert_eq!(residual_references(&inspection), vec!["main.ts:RUNTIME_SOURCE_FILE_TOO_LARGE".to_owned()]);
}

#[test]
fn blocks_runtime_source_symlinks() {
    let entries = vec![
        file("real.ts", "Bun.file('value').text();"),
        RuntimeEntry::Symlink { path: "linked.ts".to_owned(), target_is_directory: false },
        RuntimeEntry::Symlink { path: "notes.md".to_owned(), target_is_directory: false },
    ];
    let inspection = inspect_runtime_entries(&entries);
    let codes: Vec<&str> = inspection.input_diagnostics.iter().map(|d| d.code.as_str()).collect();
    assert_eq!(codes, vec!["RUNTIME_SOURCE_SYMLINK_UNSUPPORTED"]);
    assert_eq!(inspection.input_diagnostics[0].evidence[0].location, "linked.ts");
    assert_eq!(inspection.bun_evidence, vec!["real.ts:Bun global API".to_owned()]);
}

#[test]
fn only_runtime_inputs_are_read() {
    assert!(runtime_input_path("src/app.mts"));
    assert!(runtime_input_path("package.json"));
    assert!(runtime_input_path("packages/a/package.json"));
    assert!(runtime_input_path("bunfig.toml"));
    assert!(runtime_input_path("config/tsconfig.build.json"));
    assert!(!runtime_input_path("mypackage.json"));
    assert!(!runtime_input_path("README.md"));
    let entries = vec![file("README.md", "Bun.serve")];
    assert!(inspect_runtime_entries(&entries).files.is_empty());
}

#[test]
fn finds_each_kind_of_bun_evidence() {
    assert_eq!(
        bun_evidence("main.ts", "import { Database } from \"bun:sqlite\";\nBun.serve({});"),
        vec!["main.ts:Bun global API".to_owned(), "main.ts:Bun module import".to_owned()]
    );
    assert_eq!(
        bun_evidence("package.json", r#"{"devDependencies":{"@types/bun":"1"},}"#),
        vec!["package.json:Bun runtime manifest reference".to_owned()]
    );
    assert_eq!(
        bun_evidence("package.json", r#"{"scripts":{"dev":"bunx vite"}}"#),
        vec!["package.json:Bun runtime manifest reference".to_owned()]
    );
    assert!(bun_evidence("package.json", r#"{"scripts":{"dev":"bundle"}}"#).is_empty());
    assert_eq!(
        bun_evidence("tsconfig.json", "{compilerOptions: {types: ['bun-types']}}"),
        vec!["tsconfig.json:Bun TypeScript types".to_owned()]
    );
    assert_eq!(bun_evidence("bunfig.toml", ""), vec!["bunfig.toml:Bun runtime configuration".to_owned()]);
    assert!(bun_evidence("tsconfig.json", "not json").is_empty());
}

#[test]
fn the_fingerprint_follows_the_inputs() {
    let a = inspect_runtime_entries(&vec![file("main.ts", "a")]);
    let b = inspect_runtime_entries(&vec![file("main.ts", "b")]);
    let again = inspect_runtime_entries(&vec![file("main.ts", "a")]);
    assert_ne!(a.fingerprint, b.fingerprint);
    assert_eq!(a.fingerprint, again.fingerprint);
    assert_eq!(a.fingerprint.len(), "runtime_repo_".len() + 16);
}
