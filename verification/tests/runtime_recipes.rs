use pkgshift::runtime::lex::{code_mask, code_occurrences, contains_code, without_comments};
use pkgshift::runtime::model::{DenoPermission, PermissionSet, RuntimeFile};
use pkgshift::runtime::recipe::apply_replacements;
use pkgshift::runtime::recipe::bun_file;
use pkgshift::runtime::recipe::bun_serve;
use pkgshift::runtime::recipe::bun_shell;
use pkgshift::runtime::recipe::bun_sqlite;
use pkgshift::runtime::recipe::chain::{can_transform_file, transform_file};
use pkgshift::runtime::recipe::imports;
use pkgshift::runtime::recipe::manifest;
use pkgshift::runtime::recipe::tsconfig;

fn net() -> PermissionSet {
    PermissionSet::from_slice(&[DenoPermission::Net])
}

#[test]
fn ignores_comments_and_strings_but_reads_template_expressions() {
    let content = r#"
// Bun.serve({})
const literal = "Bun.file";
const template = `${Bun.file(path).text()}`;
Bun.serve({ fetch: handler });
"#;
    assert_eq!(code_occurrences(content, "Bun.serve").len(), 1);
    assert_eq!(code_occurrences(content, "Bun.file").len(), 1);
}

#[test]
fn removes_comments_without_removing_module_strings() {
    let content = "// from \"bun:test\"\nimport {\n  test\n} from \"bun:test\";\n";
    let stripped = without_comments(content);
    assert_eq!(stripped.matches("bun:test").count(), 1);
}

#[test]
fn transforms_text_and_directly_awaited_json_reads() {
    let result = bun_file::transform(
        "config.ts",
        "const text = await Bun.file(path).text();\nconst data = await Bun.file(\"config.json\").json();\n",
    );
    assert_eq!(
        result.content,
        "const text = await Deno.readTextFile(path);\nconst data = JSON.parse(await Deno.readTextFile(\"config.json\"));\n"
    );
    assert!(result.diagnostics.is_empty());
}

#[test]
fn blocks_unawaited_json_reads() {
    let result = bun_file::transform("config.ts", "const data = Bun.file(path).json();\n");
    assert_eq!(result.content, "const data = Bun.file(path).json();\n");
    assert!(result
        .diagnostics
        .iter()
        .any(|diagnostic| diagnostic.code == "RUNTIME_BUN_FILE_JSON_UNSUPPORTED"));
}

#[test]
fn transforms_method_shorthand() {
    let result = bun_serve::transform(
        "server.ts",
        "Bun.serve({ port, fetch(request) { return new Response(request.url); } });",
    );
    assert_eq!(
        result.content,
        "Deno.serve({ port: port }, (request) => { return new Response(request.url); });"
    );
    assert!(result.diagnostics.is_empty());
}

#[test]
fn transforms_an_official_hono_fetch_handler_shape() {
    let result = bun_serve::transform(
        "server.ts",
        "import { Hono } from \"hono\";\nconst app = new Hono();\nBun.serve({ port: 3000, fetch: app.fetch });",
    );
    assert_eq!(
        result.content,
        "import { Hono } from \"hono\";\nconst app = new Hono();\nDeno.serve({ port: 3000 }, app.fetch);"
    );
    assert!(result.diagnostics.is_empty());
}

#[test]
fn blocks_unverified_handler_references_and_two_parameter_methods() {
    let reference = bun_serve::transform("server.ts", "Bun.serve({ fetch: handler });");
    assert!(!reference.diagnostics.is_empty());

    let method = bun_serve::transform(
        "server.ts",
        "Bun.serve({ fetch(request, server) { return handler(request, server); } });",
    );
    assert!(!method.diagnostics.is_empty());
}

#[test]
fn blocks_routes() {
    let result = bun_serve::transform("server.ts", "Bun.serve({ routes: {}, fetch: app.fetch });");
    assert!(!result.diagnostics.is_empty());
}

#[test]
fn transforms_async_method_shorthand() {
    let result = bun_serve::transform(
        "server.ts",
        "Bun.serve({ async fetch(request) { return await handler(request); } });",
    );
    assert_eq!(
        result.content,
        "Deno.serve(async (request) => { return await handler(request); });"
    );
    assert!(result.diagnostics.is_empty());
}

#[test]
fn maps_the_bun_shell_template_to_dax() {
    let result = bun_shell::transform("build.ts", "import { $ } from \"bun\";\nawait $`echo hello`;\n");
    assert_eq!(
        result.content,
        "import $ from \"jsr:@david/dax@0.49.0\";\nawait $`echo hello`;\n"
    );
    assert!(result.diagnostics.is_empty());
}

#[test]
fn maps_database_to_database_sync_without_renaming_usage() {
    let result = bun_sqlite::transform(
        "database.ts",
        "import { Database as DB } from \"bun:sqlite\";\nconst db = new DB(\":memory:\");\ndb.exec(\"select 1\");\n",
    );
    assert_eq!(
        result.content,
        "import { DatabaseSync as DB } from \"node:sqlite\";\nconst db = new DB(\":memory:\");\ndb.exec(\"select 1\");\n"
    );
    assert!(result.diagnostics.is_empty());
}

#[test]
fn blocks_bun_only_query_members() {
    let result = bun_sqlite::transform(
        "database.ts",
        "import { Database } from \"bun:sqlite\";\nconst db = new Database();\ndb.query(\"select 1\");\n",
    );
    assert!(result
        .diagnostics
        .iter()
        .any(|diagnostic| diagnostic.code == "RUNTIME_BUN_SQLITE_API_UNSUPPORTED"));
}

#[test]
fn splits_expect_from_node_test_imports() {
    let result = imports::transform("math.test.ts", "import { describe, it, expect } from \"bun:test\";\n");
    assert_eq!(
        result.content,
        "import { describe, it } from \"node:test\";\nimport { expect } from \"jsr:@std/expect\";\n"
    );
    assert!(result.diagnostics.is_empty());
}

#[test]
fn rewrites_hono_script_with_explicit_permissions() {
    let result = manifest::transform(
        "package.json",
        r#"{"scripts":{"dev":"bun run --hot src/index.ts"},"devDependencies":{"@types/bun":"latest"}}"#,
        &net(),
    );
    assert!(result.content.contains("deno run --watch --allow-net src/index.ts"));
    assert!(!result.content.contains("@types/bun"));
    assert!(result.diagnostics.is_empty());
}

#[test]
fn transforms_a_hono_style_entrypoint() {
    let file = RuntimeFile {
        path: "src/index.ts".to_owned(),
        content: "import { Hono } from \"hono\";\nconst app = new Hono();\nBun.serve({ port: 3000, fetch: app.fetch });\n".to_owned(),
    };
    assert!(can_transform_file(&file));
    let output = transform_file(&file, &net());
    assert_eq!(
        output.content,
        "import { Hono } from \"hono\";\nconst app = new Hono();\nDeno.serve({ port: 3000 }, app.fetch);\n"
    );
    assert!(output.diagnostics.is_empty());
    assert!(output.required_permissions.contains(DenoPermission::Net));
}

#[test]
fn ignores_overlapping_replacement_ranges() {
    let output = apply_replacements("abcdef", &[(1, 4, "first".to_owned()), (2, 5, "overlap".to_owned())]);
    assert_eq!(output, "afirstef");
}

#[test]
fn transforms_the_verified_sqlite_subset() {
    let file = RuntimeFile {
        path: "src/database.ts".to_owned(),
        content: "import { Database } from \"bun:sqlite\";\n".to_owned(),
    };
    assert!(can_transform_file(&file));
    let output = transform_file(&file, &PermissionSet::new());
    assert_eq!(output.content, "import { DatabaseSync as Database } from \"node:sqlite\";\n");
    assert!(output.diagnostics.is_empty());
}

#[test]
fn transform_file_records_each_recipe_once_in_recipe_order() {
    let file = RuntimeFile {
        path: "src/app.ts".to_owned(),
        content: "import { $ } from \"bun\";\nimport { test } from \"bun:test\";\nconst t = await Bun.file(p).text();\n".to_owned(),
    };
    assert!(can_transform_file(&file));
    let output = transform_file(&file, &PermissionSet::new());
    let ids: Vec<&str> = output.applications.iter().map(|a| a.recipe_id.as_str()).collect();
    assert_eq!(ids, vec!["bun.file-to-deno-file-api", "bun.shell-to-dax", "bun.test-to-node.test"]);
    assert!(output.applications.iter().all(|a| a.replacements == 1 && a.path == "src/app.ts"));
    assert!(output.required_permissions.contains(DenoPermission::Read));
    assert!(output.required_permissions.contains(DenoPermission::Run));
}

#[test]
fn reports_bun_usage_that_no_recipe_handles() {
    let file = RuntimeFile {
        path: "worker.js".to_owned(),
        content: "const rewriter = new HTMLRewriter();\nBun.sleep(1);\n".to_owned(),
    };
    let output = transform_file(&file, &PermissionSet::new());
    let codes: Vec<&str> = output.diagnostics.iter().map(|d| d.code.as_str()).collect();
    assert_eq!(codes, vec!["RUNTIME_BUN_GLOBAL_UNSUPPORTED", "RUNTIME_HTML_REWRITER_UNSUPPORTED"]);
}

#[test]
fn refuses_bunfig_and_leaves_other_files_alone() {
    let bunfig = RuntimeFile { path: "bunfig.toml".to_owned(), content: "[install]\n".to_owned() };
    let output = transform_file(&bunfig, &PermissionSet::new());
    assert_eq!(output.content, "[install]\n");
    assert_eq!(output.diagnostics[0].code, "RUNTIME_BUNFIG_UNSUPPORTED");
    let readme = RuntimeFile { path: "README.md".to_owned(), content: "Bun.serve".to_owned() };
    let output = transform_file(&readme, &PermissionSet::new());
    assert_eq!(output.content, "Bun.serve");
    assert!(output.diagnostics.is_empty());
    assert!(output.applications.is_empty());
}

#[test]
fn manifest_rewrites_tests_tasks_and_removes_type_packages() {
    let result = manifest::transform(
        "package.json",
        "{\n  // comment\n  \"scripts\": {\"test\": \"bun test\", \"build\": \"bun run build\", \"lint\": \"eslint .\",},\n  \"dependencies\": {\"bun-types\": \"1\", \"hono\": \"4\"}\n}\n",
        &PermissionSet::new(),
    );
    assert_eq!(
        result.content,
        "{\n  \"dependencies\": {\n    \"hono\": \"4\"\n  },\n  \"scripts\": {\n    \"build\": \"deno task build\",\n    \"lint\": \"eslint .\",\n    \"test\": \"deno test\"\n  }\n}\n"
    );
    assert_eq!(result.counts[1], 1);
    assert_eq!(result.counts[2], 2);
    assert!(result.diagnostics.is_empty());
}

#[test]
fn manifest_refuses_shell_scripts_and_invalid_documents() {
    let result = manifest::transform(
        "package.json",
        r#"{"scripts":{"dev":"bun run a.ts && echo done"}}"#,
        &PermissionSet::new(),
    );
    assert_eq!(result.diagnostics.len(), 1);
    assert_eq!(result.diagnostics[0].code, "RUNTIME_BUN_SCRIPT_UNSUPPORTED");
    assert_eq!(result.diagnostics[0].evidence[0].location, "package.json#/scripts/dev");
    assert_eq!(result.content, r#"{"scripts":{"dev":"bun run a.ts && echo done"}}"#);

    let invalid = manifest::transform("package.json", "{", &PermissionSet::new());
    assert_eq!(invalid.diagnostics[0].code, "RUNTIME_MANIFEST_INVALID");
    assert_eq!(invalid.diagnostics[0].summary, "package.json could not be parsed for runtime recipes.");
    let not_object = manifest::transform("package.json", "[1]", &PermissionSet::new());
    assert_eq!(not_object.diagnostics[0].summary, "package.json must contain a JSON object.");
    assert_eq!(not_object.content, "[1]");
}

#[test]
fn transform_script_forms() {
    let perms = PermissionSet::from_slice(&[DenoPermission::Read, DenoPermission::Net]);
    let run = |s: &str| {
        let cs: Vec<char> = s.chars().collect();
        manifest::transform_script(&cs, &perms).map(|r| r.map(|v| v.into_iter().collect::<String>()))
    };
    assert_eq!(run("eslint ."), None);
    assert_eq!(run("bun test"), Some(Ok("deno test --allow-read --allow-net".to_owned())));
    assert_eq!(run("bun server.ts"), Some(Ok("deno run --allow-read --allow-net server.ts".to_owned())));
    assert_eq!(run("bun --hot server.ts"), Some(Ok("deno run --watch --allow-read --allow-net server.ts".to_owned())));
    assert_eq!(run("bun run build:prod"), Some(Ok("deno task build:prod".to_owned())));
    assert_eq!(run("bun run --hot"), Some(Ok("deno task --hot".to_owned())));
    assert_eq!(run("bunx tsc"), Some(Err(())));
    assert_eq!(run("bun run a.ts | cat"), Some(Err(())));
}

#[test]
fn tsconfig_drops_bun_types_and_empty_lists() {
    let result = tsconfig::transform(
        "tsconfig.json",
        "{ compilerOptions: { types: ['bun-types'], strict: true }, }",
    );
    assert_eq!(result.content, "{\n  \"compilerOptions\": {\n    \"strict\": true\n  }\n}\n");
    assert_eq!(result.counts[7], 1);
    let kept = tsconfig::transform(
        "tsconfig.json",
        r#"{"compilerOptions":{"types":["node","@types/bun"]}}"#,
    );
    assert_eq!(kept.content, "{\n  \"compilerOptions\": {\n    \"types\": [\n      \"node\"\n    ]\n  }\n}\n");
    let untouched = tsconfig::transform("tsconfig.json", r#"{"compilerOptions":{"types":["node"]}}"#);
    assert_eq!(untouched.content, r#"{"compilerOptions":{"types":["node"]}}"#);
    let invalid = tsconfig::transform("tsconfig.json", "{");
    assert_eq!(invalid.diagnostics[0].code, "RUNTIME_TSCONFIG_INVALID");
}

#[test]
fn code_mask_follows_template_expressions() {
    let mask = code_mask("a`b${c}d`e");
    assert_eq!(mask, vec![true, false, false, false, false, true, false, false, false, true]);
    assert!(contains_code("x = 'Bun.' + Bun.env", "Bun."));
    assert!(!contains_code("x = 'Bun.env'", "Bun."));
}
