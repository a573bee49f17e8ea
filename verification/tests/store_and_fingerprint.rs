use pkgshift::fingerprint::{redact_sensitive_text, repository_fingerprint};
use pkgshift::json::{parse_json, render_json, JsonValue};
use pkgshift::store::{digest_json, open_envelope, open_plan_envelope, open_run_envelope, seal};

fn plan_content(id: &str) -> JsonValue {
    JsonValue::Object(vec![(
        "plan".to_owned(),
        JsonValue::Object(vec![("planId".to_owned(), JsonValue::Str(id.to_owned()))]),
    )])
}

fn files(npmrc: &str) -> Vec<(String, Vec<u8>)> {
    vec![
        ("package.json".to_owned(), br#"{"name":"fixture","packageManager":"npm@12.0.2"}"#.to_vec()),
        ("package-lock.json".to_owned(), b"{}".to_vec()),
        (".npmrc".to_owned(), npmrc.as_bytes().to_vec()),
    ]
}

#[test]
fn inspect_secret_rotation_does_not_change_fingerprint() {
    let first = repository_fingerprint(&files("token=first\n"));
    let second = repository_fingerprint(&files("token=second\n"));
    assert_eq!(first, second);
    assert!(first.starts_with("sha256:"));
    assert_eq!(first.len(), "sha256:".len() + 64);
}

#[test]
fn project_patch_files_participate_in_repository_fingerprints() {
    let mut before = files("registry=https://registry.npmjs.org/\n");
    before.push(("patches/left-pad.patch".to_owned(), b"--- a/index.js\n".to_vec()));
    let mut after = before.clone();
    after[3].1 = b"--- a/index.js\n+changed\n".to_vec();
    assert_ne!(repository_fingerprint(&before), repository_fingerprint(&after));
    let other_setting = files("registry=https://example.test/\n");
    assert_ne!(repository_fingerprint(&files("registry=https://registry.npmjs.org/\n")), repository_fingerprint(&other_setting));
}

#[test]
fn redacts_secret_settings_of_registry_configuration() {
    assert_eq!(
        redact_sensitive_text(".npmrc", "//registry.npmjs.org/:_authToken=secret-value\nregistry=https://r.test/\n"),
        "//registry.npmjs.org/:_authToken=<redacted>\nregistry=https://r.test/\n"
    );
    assert_eq!(
        redact_sensitive_text("app/.yarnrc.yml", "npmAuthToken: abc\nnodeLinker: pnp"),
        "npmAuthToken:<redacted>\nnodeLinker: pnp"
    );
    assert_eq!(redact_sensitive_text("package.json", "token=kept"), "token=kept");
}

#[test]
fn sealed_content_opens_and_tampered_content_is_refused() {
    let envelope = seal(plan_content("plan_a"));
    let text = render_json(&envelope);
    let read = parse_json(&text).expect("envelope text");
    let content = open_envelope("/s/plans/plan_a.json", &read).expect("intact");
    assert_eq!(digest_json(content), digest_json(&plan_content("plan_a")));
    assert!(open_plan_envelope("plan_a", "/s/plans/plan_a.json", &read).is_ok());
    assert_eq!(
        open_plan_envelope("plan_b", "/s/plans/plan_b.json", &read).unwrap_err(),
        "stored plan identity does not match its path"
    );
    assert_eq!(open_plan_envelope("a", "p", &read).unwrap_err(), "plan identifiers must start with plan_");
    let tampered_text = text.replace("plan_a", "plan_x");
    let tampered = parse_json(&tampered_text).expect("tampered text");
    assert_eq!(
        open_plan_envelope("plan_x", "/s/plans/plan_x.json", &tampered).unwrap_err(),
        "stored artifact failed integrity verification: /s/plans/plan_x.json"
    );
    let old_schema = parse_json(&text.replace("\"1.0\"", "\"0.9\"")).expect("old schema");
    assert_eq!(
        open_envelope("p", &old_schema).unwrap_err(),
        "stored artifact failed integrity verification: p"
    );
    assert_eq!(open_envelope("p", &JsonValue::Null).unwrap_err(), "stored artifact is not a store envelope: p");
    let run = seal(JsonValue::Object(vec![("runId".to_owned(), JsonValue::Str("run_1".to_owned()))]));
    assert!(open_run_envelope("run_1", "r", &run).is_ok());
    assert_eq!(open_run_envelope("x", "r", &run).unwrap_err(), "run identifiers must start with run_");
}

#[test]
fn tests_secret_rotation_does_not_change_fingerprint() {
    let first = repository_fingerprint(&files("//registry.npmjs.org/:_authToken=first\n"));
    let second = repository_fingerprint(&files("//registry.npmjs.org/:_authToken=second\n"));
    assert_eq!(first, second);
}

#[test]
fn a_saved_plan_loads_back_and_a_tampered_one_does_not() {
    let (path, envelope) =
        pkgshift::transaction::save_plan("/state", "plan_a", plan_content("plan_a")).expect("saved");
    assert_eq!(path, "/state/plans/plan_a.json");
    let read = parse_json(&render_json(&envelope)).expect("written text");
    assert!(open_plan_envelope("plan_a", &path, &read).is_ok());
    assert_eq!(
        pkgshift::transaction::save_plan("/state", "a", plan_content("a")).unwrap_err(),
        "plan identifiers must start with plan_"
    );
    let tampered = parse_json(&render_json(&envelope).replace("\"planId\": \"plan_a\"", "\"planId\": \"plan_a\", \"x\": 1"))
        .expect("tampered text");
    assert!(open_plan_envelope("plan_a", &path, &tampered).unwrap_err().contains("failed integrity verification"));
}
