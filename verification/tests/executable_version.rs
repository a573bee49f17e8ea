use pkgshift::executable::{check_version, version_arguments, version_tokens};
use pkgshift::model::ExecutableRequirement;

fn requirement() -> ExecutableRequirement {
    ExecutableRequirement {
        program: "fixture-pm".to_owned(),
        required_version: "1.2.3".to_owned(),
        version_command: vec!["fixture-pm".to_owned(), "--version".to_owned()],
        package_manager_pin: "fixture-pm@1.2.3".to_owned(),
    }
}

#[test]
fn resolves_and_validates_an_exact_version_without_exposing_output() {
    let resolved = check_version(&requirement(), "/bin/fixture-pm", "fixture-pm 1.2.3 secret-data\n")
        .expect("resolved executable");
    assert_eq!(resolved.version, "1.2.3");
    assert_eq!(resolved.path, "/bin/fixture-pm");
    assert_eq!(resolved.package_manager_pin, "fixture-pm@1.2.3");
    assert!(!format!("{resolved:?}").contains("secret-data"));
}

#[test]
fn rejects_a_different_resolved_version() {
    let error = check_version(&requirement(), "/bin/fixture-pm", "2.0.0\n").expect_err("version mismatch");
    assert!(error.contains("requires version 1.2.3"));
    assert_eq!(error, "fixture-pm requires version 1.2.3, but the resolved executable reported 2.0.0");
    assert!(!error.contains("secret-data"));
    let silent = check_version(&requirement(), "/bin/fixture-pm", "no version here").expect_err("mismatch");
    assert!(silent.ends_with("reported unrecognized"));
}

#[test]
fn version_tokens_are_trimmed_and_start_with_a_digit() {
    assert_eq!(version_tokens("bun v1.3.14 (abc)\n"), vec!["1.3.14".to_owned()]);
    assert_eq!(version_tokens("  \"10.9.2\", 3rd-party!  "), vec!["10.9.2".to_owned(), "3rd-party".to_owned()]);
    assert!(version_tokens("").is_empty());
}

#[test]
fn the_probe_runs_the_version_command_after_the_program() {
    assert_eq!(version_arguments(&requirement()), Some(vec!["--version".to_owned()]));
    let mut empty = requirement();
    empty.version_command.clear();
    assert_eq!(version_arguments(&empty), None);
}
