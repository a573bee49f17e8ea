//! The package-manager inspection of a project, assembled from what was
//! read: the root manifest's text, `pnpm-workspace.yaml`, the relevant
//! files and the texts of the integration files. Walking the repository,
//! reading files and fingerprinting them happen outside.
use vstd::prelude::*;
use crate::detect::{detect_from_files, detection_of};
use crate::inspect::{
    integration_kind, integration_kind_spec, is_integration_file, is_integration_file_spec, manager_tokens,
    manager_tokens_spec, parse_yaml_list, parse_yaml_list_spec, workspace_patterns, workspace_patterns_spec,
};
use crate::json::{as_bool, as_str, bool_value, get, get_member, json_view, opt_view, read_json, serde_json_read, string_value, Json, JsonValue};
use crate::model::{
    diagnostics_view, Diagnostic, DiagnosticSeverity, DiagnosticView, IntegrationInspection, IntegrationKind,
    IntegrationView, ManifestInspection, ProjectInspection, WorkspaceInspection, WorkspaceSource,
};
use crate::plan::no_evidence;
use crate::text::{chars_of, push_str, string_of, strs};

verus! {

/// The root manifest: absent, a JSON object, or why it is not one.
pub open spec fn manifest_doc(text: Option<Seq<char>>) -> Result<Option<Json>, Seq<char>> {
    match text {
        None => Ok(None),
        Some(t) => match serde_json_read(t) {
            Err(e) => Err("package.json: "@ + e),
            Ok(j) => match j {
                Json::Object(_) => Ok(Some(j)),
                _ => Err("package.json: expected a JSON object"@),
            },
        },
    }
}

pub open spec fn manifest_invalid(error: Seq<char>) -> DiagnosticView {
    DiagnosticView {
        code: "MANIFEST_INVALID"@,
        severity: DiagnosticSeverity::Error,
        summary: "The root package.json could not be parsed as a JSON object."@,
        blocking: true,
        evidence: no_evidence(),
        remediation: seq!["Fix package.json before retrying inspection: "@ + error],
    }
}

pub open spec fn manifest_not_found() -> DiagnosticView {
    DiagnosticView {
        code: "MANIFEST_NOT_FOUND"@,
        severity: DiagnosticSeverity::Error,
        summary: "No root package.json was found."@,
        blocking: true,
        evidence: no_evidence(),
        remediation: seq!["Run pkgshift from a JavaScript project root."@],
    }
}

/// The diagnostics of the root manifest.
pub open spec fn manifest_diagnostics(text: Option<Seq<char>>) -> Seq<DiagnosticView> {
    match manifest_doc(text) {
        Err(e) => seq![manifest_invalid(e)],
        Ok(None) => seq![manifest_not_found()],
        Ok(Some(_)) => seq![],
    }
}

/// The manifest document, when there is one.
pub open spec fn manifest_json(text: Option<Seq<char>>) -> Option<Json> {
    match manifest_doc(text) {
        Ok(d) => d,
        Err(_) => None,
    }
}

/// The manifest's `packageManager` string.
pub open spec fn package_manager_field(doc: Option<Json>) -> Option<Seq<char>> {
    match doc {
        Some(j) => as_str(get(j, "packageManager"@)),
        None => None,
    }
}

/// The workspace sources: the manifest's patterns, then those of
/// `pnpm-workspace.yaml`, each only when there are any.
pub open spec fn workspace_sources_spec(doc: Option<Json>, pnpm_workspace: Option<Seq<char>>) -> Seq<(Seq<char>, Seq<Seq<char>>)> {
    let wp = workspace_patterns_spec(doc);
    (if wp.len() > 0 {
        seq![("package.json"@, wp)]
    } else {
        seq![]
    }) + match pnpm_workspace {
        Some(c) => if parse_yaml_list_spec(c, "packages"@).len() > 0 {
            seq![("pnpm-workspace.yaml"@, parse_yaml_list_spec(c, "packages"@))]
        } else {
            seq![]
        },
        None => seq![],
    }
}

pub open spec fn sources_view(v: Seq<WorkspaceSource>) -> Seq<(Seq<char>, Seq<Seq<char>>)> {
    v.map_values(|s: WorkspaceSource| (s.location@, strs(s.patterns@)))
}

/// The integration files that name a package manager, with the names.
pub open spec fn integrations_spec(files: Seq<(Seq<char>, Seq<char>)>) -> Seq<IntegrationView>
    decreases files.len(),
{
    if files.len() == 0 {
        seq![]
    } else {
        let (path, text) = files.last();
        integrations_spec(files.drop_last()) + if is_integration_file_spec(path) && manager_tokens_spec(text).len() > 0 {
            seq![
                IntegrationView {
                    kind: integration_kind_spec(path),
                    path,
                    package_manager_tokens: manager_tokens_spec(text),
                },
            ]
        } else {
            seq![]
        }
    }
}

pub open spec fn pairs_view(v: Seq<(String, String)>) -> Seq<(Seq<char>, Seq<char>)> {
    v.map_values(|e: (String, String)| (e.0@, e.1@))
}

pub open spec fn opt_text(s: Option<&str>) -> Option<Seq<char>> {
    match s {
        Some(t) => Some(t@),
        None => None,
    }
}

pub open spec fn opt_string(s: Option<String>) -> Option<Seq<char>> {
    match s {
        Some(t) => Some(t@),
        None => None,
    }
}

fn read_manifest(text: Option<&str>) -> (r: Result<Option<JsonValue>, String>)
    ensures
        match r {
            Ok(Some(v)) => manifest_doc(opt_text(text)) == Ok::<Option<Json>, Seq<char>>(Some(json_view(v))),
            Ok(None) => manifest_doc(opt_text(text)) == Ok::<Option<Json>, Seq<char>>(None),
            Err(e) => manifest_doc(opt_text(text)) == Err::<Option<Json>, Seq<char>>(e@),
        },
{
    match text {
        None => Ok(None),
        Some(t) => match read_json(t) {
            Err(e) => {
                let mut m = chars_of("package.json: ");
                push_str(&mut m, e.as_str());
                Err(string_of(&m))
            },
            Ok(v) => {
                let is_object = match &v {
                    JsonValue::Object(_) => true,
                    _ => false,
                };
                if is_object {
                    Ok(Some(v))
                } else {
                    Err("package.json: expected a JSON object".to_owned())
                }
            },
        },
    }
}

fn optional_string(v: Option<&JsonValue>) -> (r: Option<String>)
    ensures
        opt_string(r) == as_str(opt_view(v)),
{
    match string_value(v) {
        Some(s) => Some(s.as_str().to_owned()),
        None => None,
    }
}

fn integrations_of(files: &Vec<(String, String)>) -> (r: Vec<IntegrationInspection>)
    ensures
        r@.map_values(|i: IntegrationInspection| i@) == integrations_spec(pairs_view(files@)),
{
    let ghost fv = pairs_view(files@);
    let mut r: Vec<IntegrationInspection> = Vec::new();
    let mut i: usize = 0;
    assert(r@.map_values(|x: IntegrationInspection| x@) =~= integrations_spec(fv.take(0)));
    while i < files.len()
        invariant
            i <= files.len(),
            fv == pairs_view(files@),
            r@.map_values(|x: IntegrationInspection| x@) == integrations_spec(fv.take(i as int)),
        decreases files.len() - i,
    {
        assert(fv.take(i + 1).drop_last() =~= fv.take(i as int));
        assert(fv.take(i + 1).last() == (files@[i as int].0@, files@[i as int].1@));
        let path = files[i].0.as_str();
        let ghost before = r@.map_values(|x: IntegrationInspection| x@);
        if is_integration_file(path) {
            let tokens = manager_tokens(files[i].1.as_str());
            if tokens.len() > 0 {
                let item = IntegrationInspection {
                    kind: integration_kind(path),
                    path: path.to_owned(),
                    package_manager_tokens: tokens,
                };
                r.push(item);
                assert(r@.map_values(|x: IntegrationInspection| x@) =~= before.push(item@));
            }
        }
        assert(r@.map_values(|x: IntegrationInspection| x@) =~= integrations_spec(fv.take(i + 1)));
        i = i + 1;
    }
    assert(fv.take(files.len() as int) =~= fv);
    r
}

fn workspace_of(doc: Option<&JsonValue>, pnpm_workspace: Option<&str>) -> (r: WorkspaceInspection)
    ensures
        sources_view(r.sources@) == workspace_sources_spec(opt_view(doc), opt_text(pnpm_workspace)),
        r.configured == (r.sources@.len() > 0),
{
    let mut sources: Vec<WorkspaceSource> = Vec::new();
    let patterns = workspace_patterns(doc);
    if patterns.len() > 0 {
        sources.push(WorkspaceSource { location: "package.json".to_owned(), patterns });
    }
    let ghost first = sources_view(sources@);
    match pnpm_workspace {
        Some(c) => {
            let ps = parse_yaml_list(c, "packages");
            if ps.len() > 0 {
                sources.push(WorkspaceSource { location: "pnpm-workspace.yaml".to_owned(), patterns: ps });
            }
        },
        None => {},
    }
    assert(sources_view(sources@) =~= workspace_sources_spec(opt_view(doc), opt_text(pnpm_workspace)));
    let configured = sources.len() > 0;
    WorkspaceInspection { configured, sources }
}

/// The inspection of a project from what was read of it. `manifest_text`
/// is the root `package.json` when there is one; `integration_files` are
/// the integration files that were read, with their texts; the package
/// manager is detected from the manifest's `packageManager` field and the
/// relevant files.
pub fn inspect_project_parts(
    root: &str,
    fingerprint: &str,
    relevant_files: &Vec<String>,
    manifest_text: Option<&str>,
    pnpm_workspace: Option<&str>,
    integration_files: &Vec<(String, String)>,
) -> (r: ProjectInspection)
    ensures
        r.root@ == root@,
        r.fingerprint@ == fingerprint@,
        strs(r.relevant_files@) == strs(relevant_files@),
        detection_of(
            r.package_manager,
            package_manager_field(manifest_json(opt_text(manifest_text))),
            strs(relevant_files@).to_set(),
        ),
        diagnostics_view(r.diagnostics@) == manifest_diagnostics(opt_text(manifest_text)) + diagnostics_view(
            r.package_manager.diagnostics@,
        ),
        sources_view(r.workspace.sources@) == workspace_sources_spec(
            manifest_json(opt_text(manifest_text)),
            opt_text(pnpm_workspace),
        ),
        r.workspace.configured == (r.workspace.sources@.len() > 0),
        r.integrations@.map_values(|i: IntegrationInspection| i@) == integrations_spec(pairs_view(integration_files@)),
        match manifest_json(opt_text(manifest_text)) {
            Some(doc) => r.manifest matches Some(m) && m.path@ == "package.json"@ && opt_string(m.name) == as_str(
                get(doc, "name"@),
            ) && m.private == as_bool(get(doc, "private"@)) && opt_string(m.package_manager) == as_str(
                get(doc, "packageManager"@),
            ),
            None => r.manifest is None,
        },
{
    let manifest = read_manifest(manifest_text);
    let mut diagnostics: Vec<Diagnostic> = Vec::new();
    let doc: Option<&JsonValue> = match &manifest {
        Ok(Some(v)) => Some(v),
        _ => None,
    };
    assert(opt_view(doc) == manifest_json(opt_text(manifest_text)));
    match &manifest {
        Err(e) => {
            let mut rem = chars_of("Fix package.json before retrying inspection: ");
            push_str(&mut rem, e.as_str());
            let mut rems: Vec<String> = Vec::new();
            rems.push(string_of(&rem));
            let d = Diagnostic::blocking(
                "MANIFEST_INVALID",
                "The root package.json could not be parsed as a JSON object.",
                rems,
            );
            assert(d@.evidence =~= no_evidence());
            assert(d@.remediation =~= manifest_invalid(e@).remediation);
            assert(d@ == manifest_invalid(e@));
            diagnostics.push(d);
        },
        Ok(None) => {
            let mut rems: Vec<String> = Vec::new();
            rems.push("Run pkgshift from a JavaScript project root.".to_owned());
            let d = Diagnostic::blocking("MANIFEST_NOT_FOUND", "No root package.json was found.", rems);
            assert(d@.evidence =~= no_evidence());
            assert(d@.remediation =~= manifest_not_found().remediation);
            assert(d@ == manifest_not_found());
            diagnostics.push(d);
        },
        Ok(Some(_)) => {},
    }
    assert(diagnostics_view(diagnostics@) =~= manifest_diagnostics(opt_text(manifest_text)));
    let pm_field: Option<String> = match doc {
        Some(v) => optional_string(get_member(v, "packageManager")),
        None => None,
    };
    let pm_ref: Option<&str> = match &pm_field {
        Some(s) => Some(s.as_str()),
        None => None,
    };
    assert(opt_text(pm_ref) == package_manager_field(manifest_json(opt_text(manifest_text))));
    let package_manager = detect_from_files(pm_ref, relevant_files.as_slice());
    let ghost d0 = diagnostics_view(diagnostics@);
    let mut k: usize = 0;
    while k < package_manager.diagnostics.len()
        invariant
            k <= package_manager.diagnostics.len(),
            diagnostics_view(diagnostics@) == d0 + diagnostics_view(package_manager.diagnostics@).take(k as int),
        decreases package_manager.diagnostics.len() - k,
    {
        let ghost before = diagnostics@;
        diagnostics.push(package_manager.diagnostics[k].duplicate());
        assert(diagnostics_view(diagnostics@) =~= diagnostics_view(before).push(package_manager.diagnostics@[k as int]@));
        assert(diagnostics_view(package_manager.diagnostics@).take(k + 1) =~= diagnostics_view(
            package_manager.diagnostics@,
        ).take(k as int).push(package_manager.diagnostics@[k as int]@));
        k = k + 1;
    }
    assert(diagnostics_view(package_manager.diagnostics@).take(package_manager.diagnostics.len() as int)
        =~= diagnostics_view(package_manager.diagnostics@));
    let workspace = workspace_of(doc, pnpm_workspace);
    let integrations = integrations_of(integration_files);
    let manifest_inspection = match doc {
        Some(v) => Some(
            ManifestInspection {
                path: "package.json".to_owned(),
                name: optional_string(get_member(v, "name")),
                private: bool_value(get_member(v, "private")),
                package_manager: optional_string(get_member(v, "packageManager")),
            },
        ),
        None => None,
    };
    let mut relevant: Vec<String> = Vec::new();
    let mut j: usize = 0;
    while j < relevant_files.len()
        invariant
            j <= relevant_files.len(),
            strs(relevant@) == strs(relevant_files@).take(j as int),
        decreases relevant_files.len() - j,
    {
        let ghost before = relevant@;
        relevant.push(relevant_files[j].as_str().to_owned());
        assert(strs(relevant@) =~= strs(before).push(relevant_files@[j as int]@));
        assert(strs(relevant_files@).take(j + 1) =~= strs(relevant_files@).take(j as int).push(relevant_files@[j as int]@));
        j = j + 1;
    }
    assert(strs(relevant_files@).take(relevant_files.len() as int) =~= strs(relevant_files@));
    ProjectInspection {
        root: root.to_owned(),
        fingerprint: fingerprint.to_owned(),
        relevant_files: relevant,
        manifest: manifest_inspection,
        package_manager,
        workspace,
        integrations,
        diagnostics,
    }
}

} // verus!
