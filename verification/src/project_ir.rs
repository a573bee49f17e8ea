//! The project model built from an inspection: workspace packages with
//! their dependencies and scripts, and the migration-relevant features
//! observed in manifests and configuration.
use vstd::prelude::*;
use crate::digest::{decimal, decimal_exec, frame, frame_list, push_frame, push_frame_list, short_digest, short_digest_spec};
use crate::inspect::{
    dependency_protocol, dependency_protocol_spec, feature_for_protocol, feature_for_protocol_spec,
    package_paths, package_paths_set,
};
use crate::json::{
    as_bool, as_object, as_str, bool_value, get, get_member, json_view, lemma_object_view,
    members_view, object_members, read_json, serde_json_read, string_value, Json, JsonValue,
};
use crate::lock_graph::graph::{opt_frame, push_opt_frame, strings_chars};
use crate::lock_graph::lockfile::opt_text;
use crate::model::{
    diagnostics_view, manager_name, DependencyIr, DependencyProtocol, Diagnostic, DiagnosticView,
    IntegrationInspection, IntegrationView, ObservedFeature, PackageIr, PackageManagerId, ProjectInspection,
    ProjectIr, WorkspaceSource, SCHEMA_VERSION,
};
use crate::sorted::{insert_sorted, lemma_sorted_unique, lists_sorted, sorted_set, sorted_strings, sorted_unique};
use crate::text::{
    chars_eq, chars_lt, chars_of, contains_seq, push_chars, push_str, seq_lt, str_contains, str_eq,
    starts_with, str_starts_with, string_of, strictly_sorted, strs, texts,
};

verus! {

pub struct DepView {
    pub package_path: Seq<char>,
    pub section: Seq<char>,
    pub name: Seq<char>,
    pub specifier: Seq<char>,
    pub protocol: DependencyProtocol,
    pub location: Seq<char>,
}

pub open spec fn dep_view(d: DependencyIr) -> DepView {
    DepView {
        package_path: d.package_path@,
        section: d.section@,
        name: d.name@,
        specifier: d.specifier@,
        protocol: d.protocol,
        location: d.location@,
    }
}

pub open spec fn deps_view(s: Seq<DependencyIr>) -> Seq<DepView> {
    s.map_values(|d: DependencyIr| dep_view(d))
}

pub struct PackageView {
    pub path: Seq<char>,
    pub manifest_path: Seq<char>,
    pub name: Option<Seq<char>>,
    pub version: Option<Seq<char>>,
    pub private: Option<bool>,
    pub dependencies: Seq<DepView>,
    pub scripts: Seq<Seq<char>>,
}

pub open spec fn package_view(p: PackageIr) -> PackageView {
    PackageView {
        path: p.path@,
        manifest_path: p.manifest_path@,
        name: opt_text(p.name),
        version: opt_text(p.version),
        private: p.private,
        dependencies: deps_view(p.dependencies@),
        scripts: strs(p.script_names@),
    }
}

pub open spec fn packages_view(s: Seq<PackageIr>) -> Seq<PackageView> {
    s.map_values(|p: PackageIr| package_view(p))
}

/// The manifest of a package directory.
pub open spec fn manifest_path_for(package_path: Seq<char>) -> Seq<char> {
    if package_path == "."@ {
        "package.json"@
    } else {
        package_path + "/package.json"@
    }
}

/// `path#/section/name`.
pub open spec fn dep_location(manifest_path: Seq<char>, section: Seq<char>, name: Seq<char>) -> Seq<char> {
    manifest_path + "#/"@ + section + "/"@ + name
}

/// The dependencies one section of a manifest declares with a string
/// specifier, in member order.
pub open spec fn section_deps(
    es: Seq<(Seq<char>, Json)>,
    section: Seq<char>,
    package_path: Seq<char>,
    manifest_path: Seq<char>,
) -> Seq<DepView>
    decreases es.len(),
{
    if es.len() == 0 {
        seq![]
    } else {
        section_deps(es.drop_last(), section, package_path, manifest_path) + match es.last().1 {
            Json::Str(spec) => seq![
                DepView {
                    package_path,
                    section,
                    name: es.last().0,
                    specifier: spec,
                    protocol: dependency_protocol_spec(spec),
                    location: dep_location(manifest_path, section, es.last().0),
                },
            ],
            _ => seq![],
        }
    }
}

pub open spec fn section_deps_of(doc: Json, section: Seq<char>, package_path: Seq<char>, manifest_path: Seq<char>) -> Seq<DepView> {
    match as_object(get(doc, section)) {
        Some(es) => section_deps(es, section, package_path, manifest_path),
        None => seq![],
    }
}

/// The dependencies of all four sections, in section then member order.
pub open spec fn manifest_deps(doc: Json, package_path: Seq<char>, manifest_path: Seq<char>) -> Seq<DepView> {
    section_deps_of(doc, "dependencies"@, package_path, manifest_path) + section_deps_of(
        doc,
        "devDependencies"@,
        package_path,
        manifest_path,
    ) + section_deps_of(doc, "optionalDependencies"@, package_path, manifest_path) + section_deps_of(
        doc,
        "peerDependencies"@,
        package_path,
        manifest_path,
    )
}

/// Dependency order: by section, then name.
pub open spec fn dep_lt(a: DepView, b: DepView) -> bool {
    seq_lt(a.section, b.section) || (a.section == b.section && seq_lt(a.name, b.name))
}

pub open spec fn insert_dep(s: Seq<DepView>, e: DepView) -> Seq<DepView>
    decreases s.len(),
{
    if s.len() == 0 {
        seq![e]
    } else if !dep_lt(e, s.last()) {
        s.push(e)
    } else {
        insert_dep(s.drop_last(), e).push(s.last())
    }
}

/// The dependencies ordered by section and name, equal keys keeping their
/// order.
pub open spec fn sort_deps(s: Seq<DepView>) -> Seq<DepView>
    decreases s.len(),
{
    if s.len() == 0 {
        seq![]
    } else {
        insert_dep(sort_deps(s.drop_last()), s.last())
    }
}

pub open spec fn insert_text(s: Seq<Seq<char>>, e: Seq<char>) -> Seq<Seq<char>>
    decreases s.len(),
{
    if s.len() == 0 {
        seq![e]
    } else if !seq_lt(e, s.last()) {
        s.push(e)
    } else {
        insert_text(s.drop_last(), e).push(s.last())
    }
}

/// The texts in increasing order (a stable sort).
pub open spec fn sort_texts(s: Seq<Seq<char>>) -> Seq<Seq<char>>
    decreases s.len(),
{
    if s.len() == 0 {
        seq![]
    } else {
        insert_text(sort_texts(s.drop_last()), s.last())
    }
}

pub open spec fn member_keys(ms: Seq<(Seq<char>, Json)>) -> Seq<Seq<char>> {
    ms.map_values(|m: (Seq<char>, Json)| m.0)
}

/// The package a manifest document describes.
pub open spec fn package_spec(doc: Json, package_path: Seq<char>, manifest_path: Seq<char>) -> PackageView {
    PackageView {
        path: package_path,
        manifest_path,
        name: as_str(get(doc, "name"@)),
        version: as_str(get(doc, "version"@)),
        private: as_bool(get(doc, "private"@)),
        dependencies: sort_deps(manifest_deps(doc, package_path, manifest_path)),
        scripts: match as_object(get(doc, "scripts"@)) {
            Some(ms) => sort_texts(member_keys(ms)),
            None => seq![],
        },
    }
}

/// The policy keys of a manifest, each with the feature it shows.
pub open spec fn policy_table() -> Seq<(Seq<char>, Seq<char>)> {
    seq![
        ("overrides"@, "resolution.overrides"@),
        ("resolutions"@, "resolution.resolutions"@),
        ("packageExtensions"@, "resolution.package-extensions"@),
        ("patchedDependencies"@, "patch.patched-dependencies"@),
        ("catalog"@, "policy.catalogs"@),
        ("catalogs"@, "policy.catalogs"@),
        ("trustedDependencies"@, "lifecycle.trusted-dependencies"@),
    ]
}

/// The policy keys from `k` on that a manifest sets to something other
/// than `null`, each with the feature it shows.
pub open spec fn policy_features_from(doc: Json, manifest_path: Seq<char>, k: int) -> Set<(Seq<char>, Seq<char>)>
    decreases 7 - k,
{
    if k < 0 || k >= 7 {
        Set::empty()
    } else {
        let key = policy_table()[k].0;
        let here = match get(doc, key) {
            Some(v) => if v != Json::Null {
                set![(policy_table()[k].1, manifest_path + "#/"@ + key)]
            } else {
                Set::empty()
            },
            None => Set::empty(),
        };
        here.union(policy_features_from(doc, manifest_path, k + 1))
    }
}

proof fn lemma_policy_feature_from(doc: Json, manifest_path: Seq<char>, j: int, k: int)
    requires
        0 <= j <= k < 7,
        get(doc, policy_table()[k].0) matches Some(v) && v != Json::Null,
    ensures
        policy_features_from(doc, manifest_path, j).contains(
            (policy_table()[k].1, manifest_path + "#/"@ + policy_table()[k].0),
        ),
    decreases k - j,
{
    if j < k {
        lemma_policy_feature_from(doc, manifest_path, j + 1, k);
    }
}

/// Each manifest policy key that is set to something other than `null`
/// shows its feature at the key's location: `overrides`, `resolutions`,
/// `packageExtensions`, `patchedDependencies`, `catalog` and `catalogs`, and
/// `trustedDependencies`.
pub proof fn law_policy_keys_observed(
    doc: Json,
    manifest_path: Seq<char>,
    deps: Seq<DepView>,
    key: Seq<char>,
    feature: Seq<char>,
)
    requires
        (key, feature) == ("overrides"@, "resolution.overrides"@) || (key, feature) == (
            "resolutions"@,
            "resolution.resolutions"@,
        ) || (key, feature) == ("packageExtensions"@, "resolution.package-extensions"@) || (key, feature) == (
            "patchedDependencies"@,
            "patch.patched-dependencies"@,
        ) || (key, feature) == ("catalog"@, "policy.catalogs"@) || (key, feature) == ("catalogs"@, "policy.catalogs"@)
            || (key, feature) == ("trustedDependencies"@, "lifecycle.trusted-dependencies"@),
        get(doc, key) matches Some(v) && v != Json::Null,
    ensures
        manifest_features(doc, manifest_path, deps).contains((feature, manifest_path + "#/"@ + key)),
{
    let t = policy_table();
    let k: int = if (key, feature) == t[0] {
        0
    } else if (key, feature) == t[1] {
        1
    } else if (key, feature) == t[2] {
        2
    } else if (key, feature) == t[3] {
        3
    } else if (key, feature) == t[4] {
        4
    } else if (key, feature) == t[5] {
        5
    } else {
        6
    };
    assert(t[k] == (key, feature));
    lemma_policy_feature_from(doc, manifest_path, 0, k);
}

/// Overrides nested below a package: an object member of `overrides`.
pub open spec fn nested_overrides(doc: Json) -> bool {
    match get(doc, "overrides"@) {
        Some(Json::Object(os)) => exists|i: int| 0 <= i < os.len() && (#[trigger] os[i]).1 is Object,
        _ => false,
    }
}

/// The features the dependencies' protocols show.
pub open spec fn dep_features(deps: Seq<DepView>) -> Set<(Seq<char>, Seq<char>)>
    decreases deps.len(),
{
    if deps.len() == 0 {
        Set::empty()
    } else {
        dep_features(deps.drop_last()).union(
            match feature_for_protocol_spec(deps.last().protocol) {
                Some(f) => set![(f, deps.last().location)],
                None => Set::empty(),
            },
        )
    }
}

/// The features a manifest shows: each policy key with a non-null value,
/// overrides that nest, and each dependency whose protocol is a feature.
pub open spec fn manifest_features(doc: Json, manifest_path: Seq<char>, deps: Seq<DepView>) -> Set<(Seq<char>, Seq<char>)> {
    policy_features_from(doc, manifest_path, 0).union(
        if nested_overrides(doc) {
            set![("resolution.nested-overrides"@, manifest_path + "#/overrides"@)]
        } else {
            Set::empty()
        },
    ).union(dep_features(deps))
}

/// Features shown by configuration files at the root.
pub open spec fn config_features(
    npmrc: Option<Seq<char>>,
    yarnrc: Option<Seq<char>>,
    pnpmfile: bool,
    yarn_config: bool,
) -> Set<(Seq<char>, Seq<char>)> {
    Set::new(
        |f: (Seq<char>, Seq<char>)|
            (npmrc is Some && f == ("registry.npmrc"@, ".npmrc"@)) || (match npmrc {
                Some(t) => contains_seq(t, "node-linker=isolated"@),
                None => false,
            } && f == ("install.isolated-linker"@, ".npmrc"@)) || (match yarnrc {
                Some(t) => contains_seq(t, "nodeLinker: pnp"@),
                None => false,
            } && f == ("install.pnp-linker"@, ".yarnrc.yml"@)) || (pnpmfile && f == ("hook.pnpmfile"@, ".pnpmfile.cjs"@))
                || (yarn_config && f == ("policy.yarn-constraints"@, "yarn.config.cjs"@)),
    )
}

/// Features of the workspace configuration.
pub open spec fn workspace_features(configured: bool, patterns: Seq<Seq<char>>) -> Set<(Seq<char>, Seq<char>)> {
    Set::new(
        |f: (Seq<char>, Seq<char>)|
            (configured && f == ("workspace.manifest"@, "package.json#/workspaces"@)) || ((exists|i: int|
                0 <= i < patterns.len() && starts_with(#[trigger] patterns[i], "!"@)) && f == (
                "workspace.negative-patterns"@,
                "workspace configuration"@,
            )),
    )
}

/// The text of the manifest at `path` among the files read, if it was.
pub open spec fn manifest_text(manifests: Seq<(Seq<char>, Seq<char>)>, path: Seq<char>) -> Option<Seq<char>>
    decreases manifests.len(),
{
    if manifests.len() == 0 {
        None
    } else if manifests[0].0 == path {
        Some(manifests[0].1)
    } else {
        manifest_text(manifests.drop_first(), path)
    }
}

/// One package directory added to the packages and features so far: the
/// package its manifest describes, or nothing without a manifest, or why the
/// manifest could not be read.
pub open spec fn package_step(
    package_path: Seq<char>,
    manifests: Seq<(Seq<char>, Seq<char>)>,
    pkgs: Seq<PackageView>,
    feats: Set<(Seq<char>, Seq<char>)>,
) -> Result<(Seq<PackageView>, Set<(Seq<char>, Seq<char>)>), Seq<char>> {
    let mp = manifest_path_for(package_path);
    match manifest_text(manifests, mp) {
        None => Ok((pkgs, feats)),
        Some(text) => match serde_json_read(text) {
            Err(e) => Err(mp + ": "@ + e),
            Ok(doc) => match doc {
                Json::Object(_) => Ok(
                    (
                        pkgs.push(package_spec(doc, package_path, mp)),
                        feats.union(manifest_features(doc, mp, manifest_deps(doc, package_path, mp))),
                    ),
                ),
                _ => Err(mp + ": expected a JSON object"@),
            },
        },
    }
}

/// The packages of the package directories in order, with the features
/// their manifests show, or why a manifest could not be read; a directory
/// without a manifest is left out.
pub open spec fn project_packages(
    paths: Seq<Seq<char>>,
    manifests: Seq<(Seq<char>, Seq<char>)>,
) -> Result<(Seq<PackageView>, Set<(Seq<char>, Seq<char>)>), Seq<char>>
    decreases paths.len(),
{
    if paths.len() == 0 {
        Ok((seq![], Set::empty()))
    } else {
        match project_packages(paths.drop_last(), manifests) {
            Err(e) => Err(e),
            Ok((pkgs, feats)) => package_step(paths.last(), manifests, pkgs, feats),
        }
    }
}

/// What one workspace source lists, all sources in order.
pub open spec fn source_patterns(sources: Seq<WorkspaceSource>) -> Seq<Seq<char>>
    decreases sources.len(),
{
    if sources.len() == 0 {
        seq![]
    } else {
        source_patterns(sources.drop_last()) + strs(sources.last().patterns@)
    }
}

/// The feature ids among the (id, location) pairs.
pub open spec fn feature_ids(pairs: Set<(Seq<char>, Seq<char>)>) -> Set<Seq<char>> {
    Set::new(|id: Seq<char>| exists|l: Seq<char>| pairs.contains((id, l)))
}

/// The locations at which one feature was observed.
pub open spec fn feature_locations(pairs: Set<(Seq<char>, Seq<char>)>, id: Seq<char>) -> Set<Seq<char>> {
    Set::new(|l: Seq<char>| pairs.contains((id, l)))
}

pub struct FeatureView {
    pub id: Seq<char>,
    pub count: nat,
    pub locations: Seq<Seq<char>>,
}

pub open spec fn feature_view(f: ObservedFeature) -> FeatureView {
    FeatureView { id: f.id@, count: f.count as nat, locations: strs(f.locations@) }
}

pub open spec fn features_view(s: Seq<ObservedFeature>) -> Seq<FeatureView> {
    s.map_values(|f: ObservedFeature| feature_view(f))
}

/// One feature: its locations in increasing order, each once, and their
/// number.
pub open spec fn observed_feature(pairs: Set<(Seq<char>, Seq<char>)>, id: Seq<char>) -> FeatureView {
    FeatureView {
        id,
        count: sorted_set(feature_locations(pairs, id)).len(),
        locations: sorted_set(feature_locations(pairs, id)),
    }
}

/// The features observed, by increasing id.
pub open spec fn observed_features(pairs: Set<(Seq<char>, Seq<char>)>) -> Seq<FeatureView> {
    sorted_set(feature_ids(pairs)).map_values(|id: Seq<char>| observed_feature(pairs, id))
}

/// The texts one after the other.
pub open spec fn concat_texts(s: Seq<Seq<char>>) -> Seq<char>
    decreases s.len(),
{
    if s.len() == 0 {
        seq![]
    } else {
        concat_texts(s.drop_last()) + s.last()
    }
}

/// The number of texts, then the texts.
pub open spec fn counted(s: Seq<Seq<char>>) -> Seq<char> {
    decimal(s.len()) + ":"@ + concat_texts(s)
}

pub open spec fn opt_bool_text(b: Option<bool>) -> Seq<char> {
    match b {
        None => "-"@,
        Some(true) => "+true"@,
        Some(false) => "+false"@,
    }
}

/// The canonical text of a dependency (its protocol follows from its
/// specifier).
pub open spec fn dep_text(d: DepView) -> Seq<char> {
    frame(d.package_path) + frame(d.section) + frame(d.name) + frame(d.specifier) + frame(d.location)
}

pub open spec fn dep_texts(ds: Seq<DepView>) -> Seq<Seq<char>> {
    ds.map_values(|d: DepView| dep_text(d))
}

/// The canonical text of a package.
pub open spec fn package_text(p: PackageView) -> Seq<char> {
    frame(p.path) + frame(p.manifest_path) + opt_frame(p.name) + opt_frame(p.version) + opt_bool_text(p.private)
        + counted(dep_texts(p.dependencies)) + frame_list(p.scripts)
}

pub open spec fn package_texts(ps: Seq<PackageView>) -> Seq<Seq<char>> {
    ps.map_values(|p: PackageView| package_text(p))
}

pub open spec fn feature_text(f: FeatureView) -> Seq<char> {
    frame(f.id) + frame_list(f.locations)
}

pub open spec fn feature_texts(fs: Seq<FeatureView>) -> Seq<Seq<char>> {
    fs.map_values(|f: FeatureView| feature_text(f))
}

/// The text the project model's identifier digests.
pub open spec fn identity_text(
    fingerprint: Seq<char>,
    source: PackageManagerId,
    packages: Seq<PackageView>,
    patterns: Seq<Seq<char>>,
    features: Seq<FeatureView>,
) -> Seq<char> {
    frame(fingerprint) + frame(manager_name(source)) + counted(package_texts(packages)) + frame_list(patterns)
        + counted(feature_texts(features))
}

pub struct ProjectIrView {
    pub schema_version: Seq<char>,
    pub project_ir_id: Seq<char>,
    pub repository_fingerprint: Seq<char>,
    pub source: Option<PackageManagerId>,
    pub root_package_path: Seq<char>,
    pub packages: Seq<PackageView>,
    pub workspace_patterns: Seq<Seq<char>>,
    pub features: Seq<FeatureView>,
    pub integrations: Seq<IntegrationView>,
    pub diagnostics: Seq<DiagnosticView>,
}

pub open spec fn project_ir_view(ir: ProjectIr) -> ProjectIrView {
    ProjectIrView {
        schema_version: ir.schema_version@,
        project_ir_id: ir.project_ir_id@,
        repository_fingerprint: ir.repository_fingerprint@,
        source: ir.source,
        root_package_path: ir.root_package_path@,
        packages: packages_view(ir.packages@),
        workspace_patterns: strs(ir.workspace_patterns@),
        features: features_view(ir.features@),
        integrations: ir.integrations@.map_values(|i: IntegrationInspection| i@),
        diagnostics: diagnostics_view(ir.diagnostics@),
    }
}

pub open spec fn manifests_view(m: Seq<(String, String)>) -> Seq<(Seq<char>, Seq<char>)> {
    m.map_values(|e: (String, String)| (e.0@, e.1@))
}

/// The project model of an inspection, given the files of the project, the
/// manifests read (path and text), the text of `.npmrc` if there is one,
/// that of `.yarnrc.yml` if there is one, and whether `.pnpmfile.cjs` and
/// `yarn.config.cjs` exist. None without a selected package manager or a
/// root manifest; an error where a package manifest cannot be read as a
/// JSON object.
pub open spec fn project_ir_spec(
    inspection: ProjectInspection,
    files: Seq<Seq<char>>,
    manifests: Seq<(Seq<char>, Seq<char>)>,
    npmrc: Option<Seq<char>>,
    yarnrc: Option<Seq<char>>,
    pnpmfile: bool,
    yarn_config: bool,
) -> Result<Option<ProjectIrView>, Seq<char>> {
    match inspection.package_manager.selected {
        None => Ok(None),
        Some(source) => if inspection.manifest is None {
            Ok(None)
        } else {
            let patterns = source_patterns(inspection.workspace.sources@);
            let paths = sorted_set(package_paths_set(patterns, files));
            match project_packages(paths, manifests) {
                Err(e) => Err(e),
                Ok((packages, manifest_feats)) => {
                    let all = workspace_features(inspection.workspace.configured, patterns).union(
                        manifest_feats,
                    ).union(config_features(npmrc, yarnrc, pnpmfile, yarn_config));
                    let features = observed_features(all);
                    let wp = sorted_set(patterns.to_set());
                    Ok(
                        Some(
                            ProjectIrView {
                                schema_version: SCHEMA_VERSION@,
                                project_ir_id: short_digest_spec(
                                    "ir_"@,
                                    identity_text(inspection.fingerprint@, source, packages, wp, features),
                                ),
                                repository_fingerprint: inspection.fingerprint@,
                                source: Some(source),
                                root_package_path: "."@,
                                packages,
                                workspace_patterns: wp,
                                features,
                                integrations: inspection.integrations@.map_values(
                                    |i: IntegrationInspection| i@,
                                ),
                                diagnostics: diagnostics_view(inspection.diagnostics@),
                            },
                        ),
                    )
                },
            }
        },
    }
}

/// The pairs held, as a set of texts.
pub open spec fn pairs_set(v: Seq<(Vec<char>, Vec<char>)>) -> Set<(Seq<char>, Seq<char>)> {
    v.map_values(|p: (Vec<char>, Vec<char>)| (p.0@, p.1@)).to_set()
}

proof fn lemma_pairs_push(v: Seq<(Vec<char>, Vec<char>)>, p: (Vec<char>, Vec<char>))
    ensures
        pairs_set(v.push(p)) == pairs_set(v).insert((p.0@, p.1@)),
{
    assert(v.push(p).map_values(|q: (Vec<char>, Vec<char>)| (q.0@, q.1@)) =~= v.map_values(
        |q: (Vec<char>, Vec<char>)| (q.0@, q.1@),
    ).push((p.0@, p.1@)));
    v.map_values(|q: (Vec<char>, Vec<char>)| (q.0@, q.1@)).lemma_push_to_set_commute((p.0@, p.1@));
}

fn push_pair(v: &mut Vec<(Vec<char>, Vec<char>)>, a: &str, b: &[char])
    ensures
        pairs_set(final(v)@) == pairs_set(old(v)@).insert((a@, b@)),
{
    let p = (chars_of(a), slice_of_all(b));
    let ghost before = v@;
    v.push(p);
    proof {
        lemma_pairs_push(before, p);
    }
}

fn slice_of_all(b: &[char]) -> (r: Vec<char>)
    ensures
        r@ == b@,
{
    let r = crate::text::slice_of(b, 0, b.len());
    assert(b@.subrange(0, b@.len() as int) =~= b@);
    r
}

fn location_of(mp: &str, section: &str, name: &str) -> (r: Vec<char>)
    ensures
        r@ == dep_location(mp@, section@, name@),
{
    let mut l = chars_of(mp);
    push_str(&mut l, "#/");
    push_str(&mut l, section);
    push_str(&mut l, "/");
    push_str(&mut l, name);
    l
}

fn push_section_deps(out: &mut Vec<DependencyIr>, doc: &JsonValue, section: &str, pp: &str, mp: &str)
    ensures
        deps_view(final(out)@) == deps_view(old(out)@) + section_deps_of(json_view(*doc), section@, pp@, mp@),
{
    let ghost base = deps_view(out@);
    match object_members(get_member(doc, section)) {
        None => {
            assert(deps_view(out@) =~= base + Seq::<DepView>::empty());
        },
        Some(es) => {
            let ghost ev = members_view(es@);
            let mut k: usize = 0;
            while k < es.len()
                invariant
                    k <= es.len(),
                    ev == members_view(es@),
                    deps_view(out@) == base + section_deps(ev.take(k as int), section@, pp@, mp@),
                decreases es.len() - k,
            {
                assert(ev.take(k + 1).drop_last() =~= ev.take(k as int));
                assert(ev.take(k + 1).last() == ev[k as int]);
                let ghost before = out@;
                match &es[k].1 {
                    JsonValue::Str(spec) => {
                        let d = DependencyIr {
                            package_path: pp.to_owned(),
                            section: section.to_owned(),
                            name: es[k].0.as_str().to_owned(),
                            specifier: spec.as_str().to_owned(),
                            protocol: dependency_protocol(spec.as_str()),
                            location: string_of(&location_of(mp, section, es[k].0.as_str())),
                        };
                        out.push(d);
                        assert(deps_view(out@) =~= deps_view(before).push(dep_view(d)));
                    },
                    _ => {},
                }
                assert(deps_view(out@) =~= base + section_deps(ev.take(k + 1), section@, pp@, mp@));
                k = k + 1;
            }
            assert(ev.take(es.len() as int) =~= ev);
        },
    }
}

proof fn lemma_insert_dep(s: Seq<DepView>, e: DepView, j: int)
    requires
        0 <= j <= s.len(),
        forall|k: int| j <= k < s.len() ==> dep_lt(e, #[trigger] s[k]),
        j == 0 || !dep_lt(e, s[j - 1]),
    ensures
        insert_dep(s, e) == s.insert(j, e),
    decreases s.len(),
{
    if s.len() == 0 {
        assert(s.insert(j, e) =~= seq![e]);
    } else if !dep_lt(e, s.last()) {
        assert(j == s.len());
        assert(s.insert(j, e) =~= s.push(e));
    } else {
        lemma_insert_dep(s.drop_last(), e, j);
        assert(s.drop_last().insert(j, e).push(s.last()) =~= s.insert(j, e));
    }
}

fn dep_lt_exec(a: &DependencyIr, b: &DependencyIr) -> (r: bool)
    ensures
        r == dep_lt(dep_view(*a), dep_view(*b)),
{
    let asec = chars_of(a.section.as_str());
    let bsec = chars_of(b.section.as_str());
    let an = chars_of(a.name.as_str());
    let bn = chars_of(b.name.as_str());
    chars_lt(&asec, &bsec) || (chars_eq(&asec, &bsec) && chars_lt(&an, &bn))
}

fn sorted_deps(deps: Vec<DependencyIr>) -> (r: Vec<DependencyIr>)
    ensures
        deps_view(r@) == sort_deps(deps_view(deps@)),
{
    let ghost all = deps_view(deps@);
    let total = deps.len();
    let mut rest = deps;
    let mut out: Vec<DependencyIr> = Vec::new();
    let mut k: usize = 0;
    while k < total
        invariant
            k <= total == all.len(),
            rest@.len() == total - k,
            deps_view(rest@) == all.skip(k as int),
            deps_view(out@) == sort_deps(all.take(k as int)),
        decreases total - k,
    {
        let ghost rv = rest@;
        let e = rest.remove(0);
        assert forall|j: int| 0 <= j < rest@.len() implies dep_view(#[trigger] rest@[j]) == all.skip(k + 1)[j] by {
            assert(rest@[j] == rv[j + 1]);
            assert(all.skip(k + 1)[j] == all.skip(k as int)[j + 1]);
        }
        assert(deps_view(rest@) =~= all.skip(k + 1));
        assert(dep_view(e) == all[k as int]) by {
            assert(deps_view(rv)[0] == all.skip(k as int)[0]);
        }
        assert(all.take(k + 1).drop_last() =~= all.take(k as int));
        let ghost cur = deps_view(out@);
        let mut q = out.len();
        while q > 0 && dep_lt_exec(&e, &out[q - 1])
            invariant
                q <= out.len(),
                cur == deps_view(out@),
                forall|i: int| q <= i < cur.len() ==> dep_lt(dep_view(e), #[trigger] cur[i]),
            decreases q,
        {
            q = q - 1;
        }
        proof {
            lemma_insert_dep(cur, dep_view(e), q as int);
        }
        out.insert(q, e);
        assert(deps_view(out@) =~= cur.insert(q as int, dep_view(e)));
        k = k + 1;
    }
    assert(all.take(total as int) =~= all);
    out
}

proof fn lemma_insert_text(s: Seq<Seq<char>>, e: Seq<char>, j: int)
    requires
        0 <= j <= s.len(),
        forall|k: int| j <= k < s.len() ==> seq_lt(e, #[trigger] s[k]),
        j == 0 || !seq_lt(e, s[j - 1]),
    ensures
        insert_text(s, e) == s.insert(j, e),
    decreases s.len(),
{
    if s.len() == 0 {
        assert(s.insert(j, e) =~= seq![e]);
    } else if !seq_lt(e, s.last()) {
        assert(j == s.len());
        assert(s.insert(j, e) =~= s.push(e));
    } else {
        lemma_insert_text(s.drop_last(), e, j);
        assert(s.drop_last().insert(j, e).push(s.last()) =~= s.insert(j, e));
    }
}

/// The member keys of an object, in increasing order.
fn sorted_keys(es: &Vec<(String, JsonValue)>) -> (r: Vec<String>)
    ensures
        strs(r@) == sort_texts(member_keys(members_view(es@))),
{
    let ghost all = member_keys(members_view(es@));
    let mut out: Vec<Vec<char>> = Vec::new();
    let mut k: usize = 0;
    while k < es.len()
        invariant
            k <= es.len(),
            all == member_keys(members_view(es@)),
            texts(out@) == sort_texts(all.take(k as int)),
        decreases es.len() - k,
    {
        let e = chars_of(es[k].0.as_str());
        assert(all[k as int] == e@);
        assert(all.take(k + 1).drop_last() =~= all.take(k as int));
        let ghost cur = texts(out@);
        let mut q = out.len();
        while q > 0 && chars_lt(&e, &out[q - 1])
            invariant
                q <= out.len(),
                cur == texts(out@),
                forall|i: int| q <= i < cur.len() ==> seq_lt(e@, #[trigger] cur[i]),
            decreases q,
        {
            q = q - 1;
        }
        proof {
            lemma_insert_text(cur, e@, q as int);
        }
        out.insert(q, e);
        assert(texts(out@) =~= cur.insert(q as int, e@));
        k = k + 1;
    }
    assert(all.take(es.len() as int) =~= all);
    crate::text::strings_of(&out)
}

fn policy_entry(k: usize) -> (r: (&'static str, &'static str))
    requires
        k < 7,
    ensures
        (r.0@, r.1@) == policy_table()[k as int],
{
    match k {
        0 => ("overrides", "resolution.overrides"),
        1 => ("resolutions", "resolution.resolutions"),
        2 => ("packageExtensions", "resolution.package-extensions"),
        3 => ("patchedDependencies", "patch.patched-dependencies"),
        4 => ("catalog", "policy.catalogs"),
        5 => ("catalogs", "policy.catalogs"),
        _ => ("trustedDependencies", "lifecycle.trusted-dependencies"),
    }
}

fn push_policy_features(pairs: &mut Vec<(Vec<char>, Vec<char>)>, doc: &JsonValue, mp: &str)
    ensures
        pairs_set(final(pairs)@) == pairs_set(old(pairs)@).union(policy_features_from(json_view(*doc), mp@, 0)),
{
    let ghost base = pairs_set(pairs@);
    let ghost d = json_view(*doc);
    let mut k: usize = 0;
    while k < 7
        invariant
            k <= 7,
            d == json_view(*doc),
            base.union(policy_features_from(d, mp@, 0)) == pairs_set(pairs@).union(
                policy_features_from(d, mp@, k as int),
            ),
        decreases 7 - k,
    {
        let (key, feature) = policy_entry(k);
        let ghost before = pairs_set(pairs@);
        match get_member(doc, key) {
            Some(v) => {
                let is_null = match v {
                    JsonValue::Null => true,
                    _ => false,
                };
                if !is_null {
                    let mut loc = chars_of(mp);
                    push_str(&mut loc, "#/");
                    push_str(&mut loc, key);
                    push_pair(pairs, feature, &loc);
                }
            },
            None => {},
        }
        assert(before.union(policy_features_from(d, mp@, k as int)) =~= pairs_set(pairs@).union(
            policy_features_from(d, mp@, k + 1),
        ));
        k = k + 1;
    }
    assert(policy_features_from(d, mp@, 7) =~= Set::<(Seq<char>, Seq<char>)>::empty());
    assert(pairs_set(pairs@).union(Set::empty()) =~= pairs_set(pairs@));
}

fn has_nested_overrides(doc: &JsonValue) -> (r: bool)
    ensures
        r == nested_overrides(json_view(*doc)),
{
    match object_members(get_member(doc, "overrides")) {
        None => false,
        Some(os) => {
            let ghost ov = members_view(os@);
            assert(get(json_view(*doc), "overrides"@) == Some(Json::Object(ov)));
            let mut i: usize = 0;
            while i < os.len()
                invariant
                    i <= os.len(),
                    ov == members_view(os@),
                    get(json_view(*doc), "overrides"@) == Some(Json::Object(ov)),
                    forall|j: int| 0 <= j < i ==> !((#[trigger] ov[j]).1 is Object),
                decreases os.len() - i,
            {
                let obj = match &os[i].1 {
                    JsonValue::Object(_) => true,
                    _ => false,
                };
                assert(ov[i as int].1 == json_view(os@[i as int].1));
                if obj {
                    assert(ov[i as int].1 is Object);
                    return true;
                }
                i = i + 1;
            }
            false
        },
    }
}

fn push_dep_features(pairs: &mut Vec<(Vec<char>, Vec<char>)>, deps: &Vec<DependencyIr>)
    ensures
        pairs_set(final(pairs)@) == pairs_set(old(pairs)@).union(dep_features(deps_view(deps@))),
{
    let ghost base = pairs_set(pairs@);
    let ghost dv = deps_view(deps@);
    let mut k: usize = 0;
    while k < deps.len()
        invariant
            k <= deps.len(),
            dv == deps_view(deps@),
            pairs_set(pairs@) == base.union(dep_features(dv.take(k as int))),
        decreases deps.len() - k,
    {
        assert(dv.take(k + 1).drop_last() =~= dv.take(k as int));
        assert(dv.take(k + 1).last() == dep_view(deps@[k as int]));
        match feature_for_protocol(deps[k].protocol) {
            Some(f) => {
                let loc = chars_of(deps[k].location.as_str());
                push_pair(pairs, f, &loc);
            },
            None => {},
        }
        assert(pairs_set(pairs@) =~= base.union(dep_features(dv.take(k + 1))));
        k = k + 1;
    }
    assert(dv.take(deps.len() as int) =~= dv);
}

/// The package a manifest document (an object) describes, with the features
/// it shows added to `pairs`.
fn package_from_manifest(
    doc: &JsonValue,
    pp: &str,
    mp: &str,
    pairs: &mut Vec<(Vec<char>, Vec<char>)>,
) -> (r: PackageIr)
    ensures
        package_view(r) == package_spec(json_view(*doc), pp@, mp@),
        pairs_set(final(pairs)@) == pairs_set(old(pairs)@).union(
            manifest_features(json_view(*doc), mp@, manifest_deps(json_view(*doc), pp@, mp@)),
        ),
{
    let ghost d = json_view(*doc);
    let mut deps: Vec<DependencyIr> = Vec::new();
    push_section_deps(&mut deps, doc, "dependencies", pp, mp);
    push_section_deps(&mut deps, doc, "devDependencies", pp, mp);
    push_section_deps(&mut deps, doc, "optionalDependencies", pp, mp);
    push_section_deps(&mut deps, doc, "peerDependencies", pp, mp);
    assert(deps_view(deps@) =~= manifest_deps(d, pp@, mp@));
    let ghost base = pairs_set(pairs@);
    push_policy_features(pairs, doc, mp);
    let ghost after_policy = pairs_set(pairs@);
    if has_nested_overrides(doc) {
        let mut loc = chars_of(mp);
        push_str(&mut loc, "#/overrides");
        push_pair(pairs, "resolution.nested-overrides", &loc);
    }
    push_dep_features(pairs, &deps);
    assert(pairs_set(pairs@) =~= base.union(manifest_features(d, mp@, manifest_deps(d, pp@, mp@))));
    let sorted = sorted_deps(deps);
    let scripts = match object_members(get_member(doc, "scripts")) {
        Some(es) => sorted_keys(es),
        None => {
            let v: Vec<String> = Vec::new();
            assert(strs(v@) =~= Seq::<Seq<char>>::empty());
            v
        },
    };
    let name = match string_value(get_member(doc, "name")) {
        Some(n) => Some(n.as_str().to_owned()),
        None => None,
    };
    let version = match string_value(get_member(doc, "version")) {
        Some(v) => Some(v.as_str().to_owned()),
        None => None,
    };
    PackageIr {
        path: pp.to_owned(),
        manifest_path: mp.to_owned(),
        name,
        version,
        private: bool_value(get_member(doc, "private")),
        dependencies: sorted,
        script_names: scripts,
    }
}

proof fn lemma_feature_ids_insert(s: Set<(Seq<char>, Seq<char>)>, a: Seq<char>, b: Seq<char>)
    ensures
        feature_ids(s.insert((a, b))) == feature_ids(s).insert(a),
{
    assert forall|id: Seq<char>| feature_ids(s.insert((a, b))).contains(id) <==> feature_ids(s).insert(a).contains(id) by {
        if feature_ids(s.insert((a, b))).contains(id) {
            let l = choose|l: Seq<char>| s.insert((a, b)).contains((id, l));
            if id != a {
                assert(s.contains((id, l)));
            }
        }
        if feature_ids(s).contains(id) {
            let l = choose|l: Seq<char>| s.contains((id, l));
            assert(s.insert((a, b)).contains((id, l)));
        }
        if id == a {
            assert(s.insert((a, b)).contains((a, b)));
        }
    }
    assert(feature_ids(s.insert((a, b))) =~= feature_ids(s).insert(a));
}

proof fn lemma_feature_locations_insert(s: Set<(Seq<char>, Seq<char>)>, a: Seq<char>, b: Seq<char>, id: Seq<char>)
    ensures
        feature_locations(s.insert((a, b)), id) == (if a == id {
            feature_locations(s, id).insert(b)
        } else {
            feature_locations(s, id)
        }),
{
    if a == id {
        assert(feature_locations(s.insert((a, b)), id) =~= feature_locations(s, id).insert(b));
    } else {
        assert(feature_locations(s.insert((a, b)), id) =~= feature_locations(s, id));
    }
}

proof fn lemma_pairs_take_step(v: Seq<(Vec<char>, Vec<char>)>, i: int)
    requires
        0 <= i < v.len(),
    ensures
        pairs_set(v.take(i + 1)) == pairs_set(v.take(i)).insert((v[i].0@, v[i].1@)),
{
    assert(v.take(i + 1) =~= v.take(i).push(v[i]));
    lemma_pairs_push(v.take(i), v[i]);
}

/// The locations of feature `id` among the pairs, increasing and each once.
fn locations_of(pairs: &Vec<(Vec<char>, Vec<char>)>, id: &[char]) -> (r: Vec<Vec<char>>)
    ensures
        lists_sorted(texts(r@), feature_locations(pairs_set(pairs@), id@)),
{
    let mut r: Vec<Vec<char>> = Vec::new();
    let mut i: usize = 0;
    assert(pairs@.take(0) =~= Seq::<(Vec<char>, Vec<char>)>::empty());
    assert(feature_locations(pairs_set(pairs@.take(0)), id@) =~= Set::empty());
    while i < pairs.len()
        invariant
            i <= pairs.len(),
            strictly_sorted(texts(r@)),
            texts(r@).to_set() == feature_locations(pairs_set(pairs@.take(i as int)), id@),
        decreases pairs.len() - i,
    {
        proof {
            lemma_pairs_take_step(pairs@, i as int);
            lemma_feature_locations_insert(pairs_set(pairs@.take(i as int)), pairs@[i as int].0@, pairs@[i as int].1@, id@);
        }
        if chars_eq(&pairs[i].0, id) {
            let l = crate::text::slice_of(&pairs[i].1, 0, pairs[i].1.len());
            assert(l@ =~= pairs@[i as int].1@);
            insert_sorted(&mut r, l);
        }
        i = i + 1;
    }
    assert(pairs@.take(pairs.len() as int) =~= pairs@);
    r
}

/// The observed features of a set of (id, location) pairs, by increasing id.
fn group_features(pairs: &Vec<(Vec<char>, Vec<char>)>) -> (r: Vec<ObservedFeature>)
    ensures
        features_view(r@) == observed_features(pairs_set(pairs@)),
{
    let ghost all = pairs_set(pairs@);
    let mut ids: Vec<Vec<char>> = Vec::new();
    let mut i: usize = 0;
    assert(pairs@.take(0) =~= Seq::<(Vec<char>, Vec<char>)>::empty());
    assert(feature_ids(pairs_set(pairs@.take(0))) =~= Set::empty());
    while i < pairs.len()
        invariant
            i <= pairs.len(),
            strictly_sorted(texts(ids@)),
            texts(ids@).to_set() == feature_ids(pairs_set(pairs@.take(i as int))),
        decreases pairs.len() - i,
    {
        proof {
            lemma_pairs_take_step(pairs@, i as int);
            lemma_feature_ids_insert(pairs_set(pairs@.take(i as int)), pairs@[i as int].0@, pairs@[i as int].1@);
        }
        let x = crate::text::slice_of(&pairs[i].0, 0, pairs[i].0.len());
        assert(x@ =~= pairs@[i as int].0@);
        insert_sorted(&mut ids, x);
        i = i + 1;
    }
    assert(pairs@.take(pairs.len() as int) =~= pairs@);
    let ghost sorted_ids = sorted_set(feature_ids(all));
    proof {
        assert(lists_sorted(texts(ids@), feature_ids(all)));
        assert(lists_sorted(sorted_ids, feature_ids(all)));
        lemma_sorted_unique(sorted_ids, texts(ids@));
    }
    let ghost target = observed_features(all);
    let mut out: Vec<ObservedFeature> = Vec::new();
    let mut j: usize = 0;
    while j < ids.len()
        invariant
            j <= ids.len(),
            all == pairs_set(pairs@),
            texts(ids@) == sorted_set(feature_ids(all)),
            target == observed_features(all),
            target.len() == ids.len(),
            features_view(out@) == target.take(j as int),
        decreases ids.len() - j,
    {
        let locs = locations_of(pairs, &ids[j]);
        let locations = sorted_strings(&locs, Ghost(feature_locations(all, ids@[j as int]@)));
        let f = ObservedFeature { id: string_of(&ids[j]), count: locations.len(), locations };
        assert(texts(ids@)[j as int] == ids@[j as int]@);
        assert(feature_view(f) == target[j as int]);
        let ghost before = out@;
        out.push(f);
        assert(features_view(out@) =~= features_view(before).push(feature_view(f)));
        assert(target.take(j + 1) =~= target.take(j as int).push(target[j as int]));
        j = j + 1;
    }
    assert(target.take(ids.len() as int) =~= target);
    out
}

/// The patterns of all workspace sources, in order.
fn all_patterns(sources: &Vec<WorkspaceSource>) -> (r: Vec<String>)
    ensures
        strs(r@) == source_patterns(sources@),
{
    let mut r: Vec<String> = Vec::new();
    let mut i: usize = 0;
    while i < sources.len()
        invariant
            i <= sources.len(),
            strs(r@) == source_patterns(sources@.take(i as int)),
        decreases sources.len() - i,
    {
        assert(sources@.take(i + 1).drop_last() =~= sources@.take(i as int));
        let ghost mid = strs(r@);
        let ps = &sources[i].patterns;
        let mut k: usize = 0;
        while k < ps.len()
            invariant
                k <= ps.len(),
                strs(r@) == mid + strs(ps@).take(k as int),
            decreases ps.len() - k,
        {
            let x = ps[k].as_str().to_owned();
            let ghost before = r@;
            r.push(x);
            assert(strs(r@) =~= strs(before).push(x@));
            assert(strs(ps@).take(k + 1) =~= strs(ps@).take(k as int).push(ps@[k as int]@));
            k = k + 1;
        }
        assert(strs(ps@).take(ps.len() as int) =~= strs(ps@));
        i = i + 1;
    }
    assert(sources@.take(sources.len() as int) =~= sources@);
    r
}

pub(crate) fn find_manifest<'a>(manifests: &'a [(String, String)], path: &[char]) -> (r: Option<&'a String>)
    ensures
        match r {
            Some(t) => manifest_text(manifests_view(manifests@), path@) == Some(t@),
            None => manifest_text(manifests_view(manifests@), path@) is None,
        },
{
    let ghost mv = manifests_view(manifests@);
    assert(mv.skip(0) =~= mv);
    let mut i: usize = 0;
    while i < manifests.len()
        invariant
            i <= manifests.len(),
            mv == manifests_view(manifests@),
            manifest_text(mv, path@) == manifest_text(mv.skip(i as int), path@),
        decreases manifests.len() - i,
    {
        let c = chars_of(manifests[i].0.as_str());
        assert(mv.skip(i as int)[0] == mv[i as int]);
        assert(mv.skip(i as int).drop_first() =~= mv.skip(i + 1));
        if chars_eq(&c, path) {
            return Some(&manifests[i].1);
        }
        i = i + 1;
    }
    None
}

pub(crate) fn push_counted_start(out: &mut Vec<char>, n: usize)
    ensures
        final(out)@ == old(out)@ + decimal(n as nat) + ":"@,
{
    let d = decimal_exec(n);
    push_chars(out, &d);
    push_str(out, ":");
}

pub(crate) proof fn lemma_concat_step(s: Seq<Seq<char>>, i: int)
    requires
        0 <= i < s.len(),
    ensures
        concat_texts(s.take(i + 1)) == concat_texts(s.take(i)) + s[i],
{
    assert(s.take(i + 1).drop_last() =~= s.take(i));
}

fn push_dep_text(out: &mut Vec<char>, d: &DependencyIr)
    ensures
        final(out)@ == old(out)@ + dep_text(dep_view(*d)),
{
    let ghost o = out@;
    push_frame(out, &chars_of(d.package_path.as_str()));
    push_frame(out, &chars_of(d.section.as_str()));
    push_frame(out, &chars_of(d.name.as_str()));
    push_frame(out, &chars_of(d.specifier.as_str()));
    push_frame(out, &chars_of(d.location.as_str()));
    assert(out@ =~= o + dep_text(dep_view(*d)));
}

/// The start of a package's text: everything before its dependencies.
pub open spec fn package_head(p: PackageView) -> Seq<char> {
    frame(p.path) + frame(p.manifest_path) + opt_frame(p.name) + opt_frame(p.version) + opt_bool_text(p.private)
}

fn push_package_head(out: &mut Vec<char>, p: &PackageIr)
    ensures
        final(out)@ == old(out)@ + package_head(package_view(*p)),
{
    let ghost o = out@;
    push_frame(out, &chars_of(p.path.as_str()));
    push_frame(out, &chars_of(p.manifest_path.as_str()));
    push_opt_frame(out, &p.name);
    push_opt_frame(out, &p.version);
    match p.private {
        None => push_str(out, "-"),
        Some(true) => push_str(out, "+true"),
        Some(false) => push_str(out, "+false"),
    }
    assert(out@ =~= o + package_head(package_view(*p)));
}

fn push_deps_counted(out: &mut Vec<char>, deps: &Vec<DependencyIr>)
    ensures
        final(out)@ == old(out)@ + counted(dep_texts(deps_view(deps@))),
{
    let ghost o = out@;
    let ghost items = dep_texts(deps_view(deps@));
    push_counted_start(out, deps.len());
    let ghost base = out@;
    let mut i: usize = 0;
    while i < deps.len()
        invariant
            i <= deps.len(),
            items == dep_texts(deps_view(deps@)),
            out@ == base + concat_texts(items.take(i as int)),
        decreases deps.len() - i,
    {
        push_dep_text(out, &deps[i]);
        proof {
            lemma_concat_step(items, i as int);
        }
        assert(out@ =~= base + concat_texts(items.take(i + 1)));
        i = i + 1;
    }
    assert(items.take(deps.len() as int) =~= items);
    assert(out@ =~= o + counted(items));
}

fn push_package_text(out: &mut Vec<char>, p: &PackageIr)
    ensures
        final(out)@ == old(out)@ + package_text(package_view(*p)),
{
    let ghost o = out@;
    push_package_head(out, p);
    let ghost a = out@;
    push_deps_counted(out, &p.dependencies);
    let ghost b = out@;
    let scripts = strings_chars(&p.script_names);
    push_frame_list(out, &scripts);
    let ghost pv = package_view(*p);
    assert(package_text(pv) == package_head(pv) + counted(dep_texts(pv.dependencies)) + frame_list(pv.scripts));
    assert(out@ =~= o + package_text(pv));
}

fn push_feature_text(out: &mut Vec<char>, f: &ObservedFeature)
    ensures
        final(out)@ == old(out)@ + feature_text(feature_view(*f)),
{
    let ghost o = out@;
    push_frame(out, &chars_of(f.id.as_str()));
    let locs = strings_chars(&f.locations);
    push_frame_list(out, &locs);
    assert(out@ =~= o + feature_text(feature_view(*f)));
}

fn push_packages_counted(out: &mut Vec<char>, packages: &Vec<PackageIr>)
    ensures
        final(out)@ == old(out)@ + counted(package_texts(packages_view(packages@))),
{
    let ghost o = out@;
    let ghost items = package_texts(packages_view(packages@));
    push_counted_start(out, packages.len());
    let ghost base = out@;
    let mut i: usize = 0;
    while i < packages.len()
        invariant
            i <= packages.len(),
            items == package_texts(packages_view(packages@)),
            out@ == base + concat_texts(items.take(i as int)),
        decreases packages.len() - i,
    {
        push_package_text(out, &packages[i]);
        proof {
            lemma_concat_step(items, i as int);
        }
        assert(out@ =~= base + concat_texts(items.take(i + 1)));
        i = i + 1;
    }
    assert(items.take(packages.len() as int) =~= items);
    assert(out@ =~= o + counted(items));
}

fn push_features_counted(out: &mut Vec<char>, features: &Vec<ObservedFeature>)
    ensures
        final(out)@ == old(out)@ + counted(feature_texts(features_view(features@))),
{
    let ghost o = out@;
    let ghost items = feature_texts(features_view(features@));
    push_counted_start(out, features.len());
    let ghost base = out@;
    let mut i: usize = 0;
    while i < features.len()
        invariant
            i <= features.len(),
            items == feature_texts(features_view(features@)),
            out@ == base + concat_texts(items.take(i as int)),
        decreases features.len() - i,
    {
        push_feature_text(out, &features[i]);
        proof {
            lemma_concat_step(items, i as int);
        }
        assert(out@ =~= base + concat_texts(items.take(i + 1)));
        i = i + 1;
    }
    assert(items.take(features.len() as int) =~= items);
    assert(out@ =~= o + counted(items));
}

fn identity_of(
    fingerprint: &str,
    source: PackageManagerId,
    packages: &Vec<PackageIr>,
    patterns: &Vec<Vec<char>>,
    features: &Vec<ObservedFeature>,
) -> (r: Vec<char>)
    ensures
        r@ == identity_text(fingerprint@, source, packages_view(packages@), texts(patterns@), features_view(features@)),
{
    let mut out: Vec<char> = Vec::new();
    push_frame(&mut out, &chars_of(fingerprint));
    push_frame(&mut out, &chars_of(source.as_str()));
    push_packages_counted(&mut out, packages);
    push_frame_list(&mut out, patterns);
    push_features_counted(&mut out, features);
    assert(out@ =~= identity_text(
        fingerprint@,
        source,
        packages_view(packages@),
        texts(patterns@),
        features_view(features@),
    ));
    out
}

pub open spec fn opt_str(o: Option<&str>) -> Option<Seq<char>> {
    match o {
        Some(t) => Some(t@),
        None => None,
    }
}

proof fn lemma_packages_err_stays(
    paths: Seq<Seq<char>>,
    manifests: Seq<(Seq<char>, Seq<char>)>,
    j: int,
    k: int,
    e: Seq<char>,
)
    requires
        0 <= j <= k <= paths.len(),
        project_packages(paths.take(j), manifests) == Err::<(Seq<PackageView>, Set<(Seq<char>, Seq<char>)>), Seq<char>>(e),
    ensures
        project_packages(paths.take(k), manifests) == Err::<(Seq<PackageView>, Set<(Seq<char>, Seq<char>)>), Seq<char>>(e),
    decreases k - j,
{
    if k > j {
        lemma_packages_err_stays(paths, manifests, j, k - 1, e);
        assert(paths.take(k).drop_last() =~= paths.take(k - 1));
    }
}

fn manifest_path_exec(pp: &str) -> (r: Vec<char>)
    ensures
        r@ == manifest_path_for(pp@),
{
    let c = chars_of(pp);
    if str_eq(&c, ".") {
        chars_of("package.json")
    } else {
        let mut m = c;
        push_str(&mut m, "/package.json");
        m
    }
}

fn error_text(mp: &[char], detail: &str) -> (r: String)
    ensures
        r@ == mp@ + ": "@ + detail@,
{
    let mut t = crate::text::slice_of(mp, 0, mp.len());
    assert(t@ =~= mp@);
    push_str(&mut t, ": ");
    push_str(&mut t, detail);
    string_of(&t)
}

fn push_workspace_features(pairs: &mut Vec<(Vec<char>, Vec<char>)>, configured: bool, patterns: &Vec<String>)
    ensures
        pairs_set(final(pairs)@) == pairs_set(old(pairs)@).union(workspace_features(configured, strs(patterns@))),
{
    let ghost base = pairs_set(pairs@);
    let ghost ps = strs(patterns@);
    let ghost f1 = ("workspace.manifest"@, "package.json#/workspaces"@);
    let ghost f2 = ("workspace.negative-patterns"@, "workspace configuration"@);
    if configured {
        push_pair(pairs, "workspace.manifest", &chars_of("package.json#/workspaces"));
    }
    let mut negative = false;
    let mut i: usize = 0;
    while i < patterns.len()
        invariant
            i <= patterns.len(),
            ps == strs(patterns@),
            negative == exists|j: int| 0 <= j < i && starts_with(#[trigger] ps[j], "!"@),
        decreases patterns.len() - i,
    {
        let c = chars_of(patterns[i].as_str());
        assert(ps[i as int] == c@);
        if str_starts_with(&c, "!") {
            negative = true;
        }
        i = i + 1;
    }
    if negative {
        push_pair(pairs, "workspace.negative-patterns", &chars_of("workspace configuration"));
    }
    let ghost mid = if configured { base.insert(f1) } else { base };
    assert(pairs_set(pairs@) == if negative { mid.insert(f2) } else { mid });
    assert(pairs_set(pairs@) =~= base.union(workspace_features(configured, ps)));
}

fn push_config_features(
    pairs: &mut Vec<(Vec<char>, Vec<char>)>,
    npmrc: Option<&str>,
    yarnrc: Option<&str>,
    pnpmfile: bool,
    yarn_config: bool,
)
    ensures
        pairs_set(final(pairs)@) == pairs_set(old(pairs)@).union(
            config_features(opt_str(npmrc), opt_str(yarnrc), pnpmfile, yarn_config),
        ),
{
    let ghost base = pairs_set(pairs@);
    let ghost target = config_features(opt_str(npmrc), opt_str(yarnrc), pnpmfile, yarn_config);
    let ghost f1 = ("registry.npmrc"@, ".npmrc"@);
    let ghost f2 = ("install.isolated-linker"@, ".npmrc"@);
    let ghost f3 = ("install.pnp-linker"@, ".yarnrc.yml"@);
    let ghost f4 = ("hook.pnpmfile"@, ".pnpmfile.cjs"@);
    let ghost f5 = ("policy.yarn-constraints"@, "yarn.config.cjs"@);
    let mut isolated = false;
    match npmrc {
        Some(t) => {
            push_pair(pairs, "registry.npmrc", &chars_of(".npmrc"));
            if str_contains(&chars_of(t), "node-linker=isolated") {
                isolated = true;
                push_pair(pairs, "install.isolated-linker", &chars_of(".npmrc"));
            }
        },
        None => {},
    }
    let ghost s1 = pairs_set(pairs@);
    assert(s1 == match npmrc {
        Some(_) => if isolated { base.insert(f1).insert(f2) } else { base.insert(f1) },
        None => base,
    });
    let mut pnp = false;
    match yarnrc {
        Some(t) => {
            if str_contains(&chars_of(t), "nodeLinker: pnp") {
                pnp = true;
                push_pair(pairs, "install.pnp-linker", &chars_of(".yarnrc.yml"));
            }
        },
        None => {},
    }
    if pnpmfile {
        push_pair(pairs, "hook.pnpmfile", &chars_of(".pnpmfile.cjs"));
    }
    if yarn_config {
        push_pair(pairs, "policy.yarn-constraints", &chars_of("yarn.config.cjs"));
    }
    let ghost s2 = if pnp { s1.insert(f3) } else { s1 };
    let ghost s3 = if pnpmfile { s2.insert(f4) } else { s2 };
    assert(pairs_set(pairs@) == if yarn_config { s3.insert(f5) } else { s3 });
    assert(isolated == match opt_str(npmrc) {
        Some(t) => contains_seq(t, "node-linker=isolated"@),
        None => false,
    });
    assert(pnp == match opt_str(yarnrc) {
        Some(t) => contains_seq(t, "nodeLinker: pnp"@),
        None => false,
    });
    assert(pairs_set(pairs@) =~= base.union(target));
}

fn add_package(
    pp: &str,
    manifests: &[(String, String)],
    packages: &mut Vec<PackageIr>,
    pairs: &mut Vec<(Vec<char>, Vec<char>)>,
) -> (r: Result<(), String>)
    ensures
        match r {
            Ok(()) => package_step(pp@, manifests_view(manifests@), packages_view(old(packages)@), pairs_set(old(pairs)@))
                == Ok::<(Seq<PackageView>, Set<(Seq<char>, Seq<char>)>), Seq<char>>(
                (packages_view(final(packages)@), pairs_set(final(pairs)@)),
            ),
            Err(e) => package_step(pp@, manifests_view(manifests@), packages_view(old(packages)@), pairs_set(old(pairs)@))
                == Err::<(Seq<PackageView>, Set<(Seq<char>, Seq<char>)>), Seq<char>>(e@),
        },
{
    let mp = manifest_path_exec(pp);
    match find_manifest(manifests, &mp) {
        None => Ok(()),
        Some(text) => match read_json(text.as_str()) {
            Err(e) => Err(error_text(&mp, e.as_str())),
            Ok(doc) => {
                let is_object = match &doc {
                    JsonValue::Object(_) => true,
                    _ => false,
                };
                if !is_object {
                    let mut t = crate::text::slice_of(&mp, 0, mp.len());
                    assert(t@ =~= mp@);
                    push_str(&mut t, ": expected a JSON object");
                    return Err(string_of(&t));
                }
                let mps = string_of(&mp);
                let ghost before = packages@;
                let p = package_from_manifest(&doc, pp, mps.as_str(), pairs);
                packages.push(p);
                assert(packages_view(packages@) =~= packages_view(before).push(package_view(p)));
                Ok(())
            },
        },
    }
}

/// The packages of the package directories, with the features their
/// manifests show (see `project_packages`).
fn collect_packages(paths: &Vec<String>, manifests: &[(String, String)]) -> (r: Result<
    (Vec<PackageIr>, Vec<(Vec<char>, Vec<char>)>),
    String,
>)
    ensures
        match r {
            Ok((pkgs, pairs)) => project_packages(strs(paths@), manifests_view(manifests@)) == Ok::<
                (Seq<PackageView>, Set<(Seq<char>, Seq<char>)>),
                Seq<char>,
            >((packages_view(pkgs@), pairs_set(pairs@))),
            Err(e) => project_packages(strs(paths@), manifests_view(manifests@)) == Err::<
                (Seq<PackageView>, Set<(Seq<char>, Seq<char>)>),
                Seq<char>,
            >(e@),
        },
{
    let ghost pv = strs(paths@);
    let ghost mv = manifests_view(manifests@);
    let mut packages: Vec<PackageIr> = Vec::new();
    let mut pairs: Vec<(Vec<char>, Vec<char>)> = Vec::new();
    assert(pv.take(0) =~= Seq::<Seq<char>>::empty());
    assert(pairs_set(pairs@) =~= Set::<(Seq<char>, Seq<char>)>::empty());
    assert(packages_view(packages@) =~= Seq::<PackageView>::empty());
    let mut i: usize = 0;
    while i < paths.len()
        invariant
            i <= paths.len(),
            pv == strs(paths@),
            mv == manifests_view(manifests@),
            project_packages(pv.take(i as int), mv) == Ok::<
                (Seq<PackageView>, Set<(Seq<char>, Seq<char>)>),
                Seq<char>,
            >((packages_view(packages@), pairs_set(pairs@))),
        decreases paths.len() - i,
    {
        assert(pv.take(i + 1).drop_last() =~= pv.take(i as int));
        assert(pv.take(i + 1).last() == paths@[i as int]@);
        match add_package(paths[i].as_str(), manifests, &mut packages, &mut pairs) {
            Err(e) => {
                proof {
                    lemma_packages_err_stays(pv, mv, i + 1, pv.len() as int, e@);
                    assert(pv.take(pv.len() as int) =~= pv);
                }
                return Err(e);
            },
            Ok(()) => {},
        }
        i = i + 1;
    }
    assert(pv.take(paths.len() as int) =~= pv);
    Ok((packages, pairs))
}

fn copy_integrations(v: &Vec<IntegrationInspection>) -> (r: Vec<IntegrationInspection>)
    ensures
        r@.map_values(|x: IntegrationInspection| x@) == v@.map_values(|x: IntegrationInspection| x@),
{
    let mut out: Vec<IntegrationInspection> = Vec::new();
    let mut k: usize = 0;
    while k < v.len()
        invariant
            k <= v.len(),
            out@.map_values(|x: IntegrationInspection| x@) == v@.map_values(|x: IntegrationInspection| x@).take(
                k as int,
            ),
        decreases v.len() - k,
    {
        let x = v[k].duplicate();
        let ghost before = out@;
        out.push(x);
        assert(out@.map_values(|x: IntegrationInspection| x@) =~= before.map_values(|x: IntegrationInspection| x@).push(
            x@,
        ));
        assert(v@.map_values(|x: IntegrationInspection| x@).take(k + 1) =~= v@.map_values(
            |x: IntegrationInspection| x@,
        ).take(k as int).push(v@[k as int]@));
        k = k + 1;
    }
    assert(v@.map_values(|x: IntegrationInspection| x@).take(v.len() as int) =~= v@.map_values(
        |x: IntegrationInspection| x@,
    ));
    out
}

fn copy_diagnostics(v: &Vec<Diagnostic>) -> (r: Vec<Diagnostic>)
    ensures
        diagnostics_view(r@) == diagnostics_view(v@),
{
    let mut out: Vec<Diagnostic> = Vec::new();
    let mut k: usize = 0;
    while k < v.len()
        invariant
            k <= v.len(),
            diagnostics_view(out@) == diagnostics_view(v@).take(k as int),
        decreases v.len() - k,
    {
        let x = v[k].duplicate();
        let ghost before = out@;
        out.push(x);
        assert(diagnostics_view(out@) =~= diagnostics_view(before).push(x@));
        assert(diagnostics_view(v@).take(k + 1) =~= diagnostics_view(v@).take(k as int).push(v@[k as int]@));
        k = k + 1;
    }
    assert(diagnostics_view(v@).take(v.len() as int) =~= diagnostics_view(v@));
    out
}

/// The package that the manifest document `doc` of the package directory
/// `package_path` describes, with the features it shows; None where the
/// document is not an object.
pub fn manifest_package(doc: &JsonValue, package_path: &str) -> (r: Option<(PackageIr, Vec<ObservedFeature>)>)
    ensures
        match r {
            None => !(json_view(*doc) is Object),
            Some((p, fs)) => {
                let mp = manifest_path_for(package_path@);
                &&& json_view(*doc) is Object
                &&& package_view(p) == package_spec(json_view(*doc), package_path@, mp)
                &&& features_view(fs@) == observed_features(
                    manifest_features(json_view(*doc), mp, manifest_deps(json_view(*doc), package_path@, mp)),
                )
            },
        },
{
    let is_object = match doc {
        JsonValue::Object(_) => true,
        _ => false,
    };
    if !is_object {
        return None;
    }
    let mp = string_of(&manifest_path_exec(package_path));
    let mut pairs: Vec<(Vec<char>, Vec<char>)> = Vec::new();
    assert(pairs_set(pairs@) =~= Set::<(Seq<char>, Seq<char>)>::empty());
    let p = package_from_manifest(doc, package_path, mp.as_str(), &mut pairs);
    let ghost d = json_view(*doc);
    assert(pairs_set(pairs@) =~= manifest_features(d, mp@, manifest_deps(d, package_path@, mp@)));
    let fs = group_features(&pairs);
    Some((p, fs))
}

/// The project model of an inspection (see `project_ir_spec`): `files` are
/// the project's files, `manifests` the package manifests read (path and
/// text), `npmrc` and `yarnrc` the texts of `.npmrc` and `.yarnrc.yml` where
/// they exist, `pnpmfile` and `yarn_config` whether `.pnpmfile.cjs` and
/// `yarn.config.cjs` exist.
pub fn build_project_ir(
    inspection: &ProjectInspection,
    files: &Vec<String>,
    manifests: &[(String, String)],
    npmrc: Option<&str>,
    yarnrc: Option<&str>,
    pnpmfile: bool,
    yarn_config: bool,
) -> (r: Result<Option<ProjectIr>, String>)
    ensures
        ({
            let expected = project_ir_spec(
                *inspection,
                strs(files@),
                manifests_view(manifests@),
                opt_str(npmrc),
                opt_str(yarnrc),
                pnpmfile,
                yarn_config,
            );
            match r {
                Ok(Some(ir)) => expected == Ok::<Option<ProjectIrView>, Seq<char>>(Some(project_ir_view(ir))),
                Ok(None) => expected == Ok::<Option<ProjectIrView>, Seq<char>>(None),
                Err(e) => expected == Err::<Option<ProjectIrView>, Seq<char>>(e@),
            }
        }),
{
    let source = match inspection.package_manager.selected {
        None => {
            return Ok(None);
        },
        Some(s) => s,
    };
    if inspection.manifest.is_none() {
        return Ok(None);
    }
    let ghost mv = manifests_view(manifests@);
    let patterns = all_patterns(&inspection.workspace.sources);
    let paths = package_paths(&patterns, files);
    let (packages, mut pairs) = match collect_packages(&paths, manifests) {
        Err(e) => {
            return Err(e);
        },
        Ok(x) => x,
    };
    let ghost manifest_pairs = pairs_set(pairs@);
    push_workspace_features(&mut pairs, inspection.workspace.configured, &patterns);
    push_config_features(&mut pairs, npmrc, yarnrc, pnpmfile, yarn_config);
    let ghost ps = strs(patterns@);
    let ghost all = workspace_features(inspection.workspace.configured, ps).union(manifest_pairs).union(
        config_features(opt_str(npmrc), opt_str(yarnrc), pnpmfile, yarn_config),
    );
    assert(pairs_set(pairs@) =~= all);
    let features = group_features(&pairs);
    let pattern_chars = strings_chars(&patterns);
    let unique = sorted_unique(&pattern_chars);
    let workspace_patterns = sorted_strings(&unique, Ghost(ps.to_set()));
    proof {
        assert(lists_sorted(texts(unique@), ps.to_set()));
        assert(lists_sorted(sorted_set(ps.to_set()), ps.to_set()));
        lemma_sorted_unique(sorted_set(ps.to_set()), texts(unique@));
    }
    let id_text = identity_of(inspection.fingerprint.as_str(), source, &packages, &unique, &features);
    let project_ir_id = short_digest("ir_", &id_text);
    let integrations = copy_integrations(&inspection.integrations);
    let diagnostics = copy_diagnostics(&inspection.diagnostics);
    let ir = ProjectIr {
        schema_version: SCHEMA_VERSION.to_owned(),
        project_ir_id,
        repository_fingerprint: inspection.fingerprint.as_str().to_owned(),
        source: Some(source),
        root_package_path: ".".to_owned(),
        packages,
        workspace_patterns,
        features,
        integrations,
        diagnostics,
    };
    Ok(Some(ir))
}

/// `Path::join` on Unix: an absolute `b` replaces `a`; otherwise `b`
/// follows `a`, with a separator unless `a` is empty or already ends in one.
pub open spec fn path_join(a: Seq<char>, b: Seq<char>) -> Seq<char> {
    if b.len() > 0 && b[0] == '/' {
        b
    } else if a.len() == 0 || a.last() == '/' {
        a + b
    } else {
        a + "/"@ + b
    }
}

/// The manifest of a package directory below a root.
pub open spec fn manifest_path_spec(root: Seq<char>, package_path: Seq<char>) -> Seq<char> {
    if package_path == "."@ {
        path_join(root, "package.json"@)
    } else {
        path_join(path_join(root, package_path), "package.json"@)
    }
}

fn path_join_exec(a: &[char], b: &[char]) -> (r: Vec<char>)
    ensures
        r@ == path_join(a@, b@),
{
    let mut out = crate::text::slice_of(a, 0, a.len());
    assert(out@ =~= a@);
    if b.len() > 0 && b[0] == '/' {
        let r = crate::text::slice_of(b, 0, b.len());
        assert(r@ =~= b@);
        return r;
    }
    if !(a.len() == 0 || a[a.len() - 1] == '/') {
        push_str(&mut out, "/");
    }
    push_chars(&mut out, b);
    out
}

/// The manifest path of a package directory below `root`.
pub fn manifest_path(root: &str, package_path: &str) -> (r: String)
    ensures
        r@ == manifest_path_spec(root@, package_path@),
{
    let rc = chars_of(root);
    let pc = chars_of(package_path);
    let manifest = chars_of("package.json");
    if str_eq(&pc, ".") {
        string_of(&path_join_exec(&rc, &manifest))
    } else {
        let dir = path_join_exec(&rc, &pc);
        string_of(&path_join_exec(&dir, &manifest))
    }
}

} // verus!
