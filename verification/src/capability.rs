//! What each feature a project uses becomes on a target package manager, and
//! the analysis of a whole project against one target.
use vstd::prelude::*;
use crate::digest::{decimal, decimal_exec, frame, frame_list, push_frame, push_frame_list, short_digest, short_digest_spec};
use crate::model::{
    manager_name, CapabilityAnalysis, CapabilityClassification, CapabilityDecision, CapabilitySummary,
    Diagnostic, DiagnosticSeverity, DiagnosticView, EvidenceDetail, ObservedFeature, PackageManagerId,
    ProjectIr, SCHEMA_VERSION,
};
use crate::text::{chars_of, lemma_texts_push, push_chars, push_str, seq_lt, str_eq, string_of, strs, texts};

verus! {

/// How a feature carries over, how risky that is, which transformation does
/// it, and why.
pub struct Outcome {
    pub classification: CapabilityClassification,
    pub risk: &'static str,
    pub transformation: Option<&'static str>,
    pub summary: Vec<char>,
}

pub struct OutcomeView {
    pub classification: CapabilityClassification,
    pub risk: Seq<char>,
    pub transformation: Option<Seq<char>>,
    pub summary: Seq<char>,
}

impl View for Outcome {
    type V = OutcomeView;

    open spec fn view(&self) -> OutcomeView {
        OutcomeView {
            classification: self.classification,
            risk: self.risk@,
            transformation: match self.transformation {
                Some(t) => Some(t@),
                None => None,
            },
            summary: self.summary@,
        }
    }
}

pub open spec fn native_view(summary: Seq<char>) -> OutcomeView {
    OutcomeView { classification: CapabilityClassification::Native, risk: "none"@, transformation: None, summary }
}

pub open spec fn transform_view(id: Seq<char>, summary: Seq<char>) -> OutcomeView {
    OutcomeView { classification: CapabilityClassification::Transform, risk: "medium"@, transformation: Some(id), summary }
}

pub open spec fn lossy_view(id: Seq<char>, summary: Seq<char>) -> OutcomeView {
    OutcomeView { classification: CapabilityClassification::Lossy, risk: "high"@, transformation: Some(id), summary }
}

pub open spec fn unsupported_view(summary: Seq<char>) -> OutcomeView {
    OutcomeView { classification: CapabilityClassification::Unsupported, risk: "high"@, transformation: None, summary }
}

pub open spec fn unknown_view(summary: Seq<char>) -> OutcomeView {
    OutcomeView { classification: CapabilityClassification::Unknown, risk: "high"@, transformation: None, summary }
}

fn native_outcome(summary: &str) -> (r: Outcome)
    ensures
        r@ == native_view(summary@),
{
    Outcome { classification: CapabilityClassification::Native, risk: "none", transformation: None, summary: chars_of(summary) }
}

fn transform_outcome(id: &'static str, summary: &str) -> (r: Outcome)
    ensures
        r@ == transform_view(id@, summary@),
{
    Outcome { classification: CapabilityClassification::Transform, risk: "medium", transformation: Some(id), summary: chars_of(summary) }
}

fn lossy_outcome(id: &'static str, summary: &str) -> (r: Outcome)
    ensures
        r@ == lossy_view(id@, summary@),
{
    Outcome { classification: CapabilityClassification::Lossy, risk: "high", transformation: Some(id), summary: chars_of(summary) }
}

fn unsupported_outcome(summary: &str) -> (r: Outcome)
    ensures
        r@ == unsupported_view(summary@),
{
    Outcome { classification: CapabilityClassification::Unsupported, risk: "high", transformation: None, summary: chars_of(summary) }
}

fn unknown_outcome(summary: &str) -> (r: Outcome)
    ensures
        r@ == unknown_view(summary@),
{
    Outcome { classification: CapabilityClassification::Unknown, risk: "high", transformation: None, summary: chars_of(summary) }
}

fn unknown_outcome_chars(summary: &[char]) -> (r: Outcome)
    ensures
        r@ == unknown_view(summary@),
{
    let s = crate::text::slice_of(summary, 0, summary.len());
    assert(s@ =~= summary@);
    Outcome { classification: CapabilityClassification::Unknown, risk: "high", transformation: None, summary: s }
}

/// The registered capability rule for `feature` on `target`; features without
/// a rule are of unknown support.
pub open spec fn rule_spec(feature: Seq<char>, target: PackageManagerId) -> OutcomeView {
    if feature == "workspace.manifest"@ {
        match target {
            PackageManagerId::Npm | PackageManagerId::Pnpm | PackageManagerId::YarnClassic | PackageManagerId::YarnModern | PackageManagerId::Bun => native_view("The target natively represents workspace membership."@),
            PackageManagerId::Deno => transform_view("workspace.to-deno-workspace"@, "Deno requires workspace membership in Deno configuration."@),
            PackageManagerId::Vlt => transform_view("workspace.to-vlt-workspace"@, "vlt requires workspace membership in vlt.json."@),
        }
    } else if feature == "workspace.negative-patterns"@ {
        match target {
            PackageManagerId::Pnpm | PackageManagerId::Bun => native_view("The target supports workspace exclusion patterns."@),
            _ => unknown_view("Equivalent workspace exclusion behavior is not verified."@),
        }
    } else if feature == "dependency.workspace-protocol"@ {
        match target {
            PackageManagerId::Pnpm | PackageManagerId::YarnModern | PackageManagerId::Bun | PackageManagerId::Vlt | PackageManagerId::Deno => native_view("The target supports workspace specifiers."@),
            PackageManagerId::Npm | PackageManagerId::YarnClassic => transform_view("workspace.expand-to-semver"@, "Workspace specifiers must be expanded to semver ranges."@),
        }
    } else if feature == "dependency.catalog-protocol"@ || feature == "policy.catalogs"@ {
        match target {
            PackageManagerId::Pnpm | PackageManagerId::Bun => native_view("The target natively represents dependency catalogs."@),
            PackageManagerId::Npm | PackageManagerId::YarnClassic | PackageManagerId::YarnModern => lossy_view("catalog.expand-to-range"@, "Catalog references must be expanded and centralized policy is lost."@),
            PackageManagerId::Deno => lossy_view("catalog.expand-to-range"@, "Catalog references must be expanded for Deno dependency declarations."@),
            PackageManagerId::Vlt => native_view("vlt natively represents dependency catalogs."@),
        }
    } else if feature == "dependency.patch-protocol"@ {
        match target {
            PackageManagerId::YarnModern => native_view("The target supports patch protocol dependencies."@),
            PackageManagerId::Pnpm => transform_view("patch.yarn-to-pnpm"@, "Yarn patch entries require deterministic pnpm policy rendering."@),
            PackageManagerId::Bun => transform_view("patch.yarn-to-bun"@, "Yarn patch entries require deterministic Bun policy rendering."@),
            PackageManagerId::Vlt => unsupported_view("vlt has no supported patch protocol mapping in this adapter."@),
            _ => unsupported_view("The target has no supported patch protocol equivalent."@),
        }
    } else if feature == "dependency.portal-protocol"@ {
        match target {
            PackageManagerId::YarnModern => native_view("The target supports portal dependencies."@),
            PackageManagerId::Npm => lossy_view("portal.to-file"@, "Portal dependencies become file references."@),
            PackageManagerId::Pnpm | PackageManagerId::YarnClassic => lossy_view("portal.to-link"@, "Portal dependencies become link references."@),
            PackageManagerId::Bun => unknown_view("Portal semantics are not verified for the target."@),
            PackageManagerId::Vlt => unsupported_view("vlt has no supported portal mapping in this adapter."@),
            PackageManagerId::Deno => unsupported_view("Deno dependency mode has no portal equivalent."@),
        }
    } else if feature == "dependency.link-protocol"@ {
        match target {
            PackageManagerId::Pnpm | PackageManagerId::YarnClassic | PackageManagerId::YarnModern => native_view("The target supports link references."@),
            PackageManagerId::Npm => lossy_view("link.to-file"@, "Link references become file references."@),
            PackageManagerId::Bun => unknown_view("Link protocol parity is not verified for the target."@),
            PackageManagerId::Vlt => unsupported_view("vlt has no supported link protocol mapping in this adapter."@),
            PackageManagerId::Deno => unsupported_view("Deno dependency mode has no link protocol equivalent."@),
        }
    } else if feature == "dependency.deno-import-map"@ {
        match target {
            PackageManagerId::Deno => native_view("Deno preserves imports and scopes in its runtime configuration."@),
            _ => unsupported_view("Deno import maps are outside the package-manager migration boundary."@),
        }
    } else if feature == "resolution.overrides"@ {
        match target {
            PackageManagerId::Npm | PackageManagerId::Bun => native_view("The target natively supports dependency overrides."@),
            PackageManagerId::Pnpm => transform_view("overrides.to-pnpm"@, "Overrides must move into pnpm workspace settings."@),
            PackageManagerId::YarnClassic | PackageManagerId::YarnModern => lossy_view("overrides.to-resolutions"@, "Overrides become Yarn resolutions with selector review."@),
            PackageManagerId::Vlt => transform_view("overrides.to-vlt-modifiers"@, "Overrides require vlt graph modifier rendering."@),
            PackageManagerId::Deno => native_view("Deno honors npm-compatible overrides in package.json."@),
        }
    } else if feature == "resolution.nested-overrides"@ {
        match target {
            PackageManagerId::Npm => native_view("npm supports nested override objects."@),
            PackageManagerId::Pnpm => transform_view("overrides.nested-to-selector"@, "Nested overrides require pnpm selectors."@),
            PackageManagerId::YarnClassic | PackageManagerId::YarnModern => lossy_view("overrides.nested-to-resolutions"@, "Nested overrides lose selector fidelity as Yarn resolutions."@),
            PackageManagerId::Bun => unsupported_view("The target has no safe nested override mapping."@),
            PackageManagerId::Vlt => transform_view("overrides.to-vlt-modifiers"@, "Nested overrides require contextual vlt dependency selectors."@),
            PackageManagerId::Deno => native_view("Deno honors nested npm-compatible overrides in package.json."@),
        }
    } else if feature == "resolution.resolutions"@ {
        match target {
            PackageManagerId::YarnClassic | PackageManagerId::YarnModern | PackageManagerId::Bun => native_view("The target natively supports resolution policy."@),
            PackageManagerId::Npm => transform_view("resolutions.to-overrides"@, "Resolutions require npm override rendering."@),
            PackageManagerId::Pnpm => transform_view("resolutions.to-pnpm-overrides"@, "Resolutions require pnpm override rendering."@),
            PackageManagerId::Vlt => transform_view("resolutions.to-vlt-modifiers"@, "Resolutions require vlt graph modifier rendering."@),
            PackageManagerId::Deno => transform_view("resolutions.to-overrides"@, "Resolutions require Deno-compatible npm override rendering."@),
        }
    } else if feature == "resolution.package-extensions"@ {
        match target {
            PackageManagerId::Npm | PackageManagerId::Pnpm | PackageManagerId::YarnModern => native_view("The target supports package extensions."@),
            PackageManagerId::Bun => unknown_view("Package extension parity is not verified."@),
            PackageManagerId::Vlt => unsupported_view("vlt has no supported package extensions mapping."@),
            PackageManagerId::YarnClassic | PackageManagerId::Deno => unsupported_view("The target has no package extensions mechanism."@),
        }
    } else if feature == "patch.patched-dependencies"@ {
        match target {
            PackageManagerId::Pnpm | PackageManagerId::Bun => native_view("The target supports patched dependency policy."@),
            PackageManagerId::YarnModern => transform_view("patch.patched-to-yarn"@, "Patched dependencies require Yarn patch protocol rendering."@),
            PackageManagerId::Vlt => unsupported_view("vlt has no supported patched dependency mapping."@),
            _ => unsupported_view("The target has no supported patched dependency mechanism."@),
        }
    } else if feature == "install.pnp-linker"@ {
        match target {
            PackageManagerId::Pnpm | PackageManagerId::YarnModern => native_view("The target supports Plug and Play linking."@),
            PackageManagerId::Npm | PackageManagerId::YarnClassic => lossy_view("linker.pnp-to-node-modules"@, "The migration switches from Plug and Play to node_modules."@),
            PackageManagerId::Bun => lossy_view("linker.pnp-to-isolated"@, "The migration switches from Plug and Play to isolated linking."@),
            PackageManagerId::Vlt => lossy_view("linker.pnp-to-isolated"@, "The migration switches from Plug and Play to vlt isolation."@),
            PackageManagerId::Deno => lossy_view("linker.pnp-to-isolated"@, "The migration switches from Plug and Play to Deno isolation."@),
        }
    } else if feature == "install.isolated-linker"@ {
        match target {
            PackageManagerId::Pnpm | PackageManagerId::Bun => native_view("The target supports isolated linking."@),
            PackageManagerId::YarnModern => transform_view("linker.isolated-to-yarn-pnpm"@, "The migration selects Yarn's pnpm linker."@),
            PackageManagerId::Npm | PackageManagerId::YarnClassic => lossy_view("linker.isolated-to-hoisted"@, "The migration switches to a hoisted node_modules layout."@),
            PackageManagerId::Vlt | PackageManagerId::Deno => native_view("The target supports isolated dependency linking."@),
        }
    } else if feature == "policy.yarn-constraints"@ {
        match target {
            PackageManagerId::YarnModern => native_view("The target executes Yarn constraints."@),
            _ => unsupported_view("Arbitrary Yarn constraint logic cannot be translated safely."@),
        }
    } else if feature == "hook.pnpmfile"@ {
        match target {
            PackageManagerId::Pnpm => native_view("The target executes pnpm hook modules."@),
            _ => unsupported_view("Arbitrary pnpm hook code cannot be translated safely."@),
        }
    } else if feature == "registry.npmrc"@ {
        match target {
            PackageManagerId::Npm | PackageManagerId::Pnpm | PackageManagerId::YarnClassic | PackageManagerId::Bun => native_view("The target consumes npm-compatible registry configuration."@),
            PackageManagerId::YarnModern => transform_view("registry.npmrc-to-yarnrc"@, "Registry scopes require Yarn Modern configuration rendering."@),
            PackageManagerId::Vlt => transform_view("registry.npmrc-to-vlt"@, "Public registry mappings require vlt.json rendering; credentials stay external."@),
            PackageManagerId::Deno => native_view("Deno consumes npm-compatible registry configuration."@),
        }
    } else if feature == "lifecycle.trusted-dependencies"@ {
        match target {
            PackageManagerId::Bun => native_view("Bun natively represents trusted dependencies."@),
            PackageManagerId::Pnpm => transform_view("lifecycle.to-pnpm-build-policy"@, "Trusted dependencies require pnpm build policy rendering."@),
            PackageManagerId::YarnModern => transform_view("lifecycle.to-yarn-build-policy"@, "Trusted dependencies require Yarn build policy rendering."@),
            PackageManagerId::Npm | PackageManagerId::YarnClassic => lossy_view("lifecycle.to-global-script-policy"@, "Per-dependency lifecycle policy becomes a global script policy."@),
            PackageManagerId::Vlt | PackageManagerId::Deno => unsupported_view("The target lifecycle allow-list cannot be preserved with a script-free migration install."@),
        }
    } else {
        unknown_view("No capability rule is registered for "@ + feature + " on "@ + manager_name(target) + "."@)
    }
}

/// How `feature` carries over to `target`.
pub fn rule(feature: &str, target: PackageManagerId) -> (r: Outcome)
    ensures
        r@ == rule_spec(feature@, target),
{
    let f = chars_of(feature);
    if str_eq(&f, "workspace.manifest") {
        match target {
            PackageManagerId::Npm | PackageManagerId::Pnpm | PackageManagerId::YarnClassic | PackageManagerId::YarnModern | PackageManagerId::Bun => native_outcome("The target natively represents workspace membership."),
            PackageManagerId::Deno => transform_outcome("workspace.to-deno-workspace", "Deno requires workspace membership in Deno configuration."),
            PackageManagerId::Vlt => transform_outcome("workspace.to-vlt-workspace", "vlt requires workspace membership in vlt.json."),
        }
    } else if str_eq(&f, "workspace.negative-patterns") {
        match target {
            PackageManagerId::Pnpm | PackageManagerId::Bun => native_outcome("The target supports workspace exclusion patterns."),
            _ => unknown_outcome("Equivalent workspace exclusion behavior is not verified."),
        }
    } else if str_eq(&f, "dependency.workspace-protocol") {
        match target {
            PackageManagerId::Pnpm | PackageManagerId::YarnModern | PackageManagerId::Bun | PackageManagerId::Vlt | PackageManagerId::Deno => native_outcome("The target supports workspace specifiers."),
            PackageManagerId::Npm | PackageManagerId::YarnClassic => transform_outcome("workspace.expand-to-semver", "Workspace specifiers must be expanded to semver ranges."),
        }
    } else if str_eq(&f, "dependency.catalog-protocol") || str_eq(&f, "policy.catalogs") {
        match target {
            PackageManagerId::Pnpm | PackageManagerId::Bun => native_outcome("The target natively represents dependency catalogs."),
            PackageManagerId::Npm | PackageManagerId::YarnClassic | PackageManagerId::YarnModern => lossy_outcome("catalog.expand-to-range", "Catalog references must be expanded and centralized policy is lost."),
            PackageManagerId::Deno => lossy_outcome("catalog.expand-to-range", "Catalog references must be expanded for Deno dependency declarations."),
            PackageManagerId::Vlt => native_outcome("vlt natively represents dependency catalogs."),
        }
    } else if str_eq(&f, "dependency.patch-protocol") {
        match target {
            PackageManagerId::YarnModern => native_outcome("The target supports patch protocol dependencies."),
            PackageManagerId::Pnpm => transform_outcome("patch.yarn-to-pnpm", "Yarn patch entries require deterministic pnpm policy rendering."),
            PackageManagerId::Bun => transform_outcome("patch.yarn-to-bun", "Yarn patch entries require deterministic Bun policy rendering."),
            PackageManagerId::Vlt => unsupported_outcome("vlt has no supported patch protocol mapping in this adapter."),
            _ => unsupported_outcome("The target has no supported patch protocol equivalent."),
        }
    } else if str_eq(&f, "dependency.portal-protocol") {
        match target {
            PackageManagerId::YarnModern => native_outcome("The target supports portal dependencies."),
            PackageManagerId::Npm => lossy_outcome("portal.to-file", "Portal dependencies become file references."),
            PackageManagerId::Pnpm | PackageManagerId::YarnClassic => lossy_outcome("portal.to-link", "Portal dependencies become link references."),
            PackageManagerId::Bun => unknown_outcome("Portal semantics are not verified for the target."),
            PackageManagerId::Vlt => unsupported_outcome("vlt has no supported portal mapping in this adapter."),
            PackageManagerId::Deno => unsupported_outcome("Deno dependency mode has no portal equivalent."),
        }
    } else if str_eq(&f, "dependency.link-protocol") {
        match target {
            PackageManagerId::Pnpm | PackageManagerId::YarnClassic | PackageManagerId::YarnModern => native_outcome("The target supports link references."),
            PackageManagerId::Npm => lossy_outcome("link.to-file", "Link references become file references."),
            PackageManagerId::Bun => unknown_outcome("Link protocol parity is not verified for the target."),
            PackageManagerId::Vlt => unsupported_outcome("vlt has no supported link protocol mapping in this adapter."),
            PackageManagerId::Deno => unsupported_outcome("Deno dependency mode has no link protocol equivalent."),
        }
    } else if str_eq(&f, "dependency.deno-import-map") {
        match target {
            PackageManagerId::Deno => native_outcome("Deno preserves imports and scopes in its runtime configuration."),
            _ => unsupported_outcome("Deno import maps are outside the package-manager migration boundary."),
        }
    } else if str_eq(&f, "resolution.overrides") {
        match target {
            PackageManagerId::Npm | PackageManagerId::Bun => native_outcome("The target natively supports dependency overrides."),
            PackageManagerId::Pnpm => transform_outcome("overrides.to-pnpm", "Overrides must move into pnpm workspace settings."),
            PackageManagerId::YarnClassic | PackageManagerId::YarnModern => lossy_outcome("overrides.to-resolutions", "Overrides become Yarn resolutions with selector review."),
            PackageManagerId::Vlt => transform_outcome("overrides.to-vlt-modifiers", "Overrides require vlt graph modifier rendering."),
            PackageManagerId::Deno => native_outcome("Deno honors npm-compatible overrides in package.json."),
        }
    } else if str_eq(&f, "resolution.nested-overrides") {
        match target {
            PackageManagerId::Npm => native_outcome("npm supports nested override objects."),
            PackageManagerId::Pnpm => transform_outcome("overrides.nested-to-selector", "Nested overrides require pnpm selectors."),
            PackageManagerId::YarnClassic | PackageManagerId::YarnModern => lossy_outcome("overrides.nested-to-resolutions", "Nested overrides lose selector fidelity as Yarn resolutions."),
            PackageManagerId::Bun => unsupported_outcome("The target has no safe nested override mapping."),
            PackageManagerId::Vlt => transform_outcome("overrides.to-vlt-modifiers", "Nested overrides require contextual vlt dependency selectors."),
            PackageManagerId::Deno => native_outcome("Deno honors nested npm-compatible overrides in package.json."),
        }
    } else if str_eq(&f, "resolution.resolutions") {
        match target {
            PackageManagerId::YarnClassic | PackageManagerId::YarnModern | PackageManagerId::Bun => native_outcome("The target natively supports resolution policy."),
            PackageManagerId::Npm => transform_outcome("resolutions.to-overrides", "Resolutions require npm override rendering."),
            PackageManagerId::Pnpm => transform_outcome("resolutions.to-pnpm-overrides", "Resolutions require pnpm override rendering."),
            PackageManagerId::Vlt => transform_outcome("resolutions.to-vlt-modifiers", "Resolutions require vlt graph modifier rendering."),
            PackageManagerId::Deno => transform_outcome("resolutions.to-overrides", "Resolutions require Deno-compatible npm override rendering."),
        }
    } else if str_eq(&f, "resolution.package-extensions") {
        match target {
            PackageManagerId::Npm | PackageManagerId::Pnpm | PackageManagerId::YarnModern => native_outcome("The target supports package extensions."),
            PackageManagerId::Bun => unknown_outcome("Package extension parity is not verified."),
            PackageManagerId::Vlt => unsupported_outcome("vlt has no supported package extensions mapping."),
            PackageManagerId::YarnClassic | PackageManagerId::Deno => unsupported_outcome("The target has no package extensions mechanism."),
        }
    } else if str_eq(&f, "patch.patched-dependencies") {
        match target {
            PackageManagerId::Pnpm | PackageManagerId::Bun => native_outcome("The target supports patched dependency policy."),
            PackageManagerId::YarnModern => transform_outcome("patch.patched-to-yarn", "Patched dependencies require Yarn patch protocol rendering."),
            PackageManagerId::Vlt => unsupported_outcome("vlt has no supported patched dependency mapping."),
            _ => unsupported_outcome("The target has no supported patched dependency mechanism."),
        }
    } else if str_eq(&f, "install.pnp-linker") {
        match target {
            PackageManagerId::Pnpm | PackageManagerId::YarnModern => native_outcome("The target supports Plug and Play linking."),
            PackageManagerId::Npm | PackageManagerId::YarnClassic => lossy_outcome("linker.pnp-to-node-modules", "The migration switches from Plug and Play to node_modules."),
            PackageManagerId::Bun => lossy_outcome("linker.pnp-to-isolated", "The migration switches from Plug and Play to isolated linking."),
            PackageManagerId::Vlt => lossy_outcome("linker.pnp-to-isolated", "The migration switches from Plug and Play to vlt isolation."),
            PackageManagerId::Deno => lossy_outcome("linker.pnp-to-isolated", "The migration switches from Plug and Play to Deno isolation."),
        }
    } else if str_eq(&f, "install.isolated-linker") {
        match target {
            PackageManagerId::Pnpm | PackageManagerId::Bun => native_outcome("The target supports isolated linking."),
            PackageManagerId::YarnModern => transform_outcome("linker.isolated-to-yarn-pnpm", "The migration selects Yarn's pnpm linker."),
            PackageManagerId::Npm | PackageManagerId::YarnClassic => lossy_outcome("linker.isolated-to-hoisted", "The migration switches to a hoisted node_modules layout."),
            PackageManagerId::Vlt | PackageManagerId::Deno => native_outcome("The target supports isolated dependency linking."),
        }
    } else if str_eq(&f, "policy.yarn-constraints") {
        match target {
            PackageManagerId::YarnModern => native_outcome("The target executes Yarn constraints."),
            _ => unsupported_outcome("Arbitrary Yarn constraint logic cannot be translated safely."),
        }
    } else if str_eq(&f, "hook.pnpmfile") {
        match target {
            PackageManagerId::Pnpm => native_outcome("The target executes pnpm hook modules."),
            _ => unsupported_outcome("Arbitrary pnpm hook code cannot be translated safely."),
        }
    } else if str_eq(&f, "registry.npmrc") {
        match target {
            PackageManagerId::Npm | PackageManagerId::Pnpm | PackageManagerId::YarnClassic | PackageManagerId::Bun => native_outcome("The target consumes npm-compatible registry configuration."),
            PackageManagerId::YarnModern => transform_outcome("registry.npmrc-to-yarnrc", "Registry scopes require Yarn Modern configuration rendering."),
            PackageManagerId::Vlt => transform_outcome("registry.npmrc-to-vlt", "Public registry mappings require vlt.json rendering; credentials stay external."),
            PackageManagerId::Deno => native_outcome("Deno consumes npm-compatible registry configuration."),
        }
    } else if str_eq(&f, "lifecycle.trusted-dependencies") {
        match target {
            PackageManagerId::Bun => native_outcome("Bun natively represents trusted dependencies."),
            PackageManagerId::Pnpm => transform_outcome("lifecycle.to-pnpm-build-policy", "Trusted dependencies require pnpm build policy rendering."),
            PackageManagerId::YarnModern => transform_outcome("lifecycle.to-yarn-build-policy", "Trusted dependencies require Yarn build policy rendering."),
            PackageManagerId::Npm | PackageManagerId::YarnClassic => lossy_outcome("lifecycle.to-global-script-policy", "Per-dependency lifecycle policy becomes a global script policy."),
            PackageManagerId::Vlt | PackageManagerId::Deno => unsupported_outcome("The target lifecycle allow-list cannot be preserved with a script-free migration install."),
        }
    } else {
        let mut s: Vec<char> = Vec::new();
        push_str(&mut s, "No capability rule is registered for ");
        push_chars(&mut s, &f);
        push_str(&mut s, " on ");
        push_str(&mut s, target.as_str());
        push_str(&mut s, ".");
        unknown_outcome_chars(&s)
    }
}

/// The content of a capability decision.
pub struct DecisionView {
    pub feature_id: Seq<char>,
    pub target: PackageManagerId,
    pub classification: CapabilityClassification,
    pub risk: Seq<char>,
    pub transformation: Option<Seq<char>>,
    pub summary: Seq<char>,
    pub locations: Seq<Seq<char>>,
}

pub open spec fn decision_view(d: CapabilityDecision) -> DecisionView {
    DecisionView {
        feature_id: d.feature_id@,
        target: d.target,
        classification: d.classification,
        risk: d.risk@,
        transformation: match d.transformation_id {
            Some(t) => Some(t@),
            None => None,
        },
        summary: d.summary@,
        locations: strs(d.locations@),
    }
}

/// How a feature carries over: unchanged when source and target agree,
/// otherwise by the registered rule.
pub open spec fn feature_outcome(f: ObservedFeature, source: PackageManagerId, target: PackageManagerId) -> OutcomeView {
    if source == target {
        native_view(f.id@ + " remains on its source package manager."@)
    } else {
        rule_spec(f.id@, target)
    }
}

pub open spec fn decision_of(f: ObservedFeature, source: PackageManagerId, target: PackageManagerId) -> DecisionView {
    let o = feature_outcome(f, source, target);
    DecisionView {
        feature_id: f.id@,
        target,
        classification: o.classification,
        risk: o.risk,
        transformation: o.transformation,
        summary: o.summary,
        locations: strs(f.locations@),
    }
}

/// Inserts `e` after the last decision whose feature does not sort after it.
pub open spec fn insert_by_feature(s: Seq<DecisionView>, e: DecisionView) -> Seq<DecisionView>
    decreases s.len(),
{
    if s.len() == 0 {
        seq![e]
    } else if !seq_lt(e.feature_id, s.last().feature_id) {
        s.push(e)
    } else {
        insert_by_feature(s.drop_last(), e).push(s.last())
    }
}

/// The decisions ordered by feature identifier; equal identifiers keep their order.
pub open spec fn sort_by_feature(s: Seq<DecisionView>) -> Seq<DecisionView>
    decreases s.len(),
{
    if s.len() == 0 {
        seq![]
    } else {
        insert_by_feature(sort_by_feature(s.drop_last()), s.last())
    }
}

/// A project's decisions for `target`, ordered by feature.
pub open spec fn decisions_spec(ir: ProjectIr, source: PackageManagerId, target: PackageManagerId) -> Seq<DecisionView> {
    sort_by_feature(ir.features@.map_values(|f: ObservedFeature| decision_of(f, source, target)))
}

pub open spec fn count_class(s: Seq<DecisionView>, c: CapabilityClassification) -> nat
    decreases s.len(),
{
    if s.len() == 0 {
        0
    } else {
        count_class(s.drop_last(), c) + if s.last().classification == c { 1nat } else { 0nat }
    }
}

pub open spec fn evidence_of(d: DecisionView) -> Seq<(Seq<char>, Seq<char>)> {
    d.locations.map_values(|l: Seq<char>| (l, d.feature_id))
}

/// The diagnostic a decision raises: a warning for a lossy one, a blocking
/// error for an unsupported or unknown one.
pub open spec fn diagnostic_of(d: DecisionView) -> Option<DiagnosticView> {
    match d.classification {
        CapabilityClassification::Lossy => Some(DiagnosticView {
            code: "CAPABILITY_LOSSY"@,
            severity: DiagnosticSeverity::Warning,
            summary: d.summary,
            blocking: false,
            evidence: evidence_of(d),
            remediation: seq!["Review and explicitly accept the semantic compromise before apply."@],
        }),
        CapabilityClassification::Unsupported => Some(DiagnosticView {
            code: "CAPABILITY_UNSUPPORTED"@,
            severity: DiagnosticSeverity::Error,
            summary: d.summary,
            blocking: true,
            evidence: evidence_of(d),
            remediation: seq!["Remove the source capability, choose another target, or add a verified adapter rule."@],
        }),
        CapabilityClassification::Unknown => Some(DiagnosticView {
            code: "CAPABILITY_UNKNOWN"@,
            severity: DiagnosticSeverity::Error,
            summary: d.summary,
            blocking: true,
            evidence: evidence_of(d),
            remediation: seq!["Gather authoritative target evidence or choose a target with known support."@],
        }),
        _ => None,
    }
}

pub open spec fn diagnostics_spec(s: Seq<DecisionView>) -> Seq<DiagnosticView>
    decreases s.len(),
{
    if s.len() == 0 {
        seq![]
    } else {
        diagnostics_spec(s.drop_last()) + match diagnostic_of(s.last()) {
            Some(d) => seq![d],
            None => seq![],
        }
    }
}

pub open spec fn class_name(c: CapabilityClassification) -> Seq<char> {
    match c {
        CapabilityClassification::Native => "native"@,
        CapabilityClassification::Transform => "transform"@,
        CapabilityClassification::Lossy => "lossy"@,
        CapabilityClassification::Unsupported => "unsupported"@,
        CapabilityClassification::Unknown => "unknown"@,
        CapabilityClassification::NotApplicable => "not-applicable"@,
    }
}

/// The canonical text of a decision.
pub open spec fn decision_text(d: DecisionView) -> Seq<char> {
    frame(d.feature_id) + frame(manager_name(d.target)) + frame(class_name(d.classification)) + frame(d.risk)
        + frame(match d.transformation {
        Some(t) => t,
        None => ""@,
    }) + frame(d.summary) + frame_list(d.locations)
}

pub open spec fn decisions_text(s: Seq<DecisionView>) -> Seq<char>
    decreases s.len(),
{
    if s.len() == 0 {
        seq![]
    } else {
        decisions_text(s.drop_last()) + decision_text(s.last())
    }
}

pub open spec fn summary_text(s: CapabilitySummary) -> Seq<char> {
    frame_list(
        seq![
            decimal(s.native as nat),
            decimal(s.transform as nat),
            decimal(s.lossy as nat),
            decimal(s.unsupported as nat),
            decimal(s.unknown as nat),
            decimal(s.not_applicable as nat),
        ],
    )
}

/// Everything an analysis of `ir` from `source` to `target` states.
pub open spec fn analysis_of(a: CapabilityAnalysis, ir: ProjectIr, source: PackageManagerId, target: PackageManagerId) -> bool {
    let ds = decisions_spec(ir, source, target);
    &&& a.schema_version@ == SCHEMA_VERSION@
    &&& a.project_ir_id@ == ir.project_ir_id@
    &&& a.source == source
    &&& a.target == target
    &&& a.decisions@.map_values(|d: CapabilityDecision| decision_view(d)) == ds
    &&& a.summary.native == count_class(ds, CapabilityClassification::Native)
    &&& a.summary.transform == count_class(ds, CapabilityClassification::Transform)
    &&& a.summary.lossy == count_class(ds, CapabilityClassification::Lossy)
    &&& a.summary.unsupported == count_class(ds, CapabilityClassification::Unsupported)
    &&& a.summary.unknown == count_class(ds, CapabilityClassification::Unknown)
    &&& a.summary.not_applicable == count_class(ds, CapabilityClassification::NotApplicable)
    &&& a.diagnostics@.map_values(|d: Diagnostic| d@) == diagnostics_spec(ds)
    &&& a.analysis_id@ == short_digest_spec(
        "cap_"@,
        frame_list(seq![SCHEMA_VERSION@, ir.project_ir_id@, manager_name(source), manager_name(target)])
            + decisions_text(ds) + summary_text(a.summary),
    )
}

proof fn lemma_insert_by_feature(s: Seq<DecisionView>, e: DecisionView, j: int)
    requires
        0 <= j <= s.len(),
        forall|k: int| j <= k < s.len() ==> seq_lt(e.feature_id, #[trigger] s[k].feature_id),
        j == 0 || !seq_lt(e.feature_id, s[j - 1].feature_id),
    ensures
        insert_by_feature(s, e) == s.insert(j, e),
    decreases s.len(),
{
    if s.len() == 0 {
        assert(s.insert(j, e) =~= seq![e]);
    } else if !seq_lt(e.feature_id, s.last().feature_id) {
        assert(j == s.len());
        assert(s.insert(j, e) =~= s.push(e));
    } else {
        lemma_insert_by_feature(s.drop_last(), e, j);
        assert(s.drop_last().insert(j, e).push(s.last()) =~= s.insert(j, e));
    }
}

fn copy_strings(v: &Vec<String>) -> (r: Vec<String>)
    ensures
        strs(r@) == strs(v@),
{
    let mut r: Vec<String> = Vec::new();
    let mut i: usize = 0;
    while i < v.len()
        invariant
            i <= v.len(),
            strs(r@) == strs(v@).take(i as int),
        decreases v.len() - i,
    {
        let s = v[i].as_str().to_owned();
        let ghost before = r@;
        r.push(s);
        assert(strs(r@) =~= strs(before).push(s@));
        assert(strs(v@).take(i + 1) =~= strs(v@).take(i as int).push(v@[i as int]@));
        i = i + 1;
    }
    assert(strs(v@).take(v.len() as int) =~= strs(v@));
    r
}

fn decide(f: &ObservedFeature, source: PackageManagerId, target: PackageManagerId) -> (d: CapabilityDecision)
    ensures
        decision_view(d) == decision_of(*f, source, target),
{
    let outcome = if source == target {
        let mut s = chars_of(f.id.as_str());
        push_str(&mut s, " remains on its source package manager.");
        let o = Outcome { classification: CapabilityClassification::Native, risk: "none", transformation: None, summary: s };
        assert(o@ == native_view(f.id@ + " remains on its source package manager."@));
        o
    } else {
        rule(f.id.as_str(), target)
    };
    CapabilityDecision {
        feature_id: f.id.as_str().to_owned(),
        target,
        classification: outcome.classification,
        risk: outcome.risk.to_owned(),
        transformation_id: match outcome.transformation {
            Some(t) => Some(t.to_owned()),
            None => None,
        },
        summary: string_of(&outcome.summary),
        locations: copy_strings(&f.locations),
    }
}

fn evidence_exec(d: &CapabilityDecision) -> (r: Vec<EvidenceDetail>)
    ensures
        r@.map_values(|e: EvidenceDetail| e@) == evidence_of(decision_view(*d)),
{
    let mut r: Vec<EvidenceDetail> = Vec::new();
    let mut i: usize = 0;
    let ghost target = evidence_of(decision_view(*d));
    while i < d.locations.len()
        invariant
            i <= d.locations.len(),
            target == evidence_of(decision_view(*d)),
            r@.map_values(|e: EvidenceDetail| e@) == target.take(i as int),
        decreases d.locations.len() - i,
    {
        let e = EvidenceDetail { location: d.locations[i].as_str().to_owned(), detail: d.feature_id.as_str().to_owned() };
        let ghost before = r@;
        r.push(e);
        assert(r@.map_values(|e: EvidenceDetail| e@) =~= before.map_values(|e: EvidenceDetail| e@).push(e@));
        assert(target.take(i + 1) =~= target.take(i as int).push(target[i as int]));
        i = i + 1;
    }
    assert(target.take(d.locations.len() as int) =~= target);
    r
}

fn diagnostic_exec(d: &CapabilityDecision) -> (r: Option<Diagnostic>)
    ensures
        match r {
            Some(x) => diagnostic_of(decision_view(*d)) == Some(x@),
            None => diagnostic_of(decision_view(*d)) is None,
        },
{
    let (code, severity, blocking, remediation) = match d.classification {
        CapabilityClassification::Lossy => ("CAPABILITY_LOSSY", DiagnosticSeverity::Warning, false,
            "Review and explicitly accept the semantic compromise before apply."),
        CapabilityClassification::Unsupported => ("CAPABILITY_UNSUPPORTED", DiagnosticSeverity::Error, true,
            "Remove the source capability, choose another target, or add a verified adapter rule."),
        CapabilityClassification::Unknown => ("CAPABILITY_UNKNOWN", DiagnosticSeverity::Error, true,
            "Gather authoritative target evidence or choose a target with known support."),
        _ => {
            return None;
        },
    };
    let mut rem: Vec<String> = Vec::new();
    rem.push(remediation.to_owned());
    let x = Diagnostic {
        code: code.to_owned(),
        severity,
        summary: d.summary.as_str().to_owned(),
        blocking,
        evidence: evidence_exec(d),
        remediation: rem,
    };
    assert(x@.remediation =~= seq![remediation@]);
    Some(x)
}

fn push_class(out: &mut Vec<char>, c: CapabilityClassification)
    ensures
        final(out)@ == old(out)@ + class_name(c),
{
    match c {
        CapabilityClassification::Native => push_str(out, "native"),
        CapabilityClassification::Transform => push_str(out, "transform"),
        CapabilityClassification::Lossy => push_str(out, "lossy"),
        CapabilityClassification::Unsupported => push_str(out, "unsupported"),
        CapabilityClassification::Unknown => push_str(out, "unknown"),
        CapabilityClassification::NotApplicable => push_str(out, "not-applicable"),
    }
}

#[verifier::rlimit(30)]
fn push_decision_text(out: &mut Vec<char>, d: &CapabilityDecision)
    ensures
        final(out)@ == old(out)@ + decision_text(decision_view(*d)),
{
    push_frame(out, &chars_of(d.feature_id.as_str()));
    push_frame(out, &chars_of(d.target.as_str()));
    let mut c: Vec<char> = Vec::new();
    push_class(&mut c, d.classification);
    push_frame(out, &c);
    push_frame(out, &chars_of(d.risk.as_str()));
    let t: Vec<char> = match &d.transformation_id {
        Some(t) => chars_of(t.as_str()),
        None => chars_of(""),
    };
    proof {
        reveal_strlit("");
    }
    push_frame(out, &t);
    push_frame(out, &chars_of(d.summary.as_str()));
    let mut locs: Vec<Vec<char>> = Vec::new();
    let mut i: usize = 0;
    while i < d.locations.len()
        invariant
            i <= d.locations.len(),
            texts(locs@) == strs(d.locations@).take(i as int),
        decreases d.locations.len() - i,
    {
        let l = chars_of(d.locations[i].as_str());
        let ghost before = locs@;
        locs.push(l);
        proof {
            lemma_texts_push(before, l);
            assert(strs(d.locations@).take(i + 1) =~= strs(d.locations@).take(i as int).push(d.locations@[i as int]@));
        }
        i = i + 1;
    }
    assert(strs(d.locations@).take(d.locations.len() as int) =~= strs(d.locations@));
    push_frame_list(out, &locs);
    assert(out@ =~= old(out)@ + decision_text(decision_view(*d)));
}

/// The decisions a project's features get on `target`, ordered by feature,
/// with their summary and diagnostics; `None` when the project has no source
/// package manager.
pub fn analyze_capabilities(project_ir: &ProjectIr, target: PackageManagerId) -> (r: Result<
    Option<CapabilityAnalysis>,
    String,
>)
    ensures
        r is Ok,
        project_ir.source is None ==> r->Ok_0 is None,
        project_ir.source matches Some(s) ==> r->Ok_0 matches Some(a) && analysis_of(a, *project_ir, s, target),
{
    let source = match project_ir.source {
        Some(s) => s,
        None => {
            return Ok(None);
        },
    };
    let ghost unsorted = project_ir.features@.map_values(|f: ObservedFeature| decision_of(f, source, target));
    let mut decisions: Vec<CapabilityDecision> = Vec::new();
    let mut i: usize = 0;
    while i < project_ir.features.len()
        invariant
            i <= project_ir.features.len(),
            unsorted == project_ir.features@.map_values(|f: ObservedFeature| decision_of(f, source, target)),
            decisions@.map_values(|d: CapabilityDecision| decision_view(d)) == sort_by_feature(unsorted.take(i as int)),
        decreases project_ir.features.len() - i,
    {
        let d = decide(&project_ir.features[i], source, target);
        let ghost dv = decision_view(d);
        let ghost cur = decisions@.map_values(|d: CapabilityDecision| decision_view(d));
        let mut j = decisions.len();
        while j > 0 && crate::text::chars_lt(&chars_of(d.feature_id.as_str()), &chars_of(decisions[j - 1].feature_id.as_str()))
            invariant
                j <= decisions.len(),
                cur == decisions@.map_values(|d: CapabilityDecision| decision_view(d)),
                dv == decision_view(d),
                forall|k: int| j <= k < cur.len() ==> seq_lt(dv.feature_id, #[trigger] cur[k].feature_id),
            decreases j,
        {
            j = j - 1;
        }
        proof {
            lemma_insert_by_feature(cur, dv, j as int);
            assert(unsorted.take(i + 1).drop_last() =~= unsorted.take(i as int));
            assert(unsorted.take(i + 1).last() == dv);
        }
        decisions.insert(j, d);
        assert(decisions@.map_values(|d: CapabilityDecision| decision_view(d)) =~= cur.insert(j as int, dv));
        i = i + 1;
    }
    assert(unsorted.take(project_ir.features.len() as int) =~= unsorted);
    let ghost ds = decisions@.map_values(|d: CapabilityDecision| decision_view(d));
    let mut summary = CapabilitySummary { native: 0, transform: 0, lossy: 0, unsupported: 0, unknown: 0, not_applicable: 0 };
    let mut diagnostics: Vec<Diagnostic> = Vec::new();
    let mut text: Vec<char> = Vec::new();
    let mut ids: Vec<Vec<char>> = Vec::new();
    ids.push(chars_of(SCHEMA_VERSION));
    ids.push(chars_of(project_ir.project_ir_id.as_str()));
    ids.push(chars_of(source.as_str()));
    ids.push(chars_of(target.as_str()));
    push_frame_list(&mut text, &ids);
    let ghost head = text@;
    let mut k: usize = 0;
    while k < decisions.len()
        invariant
            k <= decisions.len(),
            ds == decisions@.map_values(|d: CapabilityDecision| decision_view(d)),
            summary.native == count_class(ds.take(k as int), CapabilityClassification::Native),
            summary.transform == count_class(ds.take(k as int), CapabilityClassification::Transform),
            summary.lossy == count_class(ds.take(k as int), CapabilityClassification::Lossy),
            summary.unsupported == count_class(ds.take(k as int), CapabilityClassification::Unsupported),
            summary.unknown == count_class(ds.take(k as int), CapabilityClassification::Unknown),
            summary.not_applicable == count_class(ds.take(k as int), CapabilityClassification::NotApplicable),
            summary.native + summary.transform + summary.lossy + summary.unsupported + summary.unknown + summary.not_applicable == k,
            diagnostics@.map_values(|d: Diagnostic| d@) == diagnostics_spec(ds.take(k as int)),
            text@ == head + decisions_text(ds.take(k as int)),
        decreases decisions.len() - k,
    {
        let d = &decisions[k];
        proof {
            assert(ds.take(k + 1).drop_last() =~= ds.take(k as int));
            assert(ds.take(k + 1).last() == decision_view(*d));
        }
        match d.classification {
            CapabilityClassification::Native => summary.native = summary.native + 1,
            CapabilityClassification::Transform => summary.transform = summary.transform + 1,
            CapabilityClassification::Lossy => summary.lossy = summary.lossy + 1,
            CapabilityClassification::Unsupported => summary.unsupported = summary.unsupported + 1,
            CapabilityClassification::Unknown => summary.unknown = summary.unknown + 1,
            CapabilityClassification::NotApplicable => summary.not_applicable = summary.not_applicable + 1,
        }
        let ghost before = diagnostics@;
        match diagnostic_exec(d) {
            Some(x) => {
                diagnostics.push(x);
                assert(diagnostics@.map_values(|d: Diagnostic| d@) =~= before.map_values(|d: Diagnostic| d@).push(x@));
            },
            None => {},
        }
        assert(diagnostics@.map_values(|d: Diagnostic| d@) =~= diagnostics_spec(ds.take(k + 1)));
        push_decision_text(&mut text, d);
        assert(text@ =~= head + decisions_text(ds.take(k + 1)));
        k = k + 1;
    }
    assert(ds.take(decisions.len() as int) =~= ds);
    let mut counts: Vec<Vec<char>> = Vec::new();
    counts.push(decimal_exec(summary.native));
    counts.push(decimal_exec(summary.transform));
    counts.push(decimal_exec(summary.lossy));
    counts.push(decimal_exec(summary.unsupported));
    counts.push(decimal_exec(summary.unknown));
    counts.push(decimal_exec(summary.not_applicable));
    push_frame_list(&mut text, &counts);
    proof {
        assert(texts(ids@) =~= seq![SCHEMA_VERSION@, project_ir.project_ir_id@, manager_name(source), manager_name(target)]);
        assert(texts(counts@) =~= seq![
            decimal(summary.native as nat),
            decimal(summary.transform as nat),
            decimal(summary.lossy as nat),
            decimal(summary.unsupported as nat),
            decimal(summary.unknown as nat),
            decimal(summary.not_applicable as nat),
        ]);
    }
    let analysis_id = short_digest("cap_", &text);
    Ok(Some(CapabilityAnalysis {
        schema_version: SCHEMA_VERSION.to_owned(),
        analysis_id,
        project_ir_id: project_ir.project_ir_id.as_str().to_owned(),
        source,
        target,
        decisions,
        summary,
        diagnostics,
    }))
}

/// Dependency overrides: npm, Bun and Deno read a manifest's `overrides`
/// as they are; pnpm and vlt rewrite them into their own settings; Yarn has
/// no `overrides` and turns them into `resolutions`, a lossy rewrite that
/// needs review (and so the acceptance of lossy changes).
pub proof fn law_overrides_per_target(t: PackageManagerId)
    ensures
        (rule_spec("resolution.overrides"@, t).classification == CapabilityClassification::Lossy) <==> (t
            == PackageManagerId::YarnClassic || t == PackageManagerId::YarnModern),
        (rule_spec("resolution.overrides"@, t).classification == CapabilityClassification::Native) <==> (t
            == PackageManagerId::Npm || t == PackageManagerId::Bun || t == PackageManagerId::Deno),
        (rule_spec("resolution.overrides"@, t).classification == CapabilityClassification::Transform) <==> (t
            == PackageManagerId::Pnpm || t == PackageManagerId::Vlt),
        (t == PackageManagerId::YarnClassic || t == PackageManagerId::YarnModern) ==> rule_spec(
            "resolution.overrides"@,
            t,
        ).transformation == Some("overrides.to-resolutions"@),
{
    let f = "resolution.overrides"@;
    reveal_strlit("resolution.overrides");
    reveal_strlit("workspace.manifest");
    reveal_strlit("workspace.negative-patterns");
    reveal_strlit("dependency.workspace-protocol");
    reveal_strlit("dependency.catalog-protocol");
    reveal_strlit("policy.catalogs");
    reveal_strlit("dependency.patch-protocol");
    reveal_strlit("dependency.portal-protocol");
    reveal_strlit("dependency.link-protocol");
    reveal_strlit("dependency.deno-import-map");
    assert(f[0] != "workspace.manifest"@[0]);
    assert(f[0] != "workspace.negative-patterns"@[0]);
    assert(f[0] != "dependency.workspace-protocol"@[0]);
    assert(f[0] != "dependency.catalog-protocol"@[0]);
    assert(f[0] != "policy.catalogs"@[0]);
    assert(f[0] != "dependency.patch-protocol"@[0]);
    assert(f[0] != "dependency.portal-protocol"@[0]);
    assert(f[0] != "dependency.link-protocol"@[0]);
    assert(f[0] != "dependency.deno-import-map"@[0]);
}

/// Every rule names a rewrite exactly when it transforms or loses fidelity,
/// and its risk follows its classification: none when native, medium when
/// transformed, high otherwise.
pub proof fn law_outcome_shape(feature: Seq<char>, t: PackageManagerId)
    ensures
        ({
            let o = rule_spec(feature, t);
            &&& (o.transformation is Some <==> (o.classification == CapabilityClassification::Transform
                || o.classification == CapabilityClassification::Lossy))
            &&& (o.classification == CapabilityClassification::Native ==> o.risk == "none"@)
            &&& (o.classification == CapabilityClassification::Transform ==> o.risk == "medium"@)
            &&& (o.classification == CapabilityClassification::Lossy ==> o.risk == "high"@)
        }),
{
}

/// Every decision is counted under exactly one classification.
pub proof fn law_summary_counts_every_decision(s: Seq<DecisionView>)
    ensures
        count_class(s, CapabilityClassification::Native) + count_class(s, CapabilityClassification::Transform)
            + count_class(s, CapabilityClassification::Lossy) + count_class(s, CapabilityClassification::Unsupported)
            + count_class(s, CapabilityClassification::Unknown) + count_class(s, CapabilityClassification::NotApplicable)
            == s.len(),
    decreases s.len(),
{
    if s.len() > 0 {
        law_summary_counts_every_decision(s.drop_last());
    }
}

/// Exactly the lossy, unsupported and unknown decisions raise diagnostics, and
/// exactly the unsupported and unknown ones block.
pub proof fn law_diagnostics_match_decisions(s: Seq<DecisionView>)
    ensures
        diagnostics_spec(s).len() == count_class(s, CapabilityClassification::Lossy) + count_class(
            s,
            CapabilityClassification::Unsupported,
        ) + count_class(s, CapabilityClassification::Unknown),
        forall|i: int| 0 <= i < diagnostics_spec(s).len() ==> (#[trigger] diagnostics_spec(s)[i]).blocking
            == (diagnostics_spec(s)[i].severity == DiagnosticSeverity::Error),
    decreases s.len(),
{
    if s.len() > 0 {
        law_diagnostics_match_decisions(s.drop_last());
        let prev = diagnostics_spec(s.drop_last());
        let tail = match diagnostic_of(s.last()) {
            Some(d) => seq![d],
            None => seq![],
        };
        assert(diagnostics_spec(s) == prev + tail);
        assert forall|i: int| 0 <= i < diagnostics_spec(s).len() implies (#[trigger] diagnostics_spec(s)[i]).blocking
            == (diagnostics_spec(s)[i].severity == DiagnosticSeverity::Error) by {
            if i < prev.len() {
                assert(diagnostics_spec(s)[i] == prev[i]);
            }
        }
    }
}

} // verus!
