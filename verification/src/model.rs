//! The data model of inspections, project representations, capability
//! analyses, lock graphs, plans, runs and verification reports.
use vstd::prelude::*;

use crate::policy::{PackagePlatformConstraint, VerificationPolicy};
use crate::text::{chars_of, is_ws, trim, trim_end};

verus! {

pub const SCHEMA_VERSION: &'static str = "1.0";

/// The package managers the library can migrate between.
#[derive(Debug, Clone, Copy, PartialEq, Eq, Structural, Hash)]
pub enum PackageManagerId {
    Npm,
    Pnpm,
    YarnClassic,
    YarnModern,
    Bun,
    Vlt,
    Deno,
}

/// The canonical kebab-case name of a package manager.
pub open spec fn manager_name(id: PackageManagerId) -> Seq<char> {
    match id {
        PackageManagerId::Npm => "npm"@,
        PackageManagerId::Pnpm => "pnpm"@,
        PackageManagerId::YarnClassic => "yarn-classic"@,
        PackageManagerId::YarnModern => "yarn-modern"@,
        PackageManagerId::Bun => "bun"@,
        PackageManagerId::Vlt => "vlt"@,
        PackageManagerId::Deno => "deno"@,
    }
}

/// Position of a package manager in the declaration order (the derived order).
pub open spec fn manager_rank(id: PackageManagerId) -> int {
    match id {
        PackageManagerId::Npm => 0,
        PackageManagerId::Pnpm => 1,
        PackageManagerId::YarnClassic => 2,
        PackageManagerId::YarnModern => 3,
        PackageManagerId::Bun => 4,
        PackageManagerId::Vlt => 5,
        PackageManagerId::Deno => 6,
    }
}

/// ASCII lower-casing of one character.
pub open spec fn ascii_lower(c: char) -> char {
    if 'A' <= c && c <= 'Z' {
        (((c as u8) + 32) as u8) as char
    } else {
        c
    }
}

pub open spec fn ascii_lowercase(s: Seq<char>) -> Seq<char> {
    s.map_values(|c: char| ascii_lower(c))
}

/// The package manager that a (trimmed, case-insensitive) name or alias denotes.
pub open spec fn parse_manager_spec(value: Seq<char>) -> Option<PackageManagerId> {
    let v = ascii_lowercase(trim(value));
    if v == "npm"@ {
        Some(PackageManagerId::Npm)
    } else if v == "pnpm"@ {
        Some(PackageManagerId::Pnpm)
    } else if v == "yarn-classic"@ || v == "yarn@1"@ || v == "yarn-1"@ {
        Some(PackageManagerId::YarnClassic)
    } else if v == "yarn-modern"@ || v == "yarn-berry"@ || v == "yarn@modern"@ {
        Some(PackageManagerId::YarnModern)
    } else if v == "bun"@ {
        Some(PackageManagerId::Bun)
    } else if v == "vlt"@ {
        Some(PackageManagerId::Vlt)
    } else if v == "deno"@ {
        Some(PackageManagerId::Deno)
    } else {
        None
    }
}

/// A name of plain lower-case ASCII letters, digits, `-` and `@` is its own
/// trimmed, lower-cased form.
pub proof fn lemma_plain_name(s: Seq<char>)
    requires
        s.len() > 0,
        forall|i: int|
            0 <= i < s.len() ==> ('a' <= #[trigger] s[i] <= 'z') || ('0' <= s[i] <= '9') || s[i] == '-' || s[i]
                == '@',
    ensures
        trim(s) == s,
        ascii_lowercase(s) == s,
{
    assert(!is_ws(s[0]));
    assert(!is_ws(s.last()));
    assert(crate::text::trim_start(s) == s);
    assert(ascii_lowercase(s) =~= s);
}

/// Every package manager's own name denotes it.
pub proof fn law_manager_name_round_trip(id: PackageManagerId)
    ensures
        parse_manager_spec(manager_name(id)) == Some(id),
{
    reveal_strlit("npm");
    reveal_strlit("pnpm");
    reveal_strlit("yarn-classic");
    reveal_strlit("yarn@1");
    reveal_strlit("yarn-1");
    reveal_strlit("yarn-modern");
    reveal_strlit("yarn-berry");
    reveal_strlit("yarn@modern");
    reveal_strlit("bun");
    reveal_strlit("vlt");
    reveal_strlit("deno");
    let n = manager_name(id);
    lemma_plain_name(n);
    match id {
        PackageManagerId::YarnModern => {
            assert(n[5] != "yarn-classic"@[5]);
            assert(n.len() != "yarn@1"@.len());
            assert(n.len() != "yarn-1"@.len());
        },
        PackageManagerId::YarnClassic => {},
        PackageManagerId::Vlt => {
            assert(n[0] != "bun"@[0]);
        },
        PackageManagerId::Deno => {
            assert(n[0] != "bun"@[0]);
            assert(n[0] != "vlt"@[0]);
        },
        _ => {},
    }
}

proof fn lemma_trim_end_prefix(u: Seq<char>)
    ensures
        trim_end(u).len() <= u.len(),
        trim_end(u) == u.take(trim_end(u).len() as int),
        trim_end(u).len() > 0 ==> !is_ws(trim_end(u).last()),
    decreases u.len(),
{
    if u.len() > 0 && is_ws(u.last()) {
        lemma_trim_end_prefix(u.drop_last());
        let n = trim_end(u.drop_last()).len() as int;
        assert(u.drop_last().take(n) =~= u.take(n));
    } else {
        assert(u.take(u.len() as int) =~= u);
    }
}

/// Trimming then lower-casing a name already trimmed and lower-cased
/// changes nothing.
pub proof fn lemma_normalized_name(s: Seq<char>)
    ensures
        ascii_lowercase(trim(ascii_lowercase(trim(s)))) == ascii_lowercase(trim(s)),
{
    let u = crate::text::trim_start(s);
    crate::text::lemma_trim_start_shape(s);
    lemma_trim_end_prefix(u);
    let t = trim(s);
    let l = ascii_lowercase(t);
    assert(l.len() == t.len());
    if t.len() > 0 {
        assert(t[0] == u[0]);
        assert(!is_ws(t[0]));
        assert(!is_ws(t.last()));
        assert(l[0] == ascii_lower(t[0]));
        assert(l.last() == ascii_lower(t.last()));
        assert(!is_ws(l[0]));
        assert(!is_ws(l.last()));
        assert(crate::text::trim_start(l) == l);
        assert(trim_end(l) == l);
    } else {
        assert(l.len() == 0);
        assert(crate::text::trim_start(l) == l);
        assert(trim_end(l) == l);
    }
    assert(trim(l) == l);
    assert forall|i: int| 0 <= i < l.len() implies ascii_lower(#[trigger] l[i]) == l[i] by {
        assert(l[i] == ascii_lower(t[i]));
    }
    assert(ascii_lowercase(l) =~= l);
}

/// A package-manager name denotes what its trimmed, lower-cased form
/// denotes.
pub proof fn law_manager_name_normalizes(s: Seq<char>)
    ensures
        parse_manager_spec(s) == parse_manager_spec(ascii_lowercase(trim(s))),
{
    lemma_normalized_name(s);
}

pub fn ascii_lower_exec(c: char) -> (r: char)
    ensures
        r == ascii_lower(c),
{
    if 'A' <= c && c <= 'Z' {
        let b = (c as u8) + 32;
        b as char
    } else {
        c
    }
}

/// ASCII lower-casing of a character sequence.
pub fn ascii_lowercase_exec(s: &[char]) -> (r: Vec<char>)
    ensures
        r@ == ascii_lowercase(s@),
{
    let mut r: Vec<char> = Vec::new();
    let mut i: usize = 0;
    while i < s.len()
        invariant
            i <= s.len(),
            r@ =~= s@.take(i as int).map_values(|c: char| ascii_lower(c)),
        decreases s.len() - i,
    {
        r.push(ascii_lower_exec(s[i]));
        i = i + 1;
    }
    assert(s@.take(s.len() as int) =~= s@);
    r
}

impl PackageManagerId {

    /// The package manager a (trimmed, case-insensitive) name or alias denotes.
    pub fn parse(value: &str) -> (r: Option<PackageManagerId>)
        ensures
            r == parse_manager_spec(value@),
    {
        let t = crate::text::trimmed(&crate::text::chars_of(value));
        let v = ascii_lowercase_exec(&t);
        if crate::text::str_eq(&v, "npm") {
            Some(PackageManagerId::Npm)
        } else if crate::text::str_eq(&v, "pnpm") {
            Some(PackageManagerId::Pnpm)
        } else if crate::text::str_eq(&v, "yarn-classic") || crate::text::str_eq(&v, "yarn@1")
            || crate::text::str_eq(&v, "yarn-1") {
            Some(PackageManagerId::YarnClassic)
        } else if crate::text::str_eq(&v, "yarn-modern") || crate::text::str_eq(&v, "yarn-berry")
            || crate::text::str_eq(&v, "yarn@modern") {
            Some(PackageManagerId::YarnModern)
        } else if crate::text::str_eq(&v, "bun") {
            Some(PackageManagerId::Bun)
        } else if crate::text::str_eq(&v, "vlt") {
            Some(PackageManagerId::Vlt)
        } else if crate::text::str_eq(&v, "deno") {
            Some(PackageManagerId::Deno)
        } else {
            None
        }
    }
    /// The canonical name, as it is written on the command line.
    pub fn as_str(self) -> (r: &'static str)
        ensures
            r@ == manager_name(self),
    {
        match self {
            PackageManagerId::Npm => "npm",
            PackageManagerId::Pnpm => "pnpm",
            PackageManagerId::YarnClassic => "yarn-classic",
            PackageManagerId::YarnModern => "yarn-modern",
            PackageManagerId::Bun => "bun",
            PackageManagerId::Vlt => "vlt",
            PackageManagerId::Deno => "deno",
        }
    }

    /// Whether `self` comes before `other` in declaration order.
    pub fn precedes(self, other: PackageManagerId) -> (r: bool)
        ensures
            r == (manager_rank(self) < manager_rank(other)),
    {
        self.rank() < other.rank()
    }

    pub fn rank(self) -> (r: u8)
        ensures
            r as int == manager_rank(self),
    {
        match self {
            PackageManagerId::Npm => 0,
            PackageManagerId::Pnpm => 1,
            PackageManagerId::YarnClassic => 2,
            PackageManagerId::YarnModern => 3,
            PackageManagerId::Bun => 4,
            PackageManagerId::Vlt => 5,
            PackageManagerId::Deno => 6,
        }
    }
}

/// Whether two package managers are the same one.
pub fn same_manager(a: PackageManagerId, b: PackageManagerId) -> (r: bool)
    ensures
        r == (a == b),
{
    a == b
}

#[derive(Debug, Clone, Copy, PartialEq, Eq, Structural)]
pub enum SupportTier {
    ProductionTarget,
    PreviewTarget,
}

#[derive(Debug, Clone, Copy, PartialEq, Eq, Structural)]
pub enum DiagnosticSeverity {
    Info,
    Warning,
    Error,
}

#[derive(Debug, Clone, PartialEq, Eq)]
pub struct EvidenceDetail {
    pub location: String,
    pub detail: String,
}

#[derive(Debug, Clone, PartialEq, Eq)]
pub struct Diagnostic {
    pub code: String,
    pub severity: DiagnosticSeverity,
    pub summary: String,
    pub blocking: bool,
    pub evidence: Vec<EvidenceDetail>,
    pub remediation: Vec<String>,
}

/// The mathematical content of a diagnostic.
pub struct DiagnosticView {
    pub code: Seq<char>,
    pub severity: DiagnosticSeverity,
    pub summary: Seq<char>,
    pub blocking: bool,
    pub evidence: Seq<(Seq<char>, Seq<char>)>,
    pub remediation: Seq<Seq<char>>,
}

impl View for EvidenceDetail {
    type V = (Seq<char>, Seq<char>);

    open spec fn view(&self) -> (Seq<char>, Seq<char>) {
        (self.location@, self.detail@)
    }
}

impl View for Diagnostic {
    type V = DiagnosticView;

    open spec fn view(&self) -> DiagnosticView {
        DiagnosticView {
            code: self.code@,
            severity: self.severity,
            summary: self.summary@,
            blocking: self.blocking,
            evidence: self.evidence@.map_values(|e: EvidenceDetail| e@),
            remediation: self.remediation@.map_values(|r: String| r@),
        }
    }
}

pub open spec fn diagnostics_view(v: Seq<Diagnostic>) -> Seq<DiagnosticView> {
    v.map_values(|d: Diagnostic| d@)
}

/// A blocking error diagnostic with one piece of evidence and one remediation.
pub open spec fn blocking_view(
    code: Seq<char>,
    summary: Seq<char>,
    location: Seq<char>,
    detail: Seq<char>,
    remediation: Seq<char>,
) -> DiagnosticView {
    DiagnosticView {
        code,
        severity: DiagnosticSeverity::Error,
        summary,
        blocking: true,
        evidence: seq![(location, detail)],
        remediation: seq![remediation],
    }
}

/// A blocking diagnostic with one evidence entry and one remediation line.
pub fn blocking_with_evidence(
    code: &str,
    summary: &str,
    location: &str,
    detail: &str,
    remediation: &str,
) -> (d: Diagnostic)
    ensures
        d@ == blocking_view(code@, summary@, location@, detail@, remediation@),
{
    let mut evidence = Vec::new();
    evidence.push(EvidenceDetail { location: location.to_owned(), detail: detail.to_owned() });
    let mut rem = Vec::new();
    rem.push(remediation.to_owned());
    let d = Diagnostic {
        code: code.to_owned(),
        severity: DiagnosticSeverity::Error,
        summary: summary.to_owned(),
        blocking: true,
        evidence,
        remediation: rem,
    };
    assert(d@.evidence =~= seq![(location@, detail@)]);
    assert(d@.remediation =~= seq![remediation@]);
    d
}

impl Diagnostic {
    /// A blocking error diagnostic without evidence.
    pub fn blocking(code: &str, summary: &str, remediation: Vec<String>) -> (d: Diagnostic)
        ensures
            d.code@ == code@,
            d.severity == DiagnosticSeverity::Error,
            d.summary@ == summary@,
            d.blocking,
            d.evidence@.len() == 0,
            d.remediation == remediation,
    {
        Diagnostic {
            code: code.to_owned(),
            severity: DiagnosticSeverity::Error,
            summary: summary.to_owned(),
            blocking: true,
            evidence: Vec::new(),
            remediation,
        }
    }
}

#[derive(Debug, Clone, Copy, PartialEq, Eq, Structural)]
pub enum EvidenceKind {
    Manifest,
    Lockfile,
    Configuration,
    Workspace,
}

#[derive(Debug, Clone, PartialEq, Eq)]
pub struct PackageManagerEvidence {
    pub manager: PackageManagerId,
    pub kind: EvidenceKind,
    pub location: String,
    pub detail: String,
    pub weight: u16,
}

#[derive(Debug, Clone, Copy, PartialEq, Eq, Structural)]
pub enum Confidence {
    High,
    Medium,
    Low,
}

#[derive(Debug, Clone, PartialEq, Eq)]
pub struct PackageManagerCandidate {
    pub manager: PackageManagerId,
    pub score: u16,
    pub confidence: Confidence,
    pub evidence: Vec<PackageManagerEvidence>,
}

#[derive(Debug, Clone, PartialEq, Eq)]
pub struct PackageManagerDetection {
    pub selected: Option<PackageManagerId>,
    pub candidates: Vec<PackageManagerCandidate>,
    pub evidence: Vec<PackageManagerEvidence>,
    pub diagnostics: Vec<Diagnostic>,
}

#[derive(Debug, Clone, PartialEq, Eq)]
pub struct ManifestInspection {
    pub path: String,
    pub name: Option<String>,
    pub private: Option<bool>,
    pub package_manager: Option<String>,
}

#[derive(Debug, Clone, PartialEq, Eq)]
pub struct WorkspaceSource {
    pub location: String,
    pub patterns: Vec<String>,
}

#[derive(Debug, Clone, PartialEq, Eq)]
pub struct WorkspaceInspection {
    pub configured: bool,
    pub sources: Vec<WorkspaceSource>,
}

#[derive(Debug, Clone, Copy, PartialEq, Eq, Structural)]
pub enum IntegrationKind {
    Ci,
    Container,
    Documentation,
    Automation,
}

#[derive(Debug, Clone, PartialEq, Eq)]
pub struct IntegrationInspection {
    pub kind: IntegrationKind,
    pub path: String,
    pub package_manager_tokens: Vec<String>,
}

#[derive(Debug, Clone, PartialEq, Eq)]
pub struct ProjectInspection {
    pub root: String,
    pub fingerprint: String,
    pub relevant_files: Vec<String>,
    pub manifest: Option<ManifestInspection>,
    pub package_manager: PackageManagerDetection,
    pub workspace: WorkspaceInspection,
    pub integrations: Vec<IntegrationInspection>,
    pub diagnostics: Vec<Diagnostic>,
}

#[derive(Debug, Clone, Copy, PartialEq, Eq, Structural)]
pub enum DependencyProtocol {
    Semver,
    Tag,
    Workspace,
    Catalog,
    NpmAlias,
    File,
    Link,
    Portal,
    Patch,
    Git,
    Url,
    Jsr,
    Unknown,
}

#[derive(Debug, Clone, PartialEq, Eq)]
pub struct DependencyIr {
    pub package_path: String,
    pub section: String,
    pub name: String,
    pub specifier: String,
    pub protocol: DependencyProtocol,
    pub location: String,
}

#[derive(Debug, Clone, PartialEq, Eq)]
pub struct PackageIr {
    pub path: String,
    pub manifest_path: String,
    pub name: Option<String>,
    pub version: Option<String>,
    pub private: Option<bool>,
    pub dependencies: Vec<DependencyIr>,
    pub script_names: Vec<String>,
}

#[derive(Debug, Clone, PartialEq, Eq)]
pub struct ObservedFeature {
    pub id: String,
    pub count: usize,
    pub locations: Vec<String>,
}

#[derive(Debug, Clone, PartialEq, Eq)]
pub struct ProjectIr {
    pub schema_version: String,
    pub project_ir_id: String,
    pub repository_fingerprint: String,
    pub source: Option<PackageManagerId>,
    pub root_package_path: String,
    pub packages: Vec<PackageIr>,
    pub workspace_patterns: Vec<String>,
    pub features: Vec<ObservedFeature>,
    pub integrations: Vec<IntegrationInspection>,
    pub diagnostics: Vec<Diagnostic>,
}

#[derive(Debug, Clone, PartialEq, Eq)]
pub struct LockGraphNode {
    pub locator: String,
    pub name: String,
    pub version: String,
    pub integrity: Option<String>,
    pub platform: PackagePlatformConstraint,
}

#[derive(Debug, Clone, PartialEq, Eq)]
pub struct LockGraphEdge {
    pub from: String,
    pub dependency: String,
    pub kind: String,
    pub target: Option<String>,
}

#[derive(Debug, Clone, PartialEq, Eq)]
pub struct LockGraph {
    pub schema_version: String,
    pub graph_id: String,
    pub manager: PackageManagerId,
    pub lockfile_path: String,
    pub lockfile_digest: String,
    pub format: String,
    pub complete: bool,
    pub nodes: Vec<LockGraphNode>,
    pub edges: Vec<LockGraphEdge>,
    pub diagnostics: Vec<Diagnostic>,
}

#[derive(Debug, Clone, Copy, PartialEq, Eq, Structural)]
pub enum CapabilityClassification {
    Native,
    Transform,
    Lossy,
    Unsupported,
    Unknown,
    NotApplicable,
}

#[derive(Debug, Clone, PartialEq, Eq)]
pub struct CapabilityDecision {
    pub feature_id: String,
    pub target: PackageManagerId,
    pub classification: CapabilityClassification,
    pub risk: String,
    pub transformation_id: Option<String>,
    pub summary: String,
    pub locations: Vec<String>,
}

#[derive(Debug, Clone, Copy, PartialEq, Eq, Structural, Default)]
pub struct CapabilitySummary {
    pub native: usize,
    pub transform: usize,
    pub lossy: usize,
    pub unsupported: usize,
    pub unknown: usize,
    pub not_applicable: usize,
}

#[derive(Debug, Clone, PartialEq, Eq)]
pub struct CapabilityAnalysis {
    pub schema_version: String,
    pub analysis_id: String,
    pub project_ir_id: String,
    pub source: PackageManagerId,
    pub target: PackageManagerId,
    pub decisions: Vec<CapabilityDecision>,
    pub summary: CapabilitySummary,
    pub diagnostics: Vec<Diagnostic>,
}

#[derive(Debug, Clone, Copy, PartialEq, Eq, Structural)]
pub enum SideEffect {
    NoEffect,
    RepositoryWrite,
    FilesystemWrite,
    DependencyState,
    ProcessExecution,
}

#[derive(Debug, Clone, Copy, PartialEq, Eq, Structural)]
pub enum MutationAction {
    Write,
    Delete,
}

#[derive(Debug, Clone, PartialEq, Eq)]
pub struct PlannedFileMutation {
    pub path: String,
    pub action: MutationAction,
    pub before_digest: Option<String>,
    pub after_digest: Option<String>,
    pub content: Option<String>,
    pub reason: String,
    pub capabilities: Vec<String>,
}

#[derive(Debug, Clone, PartialEq, Eq)]
pub struct PlannedOperation {
    pub id: String,
    pub phase: String,
    pub kind: String,
    pub description: String,
    pub paths: Vec<String>,
    pub command: Vec<String>,
    pub timeout_seconds: Option<u64>,
    pub capabilities: Vec<String>,
    pub side_effect: SideEffect,
    pub reversible: bool,
    pub preconditions: Vec<String>,
    pub postconditions: Vec<String>,
    pub mutations: Vec<PlannedFileMutation>,
}

#[derive(Debug, Clone, Copy, PartialEq, Eq, Structural)]
pub enum NativeImportMode {
    DedicatedCommand,
    InstallIntegrated,
}

#[derive(Debug, Clone, PartialEq, Eq)]
pub struct NativeImportStrategy {
    pub id: String,
    pub source: PackageManagerId,
    pub target: PackageManagerId,
    pub mode: NativeImportMode,
    pub command: Vec<String>,
    pub summary: String,
}

#[derive(Debug, Clone, PartialEq, Eq)]
pub struct ExecutableRequirement {
    pub program: String,
    pub required_version: String,
    pub version_command: Vec<String>,
    pub package_manager_pin: String,
}

#[derive(Debug, Clone, PartialEq, Eq)]
pub struct ResolvedExecutable {
    pub program: String,
    pub path: String,
    pub version: String,
    pub package_manager_pin: String,
}

#[derive(Debug, Clone, PartialEq, Eq)]
pub struct MigrationPlan {
    pub schema_version: String,
    pub plan_id: String,
    pub executable: bool,
    pub accepted_lossy: bool,
    pub source: PackageManagerId,
    pub target: PackageManagerId,
    pub target_tier: SupportTier,
    pub repository_fingerprint: String,
    pub project_ir_id: String,
    pub capability_analysis_id: String,
    pub capability_summary: CapabilitySummary,
    pub source_lock_graph_id: Option<String>,
    pub native_import: Option<NativeImportStrategy>,
    pub target_executable: Option<ExecutableRequirement>,
    pub verification_policy: VerificationPolicy,
    pub operations: Vec<PlannedOperation>,
    pub diagnostics: Vec<Diagnostic>,
    pub verification: Vec<String>,
}

#[derive(Debug, Clone, PartialEq, Eq)]
pub struct NextAction {
    pub argv: Vec<String>,
    pub requires_approval: bool,
    pub side_effect: SideEffect,
}

#[derive(Debug, Clone, Copy, PartialEq, Eq, Structural)]
pub enum CommandStatus {
    Completed,
    Planned,
    Blocked,
    Unsupported,
    Failed,
    RolledBack,
}

#[derive(Debug, Clone, PartialEq, Eq)]
pub struct StoredRun {
    pub schema_version: String,
    pub run_id: String,
    pub plan: MigrationPlan,
    pub state: String,
    pub snapshot_directory: String,
    pub snapshot_entries: Vec<SnapshotEntry>,
    pub dependency_state_cleanups: Vec<DependencyStateCleanupRecord>,
    pub target_executable: Option<ResolvedExecutable>,
    pub processes: Vec<ProcessExecutionRecord>,
    pub diagnostics: Vec<Diagnostic>,
}

#[derive(Debug, Clone, PartialEq, Eq)]
pub struct StoredPlan {
    pub schema_version: String,
    pub plan: MigrationPlan,
    pub project_ir: ProjectIr,
    pub capability_analysis: CapabilityAnalysis,
    pub source_lock_graph: Option<LockGraph>,
}

#[derive(Debug, Clone, PartialEq, Eq)]
pub struct SnapshotEntry {
    pub path: String,
    pub existed: bool,
    pub digest: Option<String>,
    pub mode: Option<u32>,
    pub backup_path: Option<String>,
}

#[derive(Debug, Clone, PartialEq, Eq)]
pub struct ProcessExecutionRecord {
    pub operation_id: String,
    pub argv: Vec<String>,
    pub exit_code: Option<i32>,
    pub stdout: String,
    pub stderr: String,
    pub success: bool,
    pub timed_out: bool,
    pub duration_millis: Option<u64>,
}

#[derive(Debug, Clone, PartialEq, Eq)]
pub struct DependencyStateCleanupRecord {
    pub operation_id: String,
    pub removed_paths: Vec<String>,
    pub absent_paths: Vec<String>,
}

#[derive(Debug, Clone, Copy, PartialEq, Eq, Structural)]
pub enum VerificationStatus {
    Passed,
    Failed,
    Skipped,
}

#[derive(Debug, Clone, PartialEq, Eq)]
pub struct VerificationCheck {
    pub id: String,
    pub status: VerificationStatus,
    pub summary: String,
    pub evidence: Vec<String>,
}

#[derive(Debug, Clone, PartialEq, Eq)]
pub struct LockGraphComparison {
    pub comparison_id: String,
    pub policy: String,
    pub status: VerificationStatus,
    pub source_graph_id: String,
    pub target_graph_id: Option<String>,
    pub source_resolutions: usize,
    pub target_resolutions: usize,
    pub added_resolutions: Vec<String>,
    pub removed_resolutions: Vec<String>,
    pub integrity_mismatches: Vec<String>,
    pub edge_changes: Vec<String>,
    pub verification_policy: VerificationPolicy,
    pub pruned_source_resolutions: Vec<String>,
    pub pruned_target_resolutions: Vec<String>,
    pub optional_platform_differences: Vec<String>,
    pub reachability_issues: Vec<String>,
}

#[derive(Debug, Clone, PartialEq, Eq)]
pub struct VerificationReport {
    pub schema_version: String,
    pub report_id: String,
    pub run_id: String,
    pub plan_id: String,
    pub status: VerificationStatus,
    pub checks: Vec<VerificationCheck>,
    pub diagnostics: Vec<Diagnostic>,
    pub lock_graph_comparison: Option<LockGraphComparison>,
}

#[derive(Debug, Clone, PartialEq, Eq)]
pub struct ApplyOutcome {
    pub run: StoredRun,
    pub verification: Option<VerificationReport>,
}

#[derive(Debug, Clone, PartialEq, Eq)]
pub struct TrialReport {
    pub schema_version: String,
    pub report_id: String,
    pub plan_id: String,
    pub status: VerificationStatus,
    pub repository_unchanged: bool,
    pub dependency_state_cleanups: Vec<DependencyStateCleanupRecord>,
    pub processes: Vec<ProcessExecutionRecord>,
    pub verification: Option<VerificationReport>,
    pub diagnostics: Vec<Diagnostic>,
}

/// The mathematical content of an integration file's inspection.
pub struct IntegrationView {
    pub kind: IntegrationKind,
    pub path: Seq<char>,
    pub package_manager_tokens: Seq<Seq<char>>,
}

impl View for IntegrationInspection {
    type V = IntegrationView;

    open spec fn view(&self) -> IntegrationView {
        IntegrationView {
            kind: self.kind,
            path: self.path@,
            package_manager_tokens: crate::text::strs(self.package_manager_tokens@),
        }
    }
}

fn duplicate_strings(v: &Vec<String>) -> (r: Vec<String>)
    ensures
        crate::text::strs(r@) == crate::text::strs(v@),
{
    let mut r: Vec<String> = Vec::new();
    let mut i: usize = 0;
    while i < v.len()
        invariant
            i <= v.len(),
            crate::text::strs(r@) == crate::text::strs(v@).take(i as int),
        decreases v.len() - i,
    {
        let s = v[i].as_str().to_owned();
        let ghost before = r@;
        r.push(s);
        assert(crate::text::strs(r@) =~= crate::text::strs(before).push(s@));
        assert(crate::text::strs(v@).take(i + 1) =~= crate::text::strs(v@).take(i as int).push(v@[i as int]@));
        i = i + 1;
    }
    assert(crate::text::strs(v@).take(v.len() as int) =~= crate::text::strs(v@));
    r
}

impl IntegrationInspection {
    /// A copy with the same content.
    pub fn duplicate(&self) -> (r: Self)
        ensures
            r@ == self@,
    {
        IntegrationInspection {
            kind: self.kind,
            path: self.path.as_str().to_owned(),
            package_manager_tokens: duplicate_strings(&self.package_manager_tokens),
        }
    }
}

impl Diagnostic {
    /// A copy with the same content.
    pub fn duplicate(&self) -> (r: Self)
        ensures
            r@ == self@,
    {
        let mut evidence: Vec<EvidenceDetail> = Vec::new();
        let mut i: usize = 0;
        while i < self.evidence.len()
            invariant
                i <= self.evidence.len(),
                evidence@.map_values(|e: EvidenceDetail| e@) == self.evidence@.map_values(
                    |e: EvidenceDetail| e@,
                ).take(i as int),
            decreases self.evidence.len() - i,
        {
            let e = EvidenceDetail {
                location: self.evidence[i].location.as_str().to_owned(),
                detail: self.evidence[i].detail.as_str().to_owned(),
            };
            let ghost before = evidence@;
            evidence.push(e);
            assert(evidence@.map_values(|e: EvidenceDetail| e@) =~= before.map_values(|e: EvidenceDetail| e@).push(e@));
            assert(self.evidence@.map_values(|e: EvidenceDetail| e@).take(i + 1) =~= self.evidence@.map_values(
                |e: EvidenceDetail| e@,
            ).take(i as int).push(self.evidence@[i as int]@));
            i = i + 1;
        }
        assert(self.evidence@.map_values(|e: EvidenceDetail| e@).take(self.evidence.len() as int)
            =~= self.evidence@.map_values(|e: EvidenceDetail| e@));
        let remediation = duplicate_strings(&self.remediation);
        let r = Diagnostic {
            code: self.code.as_str().to_owned(),
            severity: self.severity,
            summary: self.summary.as_str().to_owned(),
            blocking: self.blocking,
            evidence,
            remediation,
        };
        assert(r@.remediation =~= self@.remediation);
        r
    }
}

} // verus!
