//! Which package manager a repository uses, judged from its manifest's
//! `packageManager` field and the lockfiles and configuration files present.
use vstd::prelude::*;
use crate::model::{
    ascii_lowercase, ascii_lowercase_exec, manager_name, manager_rank, Confidence, Diagnostic,
    DiagnosticSeverity, DiagnosticView, EvidenceDetail, EvidenceKind, PackageManagerCandidate,
    PackageManagerDetection, PackageManagerEvidence, PackageManagerId,
};
use crate::text::{
    chars_of, lemma_rfind_char_bounds, push_chars, push_str, rfind_char, rfind_char_exec, seq_lt,
    slice_of, starts_with, str_eq, str_starts_with, string_of, strs,
};

verus! {

/// The package manager a `packageManager` value such as `pnpm@9.1.0` names
/// (Yarn 1.x is Yarn Classic, any other Yarn version Yarn Modern).
pub open spec fn manager_from_field(v: Seq<char>) -> Option<PackageManagerId> {
    match rfind_char(v, '@') {
        None => None,
        Some(i) => {
            let name = v.take(i);
            let version = v.skip(i + 1);
            let n = ascii_lowercase(name);
            if name.len() == 0 || version.len() == 0 {
                None
            } else if n == "npm"@ {
                Some(PackageManagerId::Npm)
            } else if n == "pnpm"@ {
                Some(PackageManagerId::Pnpm)
            } else if n == "bun"@ {
                Some(PackageManagerId::Bun)
            } else if n == "vlt"@ {
                Some(PackageManagerId::Vlt)
            } else if n == "deno"@ {
                Some(PackageManagerId::Deno)
            } else if n == "yarn"@ {
                if version == "1"@ || starts_with(version, "1."@) {
                    Some(PackageManagerId::YarnClassic)
                } else {
                    Some(PackageManagerId::YarnModern)
                }
            } else {
                None
            }
        },
    }
}

/// A Yarn `packageManager` value names Yarn Classic exactly for version 1
/// (`1` or `1.` followed by anything) and Yarn Modern for any other version,
/// whatever the case of the name.
pub proof fn law_yarn_version_decides(name: Seq<char>, version: Seq<char>)
    requires
        ascii_lowercase(name) == "yarn"@,
        version.len() > 0,
        forall|j: int| 0 <= j < version.len() ==> version[j] != '@',
    ensures
        manager_from_field(name + "@"@ + version) == if version == seq!['1'] || (version.len() >= 2 && version[0]
            == '1' && version[1] == '.') {
            Some(PackageManagerId::YarnClassic)
        } else {
            Some(PackageManagerId::YarnModern)
        },
{
    reveal_strlit("@");
    reveal_strlit("yarn");
    reveal_strlit("npm");
    reveal_strlit("pnpm");
    reveal_strlit("bun");
    reveal_strlit("vlt");
    reveal_strlit("deno");
    reveal_strlit("1");
    reveal_strlit("1.");
    let v = name + "@"@ + version;
    let i = name.len() as int;
    assert(v[i] == '@');
    assert forall|j: int| i < j < v.len() implies v[j] != '@' by {
        assert(v[j] == version[j - i - 1]);
    }
    crate::text::lemma_rfind_char_last(v, '@', i);
    assert(v.take(i) =~= name);
    assert(v.skip(i + 1) =~= version);
    assert(ascii_lowercase(name).len() == name.len());
    assert("yarn"@.len() == 4);
    assert(name.len() == 4);
    assert("npm"@.len() == 3);
    assert(ascii_lowercase(name) != "npm"@);
    assert(ascii_lowercase(name)[0] != "pnpm"@[0]);
    assert(ascii_lowercase(name)[0] != "bun"@[0]);
    assert(ascii_lowercase(name)[0] != "vlt"@[0]);
    assert(ascii_lowercase(name)[0] != "deno"@[0]);
    assert("1"@ =~= seq!['1']);
    assert(starts_with(version, "1."@) <==> (version.len() >= 2 && version[0] == '1' && version[1] == '.')) by {
        if version.len() >= 2 {
            assert(version.take(2) =~= seq![version[0], version[1]]);
        }
    }
}

/// A `packageManager` value `name@version` (a non-empty version without `@`)
/// names npm, pnpm, Bun, vlt or Deno when the name, lower-cased, is that
/// manager's, and nothing when the name is none of these nor Yarn's.
pub proof fn law_field_names_manager(name: Seq<char>, version: Seq<char>)
    requires
        version.len() > 0,
        forall|j: int| 0 <= j < version.len() ==> version[j] != '@',
    ensures
        ascii_lowercase(name) == "npm"@ ==> manager_from_field(name + "@"@ + version) == Some(PackageManagerId::Npm),
        ascii_lowercase(name) == "pnpm"@ ==> manager_from_field(name + "@"@ + version) == Some(PackageManagerId::Pnpm),
        ascii_lowercase(name) == "bun"@ ==> manager_from_field(name + "@"@ + version) == Some(PackageManagerId::Bun),
        ascii_lowercase(name) == "vlt"@ ==> manager_from_field(name + "@"@ + version) == Some(PackageManagerId::Vlt),
        ascii_lowercase(name) == "deno"@ ==> manager_from_field(name + "@"@ + version) == Some(PackageManagerId::Deno),
        ascii_lowercase(name) != "npm"@ && ascii_lowercase(name) != "pnpm"@ && ascii_lowercase(name) != "bun"@
            && ascii_lowercase(name) != "vlt"@ && ascii_lowercase(name) != "deno"@ && ascii_lowercase(name)
            != "yarn"@ ==> manager_from_field(name + "@"@ + version) is None,
{
    reveal_strlit("@");
    let v = name + "@"@ + version;
    let i = name.len() as int;
    assert(v[i] == '@');
    assert forall|j: int| i < j < v.len() implies v[j] != '@' by {
        assert(v[j] == version[j - i - 1]);
    }
    crate::text::lemma_rfind_char_last(v, '@', i);
    assert(v.take(i) =~= name);
    assert(v.skip(i + 1) =~= version);
    assert(ascii_lowercase(name).len() == name.len());
    reveal_strlit("npm");
    reveal_strlit("pnpm");
    reveal_strlit("bun");
    reveal_strlit("vlt");
    reveal_strlit("deno");
    if name.len() == 0 {
        assert(ascii_lowercase(name) =~= Seq::<char>::empty());
    }
    let n = ascii_lowercase(name);
    if n == "bun"@ {
        assert(n[0] != "npm"@[0]);
    }
    if n == "vlt"@ {
        assert(n[0] != "npm"@[0]);
        assert(n[0] != "bun"@[0]);
    }
    if n == "deno"@ {
        assert(n[0] != "pnpm"@[0]);
    }
}

/// The package manager a manifest's `packageManager` field declares.
pub fn manager_from_package_manager_field(value: &str) -> (r: Option<PackageManagerId>)
    ensures
        r == manager_from_field(value@),
{
    let v = chars_of(value);
    proof {
        lemma_rfind_char_bounds(v@, '@');
    }
    let i = match rfind_char_exec(&v, '@') {
        Some(i) => i,
        None => {
            return None;
        },
    };
    let name = slice_of(&v, 0, i);
    assert(name@ =~= v@.take(i as int));
    let version = slice_of(&v, i + 1, v.len());
    assert(version@ =~= v@.skip(i + 1));
    if name.len() == 0 || version.len() == 0 {
        return None;
    }
    let n = ascii_lowercase_exec(&name);
    if str_eq(&n, "npm") {
        Some(PackageManagerId::Npm)
    } else if str_eq(&n, "pnpm") {
        Some(PackageManagerId::Pnpm)
    } else if str_eq(&n, "bun") {
        Some(PackageManagerId::Bun)
    } else if str_eq(&n, "vlt") {
        Some(PackageManagerId::Vlt)
    } else if str_eq(&n, "deno") {
        Some(PackageManagerId::Deno)
    } else if str_eq(&n, "yarn") {
        if str_eq(&version, "1") || str_starts_with(&version, "1.") {
            Some(PackageManagerId::YarnClassic)
        } else {
            Some(PackageManagerId::YarnModern)
        }
    } else {
        None
    }
}

/// A file whose presence is evidence for a package manager.
pub struct FileSignal {
    pub manager: PackageManagerId,
    pub kind: EvidenceKind,
    pub location: &'static str,
    pub detail: &'static str,
    pub weight: u16,
}

pub struct SignalView {
    pub manager: PackageManagerId,
    pub kind: EvidenceKind,
    pub location: Seq<char>,
    pub detail: Seq<char>,
    pub weight: u16,
}

impl View for FileSignal {
    type V = SignalView;

    open spec fn view(&self) -> SignalView {
        SignalView {
            manager: self.manager,
            kind: self.kind,
            location: self.location@,
            detail: self.detail@,
            weight: self.weight,
        }
    }
}

/// The files that count as evidence, in the order they are examined.
pub open spec fn file_signal(i: int) -> SignalView {
    if i == 0 {
        SignalView { manager: PackageManagerId::Npm, kind: EvidenceKind::Lockfile, location: "package-lock.json"@, detail: "npm lockfile exists"@, weight: 80 }
    } else if i == 1 {
        SignalView { manager: PackageManagerId::Npm, kind: EvidenceKind::Lockfile, location: "npm-shrinkwrap.json"@, detail: "npm shrinkwrap exists"@, weight: 90 }
    } else if i == 2 {
        SignalView { manager: PackageManagerId::Pnpm, kind: EvidenceKind::Lockfile, location: "pnpm-lock.yaml"@, detail: "pnpm lockfile exists"@, weight: 80 }
    } else if i == 3 {
        SignalView { manager: PackageManagerId::Pnpm, kind: EvidenceKind::Workspace, location: "pnpm-workspace.yaml"@, detail: "pnpm workspace configuration exists"@, weight: 45 }
    } else if i == 4 {
        SignalView { manager: PackageManagerId::Pnpm, kind: EvidenceKind::Configuration, location: ".pnpmfile.cjs"@, detail: "pnpm hook configuration exists"@, weight: 45 }
    } else if i == 5 {
        SignalView { manager: PackageManagerId::YarnClassic, kind: EvidenceKind::Configuration, location: ".yarnrc"@, detail: "Yarn Classic configuration exists"@, weight: 75 }
    } else if i == 6 {
        SignalView { manager: PackageManagerId::YarnModern, kind: EvidenceKind::Configuration, location: ".yarnrc.yml"@, detail: "Yarn Modern configuration exists"@, weight: 90 }
    } else if i == 7 {
        SignalView { manager: PackageManagerId::YarnModern, kind: EvidenceKind::Configuration, location: ".pnp.cjs"@, detail: "Yarn Plug and Play loader exists"@, weight: 70 }
    } else if i == 8 {
        SignalView { manager: PackageManagerId::Bun, kind: EvidenceKind::Lockfile, location: "bun.lock"@, detail: "Bun text lockfile exists"@, weight: 85 }
    } else if i == 9 {
        SignalView { manager: PackageManagerId::Bun, kind: EvidenceKind::Lockfile, location: "bun.lockb"@, detail: "Bun binary lockfile exists"@, weight: 80 }
    } else if i == 10 {
        SignalView { manager: PackageManagerId::Bun, kind: EvidenceKind::Configuration, location: "bunfig.toml"@, detail: "Bun configuration exists"@, weight: 40 }
    } else if i == 11 {
        SignalView { manager: PackageManagerId::Vlt, kind: EvidenceKind::Lockfile, location: "vlt-lock.json"@, detail: "vlt lockfile exists"@, weight: 85 }
    } else if i == 12 {
        SignalView { manager: PackageManagerId::Vlt, kind: EvidenceKind::Configuration, location: "vlt.json"@, detail: "vlt configuration exists"@, weight: 40 }
    } else if i == 13 {
        SignalView { manager: PackageManagerId::Deno, kind: EvidenceKind::Lockfile, location: "deno.lock"@, detail: "Deno lockfile exists"@, weight: 55 }
    } else if i == 14 {
        SignalView { manager: PackageManagerId::Deno, kind: EvidenceKind::Configuration, location: "deno.json"@, detail: "Deno JSON configuration exists"@, weight: 55 }
    } else {
        SignalView { manager: PackageManagerId::Deno, kind: EvidenceKind::Configuration, location: "deno.jsonc"@, detail: "Deno JSONC configuration exists"@, weight: 55 }
    }
}

fn file_signal_exec(i: usize) -> (s: FileSignal)
    requires
        i < 16,
    ensures
        s@ == file_signal(i as int),
{
    if i == 0 {
        FileSignal { manager: PackageManagerId::Npm, kind: EvidenceKind::Lockfile, location: "package-lock.json", detail: "npm lockfile exists", weight: 80 }
    } else if i == 1 {
        FileSignal { manager: PackageManagerId::Npm, kind: EvidenceKind::Lockfile, location: "npm-shrinkwrap.json", detail: "npm shrinkwrap exists", weight: 90 }
    } else if i == 2 {
        FileSignal { manager: PackageManagerId::Pnpm, kind: EvidenceKind::Lockfile, location: "pnpm-lock.yaml", detail: "pnpm lockfile exists", weight: 80 }
    } else if i == 3 {
        FileSignal { manager: PackageManagerId::Pnpm, kind: EvidenceKind::Workspace, location: "pnpm-workspace.yaml", detail: "pnpm workspace configuration exists", weight: 45 }
    } else if i == 4 {
        FileSignal { manager: PackageManagerId::Pnpm, kind: EvidenceKind::Configuration, location: ".pnpmfile.cjs", detail: "pnpm hook configuration exists", weight: 45 }
    } else if i == 5 {
        FileSignal { manager: PackageManagerId::YarnClassic, kind: EvidenceKind::Configuration, location: ".yarnrc", detail: "Yarn Classic configuration exists", weight: 75 }
    } else if i == 6 {
        FileSignal { manager: PackageManagerId::YarnModern, kind: EvidenceKind::Configuration, location: ".yarnrc.yml", detail: "Yarn Modern configuration exists", weight: 90 }
    } else if i == 7 {
        FileSignal { manager: PackageManagerId::YarnModern, kind: EvidenceKind::Configuration, location: ".pnp.cjs", detail: "Yarn Plug and Play loader exists", weight: 70 }
    } else if i == 8 {
        FileSignal { manager: PackageManagerId::Bun, kind: EvidenceKind::Lockfile, location: "bun.lock", detail: "Bun text lockfile exists", weight: 85 }
    } else if i == 9 {
        FileSignal { manager: PackageManagerId::Bun, kind: EvidenceKind::Lockfile, location: "bun.lockb", detail: "Bun binary lockfile exists", weight: 80 }
    } else if i == 10 {
        FileSignal { manager: PackageManagerId::Bun, kind: EvidenceKind::Configuration, location: "bunfig.toml", detail: "Bun configuration exists", weight: 40 }
    } else if i == 11 {
        FileSignal { manager: PackageManagerId::Vlt, kind: EvidenceKind::Lockfile, location: "vlt-lock.json", detail: "vlt lockfile exists", weight: 85 }
    } else if i == 12 {
        FileSignal { manager: PackageManagerId::Vlt, kind: EvidenceKind::Configuration, location: "vlt.json", detail: "vlt configuration exists", weight: 40 }
    } else if i == 13 {
        FileSignal { manager: PackageManagerId::Deno, kind: EvidenceKind::Lockfile, location: "deno.lock", detail: "Deno lockfile exists", weight: 55 }
    } else if i == 14 {
        FileSignal { manager: PackageManagerId::Deno, kind: EvidenceKind::Configuration, location: "deno.json", detail: "Deno JSON configuration exists", weight: 55 }
    } else {
        FileSignal { manager: PackageManagerId::Deno, kind: EvidenceKind::Configuration, location: "deno.jsonc", detail: "Deno JSONC configuration exists", weight: 55 }
    }
}

pub struct EvidenceView {
    pub manager: PackageManagerId,
    pub kind: EvidenceKind,
    pub location: Seq<char>,
    pub detail: Seq<char>,
    pub weight: u16,
}

pub open spec fn evidence_view(e: PackageManagerEvidence) -> EvidenceView {
    EvidenceView { manager: e.manager, kind: e.kind, location: e.location@, detail: e.detail@, weight: e.weight }
}

pub open spec fn evidence_views(s: Seq<PackageManagerEvidence>) -> Seq<EvidenceView> {
    s.map_values(|e: PackageManagerEvidence| evidence_view(e))
}

pub open spec fn signal_evidence(s: SignalView) -> EvidenceView {
    EvidenceView { manager: s.manager, kind: s.kind, location: s.location, detail: s.detail, weight: s.weight }
}

/// The evidence a file signal contributes.
pub fn evidence(signal: &FileSignal) -> (e: PackageManagerEvidence)
    ensures
        evidence_view(e) == signal_evidence(signal@),
{
    PackageManagerEvidence {
        manager: signal.manager,
        kind: signal.kind,
        location: signal.location.to_owned(),
        detail: signal.detail.to_owned(),
        weight: signal.weight,
    }
}

pub open spec fn confidence_of(score: int) -> Confidence {
    if score >= 100 {
        Confidence::High
    } else if score >= 70 {
        Confidence::Medium
    } else {
        Confidence::Low
    }
}

/// How sure a score makes the detection.
pub fn confidence(score: u16) -> (c: Confidence)
    ensures
        c == confidence_of(score as int),
{
    if score >= 100 {
        Confidence::High
    } else if score >= 70 {
        Confidence::Medium
    } else {
        Confidence::Low
    }
}

pub open spec fn yarn_evidence(m: PackageManagerId, detail: Seq<char>, weight: u16) -> EvidenceView {
    EvidenceView { manager: m, kind: EvidenceKind::Lockfile, location: "yarn.lock"@, detail, weight }
}

/// Evidence from the manifest's `packageManager` field.
pub open spec fn manifest_evidence(pm: Option<Seq<char>>) -> Seq<EvidenceView> {
    match pm {
        Some(v) => match manager_from_field(v) {
            Some(m) => seq![
                EvidenceView {
                    manager: m,
                    kind: EvidenceKind::Manifest,
                    location: "package.json"@,
                    detail: "packageManager declares "@ + v,
                    weight: 120,
                },
            ],
            None => seq![],
        },
        None => seq![],
    }
}

/// Evidence from the first `n` file signals whose files are present.
pub open spec fn signals_from(present: Set<Seq<char>>, n: int) -> Seq<EvidenceView>
    decreases n,
{
    if n <= 0 {
        seq![]
    } else {
        signals_from(present, n - 1) + if present.contains(file_signal(n - 1).location) {
            seq![signal_evidence(file_signal(n - 1))]
        } else {
            seq![]
        }
    }
}

pub open spec fn has_config(ev: Seq<EvidenceView>, m: PackageManagerId) -> bool {
    exists|i: int| 0 <= i < ev.len() && #[trigger] ev[i].manager == m && ev[i].kind == EvidenceKind::Configuration
}

/// Evidence from `yarn.lock`, which modern or classic configuration disambiguates.
pub open spec fn yarn_lock_evidence(before: Seq<EvidenceView>, present: Set<Seq<char>>) -> Seq<EvidenceView> {
    if !present.contains("yarn.lock"@) {
        seq![]
    } else if has_config(before, PackageManagerId::YarnModern) {
        seq![yarn_evidence(PackageManagerId::YarnModern, "Yarn lockfile is paired with modern configuration"@, 70)]
    } else if has_config(before, PackageManagerId::YarnClassic) {
        seq![yarn_evidence(PackageManagerId::YarnClassic, "Yarn lockfile is paired with classic configuration"@, 70)]
    } else {
        seq![
            yarn_evidence(PackageManagerId::YarnClassic, "Yarn lockfile version is not disambiguated"@, 60),
            yarn_evidence(PackageManagerId::YarnModern, "Yarn lockfile version is not disambiguated"@, 60),
        ]
    }
}

/// All evidence, in the order it is gathered.
pub open spec fn all_evidence(pm: Option<Seq<char>>, present: Set<Seq<char>>) -> Seq<EvidenceView> {
    let b = manifest_evidence(pm) + signals_from(present, 16);
    b + yarn_lock_evidence(b, present)
}

/// Stable insertion after the last item whose location does not sort after `e`'s.
pub open spec fn insert_by_location(s: Seq<EvidenceView>, e: EvidenceView) -> Seq<EvidenceView>
    decreases s.len(),
{
    if s.len() == 0 {
        seq![e]
    } else if !seq_lt(e.location, s.last().location) {
        s.push(e)
    } else {
        insert_by_location(s.drop_last(), e).push(s.last())
    }
}

pub open spec fn sort_by_location(s: Seq<EvidenceView>) -> Seq<EvidenceView>
    decreases s.len(),
{
    if s.len() == 0 {
        seq![]
    } else {
        insert_by_location(sort_by_location(s.drop_last()), s.last())
    }
}

/// Evidence order for the final listing: by location, then by package manager.
pub open spec fn loc_manager_lt(a: EvidenceView, b: EvidenceView) -> bool {
    seq_lt(a.location, b.location) || (a.location == b.location && manager_rank(a.manager) < manager_rank(b.manager))
}

pub open spec fn insert_by_loc_manager(s: Seq<EvidenceView>, e: EvidenceView) -> Seq<EvidenceView>
    decreases s.len(),
{
    if s.len() == 0 {
        seq![e]
    } else if !loc_manager_lt(e, s.last()) {
        s.push(e)
    } else {
        insert_by_loc_manager(s.drop_last(), e).push(s.last())
    }
}

pub open spec fn sort_by_loc_manager(s: Seq<EvidenceView>) -> Seq<EvidenceView>
    decreases s.len(),
{
    if s.len() == 0 {
        seq![]
    } else {
        insert_by_loc_manager(sort_by_loc_manager(s.drop_last()), s.last())
    }
}

pub open spec fn weight_sum(s: Seq<EvidenceView>) -> int
    decreases s.len(),
{
    if s.len() == 0 {
        0
    } else {
        weight_sum(s.drop_last()) + s.last().weight
    }
}

pub struct CandidateView {
    pub manager: PackageManagerId,
    pub score: int,
    pub confidence: Confidence,
    pub evidence: Seq<EvidenceView>,
}

pub open spec fn candidate_view(c: PackageManagerCandidate) -> CandidateView {
    CandidateView { manager: c.manager, score: c.score as int, confidence: c.confidence, evidence: evidence_views(c.evidence@) }
}

pub open spec fn manager_at(i: int) -> PackageManagerId {
    if i == 0 {
        PackageManagerId::Npm
    } else if i == 1 {
        PackageManagerId::Pnpm
    } else if i == 2 {
        PackageManagerId::YarnClassic
    } else if i == 3 {
        PackageManagerId::YarnModern
    } else if i == 4 {
        PackageManagerId::Bun
    } else if i == 5 {
        PackageManagerId::Vlt
    } else {
        PackageManagerId::Deno
    }
}

/// A manager's evidence, ordered by location.
pub open spec fn manager_items(ev: Seq<EvidenceView>, m: PackageManagerId) -> Seq<EvidenceView> {
    sort_by_location(ev.filter(|e: EvidenceView| e.manager == m))
}

/// The candidates of the first `k` managers (in declaration order) that have evidence.
pub open spec fn grouped(ev: Seq<EvidenceView>, k: int) -> Seq<CandidateView>
    decreases k,
{
    if k <= 0 {
        seq![]
    } else {
        let items = manager_items(ev, manager_at(k - 1));
        grouped(ev, k - 1) + if items.len() > 0 {
            seq![
                CandidateView {
                    manager: manager_at(k - 1),
                    score: weight_sum(items),
                    confidence: confidence_of(weight_sum(items)),
                    evidence: items,
                },
            ]
        } else {
            seq![]
        }
    }
}

/// Candidate order: higher score first, then declaration order.
pub open spec fn candidate_lt(a: CandidateView, b: CandidateView) -> bool {
    a.score > b.score || (a.score == b.score && manager_rank(a.manager) < manager_rank(b.manager))
}

pub open spec fn insert_candidate(s: Seq<CandidateView>, e: CandidateView) -> Seq<CandidateView>
    decreases s.len(),
{
    if s.len() == 0 {
        seq![e]
    } else if !candidate_lt(e, s.last()) {
        s.push(e)
    } else {
        insert_candidate(s.drop_last(), e).push(s.last())
    }
}

pub open spec fn sort_candidates(s: Seq<CandidateView>) -> Seq<CandidateView>
    decreases s.len(),
{
    if s.len() == 0 {
        seq![]
    } else {
        insert_candidate(sort_candidates(s.drop_last()), s.last())
    }
}

pub open spec fn candidates_spec(ev: Seq<EvidenceView>) -> Seq<CandidateView> {
    sort_candidates(grouped(ev, 7))
}

/// Each candidate's evidence as `location` and `manager: detail`.
pub open spec fn flatten_evidence(cs: Seq<CandidateView>) -> Seq<(Seq<char>, Seq<char>)>
    decreases cs.len(),
{
    if cs.len() == 0 {
        seq![]
    } else {
        flatten_evidence(cs.drop_last()) + cs.last().evidence.map_values(
            |e: EvidenceView| (e.location, manager_name(cs.last().manager) + ": "@ + e.detail),
        )
    }
}

pub open spec fn not_detected() -> DiagnosticView {
    DiagnosticView {
        code: "PM_SOURCE_NOT_DETECTED"@,
        severity: DiagnosticSeverity::Error,
        summary: "No supported package manager evidence was detected."@,
        blocking: true,
        evidence: seq![],
        remediation: seq!["Add an explicit packageManager field or select a source when that option becomes available."@],
    }
}

pub open spec fn ambiguous(evidence: Seq<(Seq<char>, Seq<char>)>) -> DiagnosticView {
    DiagnosticView {
        code: "PM_SOURCE_AMBIGUOUS"@,
        severity: DiagnosticSeverity::Error,
        summary: "Package manager evidence is ambiguous."@,
        blocking: true,
        evidence,
        remediation: seq!["Review conflicting evidence and make the intended source explicit."@],
    }
}

pub open spec fn conflicting(selected: PackageManagerId, evidence: Seq<(Seq<char>, Seq<char>)>) -> DiagnosticView {
    DiagnosticView {
        code: "PM_CONFLICTING_EVIDENCE"@,
        severity: DiagnosticSeverity::Warning,
        summary: manager_name(selected) + " was selected, but other strong package manager evidence exists."@,
        blocking: false,
        evidence,
        remediation: seq!["Confirm that additional lockfiles or configuration are stale before apply."@],
    }
}

pub open spec fn unknown_field(v: Seq<char>) -> DiagnosticView {
    DiagnosticView {
        code: "PM_PACKAGE_MANAGER_FIELD_UNKNOWN"@,
        severity: DiagnosticSeverity::Warning,
        summary: "The packageManager field is not recognized: "@ + v,
        blocking: false,
        evidence: seq![("package.json"@, "Unrecognized packageManager value"@)],
        remediation: seq!["Use a supported package manager name with an explicit version."@],
    }
}

/// The selected manager and the diagnostic about the choice: none without
/// evidence, none when the leader scores under 60 or leads by under 25, and
/// otherwise the leader, with a warning about other candidates scoring 70 or more.
pub open spec fn selection(cs: Seq<CandidateView>) -> (Option<PackageManagerId>, Seq<DiagnosticView>) {
    if cs.len() == 0 {
        (None, seq![not_detected()])
    } else if cs[0].score < 60 || (cs.len() > 1 && cs[0].score - cs[1].score < 25) {
        (None, seq![ambiguous(flatten_evidence(cs.take(if cs.len() < 3 { cs.len() as int } else { 3 })))])
    } else {
        let sel = cs[0].manager;
        let conflicts = cs.filter(|c: CandidateView| c.manager != sel && c.score >= 70);
        (Some(sel), if conflicts.len() > 0 {
            seq![conflicting(sel, flatten_evidence(conflicts))]
        } else {
            seq![]
        })
    }
}

pub open spec fn field_diagnostics(pm: Option<Seq<char>>) -> Seq<DiagnosticView> {
    match pm {
        Some(v) => if manager_from_field(v) is None {
            seq![unknown_field(v)]
        } else {
            seq![]
        },
        None => seq![],
    }
}

/// What a detection from the `packageManager` field `pm` and the files
/// `present` states.
pub open spec fn detection_of(d: PackageManagerDetection, pm: Option<Seq<char>>, present: Set<Seq<char>>) -> bool {
    let ev = all_evidence(pm, present);
    let cs = candidates_spec(ev);
    &&& d.selected == selection(cs).0
    &&& d.candidates@.map_values(|c: PackageManagerCandidate| candidate_view(c)) == cs
    &&& evidence_views(d.evidence@) == sort_by_loc_manager(ev)
    &&& d.diagnostics@.map_values(|x: Diagnostic| x@) == field_diagnostics(pm) + selection(cs).1
}

pub(crate) fn manager_at_exec(i: usize) -> (m: PackageManagerId)
    requires
        i < 7,
    ensures
        m == manager_at(i as int),
        manager_rank(m) == i,
{
    if i == 0 {
        PackageManagerId::Npm
    } else if i == 1 {
        PackageManagerId::Pnpm
    } else if i == 2 {
        PackageManagerId::YarnClassic
    } else if i == 3 {
        PackageManagerId::YarnModern
    } else if i == 4 {
        PackageManagerId::Bun
    } else if i == 5 {
        PackageManagerId::Vlt
    } else {
        PackageManagerId::Deno
    }
}

fn copy_evidence(e: &PackageManagerEvidence) -> (r: PackageManagerEvidence)
    ensures
        evidence_view(r) == evidence_view(*e),
{
    PackageManagerEvidence {
        manager: e.manager,
        kind: e.kind,
        location: e.location.as_str().to_owned(),
        detail: e.detail.as_str().to_owned(),
        weight: e.weight,
    }
}

fn contains_str(v: &[String], x: &str) -> (r: bool)
    ensures
        r == strs(v@).to_set().contains(x@),
{
    let mut i: usize = 0;
    while i < v.len()
        invariant
            i <= v.len(),
            forall|j: int| 0 <= j < i ==> strs(v@)[j] != x@,
        decreases v.len() - i,
    {
        if str_eq(&chars_of(v[i].as_str()), x) {
            assert(strs(v@)[i as int] == x@);
            return true;
        }
        i = i + 1;
    }
    false
}

proof fn lemma_insert_by_location(s: Seq<EvidenceView>, e: EvidenceView, j: int)
    requires
        0 <= j <= s.len(),
        forall|k: int| j <= k < s.len() ==> seq_lt(e.location, #[trigger] s[k].location),
        j == 0 || !seq_lt(e.location, s[j - 1].location),
    ensures
        insert_by_location(s, e) == s.insert(j, e),
    decreases s.len(),
{
    if s.len() == 0 {
        assert(s.insert(j, e) =~= seq![e]);
    } else if !seq_lt(e.location, s.last().location) {
        assert(j == s.len());
        assert(s.insert(j, e) =~= s.push(e));
    } else {
        lemma_insert_by_location(s.drop_last(), e, j);
        assert(s.drop_last().insert(j, e).push(s.last()) =~= s.insert(j, e));
    }
}

proof fn lemma_insert_by_loc_manager(s: Seq<EvidenceView>, e: EvidenceView, j: int)
    requires
        0 <= j <= s.len(),
        forall|k: int| j <= k < s.len() ==> loc_manager_lt(e, #[trigger] s[k]),
        j == 0 || !loc_manager_lt(e, s[j - 1]),
    ensures
        insert_by_loc_manager(s, e) == s.insert(j, e),
    decreases s.len(),
{
    if s.len() == 0 {
        assert(s.insert(j, e) =~= seq![e]);
    } else if !loc_manager_lt(e, s.last()) {
        assert(j == s.len());
        assert(s.insert(j, e) =~= s.push(e));
    } else {
        lemma_insert_by_loc_manager(s.drop_last(), e, j);
        assert(s.drop_last().insert(j, e).push(s.last()) =~= s.insert(j, e));
    }
}

proof fn lemma_insert_candidate(s: Seq<CandidateView>, e: CandidateView, j: int)
    requires
        0 <= j <= s.len(),
        forall|k: int| j <= k < s.len() ==> candidate_lt(e, #[trigger] s[k]),
        j == 0 || !candidate_lt(e, s[j - 1]),
    ensures
        insert_candidate(s, e) == s.insert(j, e),
    decreases s.len(),
{
    if s.len() == 0 {
        assert(s.insert(j, e) =~= seq![e]);
    } else if !candidate_lt(e, s.last()) {
        assert(j == s.len());
        assert(s.insert(j, e) =~= s.push(e));
    } else {
        lemma_insert_candidate(s.drop_last(), e, j);
        assert(s.drop_last().insert(j, e).push(s.last()) =~= s.insert(j, e));
    }
}

fn loc_manager_lt_exec(a: &PackageManagerEvidence, b: &PackageManagerEvidence) -> (r: bool)
    ensures
        r == loc_manager_lt(evidence_view(*a), evidence_view(*b)),
{
    let al = chars_of(a.location.as_str());
    let bl = chars_of(b.location.as_str());
    crate::text::chars_lt(&al, &bl) || (crate::text::chars_eq(&al, &bl) && a.manager.rank() < b.manager.rank())
}

/// Mapped evidence of one candidate, as `location` and `manager: detail`.
pub open spec fn candidate_details(c: CandidateView) -> Seq<(Seq<char>, Seq<char>)> {
    c.evidence.map_values(|e: EvidenceView| (e.location, manager_name(c.manager) + ": "@ + e.detail))
}

fn push_candidate_details(out: &mut Vec<EvidenceDetail>, c: &PackageManagerCandidate)
    ensures
        final(out)@.map_values(|e: EvidenceDetail| e@) == old(out)@.map_values(|e: EvidenceDetail| e@)
            + candidate_details(candidate_view(*c)),
{
    let ghost base = old(out)@.map_values(|e: EvidenceDetail| e@);
    let ghost full = candidate_details(candidate_view(*c));
    let mut i: usize = 0;
    while i < c.evidence.len()
        invariant
            i <= c.evidence.len(),
            full == candidate_details(candidate_view(*c)),
            out@.map_values(|e: EvidenceDetail| e@) == base + full.take(i as int),
        decreases c.evidence.len() - i,
    {
        let item = &c.evidence[i];
        let mut d = chars_of(c.manager.as_str());
        push_str(&mut d, ": ");
        let det = chars_of(item.detail.as_str());
        push_chars(&mut d, &det);
        let x = EvidenceDetail { location: item.location.as_str().to_owned(), detail: string_of(&d) };
        let ghost before = out@;
        out.push(x);
        proof {
            assert(out@.map_values(|e: EvidenceDetail| e@) =~= before.map_values(|e: EvidenceDetail| e@).push(x@));
            assert(full[i as int] == x@);
            assert(full.take(i + 1) =~= full.take(i as int).push(full[i as int]));
        }
        i = i + 1;
    }
    assert(full.take(c.evidence.len() as int) =~= full);
}

proof fn lemma_weight_bound(s: Seq<EvidenceView>)
    requires
        forall|i: int| 0 <= i < s.len() ==> #[trigger] s[i].weight <= 120,
    ensures
        0 <= weight_sum(s) <= 120 * s.len(),
    decreases s.len(),
{
    if s.len() > 0 {
        lemma_weight_bound(s.drop_last());
    }
}

fn make_evidence(m: PackageManagerId, kind: EvidenceKind, location: &str, detail: &[char], weight: u16) -> (r: PackageManagerEvidence)
    ensures
        evidence_view(r) == (EvidenceView { manager: m, kind, location: location@, detail: detail@, weight }),
{
    PackageManagerEvidence { manager: m, kind, location: location.to_owned(), detail: string_of(detail), weight }
}

/// The package manager detection from the manifest's `packageManager` value
/// (when it is a string) and the names of the files present at the
/// repository root.
#[verifier::rlimit(60)]
pub fn detect_from_files(package_manager: Option<&str>, present: &[String]) -> (d: PackageManagerDetection)
    ensures
        detection_of(
            d,
            match package_manager {
                Some(v) => Some(v@),
                None => None::<Seq<char>>,
            },
            strs(present@).to_set(),
        ),
{
    let ghost pm = match package_manager {
        Some(v) => Some(v@),
        None => None::<Seq<char>>,
    };
    let ghost ps = strs(present@).to_set();
    let mut ev: Vec<PackageManagerEvidence> = Vec::new();
    let mut diagnostics: Vec<Diagnostic> = Vec::new();
    match package_manager {
        Some(v) => {
            match manager_from_package_manager_field(v) {
                Some(m) => {
                    let mut detail = chars_of("packageManager declares ");
                    let vc = chars_of(v);
                    push_chars(&mut detail, &vc);
                    let e = make_evidence(m, EvidenceKind::Manifest, "package.json", &detail, 120);
                    ev.push(e);
                    assert(evidence_views(ev@) =~= manifest_evidence(pm));
                },
                None => {
                    let mut evidence: Vec<EvidenceDetail> = Vec::new();
                    evidence.push(EvidenceDetail { location: "package.json".to_owned(), detail: "Unrecognized packageManager value".to_owned() });
                    let mut remediation: Vec<String> = Vec::new();
                    remediation.push("Use a supported package manager name with an explicit version.".to_owned());
                    let mut summary = chars_of("The packageManager field is not recognized: ");
                    let vc = chars_of(v);
                    push_chars(&mut summary, &vc);
                    let x = Diagnostic {
                        code: "PM_PACKAGE_MANAGER_FIELD_UNKNOWN".to_owned(),
                        severity: DiagnosticSeverity::Warning,
                        summary: string_of(&summary),
                        blocking: false,
                        evidence,
                        remediation,
                    };
                    assert(x@.evidence =~= seq![("package.json"@, "Unrecognized packageManager value"@)]);
                    assert(x@.remediation =~= seq!["Use a supported package manager name with an explicit version."@]);
                    diagnostics.push(x);
                    assert(evidence_views(ev@) =~= manifest_evidence(pm));
                },
            }
        },
        None => {
            assert(evidence_views(ev@) =~= manifest_evidence(pm));
        },
    }
    assert(diagnostics@.map_values(|x: Diagnostic| x@) =~= field_diagnostics(pm));
    let mut i: usize = 0;
    while i < 16
        invariant
            i <= 16,
            ps == strs(present@).to_set(),
            evidence_views(ev@) == manifest_evidence(pm) + signals_from(ps, i as int),
            ev@.len() <= 1 + i,
            forall|k: int| 0 <= k < ev@.len() ==> #[trigger] ev@[k].weight <= 120,
        decreases 16 - i,
    {
        let sig = file_signal_exec(i);
        if contains_str(present, sig.location) {
            let e = evidence(&sig);
            let ghost before = ev@;
            ev.push(e);
            assert(evidence_views(ev@) =~= evidence_views(before).push(evidence_view(e)));
        }
        assert(evidence_views(ev@) =~= manifest_evidence(pm) + signals_from(ps, i + 1));
        i = i + 1;
    }
    let ghost b = evidence_views(ev@);
    if contains_str(present, "yarn.lock") {
        let mut modern = false;
        let mut classic = false;
        let mut k: usize = 0;
        while k < ev.len()
            invariant
                k <= ev.len(),
                b == evidence_views(ev@),
                modern == exists|j: int| 0 <= j < k && #[trigger] b[j].manager == PackageManagerId::YarnModern && b[j].kind == EvidenceKind::Configuration,
                classic == exists|j: int| 0 <= j < k && #[trigger] b[j].manager == PackageManagerId::YarnClassic && b[j].kind == EvidenceKind::Configuration,
            decreases ev.len() - k,
        {
            let ghost m0 = modern;
            let ghost c0 = classic;
            if ev[k].manager == PackageManagerId::YarnModern && ev[k].kind == EvidenceKind::Configuration {
                modern = true;
            }
            if ev[k].manager == PackageManagerId::YarnClassic && ev[k].kind == EvidenceKind::Configuration {
                classic = true;
            }
            proof {
                assert(b[k as int] == evidence_view(ev@[k as int]));
                if modern && !m0 {
                    assert(b[k as int].manager == PackageManagerId::YarnModern);
                }
                if classic && !c0 {
                    assert(b[k as int].manager == PackageManagerId::YarnClassic);
                }
                if exists|j: int| 0 <= j < k + 1 && #[trigger] b[j].manager == PackageManagerId::YarnModern && b[j].kind == EvidenceKind::Configuration {
                    let j = choose|j: int| 0 <= j < k + 1 && #[trigger] b[j].manager == PackageManagerId::YarnModern && b[j].kind == EvidenceKind::Configuration;
                    if j < k {
                        assert(m0);
                    }
                }
                if exists|j: int| 0 <= j < k + 1 && #[trigger] b[j].manager == PackageManagerId::YarnClassic && b[j].kind == EvidenceKind::Configuration {
                    let j = choose|j: int| 0 <= j < k + 1 && #[trigger] b[j].manager == PackageManagerId::YarnClassic && b[j].kind == EvidenceKind::Configuration;
                    if j < k {
                        assert(c0);
                    }
                }
            }
            k = k + 1;
        }
        assert(modern == has_config(b, PackageManagerId::YarnModern));
        assert(classic == has_config(b, PackageManagerId::YarnClassic));
        if modern {
            ev.push(make_evidence(PackageManagerId::YarnModern, EvidenceKind::Lockfile, "yarn.lock",
                &chars_of("Yarn lockfile is paired with modern configuration"), 70));
        } else if classic {
            ev.push(make_evidence(PackageManagerId::YarnClassic, EvidenceKind::Lockfile, "yarn.lock",
                &chars_of("Yarn lockfile is paired with classic configuration"), 70));
        } else {
            ev.push(make_evidence(PackageManagerId::YarnClassic, EvidenceKind::Lockfile, "yarn.lock",
                &chars_of("Yarn lockfile version is not disambiguated"), 60));
            ev.push(make_evidence(PackageManagerId::YarnModern, EvidenceKind::Lockfile, "yarn.lock",
                &chars_of("Yarn lockfile version is not disambiguated"), 60));
        }
    }
    assert(evidence_views(ev@) =~= all_evidence(pm, ps));
    let ghost all = evidence_views(ev@);
    assert(ev@.len() <= 19);
    assert forall|k: int| 0 <= k < all.len() implies #[trigger] all[k].weight <= 120 by {
        assert(all[k] == evidence_view(ev@[k]));
    }
    // Candidates, one manager at a time, inserted in score order.
    let mut cands: Vec<PackageManagerCandidate> = Vec::new();
    let mut mi: usize = 0;
    while mi < 7
        invariant
            mi <= 7,
            all == evidence_views(ev@),
            all.len() <= 19,
            forall|k: int| 0 <= k < all.len() ==> #[trigger] all[k].weight <= 120,
            cands@.map_values(|c: PackageManagerCandidate| candidate_view(c)) == sort_candidates(grouped(all, mi as int)),
        decreases 7 - mi,
    {
        let m = manager_at_exec(mi);
        let ghost pred = |e: EvidenceView| e.manager == m;
        let mut items: Vec<PackageManagerEvidence> = Vec::new();
        let mut j: usize = 0;
        while j < ev.len()
            invariant
                j <= ev.len(),
                all == evidence_views(ev@),
                forall|k: int| 0 <= k < all.len() ==> #[trigger] all[k].weight <= 120,
                pred == (|e: EvidenceView| e.manager == m),
                evidence_views(items@) == sort_by_location(all.take(j as int).filter(pred)),
                items@.len() <= j,
                forall|k: int| 0 <= k < items@.len() ==> #[trigger] items@[k].weight <= 120,
            decreases ev.len() - j,
        {
            proof {
                assert(all.take(j + 1).drop_last() =~= all.take(j as int));
                assert(all.take(j + 1).last() == all[j as int]);
                reveal_with_fuel(Seq::filter, 1);
                assert(all[j as int] == evidence_view(ev@[j as int]));
            }
            let ghost x = all.take(j as int).filter(pred);
            if ev[j].manager == m {
                assert(all.take(j + 1).filter(pred) =~= x.push(all[j as int]));
                assert(x.push(all[j as int]).drop_last() =~= x);
                let e = copy_evidence(&ev[j]);
                let ghost ev_e = evidence_view(e);
                let ghost cur = evidence_views(items@);
                let ghost old_items = items@;
                let el = chars_of(e.location.as_str());
                let mut q = items.len();
                while q > 0 && crate::text::chars_lt(&el, &chars_of(items[q - 1].location.as_str()))
                    invariant
                        q <= items.len(),
                        cur == evidence_views(items@),
                        el@ == ev_e.location,
                        forall|k: int| q <= k < cur.len() ==> seq_lt(ev_e.location, #[trigger] cur[k].location),
                    decreases q,
                {
                    q = q - 1;
                }
                proof {
                    lemma_insert_by_location(cur, ev_e, q as int);
                }
                items.insert(q, e);
                assert(evidence_views(items@) =~= cur.insert(q as int, ev_e));
                assert forall|k: int| 0 <= k < items@.len() implies #[trigger] items@[k].weight <= 120 by {
                    assert(items@ == old_items.insert(q as int, e));
                    if k < q {
                        assert(items@[k] == old_items[k]);
                    } else if k > q {
                        assert(items@[k] == old_items[k - 1]);
                    } else {
                        assert(items@[k] == e);
                        assert(e.weight == all[j as int].weight);
                    }
                }
            } else {
                assert(all.take(j + 1).filter(pred) =~= x);
            }
            j = j + 1;
        }
        assert(all.take(ev.len() as int) =~= all);
        let ghost iv = evidence_views(items@);
        proof {
            assert forall|k: int| 0 <= k < iv.len() implies #[trigger] iv[k].weight <= 120 by {
                assert(iv[k].weight == items@[k].weight);
            }
            lemma_weight_bound(iv);
        }
        let mut sum: u32 = 0;
        let mut t: usize = 0;
        while t < items.len()
            invariant
                t <= items.len(),
                iv == evidence_views(items@),
                items@.len() <= 19,
                forall|k: int| 0 <= k < items@.len() ==> #[trigger] items@[k].weight <= 120,
                sum == weight_sum(iv.take(t as int)),
                sum <= 120 * t,
            decreases items.len() - t,
        {
            assert(iv.take(t + 1).drop_last() =~= iv.take(t as int));
            assert(iv.take(t + 1).last() == iv[t as int]);
            assert(iv[t as int].weight == items@[t as int].weight);
            sum = sum + items[t].weight as u32;
            t = t + 1;
        }
        assert(iv.take(items.len() as int) =~= iv);
        assert(all.filter(pred) == all.filter(|e: EvidenceView| e.manager == manager_at(mi as int)));
        assert(iv == manager_items(all, manager_at(mi as int)));
        let ghost prev = cands@.map_values(|c: PackageManagerCandidate| candidate_view(c));
        if items.len() > 0 {
            let score = sum as u16;
            let c = PackageManagerCandidate { manager: m, score, confidence: confidence(score), evidence: items };
            let ghost cv = candidate_view(c);
            let mut q = cands.len();
            while q > 0 && (c.score > cands[q - 1].score || (c.score == cands[q - 1].score && c.manager.rank() < cands[q - 1].manager.rank()))
                invariant
                    q <= cands.len(),
                    prev == cands@.map_values(|c: PackageManagerCandidate| candidate_view(c)),
                    cv == candidate_view(c),
                    forall|k: int| q <= k < prev.len() ==> candidate_lt(cv, #[trigger] prev[k]),
                decreases q,
            {
                q = q - 1;
            }
            proof {
                lemma_insert_candidate(prev, cv, q as int);
            }
            cands.insert(q, c);
            assert(cands@.map_values(|c: PackageManagerCandidate| candidate_view(c)) =~= prev.insert(q as int, cv));
            proof {
                let g = grouped(all, mi as int);
                assert(cv.score == weight_sum(iv));
                assert(cv == CandidateView {
                    manager: manager_at(mi as int),
                    score: weight_sum(iv),
                    confidence: confidence_of(weight_sum(iv)),
                    evidence: iv,
                });
                assert(grouped(all, mi + 1) =~= g.push(cv));
                assert(g.push(cv).drop_last() =~= g);
                assert(sort_candidates(g.push(cv)) == insert_candidate(sort_candidates(g), cv));
            }
        } else {
            assert(grouped(all, mi + 1) =~= grouped(all, mi as int));
        }
        mi = mi + 1;
    }
    let ghost cs = cands@.map_values(|c: PackageManagerCandidate| candidate_view(c));
    assert(cs == candidates_spec(all));
    // Selection.
    let ghost before_sel = diagnostics@.map_values(|x: Diagnostic| x@);
    let selected = if cands.len() == 0 {
        let mut remediation: Vec<String> = Vec::new();
        remediation.push("Add an explicit packageManager field or select a source when that option becomes available.".to_owned());
        let x = Diagnostic {
            code: "PM_SOURCE_NOT_DETECTED".to_owned(),
            severity: DiagnosticSeverity::Error,
            summary: "No supported package manager evidence was detected.".to_owned(),
            blocking: true,
            evidence: Vec::new(),
            remediation,
        };
        assert(x@.evidence =~= Seq::<(Seq<char>, Seq<char>)>::empty());
        assert(x@.remediation =~= seq!["Add an explicit packageManager field or select a source when that option becomes available."@]);
        assert(x@ == not_detected());
        diagnostics.push(x);
        None
    } else if cands[0].score < 60 || (cands.len() > 1 && (cands[0].score as u32) < (cands[1].score as u32) + 25) {
        let mut evidence: Vec<EvidenceDetail> = Vec::new();
        let limit = if cands.len() < 3 { cands.len() } else { 3 };
        let mut k: usize = 0;
        while k < limit
            invariant
                k <= limit <= cands.len(),
                limit <= 3,
                cs == cands@.map_values(|c: PackageManagerCandidate| candidate_view(c)),
                evidence@.map_values(|e: EvidenceDetail| e@) == flatten_evidence(cs.take(k as int)),
            decreases limit - k,
        {
            push_candidate_details(&mut evidence, &cands[k]);
            proof {
                assert(cs.take(k + 1).drop_last() =~= cs.take(k as int));
                assert(cs.take(k + 1).last() == cs[k as int]);
            }
            k = k + 1;
        }

        let mut remediation: Vec<String> = Vec::new();
        remediation.push("Review conflicting evidence and make the intended source explicit.".to_owned());
        let x = Diagnostic {
            code: "PM_SOURCE_AMBIGUOUS".to_owned(),
            severity: DiagnosticSeverity::Error,
            summary: "Package manager evidence is ambiguous.".to_owned(),
            blocking: true,
            evidence,
            remediation,
        };
        assert(x@.remediation =~= seq!["Review conflicting evidence and make the intended source explicit."@]);
        assert(x@ == ambiguous(flatten_evidence(cs.take(if cs.len() < 3 { cs.len() as int } else { 3 }))));
        diagnostics.push(x);
        None
    } else {
        let sel = cands[0].manager;
        let ghost pred = |c: CandidateView| c.manager != sel && c.score >= 70;
        let mut evidence: Vec<EvidenceDetail> = Vec::new();
        let mut any = false;
        let mut k: usize = 0;
        while k < cands.len()
            invariant
                k <= cands.len(),
                cs == cands@.map_values(|c: PackageManagerCandidate| candidate_view(c)),
                pred == (|c: CandidateView| c.manager != sel && c.score >= 70),
                any == (cs.take(k as int).filter(pred).len() > 0),
                evidence@.map_values(|e: EvidenceDetail| e@) == flatten_evidence(cs.take(k as int).filter(pred)),
            decreases cands.len() - k,
        {
            proof {
                assert(cs.take(k + 1).drop_last() =~= cs.take(k as int));
                assert(cs.take(k + 1).last() == cs[k as int]);
                reveal_with_fuel(Seq::filter, 1);
            }
            if cands[k].manager != sel && cands[k].score >= 70 {
                push_candidate_details(&mut evidence, &cands[k]);
                any = true;
                proof {
                    let f = cs.take(k + 1).filter(pred);
                    assert(f == cs.take(k as int).filter(pred).push(cs[k as int]));
                    assert(f.drop_last() =~= cs.take(k as int).filter(pred));
                }
            }
            k = k + 1;
        }
        assert(cs.take(cands.len() as int) =~= cs);
        if any {
            let mut summary = chars_of(sel.as_str());
            push_str(&mut summary, " was selected, but other strong package manager evidence exists.");
            let mut remediation: Vec<String> = Vec::new();
            remediation.push("Confirm that additional lockfiles or configuration are stale before apply.".to_owned());
            let x = Diagnostic {
                code: "PM_CONFLICTING_EVIDENCE".to_owned(),
                severity: DiagnosticSeverity::Warning,
                summary: string_of(&summary),
                blocking: false,
                evidence,
                remediation,
            };
            assert(x@.remediation =~= seq!["Confirm that additional lockfiles or configuration are stale before apply."@]);
            assert(x@ == conflicting(sel, flatten_evidence(cs.filter(pred))));
            diagnostics.push(x);
        }
        Some(sel)
    };
    assert(diagnostics@.map_values(|x: Diagnostic| x@) =~= field_diagnostics(pm) + selection(cs).1);
    // Final evidence order.
    let mut sorted: Vec<PackageManagerEvidence> = Vec::new();
    let mut k: usize = 0;
    while k < ev.len()
        invariant
            k <= ev.len(),
            all == evidence_views(ev@),
            evidence_views(sorted@) == sort_by_loc_manager(all.take(k as int)),
        decreases ev.len() - k,
    {
        let e = copy_evidence(&ev[k]);
        let ghost ev_e = evidence_view(e);
        let ghost cur = evidence_views(sorted@);
        let mut q = sorted.len();
        while q > 0 && loc_manager_lt_exec(&e, &sorted[q - 1])
            invariant
                q <= sorted.len(),
                cur == evidence_views(sorted@),
                ev_e == evidence_view(e),
                forall|t: int| q <= t < cur.len() ==> loc_manager_lt(ev_e, #[trigger] cur[t]),
            decreases q,
        {
            q = q - 1;
        }
        proof {
            lemma_insert_by_loc_manager(cur, ev_e, q as int);
            assert(all.take(k + 1).drop_last() =~= all.take(k as int));
            assert(all.take(k + 1).last() == all[k as int]);
            assert(all[k as int] == ev_e);
        }
        sorted.insert(q, e);
        assert(evidence_views(sorted@) =~= cur.insert(q as int, ev_e));
        k = k + 1;
    }
    assert(all.take(ev.len() as int) =~= all);
    PackageManagerDetection { selected, candidates: cands, evidence: sorted, diagnostics }
}

} // verus!
