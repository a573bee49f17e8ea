//! A lockfile's bytes made into a dependency graph: decoded, parsed by the
//! manager's format, ordered, and given a content identifier.
use vstd::prelude::*;
use crate::digest::{
    digest_bytes, digest_bytes_spec, frame, frame_list, push_frame, push_frame_list,
    short_digest, short_digest_spec,
};
use crate::json::{json5_read, read_json, read_json5, read_yaml, serde_json_read, yaml_read, Json};
use crate::model::{
    manager_name, Diagnostic, DiagnosticSeverity, DiagnosticView, EvidenceDetail, LockGraph,
    LockGraphEdge, LockGraphNode, PackageManagerId, SCHEMA_VERSION,
};
use crate::text::{chars_of, chars_eq, chars_lt, push_chars, push_str, seq_lt, str_eq, string_of, strs, texts};
use super::lockfile::{
    bun_lock_spec, deno_lock_spec, edge_view, edges_view, node_view, nodes_view, npm_lock_spec,
    opt_text, parse_bun_checked, parse_deno_checked, parse_npm_checked, parse_pnpm_checked,
    parse_vlt_checked, parse_yarn_classic_checked, parse_yarn_modern_checked, parts_view,
    pnpm_lock_spec, vlt_lock_spec, yarn_classic_spec, yarn_modern_lock_spec, EdgeView, NodeView,
};

verus! {

/// What `std::str::from_utf8` says of bytes that are not UTF-8 (its error's
/// message).
pub uninterp spec fn utf8_error_message(bytes: Seq<u8>) -> Seq<char>;

/// `std::str::from_utf8`: the text the bytes encode when they are valid
/// UTF-8, else the message of the error.
#[verifier::external_body]
pub(crate) fn decode_utf8(bytes: &[u8]) -> (r: Result<String, String>)
    ensures
        match r {
            Ok(s) => vstd::utf8::valid_utf8(bytes@) && s@ == vstd::utf8::decode_utf8(bytes@),
            Err(e) => !vstd::utf8::valid_utf8(bytes@) && e@ == utf8_error_message(bytes@),
        },
{
    std::str::from_utf8(bytes).map(|s| s.to_owned()).map_err(|e| e.to_string())
}

/// A diagnostic about a lockfile: an error when blocking, else a warning.
pub open spec fn graph_diagnostic_view(
    code: Seq<char>,
    summary: Seq<char>,
    lockfile_path: Seq<char>,
    blocking: bool,
    remediation: Seq<Seq<char>>,
) -> DiagnosticView {
    DiagnosticView {
        code,
        severity: if blocking {
            DiagnosticSeverity::Error
        } else {
            DiagnosticSeverity::Warning
        },
        summary,
        blocking,
        evidence: seq![(lockfile_path, "package manager lockfile"@)],
        remediation,
    }
}

pub fn graph_diagnostic(
    code: &str,
    summary: &[char],
    lockfile_path: &str,
    blocking: bool,
    remediation: Vec<String>,
) -> (d: Diagnostic)
    ensures
        d@ == graph_diagnostic_view(code@, summary@, lockfile_path@, blocking, strs(remediation@)),
{
    let mut evidence: Vec<EvidenceDetail> = Vec::new();
    evidence.push(EvidenceDetail { location: lockfile_path.to_owned(), detail: "package manager lockfile".to_owned() });
    let d = Diagnostic {
        code: code.to_owned(),
        severity: if blocking {
            DiagnosticSeverity::Error
        } else {
            DiagnosticSeverity::Warning
        },
        summary: string_of(summary),
        blocking,
        evidence,
        remediation,
    };
    assert(d@.evidence =~= seq![(lockfile_path@, "package manager lockfile"@)]);
    assert(d@.remediation =~= strs(remediation@));
    d
}

/// Node order: by name, then version, then locator.
pub open spec fn node_lt(a: NodeView, b: NodeView) -> bool {
    ||| seq_lt(a.name, b.name)
    ||| a.name == b.name && seq_lt(a.version, b.version)
    ||| a.name == b.name && a.version == b.version && seq_lt(a.locator, b.locator)
}

/// `e` placed after every node not greater than it (a stable insertion).
pub open spec fn insert_node(s: Seq<NodeView>, e: NodeView) -> Seq<NodeView>
    decreases s.len(),
{
    if s.len() == 0 {
        seq![e]
    } else if !node_lt(e, s.last()) {
        s.push(e)
    } else {
        insert_node(s.drop_last(), e).push(s.last())
    }
}

/// The nodes in order, equal keys keeping their relative order.
pub open spec fn sort_nodes(s: Seq<NodeView>) -> Seq<NodeView>
    decreases s.len(),
{
    if s.len() == 0 {
        seq![]
    } else {
        insert_node(sort_nodes(s.drop_last()), s.last())
    }
}

pub open spec fn opt_lt(a: Option<Seq<char>>, b: Option<Seq<char>>) -> bool {
    match (a, b) {
        (None, Some(_)) => true,
        (Some(x), Some(y)) => seq_lt(x, y),
        _ => false,
    }
}

/// Edge order: by source, dependency, kind and target (no target first).
pub open spec fn edge_lt(a: EdgeView, b: EdgeView) -> bool {
    ||| seq_lt(a.from, b.from)
    ||| a.from == b.from && seq_lt(a.dependency, b.dependency)
    ||| a.from == b.from && a.dependency == b.dependency && seq_lt(a.kind, b.kind)
    ||| a.from == b.from && a.dependency == b.dependency && a.kind == b.kind && opt_lt(a.target, b.target)
}

/// `e` placed in order, unless an equal edge is already there.
pub open spec fn insert_edge(s: Seq<EdgeView>, e: EdgeView) -> Seq<EdgeView>
    decreases s.len(),
{
    if s.len() == 0 {
        seq![e]
    } else if edge_lt(s.last(), e) {
        s.push(e)
    } else if s.last() == e {
        s
    } else {
        insert_edge(s.drop_last(), e).push(s.last())
    }
}

/// The distinct edges in order.
pub open spec fn sort_edges(s: Seq<EdgeView>) -> Seq<EdgeView>
    decreases s.len(),
{
    if s.len() == 0 {
        seq![]
    } else {
        insert_edge(sort_edges(s.drop_last()), s.last())
    }
}

proof fn lemma_insert_node(s: Seq<NodeView>, e: NodeView, j: int)
    requires
        0 <= j <= s.len(),
        forall|k: int| j <= k < s.len() ==> node_lt(e, #[trigger] s[k]),
        j == 0 || !node_lt(e, s[j - 1]),
    ensures
        insert_node(s, e) == s.insert(j, e),
    decreases s.len(),
{
    if s.len() == 0 {
        assert(s.insert(j, e) =~= seq![e]);
    } else if !node_lt(e, s.last()) {
        assert(j == s.len());
        assert(s.insert(j, e) =~= s.push(e));
    } else {
        lemma_insert_node(s.drop_last(), e, j);
        assert(s.drop_last().insert(j, e).push(s.last()) =~= s.insert(j, e));
    }
}

fn node_lt_exec(a: &LockGraphNode, b: &LockGraphNode) -> (r: bool)
    ensures
        r == node_lt(node_view(*a), node_view(*b)),
{
    let an = chars_of(a.name.as_str());
    let bn = chars_of(b.name.as_str());
    let av = chars_of(a.version.as_str());
    let bv = chars_of(b.version.as_str());
    let al = chars_of(a.locator.as_str());
    let bl = chars_of(b.locator.as_str());
    chars_lt(&an, &bn) || (chars_eq(&an, &bn) && chars_lt(&av, &bv)) || (chars_eq(&an, &bn) && chars_eq(
        &av,
        &bv,
    ) && chars_lt(&al, &bl))
}

/// The nodes ordered as `sort_nodes` states.
fn sorted_nodes(nodes: Vec<LockGraphNode>) -> (r: Vec<LockGraphNode>)
    ensures
        nodes_view(r@) == sort_nodes(nodes_view(nodes@)),
{
    let ghost all = nodes_view(nodes@);
    let total = nodes.len();
    let mut rest = nodes;
    let mut out: Vec<LockGraphNode> = Vec::new();
    let mut k: usize = 0;
    while k < total
        invariant
            k <= total == all.len(),
            rest@.len() == total - k,
            nodes_view(rest@) == all.skip(k as int),
            nodes_view(out@) == sort_nodes(all.take(k as int)),
        decreases total - k,
    {
        let ghost rv = rest@;
        let e = rest.remove(0);
        assert forall|j: int| 0 <= j < rest@.len() implies node_view(#[trigger] rest@[j]) == all.skip(k + 1)[j] by {
            assert(rest@[j] == rv[j + 1]);
            assert(all.skip(k + 1)[j] == all.skip(k as int)[j + 1]);
        }
        assert(nodes_view(rest@) =~= all.skip(k + 1));
        assert(node_view(e) == all[k as int]) by {
            assert(nodes_view(rv)[0] == all.skip(k as int)[0]);
        }
        assert(all.take(k + 1).drop_last() =~= all.take(k as int));
        let ghost cur = nodes_view(out@);
        let mut q = out.len();
        while q > 0 && node_lt_exec(&e, &out[q - 1])
            invariant
                q <= out.len(),
                cur == nodes_view(out@),
                forall|i: int| q <= i < cur.len() ==> node_lt(node_view(e), #[trigger] cur[i]),
            decreases q,
        {
            q = q - 1;
        }
        proof {
            lemma_insert_node(cur, node_view(e), q as int);
        }
        let ghost ob = out@;
        out.insert(q, e);
        assert(nodes_view(out@) =~= cur.insert(q as int, node_view(e)));
        k = k + 1;
    }
    assert(all.take(total as int) =~= all);
    out
}

proof fn lemma_insert_edge(s: Seq<EdgeView>, e: EdgeView, j: int)
    requires
        0 <= j <= s.len(),
        forall|k: int| j <= k < s.len() ==> !edge_lt(#[trigger] s[k], e) && s[k] != e,
        j == 0 || edge_lt(s[j - 1], e),
    ensures
        insert_edge(s, e) == s.insert(j, e),
    decreases s.len(),
{
    if s.len() == 0 {
        assert(s.insert(j, e) =~= seq![e]);
    } else if edge_lt(s.last(), e) {
        assert(j == s.len());
        assert(s.insert(j, e) =~= s.push(e));
    } else {
        lemma_insert_edge(s.drop_last(), e, j);
        assert(s.drop_last().insert(j, e).push(s.last()) =~= s.insert(j, e));
    }
}

proof fn lemma_insert_edge_present(s: Seq<EdgeView>, e: EdgeView, j: int)
    requires
        0 <= j < s.len(),
        s[j] == e,
        forall|k: int| j < k < s.len() ==> !edge_lt(#[trigger] s[k], e) && s[k] != e,
    ensures
        insert_edge(s, e) == s,
    decreases s.len(),
{
    if j == s.len() - 1 {
        assert(!edge_lt(s.last(), e)) by {
            crate::text::lemma_seq_lt_irreflexive(e.from);
            crate::text::lemma_seq_lt_irreflexive(e.dependency);
            crate::text::lemma_seq_lt_irreflexive(e.kind);
            match e.target {
                Some(t) => crate::text::lemma_seq_lt_irreflexive(t),
                None => {},
            }
        }
    } else {
        lemma_insert_edge_present(s.drop_last(), e, j);
        assert(s.drop_last().push(s.last()) =~= s);
    }
}

fn opt_string_lt(a: &Option<String>, b: &Option<String>) -> (r: bool)
    ensures
        r == opt_lt(opt_text(*a), opt_text(*b)),
{
    match (a, b) {
        (None, Some(_)) => true,
        (Some(x), Some(y)) => {
            let xc = chars_of(x.as_str());
            let yc = chars_of(y.as_str());
            chars_lt(&xc, &yc)
        },
        _ => false,
    }
}

fn opt_string_eq(a: &Option<String>, b: &Option<String>) -> (r: bool)
    ensures
        r == (opt_text(*a) == opt_text(*b)),
{
    match (a, b) {
        (None, None) => true,
        (Some(x), Some(y)) => {
            let xc = chars_of(x.as_str());
            let yc = chars_of(y.as_str());
            chars_eq(&xc, &yc)
        },
        _ => false,
    }
}

fn edge_order_exec(a: &LockGraphEdge, b: &LockGraphEdge) -> (r: (bool, bool))
    ensures
        r.0 == edge_lt(edge_view(*a), edge_view(*b)),
        r.1 == (edge_view(*a) == edge_view(*b)),
{
    let af = chars_of(a.from.as_str());
    let bf = chars_of(b.from.as_str());
    let ad = chars_of(a.dependency.as_str());
    let bd = chars_of(b.dependency.as_str());
    let ak = chars_of(a.kind.as_str());
    let bk = chars_of(b.kind.as_str());
    let ef = chars_eq(&af, &bf);
    let ed = chars_eq(&ad, &bd);
    let ek = chars_eq(&ak, &bk);
    let et = opt_string_eq(&a.target, &b.target);
    let lt = chars_lt(&af, &bf) || (ef && chars_lt(&ad, &bd)) || (ef && ed && chars_lt(&ak, &bk)) || (
    ef && ed && ek && opt_string_lt(&a.target, &b.target));
    (lt, ef && ed && ek && et)
}

/// The distinct edges ordered as `sort_edges` states.
fn sorted_edges(edges: Vec<LockGraphEdge>) -> (r: Vec<LockGraphEdge>)
    ensures
        edges_view(r@) == sort_edges(edges_view(edges@)),
{
    let ghost all = edges_view(edges@);
    let total = edges.len();
    let mut rest = edges;
    let mut out: Vec<LockGraphEdge> = Vec::new();
    let mut k: usize = 0;
    while k < total
        invariant
            k <= total == all.len(),
            rest@.len() == total - k,
            edges_view(rest@) == all.skip(k as int),
            edges_view(out@) == sort_edges(all.take(k as int)),
        decreases total - k,
    {
        let ghost rv = rest@;
        let e = rest.remove(0);
        assert forall|j: int| 0 <= j < rest@.len() implies edge_view(#[trigger] rest@[j]) == all.skip(k + 1)[j] by {
            assert(rest@[j] == rv[j + 1]);
            assert(all.skip(k + 1)[j] == all.skip(k as int)[j + 1]);
        }
        assert(edges_view(rest@) =~= all.skip(k + 1));
        assert(edge_view(e) == all[k as int]) by {
            assert(edges_view(rv)[0] == all.skip(k as int)[0]);
        }
        assert(all.take(k + 1).drop_last() =~= all.take(k as int));
        let ghost cur = edges_view(out@);
        let ghost ev = edge_view(e);
        let mut q = out.len();
        let mut present = false;
        let mut done = false;
        while q > 0 && !done
            invariant
                q <= out.len(),
                cur == edges_view(out@),
                ev == edge_view(e),
                done ==> q > 0 && (if present {
                    cur[q - 1] == ev
                } else {
                    edge_lt(cur[q - 1], ev)
                }),
                !done ==> !present,
                forall|i: int| q <= i < cur.len() ==> !edge_lt(#[trigger] cur[i], ev) && cur[i] != ev,
            decreases 2 * q + (if done {
                0int
            } else {
                1int
            }),
        {
            let (lt, eq) = edge_order_exec(&out[q - 1], &e);
            if lt {
                done = true;
            } else if eq {
                present = true;
                done = true;
            } else {
                q = q - 1;
            }
        }
        if present {
            proof {
                lemma_insert_edge_present(cur, ev, q - 1);
            }
        } else {
            proof {
                lemma_insert_edge(cur, ev, q as int);
            }
            out.insert(q, e);
            assert(edges_view(out@) =~= cur.insert(q as int, ev));
        }
        k = k + 1;
    }
    assert(all.take(total as int) =~= all);
    out
}

pub open spec fn opt_frame(o: Option<Seq<char>>) -> Seq<char> {
    match o {
        Some(x) => "+"@ + frame(x),
        None => "-"@,
    }
}

/// The canonical text of a node.
pub open spec fn node_text(n: NodeView) -> Seq<char> {
    frame(n.locator) + frame(n.name) + frame(n.version) + opt_frame(n.integrity) + frame_list(n.os)
        + frame_list(n.cpu) + frame_list(n.libc)
}

/// The canonical text of an edge.
pub open spec fn edge_text(e: EdgeView) -> Seq<char> {
    frame(e.from) + frame(e.dependency) + frame(e.kind) + opt_frame(e.target)
}

pub open spec fn header_text(manager: PackageManagerId, path: Seq<char>, digest: Seq<char>, format: Seq<char>) -> Seq<char> {
    frame(SCHEMA_VERSION@) + frame(manager_name(manager)) + frame(path) + frame(digest) + frame(format)
}

/// What identifies a complete graph: its header, its nodes and its edges.
pub open spec fn complete_graph_text(
    manager: PackageManagerId,
    path: Seq<char>,
    digest: Seq<char>,
    format: Seq<char>,
    nodes: Seq<NodeView>,
    edges: Seq<EdgeView>,
) -> Seq<char> {
    header_text(manager, path, digest, format) + "1"@ + frame_list(nodes.map_values(|n: NodeView| node_text(n)))
        + frame_list(edges.map_values(|e: EdgeView| edge_text(e)))
}

/// A lock graph as plain values.
pub struct GraphView {
    pub schema_version: Seq<char>,
    pub graph_id: Seq<char>,
    pub manager: PackageManagerId,
    pub lockfile_path: Seq<char>,
    pub lockfile_digest: Seq<char>,
    pub format: Seq<char>,
    pub complete: bool,
    pub nodes: Seq<NodeView>,
    pub edges: Seq<EdgeView>,
    pub diagnostics: Seq<DiagnosticView>,
}

pub open spec fn graph_view(g: LockGraph) -> GraphView {
    GraphView {
        schema_version: g.schema_version@,
        graph_id: g.graph_id@,
        manager: g.manager,
        lockfile_path: g.lockfile_path@,
        lockfile_digest: g.lockfile_digest@,
        format: g.format@,
        complete: g.complete,
        nodes: nodes_view(g.nodes@),
        edges: edges_view(g.edges@),
        diagnostics: g.diagnostics@.map_values(|d: Diagnostic| d@),
    }
}

/// A graph that could not be read: no nodes or edges, and why.
pub open spec fn incomplete_graph_view(
    manager: PackageManagerId,
    path: Seq<char>,
    digest: Seq<char>,
    format: Seq<char>,
    d: DiagnosticView,
) -> GraphView {
    GraphView {
        schema_version: SCHEMA_VERSION@,
        graph_id: short_digest_spec("lockgraph_"@, header_text(manager, path, digest, format) + "0"@),
        manager,
        lockfile_path: path,
        lockfile_digest: digest,
        format,
        complete: false,
        nodes: seq![],
        edges: seq![],
        diagnostics: seq![d],
    }
}

/// The format each manager's lockfile is read as.
pub open spec fn lock_format(m: PackageManagerId) -> Seq<char> {
    match m {
        PackageManagerId::Npm => "npm-package-lock"@,
        PackageManagerId::Pnpm => "pnpm-lock"@,
        PackageManagerId::YarnClassic => "yarn-classic-lock"@,
        PackageManagerId::YarnModern => "yarn-modern-lock"@,
        PackageManagerId::Bun => "bun-text-lock"@,
        PackageManagerId::Vlt => "vlt-lock-v1"@,
        PackageManagerId::Deno => "deno-lock-v5"@,
    }
}

fn lock_format_exec(m: PackageManagerId) -> (r: &'static str)
    ensures
        r@ == lock_format(m),
{
    match m {
        PackageManagerId::Npm => "npm-package-lock",
        PackageManagerId::Pnpm => "pnpm-lock",
        PackageManagerId::YarnClassic => "yarn-classic-lock",
        PackageManagerId::YarnModern => "yarn-modern-lock",
        PackageManagerId::Bun => "bun-text-lock",
        PackageManagerId::Vlt => "vlt-lock-v1",
        PackageManagerId::Deno => "deno-lock-v5",
    }
}

pub open spec fn then_parts(
    doc: Result<Json, Seq<char>>,
    f: spec_fn(Json) -> Result<(Seq<NodeView>, Seq<EdgeView>), Seq<char>>,
) -> Result<(Seq<NodeView>, Seq<EdgeView>), Seq<char>> {
    match doc {
        Err(e) => Err(e),
        Ok(d) => f(d),
    }
}

/// The nodes and edges of a manager's lockfile text, or why it could not be
/// read: the text goes to serde_json, noyalib or json5 by format, then the
/// document is read.
pub open spec fn parsed_lock(m: PackageManagerId, text: Seq<char>) -> Result<(Seq<NodeView>, Seq<EdgeView>), Seq<char>> {
    match m {
        PackageManagerId::Npm => then_parts(serde_json_read(text), |d: Json| npm_lock_spec(d)),
        PackageManagerId::Pnpm => then_parts(yaml_read(text), |d: Json| pnpm_lock_spec(d)),
        PackageManagerId::YarnClassic => yarn_classic_spec(text),
        PackageManagerId::YarnModern => then_parts(yaml_read(text), |d: Json| yarn_modern_lock_spec(d)),
        PackageManagerId::Bun => then_parts(json5_read(text), |d: Json| bun_lock_spec(d)),
        PackageManagerId::Vlt => then_parts(serde_json_read(text), |d: Json| vlt_lock_spec(d)),
        PackageManagerId::Deno => then_parts(serde_json_read(text), |d: Json| deno_lock_spec(d)),
    }
}

/// The graph of the lockfile at `path` with content `bytes`.
pub open spec fn lock_graph_spec(m: PackageManagerId, path: Seq<char>, bytes: Seq<u8>) -> GraphView {
    let digest = digest_bytes_spec(bytes);
    if path == "bun.lockb"@ {
        incomplete_graph_view(
            m,
            path,
            digest,
            "bun-binary"@,
            graph_diagnostic_view(
                "LOCK_GRAPH_FORMAT_UNSUPPORTED"@,
                "Binary bun.lockb dependency graphs cannot be proven safely."@,
                path,
                true,
                seq!["Convert bun.lockb to the current text bun.lock format before planning."@],
            ),
        )
    } else if !vstd::utf8::valid_utf8(bytes) {
        incomplete_graph_view(
            m,
            path,
            digest,
            "unknown"@,
            graph_diagnostic_view(
                "LOCK_GRAPH_ENCODING_INVALID"@,
                "The source lockfile is not UTF-8: "@ + utf8_error_message(bytes),
                path,
                true,
                seq!["Regenerate the lockfile with its owning package manager."@],
            ),
        )
    } else {
        match parsed_lock(m, vstd::utf8::decode_utf8(bytes)) {
            Err(e) => incomplete_graph_view(
                m,
                path,
                digest,
                "unknown"@,
                graph_diagnostic_view(
                    "LOCK_GRAPH_PARSE_FAILED"@,
                    "The source lockfile graph could not be parsed: "@ + e,
                    path,
                    true,
                    seq!["Regenerate the lockfile with its pinned package manager."@],
                ),
            ),
            Ok((n, e)) => {
                let nodes = sort_nodes(n);
                let edges = sort_edges(e);
                GraphView {
                    schema_version: SCHEMA_VERSION@,
                    graph_id: short_digest_spec(
                        "lockgraph_"@,
                        complete_graph_text(m, path, digest, lock_format(m), nodes, edges),
                    ),
                    manager: m,
                    lockfile_path: path,
                    lockfile_digest: digest,
                    format: lock_format(m),
                    complete: true,
                    nodes,
                    edges,
                    diagnostics: seq![],
                }
            },
        }
    }
}

pub(crate) fn push_opt_frame(out: &mut Vec<char>, o: &Option<String>)
    ensures
        final(out)@ == old(out)@ + opt_frame(opt_text(*o)),
{
    match o {
        Some(x) => {
            push_str(out, "+");
            let xc = chars_of(x.as_str());
            push_frame(out, &xc);
            proof {
                reveal_strlit("+");
            }
            assert(out@ =~= old(out)@ + opt_frame(opt_text(*o)));
        },
        None => {
            push_str(out, "-");
        },
    }
}

pub(crate) fn strings_chars(v: &Vec<String>) -> (r: Vec<Vec<char>>)
    ensures
        texts(r@) == strs(v@),
{
    let mut r: Vec<Vec<char>> = Vec::new();
    let mut i: usize = 0;
    while i < v.len()
        invariant
            i <= v.len(),
            texts(r@) == strs(v@).take(i as int),
        decreases v.len() - i,
    {
        let c = chars_of(v[i].as_str());
        let ghost before = r@;
        r.push(c);
        proof {
            crate::text::lemma_texts_push(before, c);
        }
        assert(texts(r@) =~= strs(v@).take(i + 1));
        i = i + 1;
    }
    assert(strs(v@).take(v.len() as int) =~= strs(v@));
    r
}

fn node_text_exec(n: &LockGraphNode) -> (r: Vec<char>)
    ensures
        r@ == node_text(node_view(*n)),
{
    let mut out: Vec<char> = Vec::new();
    let l = chars_of(n.locator.as_str());
    push_frame(&mut out, &l);
    let nm = chars_of(n.name.as_str());
    push_frame(&mut out, &nm);
    let v = chars_of(n.version.as_str());
    push_frame(&mut out, &v);
    push_opt_frame(&mut out, &n.integrity);
    let os = strings_chars(&n.platform.os);
    push_frame_list(&mut out, &os);
    let cpu = strings_chars(&n.platform.cpu);
    push_frame_list(&mut out, &cpu);
    let libc = strings_chars(&n.platform.libc);
    push_frame_list(&mut out, &libc);
    assert(out@ =~= node_text(node_view(*n)));
    out
}

fn edge_text_exec(e: &LockGraphEdge) -> (r: Vec<char>)
    ensures
        r@ == edge_text(edge_view(*e)),
{
    let mut out: Vec<char> = Vec::new();
    let f = chars_of(e.from.as_str());
    push_frame(&mut out, &f);
    let d = chars_of(e.dependency.as_str());
    push_frame(&mut out, &d);
    let k = chars_of(e.kind.as_str());
    push_frame(&mut out, &k);
    push_opt_frame(&mut out, &e.target);
    assert(out@ =~= edge_text(edge_view(*e)));
    out
}

fn push_header(out: &mut Vec<char>, m: PackageManagerId, path: &str, digest: &str, format: &str)
    ensures
        final(out)@ == old(out)@ + header_text(m, path@, digest@, format@),
{
    let s = chars_of(SCHEMA_VERSION);
    push_frame(out, &s);
    let mn = chars_of(m.as_str());
    push_frame(out, &mn);
    let p = chars_of(path);
    push_frame(out, &p);
    let d = chars_of(digest);
    push_frame(out, &d);
    let f = chars_of(format);
    push_frame(out, &f);
    assert(out@ =~= old(out)@ + header_text(m, path@, digest@, format@));
}

fn incomplete_graph(m: PackageManagerId, path: &str, digest: String, format: &str, d: Diagnostic) -> (g: LockGraph)
    ensures
        graph_view(g) == incomplete_graph_view(m, path@, digest@, format@, d@),
{
    let mut text: Vec<char> = Vec::new();
    push_header(&mut text, m, path, digest.as_str(), format);
    push_str(&mut text, "0");
    let graph_id = short_digest("lockgraph_", &text);
    let mut diagnostics: Vec<Diagnostic> = Vec::new();
    diagnostics.push(d);
    let g = LockGraph {
        schema_version: SCHEMA_VERSION.to_owned(),
        graph_id,
        manager: m,
        lockfile_path: path.to_owned(),
        lockfile_digest: digest,
        format: format.to_owned(),
        complete: false,
        nodes: Vec::new(),
        edges: Vec::new(),
        diagnostics,
    };
    assert(graph_view(g).nodes =~= Seq::<NodeView>::empty());
    assert(graph_view(g).edges =~= Seq::<EdgeView>::empty());
    assert(graph_view(g).diagnostics =~= seq![d@]);
    g
}

fn parse_lock_text(m: PackageManagerId, text: &str) -> (r: Result<(Vec<LockGraphNode>, Vec<LockGraphEdge>), String>)
    ensures
        parts_view(r) == parsed_lock(m, text@),
{
    match m {
        PackageManagerId::Npm => match read_json(text) {
            Err(e) => Err(e),
            Ok(doc) => parse_npm_checked(&doc),
        },
        PackageManagerId::Pnpm => match read_yaml(text) {
            Err(e) => Err(e),
            Ok(doc) => parse_pnpm_checked(&doc),
        },
        PackageManagerId::YarnClassic => parse_yarn_classic_checked(text),
        PackageManagerId::YarnModern => match read_yaml(text) {
            Err(e) => Err(e),
            Ok(doc) => parse_yarn_modern_checked(&doc),
        },
        PackageManagerId::Bun => match read_json5(text) {
            Err(e) => Err(e),
            Ok(doc) => parse_bun_checked(&doc),
        },
        PackageManagerId::Vlt => match read_json(text) {
            Err(e) => Err(e),
            Ok(doc) => parse_vlt_checked(&doc),
        },
        PackageManagerId::Deno => match read_json(text) {
            Err(e) => Err(e),
            Ok(doc) => parse_deno_checked(&doc),
        },
    }
}

fn one_line(s: &str) -> (r: Vec<String>)
    ensures
        strs(r@) == seq![s@],
{
    let mut r: Vec<String> = Vec::new();
    r.push(s.to_owned());
    assert(strs(r@) =~= seq![s@]);
    r
}

/// The dependency graph of the lockfile `path` of manager `m`, whose
/// content is `bytes`, as `lock_graph_spec` states: a binary Bun lockfile,
/// bytes that are not UTF-8 and a document that cannot be read each give an
/// incomplete graph that says why.
pub fn lock_graph_from_lockfile(m: PackageManagerId, path: &str, bytes: &[u8]) -> (g: LockGraph)
    ensures
        graph_view(g) == lock_graph_spec(m, path@, bytes@),
{
    let digest = digest_bytes(bytes);
    let p = chars_of(path);
    if str_eq(&p, "bun.lockb") {
        let d = graph_diagnostic(
            "LOCK_GRAPH_FORMAT_UNSUPPORTED",
            &chars_of("Binary bun.lockb dependency graphs cannot be proven safely."),
            path,
            true,
            one_line("Convert bun.lockb to the current text bun.lock format before planning."),
        );
        return incomplete_graph(m, path, digest, "bun-binary", d);
    }
    let text = match decode_utf8(bytes) {
        Ok(t) => t,
        Err(e) => {
            let mut summary = chars_of("The source lockfile is not UTF-8: ");
            let ec = chars_of(e.as_str());
            push_chars(&mut summary, &ec);
            let d = graph_diagnostic(
                "LOCK_GRAPH_ENCODING_INVALID",
                &summary,
                path,
                true,
                one_line("Regenerate the lockfile with its owning package manager."),
            );
            return incomplete_graph(m, path, digest, "unknown", d);
        },
    };
    let (nodes, edges) = match parse_lock_text(m, text.as_str()) {
        Ok(p) => p,
        Err(e) => {
            let mut summary = chars_of("The source lockfile graph could not be parsed: ");
            let ec = chars_of(e.as_str());
            push_chars(&mut summary, &ec);
            let d = graph_diagnostic(
                "LOCK_GRAPH_PARSE_FAILED",
                &summary,
                path,
                true,
                one_line("Regenerate the lockfile with its pinned package manager."),
            );
            return incomplete_graph(m, path, digest, "unknown", d);
        },
    };
    complete_graph(m, path, digest, nodes, edges)
}

fn complete_graph(
    m: PackageManagerId,
    path: &str,
    digest: String,
    nodes: Vec<LockGraphNode>,
    edges: Vec<LockGraphEdge>,
) -> (g: LockGraph)
    ensures
        ({
            let sn = sort_nodes(nodes_view(nodes@));
            let se = sort_edges(edges_view(edges@));
            graph_view(g) == (GraphView {
                schema_version: SCHEMA_VERSION@,
                graph_id: short_digest_spec("lockgraph_"@, complete_graph_text(m, path@, digest@, lock_format(m), sn, se)),
                manager: m,
                lockfile_path: path@,
                lockfile_digest: digest@,
                format: lock_format(m),
                complete: true,
                nodes: sn,
                edges: se,
                diagnostics: seq![],
            })
        }),
{
    let nodes = sorted_nodes(nodes);
    let edges = sorted_edges(edges);
    let format = lock_format_exec(m);
    let mut id_text: Vec<char> = Vec::new();
    push_header(&mut id_text, m, path, digest.as_str(), format);
    push_str(&mut id_text, "1");
    let mut node_texts: Vec<Vec<char>> = Vec::new();
    let mut i: usize = 0;
    while i < nodes.len()
        invariant
            i <= nodes.len(),
            texts(node_texts@) == nodes_view(nodes@).take(i as int).map_values(|n: NodeView| node_text(n)),
        decreases nodes.len() - i,
    {
        let t = node_text_exec(&nodes[i]);
        let ghost before = node_texts@;
        node_texts.push(t);
        proof {
            crate::text::lemma_texts_push(before, t);
        }
        assert(texts(node_texts@) =~= nodes_view(nodes@).take(i + 1).map_values(|n: NodeView| node_text(n)));
        i = i + 1;
    }
    assert(nodes_view(nodes@).take(nodes.len() as int) =~= nodes_view(nodes@));
    push_frame_list(&mut id_text, &node_texts);
    let mut edge_texts: Vec<Vec<char>> = Vec::new();
    let mut j: usize = 0;
    while j < edges.len()
        invariant
            j <= edges.len(),
            texts(edge_texts@) == edges_view(edges@).take(j as int).map_values(|e: EdgeView| edge_text(e)),
        decreases edges.len() - j,
    {
        let t = edge_text_exec(&edges[j]);
        let ghost before = edge_texts@;
        edge_texts.push(t);
        proof {
            crate::text::lemma_texts_push(before, t);
        }
        assert(texts(edge_texts@) =~= edges_view(edges@).take(j + 1).map_values(|e: EdgeView| edge_text(e)));
        j = j + 1;
    }
    assert(edges_view(edges@).take(edges.len() as int) =~= edges_view(edges@));
    push_frame_list(&mut id_text, &edge_texts);
    let graph_id = short_digest("lockgraph_", &id_text);
    let g = LockGraph {
        schema_version: SCHEMA_VERSION.to_owned(),
        graph_id,
        manager: m,
        lockfile_path: path.to_owned(),
        lockfile_digest: digest,
        format: format.to_owned(),
        complete: true,
        nodes,
        edges,
        diagnostics: Vec::new(),
    };
    assert(graph_view(g).diagnostics =~= Seq::<DiagnosticView>::empty());
    g
}

} // verus!
