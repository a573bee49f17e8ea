//! Nodes and edges read from parsed lockfile documents.
use vstd::prelude::*;
use crate::json::{
    array_items, as_array, as_bool, as_object, as_str, bool_value, find_member, get, get_in,
    get_member, is_number_or_string, json_view, member_index, members_view, number_or_string,
    object_members, opt_view, string_value, Json, JsonValue,
};
use crate::model::{ascii_lowercase, ascii_lowercase_exec, LockGraphEdge, LockGraphNode};
use crate::policy::PackagePlatformConstraint;
use crate::sorted::{lemma_sorted_unique, lists_sorted, sorted_set, sorted_unique};
use crate::text::{
    chars_of, contains_seq, push_chars, push_str, rfind_char, rfind_char_exec, slice_of,
    starts_with, str_contains, str_eq, str_starts_with, string_of, strings_of, strs, texts,
};
use super::extraction::{split_locator, split_locator_spec};

verus! {

/// A lockfile node as plain values.
pub struct NodeView {
    pub locator: Seq<char>,
    pub name: Seq<char>,
    pub version: Seq<char>,
    pub integrity: Option<Seq<char>>,
    pub os: Seq<Seq<char>>,
    pub cpu: Seq<Seq<char>>,
    pub libc: Seq<Seq<char>>,
}

/// A lockfile edge as plain values.
pub struct EdgeView {
    pub from: Seq<char>,
    pub dependency: Seq<char>,
    pub kind: Seq<char>,
    pub target: Option<Seq<char>>,
}

pub open spec fn opt_text(s: Option<String>) -> Option<Seq<char>> {
    match s {
        Some(x) => Some(x@),
        None => None,
    }
}

pub open spec fn node_view(n: LockGraphNode) -> NodeView {
    NodeView {
        locator: n.locator@,
        name: n.name@,
        version: n.version@,
        integrity: opt_text(n.integrity),
        os: strs(n.platform.os@),
        cpu: strs(n.platform.cpu@),
        libc: strs(n.platform.libc@),
    }
}

pub open spec fn edge_view(e: LockGraphEdge) -> EdgeView {
    EdgeView { from: e.from@, dependency: e.dependency@, kind: e.kind@, target: opt_text(e.target) }
}

pub open spec fn nodes_view(s: Seq<LockGraphNode>) -> Seq<NodeView> {
    s.map_values(|n: LockGraphNode| node_view(n))
}

pub open spec fn edges_view(s: Seq<LockGraphEdge>) -> Seq<EdgeView> {
    s.map_values(|e: LockGraphEdge| edge_view(e))
}

pub proof fn lemma_nodes_push(s: Seq<LockGraphNode>, n: LockGraphNode)
    ensures
        nodes_view(s.push(n)) == nodes_view(s).push(node_view(n)),
{
    assert(nodes_view(s.push(n)) =~= nodes_view(s).push(node_view(n)));
}

pub proof fn lemma_edges_push(s: Seq<LockGraphEdge>, e: LockGraphEdge)
    ensures
        edges_view(s.push(e)) == edges_view(s).push(edge_view(e)),
{
    assert(edges_view(s.push(e)) =~= edges_view(s).push(edge_view(e)));
}

/// The strings among the items of an array, in order.
pub open spec fn json_strings(items: Seq<Json>) -> Seq<Seq<char>>
    decreases items.len(),
{
    if items.len() == 0 {
        seq![]
    } else {
        json_strings(items.drop_last()) + match items.last() {
            Json::Str(s) => seq![s],
            _ => seq![],
        }
    }
}

/// The strings a platform field lists: every string of an array, or the one
/// string.
pub open spec fn raw_string_list(j: Option<Json>) -> Seq<Seq<char>> {
    match j {
        Some(Json::Array(items)) => json_strings(items),
        Some(Json::Str(s)) => seq![s],
        _ => seq![],
    }
}

/// The lower-cased strings of the member `key`, increasing, each once.
pub open spec fn string_list_spec(j: Option<Json>, key: Seq<char>) -> Seq<Seq<char>> {
    sorted_set(raw_string_list(get_in(j, key)).map_values(|s: Seq<char>| ascii_lowercase(s)).to_set())
}

fn string_list(v: Option<&JsonValue>, key: &str) -> (r: Vec<String>)
    ensures
        strs(r@) == string_list_spec(opt_view(v), key@),
{
    let mut raw: Vec<Vec<char>> = Vec::new();
    let entry = match v {
        Some(x) => get_member(x, key),
        None => None,
    };
    let ghost ej = get_in(opt_view(v), key@);
    assert(opt_view(entry) == ej);
    match array_items(entry) {
        Some(items) => {
            let ghost iv = items@.map_values(|x: JsonValue| json_view(x));
            let mut k: usize = 0;
            while k < items.len()
                invariant
                    k <= items.len(),
                    iv == items@.map_values(|x: JsonValue| json_view(x)),
                    texts(raw@) == json_strings(iv.take(k as int)).map_values(|s: Seq<char>| ascii_lowercase(s)),
                decreases items.len() - k,
            {
                assert(iv.take(k + 1).drop_last() =~= iv.take(k as int));
                assert(iv.take(k + 1).last() == json_view(items@[k as int]));
                let ghost before = raw@;
                match &items[k] {
                    JsonValue::Str(s) => {
                        let cs = chars_of(s.as_str());
                        let low = ascii_lowercase_exec(&cs);
                        raw.push(low);
                        proof {
                            crate::text::lemma_texts_push(before, low);
                        }
                    },
                    _ => {},
                }
                assert(texts(raw@) =~= json_strings(iv.take(k + 1)).map_values(|s: Seq<char>| ascii_lowercase(s)));
                k = k + 1;
            }
            assert(iv.take(items.len() as int) =~= iv);
        },
        None => {
            match string_value(entry) {
                Some(s) => {
                    let cs = chars_of(s.as_str());
                    raw.push(ascii_lowercase_exec(&cs));
                    assert(texts(raw@) =~= seq![s@].map_values(|s: Seq<char>| ascii_lowercase(s)));
                },
                None => {
                    assert(texts(raw@) =~= Seq::<Seq<char>>::empty().map_values(|s: Seq<char>| ascii_lowercase(s)));
                },
            }
        },
    }
    assert(texts(raw@) == raw_string_list(ej).map_values(|s: Seq<char>| ascii_lowercase(s)));
    let sorted = sorted_unique(&raw);
    let r = strings_of(&sorted);
    proof {
        let set = texts(raw@).to_set();
        assert(lists_sorted(texts(sorted@), set));
        let w = sorted_set(set);
        assert(lists_sorted(w, set));
        lemma_sorted_unique(w, texts(sorted@));
    }
    r
}

/// The platform lists of a package entry.
pub open spec fn platform_spec(j: Option<Json>) -> (Seq<Seq<char>>, Seq<Seq<char>>, Seq<Seq<char>>) {
    (string_list_spec(j, "os"@), string_list_spec(j, "cpu"@), string_list_spec(j, "libc"@))
}

pub open spec fn platform_view(p: PackagePlatformConstraint) -> (Seq<Seq<char>>, Seq<Seq<char>>, Seq<Seq<char>>) {
    (strs(p.os@), strs(p.cpu@), strs(p.libc@))
}

fn platform_constraint(v: Option<&JsonValue>) -> (r: PackagePlatformConstraint)
    ensures
        platform_view(r) == platform_spec(opt_view(v)),
{
    PackagePlatformConstraint {
        os: string_list(v, "os"),
        cpu: string_list(v, "cpu"),
        libc: string_list(v, "libc"),
    }
}

/// A node from its fields and the entry its platform lists come from.
pub open spec fn node_of(
    locator: Seq<char>,
    name: Seq<char>,
    version: Seq<char>,
    integrity: Option<Seq<char>>,
    platform: (Seq<Seq<char>>, Seq<Seq<char>>, Seq<Seq<char>>),
) -> NodeView {
    NodeView { locator, name, version, integrity, os: platform.0, cpu: platform.1, libc: platform.2 }
}

fn make_node(
    locator: &[char],
    name: &[char],
    version: &[char],
    integrity: Option<String>,
    platform: PackagePlatformConstraint,
) -> (r: LockGraphNode)
    ensures
        node_view(r) == node_of(locator@, name@, version@, opt_text(integrity), platform_view(platform)),
{
    LockGraphNode {
        locator: string_of(locator),
        name: string_of(name),
        version: string_of(version),
        integrity,
        platform,
    }
}

/// Edges from `parent` to each member of the object `section`, untargeted.
pub open spec fn section_edges(j: Option<Json>, section: Seq<char>, kind: Seq<char>, parent: Seq<char>) -> Seq<EdgeView> {
    match as_object(get_in(j, section)) {
        Some(ms) => ms.map_values(
            |m: (Seq<char>, Json)| EdgeView { from: parent, dependency: m.0, kind, target: None },
        ),
        None => seq![],
    }
}

/// The dependency, optional and peer edges of a package entry.
pub open spec fn dependency_edges_spec(j: Option<Json>, parent: Seq<char>) -> Seq<EdgeView> {
    section_edges(j, "dependencies"@, "dependency"@, parent) + section_edges(
        j,
        "optionalDependencies"@,
        "optional"@,
        parent,
    ) + section_edges(j, "peerDependencies"@, "peer"@, parent)
}

fn push_section_edges(
    edges: &mut Vec<LockGraphEdge>,
    v: Option<&JsonValue>,
    section: &str,
    kind: &str,
    parent: &[char],
)
    ensures
        edges_view(final(edges)@) == edges_view(old(edges)@) + section_edges(opt_view(v), section@, kind@, parent@),
{
    let entry = match v {
        Some(x) => get_member(x, section),
        None => None,
    };
    let ghost base = edges_view(edges@);
    match object_members(entry) {
        Some(ms) => {
            let ghost mv = members_view(ms@);
            let ghost all = mv.map_values(
                |m: (Seq<char>, Json)| EdgeView { from: parent@, dependency: m.0, kind: kind@, target: None },
            );
            let mut k: usize = 0;
            while k < ms.len()
                invariant
                    k <= ms.len(),
                    mv == members_view(ms@),
                    all == mv.map_values(
                        |m: (Seq<char>, Json)| EdgeView { from: parent@, dependency: m.0, kind: kind@, target: None },
                    ),
                    edges_view(edges@) == base + all.take(k as int),
                decreases ms.len() - k,
            {
                let e = LockGraphEdge {
                    from: string_of(parent),
                    dependency: ms[k].0.as_str().to_owned(),
                    kind: kind.to_owned(),
                    target: None,
                };
                let ghost before = edges@;
                edges.push(e);
                proof {
                    lemma_edges_push(before, e);
                    assert(all.take(k + 1) =~= all.take(k as int).push(all[k as int]));
                }
                assert(edges_view(edges@) =~= base + all.take(k + 1));
                k = k + 1;
            }
            assert(all.take(ms.len() as int) =~= all);
        },
        None => {
            assert(edges_view(edges@) =~= base + Seq::<EdgeView>::empty());
        },
    }
}

fn push_dependency_edges(edges: &mut Vec<LockGraphEdge>, v: Option<&JsonValue>, parent: &[char])
    ensures
        edges_view(final(edges)@) == edges_view(old(edges)@) + dependency_edges_spec(opt_view(v), parent@),
{
    let ghost base = edges_view(edges@);
    push_section_edges(edges, v, "dependencies", "dependency", parent);
    push_section_edges(edges, v, "optionalDependencies", "optional", parent);
    push_section_edges(edges, v, "peerDependencies", "peer", parent);
    assert(edges_view(edges@) =~= base + dependency_edges_spec(opt_view(v), parent@));
}

/// A document with a numeric or string `lockfileVersion`.
pub open spec fn has_lockfile_version(doc: Json) -> bool {
    number_or_string(get(doc, "lockfileVersion"@))
}

/// `name@version`.
pub open spec fn resolution_text(name: Seq<char>, version: Seq<char>) -> Seq<char> {
    name + "@"@ + version
}

fn resolution_chars(name: &[char], version: &[char]) -> (r: Vec<char>)
    ensures
        r@ == resolution_text(name@, version@),
{
    let mut r = slice_of(name, 0, name.len());
    push_str(&mut r, "@");
    push_chars(&mut r, version);
    assert(name@.subrange(0, name@.len() as int) =~= name@);
    r
}

/// The nodes and edges that `entry` makes of each member, in member order.
pub open spec fn fold_parts(
    ms: Seq<(Seq<char>, Json)>,
    entry: spec_fn((Seq<char>, Json)) -> (Seq<NodeView>, Seq<EdgeView>),
) -> (Seq<NodeView>, Seq<EdgeView>)
    decreases ms.len(),
{
    if ms.len() == 0 {
        (seq![], seq![])
    } else {
        let (n, e) = fold_parts(ms.drop_last(), entry);
        let (n1, e1) = entry(ms.last());
        (n + n1, e + e1)
    }
}

/// The first complaint that `check` has about a member, in member order.
pub open spec fn first_error(
    ms: Seq<(Seq<char>, Json)>,
    check: spec_fn((Seq<char>, Json)) -> Option<Seq<char>>,
) -> Option<Seq<char>>
    decreases ms.len(),
{
    if ms.len() == 0 {
        None
    } else {
        match first_error(ms.drop_last(), check) {
            Some(e) => Some(e),
            None => check(ms.last()),
        }
    }
}

pub proof fn lemma_first_error_prefix(
    ms: Seq<(Seq<char>, Json)>,
    check: spec_fn((Seq<char>, Json)) -> Option<Seq<char>>,
    k: int,
)
    requires
        0 <= k <= ms.len(),
        first_error(ms.take(k), check) is Some,
    ensures
        first_error(ms, check) == first_error(ms.take(k), check),
    decreases ms.len(),
{
    if k < ms.len() {
        assert(ms.drop_last().take(k) =~= ms.take(k));
        lemma_first_error_prefix(ms.drop_last(), check, k);
    } else {
        assert(ms.take(k) =~= ms);
    }
}

/// The last position at or before `i` where `p` occurs in `s`.
pub open spec fn rfind_seq_from(s: Seq<char>, p: Seq<char>, i: int) -> Option<int>
    decreases i + 1,
{
    if i < 0 {
        None
    } else if crate::text::matches_at(s, p, i) {
        Some(i)
    } else {
        rfind_seq_from(s, p, i - 1)
    }
}

pub open spec fn rfind_seq(s: Seq<char>, p: Seq<char>) -> Option<int> {
    rfind_seq_from(s, p, s.len() - p.len())
}

proof fn lemma_rfind_seq_from_bounds(s: Seq<char>, p: Seq<char>, i: int)
    ensures
        rfind_seq_from(s, p, i) matches Some(j) ==> 0 <= j <= i && crate::text::matches_at(s, p, j),
    decreases i + 1,
{
    if i >= 0 && !crate::text::matches_at(s, p, i) {
        lemma_rfind_seq_from_bounds(s, p, i - 1);
    }
}

fn rfind_seq_exec(s: &[char], p: &[char]) -> (r: Option<usize>)
    ensures
        match r {
            Some(j) => rfind_seq(s@, p@) == Some(j as int) && j + p@.len() <= s@.len(),
            None => rfind_seq(s@, p@) is None,
        },
{
    if p.len() > s.len() {
        return None;
    }
    let mut i: usize = s.len() - p.len();
    loop
        invariant
            i <= s.len() - p.len(),
            p.len() <= s.len(),
            rfind_seq(s@, p@) == rfind_seq_from(s@, p@, i as int),
        decreases i,
    {
        if crate::text::matches_at_exec(s, p, i) {
            return Some(i);
        }
        if i == 0 {
            return None;
        }
        i = i - 1;
    }
}

/// The text up to the first `/`.
pub open spec fn first_segment(s: Seq<char>) -> Seq<char> {
    match crate::text::find_char(s, '/') {
        Some(j) => s.take(j),
        None => s,
    }
}

/// The package name that an npm `node_modules/...` path installs.
pub open spec fn npm_name_from_path_spec(path: Seq<char>) -> Option<Seq<char>> {
    match rfind_seq(path, "node_modules/"@) {
        None => None,
        Some(idx) => {
            let rem = path.skip(idx + 13);
            let first = first_segment(rem);
            if starts_with(first, "@"@) {
                match crate::text::find_char(rem, '/') {
                    None => None,
                    Some(j) => Some(first + "/"@ + first_segment(rem.skip(j + 1))),
                }
            } else {
                Some(first)
            }
        },
    }
}

fn first_segment_exec(s: &[char]) -> (r: Vec<char>)
    ensures
        r@ == first_segment(s@),
{
    match crate::text::find_char_exec(s, '/') {
        Some(j) => {
            proof {
                crate::text::lemma_find_char_bounds(s@, '/');
            }
            slice_of(s, 0, j)
        },
        None => slice_of(s, 0, s.len()),
    }
}

pub fn npm_name_from_path(path: &[char]) -> (r: Option<Vec<char>>)
    ensures
        match r {
            Some(n) => npm_name_from_path_spec(path@) == Some(n@),
            None => npm_name_from_path_spec(path@) is None,
        },
{
    proof {
        reveal_strlit("node_modules/");
    }
    let marker = chars_of("node_modules/");
    assert(marker@.len() == 13);
    let idx = match rfind_seq_exec(path, &marker) {
        Some(i) => i,
        None => {
            return None;
        },
    };
    let plen = path.len();
    assert(idx + 13 <= plen);
    let rem = slice_of(path, idx + 13, plen);
    let first = first_segment_exec(&rem);
    if str_starts_with(&first, "@") {
        match crate::text::find_char_exec(&rem, '/') {
            None => None,
            Some(j) => {
                proof {
                    crate::text::lemma_find_char_bounds(rem@, '/');
                }
                let after = slice_of(&rem, j + 1, rem.len());
                let second = first_segment_exec(&after);
                let mut name = first;
                push_str(&mut name, "/");
                push_chars(&mut name, &second);
                Some(name)
            },
        }
    } else {
        Some(first)
    }
}

/// What an npm `packages` member contributes.
pub open spec fn npm_entry(m: (Seq<char>, Json)) -> (Seq<NodeView>, Seq<EdgeView>) {
    let (path, meta) = m;
    if path.len() == 0 || as_bool(get(meta, "link"@)) == Some(true) {
        (seq![], seq![])
    } else {
        match npm_name_from_path_spec(path) {
            None => (seq![], seq![]),
            Some(path_name) => match as_str(get(meta, "version"@)) {
                None => (seq![], seq![]),
                Some(version) => {
                    let name = match as_str(get(meta, "name"@)) {
                        Some(n) => n,
                        None => path_name,
                    };
                    (
                        seq![node_of(path, name, version, as_str(get(meta, "integrity"@)), platform_spec(Some(meta)))],
                        dependency_edges_spec(Some(meta), resolution_text(name, version)),
                    )
                },
            },
        }
    }
}

/// What a `packages` member of a package-lock file is refused for.
pub open spec fn npm_entry_error(m: (Seq<char>, Json)) -> Option<Seq<char>> {
    let (path, meta) = m;
    if path.len() == 0 || npm_name_from_path_spec(path) is None || as_bool(get(meta, "link"@)) == Some(true) {
        None
    } else if !(meta is Object) || as_str(get(meta, "version"@)) is None {
        Some("unsupported package entry at "@ + path)
    } else {
        None
    }
}

/// The graph parts of a package-lock document, or why it is refused.
pub open spec fn npm_lock_spec(doc: Json) -> Result<(Seq<NodeView>, Seq<EdgeView>), Seq<char>> {
    if !has_lockfile_version(doc) {
        Err("missing lockfileVersion"@)
    } else {
        match as_object(get(doc, "packages"@)) {
            None => Err("package-lock files without a packages map are not supported"@),
            Some(ms) => match first_error(ms, |m: (Seq<char>, Json)| npm_entry_error(m)) {
                Some(e) => Err(e),
                None => Ok(fold_parts(ms, |m: (Seq<char>, Json)| npm_entry(m))),
            },
        }
    }
}

/// The view of a parser's result.
pub open spec fn parts_view(r: Result<(Vec<LockGraphNode>, Vec<LockGraphEdge>), String>) -> Result<
    (Seq<NodeView>, Seq<EdgeView>),
    Seq<char>,
> {
    match r {
        Ok(p) => Ok((nodes_view(p.0@), edges_view(p.1@))),
        Err(e) => Err(e@),
    }
}

fn npm_member(
    path: &String,
    meta: &JsonValue,
    nodes: &mut Vec<LockGraphNode>,
    edges: &mut Vec<LockGraphEdge>,
) -> (err: Option<String>)
    ensures
        match err {
            Some(e) => npm_entry_error((path@, json_view(*meta))) == Some(e@),
            None => npm_entry_error((path@, json_view(*meta))) is None && ({
                let (n1, e1) = npm_entry((path@, json_view(*meta)));
                &&& nodes_view(final(nodes)@) == nodes_view(old(nodes)@) + n1
                &&& edges_view(final(edges)@) == edges_view(old(edges)@) + e1
            }),
        },
{
    let ghost n0 = nodes_view(nodes@);
    let ghost e0 = edges_view(edges@);
    let p = chars_of(path.as_str());
    let m = Some(meta);
    let link = bool_value(get_member(meta, "link"));
    if p.len() == 0 || link == Some(true) {
        assert(nodes_view(nodes@) =~= n0 + Seq::<NodeView>::empty());
        assert(edges_view(edges@) =~= e0 + Seq::<EdgeView>::empty());
        return None;
    }
    let path_name = match npm_name_from_path(&p) {
        Some(n) => n,
        None => {
            assert(nodes_view(nodes@) =~= n0 + Seq::<NodeView>::empty());
            assert(edges_view(edges@) =~= e0 + Seq::<EdgeView>::empty());
            return None;
        },
    };
    let is_obj = match meta {
        JsonValue::Object(_) => true,
        _ => false,
    };
    let version = match string_value(get_member(meta, "version")) {
        Some(v) => v,
        None => {
            let mut msg = chars_of("unsupported package entry at ");
            push_chars(&mut msg, &p);
            return Some(string_of(&msg));
        },
    };
    if !is_obj {
        let mut msg = chars_of("unsupported package entry at ");
        push_chars(&mut msg, &p);
        return Some(string_of(&msg));
    }
    let name = match string_value(get_member(meta, "name")) {
        Some(n) => chars_of(n.as_str()),
        None => path_name,
    };
    let vc = chars_of(version.as_str());
    let integrity = match string_value(get_member(meta, "integrity")) {
        Some(i) => Some(i.as_str().to_owned()),
        None => None,
    };
    let node = make_node(&p, &name, &vc, integrity, platform_constraint(m));
    let ghost nb = nodes@;
    nodes.push(node);
    proof {
        lemma_nodes_push(nb, node);
    }
    let parent = resolution_chars(&name, &vc);
    push_dependency_edges(edges, m, &parent);
    assert(nodes_view(nodes@) =~= n0 + npm_entry((path@, json_view(*meta))).0);
    None
}

/// The nodes and edges of a parsed package-lock document, as `npm_lock_spec`
/// states.
pub fn parse_npm_checked(doc: &JsonValue) -> (r: Result<(Vec<LockGraphNode>, Vec<LockGraphEdge>), String>)
    ensures
        parts_view(r) == npm_lock_spec(json_view(*doc)),
{
    if !is_number_or_string(get_member(doc, "lockfileVersion")) {
        return Err("missing lockfileVersion".to_owned());
    }
    let ms = match object_members(get_member(doc, "packages")) {
        Some(ms) => ms,
        None => {
            return Err("package-lock files without a packages map are not supported".to_owned());
        },
    };
    let ghost mv = members_view(ms@);
    let ghost entry = |m: (Seq<char>, Json)| npm_entry(m);
    let ghost check = |m: (Seq<char>, Json)| npm_entry_error(m);
    let mut nodes: Vec<LockGraphNode> = Vec::new();
    let mut edges: Vec<LockGraphEdge> = Vec::new();
    let mut k: usize = 0;
    while k < ms.len()
        invariant
            k <= ms.len(),
            mv == members_view(ms@),
            entry == (|m: (Seq<char>, Json)| npm_entry(m)),
            check == (|m: (Seq<char>, Json)| npm_entry_error(m)),
            has_lockfile_version(json_view(*doc)),
            as_object(get(json_view(*doc), "packages"@)) == Some(mv),
            first_error(mv.take(k as int), check) is None,
            (nodes_view(nodes@), edges_view(edges@)) == fold_parts(mv.take(k as int), entry),
        decreases ms.len() - k,
    {
        assert(mv.take(k + 1).drop_last() =~= mv.take(k as int));
        assert(mv.take(k + 1).last() == mv[k as int]);
        match npm_member(&ms[k].0, &ms[k].1, &mut nodes, &mut edges) {
            Some(e) => {
                proof {
                    assert(mv[k as int] == (ms@[k as int].0@, json_view(ms@[k as int].1)));
                    assert(first_error(mv.take(k + 1), check) == Some(e@));
                    lemma_first_error_prefix(mv, check, k + 1);
                }
                return Err(e);
            },
            None => {},
        }
        k = k + 1;
    }
    assert(mv.take(ms.len() as int) =~= mv);
    Ok((nodes, edges))
}

/// A pnpm locator of a local package.
pub open spec fn is_local_pnpm_locator_spec(l: Seq<char>) -> bool {
    ||| starts_with(l, "file:"@) || contains_seq(l, "@file:"@)
    ||| starts_with(l, "link:"@) || contains_seq(l, "@link:"@)
    ||| starts_with(l, "workspace:"@) || contains_seq(l, "@workspace:"@)
}

pub fn is_local_pnpm_locator(l: &[char]) -> (r: bool)
    ensures
        r == is_local_pnpm_locator_spec(l@),
{
    str_starts_with(l, "file:") || str_contains(l, "@file:") || str_starts_with(l, "link:")
        || str_contains(l, "@link:") || str_starts_with(l, "workspace:") || str_contains(l, "@workspace:")
}

/// The entry whose `dependencies` a pnpm package's edges come from: its
/// snapshot when there is one, else its own entry.
pub open spec fn pnpm_dependency_source(snapshots: Option<Seq<(Seq<char>, Json)>>, locator: Seq<char>, meta: Json) -> Json {
    match snapshots {
        Some(s) => match find_member(s, locator) {
            Some(i) => s[i].1,
            None => meta,
        },
        None => meta,
    }
}

/// What a pnpm `packages` member contributes.
pub open spec fn pnpm_entry(snapshots: Option<Seq<(Seq<char>, Json)>>, m: (Seq<char>, Json)) -> (Seq<NodeView>, Seq<EdgeView>) {
    let (locator, meta) = m;
    match split_locator_spec(locator) {
        None => (seq![], seq![]),
        Some((name, version)) => (
            seq![
                node_of(
                    locator,
                    name,
                    version,
                    as_str(get_in(get(meta, "resolution"@), "integrity"@)),
                    platform_spec(Some(meta)),
                ),
            ],
            dependency_edges_spec(Some(pnpm_dependency_source(snapshots, locator, meta)), resolution_text(name, version)),
        ),
    }
}

pub open spec fn pnpm_locator_error(m: (Seq<char>, Json)) -> Option<Seq<char>> {
    if split_locator_spec(m.0) is None && !is_local_pnpm_locator_spec(m.0) {
        Some("unsupported pnpm package locator "@ + m.0)
    } else {
        None
    }
}

pub open spec fn pnpm_parts(doc: Json) -> (Seq<NodeView>, Seq<EdgeView>) {
    match as_object(get(doc, "packages"@)) {
        None => (seq![], seq![]),
        Some(ms) => fold_parts(
            ms,
            |m: (Seq<char>, Json)| pnpm_entry(as_object(get(doc, "snapshots"@)), m),
        ),
    }
}

pub open spec fn pnpm_after_packages(doc: Json) -> Result<(Seq<NodeView>, Seq<EdgeView>), Seq<char>> {
    if get(doc, "snapshots"@) is Some && !is_object(get(doc, "snapshots"@)) {
        Err("snapshots must be a map"@)
    } else {
        Ok(pnpm_parts(doc))
    }
}

/// The graph parts of a pnpm lockfile document, or why it is refused.
pub open spec fn pnpm_lock_spec(doc: Json) -> Result<(Seq<NodeView>, Seq<EdgeView>), Seq<char>> {
    if !has_lockfile_version(doc) {
        Err("missing lockfileVersion"@)
    } else {
        match get(doc, "packages"@) {
            Some(p) => match p {
                Json::Object(ms) => match first_error(ms, |m: (Seq<char>, Json)| pnpm_locator_error(m)) {
                    Some(e) => Err(e),
                    None => pnpm_after_packages(doc),
                },
                _ => Err("packages must be a map"@),
            },
            None => pnpm_after_packages(doc),
        }
    }
}

use crate::json::is_object;

fn pnpm_member(
    locator: &String,
    meta: &JsonValue,
    snapshots: Option<&Vec<(String, JsonValue)>>,
    nodes: &mut Vec<LockGraphNode>,
    edges: &mut Vec<LockGraphEdge>,
)
    ensures
        ({
            let snaps = match snapshots {
                Some(s) => Some(members_view(s@)),
                None => None,
            };
            let (n1, e1) = pnpm_entry(snaps, (locator@, json_view(*meta)));
            &&& nodes_view(final(nodes)@) == nodes_view(old(nodes)@) + n1
            &&& edges_view(final(edges)@) == edges_view(old(edges)@) + e1
        }),
{
    let ghost n0 = nodes_view(nodes@);
    let ghost e0 = edges_view(edges@);
    let l = chars_of(locator.as_str());
    let (name, version) = match split_locator(&l) {
        Some(p) => p,
        None => {
            assert(nodes_view(nodes@) =~= n0 + Seq::<NodeView>::empty());
            assert(edges_view(edges@) =~= e0 + Seq::<EdgeView>::empty());
            return;
        },
    };
    let resolution = get_member(meta, "resolution");
    let integrity = match resolution {
        Some(r) => match string_value(get_member(r, "integrity")) {
            Some(i) => Some(i.as_str().to_owned()),
            None => None,
        },
        None => None,
    };
    let node = make_node(&l, &name, &version, integrity, platform_constraint(Some(meta)));
    let ghost nb = nodes@;
    nodes.push(node);
    proof {
        lemma_nodes_push(nb, node);
    }
    let source: &JsonValue = match snapshots {
        Some(s) => match member_index(s, locator.as_str()) {
            Some(i) => &s[i].1,
            None => meta,
        },
        None => meta,
    };
    let parent = resolution_chars(&name, &version);
    push_dependency_edges(edges, Some(source), &parent);
    assert(nodes_view(nodes@) =~= n0 + seq![node_view(node)]);
}

/// The nodes and edges of a parsed pnpm lockfile, as `pnpm_lock_spec` states.
pub fn parse_pnpm_checked(doc: &JsonValue) -> (r: Result<(Vec<LockGraphNode>, Vec<LockGraphEdge>), String>)
    ensures
        parts_view(r) == pnpm_lock_spec(json_view(*doc)),
{
    if !is_number_or_string(get_member(doc, "lockfileVersion")) {
        return Err("missing lockfileVersion".to_owned());
    }
    let packages = get_member(doc, "packages");
    match packages {
        Some(p) => {
            match object_members(Some(p)) {
                None => {
                    return Err("packages must be a map".to_owned());
                },
                Some(ms) => {
                    let ghost mv = members_view(ms@);
                    let ghost check = |m: (Seq<char>, Json)| pnpm_locator_error(m);
                    let mut k: usize = 0;
                    while k < ms.len()
                        invariant
                            k <= ms.len(),
                            mv == members_view(ms@),
                            check == (|m: (Seq<char>, Json)| pnpm_locator_error(m)),
                            has_lockfile_version(json_view(*doc)),
                            get(json_view(*doc), "packages"@) == Some(Json::Object(mv)),
                            first_error(mv.take(k as int), check) is None,
                        decreases ms.len() - k,
                    {
                        assert(mv.take(k + 1).drop_last() =~= mv.take(k as int));
                        assert(mv.take(k + 1).last() == mv[k as int]);
                        let l = chars_of(ms[k].0.as_str());
                        if split_locator(&l).is_none() && !is_local_pnpm_locator(&l) {
                            let mut msg = chars_of("unsupported pnpm package locator ");
                            push_chars(&mut msg, &l);
                            proof {
                                lemma_first_error_prefix(mv, check, k + 1);
                            }
                            return Err(string_of(&msg));
                        }
                        k = k + 1;
                    }
                    assert(mv.take(ms.len() as int) =~= mv);
                },
            }
        },
        None => {},
    }
    assert(match get(json_view(*doc), "packages"@) {
        Some(Json::Object(ms)) => first_error(ms, |m: (Seq<char>, Json)| pnpm_locator_error(m)) is None,
        Some(_) => false,
        None => true,
    });
    assert(pnpm_lock_spec(json_view(*doc)) == pnpm_after_packages(json_view(*doc)));
    let snapshots_value = get_member(doc, "snapshots");
    let snapshots = object_members(snapshots_value);
    if snapshots_value.is_some() && snapshots.is_none() {
        return Err("snapshots must be a map".to_owned());
    }
    let ghost snaps = match snapshots {
        Some(s) => Some(members_view(s@)),
        None => None,
    };
    assert(snaps == as_object(get(json_view(*doc), "snapshots"@)));
    let mut nodes: Vec<LockGraphNode> = Vec::new();
    let mut edges: Vec<LockGraphEdge> = Vec::new();
    match object_members(packages) {
        None => {},
        Some(ms) => {
            let ghost mv = members_view(ms@);
            let ghost entry = |m: (Seq<char>, Json)| pnpm_entry(snaps, m);
            let mut k: usize = 0;
            while k < ms.len()
                invariant
                    k <= ms.len(),
                    mv == members_view(ms@),
                    entry == (|m: (Seq<char>, Json)| pnpm_entry(snaps, m)),
                    as_object(get(json_view(*doc), "packages"@)) == Some(mv),
                    snaps == match snapshots {
                        Some(s) => Some(members_view(s@)),
                        None => None::<Seq<(Seq<char>, Json)>>,
                    },
                    (nodes_view(nodes@), edges_view(edges@)) == fold_parts(mv.take(k as int), entry),
                decreases ms.len() - k,
            {
                assert(mv.take(k + 1).drop_last() =~= mv.take(k as int));
                assert(mv.take(k + 1).last() == mv[k as int]);
                pnpm_member(&ms[k].0, &ms[k].1, snapshots, &mut nodes, &mut edges);
                k = k + 1;
            }
            assert(mv.take(ms.len() as int) =~= mv);
            assert(entry == (|m: (Seq<char>, Json)| pnpm_entry(as_object(get(json_view(*doc), "snapshots"@)), m)));
            assert(pnpm_parts(json_view(*doc)) == (nodes_view(nodes@), edges_view(edges@)));
        },
    }
    assert(pnpm_parts(json_view(*doc)) == (nodes_view(nodes@), edges_view(edges@)));
    Ok((nodes, edges))
}

/// The resolution a Yarn Modern entry names: its `resolution` string, else
/// its locator.
pub open spec fn yarn_resolution(locator: Seq<char>, meta: Json) -> Seq<char> {
    match as_str(get(meta, "resolution"@)) {
        Some(r) => r,
        None => locator,
    }
}

/// What a Yarn Modern lockfile member contributes.
pub open spec fn yarn_modern_entry(m: (Seq<char>, Json)) -> (Seq<NodeView>, Seq<EdgeView>) {
    let (locator, meta) = m;
    if locator == "__metadata"@ {
        (seq![], seq![])
    } else {
        match as_str(get(meta, "version"@)) {
            None => (seq![], seq![]),
            Some(version) => match split_locator_spec(yarn_resolution(locator, meta)) {
                None => (seq![], seq![]),
                Some((name, _)) => {
                    let integrity = match as_str(get(meta, "checksum"@)) {
                        Some(c) => Some("yarn:"@ + c),
                        None => None,
                    };
                    (
                        seq![node_of(locator, name, version, integrity, platform_spec(Some(meta)))],
                        dependency_edges_spec(Some(meta), resolution_text(name, version)),
                    )
                },
            },
        }
    }
}

/// A resolution naming a local package.
pub open spec fn local_resolution(r: Seq<char>) -> bool {
    contains_seq(r, "workspace:"@) || contains_seq(r, "file:"@) || contains_seq(r, "link:"@)
}

pub open spec fn yarn_modern_error(m: (Seq<char>, Json)) -> Option<Seq<char>> {
    let (locator, meta) = m;
    if locator == "__metadata"@ {
        None
    } else if !(meta is Object) {
        Some("unsupported Yarn entry "@ + locator)
    } else if as_str(get(meta, "version"@)) is None {
        Some("missing version for Yarn entry "@ + locator)
    } else {
        let resolution = yarn_resolution(locator, meta);
        if split_locator_spec(resolution) is None && !local_resolution(resolution) {
            Some("unsupported Yarn resolution "@ + resolution)
        } else {
            None
        }
    }
}

/// The graph parts of a Yarn Modern lockfile document, or why it is refused.
pub open spec fn yarn_modern_lock_spec(doc: Json) -> Result<(Seq<NodeView>, Seq<EdgeView>), Seq<char>> {
    match doc {
        Json::Object(ms) => if !is_object(get(doc, "__metadata"@)) {
            Err("missing Yarn Modern __metadata"@)
        } else {
            match first_error(ms, |m: (Seq<char>, Json)| yarn_modern_error(m)) {
                Some(e) => Err(e),
                None => Ok(fold_parts(ms, |m: (Seq<char>, Json)| yarn_modern_entry(m))),
            }
        },
        _ => Err("lockfile root must be a map"@),
    }
}

fn local_resolution_exec(r: &[char]) -> (b: bool)
    ensures
        b == local_resolution(r@),
{
    str_contains(r, "workspace:") || str_contains(r, "file:") || str_contains(r, "link:")
}

fn yarn_modern_member(
    locator: &String,
    meta: &JsonValue,
    nodes: &mut Vec<LockGraphNode>,
    edges: &mut Vec<LockGraphEdge>,
) -> (err: Option<String>)
    ensures
        match err {
            Some(e) => yarn_modern_error((locator@, json_view(*meta))) == Some(e@),
            None => yarn_modern_error((locator@, json_view(*meta))) is None && ({
                let (n1, e1) = yarn_modern_entry((locator@, json_view(*meta)));
                &&& nodes_view(final(nodes)@) == nodes_view(old(nodes)@) + n1
                &&& edges_view(final(edges)@) == edges_view(old(edges)@) + e1
            }),
        },
{
    let ghost n0 = nodes_view(nodes@);
    let ghost e0 = edges_view(edges@);
    let l = chars_of(locator.as_str());
    if str_eq(&l, "__metadata") {
        assert(nodes_view(nodes@) =~= n0 + Seq::<NodeView>::empty());
        assert(edges_view(edges@) =~= e0 + Seq::<EdgeView>::empty());
        return None;
    }
    let is_obj = match meta {
        JsonValue::Object(_) => true,
        _ => false,
    };
    if !is_obj {
        let mut msg = chars_of("unsupported Yarn entry ");
        push_chars(&mut msg, &l);
        return Some(string_of(&msg));
    }
    let version = match string_value(get_member(meta, "version")) {
        Some(v) => chars_of(v.as_str()),
        None => {
            let mut msg = chars_of("missing version for Yarn entry ");
            push_chars(&mut msg, &l);
            return Some(string_of(&msg));
        },
    };
    let resolution = match string_value(get_member(meta, "resolution")) {
        Some(r) => chars_of(r.as_str()),
        None => slice_of(&l, 0, l.len()),
    };
    assert(l@.subrange(0, l@.len() as int) =~= l@);
    let name = match split_locator(&resolution) {
        Some(p) => p.0,
        None => {
            if !local_resolution_exec(&resolution) {
                let mut msg = chars_of("unsupported Yarn resolution ");
                push_chars(&mut msg, &resolution);
                return Some(string_of(&msg));
            }
            assert(nodes_view(nodes@) =~= n0 + Seq::<NodeView>::empty());
            assert(edges_view(edges@) =~= e0 + Seq::<EdgeView>::empty());
            return None;
        },
    };
    let integrity = match string_value(get_member(meta, "checksum")) {
        Some(c) => {
            let mut t = chars_of("yarn:");
            let cc = chars_of(c.as_str());
            push_chars(&mut t, &cc);
            Some(string_of(&t))
        },
        None => None,
    };
    let node = make_node(&l, &name, &version, integrity, platform_constraint(Some(meta)));
    let ghost nb = nodes@;
    nodes.push(node);
    proof {
        lemma_nodes_push(nb, node);
    }
    let parent = resolution_chars(&name, &version);
    push_dependency_edges(edges, Some(meta), &parent);
    assert(nodes_view(nodes@) =~= n0 + seq![node_view(node)]);
    None
}

/// The nodes and edges of a parsed Yarn Modern lockfile, as
/// `yarn_modern_lock_spec` states.
pub fn parse_yarn_modern_checked(doc: &JsonValue) -> (r: Result<(Vec<LockGraphNode>, Vec<LockGraphEdge>), String>)
    ensures
        parts_view(r) == yarn_modern_lock_spec(json_view(*doc)),
{
    let ms = match object_members(Some(doc)) {
        Some(ms) => ms,
        None => {
            return Err("lockfile root must be a map".to_owned());
        },
    };
    if object_members(get_member(doc, "__metadata")).is_none() {
        return Err("missing Yarn Modern __metadata".to_owned());
    }
    let ghost mv = members_view(ms@);
    let ghost entry = |m: (Seq<char>, Json)| yarn_modern_entry(m);
    let ghost check = |m: (Seq<char>, Json)| yarn_modern_error(m);
    let mut nodes: Vec<LockGraphNode> = Vec::new();
    let mut edges: Vec<LockGraphEdge> = Vec::new();
    let mut k: usize = 0;
    while k < ms.len()
        invariant
            k <= ms.len(),
            mv == members_view(ms@),
            json_view(*doc) == Json::Object(mv),
            is_object(get(json_view(*doc), "__metadata"@)),
            entry == (|m: (Seq<char>, Json)| yarn_modern_entry(m)),
            check == (|m: (Seq<char>, Json)| yarn_modern_error(m)),
            first_error(mv.take(k as int), check) is None,
            (nodes_view(nodes@), edges_view(edges@)) == fold_parts(mv.take(k as int), entry),
        decreases ms.len() - k,
    {
        assert(mv.take(k + 1).drop_last() =~= mv.take(k as int));
        assert(mv.take(k + 1).last() == mv[k as int]);
        match yarn_modern_member(&ms[k].0, &ms[k].1, &mut nodes, &mut edges) {
            Some(e) => {
                proof {
                    assert(mv[k as int] == (ms@[k as int].0@, json_view(ms@[k as int].1)));
                    lemma_first_error_prefix(mv, check, k + 1);
                }
                return Err(e);
            },
            None => {},
        }
        k = k + 1;
    }
    assert(mv.take(ms.len() as int) =~= mv);
    Ok((nodes, edges))
}

/// The item at `i` of an array, when there is one.
pub open spec fn item_at(items: Seq<Json>, i: int) -> Option<Json> {
    if 0 <= i < items.len() {
        Some(items[i])
    } else {
        None
    }
}

fn item_ref<'a>(items: &'a Vec<JsonValue>, i: usize) -> (r: Option<&'a JsonValue>)
    ensures
        opt_view(r) == item_at(items@.map_values(|x: JsonValue| json_view(x)), i as int),
{
    if i < items.len() {
        Some(&items[i])
    } else {
        None
    }
}

/// The text before the first `c`.
pub open spec fn first_piece(s: Seq<char>, c: char) -> Seq<char> {
    match crate::text::find_char(s, c) {
        Some(j) => s.take(j),
        None => s,
    }
}

fn first_piece_exec(s: &[char], c: char) -> (r: Vec<char>)
    ensures
        r@ == first_piece(s@, c),
{
    match crate::text::find_char_exec(s, c) {
        Some(j) => {
            proof {
                crate::text::lemma_find_char_bounds(s@, c);
            }
            slice_of(s, 0, j)
        },
        None => slice_of(s, 0, s.len()),
    }
}

/// The version of a vlt node locator: after its last `@`, up to a `~`,
/// trimmed.
pub open spec fn vlt_locator_version_spec(l: Seq<char>) -> Option<Seq<char>> {
    match rfind_char(l, '@') {
        None => None,
        Some(sep) => {
            let v = crate::text::trim(first_piece(l.skip(sep + 1), '~'));
            if v.len() == 0 {
                None
            } else {
                Some(v)
            }
        },
    }
}

pub fn vlt_locator_version(l: &[char]) -> (r: Option<Vec<char>>)
    ensures
        match r {
            Some(v) => vlt_locator_version_spec(l@) == Some(v@),
            None => vlt_locator_version_spec(l@) is None,
        },
{
    let sep = match rfind_char_exec(l, '@') {
        Some(i) => i,
        None => {
            return None;
        },
    };
    proof {
        crate::text::lemma_rfind_char_bounds(l@, '@');
    }
    let after = slice_of(l, sep + 1, l.len());
    let piece = first_piece_exec(&after, '~');
    let v = crate::text::trimmed(&piece);
    if v.len() == 0 {
        None
    } else {
        Some(v)
    }
}

/// What a vlt `nodes` member contributes.
pub open spec fn vlt_entry(m: (Seq<char>, Json)) -> (Seq<NodeView>, Seq<EdgeView>) {
    let (locator, entry) = m;
    match as_array(Some(entry)) {
        None => (seq![], seq![]),
        Some(values) => match as_str(item_at(values, 1)) {
            None => (seq![], seq![]),
            Some(name) => match vlt_locator_version_spec(locator) {
                None => (seq![], seq![]),
                Some(version) => (
                    seq![node_of(locator, name, version, as_str(item_at(values, 2)), (seq![], seq![], seq![]))],
                    seq![],
                ),
            },
        },
    }
}

pub open spec fn vlt_error(m: (Seq<char>, Json)) -> Option<Seq<char>> {
    if as_array(Some(m.1)) is None {
        Some("unsupported vlt node "@ + m.0)
    } else {
        None
    }
}

/// The graph parts of a vlt lockfile document (nodes only), or why it is
/// refused.
pub open spec fn vlt_lock_spec(doc: Json) -> Result<(Seq<NodeView>, Seq<EdgeView>), Seq<char>> {
    if !has_lockfile_version(doc) {
        Err("missing vlt lockfileVersion"@)
    } else {
        match as_object(get(doc, "nodes"@)) {
            None => Err("missing vlt nodes map"@),
            Some(ms) => match first_error(ms, |m: (Seq<char>, Json)| vlt_error(m)) {
                Some(e) => Err(e),
                None => Ok((fold_parts(ms, |m: (Seq<char>, Json)| vlt_entry(m)).0, seq![])),
            },
        }
    }
}

fn vlt_member(locator: &String, entry: &JsonValue, nodes: &mut Vec<LockGraphNode>) -> (err: Option<String>)
    ensures
        match err {
            Some(e) => vlt_error((locator@, json_view(*entry))) == Some(e@),
            None => vlt_error((locator@, json_view(*entry))) is None && nodes_view(final(nodes)@)
                == nodes_view(old(nodes)@) + vlt_entry((locator@, json_view(*entry))).0,
        },
{
    let ghost n0 = nodes_view(nodes@);
    let l = chars_of(locator.as_str());
    let values = match array_items(Some(entry)) {
        Some(v) => v,
        None => {
            let mut msg = chars_of("unsupported vlt node ");
            push_chars(&mut msg, &l);
            return Some(string_of(&msg));
        },
    };
    let name = match string_value(item_ref(values, 1)) {
        Some(n) => chars_of(n.as_str()),
        None => {
            assert(nodes_view(nodes@) =~= n0 + Seq::<NodeView>::empty());
            return None;
        },
    };
    let version = match vlt_locator_version(&l) {
        Some(v) => v,
        None => {
            assert(nodes_view(nodes@) =~= n0 + Seq::<NodeView>::empty());
            return None;
        },
    };
    let integrity = match string_value(item_ref(values, 2)) {
        Some(i) => Some(i.as_str().to_owned()),
        None => None,
    };
    let platform = PackagePlatformConstraint::empty();
    assert(platform_view(platform) =~= (Seq::<Seq<char>>::empty(), Seq::<Seq<char>>::empty(), Seq::<Seq<char>>::empty()));
    let node = make_node(&l, &name, &version, integrity, platform);
    let ghost nb = nodes@;
    nodes.push(node);
    proof {
        lemma_nodes_push(nb, node);
    }
    assert(nodes_view(nodes@) =~= n0 + seq![node_view(node)]);
    None
}

/// The nodes of a parsed vlt lockfile, as `vlt_lock_spec` states.
pub fn parse_vlt_checked(doc: &JsonValue) -> (r: Result<(Vec<LockGraphNode>, Vec<LockGraphEdge>), String>)
    ensures
        parts_view(r) == vlt_lock_spec(json_view(*doc)),
{
    if !is_number_or_string(get_member(doc, "lockfileVersion")) {
        return Err("missing vlt lockfileVersion".to_owned());
    }
    let ms = match object_members(get_member(doc, "nodes")) {
        Some(ms) => ms,
        None => {
            return Err("missing vlt nodes map".to_owned());
        },
    };
    let ghost mv = members_view(ms@);
    let ghost entry = |m: (Seq<char>, Json)| vlt_entry(m);
    let ghost check = |m: (Seq<char>, Json)| vlt_error(m);
    let mut nodes: Vec<LockGraphNode> = Vec::new();
    let mut k: usize = 0;
    while k < ms.len()
        invariant
            k <= ms.len(),
            mv == members_view(ms@),
            has_lockfile_version(json_view(*doc)),
            as_object(get(json_view(*doc), "nodes"@)) == Some(mv),
            entry == (|m: (Seq<char>, Json)| vlt_entry(m)),
            check == (|m: (Seq<char>, Json)| vlt_error(m)),
            first_error(mv.take(k as int), check) is None,
            nodes_view(nodes@) == fold_parts(mv.take(k as int), entry).0,
        decreases ms.len() - k,
    {
        assert(mv.take(k + 1).drop_last() =~= mv.take(k as int));
        assert(mv.take(k + 1).last() == mv[k as int]);
        match vlt_member(&ms[k].0, &ms[k].1, &mut nodes) {
            Some(e) => {
                proof {
                    assert(mv[k as int] == (ms@[k as int].0@, json_view(ms@[k as int].1)));
                    lemma_first_error_prefix(mv, check, k + 1);
                }
                return Err(e);
            },
            None => {},
        }
        k = k + 1;
    }
    assert(mv.take(ms.len() as int) =~= mv);
    let edges: Vec<LockGraphEdge> = Vec::new();
    assert(edges_view(edges@) =~= Seq::<EdgeView>::empty());
    Ok((nodes, edges))
}

/// `name@version` of a Bun package member whose array starts with a
/// registry locator.
pub open spec fn bun_resolution_of(m: (Seq<char>, Json)) -> Option<Seq<char>> {
    match as_array(Some(m.1)) {
        Some(values) => match as_str(item_at(values, 0)) {
            Some(r) => match split_locator_spec(r) {
                Some((n, v)) => Some(resolution_text(n, v)),
                None => None,
            },
            None => None,
        },
        None => None,
    }
}

/// Each Bun package locator with the resolution it stands for.
pub open spec fn bun_table(ms: Seq<(Seq<char>, Json)>) -> Seq<(Seq<char>, Seq<char>)>
    decreases ms.len(),
{
    if ms.len() == 0 {
        seq![]
    } else {
        bun_table(ms.drop_last()) + match bun_resolution_of(ms.last()) {
            Some(r) => seq![(ms.last().0, r)],
            None => seq![],
        }
    }
}

/// The resolution the table gives `key`.
pub open spec fn table_lookup(t: Seq<(Seq<char>, Seq<char>)>, key: Seq<char>) -> Option<Seq<char>>
    decreases t.len(),
{
    if t.len() == 0 {
        None
    } else if t[0].0 == key {
        Some(t[0].1)
    } else {
        table_lookup(t.drop_first(), key)
    }
}

/// The target through the longest ancestor `parent[..i]` (with `parent[i]`
/// a `/`, `i < j`) that is itself a locator and has `dep` nested under it.
pub open spec fn bun_target_from(
    parent: Seq<char>,
    dep: Seq<char>,
    t: Seq<(Seq<char>, Seq<char>)>,
    j: int,
) -> Option<Seq<char>>
    decreases j,
{
    if j <= 0 || j > parent.len() {
        table_lookup(t, dep)
    } else {
        let i = j - 1;
        let ancestor = parent.take(i);
        if parent[i] == '/' && table_lookup(t, ancestor) is Some && table_lookup(t, ancestor + "/"@ + dep) is Some {
            table_lookup(t, ancestor + "/"@ + dep)
        } else {
            bun_target_from(parent, dep, t, i)
        }
    }
}

/// The resolution a Bun dependency edge leads to: the package nested under
/// its parent, else under the nearest ancestor, else the hoisted one.
pub open spec fn bun_target(parent: Seq<char>, dep: Seq<char>, t: Seq<(Seq<char>, Seq<char>)>) -> Option<Seq<char>> {
    match table_lookup(t, parent + "/"@ + dep) {
        Some(x) => Some(x),
        None => bun_target_from(parent, dep, t, parent.len() as int),
    }
}

pub open spec fn bun_section_edges(
    meta: Json,
    section: Seq<char>,
    kind: Seq<char>,
    parent: Seq<char>,
    locator: Seq<char>,
    t: Seq<(Seq<char>, Seq<char>)>,
) -> Seq<EdgeView> {
    match as_object(get(meta, section)) {
        Some(ms) => ms.map_values(
            |d: (Seq<char>, Json)| EdgeView { from: parent, dependency: d.0, kind, target: bun_target(locator, d.0, t) },
        ),
        None => seq![],
    }
}

/// What a Bun `packages` member contributes.
pub open spec fn bun_entry(t: Seq<(Seq<char>, Seq<char>)>, m: (Seq<char>, Json)) -> (Seq<NodeView>, Seq<EdgeView>) {
    let (locator, entry) = m;
    match as_array(Some(entry)) {
        None => (seq![], seq![]),
        Some(values) => match as_str(item_at(values, 0)) {
            None => (seq![], seq![]),
            Some(resolution) => match split_locator_spec(resolution) {
                None => (seq![], seq![]),
                Some((name, version)) => {
                    let parent = resolution_text(name, version);
                    (
                        seq![node_of(locator, name, version, as_str(item_at(values, 3)), platform_spec(item_at(values, 2)))],
                        match item_at(values, 2) {
                            Some(meta) => bun_section_edges(meta, "dependencies"@, "dependency"@, parent, locator, t)
                                + bun_section_edges(meta, "optionalDependencies"@, "optional"@, parent, locator, t)
                                + bun_section_edges(meta, "peerDependencies"@, "peer"@, parent, locator, t),
                            None => seq![],
                        },
                    )
                },
            },
        },
    }
}

pub open spec fn bun_error(m: (Seq<char>, Json)) -> Option<Seq<char>> {
    match as_array(Some(m.1)) {
        None => Some("unsupported Bun package entry "@ + m.0),
        Some(values) => match as_str(item_at(values, 0)) {
            None => Some("missing Bun resolution for "@ + m.0),
            Some(resolution) => if split_locator_spec(resolution) is None && !local_resolution(resolution) {
                Some("unsupported Bun resolution "@ + resolution)
            } else {
                None
            },
        },
    }
}

/// The graph parts of a Bun text lockfile document, or why it is refused.
pub open spec fn bun_lock_spec(doc: Json) -> Result<(Seq<NodeView>, Seq<EdgeView>), Seq<char>> {
    if !has_lockfile_version(doc) {
        Err("missing lockfileVersion"@)
    } else {
        match as_object(get(doc, "packages"@)) {
            None => Err("missing packages map"@),
            Some(ms) => match first_error(ms, |m: (Seq<char>, Json)| bun_error(m)) {
                Some(e) => Err(e),
                None => Ok(fold_parts(ms, |m: (Seq<char>, Json)| bun_entry(bun_table(ms), m))),
            },
        }
    }
}

pub open spec fn table_view(t: Seq<(Vec<char>, Vec<char>)>) -> Seq<(Seq<char>, Seq<char>)> {
    t.map_values(|e: (Vec<char>, Vec<char>)| (e.0@, e.1@))
}

fn lookup(t: &Vec<(Vec<char>, Vec<char>)>, key: &[char]) -> (r: Option<Vec<char>>)
    ensures
        match r {
            Some(v) => table_lookup(table_view(t@), key@) == Some(v@),
            None => table_lookup(table_view(t@), key@) is None,
        },
{
    let ghost tv = table_view(t@);
    let mut i: usize = 0;
    assert(tv.skip(0) =~= tv);
    while i < t.len()
        invariant
            i <= t.len(),
            tv == table_view(t@),
            table_lookup(tv, key@) == table_lookup(tv.skip(i as int), key@),
        decreases t.len() - i,
    {
        assert(tv.skip(i as int).drop_first() =~= tv.skip(i + 1));
        assert(tv.skip(i as int)[0] == (t@[i as int].0@, t@[i as int].1@));
        if crate::text::chars_eq(&t[i].0, key) {
            return Some(slice_of(&t[i].1, 0, t[i].1.len()));
        }
        i = i + 1;
    }
    None
}

fn bun_resolutions(ms: &Vec<(String, JsonValue)>) -> (t: Vec<(Vec<char>, Vec<char>)>)
    ensures
        table_view(t@) == bun_table(members_view(ms@)),
{
    let ghost mv = members_view(ms@);
    let mut t: Vec<(Vec<char>, Vec<char>)> = Vec::new();
    let mut k: usize = 0;
    while k < ms.len()
        invariant
            k <= ms.len(),
            mv == members_view(ms@),
            table_view(t@) == bun_table(mv.take(k as int)),
        decreases ms.len() - k,
    {
        assert(mv.take(k + 1).drop_last() =~= mv.take(k as int));
        assert(mv.take(k + 1).last() == mv[k as int]);
        let ghost before = t@;
        match array_items(Some(&ms[k].1)) {
            Some(values) => match string_value(item_ref(values, 0)) {
                Some(r) => {
                    let rc = chars_of(r.as_str());
                    match split_locator(&rc) {
                        Some(p) => {
                            let res = resolution_chars(&p.0, &p.1);
                            let key = chars_of(ms[k].0.as_str());
                            t.push((key, res));
                        },
                        None => {},
                    }
                },
                None => {},
            },
            None => {},
        }
        assert(table_view(t@) =~= bun_table(mv.take(k + 1)));
        k = k + 1;
    }
    assert(mv.take(ms.len() as int) =~= mv);
    t
}

fn bun_dependency_target(parent: &[char], dep: &[char], t: &Vec<(Vec<char>, Vec<char>)>) -> (r: Option<Vec<char>>)
    ensures
        match r {
            Some(v) => bun_target(parent@, dep@, table_view(t@)) == Some(v@),
            None => bun_target(parent@, dep@, table_view(t@)) is None,
        },
{
    let mut nested = slice_of(parent, 0, parent.len());
    assert(parent@.subrange(0, parent@.len() as int) =~= parent@);
    push_str(&mut nested, "/");
    push_chars(&mut nested, dep);
    match lookup(t, &nested) {
        Some(v) => {
            return Some(v);
        },
        None => {},
    }
    let mut j: usize = parent.len();
    while j > 0
        invariant
            j <= parent.len(),
            table_lookup(table_view(t@), parent@ + "/"@ + dep@) is None,
            bun_target(parent@, dep@, table_view(t@)) == bun_target_from(parent@, dep@, table_view(t@), j as int),
        decreases j,
    {
        let i = j - 1;
        if parent[i] == '/' {
            let ancestor = slice_of(parent, 0, i);
            if lookup(t, &ancestor).is_some() {
                let mut candidate = slice_of(parent, 0, i);
                push_str(&mut candidate, "/");
                push_chars(&mut candidate, dep);
                match lookup(t, &candidate) {
                    Some(v) => {
                        return Some(v);
                    },
                    None => {},
                }
            }
        }
        j = i;
    }
    lookup(t, dep)
}

fn push_bun_section(
    edges: &mut Vec<LockGraphEdge>,
    meta: &JsonValue,
    section: &str,
    kind: &str,
    parent: &[char],
    locator: &[char],
    t: &Vec<(Vec<char>, Vec<char>)>,
)
    ensures
        edges_view(final(edges)@) == edges_view(old(edges)@) + bun_section_edges(
            json_view(*meta),
            section@,
            kind@,
            parent@,
            locator@,
            table_view(t@),
        ),
{
    let ghost base = edges_view(edges@);
    match object_members(get_member(meta, section)) {
        Some(ms) => {
            let ghost mv = members_view(ms@);
            let ghost tv = table_view(t@);
            let ghost all = mv.map_values(
                |d: (Seq<char>, Json)| EdgeView { from: parent@, dependency: d.0, kind: kind@, target: bun_target(locator@, d.0, tv) },
            );
            let mut k: usize = 0;
            while k < ms.len()
                invariant
                    k <= ms.len(),
                    mv == members_view(ms@),
                    tv == table_view(t@),
                    all == mv.map_values(
                        |d: (Seq<char>, Json)| EdgeView { from: parent@, dependency: d.0, kind: kind@, target: bun_target(locator@, d.0, tv) },
                    ),
                    edges_view(edges@) == base + all.take(k as int),
                decreases ms.len() - k,
            {
                let dep = chars_of(ms[k].0.as_str());
                let target = match bun_dependency_target(locator, &dep, t) {
                    Some(v) => Some(string_of(&v)),
                    None => None,
                };
                let e = LockGraphEdge {
                    from: string_of(parent),
                    dependency: ms[k].0.as_str().to_owned(),
                    kind: kind.to_owned(),
                    target,
                };
                let ghost before = edges@;
                edges.push(e);
                proof {
                    lemma_edges_push(before, e);
                    assert(all.take(k + 1) =~= all.take(k as int).push(all[k as int]));
                }
                assert(edges_view(edges@) =~= base + all.take(k + 1));
                k = k + 1;
            }
            assert(all.take(ms.len() as int) =~= all);
        },
        None => {
            assert(edges_view(edges@) =~= base + Seq::<EdgeView>::empty());
        },
    }
}

fn bun_member(
    locator: &String,
    entry: &JsonValue,
    t: &Vec<(Vec<char>, Vec<char>)>,
    nodes: &mut Vec<LockGraphNode>,
    edges: &mut Vec<LockGraphEdge>,
) -> (err: Option<String>)
    ensures
        match err {
            Some(e) => bun_error((locator@, json_view(*entry))) == Some(e@),
            None => bun_error((locator@, json_view(*entry))) is None && ({
                let (n1, e1) = bun_entry(table_view(t@), (locator@, json_view(*entry)));
                &&& nodes_view(final(nodes)@) == nodes_view(old(nodes)@) + n1
                &&& edges_view(final(edges)@) == edges_view(old(edges)@) + e1
            }),
        },
{
    let ghost n0 = nodes_view(nodes@);
    let ghost e0 = edges_view(edges@);
    let l = chars_of(locator.as_str());
    let values = match array_items(Some(entry)) {
        Some(v) => v,
        None => {
            let mut msg = chars_of("unsupported Bun package entry ");
            push_chars(&mut msg, &l);
            return Some(string_of(&msg));
        },
    };
    let resolution = match string_value(item_ref(values, 0)) {
        Some(r) => chars_of(r.as_str()),
        None => {
            let mut msg = chars_of("missing Bun resolution for ");
            push_chars(&mut msg, &l);
            return Some(string_of(&msg));
        },
    };
    let (name, version) = match split_locator(&resolution) {
        Some(p) => p,
        None => {
            if !local_resolution_exec(&resolution) {
                let mut msg = chars_of("unsupported Bun resolution ");
                push_chars(&mut msg, &resolution);
                return Some(string_of(&msg));
            }
            assert(nodes_view(nodes@) =~= n0 + Seq::<NodeView>::empty());
            assert(edges_view(edges@) =~= e0 + Seq::<EdgeView>::empty());
            return None;
        },
    };
    let integrity = match string_value(item_ref(values, 3)) {
        Some(i) => Some(i.as_str().to_owned()),
        None => None,
    };
    let meta = item_ref(values, 2);
    let node = make_node(&l, &name, &version, integrity, platform_constraint(meta));
    let ghost nb = nodes@;
    nodes.push(node);
    proof {
        lemma_nodes_push(nb, node);
    }
    let parent = resolution_chars(&name, &version);
    match meta {
        Some(m) => {
            push_bun_section(edges, m, "dependencies", "dependency", &parent, &l, t);
            push_bun_section(edges, m, "optionalDependencies", "optional", &parent, &l, t);
            push_bun_section(edges, m, "peerDependencies", "peer", &parent, &l, t);
        },
        None => {},
    }
    assert(nodes_view(nodes@) =~= n0 + seq![node_view(node)]);
    assert(edges_view(edges@) =~= e0 + bun_entry(table_view(t@), (locator@, json_view(*entry))).1);
    None
}

/// The nodes and edges of a parsed Bun text lockfile, as `bun_lock_spec`
/// states.
pub fn parse_bun_checked(doc: &JsonValue) -> (r: Result<(Vec<LockGraphNode>, Vec<LockGraphEdge>), String>)
    ensures
        parts_view(r) == bun_lock_spec(json_view(*doc)),
{
    if !is_number_or_string(get_member(doc, "lockfileVersion")) {
        return Err("missing lockfileVersion".to_owned());
    }
    let ms = match object_members(get_member(doc, "packages")) {
        Some(ms) => ms,
        None => {
            return Err("missing packages map".to_owned());
        },
    };
    let ghost mv = members_view(ms@);
    let t = bun_resolutions(ms);
    let ghost entry = |m: (Seq<char>, Json)| bun_entry(bun_table(mv), m);
    let ghost check = |m: (Seq<char>, Json)| bun_error(m);
    let mut nodes: Vec<LockGraphNode> = Vec::new();
    let mut edges: Vec<LockGraphEdge> = Vec::new();
    let mut k: usize = 0;
    while k < ms.len()
        invariant
            k <= ms.len(),
            mv == members_view(ms@),
            table_view(t@) == bun_table(mv),
            has_lockfile_version(json_view(*doc)),
            as_object(get(json_view(*doc), "packages"@)) == Some(mv),
            entry == (|m: (Seq<char>, Json)| bun_entry(bun_table(mv), m)),
            check == (|m: (Seq<char>, Json)| bun_error(m)),
            first_error(mv.take(k as int), check) is None,
            (nodes_view(nodes@), edges_view(edges@)) == fold_parts(mv.take(k as int), entry),
        decreases ms.len() - k,
    {
        assert(mv.take(k + 1).drop_last() =~= mv.take(k as int));
        assert(mv.take(k + 1).last() == mv[k as int]);
        match bun_member(&ms[k].0, &ms[k].1, &t, &mut nodes, &mut edges) {
            Some(e) => {
                proof {
                    assert(mv[k as int] == (ms@[k as int].0@, json_view(ms@[k as int].1)));
                    lemma_first_error_prefix(mv, check, k + 1);
                }
                return Err(e);
            },
            None => {},
        }
        k = k + 1;
    }
    assert(mv.take(ms.len() as int) =~= mv);
    Ok((nodes, edges))
}

/// The name and version of a Deno lock locator such as `npm:name@1.0.0_peer`
/// or `jsr:@scope/name@1.0.0`.
pub open spec fn split_deno_locator_spec(raw: Seq<char>) -> Option<(Seq<char>, Seq<char>)> {
    let l0 = super::extraction::trim_quotes(crate::text::trim(raw));
    let l = match crate::text::strip_prefix(l0, "npm:"@) {
        Some(x) => x,
        None => match crate::text::strip_prefix(l0, "jsr:"@) {
            Some(x) => x,
            None => l0,
        },
    };
    let sep = if starts_with(l, "@"@) {
        match crate::text::find_char(l, '/') {
            None => None,
            Some(slash) => match crate::text::find_char(l.skip(slash + 1), '@') {
                None => None,
                Some(i) => Some(slash + 1 + i),
            },
        }
    } else {
        crate::text::find_char(l, '@')
    };
    match sep {
        None => None,
        Some(p) => {
            let name = l.take(p);
            let version = first_piece(l.skip(p + 1), '_');
            if name.len() == 0 || version.len() == 0 {
                None
            } else {
                Some((name, version))
            }
        },
    }
}

pub fn split_deno_locator(raw: &[char]) -> (r: Option<(Vec<char>, Vec<char>)>)
    ensures
        match r {
            Some(p) => split_deno_locator_spec(raw@) == Some((p.0@, p.1@)),
            None => split_deno_locator_spec(raw@) is None,
        },
{
    proof {
        reveal_strlit("@");
        reveal_strlit("npm:");
        reveal_strlit("jsr:");
    }
    let t = crate::text::trimmed(raw);
    let l0 = super::extraction::trim_quotes_exec(&t);
    let l = if str_starts_with(&l0, "npm:") || str_starts_with(&l0, "jsr:") {
        slice_of(&l0, 4, l0.len())
    } else {
        slice_of(&l0, 0, l0.len())
    };
    assert(l0@.subrange(0, l0@.len() as int) =~= l0@);
    let sep = if str_starts_with(&l, "@") {
        match crate::text::find_char_exec(&l, '/') {
            None => None,
            Some(slash) => {
                proof {
                    crate::text::lemma_find_char_bounds(l@, '/');
                }
                let after = slice_of(&l, slash + 1, l.len());
                match crate::text::find_char_exec(&after, '@') {
                    None => None,
                    Some(i) => {
                        proof {
                            crate::text::lemma_find_char_bounds(after@, '@');
                        }
                        Some(slash + 1 + i)
                    },
                }
            },
        }
    } else {
        proof {
            crate::text::lemma_find_char_bounds(l@, '@');
        }
        crate::text::find_char_exec(&l, '@')
    };
    match sep {
        None => None,
        Some(p) => {
            let name = slice_of(&l, 0, p);
            let rest = slice_of(&l, p + 1, l.len());
            let version = first_piece_exec(&rest, '_');
            if name.len() == 0 || version.len() == 0 {
                None
            } else {
                Some((name, version))
            }
        },
    }
}

/// The edge a Deno dependency string makes.
pub open spec fn deno_string_edge(dep: Seq<char>, kind: Seq<char>, parent: Seq<char>) -> EdgeView {
    EdgeView {
        from: parent,
        dependency: match split_deno_locator_spec(dep) {
            Some((n, _)) => n,
            None => dep,
        },
        kind,
        target: match split_deno_locator_spec(dep) {
            Some((n, v)) => Some(resolution_text(n, v)),
            None => None,
        },
    }
}

/// The edges of one Deno dependency section, or why it is refused.
pub open spec fn deno_section(
    meta: Json,
    section: Seq<char>,
    kind: Seq<char>,
    parent: Seq<char>,
    locator: Seq<char>,
) -> Result<Seq<EdgeView>, Seq<char>> {
    match get(meta, section) {
        None => Ok(seq![]),
        Some(Json::Array(items)) => Ok(
            json_strings(items).map_values(|d: Seq<char>| deno_string_edge(d, kind, parent)),
        ),
        Some(Json::Object(ms)) => Ok(
            ms.map_values(|m: (Seq<char>, Json)| EdgeView { from: parent, dependency: m.0, kind, target: None }),
        ),
        Some(_) => Err("unsupported Deno "@ + section + " entry for "@ + locator),
    }
}

/// What a Deno `npm` or `jsr` member contributes, or why it is refused.
pub open spec fn deno_entry(m: (Seq<char>, Json)) -> Result<(Seq<NodeView>, Seq<EdgeView>), Seq<char>> {
    let (locator, meta) = m;
    match split_deno_locator_spec(locator) {
        None => Err("unsupported Deno package locator "@ + locator),
        Some((name, version)) => if !(meta is Object) {
            Err("unsupported Deno package entry "@ + locator)
        } else {
            let parent = resolution_text(name, version);
            let node = node_of(locator, name, version, as_str(get(meta, "integrity"@)), platform_spec(Some(meta)));
            match deno_section(meta, "dependencies"@, "dependency"@, parent, locator) {
                Err(e) => Err(e),
                Ok(d) => match deno_section(meta, "optionalDependencies"@, "optional"@, parent, locator) {
                    Err(e) => Err(e),
                    Ok(o) => Ok((seq![node], d + o)),
                },
            }
        },
    }
}

/// The members read in order, stopping at the first refusal.
pub open spec fn deno_fold(ms: Seq<(Seq<char>, Json)>) -> Result<(Seq<NodeView>, Seq<EdgeView>), Seq<char>>
    decreases ms.len(),
{
    if ms.len() == 0 {
        Ok((seq![], seq![]))
    } else {
        match deno_fold(ms.drop_last()) {
            Err(e) => Err(e),
            Ok((n, e)) => match deno_entry(ms.last()) {
                Err(x) => Err(x),
                Ok((n1, e1)) => Ok((n + n1, e + e1)),
            },
        }
    }
}

pub proof fn lemma_deno_fold_prefix(ms: Seq<(Seq<char>, Json)>, k: int)
    requires
        0 <= k <= ms.len(),
        deno_fold(ms.take(k)) is Err,
    ensures
        deno_fold(ms) == deno_fold(ms.take(k)),
    decreases ms.len(),
{
    if k < ms.len() {
        assert(ms.drop_last().take(k) =~= ms.take(k));
        lemma_deno_fold_prefix(ms.drop_last(), k);
    } else {
        assert(ms.take(k) =~= ms);
    }
}

/// The graph parts of a Deno lock document (its `npm`, then its `jsr`
/// packages), or why it is refused.
pub open spec fn deno_lock_spec(doc: Json) -> Result<(Seq<NodeView>, Seq<EdgeView>), Seq<char>> {
    if !number_or_string(get(doc, "version"@)) {
        Err("missing Deno lock version"@)
    } else {
        let npm = match get(doc, "npm"@) {
            None => Ok((seq![], seq![])),
            Some(Json::Object(ms)) => deno_fold(ms),
            Some(_) => Err("Deno npm entries must be a map"@),
        };
        match npm {
            Err(e) => Err(e),
            Ok((n, e)) => match as_object(get(doc, "jsr"@)) {
                None => Ok((n, e)),
                Some(ms) => match deno_fold(ms) {
                    Err(x) => Err(x),
                    Ok((n1, e1)) => Ok((n + n1, e + e1)),
                },
            },
        }
    }
}

fn push_deno_section(
    edges: &mut Vec<LockGraphEdge>,
    meta: &JsonValue,
    section: &str,
    kind: &str,
    parent: &[char],
    locator: &[char],
) -> (err: Option<String>)
    ensures
        match err {
            Some(e) => deno_section(json_view(*meta), section@, kind@, parent@, locator@) == Err::<Seq<EdgeView>, Seq<char>>(e@),
            None => deno_section(json_view(*meta), section@, kind@, parent@, locator@) matches Ok(x)
                && edges_view(final(edges)@) == edges_view(old(edges)@) + x,
        },
{
    let ghost base = edges_view(edges@);
    let value = get_member(meta, section);
    match value {
        None => {
            assert(edges_view(edges@) =~= base + Seq::<EdgeView>::empty());
            None
        },
        Some(v) => {
            match array_items(Some(v)) {
                Some(items) => {
                    let ghost iv = items@.map_values(|x: JsonValue| json_view(x));
                    let ghost f = |d: Seq<char>| deno_string_edge(d, kind@, parent@);
                    let mut k: usize = 0;
                    while k < items.len()
                        invariant
                            k <= items.len(),
                            iv == items@.map_values(|x: JsonValue| json_view(x)),
                            f == (|d: Seq<char>| deno_string_edge(d, kind@, parent@)),
                            edges_view(edges@) == base + json_strings(iv.take(k as int)).map_values(f),
                        decreases items.len() - k,
                    {
                        assert(iv.take(k + 1).drop_last() =~= iv.take(k as int));
                        assert(iv.take(k + 1).last() == json_view(items@[k as int]));
                        let ghost before = edges@;
                        match &items[k] {
                            JsonValue::Str(d) => {
                                let dc = chars_of(d.as_str());
                                let (dependency, target) = match split_deno_locator(&dc) {
                                    Some(p) => (string_of(&p.0), Some(string_of(&resolution_chars(&p.0, &p.1)))),
                                    None => (d.as_str().to_owned(), None),
                                };
                                let e = LockGraphEdge { from: string_of(parent), dependency, kind: kind.to_owned(), target };
                                edges.push(e);
                                proof {
                                    lemma_edges_push(before, e);
                                }
                            },
                            _ => {},
                        }
                        assert(edges_view(edges@) =~= base + json_strings(iv.take(k + 1)).map_values(f));
                        k = k + 1;
                    }
                    assert(iv.take(items.len() as int) =~= iv);
                    None
                },
                None => match object_members(Some(v)) {
                    Some(ms) => {
                        let ghost mv = members_view(ms@);
                        let ghost all = mv.map_values(
                            |m: (Seq<char>, Json)| EdgeView { from: parent@, dependency: m.0, kind: kind@, target: None },
                        );
                        let mut k: usize = 0;
                        while k < ms.len()
                            invariant
                                k <= ms.len(),
                                mv == members_view(ms@),
                                all == mv.map_values(
                                    |m: (Seq<char>, Json)| EdgeView { from: parent@, dependency: m.0, kind: kind@, target: None },
                                ),
                                edges_view(edges@) == base + all.take(k as int),
                            decreases ms.len() - k,
                        {
                            let e = LockGraphEdge {
                                from: string_of(parent),
                                dependency: ms[k].0.as_str().to_owned(),
                                kind: kind.to_owned(),
                                target: None,
                            };
                            let ghost before = edges@;
                            edges.push(e);
                            proof {
                                lemma_edges_push(before, e);
                                assert(all.take(k + 1) =~= all.take(k as int).push(all[k as int]));
                            }
                            assert(edges_view(edges@) =~= base + all.take(k + 1));
                            k = k + 1;
                        }
                        assert(all.take(ms.len() as int) =~= all);
                        None
                    },
                    None => {
                        let mut msg = chars_of("unsupported Deno ");
                        push_str(&mut msg, section);
                        push_str(&mut msg, " entry for ");
                        push_chars(&mut msg, locator);
                        Some(string_of(&msg))
                    },
                },
            }
        },
    }
}

fn deno_member(
    locator: &String,
    meta: &JsonValue,
    nodes: &mut Vec<LockGraphNode>,
    edges: &mut Vec<LockGraphEdge>,
) -> (err: Option<String>)
    ensures
        match err {
            Some(e) => deno_entry((locator@, json_view(*meta))) == Err::<(Seq<NodeView>, Seq<EdgeView>), Seq<char>>(e@),
            None => deno_entry((locator@, json_view(*meta))) matches Ok(p) && nodes_view(final(nodes)@)
                == nodes_view(old(nodes)@) + p.0 && edges_view(final(edges)@) == edges_view(old(edges)@) + p.1,
        },
{
    let ghost n0 = nodes_view(nodes@);
    let ghost e0 = edges_view(edges@);
    let l = chars_of(locator.as_str());
    let (name, version) = match split_deno_locator(&l) {
        Some(p) => p,
        None => {
            let mut msg = chars_of("unsupported Deno package locator ");
            push_chars(&mut msg, &l);
            return Some(string_of(&msg));
        },
    };
    let is_obj = match meta {
        JsonValue::Object(_) => true,
        _ => false,
    };
    if !is_obj {
        let mut msg = chars_of("unsupported Deno package entry ");
        push_chars(&mut msg, &l);
        return Some(string_of(&msg));
    }
    let integrity = match string_value(get_member(meta, "integrity")) {
        Some(i) => Some(i.as_str().to_owned()),
        None => None,
    };
    let node = make_node(&l, &name, &version, integrity, platform_constraint(Some(meta)));
    let ghost nb = nodes@;
    nodes.push(node);
    proof {
        lemma_nodes_push(nb, node);
    }
    let parent = resolution_chars(&name, &version);
    let ghost eb = edges_view(edges@);
    match push_deno_section(edges, meta, "dependencies", "dependency", &parent, &l) {
        Some(e) => {
            return Some(e);
        },
        None => {},
    }
    let ghost em = edges_view(edges@);
    match push_deno_section(edges, meta, "optionalDependencies", "optional", &parent, &l) {
        Some(e) => {
            return Some(e);
        },
        None => {},
    }
    assert(nodes_view(nodes@) =~= n0 + seq![node_view(node)]);
    proof {
        let d = deno_section(json_view(*meta), "dependencies"@, "dependency"@, parent@, l@)->Ok_0;
        let o = deno_section(json_view(*meta), "optionalDependencies"@, "optional"@, parent@, l@)->Ok_0;
        assert(edges_view(edges@) =~= e0 + (d + o));
    }
    None
}

fn deno_members(
    ms: &Vec<(String, JsonValue)>,
    nodes: &mut Vec<LockGraphNode>,
    edges: &mut Vec<LockGraphEdge>,
) -> (err: Option<String>)
    ensures
        match err {
            Some(e) => deno_fold(members_view(ms@)) == Err::<(Seq<NodeView>, Seq<EdgeView>), Seq<char>>(e@),
            None => deno_fold(members_view(ms@)) matches Ok(p) && nodes_view(final(nodes)@) == nodes_view(
                old(nodes)@,
            ) + p.0 && edges_view(final(edges)@) == edges_view(old(edges)@) + p.1,
        },
{
    let ghost mv = members_view(ms@);
    let ghost n0 = nodes_view(nodes@);
    let ghost e0 = edges_view(edges@);
    let mut k: usize = 0;
    assert(nodes_view(nodes@) =~= n0 + Seq::<NodeView>::empty());
    assert(edges_view(edges@) =~= e0 + Seq::<EdgeView>::empty());
    while k < ms.len()
        invariant
            k <= ms.len(),
            mv == members_view(ms@),
            deno_fold(mv.take(k as int)) matches Ok(p) && nodes_view(nodes@) == n0 + p.0 && edges_view(edges@)
                == e0 + p.1,
        decreases ms.len() - k,
    {
        assert(mv.take(k + 1).drop_last() =~= mv.take(k as int));
        assert(mv.take(k + 1).last() == mv[k as int]);
        let ghost p = deno_fold(mv.take(k as int))->Ok_0;
        let ghost nv = nodes_view(nodes@);
        let ghost ev = edges_view(edges@);
        match deno_member(&ms[k].0, &ms[k].1, nodes, edges) {
            Some(e) => {
                proof {
                    assert(mv[k as int] == (ms@[k as int].0@, json_view(ms@[k as int].1)));
                    lemma_deno_fold_prefix(mv, k + 1);
                }
                return Some(e);
            },
            None => {},
        }
        proof {
            let q = deno_entry(mv[k as int])->Ok_0;
            assert(nodes_view(nodes@) =~= n0 + (p.0 + q.0));
            assert(edges_view(edges@) =~= e0 + (p.1 + q.1));
        }
        k = k + 1;
    }
    assert(mv.take(ms.len() as int) =~= mv);
    None
}

/// The nodes and edges of a parsed Deno lock file, as `deno_lock_spec`
/// states.
pub fn parse_deno_checked(doc: &JsonValue) -> (r: Result<(Vec<LockGraphNode>, Vec<LockGraphEdge>), String>)
    ensures
        parts_view(r) == deno_lock_spec(json_view(*doc)),
{
    if !is_number_or_string(get_member(doc, "version")) {
        return Err("missing Deno lock version".to_owned());
    }
    let mut nodes: Vec<LockGraphNode> = Vec::new();
    let mut edges: Vec<LockGraphEdge> = Vec::new();
    match get_member(doc, "npm") {
        None => {},
        Some(npm) => match object_members(Some(npm)) {
            None => {
                return Err("Deno npm entries must be a map".to_owned());
            },
            Some(ms) => match deno_members(ms, &mut nodes, &mut edges) {
                Some(e) => {
                    return Err(e);
                },
                None => {},
            },
        },
    }
    let ghost n1 = nodes_view(nodes@);
    let ghost e1 = edges_view(edges@);
    let ghost d = json_view(*doc);
    let ghost npm = match get(d, "npm"@) {
        None => Ok((Seq::<NodeView>::empty(), Seq::<EdgeView>::empty())),
        Some(Json::Object(ms)) => deno_fold(ms),
        Some(_) => Err::<(Seq<NodeView>, Seq<EdgeView>), Seq<char>>("Deno npm entries must be a map"@),
    };
    assert(npm matches Ok(p) && n1 =~= p.0 && e1 =~= p.1);
    match object_members(get_member(doc, "jsr")) {
        None => {},
        Some(ms) => match deno_members(ms, &mut nodes, &mut edges) {
            Some(e) => {
                return Err(e);
            },
            None => {},
        },
    }
    Ok((nodes, edges))
}

/// Bytes of a character in UTF-8.
pub open spec fn utf8_width(c: char) -> int {
    if (c as u32) < 0x80 {
        1
    } else if (c as u32) < 0x800 {
        2
    } else if (c as u32) < 0x10000 {
        3
    } else {
        4
    }
}

/// Bytes of a text in UTF-8.
pub open spec fn utf8_len(s: Seq<char>) -> int
    decreases s.len(),
{
    if s.len() == 0 {
        0
    } else {
        utf8_len(s.drop_last()) + utf8_width(s.last())
    }
}

/// The byte width of a line's indentation.
pub open spec fn indent_bytes(line: Seq<char>) -> int {
    utf8_len(line.take(line.len() - crate::text::trim_start(line).len()))
}

pub open spec fn strip_dquotes(s: Seq<char>) -> Seq<char> {
    super::extraction::strip_end_while(
        super::extraction::strip_start_while(s, |c: char| c == '"'),
        |c: char| c == '"',
    )
}

/// The value of a `field value` line, unquoted, when it is not empty.
pub open spec fn parse_scalar_spec(line: Seq<char>, field: Seq<char>) -> Option<Seq<char>> {
    match crate::text::strip_prefix(line, field) {
        Some(rest) => {
            let v = super::extraction::trim_quotes(crate::text::trim(rest));
            if v.len() == 0 {
                None
            } else {
                Some(v)
            }
        },
        None => None,
    }
}

/// The text before the first occurrence of `p`.
pub open spec fn before_first(s: Seq<char>, p: Seq<char>) -> Seq<char> {
    if exists|i: int| crate::text::first_match_from(s, p, 0, i) {
        s.take(choose|i: int| crate::text::first_match_from(s, p, 0, i))
    } else {
        s
    }
}

/// A Yarn Classic entry being read.
pub struct ClassicEntryView {
    pub locator: Seq<char>,
    pub name: Option<Seq<char>>,
    pub version: Option<Seq<char>>,
    pub integrity: Option<Seq<char>>,
    pub edges: Seq<(Seq<char>, Seq<char>)>,
}

pub struct ClassicState {
    pub nodes: Seq<NodeView>,
    pub edges: Seq<EdgeView>,
    pub entry: ClassicEntryView,
    pub kind: Option<Seq<char>>,
}

pub open spec fn empty_entry() -> ClassicEntryView {
    ClassicEntryView { locator: seq![], name: None, version: None, integrity: None, edges: seq![] }
}

/// The node and edges of a finished entry that has a name and a version.
pub open spec fn flush_spec(e: ClassicEntryView) -> (Seq<NodeView>, Seq<EdgeView>) {
    match (e.name, e.version) {
        (Some(n), Some(v)) => (
            seq![node_of(e.locator, n, v, e.integrity, (seq![], seq![], seq![]))],
            e.edges.map_values(
                |d: (Seq<char>, Seq<char>)| EdgeView { from: resolution_text(n, v), dependency: d.0, kind: d.1, target: None },
            ),
        ),
        _ => (seq![], seq![]),
    }
}

/// The package name of an entry header's first selector.
pub open spec fn classic_name(first: Seq<char>) -> Option<Seq<char>> {
    match split_locator_spec(first) {
        Some((n, _)) => Some(n),
        None => match super::extraction::locator_separator(first) {
            Some(sep) => Some(first.take(sep)),
            None => None,
        },
    }
}

pub open spec fn section_kind(t: Seq<char>) -> Option<Seq<char>> {
    if t == "dependencies:"@ {
        Some("dependency"@)
    } else if t == "optionalDependencies:"@ {
        Some("optional"@)
    } else if t == "peerDependencies:"@ {
        Some("peer"@)
    } else {
        None
    }
}

/// One line of a Yarn Classic lockfile read into the state.
pub open spec fn classic_step(st: ClassicState, line: Seq<char>) -> ClassicState {
    let t = crate::text::trim(line);
    if t.len() == 0 || starts_with(crate::text::trim_start(line), "#"@) {
        st
    } else {
        let indent = indent_bytes(line);
        if indent == 0 && crate::text::ends_with(t, ":"@) {
            let (n, e) = flush_spec(st.entry);
            let locator = crate::text::trim(super::extraction::strip_end_while(t, |c: char| c == ':'));
            let first = before_first(strip_dquotes(locator), ", "@);
            ClassicState {
                nodes: st.nodes + n,
                edges: st.edges + e,
                entry: ClassicEntryView { locator, name: classic_name(first), version: None, integrity: None, edges: seq![] },
                kind: None,
            }
        } else if indent == 2 {
            let entry = match parse_scalar_spec(t, "version"@) {
                Some(v) => ClassicEntryView { version: Some(v), ..st.entry },
                None => match parse_scalar_spec(t, "integrity"@) {
                    Some(i) => ClassicEntryView { integrity: Some(i), ..st.entry },
                    None => st.entry,
                },
            };
            ClassicState { entry, kind: section_kind(t), ..st }
        } else if indent >= 4 && st.kind is Some && crate::text::words(t).len() > 0 {
            ClassicState {
                entry: ClassicEntryView {
                    edges: st.entry.edges.push((strip_dquotes(crate::text::words(t)[0]), st.kind->Some_0)),
                    ..st.entry
                },
                ..st
            }
        } else {
            st
        }
    }
}

pub open spec fn classic_run(ls: Seq<Seq<char>>) -> ClassicState
    decreases ls.len(),
{
    if ls.len() == 0 {
        ClassicState { nodes: seq![], edges: seq![], entry: empty_entry(), kind: None }
    } else {
        classic_step(classic_run(ls.drop_last()), ls.last())
    }
}

/// The graph parts of a Yarn Classic lockfile, or why it is refused.
pub open spec fn yarn_classic_spec(content: Seq<char>) -> Result<(Seq<NodeView>, Seq<EdgeView>), Seq<char>> {
    let ls = crate::text::lines(content);
    if exists|i: int| 0 <= i < ls.len() && crate::text::trim(ls[i]) == "# yarn lockfile v1"@ {
        let st = classic_run(ls);
        let (n, e) = flush_spec(st.entry);
        Ok((st.nodes + n, st.edges + e))
    } else {
        Err("missing Yarn Classic lockfile header"@)
    }
}

struct ClassicEntry {
    locator: Vec<char>,
    name: Option<Vec<char>>,
    version: Option<Vec<char>>,
    integrity: Option<Vec<char>>,
    edges: Vec<(Vec<char>, Vec<char>)>,
}

spec fn opt_chars(o: Option<Vec<char>>) -> Option<Seq<char>> {
    match o {
        Some(v) => Some(v@),
        None => None,
    }
}

spec fn pairs_view(s: Seq<(Vec<char>, Vec<char>)>) -> Seq<(Seq<char>, Seq<char>)> {
    s.map_values(|p: (Vec<char>, Vec<char>)| (p.0@, p.1@))
}

spec fn entry_view(e: ClassicEntry) -> ClassicEntryView {
    ClassicEntryView {
        locator: e.locator@,
        name: opt_chars(e.name),
        version: opt_chars(e.version),
        integrity: opt_chars(e.integrity),
        edges: pairs_view(e.edges@),
    }
}

fn flush_classic(entry: ClassicEntry, nodes: &mut Vec<LockGraphNode>, edges: &mut Vec<LockGraphEdge>)
    ensures
        nodes_view(final(nodes)@) == nodes_view(old(nodes)@) + flush_spec(entry_view(entry)).0,
        edges_view(final(edges)@) == edges_view(old(edges)@) + flush_spec(entry_view(entry)).1,
{
    let ghost n0 = nodes_view(nodes@);
    let ghost e0 = edges_view(edges@);
    let ghost ev = entry_view(entry);
    let ClassicEntry { locator, name, version, integrity, edges: pairs } = entry;
    match (name, version) {
        (Some(n), Some(v)) => {
            let platform = PackagePlatformConstraint::empty();
            assert(platform_view(platform) =~= (Seq::<Seq<char>>::empty(), Seq::<Seq<char>>::empty(), Seq::<Seq<char>>::empty()));
            let integrity = match integrity {
                Some(i) => Some(string_of(&i)),
                None => None,
            };
            let node = make_node(&locator, &n, &v, integrity, platform);
            let ghost nb = nodes@;
            nodes.push(node);
            proof {
                lemma_nodes_push(nb, node);
            }
            assert(nodes_view(nodes@) =~= n0 + flush_spec(ev).0);
            let parent = resolution_chars(&n, &v);
            let ghost all = flush_spec(ev).1;
            let mut k: usize = 0;
            while k < pairs.len()
                invariant
                    k <= pairs.len(),
                    ev.edges == pairs_view(pairs@),
                    ev.name == Some(n@),
                    ev.version == Some(v@),
                    parent@ == resolution_text(n@, v@),
                    all == flush_spec(ev).1,
                    edges_view(edges@) == e0 + all.take(k as int),
                decreases pairs.len() - k,
            {
                let e = LockGraphEdge {
                    from: string_of(&parent),
                    dependency: string_of(&pairs[k].0),
                    kind: string_of(&pairs[k].1),
                    target: None,
                };
                let ghost before = edges@;
                edges.push(e);
                proof {
                    lemma_edges_push(before, e);
                    assert(all.take(k + 1) =~= all.take(k as int).push(all[k as int]));
                }
                assert(edges_view(edges@) =~= e0 + all.take(k + 1));
                k = k + 1;
            }
            assert(all.take(pairs.len() as int) =~= all);
        },
        _ => {
            assert(nodes_view(nodes@) =~= n0 + Seq::<NodeView>::empty());
            assert(edges_view(edges@) =~= e0 + Seq::<EdgeView>::empty());
        },
    }
}

fn utf8_width_exec(c: char) -> (w: usize)
    ensures
        w == utf8_width(c),
{
    if (c as u32) < 0x80 {
        1
    } else if (c as u32) < 0x800 {
        2
    } else if (c as u32) < 0x10000 {
        3
    } else {
        4
    }
}

proof fn lemma_utf8_len_take(s: Seq<char>, i: int, j: int)
    requires
        0 <= i <= j <= s.len(),
    ensures
        utf8_len(s.take(i)) <= utf8_len(s.take(j)),
    decreases j - i,
{
    if i < j {
        assert(s.take(j).drop_last() =~= s.take(j - 1));
        lemma_utf8_len_take(s, i, j - 1);
    }
}

/// The byte width of a line's indentation, counted up to four.
fn indent_of(line: &[char]) -> (r: usize)
    ensures
        r == (if indent_bytes(line@) >= 4 {
            4
        } else {
            indent_bytes(line@)
        }),
{
    let rest = crate::text::trimmed_start(line);
    proof {
        crate::text::lemma_trim_start_shape(line@);
    }
    let n = line.len() - rest.len();
    let ghost lead = line@.take(n as int);
    let mut total: usize = 0;
    let mut i: usize = 0;
    while i < n && total < 4
        invariant
            i <= n <= line.len(),
            lead == line@.take(n as int),
            total == utf8_len(lead.take(i as int)),
            total <= 7,
        decreases n - i,
    {
        assert(lead.take(i + 1).drop_last() =~= lead.take(i as int));
        assert(lead.take(i + 1).last() == line@[i as int]);
        total = total + utf8_width_exec(line[i]);
        i = i + 1;
    }
    proof {
        lemma_utf8_len_take(lead, i as int, n as int);
        assert(lead.take(n as int) =~= lead);
    }
    if total >= 4 {
        4
    } else {
        total
    }
}

fn strip_dquotes_exec(s: &[char]) -> (r: Vec<char>)
    ensures
        r@ == strip_dquotes(s@),
{
    let mut a: usize = 0;
    assert(s@.skip(0) =~= s@);
    while a < s.len() && s[a] == '"'
        invariant
            a <= s.len(),
            super::extraction::strip_start_while(s@, |c: char| c == '"') == super::extraction::strip_start_while(
                s@.skip(a as int),
                |c: char| c == '"',
            ),
        decreases s.len() - a,
    {
        assert(s@.skip(a as int).drop_first() =~= s@.skip(a + 1));
        a = a + 1;
    }
    let mut b: usize = s.len();
    let ghost mid = s@.skip(a as int);
    assert(mid.len() == 0 || mid[0] != '"');
    assert(super::extraction::strip_start_while(mid, |c: char| c == '"') == mid);
    while b > a && s[b - 1] == '"'
        invariant
            a <= b <= s.len(),
            mid == s@.skip(a as int),
            strip_dquotes(s@) == super::extraction::strip_end_while(
                s@.subrange(a as int, b as int),
                |c: char| c == '"',
            ),
        decreases b,
    {
        assert(s@.subrange(a as int, b as int).drop_last() =~= s@.subrange(a as int, b - 1));
        b = b - 1;
    }
    assert(s@.skip(a as int) =~= s@.subrange(a as int, s.len() as int));
    slice_of(s, a, b)
}

fn parse_scalar(line: &[char], field: &str) -> (r: Option<Vec<char>>)
    ensures
        match r {
            Some(v) => parse_scalar_spec(line@, field@) == Some(v@),
            None => parse_scalar_spec(line@, field@) is None,
        },
{
    if !str_starts_with(line, field) {
        return None;
    }
    let f = chars_of(field);
    let rest = slice_of(line, f.len(), line.len());
    let t = crate::text::trimmed(&rest);
    let v = super::extraction::trim_quotes_exec(&t);
    if v.len() == 0 {
        None
    } else {
        Some(v)
    }
}

fn before_first_exec(s: &[char], p: &str) -> (r: Vec<char>)
    ensures
        r@ == before_first(s@, p@),
{
    let pc = chars_of(p);
    match crate::text::find_from(s, &pc, 0) {
        Some(i) => {
            proof {
                assert(crate::text::first_match_from(s@, p@, 0, i as int));
                let j = choose|j: int| crate::text::first_match_from(s@, p@, 0, j);
                assert(j == i as int) by {
                    if j < i {
                    } else if j > i {
                    }
                }
            }
            slice_of(s, 0, i)
        },
        None => {
            proof {
                assert(!exists|i: int| crate::text::first_match_from(s@, p@, 0, i));
            }
            slice_of(s, 0, s.len())
        },
    }
}

fn classic_name_exec(first: &[char]) -> (r: Option<Vec<char>>)
    ensures
        opt_chars(r) == classic_name(first@),
{
    match split_locator(first) {
        Some(p) => Some(p.0),
        None => match super::extraction::locator_separator_exec(first) {
            Some(sep) => Some(slice_of(first, 0, sep)),
            None => None,
        },
    }
}

/// The nodes and edges of a Yarn Classic lockfile, as `yarn_classic_spec`
/// states.
pub fn parse_yarn_classic_checked(content: &str) -> (r: Result<(Vec<LockGraphNode>, Vec<LockGraphEdge>), String>)
    ensures
        parts_view(r) == yarn_classic_spec(content@),
{
    let cs = chars_of(content);
    let ls = crate::text::lines_exec(&cs);
    let ghost lv = texts(ls@);
    let mut found = false;
    let mut h: usize = 0;
    while h < ls.len()
        invariant
            h <= ls.len(),
            lv == texts(ls@),
            found == exists|i: int| 0 <= i < h && crate::text::trim(lv[i]) == "# yarn lockfile v1"@,
        decreases ls.len() - h,
    {
        let t = crate::text::trimmed(&ls[h]);
        let ghost f0 = found;
        if str_eq(&t, "# yarn lockfile v1") {
            found = true;
        }
        proof {
            assert(lv[h as int] == ls@[h as int]@);
            if found && !f0 {
                assert(crate::text::trim(lv[h as int]) == "# yarn lockfile v1"@);
            }
            if exists|i: int| 0 <= i < h + 1 && crate::text::trim(lv[i]) == "# yarn lockfile v1"@ {
                let i = choose|i: int| 0 <= i < h + 1 && crate::text::trim(lv[i]) == "# yarn lockfile v1"@;
                if i < h {
                    assert(f0);
                }
            }
        }
        h = h + 1;
    }
    if !found {
        return Err("missing Yarn Classic lockfile header".to_owned());
    }
    let mut nodes: Vec<LockGraphNode> = Vec::new();
    let mut edges: Vec<LockGraphEdge> = Vec::new();
    let mut entry = ClassicEntry { locator: Vec::new(), name: None, version: None, integrity: None, edges: Vec::new() };
    let mut kind: Option<Vec<char>> = None;
    assert(entry_view(entry).edges =~= empty_entry().edges);
    assert(entry_view(entry).locator =~= empty_entry().locator);
    let mut k: usize = 0;
    while k < ls.len()
        invariant
            k <= ls.len(),
            lv == texts(ls@),
            ({
                let st = classic_run(lv.take(k as int));
                &&& st.nodes == nodes_view(nodes@)
                &&& st.edges == edges_view(edges@)
                &&& st.entry == entry_view(entry)
                &&& st.kind == opt_chars(kind)
            }),
        decreases ls.len() - k,
    {
        assert(lv.take(k + 1).drop_last() =~= lv.take(k as int));
        assert(lv.take(k + 1).last() == ls@[k as int]@);
        let line = &ls[k];
        let t = crate::text::trimmed(line);
        let lead = crate::text::trimmed_start(line);
        if t.len() == 0 || str_starts_with(&lead, "#") {
            k = k + 1;
            continue;
        }
        let indent = indent_of(line);
        if indent == 0 && crate::text::str_ends_with(&t, ":") {
            let old_entry = entry;
            flush_classic(old_entry, &mut nodes, &mut edges);
            let mut e = t.len();
            assert(t@.take(t.len() as int) =~= t@);
            while e > 0 && t[e - 1] == ':'
                invariant
                    e <= t.len(),
                    super::extraction::strip_end_while(t@, |c: char| c == ':') == super::extraction::strip_end_while(
                        t@.take(e as int),
                        |c: char| c == ':',
                    ),
                decreases e,
            {
                assert(t@.take(e as int).drop_last() =~= t@.take(e - 1));
                e = e - 1;
            }
            assert(t@.take(t.len() as int) =~= t@);
            let cut = slice_of(&t, 0, e);
            assert(cut@ =~= t@.take(e as int));
            let locator = crate::text::trimmed(&cut);
            let unq = strip_dquotes_exec(&locator);
            let first = before_first_exec(&unq, ", ");
            let name = classic_name_exec(&first);
            entry = ClassicEntry { locator, name, version: None, integrity: None, edges: Vec::new() };
            kind = None;
            assert(entry_view(entry).edges =~= Seq::<(Seq<char>, Seq<char>)>::empty());
        } else if indent == 2 {
            kind = if str_eq(&t, "dependencies:") {
                Some(chars_of("dependency"))
            } else if str_eq(&t, "optionalDependencies:") {
                Some(chars_of("optional"))
            } else if str_eq(&t, "peerDependencies:") {
                Some(chars_of("peer"))
            } else {
                None
            };
            match parse_scalar(&t, "version") {
                Some(v) => {
                    entry.version = Some(v);
                },
                None => match parse_scalar(&t, "integrity") {
                    Some(i) => {
                        entry.integrity = Some(i);
                    },
                    None => {},
                },
            }
        } else if indent >= 4 && kind.is_some() {
            let ws = crate::text::words_exec(&t);
            if ws.len() > 0 {
                proof {
                    assert(texts(ws@)[0] == ws@[0]@);
                }
                let d = strip_dquotes_exec(&ws[0]);
                let kd = match &kind {
                    Some(x) => slice_of(x, 0, x.len()),
                    None => Vec::new(),
                };
                proof {
                    let x = kind->Some_0;
                    assert(x@.subrange(0, x@.len() as int) =~= x@);
                }
                let ghost pv = entry.edges@;
                entry.edges.push((d, kd));
                assert(pairs_view(entry.edges@) =~= pairs_view(pv).push((d@, kd@)));
            }
        }
        k = k + 1;
    }
    assert(lv.take(ls.len() as int) =~= lv);
    flush_classic(entry, &mut nodes, &mut edges);
    Ok((nodes, edges))
}

} // verus!
