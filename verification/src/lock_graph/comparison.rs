//! Comparison of the package resolutions and dependency edges of two lock
//! graphs, optionally restricted to what a project's dependencies reach.
use vstd::prelude::*;
use crate::digest::{
    decimal, decimal_exec, frame, frame_items, frame_list, push_frame, push_frame_list, short_digest,
    short_digest_spec,
};
use crate::model::{LockGraph, LockGraphComparison, LockGraphEdge, LockGraphNode, VerificationStatus};
use crate::policy::{policy_view, EdgeEquivalencePolicy, TargetPlatform, VerificationPolicy};
use crate::model::{ProjectIr, SCHEMA_VERSION};
use crate::policy::allows_spec;
use super::reachability::{
    issue_set, issues, least_closed, project_roots, project_roots_spec, reach, resolution_name,
    resolution_name_exec, Reach, States,
};
use crate::sorted::{contains_chars, insert_sorted, lists_sorted};
use crate::text::{
    chars_eq, chars_of, find_char, lemma_texts_push, push_chars, push_str, seq_lt, slice_of,
    strictly_sorted, string_of, strings_of, strs, texts,
};

verus! {

/// `name@version` of a node.
pub open spec fn res_of(n: LockGraphNode) -> Seq<char> {
    n.name@ + "@"@ + n.version@
}

/// The resolutions (`name@version`) of the nodes.
pub open spec fn res_set(nodes: Seq<LockGraphNode>) -> Set<Seq<char>> {
    Set::new(|r: Seq<char>| exists|i: int| 0 <= i < nodes.len() && #[trigger] res_of(nodes[i]) == r)
}

/// The integrity strings recorded for resolution `r`.
pub open spec fn integrity_set(nodes: Seq<LockGraphNode>, r: Seq<char>) -> Set<Seq<char>> {
    Set::new(
        |t: Seq<char>|
            exists|i: int|
                0 <= i < nodes.len() && #[trigger] res_of(nodes[i]) == r && nodes[i].integrity
                    is Some && nodes[i].integrity->0@ == t,
    )
}

/// The part of an integrity string before its first `-` or `:` (its algorithm).
pub open spec fn family_len(v: Seq<char>) -> int
    decreases v.len(),
{
    if v.len() == 0 || v[0] == '-' || v[0] == ':' {
        0
    } else {
        1 + family_len(v.drop_first())
    }
}

pub open spec fn integrity_family(v: Seq<char>) -> Seq<char> {
    v.take(family_len(v))
}

proof fn lemma_family_len(v: Seq<char>, k: int)
    requires
        0 <= k <= v.len(),
        forall|j: int| 0 <= j < k ==> v[j] != '-' && v[j] != ':',
        k == v.len() || v[k] == '-' || v[k] == ':',
    ensures
        family_len(v) == k,
    decreases k,
{
    if k > 0 {
        lemma_family_len(v.drop_first(), k - 1);
    }
}

fn integrity_family_exec(v: &[char]) -> (r: Vec<char>)
    ensures
        r@ == integrity_family(v@),
{
    let mut k: usize = 0;
    while k < v.len() && v[k] != '-' && v[k] != ':'
        invariant
            k <= v.len(),
            forall|j: int| 0 <= j < k ==> v@[j] != '-' && v@[j] != ':',
        decreases v.len() - k,
    {
        k = k + 1;
    }
    proof {
        lemma_family_len(v@, k as int);
    }
    slice_of(v, 0, k)
}

/// Whether `k` is where an integrity's algorithm name ends: no `-` or `:`
/// before it, and the text ends or has a `-` or `:` there.
pub open spec fn algorithm_ends_at(v: Seq<char>, k: int) -> bool {
    &&& 0 <= k <= v.len()
    &&& forall|j: int| 0 <= j < k ==> v[j] != '-' && v[j] != ':'
    &&& (k == v.len() || v[k] == '-' || v[k] == ':')
}

/// An integrity's family is its algorithm name: the text before its first
/// `-` or `:`, or all of it when there is none.
pub proof fn law_integrity_family_is_algorithm(v: Seq<char>, k: int)
    requires
        algorithm_ends_at(v, k),
    ensures
        integrity_family(v) == v.take(k),
{
    lemma_family_len(v, k);
}

/// Every integrity has an algorithm name.
proof fn lemma_algorithm_end_exists(v: Seq<char>) -> (k: int)
    ensures
        algorithm_ends_at(v, k),
    decreases v.len(),
{
    if v.len() == 0 || v[0] == '-' || v[0] == ':' {
        0
    } else {
        let k = lemma_algorithm_end_exists(v.drop_first());
        assert forall|j: int| 0 <= j < k + 1 implies v[j] != '-' && v[j] != ':' by {
            if j > 0 {
                assert(v[j] == v.drop_first()[j - 1]);
            }
        }
        k + 1
    }
}

/// A resolution is an integrity conflict only when both sides record
/// integrities, share none, and some source integrity and some target
/// integrity name the same algorithm; integrities of different algorithms
/// (`sha512-…` against `yarn:…`) never conflict.
pub proof fn law_conflict_needs_shared_algorithm(
    source: Seq<LockGraphNode>,
    target: Seq<LockGraphNode>,
    s: Set<Seq<char>>,
    t: Set<Seq<char>>,
    r: Seq<char>,
)
    ensures
        mismatch_set(source, target, s, t).contains(r) <==> (s.contains(r) && t.contains(r) && !integrity_set(
            source,
            r,
        ).is_empty() && !integrity_set(target, r).is_empty() && integrity_set(source, r).disjoint(
            integrity_set(target, r),
        ) && exists|a: Seq<char>, b: Seq<char>, k: int|
            integrity_set(source, r).contains(a) && integrity_set(target, r).contains(b) && algorithm_ends_at(a, k)
                && algorithm_ends_at(b, k) && a.take(k) == b.take(k)),
{
    let si = integrity_set(source, r);
    let ti = integrity_set(target, r);
    if exists|a: Seq<char>, b: Seq<char>| si.contains(a) && ti.contains(b) && integrity_family(a) == integrity_family(b) {
        let (a, b) = choose|a: Seq<char>, b: Seq<char>|
            si.contains(a) && ti.contains(b) && integrity_family(a) == integrity_family(b);
        let ka = lemma_algorithm_end_exists(a);
        let kb = lemma_algorithm_end_exists(b);
        lemma_family_len(a, ka);
        lemma_family_len(b, kb);
        assert(a.take(ka).len() == ka && b.take(kb).len() == kb);
        assert(ka == kb);
        assert(algorithm_ends_at(a, ka) && algorithm_ends_at(b, ka) && a.take(ka) == b.take(ka));
    }
    if exists|a: Seq<char>, b: Seq<char>, k: int|
        si.contains(a) && ti.contains(b) && algorithm_ends_at(a, k) && algorithm_ends_at(b, k) && a.take(k) == b.take(k) {
        let (a, b, k) = choose|a: Seq<char>, b: Seq<char>, k: int|
            si.contains(a) && ti.contains(b) && algorithm_ends_at(a, k) && algorithm_ends_at(b, k) && a.take(k)
                == b.take(k);
        lemma_family_len(a, k);
        lemma_family_len(b, k);
        assert(integrity_family(a) == integrity_family(b));
    }
}

/// Whether resolution `r` has recorded integrities on both sides that use a
/// common algorithm but share no value.
pub open spec fn integrity_mismatch(s: Set<Seq<char>>, t: Set<Seq<char>>) -> bool {
    &&& !s.is_empty()
    &&& !t.is_empty()
    &&& exists|a: Seq<char>, b: Seq<char>|
        s.contains(a) && t.contains(b) && integrity_family(a) == integrity_family(b)
    &&& s.disjoint(t)
}

pub fn node_resolution(n: &LockGraphNode) -> (r: Vec<char>)
    ensures
        r@ == res_of(*n),
{
    let mut r = chars_of(n.name.as_str());
    r.push('@');
    let v = chars_of(n.version.as_str());
    push_chars(&mut r, &v);
    proof {
        reveal_strlit("@");
    }
    assert(r@ =~= res_of(*n));
    r
}

/// The resolutions of `nodes`, in increasing order.
pub fn resolutions(nodes: &[LockGraphNode]) -> (r: Vec<Vec<char>>)
    ensures
        lists_sorted(texts(r@), res_set(nodes@)),
{
    let mut r: Vec<Vec<char>> = Vec::new();
    let mut i: usize = 0;
    while i < nodes.len()
        invariant
            i <= nodes.len(),
            strictly_sorted(texts(r@)),
            texts(r@).to_set() == res_set(nodes@.take(i as int)),
        decreases nodes.len() - i,
    {
        let x = node_resolution(&nodes[i]);
        let ghost xv = x@;
        insert_sorted(&mut r, x);
        proof {
            let a = nodes@.take(i as int);
            let b = nodes@.take(i + 1);
            assert forall|y: Seq<char>| res_set(b).contains(y) <==> res_set(a).insert(xv).contains(y) by {
                if res_set(b).contains(y) {
                    let k = choose|k: int| 0 <= k < b.len() && #[trigger] res_of(b[k]) == y;
                    if k < i {
                        assert(res_of(a[k]) == y);
                    }
                }
                if res_set(a).contains(y) {
                    let k = choose|k: int| 0 <= k < a.len() && #[trigger] res_of(a[k]) == y;
                    assert(res_of(b[k]) == y);
                }
                if y == xv {
                    assert(res_of(b[i as int]) == y);
                }
            }
            assert(res_set(b) =~= res_set(a).insert(xv));
        }
        i = i + 1;
    }
    assert(nodes@.take(nodes.len() as int) =~= nodes@);
    r
}

/// The integrities recorded for resolution `res`, in increasing order.
pub fn integrities(nodes: &[LockGraphNode], res: &[char]) -> (r: Vec<Vec<char>>)
    ensures
        lists_sorted(texts(r@), integrity_set(nodes@, res@)),
{
    let mut r: Vec<Vec<char>> = Vec::new();
    let mut i: usize = 0;
    while i < nodes.len()
        invariant
            i <= nodes.len(),
            strictly_sorted(texts(r@)),
            texts(r@).to_set() == integrity_set(nodes@.take(i as int), res@),
        decreases nodes.len() - i,
    {
        let x = node_resolution(&nodes[i]);
        let ghost before = texts(r@).to_set();
        let ghost a = nodes@.take(i as int);
        let ghost b = nodes@.take(i + 1);
        if chars_eq(&x, res) {
            match &nodes[i].integrity {
                Some(t) => {
                    let tv = chars_of(t.as_str());
                    let ghost tt = tv@;
                    insert_sorted(&mut r, tv);
                    proof {
                        assert forall|y: Seq<char>| integrity_set(b, res@).contains(y) <==> integrity_set(a, res@).insert(tt).contains(y) by {
                            if integrity_set(b, res@).contains(y) {
                                let k = choose|k: int| 0 <= k < b.len() && #[trigger] res_of(b[k]) == res@ && b[k].integrity is Some && b[k].integrity->0@ == y;
                                if k < i {
                                    assert(res_of(a[k]) == res@);
                                }
                            }
                            if integrity_set(a, res@).contains(y) {
                                let k = choose|k: int| 0 <= k < a.len() && #[trigger] res_of(a[k]) == res@ && a[k].integrity is Some && a[k].integrity->0@ == y;
                                assert(res_of(b[k]) == res@);
                            }
                            if y == tt {
                                assert(res_of(b[i as int]) == res@);
                            }
                        }
                        assert(integrity_set(b, res@) =~= integrity_set(a, res@).insert(tt));
                    }
                },
                None => {
                    proof {
                        assert forall|y: Seq<char>| integrity_set(b, res@).contains(y) <==> integrity_set(a, res@).contains(y) by {
                            if integrity_set(b, res@).contains(y) {
                                let k = choose|k: int| 0 <= k < b.len() && #[trigger] res_of(b[k]) == res@ && b[k].integrity is Some && b[k].integrity->0@ == y;
                                if k < i {
                                    assert(res_of(a[k]) == res@);
                                }
                            }
                            if integrity_set(a, res@).contains(y) {
                                let k = choose|k: int| 0 <= k < a.len() && #[trigger] res_of(a[k]) == res@ && a[k].integrity is Some && a[k].integrity->0@ == y;
                                assert(res_of(b[k]) == res@);
                            }
                        }
                        assert(integrity_set(b, res@) =~= integrity_set(a, res@));
                    }
                },
            }
        } else {
            proof {
                assert forall|y: Seq<char>| integrity_set(b, res@).contains(y) <==> integrity_set(a, res@).contains(y) by {
                    if integrity_set(b, res@).contains(y) {
                        let k = choose|k: int| 0 <= k < b.len() && #[trigger] res_of(b[k]) == res@ && b[k].integrity is Some && b[k].integrity->0@ == y;
                        if k < i {
                            assert(res_of(a[k]) == res@);
                        }
                    }
                    if integrity_set(a, res@).contains(y) {
                        let k = choose|k: int| 0 <= k < a.len() && #[trigger] res_of(a[k]) == res@ && a[k].integrity is Some && a[k].integrity->0@ == y;
                        assert(res_of(b[k]) == res@);
                    }
                }
                assert(integrity_set(b, res@) =~= integrity_set(a, res@));
            }
        }
        i = i + 1;
    }
    assert(nodes@.take(nodes.len() as int) =~= nodes@);
    r
}

/// Whether two integrity lists use a common algorithm yet share no value.
fn mismatch_exec(s: &[Vec<char>], t: &[Vec<char>]) -> (r: bool)
    ensures
        r == integrity_mismatch(texts(s@).to_set(), texts(t@).to_set()),
{
    let ghost ss = texts(s@).to_set();
    let ghost ts = texts(t@).to_set();
    if s.len() == 0 || t.len() == 0 {
        proof {
            if s.len() == 0 {
                assert(ss =~= Set::<Seq<char>>::empty());
            } else {
                assert(ts =~= Set::<Seq<char>>::empty());
            }
        }
        return false;
    }
    assert(ss.contains(texts(s@)[0]));
    assert(ts.contains(texts(t@)[0]));
    let mut comparable = false;
    let mut shared = false;
    let mut i: usize = 0;
    while i < s.len()
        invariant
            i <= s.len(),
            ss == texts(s@).to_set(),
            ts == texts(t@).to_set(),
            comparable == exists|a: int, b: int|
                0 <= a < i && 0 <= b < t.len() && integrity_family(texts(s@)[a])
                    == integrity_family(texts(t@)[b]),
            shared == exists|a: int, b: int|
                0 <= a < i && 0 <= b < t.len() && texts(s@)[a] == texts(t@)[b],
        decreases s.len() - i,
    {
        let fs = integrity_family_exec(&s[i]);
        let mut j: usize = 0;
        let ghost c0 = comparable;
        let ghost s0 = shared;
        while j < t.len()
            invariant
                i < s.len(),
                j <= t.len(),
                fs@ == integrity_family(texts(s@)[i as int]),
                comparable == (c0 || exists|b: int|
                    0 <= b < j && integrity_family(texts(s@)[i as int]) == integrity_family(
                        texts(t@)[b],
                    )),
                shared == (s0 || exists|b: int| 0 <= b < j && texts(s@)[i as int] == texts(t@)[b]),
            decreases t.len() - j,
        {
            let ft = integrity_family_exec(&t[j]);
            let ghost cj = comparable;
            let ghost sj = shared;
            let same_family = chars_eq(&fs, &ft);
            let same = chars_eq(&s[i], &t[j]);
            if same_family {
                comparable = true;
            }
            if same {
                shared = true;
            }
            proof {
                let si = texts(s@)[i as int];
                assert(texts(t@)[j as int] == t@[j as int]@);
                assert(si == s@[i as int]@);
                let pc = |b: int| 0 <= b < j + 1 && integrity_family(si) == integrity_family(texts(t@)[b]);
                let ps = |b: int| 0 <= b < j + 1 && si == texts(t@)[b];
                if same_family {
                    assert(pc(j as int));
                }
                if same {
                    assert(ps(j as int));
                }
                if exists|b: int| #[trigger] pc(b) {
                    let b = choose|b: int| #[trigger] pc(b);
                    if b < j {
                        assert(0 <= b < j && integrity_family(si) == integrity_family(texts(t@)[b]));
                    }
                }
                if exists|b: int| #[trigger] ps(b) {
                    let b = choose|b: int| #[trigger] ps(b);
                    if b < j {
                        assert(0 <= b < j && si == texts(t@)[b]);
                    }
                }
                if exists|b: int| 0 <= b < j && integrity_family(si) == integrity_family(texts(t@)[b]) {
                    let b = choose|b: int| 0 <= b < j && integrity_family(si) == integrity_family(texts(t@)[b]);
                    assert(pc(b));
                }
                if exists|b: int| 0 <= b < j && si == texts(t@)[b] {
                    let b = choose|b: int| 0 <= b < j && si == texts(t@)[b];
                    assert(ps(b));
                }
            }
            j = j + 1;
        }
        proof {
            if comparable && !c0 {
                let b = choose|b: int| 0 <= b < t.len() && integrity_family(texts(s@)[i as int]) == integrity_family(texts(t@)[b]);
                assert(0 <= i < i + 1 && 0 <= b < t.len() && integrity_family(texts(s@)[i as int]) == integrity_family(texts(t@)[b]));
            }
            if shared && !s0 {
                let b = choose|b: int| 0 <= b < t.len() && texts(s@)[i as int] == texts(t@)[b];
                assert(0 <= i < i + 1 && 0 <= b < t.len() && texts(s@)[i as int] == texts(t@)[b]);
            }
        }
        i = i + 1;
    }
    proof {
        let ex_c = exists|a: Seq<char>, b: Seq<char>|
            ss.contains(a) && ts.contains(b) && integrity_family(a) == integrity_family(b);
        if comparable {
            let (a, b) = choose|a: int, b: int|
                0 <= a < s.len() && 0 <= b < t.len() && integrity_family(texts(s@)[a])
                    == integrity_family(texts(t@)[b]);
            assert(ss.contains(texts(s@)[a]) && ts.contains(texts(t@)[b]));
        }
        if ex_c {
            let (x, y) = choose|x: Seq<char>, y: Seq<char>|
                ss.contains(x) && ts.contains(y) && integrity_family(x) == integrity_family(y);
            let a = choose|a: int| 0 <= a < texts(s@).len() && texts(s@)[a] == x;
            let b = choose|b: int| 0 <= b < texts(t@).len() && texts(t@)[b] == y;
            assert(integrity_family(texts(s@)[a]) == integrity_family(texts(t@)[b]));
        }
        if shared {
            let (a, b) = choose|a: int, b: int|
                0 <= a < s.len() && 0 <= b < t.len() && texts(s@)[a] == texts(t@)[b];
            assert(ss.contains(texts(s@)[a]) && ts.contains(texts(s@)[a]));
            assert(!ss.disjoint(ts));
        }
        if !ss.disjoint(ts) {
            let x = choose|x: Seq<char>| ss.contains(x) && ts.contains(x);
            let a = choose|a: int| 0 <= a < texts(s@).len() && texts(s@)[a] == x;
            let b = choose|b: int| 0 <= b < texts(t@).len() && texts(t@)[b] == x;
            assert(texts(s@)[a] == texts(t@)[b]);
        }
    }
    comparable && !shared
}

/// The `(from, dependency, kind)` of an edge.
pub struct EdgeKey {
    pub from: Vec<char>,
    pub dependency: Vec<char>,
    pub kind: Vec<char>,
}

impl View for EdgeKey {
    type V = (Seq<char>, Seq<char>, Seq<char>);

    open spec fn view(&self) -> (Seq<char>, Seq<char>, Seq<char>) {
        (self.from@, self.dependency@, self.kind@)
    }
}

pub open spec fn keys_view(v: Seq<EdgeKey>) -> Seq<(Seq<char>, Seq<char>, Seq<char>)> {
    v.map_values(|k: EdgeKey| k@)
}

/// Lexicographic order of edge keys.
pub open spec fn triple_lt(a: (Seq<char>, Seq<char>, Seq<char>), b: (Seq<char>, Seq<char>, Seq<char>)) -> bool {
    ||| seq_lt(a.0, b.0)
    ||| (a.0 == b.0 && seq_lt(a.1, b.1))
    ||| (a.0 == b.0 && a.1 == b.1 && seq_lt(a.2, b.2))
}

pub open spec fn triples_sorted(v: Seq<(Seq<char>, Seq<char>, Seq<char>)>) -> bool {
    forall|i: int, j: int| 0 <= i < j < v.len() ==> triple_lt(#[trigger] v[i], #[trigger] v[j])
}

proof fn lemma_triple_lt_transitive(
    a: (Seq<char>, Seq<char>, Seq<char>),
    b: (Seq<char>, Seq<char>, Seq<char>),
    c: (Seq<char>, Seq<char>, Seq<char>),
)
    requires
        triple_lt(a, b),
        triple_lt(b, c),
    ensures
        triple_lt(a, c),
{
    if seq_lt(a.0, b.0) && seq_lt(b.0, c.0) {
        crate::text::lemma_seq_lt_transitive(a.0, b.0, c.0);
    }
    if a.0 == b.0 && b.0 == c.0 && seq_lt(a.1, b.1) && seq_lt(b.1, c.1) {
        crate::text::lemma_seq_lt_transitive(a.1, b.1, c.1);
    }
    if a.0 == b.0 && b.0 == c.0 && a.1 == b.1 && b.1 == c.1 && seq_lt(a.2, b.2) && seq_lt(b.2, c.2) {
        crate::text::lemma_seq_lt_transitive(a.2, b.2, c.2);
    }
}

proof fn lemma_triple_lt_total(a: (Seq<char>, Seq<char>, Seq<char>), b: (Seq<char>, Seq<char>, Seq<char>))
    ensures
        triple_lt(a, b) || triple_lt(b, a) || a == b,
{
    crate::text::lemma_seq_lt_total(a.0, b.0);
    crate::text::lemma_seq_lt_total(a.1, b.1);
    crate::text::lemma_seq_lt_total(a.2, b.2);
}

fn key_lt(a: &EdgeKey, b: &EdgeKey) -> (r: bool)
    ensures
        r == triple_lt(a@, b@),
{
    if crate::text::chars_lt(&a.from, &b.from) {
        return true;
    }
    if !chars_eq(&a.from, &b.from) {
        return false;
    }
    if crate::text::chars_lt(&a.dependency, &b.dependency) {
        return true;
    }
    if !chars_eq(&a.dependency, &b.dependency) {
        return false;
    }
    crate::text::chars_lt(&a.kind, &b.kind)
}

fn key_eq(a: &EdgeKey, b: &EdgeKey) -> (r: bool)
    ensures
        r == (a@ == b@),
{
    chars_eq(&a.from, &b.from) && chars_eq(&a.dependency, &b.dependency) && chars_eq(&a.kind, &b.kind)
}

fn copy_key(k: &EdgeKey) -> (r: EdgeKey)
    ensures
        r@ == k@,
{
    EdgeKey {
        from: slice_of(&k.from, 0, k.from.len()),
        dependency: slice_of(&k.dependency, 0, k.dependency.len()),
        kind: slice_of(&k.kind, 0, k.kind.len()),
    }
}

/// Adds `x` to the strictly increasing key list `v`.
fn insert_key(v: &mut Vec<EdgeKey>, x: EdgeKey)
    requires
        triples_sorted(keys_view(old(v)@)),
    ensures
        triples_sorted(keys_view(final(v)@)),
        keys_view(final(v)@).to_set() == keys_view(old(v)@).to_set().insert(x@),
{
    let ghost ov = keys_view(v@);
    let mut j: usize = 0;
    while j < v.len() && key_lt(&v[j], &x)
        invariant
            j <= v.len(),
            ov == keys_view(v@),
            forall|k: int| 0 <= k < j ==> triple_lt(#[trigger] ov[k], x@),
        decreases v.len() - j,
    {
        j = j + 1;
    }
    if j < v.len() && key_eq(&v[j], &x) {
        assert(ov[j as int] == x@);
        assert(ov.to_set().contains(x@));
        assert(ov.to_set().insert(x@) =~= ov.to_set());
        return;
    }
    proof {
        if j < ov.len() {
            lemma_triple_lt_total(ov[j as int], x@);
        }
    }
    let ghost xv = x@;
    v.insert(j, x);
    proof {
        let nv = keys_view(v@);
        assert(nv =~= ov.insert(j as int, xv));
        assert forall|a: int, b: int| 0 <= a < b < nv.len() implies triple_lt(
            #[trigger] nv[a],
            #[trigger] nv[b],
        ) by {
            if b < j {
            } else if b == j {
                assert(nv[a] == ov[a]);
            } else if a == j {
                assert(nv[b] == ov[b - 1]);
                if b - 1 > j {
                    assert(triple_lt(ov[j as int], ov[b - 1]));
                    lemma_triple_lt_transitive(xv, ov[j as int], ov[b - 1]);
                }
            } else if a < j {
                assert(nv[b] == ov[b - 1]);
                assert(nv[a] == ov[a]);
            } else {
                assert(nv[a] == ov[a - 1]);
                assert(nv[b] == ov[b - 1]);
            }
        }
        assert forall|y: (Seq<char>, Seq<char>, Seq<char>)| nv.to_set().contains(y) <==> ov.to_set().insert(xv).contains(y) by {
            if nv.to_set().contains(y) {
                let k = choose|k: int| 0 <= k < nv.len() && nv[k] == y;
                if k < j {
                    assert(ov[k] == y);
                } else if k > j {
                    assert(ov[k - 1] == y);
                }
            }
            if ov.to_set().contains(y) {
                let k = choose|k: int| 0 <= k < ov.len() && ov[k] == y;
                if k < j {
                    assert(nv[k] == y);
                } else {
                    assert(nv[k + 1] == y);
                }
            }
            if y == xv {
                assert(nv[j as int] == y);
            }
        }
        assert(nv.to_set() =~= ov.to_set().insert(xv));
    }
}

/// Whether the key list holds `x`.
fn contains_key(v: &[EdgeKey], x: &EdgeKey) -> (r: bool)
    ensures
        r == keys_view(v@).contains(x@),
{
    let mut i: usize = 0;
    while i < v.len()
        invariant
            i <= v.len(),
            forall|j: int| 0 <= j < i ==> keys_view(v@)[j] != x@,
        decreases v.len() - i,
    {
        if key_eq(&v[i], x) {
            assert(keys_view(v@)[i as int] == x@);
            return true;
        }
        i = i + 1;
    }
    false
}

pub open spec fn edge_triple(e: LockGraphEdge) -> (Seq<char>, Seq<char>, Seq<char>) {
    (e.from@, e.dependency@, e.kind@)
}

/// The keys of the edges whose parent is in `froms` (of all edges when
/// `froms` is `None`).
pub open spec fn edge_key_set(edges: Seq<LockGraphEdge>, froms: Option<Set<Seq<char>>>) -> Set<
    (Seq<char>, Seq<char>, Seq<char>),
> {
    Set::new(
        |t: (Seq<char>, Seq<char>, Seq<char>)|
            exists|i: int|
                0 <= i < edges.len() && #[trigger] edge_triple(edges[i]) == t && (froms is None
                    || froms->0.contains(edges[i].from@)),
    )
}

/// The keys of the edges whose parent is in the text list `froms` (all edges
/// when it is `None`), in increasing order.
pub fn edge_keys(edges: &[LockGraphEdge], froms: Option<&Vec<Vec<char>>>) -> (r: Vec<EdgeKey>)
    ensures
        triples_sorted(keys_view(r@)),
        keys_view(r@).to_set() == edge_key_set(
            edges@,
            match froms {
                Some(f) => Some(texts(f@).to_set()),
                None => None,
            },
        ),
{
    let ghost fset = match froms {
        Some(f) => Some(texts(f@).to_set()),
        None => None::<Set<Seq<char>>>,
    };
    let mut r: Vec<EdgeKey> = Vec::new();
    let mut i: usize = 0;
    while i < edges.len()
        invariant
            i <= edges.len(),
            fset == match froms {
                Some(f) => Some(texts(f@).to_set()),
                None => None::<Set<Seq<char>>>,
            },
            triples_sorted(keys_view(r@)),
            keys_view(r@).to_set() == edge_key_set(edges@.take(i as int), fset),
        decreases edges.len() - i,
    {
        let e = &edges[i];
        let from = chars_of(e.from.as_str());
        let keep = match froms {
            Some(f) => contains_chars(f, &from),
            None => true,
        };
        let ghost a = edges@.take(i as int);
        let ghost b = edges@.take(i + 1);
        let ghost before = keys_view(r@).to_set();
        if keep {
            let k = EdgeKey { from, dependency: chars_of(e.dependency.as_str()), kind: chars_of(e.kind.as_str()) };
            let ghost kv = k@;
            insert_key(&mut r, k);
            proof {
                assert forall|y: (Seq<char>, Seq<char>, Seq<char>)| edge_key_set(b, fset).contains(y) <==> edge_key_set(a, fset).insert(kv).contains(y) by {
                    if edge_key_set(b, fset).contains(y) {
                        let m = choose|m: int| 0 <= m < b.len() && #[trigger] edge_triple(b[m]) == y && (fset is None || fset->0.contains(b[m].from@));
                        if m < i {
                            assert(edge_triple(a[m]) == y);
                        }
                    }
                    if edge_key_set(a, fset).contains(y) {
                        let m = choose|m: int| 0 <= m < a.len() && #[trigger] edge_triple(a[m]) == y && (fset is None || fset->0.contains(a[m].from@));
                        assert(edge_triple(b[m]) == y);
                    }
                    if y == kv {
                        assert(edge_triple(b[i as int]) == y);
                    }
                }
                assert(edge_key_set(b, fset) =~= edge_key_set(a, fset).insert(kv));
            }
        } else {
            proof {
                assert forall|y: (Seq<char>, Seq<char>, Seq<char>)| edge_key_set(b, fset).contains(y) <==> edge_key_set(a, fset).contains(y) by {
                    if edge_key_set(b, fset).contains(y) {
                        let m = choose|m: int| 0 <= m < b.len() && #[trigger] edge_triple(b[m]) == y && (fset is None || fset->0.contains(b[m].from@));
                        if m < i {
                            assert(edge_triple(a[m]) == y);
                        }
                    }
                    if edge_key_set(a, fset).contains(y) {
                        let m = choose|m: int| 0 <= m < a.len() && #[trigger] edge_triple(a[m]) == y && (fset is None || fset->0.contains(a[m].from@));
                        assert(edge_triple(b[m]) == y);
                    }
                }
                assert(edge_key_set(b, fset) =~= edge_key_set(a, fset));
            }
        }
        i = i + 1;
    }
    assert(edges@.take(edges.len() as int) =~= edges@);
    r
}

/// `from -> dependency (kind)`.
pub open spec fn format_change(t: (Seq<char>, Seq<char>, Seq<char>)) -> Seq<char> {
    t.0 + " -> "@ + t.1 + " ("@ + t.2 + ")"@
}

/// At most a hundred changes, then a line counting the omitted ones.
pub open spec fn truncate_changes(v: Seq<Seq<char>>) -> Seq<Seq<char>> {
    if v.len() > 100 {
        v.take(100).push(decimal((v.len() - 100) as nat) + " additional edge changes omitted"@)
    } else {
        v
    }
}

/// The reported edge changes between two edge-key sets: their symmetric
/// difference in increasing order, formatted and truncated.
pub open spec fn edge_changes_of(
    changes: Seq<Seq<char>>,
    s: Set<(Seq<char>, Seq<char>, Seq<char>)>,
    t: Set<(Seq<char>, Seq<char>, Seq<char>)>,
) -> bool {
    exists|l: Seq<(Seq<char>, Seq<char>, Seq<char>)>|
        triples_sorted(l) && l.to_set() == s.difference(t).union(t.difference(s)) && changes
            == truncate_changes(l.map_values(|k: (Seq<char>, Seq<char>, Seq<char>)| format_change(k)))
}

fn edge_changes(s: &[EdgeKey], t: &[EdgeKey]) -> (r: Vec<Vec<char>>)
    ensures
        edge_changes_of(texts(r@), keys_view(s@).to_set(), keys_view(t@).to_set()),
{
    let ghost ss = keys_view(s@).to_set();
    let ghost ts = keys_view(t@).to_set();
    let mut l: Vec<EdgeKey> = Vec::new();
    let mut i: usize = 0;
    while i < s.len()
        invariant
            i <= s.len(),
            ss == keys_view(s@).to_set(),
            ts == keys_view(t@).to_set(),
            triples_sorted(keys_view(l@)),
            keys_view(l@).to_set() == keys_view(s@).take(i as int).to_set().difference(ts),
        decreases s.len() - i,
    {
        let ghost prev = keys_view(s@).take(i as int).to_set();
        assert(keys_view(s@).take(i + 1) =~= keys_view(s@).take(i as int).push(s@[i as int]@));
        proof {
            keys_view(s@).take(i as int).lemma_push_to_set_commute(s@[i as int]@);
        }
        if !contains_key(t, &s[i]) {
            let k = copy_key(&s[i]);
            insert_key(&mut l, k);
            assert(keys_view(l@).to_set() =~= prev.insert(s@[i as int]@).difference(ts));
        } else {
            assert(keys_view(l@).to_set() =~= prev.insert(s@[i as int]@).difference(ts));
        }
        i = i + 1;
    }
    assert(keys_view(s@).take(s.len() as int) =~= keys_view(s@));
    let mut j: usize = 0;
    while j < t.len()
        invariant
            j <= t.len(),
            ss == keys_view(s@).to_set(),
            ts == keys_view(t@).to_set(),
            triples_sorted(keys_view(l@)),
            keys_view(l@).to_set() == ss.difference(ts).union(keys_view(t@).take(j as int).to_set().difference(ss)),
        decreases t.len() - j,
    {
        let ghost prev = keys_view(t@).take(j as int).to_set();
        assert(keys_view(t@).take(j + 1) =~= keys_view(t@).take(j as int).push(t@[j as int]@));
        proof {
            keys_view(t@).take(j as int).lemma_push_to_set_commute(t@[j as int]@);
        }
        if !contains_key(s, &t[j]) {
            let k = copy_key(&t[j]);
            insert_key(&mut l, k);
            assert(keys_view(l@).to_set() =~= ss.difference(ts).union(prev.insert(t@[j as int]@).difference(ss)));
        } else {
            assert(keys_view(l@).to_set() =~= ss.difference(ts).union(prev.insert(t@[j as int]@).difference(ss)));
        }
        j = j + 1;
    }
    assert(keys_view(t@).take(t.len() as int) =~= keys_view(t@));
    let ghost lv = keys_view(l@);
    let mut out: Vec<Vec<char>> = Vec::new();
    let limit: usize = if l.len() > 100 { 100 } else { l.len() };
    let mut k: usize = 0;
    while k < limit
        invariant
            k <= limit <= l.len(),
            lv == keys_view(l@),
            texts(out@) == lv.take(k as int).map_values(|x: (Seq<char>, Seq<char>, Seq<char>)| format_change(x)),
        decreases limit - k,
    {
        let mut line: Vec<char> = Vec::new();
        push_chars(&mut line, &l[k].from);
        push_str(&mut line, " -> ");
        push_chars(&mut line, &l[k].dependency);
        push_str(&mut line, " (");
        push_chars(&mut line, &l[k].kind);
        push_str(&mut line, ")");
        let ghost before = out@;
        assert(line@ =~= format_change(lv[k as int]));
        out.push(line);
        proof {
            lemma_texts_push(before, line);
            assert(lv.take(k + 1) =~= lv.take(k as int).push(lv[k as int]));
            assert(texts(out@) =~= lv.take(k + 1).map_values(|x: (Seq<char>, Seq<char>, Seq<char>)| format_change(x)));
        }
        k = k + 1;
    }
    let ghost formatted = lv.map_values(|x: (Seq<char>, Seq<char>, Seq<char>)| format_change(x));
    if l.len() > 100 {
        let mut line = decimal_exec(l.len() - 100);
        push_str(&mut line, " additional edge changes omitted");
        let ghost before = out@;
        out.push(line);
        proof {
            lemma_texts_push(before, line);
            assert(lv.take(100).map_values(|x: (Seq<char>, Seq<char>, Seq<char>)| format_change(x)) =~= formatted.take(100));
        }
    } else {
        assert(lv.take(l.len() as int) =~= lv);
    }
    assert(texts(out@) == truncate_changes(formatted));
    assert(lv.to_set() == ss.difference(ts).union(ts.difference(ss)));
    proof {
        r_witness(texts(out@), lv, ss, ts);
    }
    out
}

proof fn r_witness(
    changes: Seq<Seq<char>>,
    l: Seq<(Seq<char>, Seq<char>, Seq<char>)>,
    s: Set<(Seq<char>, Seq<char>, Seq<char>)>,
    t: Set<(Seq<char>, Seq<char>, Seq<char>)>,
)
    requires
        triples_sorted(l),
        l.to_set() == s.difference(t).union(t.difference(s)),
        changes == truncate_changes(l.map_values(|k: (Seq<char>, Seq<char>, Seq<char>)| format_change(k))),
    ensures
        edge_changes_of(changes, s, t),
{
}

/// Resolutions present on both sides whose integrities conflict.
pub open spec fn mismatch_set(
    source: Seq<LockGraphNode>,
    target: Seq<LockGraphNode>,
    s: Set<Seq<char>>,
    t: Set<Seq<char>>,
) -> Set<Seq<char>> {
    Set::new(
        |r: Seq<char>|
            s.contains(r) && t.contains(r) && integrity_mismatch(
                integrity_set(source, r),
                integrity_set(target, r),
            ),
    )
}

pub open spec fn status_name(s: VerificationStatus) -> Seq<char> {
    match s {
        VerificationStatus::Passed => "passed"@,
        VerificationStatus::Failed => "failed"@,
        VerificationStatus::Skipped => "skipped"@,
    }
}

pub open spec fn edge_policy_name(p: EdgeEquivalencePolicy) -> Seq<char> {
    match p {
        EdgeEquivalencePolicy::Report => "report"@,
        EdgeEquivalencePolicy::Strict => "strict"@,
    }
}

pub open spec fn target_text(t: TargetPlatform) -> Seq<char> {
    t.os@ + "/"@ + t.cpu@ + "/"@ + match t.libc {
        Some(l) => l@,
        None => ""@,
    }
}

/// The canonical text of a verification policy.
pub open spec fn policy_text(p: VerificationPolicy) -> Seq<char> {
    frame_list(p.target_platforms@.map_values(|t: TargetPlatform| target_text(t))) + frame(
        edge_policy_name(p.edge_equivalence),
    )
}

/// The canonical text a comparison identifier digests: its identifying fields,
/// its result lists and its policy.
pub open spec fn comparison_text(
    ids: Seq<Seq<char>>,
    lists: Seq<Seq<Seq<char>>>,
    policy: VerificationPolicy,
) -> Seq<char> {
    frame_list(ids) + frame_list(lists[0]) + frame_list(lists[1]) + frame_list(lists[2])
        + frame_list(lists[3]) + frame_list(lists[4]) + frame_list(lists[5]) + frame_list(lists[6])
        + frame_list(lists[7]) + policy_text(policy)
}

/// When a comparison passes: both graphs complete, nothing unresolved, the
/// same resolutions with compatible integrities and, under the strict edge
/// policy, the same edges.
pub open spec fn comparison_passes(
    source_complete: bool,
    target_complete: bool,
    issues: int,
    added: int,
    removed: int,
    mismatches: int,
    strict: bool,
    changes: int,
) -> bool {
    source_complete && target_complete && issues == 0 && added == 0 && removed == 0 && mismatches
        == 0 && (!strict || changes == 0)
}

/// Everything a comparison states about two resolution sets `s` and `t`
/// (with integrities from the graphs' nodes), two edge-key sets, and the lists
/// it passes through.
pub open spec fn compares(
    c: LockGraphComparison,
    source: LockGraph,
    target: LockGraph,
    policy: Seq<char>,
    s: Set<Seq<char>>,
    t: Set<Seq<char>>,
    se: Set<(Seq<char>, Seq<char>, Seq<char>)>,
    te: Set<(Seq<char>, Seq<char>, Seq<char>)>,
    pruned_s: Seq<Seq<char>>,
    pruned_t: Seq<Seq<char>>,
    optional: Seq<Seq<char>>,
    issues: Seq<Seq<char>>,
    vp: VerificationPolicy,
) -> bool {
    &&& c.policy@ == policy
    &&& c.source_graph_id@ == source.graph_id@
    &&& c.target_graph_id is Some && c.target_graph_id->0@ == target.graph_id@
    &&& c.source_resolutions == s.len()
    &&& c.target_resolutions == t.len()
    &&& lists_sorted(strs(c.added_resolutions@), t.difference(s))
    &&& lists_sorted(strs(c.removed_resolutions@), s.difference(t))
    &&& lists_sorted(strs(c.integrity_mismatches@), mismatch_set(source.nodes@, target.nodes@, s, t))
    &&& edge_changes_of(strs(c.edge_changes@), se, te)
    &&& strs(c.pruned_source_resolutions@) == pruned_s
    &&& strs(c.pruned_target_resolutions@) == pruned_t
    &&& strs(c.optional_platform_differences@) == optional
    &&& strs(c.reachability_issues@) == issues
    &&& policy_view(c.verification_policy) == policy_view(vp)
    &&& c.status == if comparison_passes(
        source.complete,
        target.complete,
        issues.len() as int,
        c.added_resolutions@.len() as int,
        c.removed_resolutions@.len() as int,
        c.integrity_mismatches@.len() as int,
        vp.edge_equivalence == EdgeEquivalencePolicy::Strict,
        c.edge_changes@.len() as int,
    ) {
        VerificationStatus::Passed
    } else {
        VerificationStatus::Failed
    }
    &&& c.comparison_id@ == short_digest_spec(
        "lockdiff_"@,
        comparison_text(
            seq![SCHEMA_VERSION@, source.graph_id@, target.graph_id@, policy, status_name(c.status)],
            seq![
                strs(c.added_resolutions@),
                strs(c.removed_resolutions@),
                strs(c.integrity_mismatches@),
                strs(c.edge_changes@),
                pruned_s,
                pruned_t,
                optional,
                issues,
            ],
            vp,
        ),
    )
}

/// The members of `a` missing from `b`, in increasing order.
fn missing_from(a: &[Vec<char>], b: &[Vec<char>]) -> (r: Vec<Vec<char>>)
    ensures
        lists_sorted(texts(r@), texts(a@).to_set().difference(texts(b@).to_set())),
{
    let mut r: Vec<Vec<char>> = Vec::new();
    let mut i: usize = 0;
    while i < a.len()
        invariant
            i <= a.len(),
            strictly_sorted(texts(r@)),
            texts(r@).to_set() == texts(a@).take(i as int).to_set().difference(texts(b@).to_set()),
        decreases a.len() - i,
    {
        let ghost prev = texts(a@).take(i as int).to_set();
        proof {
            assert(texts(a@).take(i + 1) =~= texts(a@).take(i as int).push(a@[i as int]@));
            texts(a@).take(i as int).lemma_push_to_set_commute(a@[i as int]@);
        }
        if !contains_chars(b, &a[i]) {
            let x = slice_of(&a[i], 0, a[i].len());
            assert(x@ =~= a@[i as int]@);
            insert_sorted(&mut r, x);
        }
        assert(texts(r@).to_set() =~= prev.insert(a@[i as int]@).difference(texts(b@).to_set()));
        i = i + 1;
    }
    assert(texts(a@).take(a.len() as int) =~= texts(a@));
    r
}

/// The members of both `s` and `t` whose integrities conflict, in increasing order.
fn mismatches(source: &[LockGraphNode], target: &[LockGraphNode], s: &[Vec<char>], t: &[Vec<char>]) -> (r:
    Vec<Vec<char>>)
    ensures
        lists_sorted(
            texts(r@),
            mismatch_set(source@, target@, texts(s@).to_set(), texts(t@).to_set()),
        ),
{
    let ghost ss = texts(s@).to_set();
    let ghost ts = texts(t@).to_set();
    let mut r: Vec<Vec<char>> = Vec::new();
    let mut i: usize = 0;
    while i < s.len()
        invariant
            i <= s.len(),
            ss == texts(s@).to_set(),
            ts == texts(t@).to_set(),
            strictly_sorted(texts(r@)),
            texts(r@).to_set() == mismatch_set(source@, target@, texts(s@).take(i as int).to_set(), ts),
        decreases s.len() - i,
    {
        let ghost prev = texts(s@).take(i as int).to_set();
        let ghost x = s@[i as int]@;
        proof {
            assert(texts(s@).take(i + 1) =~= texts(s@).take(i as int).push(x));
            texts(s@).take(i as int).lemma_push_to_set_commute(x);
        }
        let ghost before = texts(r@).to_set();
        let mut hit = false;
        let inside = contains_chars(t, &s[i]);
        let mut conflict = false;
        if inside {
            let si = integrities(source, &s[i]);
            let ti = integrities(target, &s[i]);
            conflict = mismatch_exec(&si, &ti);
            assert(conflict == integrity_mismatch(integrity_set(source@, x), integrity_set(target@, x)));
            if conflict {
                let c = slice_of(&s[i], 0, s[i].len());
                assert(c@ =~= x);
                insert_sorted(&mut r, c);
                hit = true;
            }
        }
        proof {
            let after = mismatch_set(source@, target@, prev.insert(x), ts);
            let member = ts.contains(x) && integrity_mismatch(integrity_set(source@, x), integrity_set(target@, x));
            assert(hit == member);
            assert forall|y: Seq<char>| after.contains(y) <==> (mismatch_set(source@, target@, prev, ts).contains(y) || (y == x && member)) by {}
            if hit {
                assert(texts(r@).to_set() =~= before.insert(x));
                assert(texts(r@).to_set() =~= after);
            } else {
                assert(texts(r@).to_set() =~= after);
            }
        }
        i = i + 1;
    }
    assert(texts(s@).take(s.len() as int) =~= texts(s@));
    r
}

fn push_status(out: &mut Vec<char>, status: VerificationStatus)
    ensures
        final(out)@ == old(out)@ + status_name(status),
{
    match status {
        VerificationStatus::Passed => push_str(out, "passed"),
        VerificationStatus::Failed => push_str(out, "failed"),
        VerificationStatus::Skipped => push_str(out, "skipped"),
    }
}

fn policy_text_exec(vp: &VerificationPolicy) -> (r: Vec<char>)
    ensures
        r@ == policy_text(*vp),
{
    let mut items: Vec<Vec<char>> = Vec::new();
    let mut i: usize = 0;
    while i < vp.target_platforms.len()
        invariant
            i <= vp.target_platforms.len(),
            texts(items@) == vp.target_platforms@.take(i as int).map_values(|t: TargetPlatform| target_text(t)),
        decreases vp.target_platforms.len() - i,
    {
        let t = &vp.target_platforms[i];
        let mut line = chars_of(t.os.as_str());
        push_str(&mut line, "/");
        let cpu = chars_of(t.cpu.as_str());
        push_chars(&mut line, &cpu);
        push_str(&mut line, "/");
        match &t.libc {
            Some(l) => {
                let lc = chars_of(l.as_str());
                push_chars(&mut line, &lc);
            },
            None => {},
        }
        proof {
            reveal_strlit("");
        }
        assert(line@ =~= target_text(*t));
        let ghost before = items@;
        items.push(line);
        proof {
            lemma_texts_push(before, line);
            assert(vp.target_platforms@.take(i + 1).map_values(|t: TargetPlatform| target_text(t))
                =~= vp.target_platforms@.take(i as int).map_values(|t: TargetPlatform| target_text(t)).push(
                target_text(*t),
            ));
        }
        i = i + 1;
    }
    assert(vp.target_platforms@.take(vp.target_platforms.len() as int) =~= vp.target_platforms@);
    let mut out: Vec<char> = Vec::new();
    push_frame_list(&mut out, &items);
    let name: Vec<char> = match vp.edge_equivalence {
        EdgeEquivalencePolicy::Report => chars_of("report"),
        EdgeEquivalencePolicy::Strict => chars_of("strict"),
    };
    push_frame(&mut out, &name);
    assert(out@ =~= policy_text(*vp));
    out
}

fn copy_texts(v: &[Vec<char>]) -> (r: Vec<Vec<char>>)
    ensures
        texts(r@) == texts(v@),
{
    let mut r: Vec<Vec<char>> = Vec::new();
    let mut i: usize = 0;
    while i < v.len()
        invariant
            i <= v.len(),
            texts(r@) == texts(v@).take(i as int),
        decreases v.len() - i,
    {
        let x = slice_of(&v[i], 0, v[i].len());
        assert(x@ =~= v@[i as int]@);
        let ghost before = r@;
        r.push(x);
        proof {
            lemma_texts_push(before, x);
            assert(texts(v@).take(i + 1) =~= texts(v@).take(i as int).push(v@[i as int]@));
        }
        i = i + 1;
    }
    assert(texts(v@).take(v.len() as int) =~= texts(v@));
    r
}

#[verifier::rlimit(100)]
#[verifier::spinoff_prover]
/// Compares the resolution sets `s_keys` and `t_keys` of two graphs (with
/// integrities taken from their nodes) and their edge keys, and records the
/// given pruned resolutions, tolerated platform differences and issues.
pub fn compare_resolution_maps(
    source: &LockGraph,
    target: &LockGraph,
    policy: &str,
    s_keys: &[Vec<char>],
    t_keys: &[Vec<char>],
    s_edges: &[EdgeKey],
    t_edges: &[EdgeKey],
    pruned_s: &[Vec<char>],
    pruned_t: &[Vec<char>],
    optional: &[Vec<char>],
    issues: &[Vec<char>],
    vp: &VerificationPolicy,
) -> (c: LockGraphComparison)
    requires
        strictly_sorted(texts(s_keys@)),
        strictly_sorted(texts(t_keys@)),
    ensures
        compares(
            c,
            *source,
            *target,
            policy@,
            texts(s_keys@).to_set(),
            texts(t_keys@).to_set(),
            keys_view(s_edges@).to_set(),
            keys_view(t_edges@).to_set(),
            texts(pruned_s@),
            texts(pruned_t@),
            texts(optional@),
            texts(issues@),
            *vp,
        ),
{
    proof {
        crate::sorted::lemma_sorted_len(texts(s_keys@));
        crate::sorted::lemma_sorted_len(texts(t_keys@));
    }
    let added = missing_from(t_keys, s_keys);
    let removed = missing_from(s_keys, t_keys);
    let mism = mismatches(&source.nodes, &target.nodes, s_keys, t_keys);
    let changes = edge_changes(s_edges, t_edges);
    let strict = match vp.edge_equivalence {
        EdgeEquivalencePolicy::Strict => true,
        EdgeEquivalencePolicy::Report => false,
    };
    let passed = source.complete && target.complete && issues.len() == 0 && added.len() == 0
        && removed.len() == 0 && mism.len() == 0 && (!strict || changes.len() == 0);
    let status = if passed {
        VerificationStatus::Passed
    } else {
        VerificationStatus::Failed
    };
    let mut ids: Vec<Vec<char>> = Vec::new();
    ids.push(chars_of(SCHEMA_VERSION));
    ids.push(chars_of(source.graph_id.as_str()));
    ids.push(chars_of(target.graph_id.as_str()));
    ids.push(chars_of(policy));
    let mut sname: Vec<char> = Vec::new();
    push_status(&mut sname, status);
    ids.push(sname);
    let mut text: Vec<char> = Vec::new();
    push_frame_list(&mut text, &ids);
    push_frame_list(&mut text, &added);
    push_frame_list(&mut text, &removed);
    push_frame_list(&mut text, &mism);
    push_frame_list(&mut text, &changes);
    push_frame_list(&mut text, pruned_s);
    push_frame_list(&mut text, pruned_t);
    push_frame_list(&mut text, optional);
    push_frame_list(&mut text, issues);
    let pt = policy_text_exec(vp);
    push_chars(&mut text, &pt);
    let comparison_id = short_digest("lockdiff_", &text);
    let c = LockGraphComparison {
        comparison_id,
        policy: policy.to_owned(),
        status,
        source_graph_id: source.graph_id.as_str().to_owned(),
        target_graph_id: Some(target.graph_id.as_str().to_owned()),
        source_resolutions: s_keys.len(),
        target_resolutions: t_keys.len(),
        added_resolutions: strings_of(&added),
        removed_resolutions: strings_of(&removed),
        integrity_mismatches: strings_of(&mism),
        edge_changes: strings_of(&changes),
        verification_policy: vp.duplicate(),
        pruned_source_resolutions: strings_of(pruned_s),
        pruned_target_resolutions: strings_of(pruned_t),
        optional_platform_differences: strings_of(optional),
        reachability_issues: strings_of(issues),
    };
    proof {
        let ids_v = seq![SCHEMA_VERSION@, source.graph_id@, target.graph_id@, policy@, status_name(status)];
        assert(texts(ids@) =~= ids_v);
        let lists = seq![
            strs(c.added_resolutions@),
            strs(c.removed_resolutions@),
            strs(c.integrity_mismatches@),
            strs(c.edge_changes@),
            texts(pruned_s@),
            texts(pruned_t@),
            texts(optional@),
            texts(issues@),
        ];
        assert(text@ =~= comparison_text(ids_v, lists, *vp));
    }
    c
}

/// The lockfile formats whose graphs support the reachable-resolution policy.
pub open spec fn supports_reachability(g: LockGraph) -> bool {
    let f = g.format@;
    ||| f == "npm-package-lock"@
    ||| f == "pnpm-lock"@
    ||| f == "yarn-classic-lock"@
    ||| f == "yarn-modern-lock"@
    ||| f == "bun-text-lock"@
    ||| f == "deno-lock-v5"@
    ||| f == "absent-empty"@
}

pub fn graph_supports_reachability(g: &LockGraph) -> (r: bool)
    ensures
        r == supports_reachability(*g),
{
    let f = chars_of(g.format.as_str());
    crate::text::str_eq(&f, "npm-package-lock") || crate::text::str_eq(&f, "pnpm-lock")
        || crate::text::str_eq(&f, "yarn-classic-lock") || crate::text::str_eq(&f, "yarn-modern-lock")
        || crate::text::str_eq(&f, "bun-text-lock") || crate::text::str_eq(&f, "deno-lock-v5")
        || crate::text::str_eq(&f, "absent-empty")
}

/// Whether some node of resolution `x` may be installed on some required platform.
pub open spec fn compatible(g: LockGraph, x: Seq<char>, vp: VerificationPolicy) -> bool {
    exists|i: int, j: int|
        0 <= i < g.nodes@.len() && 0 <= j < vp.target_platforms@.len() && #[trigger] res_of(g.nodes@[i])
            == x && allows_spec(g.nodes@[i].platform, #[trigger] vp.target_platforms@[j])
}

/// An optional resolution one side lacks by name may be dropped when no
/// platforms are required, or when none of its nodes suits a required platform.
pub open spec fn tolerated(g: LockGraph, x: Seq<char>, vp: VerificationPolicy) -> bool {
    vp.target_platforms@.len() == 0 || !compatible(g, x, vp)
}

/// The package names of a set of resolutions.
pub open spec fn names_of(keys: Set<Seq<char>>) -> Set<Seq<char>> {
    Set::new(|n: Seq<char>| exists|x: Seq<char>| keys.contains(x) && #[trigger] resolution_name(x) == n)
}

/// Optional resolutions whose package the other side does not reach at all,
/// and whose absence the platform policy tolerates.
pub open spec fn dropped(
    g: LockGraph,
    a: Map<Seq<char>, Reach>,
    other_names: Set<Seq<char>>,
    vp: VerificationPolicy,
) -> Set<Seq<char>> {
    Set::new(
        |x: Seq<char>|
            a.dom().contains(x) && a[x] == Reach::Optional && !other_names.contains(resolution_name(x))
                && tolerated(g, x, vp),
    )
}

pub open spec fn prefixed(prefix: Seq<char>, s: Set<Seq<char>>) -> Set<Seq<char>> {
    Set::new(|t: Seq<char>| exists|x: Seq<char>| s.contains(x) && t == #[trigger] (prefix + x))
}

/// What the reachable-resolution comparison of two graphs for a project states.
pub open spec fn reachable_comparison(
    c: LockGraphComparison,
    source: LockGraph,
    target: LockGraph,
    ir: ProjectIr,
    vp: VerificationPolicy,
) -> bool {
    let roots = project_roots_spec(ir);
    let exact = ir.packages@.len() == 1;
    exists|a_s: Map<Seq<char>, Reach>, a_t: Map<Seq<char>, Reach>|
        #![trigger least_closed(source, roots, exact, a_s), least_closed(target, roots, exact, a_t)]
        {
            let ds = dropped(source, a_s, names_of(a_t.dom()), vp);
            let dt = dropped(target, a_t, names_of(a_s.dom()), vp);
            &&& least_closed(source, roots, exact, a_s)
            &&& least_closed(target, roots, exact, a_t)
            &&& lists_sorted(strs(c.pruned_source_resolutions@), res_set(source.nodes@).difference(a_s.dom()))
            &&& lists_sorted(strs(c.pruned_target_resolutions@), res_set(target.nodes@).difference(a_t.dom()))
            &&& lists_sorted(
                strs(c.optional_platform_differences@),
                prefixed("source-only:"@, ds).union(prefixed("target-only:"@, dt)),
            )
            &&& lists_sorted(
                strs(c.reachability_issues@),
                issue_set(source, roots, exact, a_s, "source"@).union(
                    issue_set(target, roots, exact, a_t, "target"@),
                ),
            )
            &&& compares(
                c,
                source,
                target,
                "reachable-resolution-set-v2"@,
                a_s.dom().difference(ds),
                a_t.dom().difference(dt),
                edge_key_set(source.edges@, Some(a_s.dom())),
                edge_key_set(target.edges@, Some(a_t.dom())),
                strs(c.pruned_source_resolutions@),
                strs(c.pruned_target_resolutions@),
                strs(c.optional_platform_differences@),
                strs(c.reachability_issues@),
                vp,
            )
        }
}

/// The default policy: no required platforms, edge differences only reported.
pub open spec fn default_policy(vp: VerificationPolicy) -> bool {
    vp.target_platforms@.len() == 0 && vp.edge_equivalence == EdgeEquivalencePolicy::Report
}

/// What a comparison of whole resolution sets under policy `vp` states.
pub open spec fn plain_comparison(
    c: LockGraphComparison,
    source: LockGraph,
    target: LockGraph,
    vp: VerificationPolicy,
) -> bool {
    compares(
        c,
        source,
        target,
        "resolution-set-v1"@,
        res_set(source.nodes@),
        res_set(target.nodes@),
        edge_key_set(source.edges@, None),
        edge_key_set(target.edges@, None),
        seq![],
        seq![],
        seq![],
        seq![],
        vp,
    )
}

fn plain_compare(source: &LockGraph, target: &LockGraph, vp: &VerificationPolicy) -> (c: LockGraphComparison)
    ensures
        plain_comparison(c, *source, *target, *vp),
{
    let s_keys = resolutions(&source.nodes);
    let t_keys = resolutions(&target.nodes);
    let se = edge_keys(&source.edges, None);
    let te = edge_keys(&target.edges, None);
    let empty: Vec<Vec<char>> = Vec::new();
    let c = compare_resolution_maps(source, target, "resolution-set-v1", &s_keys, &t_keys, &se, &te, &empty, &empty, &empty, &empty, vp);
    assert(texts(empty@) =~= Seq::<Seq<char>>::empty());
    c
}

/// Compares the whole resolution sets and edges of two lock graphs under the
/// default verification policy.
pub fn compare_lock_graphs(source: &LockGraph, target: &LockGraph) -> (r: Result<LockGraphComparison, String>)
    ensures
        r is Ok,
        exists|vp: VerificationPolicy|
            #[trigger] default_policy(vp) && plain_comparison(r->Ok_0, *source, *target, vp),
{
    let vp = VerificationPolicy::default_policy();
    let c = plain_compare(source, target, &vp);
    assert(default_policy(vp) && plain_comparison(c, *source, *target, vp));
    Ok(c)
}

/// The package names of the texts in `keys`.
fn names_list(keys: &[Vec<char>]) -> (r: Vec<Vec<char>>)
    ensures
        texts(r@).to_set() == names_of(texts(keys@).to_set()),
{
    let mut r: Vec<Vec<char>> = Vec::new();
    let mut i: usize = 0;
    while i < keys.len()
        invariant
            i <= keys.len(),
            texts(r@).to_set() == names_of(texts(keys@).take(i as int).to_set()),
        decreases keys.len() - i,
    {
        let n = resolution_name_exec(&keys[i]);
        let ghost nv = n@;
        let ghost before = r@;
        let ghost prev = texts(keys@).take(i as int).to_set();
        let ghost k = keys@[i as int]@;
        r.push(n);
        proof {
            lemma_texts_push(before, n);
            texts(before).lemma_push_to_set_commute(nv);
            assert(texts(keys@).take(i + 1) =~= texts(keys@).take(i as int).push(k));
            texts(keys@).take(i as int).lemma_push_to_set_commute(k);
            assert forall|m: Seq<char>| #[trigger] names_of(prev.insert(k)).contains(m) == names_of(prev).insert(nv).contains(m) by {
                if names_of(prev.insert(k)).contains(m) {
                    let x = choose|x: Seq<char>| prev.insert(k).contains(x) && #[trigger] resolution_name(x) == m;
                    if x != k {
                        assert(names_of(prev).contains(m));
                    }
                }
                if names_of(prev).contains(m) {
                    let x = choose|x: Seq<char>| prev.contains(x) && #[trigger] resolution_name(x) == m;
                    assert(prev.insert(k).contains(x));
                }
                if m == nv {
                    assert(prev.insert(k).contains(k));
                }
            }
            assert(names_of(prev.insert(k)) =~= names_of(prev).insert(nv));
        }
        i = i + 1;
    }
    assert(texts(keys@).take(keys.len() as int) =~= texts(keys@));
    r
}

fn compatible_exec(g: &LockGraph, x: &[char], vp: &VerificationPolicy) -> (r: bool)
    ensures
        r == compatible(*g, x@, *vp),
{
    let mut i: usize = 0;
    while i < g.nodes.len()
        invariant
            i <= g.nodes.len(),
            forall|a: int, b: int|
                0 <= a < i && 0 <= b < vp.target_platforms@.len() ==> !(#[trigger] res_of(g.nodes@[a]) == x@
                    && allows_spec(g.nodes@[a].platform, #[trigger] vp.target_platforms@[b])),
        decreases g.nodes.len() - i,
    {
        let res = node_resolution(&g.nodes[i]);
        if chars_eq(&res, x) {
            let mut j: usize = 0;
            while j < vp.target_platforms.len()
                invariant
                    j <= vp.target_platforms.len(),
                    i < g.nodes.len(),
                    res@ == res_of(g.nodes@[i as int]),
                    res@ == x@,
                    forall|b: int| 0 <= b < j ==> !allows_spec(g.nodes@[i as int].platform, #[trigger] vp.target_platforms@[b]),
                decreases vp.target_platforms.len() - j,
            {
                if g.nodes[i].platform.allows(&vp.target_platforms[j]) {
                    return true;
                }
                j = j + 1;
            }
        }
        i = i + 1;
    }
    false
}

/// The optional resolutions of `keys` that the other side does not reach by
/// name and whose absence the policy tolerates, in increasing order.
fn dropped_list(
    g: &LockGraph,
    st: &States,
    keys: &[Vec<char>],
    other_names: &[Vec<char>],
    vp: &VerificationPolicy,
) -> (r: Vec<Vec<char>>)
    requires
        st.wf(),
        texts(keys@).to_set() == st@.dom(),
    ensures
        lists_sorted(texts(r@), dropped(*g, st@, texts(other_names@).to_set(), *vp)),
{
    let ghost on = texts(other_names@).to_set();
    let mut r: Vec<Vec<char>> = Vec::new();
    let mut i: usize = 0;
    while i < keys.len()
        invariant
            i <= keys.len(),
            st.wf(),
            texts(keys@).to_set() == st@.dom(),
            on == texts(other_names@).to_set(),
            strictly_sorted(texts(r@)),
            texts(r@).to_set() == dropped(*g, st@, on, *vp).intersect(texts(keys@).take(i as int).to_set()),
        decreases keys.len() - i,
    {
        let ghost k = keys@[i as int]@;
        let ghost prev = texts(keys@).take(i as int).to_set();
        proof {
            assert(texts(keys@).take(i + 1) =~= texts(keys@).take(i as int).push(k));
            texts(keys@).take(i as int).lemma_push_to_set_commute(k);
            assert(texts(keys@)[i as int] == k);
            assert(st@.dom().contains(k));
        }
        let n = resolution_name_exec(&keys[i]);
        let keep = st.get(&keys[i]) == Some(Reach::Optional) && !contains_chars(other_names, &n) && (
        vp.target_platforms.len() == 0 || !compatible_exec(g, &keys[i], vp));
        if keep {
            let c = slice_of(&keys[i], 0, keys[i].len());
            assert(c@ =~= k);
            insert_sorted(&mut r, c);
        }
        assert(texts(r@).to_set() =~= dropped(*g, st@, on, *vp).intersect(prev.insert(k)));
        i = i + 1;
    }
    assert(texts(keys@).take(keys.len() as int) =~= texts(keys@));
    assert(dropped(*g, st@, on, *vp).intersect(st@.dom()) =~= dropped(*g, st@, on, *vp));
    r
}

/// Adds `prefix + x` for each `x` of `items` to the sorted list `r`.
fn insert_prefixed(r: &mut Vec<Vec<char>>, prefix: &str, items: &[Vec<char>])
    requires
        strictly_sorted(texts(old(r)@)),
    ensures
        strictly_sorted(texts(final(r)@)),
        texts(final(r)@).to_set() == texts(old(r)@).to_set().union(prefixed(prefix@, texts(items@).to_set())),
{
    let ghost base = texts(r@).to_set();
    let mut i: usize = 0;
    while i < items.len()
        invariant
            i <= items.len(),
            strictly_sorted(texts(r@)),
            texts(r@).to_set() == base.union(prefixed(prefix@, texts(items@).take(i as int).to_set())),
        decreases items.len() - i,
    {
        let ghost k = items@[i as int]@;
        let ghost prev = texts(items@).take(i as int).to_set();
        proof {
            assert(texts(items@).take(i + 1) =~= texts(items@).take(i as int).push(k));
            texts(items@).take(i as int).lemma_push_to_set_commute(k);
        }
        let mut line = chars_of(prefix);
        push_chars(&mut line, &items[i]);
        let ghost lv = line@;
        insert_sorted(r, line);
        proof {
            assert forall|t: Seq<char>| #[trigger] prefixed(prefix@, prev.insert(k)).contains(t) == prefixed(prefix@, prev).insert(lv).contains(t) by {
                if prefixed(prefix@, prev.insert(k)).contains(t) {
                    let x = choose|x: Seq<char>| prev.insert(k).contains(x) && t == #[trigger] (prefix@ + x);
                    if x != k {
                        assert(prefixed(prefix@, prev).contains(t));
                    }
                }
                if prefixed(prefix@, prev).contains(t) {
                    let x = choose|x: Seq<char>| prev.contains(x) && t == #[trigger] (prefix@ + x);
                    assert(prev.insert(k).contains(x));
                }
                if t == lv {
                    assert(prev.insert(k).contains(k));
                }
            }
            assert(prefixed(prefix@, prev.insert(k)) =~= prefixed(prefix@, prev).insert(lv));
            assert(texts(r@).to_set() =~= base.union(prefixed(prefix@, prev.insert(k))));
        }
        i = i + 1;
    }
    assert(texts(items@).take(items.len() as int) =~= texts(items@));
}

/// Adds the members of `items` to the sorted list `r`.
fn insert_all(r: &mut Vec<Vec<char>>, items: &[Vec<char>])
    requires
        strictly_sorted(texts(old(r)@)),
    ensures
        strictly_sorted(texts(final(r)@)),
        texts(final(r)@).to_set() == texts(old(r)@).to_set().union(texts(items@).to_set()),
{
    let ghost base = texts(r@).to_set();
    let mut i: usize = 0;
    while i < items.len()
        invariant
            i <= items.len(),
            strictly_sorted(texts(r@)),
            texts(r@).to_set() == base.union(texts(items@).take(i as int).to_set()),
        decreases items.len() - i,
    {
        let ghost k = items@[i as int]@;
        proof {
            assert(texts(items@).take(i + 1) =~= texts(items@).take(i as int).push(k));
            texts(items@).take(i as int).lemma_push_to_set_commute(k);
        }
        let c = slice_of(&items[i], 0, items[i].len());
        assert(c@ =~= k);
        insert_sorted(r, c);
        assert(texts(r@).to_set() =~= base.union(texts(items@).take(i + 1).to_set()));
        i = i + 1;
    }
    assert(texts(items@).take(items.len() as int) =~= texts(items@));
}

/// Compares two lock graphs for a project: when both formats support it, only
/// the resolutions the project's dependencies reach count, optional platform
/// branches one side lacks may be tolerated, and unresolved required links
/// fail the comparison; otherwise whole resolution sets are compared.
pub fn compare_lock_graphs_for_project_with_policy(
    source: &LockGraph,
    target: &LockGraph,
    project_ir: &ProjectIr,
    verification_policy: &VerificationPolicy,
) -> (r: Result<LockGraphComparison, String>)
    ensures
        r is Ok,
        !supports_reachability(*source) || !supports_reachability(*target) ==> plain_comparison(
            r->Ok_0,
            *source,
            *target,
            *verification_policy,
        ),
        supports_reachability(*source) && supports_reachability(*target) ==> reachable_comparison(
            r->Ok_0,
            *source,
            *target,
            *project_ir,
            *verification_policy,
        ),
{
    if !graph_supports_reachability(source) || !graph_supports_reachability(target) {
        let c = plain_compare(source, target, verification_policy);
        return Ok(c);
    }
    let roots = project_roots(project_ir);
    let exact = project_ir.packages.len() == 1;
    let all_s = resolutions(&source.nodes);
    let all_t = resolutions(&target.nodes);
    let st_s = reach(source, &roots, exact, &all_s);
    let st_t = reach(target, &roots, exact, &all_t);
    let keys_s = crate::sorted::sorted_unique(&st_s.keys);
    let keys_t = crate::sorted::sorted_unique(&st_t.keys);
    proof {
        assert(texts(st_s.keys@).to_set() =~= st_s@.dom());
        assert(texts(st_t.keys@).to_set() =~= st_t@.dom());
    }
    let names_s = names_list(&keys_s);
    let names_t = names_list(&keys_t);
    let dropped_s = dropped_list(source, &st_s, &keys_s, &names_t, verification_policy);
    let dropped_t = dropped_list(target, &st_t, &keys_t, &names_s, verification_policy);
    let kept_s = missing_from(&keys_s, &dropped_s);
    let kept_t = missing_from(&keys_t, &dropped_t);
    let mut optional: Vec<Vec<char>> = Vec::new();
    insert_prefixed(&mut optional, "source-only:", &dropped_s);
    insert_prefixed(&mut optional, "target-only:", &dropped_t);
    let pruned_s = missing_from(&all_s, &keys_s);
    let pruned_t = missing_from(&all_t, &keys_t);
    let se = edge_keys(&source.edges, Some(&keys_s));
    let te = edge_keys(&target.edges, Some(&keys_t));
    let issues_s = issues(source, &roots, exact, &st_s, &all_s, "source");
    let issues_t = issues(target, &roots, exact, &st_t, &all_t, "target");
    let mut all_issues = copy_texts(&issues_s);
    insert_all(&mut all_issues, &issues_t);
    let c = compare_resolution_maps(
        source,
        target,
        "reachable-resolution-set-v2",
        &kept_s,
        &kept_t,
        &se,
        &te,
        &pruned_s,
        &pruned_t,
        &optional,
        &all_issues,
        verification_policy,
    );
    proof {
        let a_s = st_s@;
        let a_t = st_t@;
        assert(texts(optional@).to_set() =~= prefixed("source-only:"@, texts(dropped_s@).to_set()).union(prefixed("target-only:"@, texts(dropped_t@).to_set())));
        assert(strs(c.optional_platform_differences@) == texts(optional@));
        assert(strs(c.pruned_source_resolutions@) == texts(pruned_s@));
        assert(strs(c.reachability_issues@) == texts(all_issues@));
        assert(least_closed(*source, project_roots_spec(*project_ir), exact, a_s));
        assert(least_closed(*target, project_roots_spec(*project_ir), exact, a_t));
    }
    Ok(c)
}

/// `compare_lock_graphs_for_project_with_policy` under the default policy.
pub fn compare_lock_graphs_for_project(
    source: &LockGraph,
    target: &LockGraph,
    project_ir: &ProjectIr,
) -> (r: Result<LockGraphComparison, String>)
    ensures
        r is Ok,
        exists|vp: VerificationPolicy|
            #[trigger] default_policy(vp) && (
            !supports_reachability(*source) || !supports_reachability(*target) ==> plain_comparison(
                r->Ok_0,
                *source,
                *target,
                vp,
            )) && (supports_reachability(*source) && supports_reachability(*target)
                ==> reachable_comparison(r->Ok_0, *source, *target, *project_ir, vp)),
{
    let vp = VerificationPolicy::default_policy();
    let r = compare_lock_graphs_for_project_with_policy(source, target, project_ir, &vp);
    assert(default_policy(vp) && (
    !supports_reachability(*source) || !supports_reachability(*target) ==> plain_comparison(
        r->Ok_0,
        *source,
        *target,
        vp,
    )) && (supports_reachability(*source) && supports_reachability(*target) ==> reachable_comparison(
        r->Ok_0,
        *source,
        *target,
        *project_ir,
        vp,
    )));
    r
}

proof fn lemma_empty_listing(v: Seq<Seq<char>>, s: Set<Seq<char>>)
    requires
        lists_sorted(v, s),
        s == Set::<Seq<char>>::empty(),
    ensures
        v.len() == 0,
{
    if v.len() > 0 {
        assert(v.to_set().contains(v[0]));
    }
}

/// Comparing a graph with itself passes exactly when the graph is complete,
/// and reports no added or removed resolutions, no integrity mismatches and
/// no edge changes.
pub proof fn law_self_comparison(c: LockGraphComparison, g: LockGraph, vp: VerificationPolicy)
    requires
        plain_comparison(c, g, g, vp),
    ensures
        c.added_resolutions@.len() == 0,
        c.removed_resolutions@.len() == 0,
        c.integrity_mismatches@.len() == 0,
        c.edge_changes@.len() == 0,
        c.status == VerificationStatus::Passed <==> g.complete,
{
    let s = res_set(g.nodes@);
    assert(s.difference(s) =~= Set::<Seq<char>>::empty());
    lemma_empty_listing(strs(c.added_resolutions@), s.difference(s));
    lemma_empty_listing(strs(c.removed_resolutions@), s.difference(s));
    let m = mismatch_set(g.nodes@, g.nodes@, s, s);
    assert forall|r: Seq<char>| !m.contains(r) by {
        let i = integrity_set(g.nodes@, r);
        if m.contains(r) {
            assert(!i.is_empty());
            let x = i.choose();
            assert(i.contains(x));
            assert(!i.disjoint(i));
        }
    }
    assert(m =~= Set::<Seq<char>>::empty());
    lemma_empty_listing(strs(c.integrity_mismatches@), m);
    let e = edge_key_set(g.edges@, None);
    let l = choose|l: Seq<(Seq<char>, Seq<char>, Seq<char>)>|
        triples_sorted(l) && l.to_set() == e.difference(e).union(e.difference(e)) && strs(c.edge_changes@)
            == truncate_changes(l.map_values(|k: (Seq<char>, Seq<char>, Seq<char>)| format_change(k)));
    assert(e.difference(e).union(e.difference(e)) =~= Set::<(Seq<char>, Seq<char>, Seq<char>)>::empty());
    if l.len() > 0 {
        assert(l.to_set().contains(l[0]));
    }
    assert(strs(c.edge_changes@).len() == 0);
}

proof fn lemma_triple_lt_irreflexive(a: (Seq<char>, Seq<char>, Seq<char>))
    ensures
        !triple_lt(a, a),
{
    crate::text::lemma_seq_lt_irreflexive(a.0);
    crate::text::lemma_seq_lt_irreflexive(a.1);
    crate::text::lemma_seq_lt_irreflexive(a.2);
}

/// Two strictly sorted lists of edge keys with the same members are equal.
proof fn lemma_triples_unique(a: Seq<(Seq<char>, Seq<char>, Seq<char>)>, b: Seq<(Seq<char>, Seq<char>, Seq<char>)>)
    requires
        triples_sorted(a),
        triples_sorted(b),
        a.to_set() == b.to_set(),
    ensures
        a == b,
    decreases a.len(),
{
    if a.len() == 0 {
        if b.len() > 0 {
            assert(b.to_set().contains(b[0]));
            assert(a.to_set().contains(b[0]));
        }
        assert(a =~= b);
    } else if b.len() == 0 {
        assert(a.to_set().contains(a[0]));
        assert(b.to_set().contains(a[0]));
    } else {
        assert(a.to_set().contains(a[0]));
        assert(b.to_set().contains(a[0]));
        let j = choose|j: int| 0 <= j < b.len() && b[j] == a[0];
        assert(b.to_set().contains(b[0]));
        assert(a.to_set().contains(b[0]));
        let i = choose|i: int| 0 <= i < a.len() && a[i] == b[0];
        if j > 0 && i > 0 {
            assert(triple_lt(b[0], b[j]));
            assert(triple_lt(a[0], a[i]));
            lemma_triple_lt_transitive(a[0], b[0], a[0]);
            lemma_triple_lt_irreflexive(a[0]);
        } else if j > 0 {
            assert(a[0] == b[0]);
        } else {
            assert(a[0] == b[0]);
        }
        let a1 = a.drop_first();
        let b1 = b.drop_first();
        assert forall|x| a1.to_set().contains(x) implies b1.to_set().contains(x) by {
            let k = choose|k: int| 0 <= k < a1.len() && a1[k] == x;
            assert(a[k + 1] == x);
            assert(triple_lt(a[0], a[k + 1]));
            lemma_triple_lt_irreflexive(x);
            assert(a.to_set().contains(x));
            assert(b.to_set().contains(x));
            let m = choose|m: int| 0 <= m < b.len() && b[m] == x;
            assert(m != 0);
            assert(b1[m - 1] == x);
        }
        assert forall|x| b1.to_set().contains(x) implies a1.to_set().contains(x) by {
            let k = choose|k: int| 0 <= k < b1.len() && b1[k] == x;
            assert(b[k + 1] == x);
            assert(triple_lt(b[0], b[k + 1]));
            lemma_triple_lt_irreflexive(x);
            assert(b.to_set().contains(x));
            assert(a.to_set().contains(x));
            let m = choose|m: int| 0 <= m < a.len() && a[m] == x;
            assert(m != 0);
            assert(a1[m - 1] == x);
        }
        assert(a1.to_set() =~= b1.to_set());
        assert forall|p: int, q: int| 0 <= p < q < a1.len() implies triple_lt(#[trigger] a1[p], #[trigger] a1[q]) by {
            assert(a1[p] == a[p + 1] && a1[q] == a[q + 1]);
        }
        assert forall|p: int, q: int| 0 <= p < q < b1.len() implies triple_lt(#[trigger] b1[p], #[trigger] b1[q]) by {
            assert(b1[p] == b[p + 1] && b1[q] == b[q + 1]);
        }
        lemma_triples_unique(a1, b1);
        assert(a[0] == b[0]);
        assert(a.len() == b.len());
        assert forall|k: int| 0 <= k < a.len() implies a[k] == b[k] by {
            if k > 0 {
                assert(a[k] == a1[k - 1]);
                assert(b[k] == b1[k - 1]);
            }
        }
        assert(a =~= b);
    }
}

/// Two comparisons of the same graphs under default policies agree in every
/// result: the policy, the graph identifiers and counts, every list, the
/// status and the identifier. So a project-aware comparison of graphs whose
/// formats do not support reachability is the plain comparison.
pub proof fn law_default_comparisons_agree(
    c1: LockGraphComparison,
    c2: LockGraphComparison,
    source: LockGraph,
    target: LockGraph,
    vp1: VerificationPolicy,
    vp2: VerificationPolicy,
)
    requires
        plain_comparison(c1, source, target, vp1),
        plain_comparison(c2, source, target, vp2),
        default_policy(vp1),
        default_policy(vp2),
    ensures
        c1.policy@ == c2.policy@,
        c1.source_graph_id@ == c2.source_graph_id@,
        c1.target_graph_id->0@ == c2.target_graph_id->0@,
        c1.source_resolutions == c2.source_resolutions,
        c1.target_resolutions == c2.target_resolutions,
        strs(c1.added_resolutions@) == strs(c2.added_resolutions@),
        strs(c1.removed_resolutions@) == strs(c2.removed_resolutions@),
        strs(c1.integrity_mismatches@) == strs(c2.integrity_mismatches@),
        strs(c1.edge_changes@) == strs(c2.edge_changes@),
        strs(c1.pruned_source_resolutions@) == strs(c2.pruned_source_resolutions@),
        strs(c1.pruned_target_resolutions@) == strs(c2.pruned_target_resolutions@),
        strs(c1.optional_platform_differences@) == strs(c2.optional_platform_differences@),
        strs(c1.reachability_issues@) == strs(c2.reachability_issues@),
        policy_view(c1.verification_policy) == policy_view(c2.verification_policy),
        c1.status == c2.status,
        c1.comparison_id@ == c2.comparison_id@,
{
    crate::sorted::lemma_sorted_unique(strs(c1.added_resolutions@), strs(c2.added_resolutions@));
    crate::sorted::lemma_sorted_unique(strs(c1.removed_resolutions@), strs(c2.removed_resolutions@));
    crate::sorted::lemma_sorted_unique(strs(c1.integrity_mismatches@), strs(c2.integrity_mismatches@));
    let se = edge_key_set(source.edges@, None);
    let te = edge_key_set(target.edges@, None);
    let l1 = choose|l: Seq<(Seq<char>, Seq<char>, Seq<char>)>|
        triples_sorted(l) && l.to_set() == se.difference(te).union(te.difference(se)) && strs(c1.edge_changes@)
            == truncate_changes(l.map_values(|k: (Seq<char>, Seq<char>, Seq<char>)| format_change(k)));
    let l2 = choose|l: Seq<(Seq<char>, Seq<char>, Seq<char>)>|
        triples_sorted(l) && l.to_set() == se.difference(te).union(te.difference(se)) && strs(c2.edge_changes@)
            == truncate_changes(l.map_values(|k: (Seq<char>, Seq<char>, Seq<char>)| format_change(k)));
    lemma_triples_unique(l1, l2);
    assert(strs(c1.edge_changes@).len() == c1.edge_changes@.len());
    assert(strs(c2.edge_changes@).len() == c2.edge_changes@.len());
    assert(strs(c1.added_resolutions@).len() == c1.added_resolutions@.len());
    assert(strs(c2.added_resolutions@).len() == c2.added_resolutions@.len());
    assert(strs(c1.removed_resolutions@).len() == c1.removed_resolutions@.len());
    assert(strs(c2.removed_resolutions@).len() == c2.removed_resolutions@.len());
    assert(strs(c1.integrity_mismatches@).len() == c1.integrity_mismatches@.len());
    assert(strs(c2.integrity_mismatches@).len() == c2.integrity_mismatches@.len());
    assert(vp1.target_platforms@.map_values(|t: TargetPlatform| target_text(t)) =~= vp2.target_platforms@.map_values(
        |t: TargetPlatform| target_text(t),
    ));
    assert(policy_text(vp1) == policy_text(vp2));
    assert(policy_view(vp1) =~~= policy_view(vp2));
}

/// Swapping the two graphs swaps the added and removed resolutions and keeps
/// the integrity mismatches.
pub proof fn law_comparison_swap(
    c1: LockGraphComparison,
    c2: LockGraphComparison,
    a: LockGraph,
    b: LockGraph,
    vp: VerificationPolicy,
)
    requires
        plain_comparison(c1, a, b, vp),
        plain_comparison(c2, b, a, vp),
    ensures
        strs(c1.added_resolutions@) == strs(c2.removed_resolutions@),
        strs(c1.removed_resolutions@) == strs(c2.added_resolutions@),
        strs(c1.integrity_mismatches@) == strs(c2.integrity_mismatches@),
{
    crate::sorted::lemma_sorted_unique(strs(c1.added_resolutions@), strs(c2.removed_resolutions@));
    crate::sorted::lemma_sorted_unique(strs(c1.removed_resolutions@), strs(c2.added_resolutions@));
    let sa = res_set(a.nodes@);
    let sb = res_set(b.nodes@);
    let m1 = mismatch_set(a.nodes@, b.nodes@, sa, sb);
    let m2 = mismatch_set(b.nodes@, a.nodes@, sb, sa);
    assert forall|r: Seq<char>| #[trigger] m1.contains(r) == m2.contains(r) by {
        let x = integrity_set(a.nodes@, r);
        let y = integrity_set(b.nodes@, r);
        if integrity_mismatch(x, y) {
            let (p, q) = choose|p: Seq<char>, q: Seq<char>| x.contains(p) && y.contains(q) && integrity_family(p) == integrity_family(q);
            assert(y.contains(q) && x.contains(p) && integrity_family(q) == integrity_family(p));
        }
        if integrity_mismatch(y, x) {
            let (p, q) = choose|p: Seq<char>, q: Seq<char>| y.contains(p) && x.contains(q) && integrity_family(p) == integrity_family(q);
            assert(x.contains(q) && y.contains(p) && integrity_family(q) == integrity_family(p));
        }
    }
    assert(m1 =~= m2);
    crate::sorted::lemma_sorted_unique(strs(c1.integrity_mismatches@), strs(c2.integrity_mismatches@));
}

} // verus!
