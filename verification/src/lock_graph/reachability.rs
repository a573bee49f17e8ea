//! Which resolutions of a lock graph a project's dependencies reach, and
//! whether only through optional edges.
use vstd::prelude::*;
use crate::model::{DependencyIr, DependencyProtocol, LockGraph, LockGraphEdge, LockGraphNode, ProjectIr};
use super::extraction::{split_locator, split_locator_spec};
use crate::text::{push_chars, push_str, starts_with, str_starts_with, strip_prefix};
use crate::text::{chars_eq, chars_of, lemma_texts_push, slice_of, str_eq, texts};
use crate::sorted::{contains_chars, insert_sorted};
use super::comparison::{node_resolution, res_of, res_set};

verus! {

/// How a resolution is reached: only through optional or peer links, or
/// through a chain of required dependencies.
#[derive(Debug, Clone, Copy, PartialEq, Eq, Structural)]
pub enum Reach {
    Optional,
    Required,
}

pub open spec fn rank(r: Reach) -> int {
    match r {
        Reach::Optional => 0,
        Reach::Required => 1,
    }
}

/// A table from texts to reachability, without repeated keys.
pub struct States {
    pub keys: Vec<Vec<char>>,
    pub vals: Vec<Reach>,
}

impl View for States {
    type V = Map<Seq<char>, Reach>;

    open spec fn view(&self) -> Map<Seq<char>, Reach> {
        Map::new(
            |k: Seq<char>| texts(self.keys@).contains(k),
            |k: Seq<char>| self.vals@[texts(self.keys@).index_of(k)],
        )
    }
}

impl States {
    pub open spec fn wf(&self) -> bool {
        &&& self.keys@.len() == self.vals@.len()
        &&& texts(self.keys@).no_duplicates()
    }

    pub proof fn lemma_entry(&self, i: int)
        requires
            self.wf(),
            0 <= i < self.keys@.len(),
        ensures
            self@.dom().contains(self.keys@[i]@),
            self@[self.keys@[i]@] == self.vals@[i],
    {
        let t = texts(self.keys@);
        assert(t[i] == self.keys@[i]@);
        assert(t.contains(t[i]));
        let j = t.index_of(t[i]);
        assert(0 <= j < t.len() && t[j] == t[i]);
    }

    pub fn new() -> (r: Self)
        ensures
            r.wf(),
            r@ == Map::<Seq<char>, Reach>::empty(),
    {
        let r = States { keys: Vec::new(), vals: Vec::new() };
        assert(r@ =~= Map::<Seq<char>, Reach>::empty());
        r
    }

    fn find(&self, k: &[char]) -> (r: Option<usize>)
        requires
            self.wf(),
        ensures
            r matches Some(i) ==> i < self.keys@.len() && self.keys@[i as int]@ == k@,
            r is None ==> !self@.dom().contains(k@),
    {
        let mut i: usize = 0;
        while i < self.keys.len()
            invariant
                i <= self.keys.len(),
                forall|j: int| 0 <= j < i ==> texts(self.keys@)[j] != k@,
            decreases self.keys.len() - i,
        {
            if chars_eq(&self.keys[i], k) {
                return Some(i);
            }
            assert(texts(self.keys@)[i as int] == self.keys@[i as int]@);
            i = i + 1;
        }
        None
    }

    /// The reachability recorded for `k`.
    pub fn get(&self, k: &[char]) -> (r: Option<Reach>)
        requires
            self.wf(),
        ensures
            r == (if self@.dom().contains(k@) {
                Some(self@[k@])
            } else {
                None
            }),
    {
        match self.find(k) {
            Some(i) => {
                proof {
                    self.lemma_entry(i as int);
                }
                Some(self.vals[i])
            },
            None => None,
        }
    }

    /// Records `v` for `k`.
    pub fn set(&mut self, k: &[char], v: Reach)
        requires
            old(self).wf(),
        ensures
            final(self).wf(),
            final(self)@ == old(self)@.insert(k@, v),
            final(self).keys@.len() == old(self).keys@.len() + (if old(self)@.dom().contains(k@) {
                0int
            } else {
                1int
            }),
            forall|i: int| 0 <= i < old(self).keys@.len() ==> #[trigger] final(self).keys@[i]@ == old(self).keys@[i]@,
    {
        let ghost old_view = self@;
        let ghost ot = texts(self.keys@);
        match self.find(k) {
            Some(i) => {
                let mut vals = Vec::new();
                let mut j: usize = 0;
                while j < self.vals.len()
                    invariant
                        j <= self.vals.len(),
                        vals@ == Seq::new(j as nat, |m: int| if m == i { v } else { self.vals@[m] }),
                    decreases self.vals.len() - j,
                {
                    if j == i {
                        vals.push(v);
                    } else {
                        vals.push(self.vals[j]);
                    }
                    assert(vals@ =~= Seq::new((j + 1) as nat, |m: int| if m == i { v } else { self.vals@[m] }));
                    j = j + 1;
                }
                proof {
                    assert(ot[i as int] == k@);
                    assert(ot.contains(k@));
                }
                self.vals = vals;
                proof {
                    assert(texts(self.keys@) == ot);
                    assert forall|x: Seq<char>| #[trigger] self@.dom().contains(x) == old_view.insert(k@, v).dom().contains(x) by {}
                    assert forall|x: Seq<char>| self@.dom().contains(x) implies self@[x] == old_view.insert(k@, v)[x] by {
                        let m = ot.index_of(x);
                        assert(0 <= m < ot.len() && ot[m] == x);
                        if x == k@ {
                            assert(ot[i as int] == x);
                            assert(m == i) by {
                                if m != i {
                                    assert(ot[m] == ot[i as int]);
                                }
                            }
                        } else {
                            assert(m != i);
                        }
                    }
                    assert(self@ =~= old_view.insert(k@, v));
                }
            },
            None => {
                let kc = slice_of(k, 0, k.len());
                assert(kc@ =~= k@);
                let ghost before = self.keys@;
                self.keys.push(kc);
                self.vals.push(v);
                proof {
                    lemma_texts_push(before, kc);
                    let nt = texts(self.keys@);
                    assert(nt == ot.push(k@));
                    assert(!ot.contains(k@));
                    assert forall|a: int, b: int| 0 <= a < b < nt.len() implies nt[a] != nt[b] by {
                        if b == ot.len() {
                            assert(nt[a] == ot[a]);
                            assert(ot.contains(ot[a]));
                        } else {
                            assert(nt[a] == ot[a] && nt[b] == ot[b]);
                        }
                    }
                    assert(nt.no_duplicates());
                    assert forall|x: Seq<char>| #[trigger] self@.dom().contains(x) == old_view.insert(k@, v).dom().contains(x) by {
                        if nt.contains(x) {
                            let m = choose|m: int| 0 <= m < nt.len() && nt[m] == x;
                            if m < ot.len() {
                                assert(ot[m] == x);
                            }
                        }
                        if ot.contains(x) {
                            let m = choose|m: int| 0 <= m < ot.len() && ot[m] == x;
                            assert(nt[m] == x);
                        }
                        if x == k@ {
                            assert(nt[ot.len() as int] == x);
                        }
                    }
                    assert forall|x: Seq<char>| self@.dom().contains(x) implies self@[x] == old_view.insert(k@, v)[x] by {
                        let m = nt.index_of(x);
                        assert(0 <= m < nt.len() && nt[m] == x);
                        if x == k@ {
                            assert(m == ot.len()) by {
                                if m < ot.len() {
                                    assert(ot[m] == x);
                                }
                            }
                        } else {
                            assert(m < ot.len());
                            assert(ot[m] == x);
                            let m0 = ot.index_of(x);
                            assert(0 <= m0 < ot.len() && ot[m0] == x);
                            assert(m0 == m) by {
                                if m0 != m {
                                    assert(nt[m0] == nt[m]);
                                }
                            }
                        }
                    }
                    assert(self@ =~= old_view.insert(k@, v));
                }
            },
        }
    }
}

/// The resolutions of the nodes named `n`.
pub open spec fn by_name(g: LockGraph, n: Seq<char>) -> Set<Seq<char>> {
    Set::new(
        |r: Seq<char>|
            exists|i: int|
                0 <= i < g.nodes@.len() && g.nodes@[i].name@ == n && #[trigger] res_of(g.nodes@[i]) == r,
    )
}

/// The resolutions of the nodes whose locator is `l`.
pub open spec fn exact_set(g: LockGraph, l: Seq<char>) -> Set<Seq<char>> {
    Set::new(
        |r: Seq<char>|
            exists|i: int|
                0 <= i < g.nodes@.len() && g.nodes@[i].locator@ == l && #[trigger] res_of(g.nodes@[i]) == r,
    )
}

/// The resolutions a root dependency named `n` starts from: in a text Bun
/// lockfile of a single-package project, the nodes whose locator is the name
/// (when there are any); otherwise every node with that name.
pub open spec fn root_candidates(g: LockGraph, n: Seq<char>, exact: bool) -> Set<Seq<char>> {
    if exact && g.format@ == "bun-text-lock"@ && !exact_set(g, n).is_empty() {
        exact_set(g, n)
    } else {
        by_name(g, n)
    }
}

/// A `dependency` edge passes its parent's reachability on; other edges are optional.
pub open spec fn edge_reach(e: LockGraphEdge, parent: Reach) -> Reach {
    if e.kind@ == "dependency"@ {
        parent
    } else {
        Reach::Optional
    }
}

/// The resolutions an edge leads to: its exact target when that resolution
/// exists, otherwise (without a target) every node with the dependency's name.
pub open spec fn edge_targets(g: LockGraph, e: LockGraphEdge) -> Set<Seq<char>> {
    match e.target {
        Some(t) => if res_set(g.nodes@).contains(t@) {
            set![t@]
        } else {
            Set::empty()
        },
        None => by_name(g, e.dependency@),
    }
}

pub open spec fn at_least(a: Map<Seq<char>, Reach>, x: Seq<char>, r: Reach) -> bool {
    a.dom().contains(x) && rank(r) <= rank(a[x])
}

pub open spec fn roots_ok(
    g: LockGraph,
    roots: Map<Seq<char>, Reach>,
    exact: bool,
    a: Map<Seq<char>, Reach>,
) -> bool {
    forall|n: Seq<char>, x: Seq<char>|
        #![trigger roots.dom().contains(n), root_candidates(g, n, exact).contains(x)]
        roots.dom().contains(n) && root_candidates(g, n, exact).contains(x) ==> at_least(
            a,
            x,
            roots[n],
        )
}

pub open spec fn edges_ok_at(g: LockGraph, a: Map<Seq<char>, Reach>, x: Seq<char>) -> bool {
    forall|i: int, y: Seq<char>|
        #![trigger g.edges@[i], edge_targets(g, g.edges@[i]).contains(y)]
        0 <= i < g.edges@.len() && g.edges@[i].from@ == x && edge_targets(g, g.edges@[i]).contains(
            y,
        ) ==> at_least(a, y, edge_reach(g.edges@[i], a[x]))
}

/// `a` honours every root and every edge of the graph.
pub open spec fn closed(
    g: LockGraph,
    roots: Map<Seq<char>, Reach>,
    exact: bool,
    a: Map<Seq<char>, Reach>,
) -> bool {
    &&& roots_ok(g, roots, exact, a)
    &&& forall|x: Seq<char>| #[trigger] a.dom().contains(x) ==> edges_ok_at(g, a, x)
}

/// Everything `a` records, `b` records at least as strongly.
pub open spec fn below(a: Map<Seq<char>, Reach>, b: Map<Seq<char>, Reach>) -> bool {
    forall|x: Seq<char>| #[trigger] a.dom().contains(x) ==> at_least(b, x, a[x])
}

/// The reachability of a graph's resolutions from the roots: the least
/// assignment that honours every root and every edge.
pub open spec fn least_closed(
    g: LockGraph,
    roots: Map<Seq<char>, Reach>,
    exact: bool,
    a: Map<Seq<char>, Reach>,
) -> bool {
    &&& closed(g, roots, exact, a)
    &&& forall|b: Map<Seq<char>, Reach>| #[trigger] closed(g, roots, exact, b) ==> below(a, b)
}

/// The resolutions in `s` (a list of texts), as a set of texts.
pub fn by_name_exec(g: &LockGraph, n: &[char]) -> (r: Vec<Vec<char>>)
    ensures
        texts(r@).to_set() == by_name(*g, n@),
{
    let ghost nodes = g.nodes@;
    let mut r: Vec<Vec<char>> = Vec::new();
    let mut i: usize = 0;
    while i < g.nodes.len()
        invariant
            i <= g.nodes.len(),
            nodes == g.nodes@,
            texts(r@).to_set() == Set::new(
                |x: Seq<char>|
                    exists|k: int|
                        0 <= k < i && nodes[k].name@ == n@ && #[trigger] res_of(nodes[k]) == x,
            ),
        decreases g.nodes.len() - i,
    {
        let name = chars_of(g.nodes[i].name.as_str());
        let ghost prev = texts(r@).to_set();
        if chars_eq(&name, n) {
            let x = node_resolution(&g.nodes[i]);
            let ghost xv = x@;
            let ghost before = r@;
            r.push(x);
            proof {
                lemma_texts_push(before, x);
                texts(before).lemma_push_to_set_commute(xv);
            }
        }
        proof {
            let now = Set::new(
                |x: Seq<char>|
                    exists|k: int|
                        0 <= k < i + 1 && nodes[k].name@ == n@ && #[trigger] res_of(nodes[k]) == x,
            );
            assert forall|x: Seq<char>| #[trigger] texts(r@).to_set().contains(x) == now.contains(x) by {
                if now.contains(x) {
                    let k = choose|k: int| 0 <= k < i + 1 && nodes[k].name@ == n@ && #[trigger] res_of(nodes[k]) == x;
                    if k < i {
                        assert(prev.contains(x));
                    }
                }
                if prev.contains(x) {
                    let k = choose|k: int| 0 <= k < i && nodes[k].name@ == n@ && #[trigger] res_of(nodes[k]) == x;
                    assert(now.contains(x));
                }
            }
            assert(texts(r@).to_set() =~= now);
        }
        i = i + 1;
    }
    assert(texts(r@).to_set() =~= by_name(*g, n@));
    r
}

/// The resolutions of the nodes whose locator is `l`.
pub fn exact_exec(g: &LockGraph, l: &[char]) -> (r: Vec<Vec<char>>)
    ensures
        texts(r@).to_set() == exact_set(*g, l@),
{
    let ghost nodes = g.nodes@;
    let mut r: Vec<Vec<char>> = Vec::new();
    let mut i: usize = 0;
    while i < g.nodes.len()
        invariant
            i <= g.nodes.len(),
            nodes == g.nodes@,
            texts(r@).to_set() == Set::new(
                |x: Seq<char>|
                    exists|k: int|
                        0 <= k < i && nodes[k].locator@ == l@ && #[trigger] res_of(nodes[k]) == x,
            ),
        decreases g.nodes.len() - i,
    {
        let loc = chars_of(g.nodes[i].locator.as_str());
        let ghost prev = texts(r@).to_set();
        if chars_eq(&loc, l) {
            let x = node_resolution(&g.nodes[i]);
            let ghost xv = x@;
            let ghost before = r@;
            r.push(x);
            proof {
                lemma_texts_push(before, x);
                texts(before).lemma_push_to_set_commute(xv);
            }
        }
        proof {
            let now = Set::new(
                |x: Seq<char>|
                    exists|k: int|
                        0 <= k < i + 1 && nodes[k].locator@ == l@ && #[trigger] res_of(nodes[k]) == x,
            );
            assert forall|x: Seq<char>| #[trigger] texts(r@).to_set().contains(x) == now.contains(x) by {
                if now.contains(x) {
                    let k = choose|k: int| 0 <= k < i + 1 && nodes[k].locator@ == l@ && #[trigger] res_of(nodes[k]) == x;
                    if k < i {
                        assert(prev.contains(x));
                    }
                }
                if prev.contains(x) {
                    let k = choose|k: int| 0 <= k < i && nodes[k].locator@ == l@ && #[trigger] res_of(nodes[k]) == x;
                    assert(now.contains(x));
                }
            }
            assert(texts(r@).to_set() =~= now);
        }
        i = i + 1;
    }
    assert(texts(r@).to_set() =~= exact_set(*g, l@));
    r
}

/// The starting resolutions of root `n`.
pub fn root_candidates_exec(g: &LockGraph, n: &[char], exact: bool) -> (r: Vec<Vec<char>>)
    ensures
        texts(r@).to_set() == root_candidates(*g, n@, exact),
{
    if exact && str_eq(&chars_of(g.format.as_str()), "bun-text-lock") {
        let e = exact_exec(g, n);
        if e.len() > 0 {
            assert(texts(e@).to_set().contains(texts(e@)[0]));
            return e;
        } else {
            assert(texts(e@).to_set() =~= Set::<Seq<char>>::empty());
        }
    }
    by_name_exec(g, n)
}

/// The resolutions edge `e` leads to.
pub fn edge_targets_exec(g: &LockGraph, e: &LockGraphEdge, all: &[Vec<char>]) -> (r: Vec<Vec<char>>)
    requires
        texts(all@).to_set() == res_set(g.nodes@),
    ensures
        texts(r@).to_set() == edge_targets(*g, *e),
{
    match &e.target {
        Some(t) => {
            let tc = chars_of(t.as_str());
            let mut r: Vec<Vec<char>> = Vec::new();
            if contains_chars(all, &tc) {
                let ghost tv = tc@;
                r.push(tc);
                assert(texts(r@) =~= seq![tv]);
                assert(seq![tv][0] == tv);
                assert forall|x: Seq<char>| #[trigger] texts(r@).to_set().contains(x) == set![tv].contains(x) by {
                    if x == tv {
                        assert(texts(r@)[0] == tv);
                    }
                }
                assert(texts(r@).to_set() =~= set![tv]);
            } else {
                assert(texts(r@).to_set() =~= Set::<Seq<char>>::empty());
            }
            r
        },
        None => by_name_exec(g, &chars_of(e.dependency.as_str())),
    }
}

/// The weight of an assignment: one per resolution, plus one per required one.
pub open spec fn weight(a: Map<Seq<char>, Reach>) -> int {
    (a.dom().len() + a.dom().filter(|x: Seq<char>| a[x] == Reach::Required).len()) as int
}

/// Every assignment honouring the roots and edges records `a` at least as strongly.
pub open spec fn sound(g: LockGraph, roots: Map<Seq<char>, Reach>, exact: bool, a: Map<Seq<char>, Reach>) -> bool {
    forall|b: Map<Seq<char>, Reach>| #[trigger] closed(g, roots, exact, b) ==> below(a, b)
}

pub open spec fn within(a: Map<Seq<char>, Reach>, g: LockGraph) -> bool {
    a.dom().subset_of(res_set(g.nodes@))
}

proof fn lemma_states_bound(st: &States, g: LockGraph)
    requires
        st.wf(),
        within(st@, g),
    ensures
        st.keys@.len() <= g.nodes@.len(),
        st@.dom().finite(),
        0 <= weight(st@) <= 2 * g.nodes@.len(),
{
    let t = texts(st.keys@);
    assert(st@.dom() =~= t.to_set());
    t.unique_seq_to_set();
    let rs = g.nodes@.map_values(|n: LockGraphNode| res_of(n));
    assert forall|x: Seq<char>| #[trigger] res_set(g.nodes@).contains(x) == rs.to_set().contains(x) by {
        if res_set(g.nodes@).contains(x) {
            let i = choose|i: int| 0 <= i < g.nodes@.len() && #[trigger] res_of(g.nodes@[i]) == x;
            assert(rs[i] == x);
        }
        if rs.to_set().contains(x) {
            let i = choose|i: int| 0 <= i < rs.len() && rs[i] == x;
            assert(res_of(g.nodes@[i]) == x);
        }
    }
    assert(res_set(g.nodes@) =~= rs.to_set());
    rs.lemma_cardinality_of_set();
    vstd::set_lib::lemma_len_subset(st@.dom(), res_set(g.nodes@));
    let req = st@.dom().filter(|x: Seq<char>| st@[x] == Reach::Required);
    vstd::set_lib::lemma_len_subset(req, st@.dom());
}

/// Raises `k` to at least `r`; whether anything changed.
fn raise(st: &mut States, k: &[char], r: Reach) -> (changed: bool)
    requires
        old(st).wf(),
    ensures
        final(st).wf(),
        at_least(final(st)@, k@, r),
        changed ==> final(st)@ == old(st)@.insert(k@, r) && !at_least(old(st)@, k@, r),
        !changed ==> final(st)@ == old(st)@ && final(st).keys@ == old(st).keys@,
        forall|i: int| 0 <= i < old(st).keys@.len() ==> #[trigger] final(st).keys@[i]@ == old(st).keys@[i]@,
        old(st).keys@.len() <= final(st).keys@.len(),
{
    let cur = st.get(k);
    let up = match cur {
        Some(c) => match (c, r) {
            (Reach::Optional, Reach::Required) => true,
            _ => false,
        },
        None => true,
    };
    if up {
        st.set(k, r);
        true
    } else {
        false
    }
}

proof fn lemma_raise_keeps(
    g: LockGraph,
    roots: Map<Seq<char>, Reach>,
    exact: bool,
    old_a: Map<Seq<char>, Reach>,
    new_a: Map<Seq<char>, Reach>,
    k: Seq<char>,
    r: Reach,
)
    requires
        sound(g, roots, exact, old_a),
        new_a == old_a.insert(k, r),
        !at_least(old_a, k, r),
        old_a.dom().finite(),
        forall|b: Map<Seq<char>, Reach>| #[trigger] closed(g, roots, exact, b) ==> at_least(b, k, r),
    ensures
        sound(g, roots, exact, new_a),
        forall|x: Seq<char>, q: Reach| at_least(old_a, x, q) ==> #[trigger] at_least(new_a, x, q),
        weight(new_a) > weight(old_a),
{
    assert forall|b: Map<Seq<char>, Reach>| #[trigger] closed(g, roots, exact, b) implies below(new_a, b) by {
        assert(below(old_a, b));
        assert forall|x: Seq<char>| #[trigger] new_a.dom().contains(x) implies at_least(b, x, new_a[x]) by {
            if x != k {
                assert(old_a.dom().contains(x));
            }
        }
    }
    let req_old = old_a.dom().filter(|x: Seq<char>| old_a[x] == Reach::Required);
    let req_new = new_a.dom().filter(|x: Seq<char>| new_a[x] == Reach::Required);
    if old_a.dom().contains(k) {
        assert(old_a[k] == Reach::Optional && r == Reach::Required);
        assert(new_a.dom() =~= old_a.dom());
        assert(req_new =~= req_old.insert(k));
        assert(!req_old.contains(k));
    } else {
        assert(new_a.dom() =~= old_a.dom().insert(k));
        if r == Reach::Required {
            assert(req_new =~= req_old.insert(k));
        } else {
            assert(req_new =~= req_old);
        }
    }
}

fn edge_reach_exec(e: &LockGraphEdge, parent: Reach) -> (r: Reach)
    ensures
        r == edge_reach(*e, parent),
{
    if str_eq(&chars_of(e.kind.as_str()), "dependency") {
        parent
    } else {
        Reach::Optional
    }
}

/// The reachability of `g`'s resolutions from `roots`: the least assignment
/// that honours every root and every edge.
pub fn reach(g: &LockGraph, roots: &States, exact: bool, all: &[Vec<char>]) -> (st: States)
    requires
        roots.wf(),
        texts(all@).to_set() == res_set(g.nodes@),
    ensures
        st.wf(),
        least_closed(*g, roots@, exact, st@),
        within(st@, *g),
{
    let ghost rm = roots@;
    let mut st = States::new();
    let mut i: usize = 0;
    assert(sound(*g, rm, exact, st@));
    while i < roots.keys.len()
        invariant
            i <= roots.keys.len(),
            roots.wf(),
            rm == roots@,
            texts(all@).to_set() == res_set(g.nodes@),
            st.wf(),
            sound(*g, rm, exact, st@),
            within(st@, *g),
            forall|j: int, x: Seq<char>|
                0 <= j < i && #[trigger] root_candidates(*g, roots.keys@[j]@, exact).contains(x)
                    ==> at_least(st@, x, roots.vals@[j]),
        decreases roots.keys.len() - i,
    {
        proof {
            roots.lemma_entry(i as int);
        }
        let cands = root_candidates_exec(g, &roots.keys[i], exact);
        let rv = roots.vals[i];
        let ghost n = roots.keys@[i as int]@;
        let mut q: usize = 0;
        while q < cands.len()
            invariant
                q <= cands.len(),
                roots.wf(),
                rm == roots@,
                rm.dom().contains(n) && rm[n] == rv,
                n == roots.keys@[i as int]@,
                i < roots.keys.len(),
                texts(cands@).to_set() == root_candidates(*g, n, exact),
                st.wf(),
                sound(*g, rm, exact, st@),
                within(st@, *g),
                forall|j: int, x: Seq<char>|
                    0 <= j < i && #[trigger] root_candidates(*g, roots.keys@[j]@, exact).contains(x)
                        ==> at_least(st@, x, roots.vals@[j]),
                forall|p: int| 0 <= p < q ==> at_least(st@, #[trigger] texts(cands@)[p], rv),
            decreases cands.len() - q,
        {
            let ghost before = st@;
            let ghost x = cands@[q as int]@;
            proof {
                assert(texts(cands@)[q as int] == x);
                assert(root_candidates(*g, n, exact).contains(x));
                lemma_states_bound(&st, *g);
                by_name_within(*g, n, exact, x);
            }
            let changed = raise(&mut st, &cands[q], rv);
            proof {
                if changed {
                    assert forall|b: Map<Seq<char>, Reach>| #[trigger] closed(*g, rm, exact, b) implies at_least(b, x, rv) by {
                        assert(roots_ok(*g, rm, exact, b));
                        assert(rm.dom().contains(n) && root_candidates(*g, n, exact).contains(x));
                    }
                    lemma_raise_keeps(*g, rm, exact, before, st@, x, rv);
                    assert(within(st@, *g));
                }
            }
            q = q + 1;
        }
        proof {
            assert forall|x: Seq<char>| #[trigger] root_candidates(*g, n, exact).contains(x) implies at_least(st@, x, rv) by {
                assert(texts(cands@).to_set().contains(x));
                let p = choose|p: int| 0 <= p < texts(cands@).len() && texts(cands@)[p] == x;
            }
        }
        i = i + 1;
    }
    proof {
        assert forall|n: Seq<char>, x: Seq<char>|
            rm.dom().contains(n) && root_candidates(*g, n, exact).contains(x) implies at_least(st@, x, rm[n]) by {
            let t = texts(roots.keys@);
            let j = t.index_of(n);
            assert(0 <= j < t.len() && t[j] == n);
            assert(roots.keys@[j]@ == n);
            roots.lemma_entry(j);
            assert(root_candidates(*g, roots.keys@[j]@, exact).contains(x));
        }
        assert(roots_ok(*g, rm, exact, st@));
        lemma_states_bound(&st, *g);
    }
    let mut done = false;
    while !done
        invariant
            roots.wf(),
            rm == roots@,
            texts(all@).to_set() == res_set(g.nodes@),
            st.wf(),
            sound(*g, rm, exact, st@),
            within(st@, *g),
            roots_ok(*g, rm, exact, st@),
            0 <= weight(st@) <= 2 * g.nodes@.len(),
            done ==> forall|x: Seq<char>| #[trigger] st@.dom().contains(x) ==> edges_ok_at(*g, st@, x),
        decreases 2 * g.nodes@.len() - weight(st@) + (if done { 0int } else { 1int }),
    {
        let ghost start = st@;
        let mut changed = false;
        let mut i: usize = 0;
        while i < st.keys.len()
            invariant
                i <= st.keys.len(),
                roots.wf(),
                rm == roots@,
                texts(all@).to_set() == res_set(g.nodes@),
                st.wf(),
                sound(*g, rm, exact, st@),
                within(st@, *g),
                roots_ok(*g, rm, exact, st@),
                start.dom().finite(),
                !changed ==> st@ == start,
                changed ==> weight(st@) > weight(start),
                forall|x: Seq<char>, q: Reach| at_least(start, x, q) ==> #[trigger] at_least(st@, x, q),
                !changed ==> forall|j: int| 0 <= j < i ==> edges_ok_at(*g, st@, #[trigger] st.keys@[j]@),
            decreases g.nodes@.len() - i,
        {
            proof {
                lemma_states_bound(&st, *g);
                st.lemma_entry(i as int);
            }
            let x = slice_of(&st.keys[i], 0, st.keys[i].len());
            let rx = st.vals[i];
            let ghost xv = x@;
            let ghost keys_before = st.keys@;
            assert(xv == st.keys@[i as int]@);
            let mut m: usize = 0;
            while m < g.edges.len()
                invariant
                    m <= g.edges.len(),
                    i < st.keys.len(),
                    roots.wf(),
                    rm == roots@,
                    texts(all@).to_set() == res_set(g.nodes@),
                    st.wf(),
                    sound(*g, rm, exact, st@),
                    within(st@, *g),
                    roots_ok(*g, rm, exact, st@),
                    start.dom().finite(),
                    x@ == xv,
                    at_least(st@, xv, rx),
                    xv == st.keys@[i as int]@,
                    !changed ==> st@ == start,
                    !changed ==> st@[xv] == rx,
                    changed ==> weight(st@) > weight(start),
                    forall|x: Seq<char>, q: Reach| at_least(start, x, q) ==> #[trigger] at_least(st@, x, q),
                    !changed ==> forall|j: int| 0 <= j < i ==> edges_ok_at(*g, st@, #[trigger] st.keys@[j]@),
                    !changed ==> forall|k: int, y: Seq<char>|
                        0 <= k < m && g.edges@[k].from@ == xv && #[trigger] edge_targets(*g, g.edges@[k]).contains(y)
                            ==> at_least(st@, y, edge_reach(g.edges@[k], rx)),
                decreases g.edges.len() - m,
            {
                let e = &g.edges[m];
                if chars_eq(&chars_of(e.from.as_str()), &x) {
                    let er = edge_reach_exec(e, rx);
                    let targets = edge_targets_exec(g, e, all);
                    let mut q: usize = 0;
                    while q < targets.len()
                        invariant
                            q <= targets.len(),
                            m < g.edges.len(),
                            e == &g.edges@[m as int],
                            e.from@ == xv,
                            er == edge_reach(*e, rx),
                            texts(targets@).to_set() == edge_targets(*g, *e),
                            i < st.keys.len(),
                            roots.wf(),
                            rm == roots@,
                            texts(all@).to_set() == res_set(g.nodes@),
                            st.wf(),
                            sound(*g, rm, exact, st@),
                            within(st@, *g),
                            roots_ok(*g, rm, exact, st@),
                            start.dom().finite(),
                            x@ == xv,
                            at_least(st@, xv, rx),
                            xv == st.keys@[i as int]@,
                            !changed ==> st@ == start,
                            !changed ==> st@[xv] == rx,
                            changed ==> weight(st@) > weight(start),
                            forall|x: Seq<char>, q: Reach| at_least(start, x, q) ==> #[trigger] at_least(st@, x, q),
                            !changed ==> forall|j: int| 0 <= j < i ==> edges_ok_at(*g, st@, #[trigger] st.keys@[j]@),
                            !changed ==> forall|k: int, y: Seq<char>|
                                0 <= k < m && g.edges@[k].from@ == xv && #[trigger] edge_targets(*g, g.edges@[k]).contains(y)
                                    ==> at_least(st@, y, edge_reach(g.edges@[k], rx)),
                            !changed ==> forall|p: int| 0 <= p < q ==> at_least(st@, #[trigger] texts(targets@)[p], er),
                        decreases targets.len() - q,
                    {
                        let ghost before = st@;
                        let ghost y = targets@[q as int]@;
                        proof {
                            assert(texts(targets@)[q as int] == y);
                            assert(edge_targets(*g, *e).contains(y));
                            lemma_targets_within(*g, *e, y);
                            lemma_states_bound(&st, *g);
                        }
                        let ch = raise(&mut st, &targets[q], er);
                        proof {
                            if ch {
                                assert forall|b: Map<Seq<char>, Reach>| #[trigger] closed(*g, rm, exact, b) implies at_least(b, y, er) by {
                                    assert(below(before, b));
                                    assert(before.dom().contains(xv));
                                    assert(at_least(b, xv, before[xv]));
                                    assert(b.dom().contains(xv));
                                    assert(edges_ok_at(*g, b, xv));
                                    assert(g.edges@[m as int] == *e);
                                    assert(edge_targets(*g, g.edges@[m as int]).contains(y));
                                    assert(at_least(b, y, edge_reach(g.edges@[m as int], b[xv])));
                                }
                                lemma_raise_keeps(*g, rm, exact, before, st@, y, er);
                            }
                        }
                        if ch {
                            changed = true;
                        }
                        q = q + 1;
                    }
                    proof {
                        if !changed {
                            assert forall|k: int, y: Seq<char>|
                                0 <= k < m + 1 && g.edges@[k].from@ == xv && #[trigger] edge_targets(*g, g.edges@[k]).contains(y)
                                    implies at_least(st@, y, edge_reach(g.edges@[k], rx)) by {
                                if k == m {
                                    assert(texts(targets@).to_set().contains(y));
                                    let p = choose|p: int| 0 <= p < texts(targets@).len() && texts(targets@)[p] == y;
                                }
                            }
                        }
                    }
                } else {
                    proof {
                        if !changed {
                            assert forall|k: int, y: Seq<char>|
                                0 <= k < m + 1 && g.edges@[k].from@ == xv && #[trigger] edge_targets(*g, g.edges@[k]).contains(y)
                                    implies at_least(st@, y, edge_reach(g.edges@[k], rx)) by {
                                if k == m {
                                    assert(g.edges@[k].from@ != xv);
                                }
                            }
                        }
                    }
                }
                m = m + 1;
            }
            proof {
                if !changed {
                    assert(edges_ok_at(*g, st@, xv));
                }
            }
            i = i + 1;
        }
        proof {
            lemma_states_bound(&st, *g);
            if !changed {
                assert forall|x: Seq<char>| #[trigger] st@.dom().contains(x) implies edges_ok_at(*g, st@, x) by {
                    let t = texts(st.keys@);
                    let j = t.index_of(x);
                    assert(0 <= j < t.len() && t[j] == x);
                    assert(st.keys@[j]@ == x);
                }
            }
        }
        if !changed {
            done = true;
        }
    }
    proof {
        assert(closed(*g, rm, exact, st@));
    }
    st
}

proof fn by_name_within(g: LockGraph, n: Seq<char>, exact: bool, x: Seq<char>)
    requires
        root_candidates(g, n, exact).contains(x),
    ensures
        res_set(g.nodes@).contains(x),
{
    if exact && g.format@ == "bun-text-lock"@ && !exact_set(g, n).is_empty() {
        let i = choose|i: int| 0 <= i < g.nodes@.len() && g.nodes@[i].locator@ == n && #[trigger] res_of(g.nodes@[i]) == x;
        assert(res_of(g.nodes@[i]) == x);
    } else {
        let i = choose|i: int| 0 <= i < g.nodes@.len() && g.nodes@[i].name@ == n && #[trigger] res_of(g.nodes@[i]) == x;
        assert(res_of(g.nodes@[i]) == x);
    }
}

proof fn lemma_targets_within(g: LockGraph, e: LockGraphEdge, y: Seq<char>)
    requires
        edge_targets(g, e).contains(y),
    ensures
        res_set(g.nodes@).contains(y),
{
    match e.target {
        Some(t) => {},
        None => {
            let i = choose|i: int| 0 <= i < g.nodes@.len() && g.nodes@[i].name@ == e.dependency@ && #[trigger] res_of(g.nodes@[i]) == y;
            assert(res_of(g.nodes@[i]) == y);
        },
    }
}

/// The package a dependency installs: the target of an `npm:` alias, or the
/// dependency's own name.
pub open spec fn alias_name(d: DependencyIr) -> Seq<char> {
    match strip_prefix(d.specifier@, "npm:"@) {
        Some(rest) => match split_locator_spec(rest) {
            Some(p) => p.0,
            None => d.name@,
        },
        None => d.name@,
    }
}

pub fn alias_dependency_name(d: &DependencyIr) -> (r: Vec<char>)
    ensures
        r@ == alias_name(*d),
{
    proof {
        reveal_strlit("npm:");
    }
    let spec_chars = chars_of(d.specifier.as_str());
    if str_starts_with(&spec_chars, "npm:") {
        let rest = slice_of(&spec_chars, 4, spec_chars.len());
        assert(rest@ =~= spec_chars@.skip(4));
        match split_locator(&rest) {
            Some(p) => {
                return p.0;
            },
            None => {},
        }
    }
    chars_of(d.name.as_str())
}

/// Dependencies on local packages (workspace, file, link or portal).
pub open spec fn local_protocol(p: DependencyProtocol) -> bool {
    p == DependencyProtocol::Workspace || p == DependencyProtocol::File || p == DependencyProtocol::Link
        || p == DependencyProtocol::Portal
}

/// The names of the project's own packages.
pub open spec fn workspace_names(ir: ProjectIr) -> Set<Seq<char>> {
    Set::new(
        |n: Seq<char>|
            exists|p: int|
                0 <= p < ir.packages@.len() && ir.packages@[p].name is Some && #[trigger] ir.packages@[p].name->0@
                    == n,
    )
}

pub open spec fn dep_at(ir: ProjectIr, p: int, d: int) -> DependencyIr {
    ir.packages@[p].dependencies@[d]
}

pub open spec fn dep_index(ir: ProjectIr, p: int, d: int) -> bool {
    0 <= p < ir.packages@.len() && 0 <= d < ir.packages@[p].dependencies@.len()
}

/// A dependency that can root the lock graph: on a registry package that is
/// not one of the project's own.
pub open spec fn root_dependency(ir: ProjectIr, d: DependencyIr) -> bool {
    !local_protocol(d.protocol) && !workspace_names(ir).contains(alias_name(d))
}

/// Optional and peer dependencies are optional roots; the others are required.
pub open spec fn section_reach(section: Seq<char>) -> Reach {
    if section == "optionalDependencies"@ || section == "peerDependencies"@ {
        Reach::Optional
    } else {
        Reach::Required
    }
}

/// Dependencies `(p, d)` with `p < pp`, or `p == pp` and `d < dd`.
pub open spec fn before_pair(p: int, d: int, pp: int, dd: int) -> bool {
    p < pp || (p == pp && d < dd)
}

pub open spec fn roots_upto(ir: ProjectIr, pp: int, dd: int) -> Map<Seq<char>, Reach> {
    Map::new(
        |n: Seq<char>|
            exists|p: int, d: int|
                dep_index(ir, p, d) && before_pair(p, d, pp, dd) && root_dependency(ir, #[trigger] dep_at(ir, p, d))
                    && alias_name(dep_at(ir, p, d)) == n,
        |n: Seq<char>|
            if exists|p: int, d: int|
                dep_index(ir, p, d) && before_pair(p, d, pp, dd) && root_dependency(ir, #[trigger] dep_at(ir, p, d))
                    && alias_name(dep_at(ir, p, d)) == n && section_reach(dep_at(ir, p, d).section@)
                    == Reach::Required {
                Reach::Required
            } else {
                Reach::Optional
            },
    )
}

/// The project's root packages: each registry dependency's package, required
/// when some dependency on it is neither optional nor a peer.
pub open spec fn project_roots_spec(ir: ProjectIr) -> Map<Seq<char>, Reach> {
    roots_upto(ir, ir.packages@.len() as int, 0)
}

/// The names of the project's packages, as a list of texts.
fn package_names(ir: &ProjectIr) -> (r: Vec<Vec<char>>)
    ensures
        texts(r@).to_set() == workspace_names(*ir),
{
    let mut r: Vec<Vec<char>> = Vec::new();
    let mut p: usize = 0;
    while p < ir.packages.len()
        invariant
            p <= ir.packages.len(),
            texts(r@).to_set() == Set::new(
                |n: Seq<char>|
                    exists|q: int|
                        0 <= q < p && ir.packages@[q].name is Some && #[trigger] ir.packages@[q].name->0@ == n,
            ),
        decreases ir.packages.len() - p,
    {
        let ghost prev = texts(r@).to_set();
        match &ir.packages[p].name {
            Some(n) => {
                let nc = chars_of(n.as_str());
                let ghost before = r@;
                let ghost nv = nc@;
                r.push(nc);
                proof {
                    lemma_texts_push(before, nc);
                    texts(before).lemma_push_to_set_commute(nv);
                }
            },
            None => {},
        }
        proof {
            let now = Set::new(
                |n: Seq<char>|
                    exists|q: int|
                        0 <= q < p + 1 && ir.packages@[q].name is Some && #[trigger] ir.packages@[q].name->0@ == n,
            );
            assert forall|n: Seq<char>| #[trigger] texts(r@).to_set().contains(n) == now.contains(n) by {
                if now.contains(n) {
                    let q = choose|q: int| 0 <= q < p + 1 && ir.packages@[q].name is Some && #[trigger] ir.packages@[q].name->0@ == n;
                    if q < p {
                        assert(prev.contains(n));
                    }
                }
                if prev.contains(n) {
                    let q = choose|q: int| 0 <= q < p && ir.packages@[q].name is Some && #[trigger] ir.packages@[q].name->0@ == n;
                    assert(now.contains(n));
                }
            }
            assert(texts(r@).to_set() =~= now);
        }
        p = p + 1;
    }
    assert(texts(r@).to_set() =~= workspace_names(*ir));
    r
}

fn section_reach_exec(section: &str) -> (r: Reach)
    ensures
        r == section_reach(section@),
{
    let sc = chars_of(section);
    if str_eq(&sc, "optionalDependencies") || str_eq(&sc, "peerDependencies") {
        Reach::Optional
    } else {
        Reach::Required
    }
}

proof fn lemma_roots_step(ir: ProjectIr, pp: int, dd: int)
    requires
        dep_index(ir, pp, dd),
    ensures
        roots_upto(ir, pp, dd + 1) == (if root_dependency(ir, dep_at(ir, pp, dd)) {
            let n = alias_name(dep_at(ir, pp, dd));
            let r = section_reach(dep_at(ir, pp, dd).section@);
            let old = roots_upto(ir, pp, dd);
            if old.dom().contains(n) && (old[n] == Reach::Required || r == Reach::Optional) {
                old
            } else {
                old.insert(n, r)
            }
        } else {
            roots_upto(ir, pp, dd)
        }),
{
    let old = roots_upto(ir, pp, dd);
    let new = roots_upto(ir, pp, dd + 1);
    let cur = dep_at(ir, pp, dd);
    assert forall|n: Seq<char>| #[trigger] new.dom().contains(n) == (old.dom().contains(n) || (root_dependency(ir, cur) && alias_name(cur) == n)) by {
        if new.dom().contains(n) {
            let (p, d) = choose|p: int, d: int| dep_index(ir, p, d) && before_pair(p, d, pp, dd + 1) && root_dependency(ir, #[trigger] dep_at(ir, p, d)) && alias_name(dep_at(ir, p, d)) == n;
            if !(p == pp && d == dd) {
                assert(before_pair(p, d, pp, dd));
            }
        }
        if old.dom().contains(n) {
            let (p, d) = choose|p: int, d: int| dep_index(ir, p, d) && before_pair(p, d, pp, dd) && root_dependency(ir, #[trigger] dep_at(ir, p, d)) && alias_name(dep_at(ir, p, d)) == n;
            assert(before_pair(p, d, pp, dd + 1));
        }
        if root_dependency(ir, cur) && alias_name(cur) == n {
            assert(before_pair(pp, dd, pp, dd + 1));
        }
    }
    let req = |n: Seq<char>, a: int, b: int| exists|p: int, d: int|
        dep_index(ir, p, d) && before_pair(p, d, a, b) && root_dependency(ir, #[trigger] dep_at(ir, p, d))
            && alias_name(dep_at(ir, p, d)) == n && section_reach(dep_at(ir, p, d).section@) == Reach::Required;
    assert forall|n: Seq<char>| #[trigger] req(n, pp, dd + 1) == (req(n, pp, dd) || (root_dependency(ir, cur) && alias_name(cur) == n && section_reach(cur.section@) == Reach::Required)) by {
        if req(n, pp, dd + 1) {
            let (p, d) = choose|p: int, d: int| dep_index(ir, p, d) && before_pair(p, d, pp, dd + 1) && root_dependency(ir, #[trigger] dep_at(ir, p, d)) && alias_name(dep_at(ir, p, d)) == n && section_reach(dep_at(ir, p, d).section@) == Reach::Required;
            if !(p == pp && d == dd) {
                assert(before_pair(p, d, pp, dd));
            }
        }
        if req(n, pp, dd) {
            let (p, d) = choose|p: int, d: int| dep_index(ir, p, d) && before_pair(p, d, pp, dd) && root_dependency(ir, #[trigger] dep_at(ir, p, d)) && alias_name(dep_at(ir, p, d)) == n && section_reach(dep_at(ir, p, d).section@) == Reach::Required;
            assert(before_pair(p, d, pp, dd + 1));
        }
        if root_dependency(ir, cur) && alias_name(cur) == n && section_reach(cur.section@) == Reach::Required {
            assert(before_pair(pp, dd, pp, dd + 1));
        }
    }
    assert forall|n: Seq<char>| new.dom().contains(n) implies new[n] == (if req(n, pp, dd + 1) { Reach::Required } else { Reach::Optional }) by {}
    assert forall|n: Seq<char>| old.dom().contains(n) implies old[n] == (if req(n, pp, dd) { Reach::Required } else { Reach::Optional }) by {}
    if root_dependency(ir, cur) {
        let n = alias_name(cur);
        let r = section_reach(cur.section@);
        if old.dom().contains(n) && (old[n] == Reach::Required || r == Reach::Optional) {
            assert(new =~= old);
        } else {
            assert(new =~= old.insert(n, r));
        }
    } else {
        assert(new =~= old);
    }
}

proof fn lemma_roots_next_package(ir: ProjectIr, pp: int)
    requires
        0 <= pp < ir.packages@.len(),
    ensures
        roots_upto(ir, pp, ir.packages@[pp].dependencies@.len() as int) == roots_upto(ir, pp + 1, 0),
{
    let a = roots_upto(ir, pp, ir.packages@[pp].dependencies@.len() as int);
    let b = roots_upto(ir, pp + 1, 0);
    let len = ir.packages@[pp].dependencies@.len() as int;
    assert forall|p: int, d: int| dep_index(ir, p, d) implies before_pair(p, d, pp, len) == before_pair(p, d, pp + 1, 0) by {}
    assert forall|n: Seq<char>| #[trigger] a.dom().contains(n) == b.dom().contains(n) by {
        if a.dom().contains(n) {
            let (p, d) = choose|p: int, d: int| dep_index(ir, p, d) && before_pair(p, d, pp, len) && root_dependency(ir, #[trigger] dep_at(ir, p, d)) && alias_name(dep_at(ir, p, d)) == n;
            assert(before_pair(p, d, pp + 1, 0));
        }
        if b.dom().contains(n) {
            let (p, d) = choose|p: int, d: int| dep_index(ir, p, d) && before_pair(p, d, pp + 1, 0) && root_dependency(ir, #[trigger] dep_at(ir, p, d)) && alias_name(dep_at(ir, p, d)) == n;
            assert(before_pair(p, d, pp, len));
        }
    }
    assert forall|n: Seq<char>| a.dom().contains(n) implies a[n] == b[n] by {
        let ra = exists|p: int, d: int| dep_index(ir, p, d) && before_pair(p, d, pp, len) && root_dependency(ir, #[trigger] dep_at(ir, p, d)) && alias_name(dep_at(ir, p, d)) == n && section_reach(dep_at(ir, p, d).section@) == Reach::Required;
        let rb = exists|p: int, d: int| dep_index(ir, p, d) && before_pair(p, d, pp + 1, 0) && root_dependency(ir, #[trigger] dep_at(ir, p, d)) && alias_name(dep_at(ir, p, d)) == n && section_reach(dep_at(ir, p, d).section@) == Reach::Required;
        if ra {
            let (p, d) = choose|p: int, d: int| dep_index(ir, p, d) && before_pair(p, d, pp, len) && root_dependency(ir, #[trigger] dep_at(ir, p, d)) && alias_name(dep_at(ir, p, d)) == n && section_reach(dep_at(ir, p, d).section@) == Reach::Required;
            assert(before_pair(p, d, pp + 1, 0));
        }
        if rb {
            let (p, d) = choose|p: int, d: int| dep_index(ir, p, d) && before_pair(p, d, pp + 1, 0) && root_dependency(ir, #[trigger] dep_at(ir, p, d)) && alias_name(dep_at(ir, p, d)) == n && section_reach(dep_at(ir, p, d).section@) == Reach::Required;
            assert(before_pair(p, d, pp, len));
        }
    }
    assert(a =~= b);
}

/// The root packages of a project and how they are reached.
pub fn project_roots(ir: &ProjectIr) -> (r: States)
    ensures
        r.wf(),
        r@ == project_roots_spec(*ir),
{
    let names = package_names(ir);
    let mut roots = States::new();
    let mut p: usize = 0;
    assert(roots@ =~= roots_upto(*ir, 0, 0));
    while p < ir.packages.len()
        invariant
            p <= ir.packages.len(),
            texts(names@).to_set() == workspace_names(*ir),
            roots.wf(),
            roots@ == roots_upto(*ir, p as int, 0),
        decreases ir.packages.len() - p,
    {
        let deps = &ir.packages[p].dependencies;
        let mut d: usize = 0;
        while d < deps.len()
            invariant
                p < ir.packages.len(),
                d <= deps.len(),
                deps == &ir.packages@[p as int].dependencies,
                texts(names@).to_set() == workspace_names(*ir),
                roots.wf(),
                roots@ == roots_upto(*ir, p as int, d as int),
            decreases deps.len() - d,
        {
            let dep = &deps[d];
            proof {
                lemma_roots_step(*ir, p as int, d as int);
                assert(dep_at(*ir, p as int, d as int) == *dep);
            }
            let local = match dep.protocol {
                DependencyProtocol::Workspace | DependencyProtocol::File | DependencyProtocol::Link
                | DependencyProtocol::Portal => true,
                _ => false,
            };
            if !local {
                let name = alias_dependency_name(dep);
                if !contains_chars(&names, &name) {
                    let r = section_reach_exec(dep.section.as_str());
                    let ghost before = roots@;
                    let changed = raise(&mut roots, &name, r);
                    proof {
                        if !changed {
                            assert(at_least(before, name@, r));
                        }
                    }
                }
            }
            d = d + 1;
        }
        proof {
            lemma_roots_next_package(*ir, p as int);
        }
        p = p + 1;
    }
    roots
}

/// The issue, if any, that a required `dependency` edge from a resolution
/// raises: an exact target that is not a resolution, or (without a target) a
/// dependency name that no node has.
pub open spec fn edge_issue(g: LockGraph, label: Seq<char>, e: LockGraphEdge) -> Option<Seq<char>> {
    match e.target {
        Some(t) => if res_set(g.nodes@).contains(t@) {
            None
        } else {
            Some(label + ": unresolved required target "@ + e.from@ + " -> "@ + t@)
        },
        None => if by_name(g, e.dependency@).is_empty() {
            Some(label + ": unresolved required edge "@ + e.from@ + " -> "@ + e.dependency@)
        } else {
            None
        },
    }
}

/// The reachability issues of a graph under assignment `a`: required roots
/// with no resolution, and required dependency edges that lead nowhere.
pub open spec fn issue_set(
    g: LockGraph,
    roots: Map<Seq<char>, Reach>,
    exact: bool,
    a: Map<Seq<char>, Reach>,
    label: Seq<char>,
) -> Set<Seq<char>> {
    Set::new(
        |s: Seq<char>|
            (exists|n: Seq<char>|
                #[trigger] roots.dom().contains(n) && roots[n] == Reach::Required && root_candidates(
                    g,
                    n,
                    exact,
                ).is_empty() && s == label + ": unresolved required root "@ + n) || (exists|i: int|
                0 <= i < g.edges@.len() && a.dom().contains(#[trigger] g.edges@[i].from@)
                    && a[g.edges@[i].from@] == Reach::Required && g.edges@[i].kind@
                    == "dependency"@ && edge_issue(g, label, g.edges@[i]) == Some(s)),
    )
}

/// The reachability issues of `g`, in increasing order.
pub fn issues(g: &LockGraph, roots: &States, exact: bool, st: &States, all: &[Vec<char>], label: &str) -> (r: Vec<Vec<char>>)
    requires
        roots.wf(),
        st.wf(),
        texts(all@).to_set() == res_set(g.nodes@),
    ensures
        crate::sorted::lists_sorted(texts(r@), issue_set(*g, roots@, exact, st@, label@)),
{
    let ghost rm = roots@;
    let ghost sm = st@;
    let ghost full = issue_set(*g, rm, exact, sm, label@);
    let mut r: Vec<Vec<char>> = Vec::new();
    let mut i: usize = 0;
    while i < roots.keys.len()
        invariant
            i <= roots.keys.len(),
            roots.wf(),
            rm == roots@,
            crate::text::strictly_sorted(texts(r@)),
            texts(r@).to_set() == Set::new(
                |s: Seq<char>|
                    exists|j: int|
                        0 <= j < i && roots.vals@[j] == Reach::Required && root_candidates(
                            *g,
                            #[trigger] roots.keys@[j]@,
                            exact,
                        ).is_empty() && s == label@ + ": unresolved required root "@ + roots.keys@[j]@,
            ),
        decreases roots.keys.len() - i,
    {
        let ghost prev = texts(r@).to_set();
        let cands = root_candidates_exec(g, &roots.keys[i], exact);
        let mut line: Vec<char> = Vec::new();
        let hit = roots.vals[i] == Reach::Required && cands.len() == 0;
        let ghost n = roots.keys@[i as int]@;
        if hit {
            push_str(&mut line, label);
            push_str(&mut line, ": unresolved required root ");
            push_chars(&mut line, &roots.keys[i]);
        }
        let ghost lv = line@;
        proof {
            if cands.len() == 0 {
                assert(texts(cands@).to_set() =~= Set::<Seq<char>>::empty());
            } else {
                assert(texts(cands@).to_set().contains(texts(cands@)[0]));
            }
        }
        if hit {
            crate::sorted::insert_sorted(&mut r, line);
        }
        proof {
            let now = Set::new(
                |s: Seq<char>|
                    exists|j: int|
                        0 <= j < i + 1 && roots.vals@[j] == Reach::Required && root_candidates(
                            *g,
                            #[trigger] roots.keys@[j]@,
                            exact,
                        ).is_empty() && s == label@ + ": unresolved required root "@ + roots.keys@[j]@,
            );
            assert forall|s: Seq<char>| #[trigger] texts(r@).to_set().contains(s) == now.contains(s) by {
                if now.contains(s) {
                    let j = choose|j: int| 0 <= j < i + 1 && roots.vals@[j] == Reach::Required && root_candidates(*g, #[trigger] roots.keys@[j]@, exact).is_empty() && s == label@ + ": unresolved required root "@ + roots.keys@[j]@;
                    if j < i {
                        assert(prev.contains(s));
                    } else {
                        assert(lv == s);
                    }
                }
                if prev.contains(s) {
                    let j = choose|j: int| 0 <= j < i && roots.vals@[j] == Reach::Required && root_candidates(*g, #[trigger] roots.keys@[j]@, exact).is_empty() && s == label@ + ": unresolved required root "@ + roots.keys@[j]@;
                    assert(now.contains(s));
                }
            }
            assert(texts(r@).to_set() =~= now);
        }
        i = i + 1;
    }
    let ghost root_part = texts(r@).to_set();
    let mut m: usize = 0;
    while m < g.edges.len()
        invariant
            m <= g.edges.len(),
            st.wf(),
            sm == st@,
            texts(all@).to_set() == res_set(g.nodes@),
            crate::text::strictly_sorted(texts(r@)),
            texts(r@).to_set() == root_part.union(Set::new(
                |s: Seq<char>|
                    exists|k: int|
                        0 <= k < m && sm.dom().contains(#[trigger] g.edges@[k].from@) && sm[g.edges@[k].from@]
                            == Reach::Required && g.edges@[k].kind@ == "dependency"@ && edge_issue(
                            *g,
                            label@,
                            g.edges@[k],
                        ) == Some(s),
            )),
        decreases g.edges.len() - m,
    {
        let ghost prev = texts(r@).to_set();
        let e = &g.edges[m];
        let from = chars_of(e.from.as_str());
        let mut found: Option<Vec<char>> = None;
        if st.get(&from) == Some(Reach::Required) && str_eq(&chars_of(e.kind.as_str()), "dependency") {
            match &e.target {
                Some(t) => {
                    let tc = chars_of(t.as_str());
                    if !contains_chars(all, &tc) {
                        let mut line: Vec<char> = Vec::new();
                        push_str(&mut line, label);
                        push_str(&mut line, ": unresolved required target ");
                        push_chars(&mut line, &from);
                        push_str(&mut line, " -> ");
                        push_chars(&mut line, &tc);
                        found = Some(line);
                    }
                },
                None => {
                    let cands = by_name_exec(g, &chars_of(e.dependency.as_str()));
                    proof {
                        if cands.len() == 0 {
                            assert(texts(cands@).to_set() =~= Set::<Seq<char>>::empty());
                        } else {
                            assert(texts(cands@).to_set().contains(texts(cands@)[0]));
                        }
                    }
                    if cands.len() == 0 {
                        let mut line: Vec<char> = Vec::new();
                        push_str(&mut line, label);
                        push_str(&mut line, ": unresolved required edge ");
                        push_chars(&mut line, &from);
                        push_str(&mut line, " -> ");
                        let dc = chars_of(e.dependency.as_str());
                        push_chars(&mut line, &dc);
                        found = Some(line);
                    }
                },
            }
        }
        let ghost hit = sm.dom().contains(e.from@) && sm[e.from@] == Reach::Required && e.kind@ == "dependency"@;
        proof {
            assert(g.edges@[m as int] == *e);
            if hit {
                assert(found matches Some(l) ==> edge_issue(*g, label@, *e) == Some(l@));
                assert(found is None ==> edge_issue(*g, label@, *e) is None);
            } else {
                assert(found is None);
            }
        }
        match found {
            Some(l) => {
                crate::sorted::insert_sorted(&mut r, l);
            },
            None => {},
        }
        proof {
            let now = Set::new(
                |s: Seq<char>|
                    exists|k: int|
                        0 <= k < m + 1 && sm.dom().contains(#[trigger] g.edges@[k].from@) && sm[g.edges@[k].from@]
                            == Reach::Required && g.edges@[k].kind@ == "dependency"@ && edge_issue(
                            *g,
                            label@,
                            g.edges@[k],
                        ) == Some(s),
            );
            let was = Set::new(
                |s: Seq<char>|
                    exists|k: int|
                        0 <= k < m && sm.dom().contains(#[trigger] g.edges@[k].from@) && sm[g.edges@[k].from@]
                            == Reach::Required && g.edges@[k].kind@ == "dependency"@ && edge_issue(
                            *g,
                            label@,
                            g.edges@[k],
                        ) == Some(s),
            );
            assert forall|s: Seq<char>| #[trigger] now.contains(s) == (was.contains(s) || (hit && edge_issue(*g, label@, *e) == Some(s))) by {
                if now.contains(s) {
                    let k = choose|k: int| 0 <= k < m + 1 && sm.dom().contains(#[trigger] g.edges@[k].from@) && sm[g.edges@[k].from@] == Reach::Required && g.edges@[k].kind@ == "dependency"@ && edge_issue(*g, label@, g.edges@[k]) == Some(s);
                    if k < m {
                        assert(was.contains(s));
                    }
                }
                if was.contains(s) {
                    let k = choose|k: int| 0 <= k < m && sm.dom().contains(#[trigger] g.edges@[k].from@) && sm[g.edges@[k].from@] == Reach::Required && g.edges@[k].kind@ == "dependency"@ && edge_issue(*g, label@, g.edges@[k]) == Some(s);
                    assert(now.contains(s));
                }
                if hit && edge_issue(*g, label@, *e) == Some(s) {
                    assert(g.edges@[m as int].from@ == e.from@);
                    assert(now.contains(s));
                }
            }
            assert(texts(r@).to_set() =~= root_part.union(now));
        }
        m = m + 1;
    }
    proof {
        let edge_part = Set::new(
            |s: Seq<char>|
                exists|k: int|
                    0 <= k < g.edges@.len() && sm.dom().contains(#[trigger] g.edges@[k].from@) && sm[g.edges@[k].from@]
                        == Reach::Required && g.edges@[k].kind@ == "dependency"@ && edge_issue(
                        *g,
                        label@,
                        g.edges@[k],
                    ) == Some(s),
        );
        assert forall|s: Seq<char>| #[trigger] full.contains(s) == root_part.union(edge_part).contains(s) by {
            if root_part.contains(s) {
                let j = choose|j: int| 0 <= j < roots.keys@.len() && roots.vals@[j] == Reach::Required && root_candidates(*g, #[trigger] roots.keys@[j]@, exact).is_empty() && s == label@ + ": unresolved required root "@ + roots.keys@[j]@;
                roots.lemma_entry(j);
                assert(rm.dom().contains(roots.keys@[j]@));
            }
            if exists|n: Seq<char>| #[trigger] rm.dom().contains(n) && rm[n] == Reach::Required && root_candidates(*g, n, exact).is_empty() && s == label@ + ": unresolved required root "@ + n {
                let n = choose|n: Seq<char>| #[trigger] rm.dom().contains(n) && rm[n] == Reach::Required && root_candidates(*g, n, exact).is_empty() && s == label@ + ": unresolved required root "@ + n;
                let t = texts(roots.keys@);
                let j = t.index_of(n);
                assert(0 <= j < t.len() && t[j] == n);
                assert(roots.keys@[j]@ == n);
                roots.lemma_entry(j);
                assert(root_part.contains(s));
            }
        }
        assert(full =~= root_part.union(edge_part));
    }
    r
}

/// The package name of a resolution `name@version` (scoped names keep their `@`).
pub open spec fn resolution_name(r: Seq<char>) -> Seq<char> {
    if starts_with(r, "@"@) {
        match crate::text::find_char(r, '/') {
            Some(slash) => match crate::text::find_char(r.skip(slash + 1), '@') {
                Some(i) => r.take(slash + 1 + i),
                None => r,
            },
            None => r,
        }
    } else {
        match crate::text::rfind_char(r, '@') {
            Some(sep) => r.take(sep),
            None => r,
        }
    }
}

pub fn resolution_name_exec(r: &[char]) -> (n: Vec<char>)
    ensures
        n@ == resolution_name(r@),
{
    proof {
        reveal_strlit("@");
        crate::text::lemma_find_char_bounds(r@, '/');
        crate::text::lemma_rfind_char_bounds(r@, '@');
    }
    if str_starts_with(r, "@") {
        match crate::text::find_char_exec(r, '/') {
            Some(slash) => {
                let rest = slice_of(r, slash + 1, r.len());
                assert(rest@ =~= r@.skip(slash + 1));
                proof {
                    crate::text::lemma_find_char_bounds(rest@, '@');
                }
                match crate::text::find_char_exec(&rest, '@') {
                    Some(i) => {
                        let n = slice_of(r, 0, slash + 1 + i);
                        assert(n@ =~= r@.take(slash + 1 + i));
                        n
                    },
                    None => slice_of(r, 0, r.len()),
                }
            },
            None => slice_of(r, 0, r.len()),
        }
    } else {
        match crate::text::rfind_char_exec(r, '@') {
            Some(sep) => {
                let n = slice_of(r, 0, sep);
                assert(n@ =~= r@.take(sep as int));
                n
            },
            None => slice_of(r, 0, r.len()),
        }
    }
}

} // verus!
