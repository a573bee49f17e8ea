//! Texts kept as strictly increasing sequences: the library's ordered sets.
use vstd::prelude::*;
use crate::text::{
    chars_lt, chars_eq, lemma_seq_lt_asymmetric, lemma_seq_lt_irreflexive, lemma_seq_lt_total,
    lemma_seq_lt_transitive, lemma_texts_push, seq_lt, strictly_sorted, texts,
};

verus! {

/// `v` lists the members of `s` in increasing order, each once.
pub open spec fn lists_sorted(v: Seq<Seq<char>>, s: Set<Seq<char>>) -> bool {
    strictly_sorted(v) && v.to_set() == s
}

/// The increasing list of the members of a finite set of texts.
pub open spec fn sorted_set(s: Set<Seq<char>>) -> Seq<Seq<char>> {
    choose|v: Seq<Seq<char>>| lists_sorted(v, s)
}

/// A strictly increasing list is determined by its members.
pub proof fn lemma_sorted_unique(a: Seq<Seq<char>>, b: Seq<Seq<char>>)
    requires
        strictly_sorted(a),
        strictly_sorted(b),
        a.to_set() == b.to_set(),
    ensures
        a == b,
    decreases a.len(),
{
    if a.len() == 0 {
        if b.len() > 0 {
            assert(b.to_set().contains(b[0]));
        }
        assert(b.len() == 0);
    } else {
        assert(a.to_set().contains(a[0]));
        assert(b.len() > 0);
        assert(b.to_set().contains(b[0]));
        let i = choose|i: int| 0 <= i < b.len() && b[i] == a[0];
        let j = choose|j: int| 0 <= j < a.len() && a[j] == b[0];
        if i > 0 {
            assert(seq_lt(b[0], b[i]));
            if j > 0 {
                assert(seq_lt(a[0], a[j]));
                lemma_seq_lt_asymmetric(a[0], b[0]);
            } else {
                lemma_seq_lt_irreflexive(b[0]);
            }
        }
        assert(a[0] == b[0]);
        let a1 = a.drop_first();
        let b1 = b.drop_first();
        assert forall|x: Seq<char>| a1.to_set().contains(x) <==> b1.to_set().contains(x) by {
            if a1.to_set().contains(x) {
                let k = choose|k: int| 0 <= k < a1.len() && a1[k] == x;
                assert(seq_lt(a[0], a[k + 1]));
                assert(a.to_set().contains(x));
                assert(b.to_set().contains(x));
                let m = choose|m: int| 0 <= m < b.len() && b[m] == x;
                if m == 0 {
                    lemma_seq_lt_irreflexive(x);
                }
                assert(b1[m - 1] == x);
            }
            if b1.to_set().contains(x) {
                let k = choose|k: int| 0 <= k < b1.len() && b1[k] == x;
                assert(seq_lt(b[0], b[k + 1]));
                assert(b.to_set().contains(x));
                assert(a.to_set().contains(x));
                let m = choose|m: int| 0 <= m < a.len() && a[m] == x;
                if m == 0 {
                    lemma_seq_lt_irreflexive(x);
                }
                assert(a1[m - 1] == x);
            }
        }
        assert(a1.to_set() =~= b1.to_set());
        lemma_sorted_unique(a1, b1);
        assert(a =~= seq![a[0]] + a1);
        assert(b =~= seq![b[0]] + b1);
    }
}

/// Whether `v` holds the text `x`.
pub fn contains_chars(v: &[Vec<char>], x: &[char]) -> (r: bool)
    ensures
        r == texts(v@).contains(x@),
{
    let mut i: usize = 0;
    while i < v.len()
        invariant
            i <= v.len(),
            forall|j: int| 0 <= j < i ==> texts(v@)[j] != x@,
        decreases v.len() - i,
    {
        if chars_eq(&v[i], x) {
            assert(texts(v@)[i as int] == x@);
            return true;
        }
        i = i + 1;
    }
    false
}

/// Adds `x` to the strictly increasing list `v`.
pub fn insert_sorted(v: &mut Vec<Vec<char>>, x: Vec<char>)
    requires
        strictly_sorted(texts(old(v)@)),
    ensures
        strictly_sorted(texts(final(v)@)),
        texts(final(v)@).to_set() == texts(old(v)@).to_set().insert(x@),
{
    let ghost ov = texts(v@);
    let mut j: usize = 0;
    while j < v.len() && chars_lt(&v[j], &x)
        invariant
            j <= v.len(),
            ov == texts(v@),
            forall|k: int| 0 <= k < j ==> seq_lt(#[trigger] ov[k], x@),
        decreases v.len() - j,
    {
        j = j + 1;
    }
    if j < v.len() && chars_eq(&v[j], &x) {
        assert(ov[j as int] == x@);
        assert(ov.to_set().contains(x@));
        assert(ov.to_set().insert(x@) =~= ov.to_set());
        return;
    }
    proof {
        if j < ov.len() {
            lemma_seq_lt_total(ov[j as int], x@);
        }
    }
    v.insert(j, x);
    proof {
        let nv = texts(v@);
        assert(nv =~= ov.insert(j as int, x@));
        assert forall|a: int, b: int| 0 <= a < b < nv.len() implies seq_lt(
            #[trigger] nv[a],
            #[trigger] nv[b],
        ) by {
            if b < j {
            } else if b == j {
                assert(nv[a] == ov[a]);
            } else if a == j {
                assert(nv[b] == ov[b - 1]);
                if b - 1 > j {
                    assert(seq_lt(ov[j as int], ov[b - 1]));
                    lemma_seq_lt_transitive(x@, ov[j as int], ov[b - 1]);
                }
            } else if a < j {
                assert(nv[b] == ov[b - 1]);
                assert(nv[a] == ov[a]);
            } else {
                assert(nv[a] == ov[a - 1]);
                assert(nv[b] == ov[b - 1]);
            }
        }
        assert forall|y: Seq<char>| nv.to_set().contains(y) <==> ov.to_set().insert(x@).contains(y) by {
            if nv.to_set().contains(y) {
                let k = choose|k: int| 0 <= k < nv.len() && nv[k] == y;
                if k < j {
                    assert(ov[k] == y);
                } else if k > j {
                    assert(ov[k - 1] == y);
                }
            }
            if ov.to_set().contains(y) {
                let k = choose|k: int| 0 <= k < ov.len() && ov[k] == y;
                if k < j {
                    assert(nv[k] == y);
                } else {
                    assert(nv[k + 1] == y);
                }
            }
            if y == x@ {
                assert(nv[j as int] == y);
            }
        }
        assert(nv.to_set() =~= ov.to_set().insert(x@));
    }
}

/// The strings of a strictly increasing list of texts `v` that lists `s`, as
/// `sorted_set(s)`.
pub(crate) fn sorted_strings(v: &Vec<Vec<char>>, s: Ghost<Set<Seq<char>>>) -> (r: Vec<String>)
    requires
        lists_sorted(texts(v@), s@),
    ensures
        crate::text::strs(r@) == sorted_set(s@),
{
    let r = crate::text::strings_of(v);
    proof {
        let w = sorted_set(s@);
        assert(lists_sorted(w, s@));
        lemma_sorted_unique(w, texts(v@));
    }
    r
}

/// The members of `items`, in increasing order, each once.
pub fn sorted_unique(items: &[Vec<char>]) -> (r: Vec<Vec<char>>)
    ensures
        lists_sorted(texts(r@), texts(items@).to_set()),
{
    let mut r: Vec<Vec<char>> = Vec::new();
    let mut i: usize = 0;
    while i < items.len()
        invariant
            i <= items.len(),
            strictly_sorted(texts(r@)),
            texts(r@).to_set() == texts(items@).take(i as int).to_set(),
        decreases items.len() - i,
    {
        let x = crate::text::slice_of(&items[i], 0, items[i].len());
        assert(x@ =~= items@[i as int]@);
        assert(texts(items@)[i as int] == x@);
        insert_sorted(&mut r, x);
        proof {
            assert(texts(items@).take(i + 1) =~= texts(items@).take(i as int).push(x@));
            texts(items@).take(i as int).lemma_push_to_set_commute(x@);
        }
        i = i + 1;
    }
    assert(texts(items@).take(items.len() as int) =~= texts(items@));
    r
}

/// A strictly increasing list has as many members as entries.
pub proof fn lemma_sorted_len(v: Seq<Seq<char>>)
    requires
        strictly_sorted(v),
    ensures
        v.to_set().len() == v.len(),
{
    assert forall|i: int, j: int| 0 <= i < v.len() && 0 <= j < v.len() && i != j implies v[i] != v[j] by {
        if i < j {
            assert(seq_lt(v[i], v[j]));
            lemma_seq_lt_irreflexive(v[i]);
        } else {
            assert(seq_lt(v[j], v[i]));
            lemma_seq_lt_irreflexive(v[j]);
        }
    }
    assert(v.no_duplicates());
    v.unique_seq_to_set();
}

/// Lexicographic order of lists of texts (the order of `Vec<String>`'s
/// `Ord`, and of tuples of texts written as lists).
pub open spec fn list_lt(a: Seq<Seq<char>>, b: Seq<Seq<char>>) -> bool
    decreases a.len(),
{
    if a.len() == 0 {
        b.len() > 0
    } else if b.len() == 0 {
        false
    } else if a[0] != b[0] {
        seq_lt(a[0], b[0])
    } else {
        list_lt(a.drop_first(), b.drop_first())
    }
}

pub proof fn lemma_list_lt_irreflexive(a: Seq<Seq<char>>)
    ensures
        !list_lt(a, a),
    decreases a.len(),
{
    if a.len() > 0 {
        lemma_list_lt_irreflexive(a.drop_first());
    }
}

pub proof fn lemma_list_lt_transitive(a: Seq<Seq<char>>, b: Seq<Seq<char>>, c: Seq<Seq<char>>)
    requires
        list_lt(a, b),
        list_lt(b, c),
    ensures
        list_lt(a, c),
    decreases a.len(),
{
    if a.len() > 0 && b.len() > 0 && c.len() > 0 {
        if a[0] == b[0] && b[0] == c[0] {
            lemma_list_lt_transitive(a.drop_first(), b.drop_first(), c.drop_first());
        } else if a[0] != b[0] && b[0] != c[0] {
            lemma_seq_lt_transitive(a[0], b[0], c[0]);
            lemma_seq_lt_asymmetric(a[0], c[0]);
        } else if a[0] != b[0] {
            lemma_seq_lt_asymmetric(a[0], b[0]);
        } else {
            lemma_seq_lt_asymmetric(b[0], c[0]);
        }
    }
}

pub proof fn lemma_list_lt_total(a: Seq<Seq<char>>, b: Seq<Seq<char>>)
    ensures
        list_lt(a, b) || list_lt(b, a) || a =~= b,
    decreases a.len(),
{
    if a.len() > 0 && b.len() > 0 {
        if a[0] == b[0] {
            lemma_list_lt_total(a.drop_first(), b.drop_first());
            if a.drop_first() =~= b.drop_first() {
                assert(a =~= seq![a[0]] + a.drop_first());
                assert(b =~= seq![b[0]] + b.drop_first());
            }
        } else {
            lemma_seq_lt_total(a[0], b[0]);
        }
    }
}

pub proof fn lemma_list_lt_asymmetric(a: Seq<Seq<char>>, b: Seq<Seq<char>>)
    requires
        list_lt(a, b),
    ensures
        !list_lt(b, a),
        a != b,
{
    lemma_list_lt_irreflexive(a);
    if list_lt(b, a) {
        lemma_list_lt_transitive(a, b, a);
    }
}

/// A list of text lists in strictly increasing order.
pub open spec fn lists_strictly_sorted(s: Seq<Seq<Seq<char>>>) -> bool {
    forall|i: int, j: int| 0 <= i < j < s.len() ==> list_lt(#[trigger] s[i], #[trigger] s[j])
}

/// `v` lists the members of `s` in increasing order, each once.
pub open spec fn lists_listed(v: Seq<Seq<Seq<char>>>, s: Set<Seq<Seq<char>>>) -> bool {
    lists_strictly_sorted(v) && v.to_set() == s
}

/// The increasing list of the members of a finite set of text lists.
pub open spec fn sorted_list_set(s: Set<Seq<Seq<char>>>) -> Seq<Seq<Seq<char>>> {
    choose|v: Seq<Seq<Seq<char>>>| lists_listed(v, s)
}

/// A strictly increasing list of text lists is determined by its members.
pub proof fn lemma_lists_sorted_unique(a: Seq<Seq<Seq<char>>>, b: Seq<Seq<Seq<char>>>)
    requires
        lists_strictly_sorted(a),
        lists_strictly_sorted(b),
        a.to_set() == b.to_set(),
    ensures
        a == b,
    decreases a.len(),
{
    if a.len() == 0 {
        if b.len() > 0 {
            assert(b.to_set().contains(b[0]));
        }
        assert(b.len() == 0);
    } else {
        assert(a.to_set().contains(a[0]));
        assert(b.len() > 0);
        assert(b.to_set().contains(b[0]));
        let i = choose|i: int| 0 <= i < b.len() && b[i] == a[0];
        let j = choose|j: int| 0 <= j < a.len() && a[j] == b[0];
        if i > 0 {
            assert(list_lt(b[0], b[i]));
            if j > 0 {
                assert(list_lt(a[0], a[j]));
                lemma_list_lt_asymmetric(a[0], b[0]);
            } else {
                lemma_list_lt_irreflexive(b[0]);
            }
        }
        assert(a[0] == b[0]);
        let a1 = a.drop_first();
        let b1 = b.drop_first();
        assert forall|x: Seq<Seq<char>>| a1.to_set().contains(x) <==> b1.to_set().contains(x) by {
            if a1.to_set().contains(x) {
                let k = choose|k: int| 0 <= k < a1.len() && a1[k] == x;
                assert(list_lt(a[0], a[k + 1]));
                assert(a.to_set().contains(x));
                assert(b.to_set().contains(x));
                let m = choose|m: int| 0 <= m < b.len() && b[m] == x;
                if m == 0 {
                    lemma_list_lt_irreflexive(x);
                }
                assert(b1[m - 1] == x);
            }
            if b1.to_set().contains(x) {
                let k = choose|k: int| 0 <= k < b1.len() && b1[k] == x;
                assert(list_lt(b[0], b[k + 1]));
                assert(b.to_set().contains(x));
                assert(a.to_set().contains(x));
                let m = choose|m: int| 0 <= m < a.len() && a[m] == x;
                if m == 0 {
                    lemma_list_lt_irreflexive(x);
                }
                assert(a1[m - 1] == x);
            }
        }
        assert(a1.to_set() =~= b1.to_set());
        lemma_lists_sorted_unique(a1, b1);
        assert(a =~= seq![a[0]] + a1);
        assert(b =~= seq![b[0]] + b1);
    }
}

/// Whether `a` comes before `b`.
pub fn list_lt_exec(a: &[Vec<char>], b: &[Vec<char>]) -> (r: bool)
    ensures
        r == list_lt(texts(a@), texts(b@)),
{
    let ghost ta = texts(a@);
    let ghost tb = texts(b@);
    assert(ta.skip(0) =~= ta);
    assert(tb.skip(0) =~= tb);
    let mut i: usize = 0;
    while i < a.len() && i < b.len()
        invariant
            i <= a.len(),
            i <= b.len(),
            ta == texts(a@),
            tb == texts(b@),
            list_lt(ta, tb) == list_lt(ta.skip(i as int), tb.skip(i as int)),
        decreases a.len() - i,
    {
        assert(ta.skip(i as int)[0] == ta[i as int]);
        assert(tb.skip(i as int)[0] == tb[i as int]);
        assert(ta.skip(i as int).drop_first() =~= ta.skip(i + 1));
        assert(tb.skip(i as int).drop_first() =~= tb.skip(i + 1));
        if !chars_eq(&a[i], &b[i]) {
            return chars_lt(&a[i], &b[i]);
        }
        i = i + 1;
    }
    i < b.len()
}

/// Whether two text lists are equal.
pub fn lists_eq_exec(a: &[Vec<char>], b: &[Vec<char>]) -> (r: bool)
    ensures
        r == (texts(a@) == texts(b@)),
{
    if a.len() != b.len() {
        assert(texts(a@).len() != texts(b@).len());
        return false;
    }
    let mut i: usize = 0;
    while i < a.len()
        invariant
            i <= a.len() == b.len(),
            forall|j: int| 0 <= j < i ==> texts(a@)[j] == texts(b@)[j],
        decreases a.len() - i,
    {
        if !chars_eq(&a[i], &b[i]) {
            assert(texts(a@)[i as int] != texts(b@)[i as int]);
            return false;
        }
        i = i + 1;
    }
    assert(texts(a@) =~= texts(b@));
    true
}

pub open spec fn list_texts(v: Seq<Vec<Vec<char>>>) -> Seq<Seq<Seq<char>>> {
    v.map_values(|x: Vec<Vec<char>>| texts(x@))
}

/// Adds `x` to the strictly increasing list `v`.
pub fn insert_sorted_list(v: &mut Vec<Vec<Vec<char>>>, x: Vec<Vec<char>>)
    requires
        lists_strictly_sorted(list_texts(old(v)@)),
    ensures
        lists_strictly_sorted(list_texts(final(v)@)),
        list_texts(final(v)@).to_set() == list_texts(old(v)@).to_set().insert(texts(x@)),
{
    let ghost ov = list_texts(v@);
    let ghost xv = texts(x@);
    let mut j: usize = 0;
    while j < v.len() && list_lt_exec(&v[j], &x)
        invariant
            j <= v.len(),
            ov == list_texts(v@),
            xv == texts(x@),
            forall|k: int| 0 <= k < j ==> list_lt(#[trigger] ov[k], xv),
        decreases v.len() - j,
    {
        j = j + 1;
    }
    if j < v.len() && lists_eq_exec(&v[j], &x) {
        assert(ov[j as int] == xv);
        assert(ov.to_set().contains(xv));
        assert(ov.to_set().insert(xv) =~= ov.to_set());
        return;
    }
    proof {
        if j < ov.len() {
            lemma_list_lt_total(ov[j as int], xv);
        }
    }
    v.insert(j, x);
    proof {
        let nv = list_texts(v@);
        assert(nv =~= ov.insert(j as int, xv));
        assert forall|a: int, b: int| 0 <= a < b < nv.len() implies list_lt(#[trigger] nv[a], #[trigger] nv[b]) by {
            if b < j {
            } else if b == j {
                assert(nv[a] == ov[a]);
            } else if a == j {
                assert(nv[b] == ov[b - 1]);
                if b - 1 > j {
                    assert(list_lt(ov[j as int], ov[b - 1]));
                    lemma_list_lt_transitive(xv, ov[j as int], ov[b - 1]);
                }
            } else if a < j {
                assert(nv[b] == ov[b - 1]);
                assert(nv[a] == ov[a]);
            } else {
                assert(nv[a] == ov[a - 1]);
                assert(nv[b] == ov[b - 1]);
            }
        }
        assert forall|y: Seq<Seq<char>>| nv.to_set().contains(y) <==> ov.to_set().insert(xv).contains(y) by {
            if nv.to_set().contains(y) {
                let k = choose|k: int| 0 <= k < nv.len() && nv[k] == y;
                if k < j {
                    assert(ov[k] == y);
                } else if k > j {
                    assert(ov[k - 1] == y);
                }
            }
            if ov.to_set().contains(y) {
                let k = choose|k: int| 0 <= k < ov.len() && ov[k] == y;
                if k < j {
                    assert(nv[k] == y);
                } else {
                    assert(nv[k + 1] == y);
                }
            }
            if y == xv {
                assert(nv[j as int] == y);
            }
        }
        assert(nv.to_set() =~= ov.to_set().insert(xv));
    }
}

/// The string lists of a strictly increasing list of text lists `v` that
/// lists `s`, as `sorted_list_set(s)`.
pub(crate) fn sorted_list_strings(v: &Vec<Vec<Vec<char>>>, s: Ghost<Set<Seq<Seq<char>>>>) -> (r: Vec<Vec<String>>)
    requires
        lists_listed(list_texts(v@), s@),
    ensures
        r@.map_values(|x: Vec<String>| crate::text::strs(x@)) == sorted_list_set(s@),
{
    let mut r: Vec<Vec<String>> = Vec::new();
    let mut i: usize = 0;
    while i < v.len()
        invariant
            i <= v.len(),
            r@.map_values(|x: Vec<String>| crate::text::strs(x@)) == list_texts(v@).take(i as int),
        decreases v.len() - i,
    {
        let x = crate::text::strings_of(&v[i]);
        let ghost before = r@;
        r.push(x);
        assert(r@.map_values(|x: Vec<String>| crate::text::strs(x@)) =~= before.map_values(
            |x: Vec<String>| crate::text::strs(x@),
        ).push(crate::text::strs(x@)));
        assert(list_texts(v@).take(i + 1) =~= list_texts(v@).take(i as int).push(texts(v@[i as int]@)));
        i = i + 1;
    }
    assert(list_texts(v@).take(v.len() as int) =~= list_texts(v@));
    proof {
        let w = sorted_list_set(s@);
        assert(lists_listed(w, s@));
        lemma_lists_sorted_unique(w, list_texts(v@));
    }
    r
}

} // verus!
