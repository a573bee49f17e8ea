//! Pieces of lockfile reading that interpret package locators and paths.
use vstd::prelude::*;
use crate::text::{
    chars_of, contains_seq, find_char, find_char_exec, lemma_find_char_bounds, rfind_char,
    rfind_char_exec, slice_of, starts_with, str_contains, str_starts_with, strip_prefix, trim,
    trim_bounds,
};

verus! {

pub open spec fn is_quote(c: char) -> bool {
    c == '\'' || c == '"'
}

/// `s` without its leading characters that satisfy `f`.
pub open spec fn strip_start_while(s: Seq<char>, f: spec_fn(char) -> bool) -> Seq<char>
    decreases s.len(),
{
    if s.len() > 0 && f(s[0]) {
        strip_start_while(s.drop_first(), f)
    } else {
        s
    }
}

/// `s` without its trailing characters that satisfy `f`.
pub open spec fn strip_end_while(s: Seq<char>, f: spec_fn(char) -> bool) -> Seq<char>
    decreases s.len(),
{
    if s.len() > 0 && f(s.last()) {
        strip_end_while(s.drop_last(), f)
    } else {
        s
    }
}

/// `str::trim_matches` with quote characters.
pub open spec fn trim_quotes(s: Seq<char>) -> Seq<char> {
    strip_end_while(strip_start_while(s, |c: char| is_quote(c)), |c: char| is_quote(c))
}

/// The locator without surrounding whitespace and quotes and without leading slashes.
pub open spec fn clean_locator(raw: Seq<char>) -> Seq<char> {
    strip_start_while(trim_quotes(trim(raw)), |c: char| c == '/')
}

/// Index of the `@` that separates a locator's name from its version.
pub open spec fn locator_separator(l: Seq<char>) -> Option<int> {
    if starts_with(l, "@"@) {
        match find_char(l, '/') {
            None => None,
            Some(slash) => match find_char(l.skip(slash + 1), '@') {
                None => None,
                Some(i) => Some(slash + 1 + i),
            },
        }
    } else {
        rfind_char(l, '@')
    }
}

/// The version text of a locator: without an `npm:` prefix, cut at the first
/// `(` and without surrounding quotes.
pub open spec fn locator_version(raw: Seq<char>) -> Seq<char> {
    let v0 = match strip_prefix(raw, "npm:"@) {
        Some(v) => v,
        None => raw,
    };
    let v1 = match find_char(v0, '(') {
        Some(i) => v0.take(i),
        None => v0,
    };
    trim_quotes(v1)
}

/// The package name and version named by a lockfile locator such as
/// `name@1.2.3` or `@scope/name@npm:1.2.3(peer)`, when it names a registry
/// package.
pub open spec fn split_locator_spec(raw: Seq<char>) -> Option<(Seq<char>, Seq<char>)> {
    let l = clean_locator(raw);
    if l.len() == 0 || contains_seq(l, "workspace:"@) || contains_seq(l, "file:"@) || contains_seq(
        l,
        "link:"@,
    ) {
        None
    } else {
        match locator_separator(l) {
            None => None,
            Some(sep) => if sep == 0 || sep + 1 >= l.len() {
                None
            } else {
                let name = l.take(sep);
                let version = locator_version(l.skip(sep + 1));
                if name.len() == 0 || version.len() == 0 || starts_with(version, "git+"@)
                    || starts_with(version, "http:"@) || starts_with(version, "https:"@) {
                    None
                } else {
                    Some((name, version))
                }
            },
        }
    }
}

fn strip_quotes_bounds(s: &[char], from: usize, to: usize) -> (r: (usize, usize))
    requires
        from <= to <= s.len(),
    ensures
        from <= r.0 <= r.1 <= to,
        s@.subrange(r.0 as int, r.1 as int) == trim_quotes(s@.subrange(from as int, to as int)),
{
    let mut a = from;
    while a < to && (s[a] == '\'' || s[a] == '"')
        invariant
            from <= a <= to <= s.len(),
            strip_start_while(s@.subrange(from as int, to as int), |c: char| is_quote(c))
                == strip_start_while(s@.subrange(a as int, to as int), |c: char| is_quote(c)),
        decreases to - a,
    {
        assert(s@.subrange(a as int, to as int).drop_first() =~= s@.subrange(a + 1, to as int));
        a = a + 1;
    }
    assert(strip_start_while(s@.subrange(a as int, to as int), |c: char| is_quote(c))
        == s@.subrange(a as int, to as int));
    let mut b = to;
    while b > a && (s[b - 1] == '\'' || s[b - 1] == '"')
        invariant
            a <= b <= to <= s.len(),
            strip_end_while(s@.subrange(a as int, to as int), |c: char| is_quote(c))
                == strip_end_while(s@.subrange(a as int, b as int), |c: char| is_quote(c)),
        decreases b - a,
    {
        assert(s@.subrange(a as int, b as int).drop_last() =~= s@.subrange(a as int, b - 1));
        b = b - 1;
    }
    assert(strip_end_while(s@.subrange(a as int, b as int), |c: char| is_quote(c))
        == s@.subrange(a as int, b as int));
    (a, b)
}

/// The separator position of a locator, as `locator_separator` states.
pub fn locator_separator_exec(l: &[char]) -> (r: Option<usize>)
    ensures
        match r {
            Some(i) => locator_separator(l@) == Some(i as int) && i <= l@.len(),
            None => locator_separator(l@) is None,
        },
{
    proof {
        reveal_strlit("@");
    }
    if str_starts_with(l, "@") {
        proof {
            lemma_find_char_bounds(l@, '/');
        }
        let slash = match find_char_exec(l, '/') {
            Some(s) => s,
            None => {
                return None;
            },
        };
        let rest = slice_of(l, slash + 1, l.len());
        assert(rest@ =~= l@.skip(slash + 1));
        proof {
            lemma_find_char_bounds(rest@, '@');
        }
        match find_char_exec(&rest, '@') {
            Some(i) => Some(slash + 1 + i),
            None => None,
        }
    } else {
        proof {
            crate::text::lemma_rfind_char_bounds(l@, '@');
        }
        rfind_char_exec(l, '@')
    }
}

/// `s` without surrounding quotes.
pub fn trim_quotes_exec(s: &[char]) -> (r: Vec<char>)
    ensures
        r@ == trim_quotes(s@),
{
    let (a, b) = strip_quotes_bounds(s, 0, s.len());
    assert(s@.subrange(0, s@.len() as int) =~= s@);
    slice_of(s, a, b)
}

/// The name and version of a registry package locator.
pub fn split_locator(raw: &[char]) -> (r: Option<(Vec<char>, Vec<char>)>)
    ensures
        r matches Some(p) ==> split_locator_spec(raw@) == Some((p.0@, p.1@)),
        r is None ==> split_locator_spec(raw@) is None,
{
    proof {
        reveal_strlit("@");
        reveal_strlit("npm:");
    }
    let (a0, b0) = trim_bounds(raw, 0, raw.len());
    assert(raw@.subrange(0, raw@.len() as int) =~= raw@);
    let (a1, b1) = strip_quotes_bounds(raw, a0, b0);
    let mut a2 = a1;
    while a2 < b1 && raw[a2] == '/'
        invariant
            a1 <= a2 <= b1 <= raw.len(),
            strip_start_while(raw@.subrange(a1 as int, b1 as int), |c: char| c == '/')
                == strip_start_while(raw@.subrange(a2 as int, b1 as int), |c: char| c == '/'),
        decreases b1 - a2,
    {
        assert(raw@.subrange(a2 as int, b1 as int).drop_first() =~= raw@.subrange(a2 + 1, b1 as int));
        a2 = a2 + 1;
    }
    let l = slice_of(raw, a2, b1);
    assert(strip_start_while(raw@.subrange(a2 as int, b1 as int), |c: char| c == '/') == l@);
    assert(l@ == clean_locator(raw@));
    if l.len() == 0 || str_contains(&l, "workspace:") || str_contains(&l, "file:") || str_contains(
        &l,
        "link:",
    ) {
        return None;
    }
    let sep = if str_starts_with(&l, "@") {
        proof {
            lemma_find_char_bounds(l@, '/');
        }
        let slash = match find_char_exec(&l, '/') {
            Some(s) => s,
            None => {
                return None;
            },
        };
        let rest = slice_of(&l, slash + 1, l.len());
        assert(rest@ =~= l@.skip(slash + 1));
        proof {
            lemma_find_char_bounds(rest@, '@');
        }
        match find_char_exec(&rest, '@') {
            Some(i) => slash + 1 + i,
            None => {
                return None;
            },
        }
    } else {
        proof {
            crate::text::lemma_rfind_char_bounds(l@, '@');
        }
        match rfind_char_exec(&l, '@') {
            Some(i) => i,
            None => {
                return None;
            },
        }
    };
    assert(locator_separator(l@) == Some(sep as int));
    if sep == 0 || sep + 1 >= l.len() {
        return None;
    }
    let name = slice_of(&l, 0, sep);
    assert(name@ =~= l@.take(sep as int));
    let raw_version = slice_of(&l, sep + 1, l.len());
    assert(raw_version@ =~= l@.skip(sep + 1));
    let v0start: usize = if str_starts_with(&raw_version, "npm:") {
        4
    } else {
        0
    };
    let v0 = slice_of(&raw_version, v0start, raw_version.len());
    assert(v0@ =~= (match strip_prefix(raw_version@, "npm:"@) {
        Some(v) => v,
        None => raw_version@,
    }));
    proof {
        lemma_find_char_bounds(v0@, '(');
    }
    let cut = match find_char_exec(&v0, '(') {
        Some(i) => i,
        None => v0.len(),
    };
    assert(v0@.subrange(0, cut as int) =~= (match find_char(v0@, '(') {
        Some(i) => v0@.take(i),
        None => v0@,
    }));
    let (va, vb) = strip_quotes_bounds(&v0, 0, cut);
    let version = slice_of(&v0, va, vb);
    if name.len() == 0 || version.len() == 0 || str_starts_with(&version, "git+")
        || str_starts_with(&version, "http:") || str_starts_with(&version, "https:") {
        return None;
    }
    Some((name, version))
}

} // verus!
