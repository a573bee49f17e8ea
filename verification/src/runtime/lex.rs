//! A small JavaScript/TypeScript lexer that tells code apart from string
//! literals and comments.  Positions are character positions.
use vstd::prelude::*;

use crate::text::{chars_of, find_from, first_match_from, matches_at, string_of};

verus! {

/// What the lexer is currently reading.
#[derive(PartialEq, Eq, Structural, Clone, Copy, Debug)]
pub enum LexMode {
    Code,
    SingleQuote,
    DoubleQuote,
    Template,
    LineComment,
    BlockComment,
}

/// The lexer's state before a position: its mode, whether the previous
/// character was an unconsumed backslash, and the brace depth of each open
/// template expression.
pub struct LexState {
    pub mode: LexMode,
    pub escaped: bool,
    pub depths: Seq<usize>,
}

pub open spec fn initial_state() -> LexState {
    LexState { mode: LexMode::Code, escaped: false, depths: seq![] }
}

pub open spec fn next_is(s: Seq<char>, i: int, c: char) -> bool {
    i + 1 < s.len() && s[i + 1] == c
}

/// One lexer step at position `i`: the state after it, whether position `i`
/// is code, and whether position `i + 1` is consumed by the same step (its
/// mask entry then being `false`).
pub open spec fn lex_step(s: Seq<char>, i: int, st: LexState) -> (LexState, bool, bool) {
    let c = s[i];
    match st.mode {
        LexMode::Code => {
            if c == '\'' {
                (LexState { mode: LexMode::SingleQuote, ..st }, false, false)
            } else if c == '"' {
                (LexState { mode: LexMode::DoubleQuote, ..st }, false, false)
            } else if c == '`' {
                (LexState { mode: LexMode::Template, ..st }, false, false)
            } else if c == '/' && next_is(s, i, '/') {
                (LexState { mode: LexMode::LineComment, ..st }, false, false)
            } else if c == '/' && next_is(s, i, '*') {
                (LexState { mode: LexMode::BlockComment, ..st }, false, false)
            } else if c == '{' && st.depths.len() > 0 {
                let d = st.depths.last();
                (
                    LexState { depths: st.depths.drop_last().push((d + 1) as usize), ..st },
                    true,
                    false,
                )
            } else if c == '}' && st.depths.len() > 0 {
                let d = (st.depths.last() - 1) as usize;
                if d == 0 {
                    (
                        LexState { mode: LexMode::Template, depths: st.depths.drop_last(), ..st },
                        false,
                        false,
                    )
                } else {
                    (LexState { depths: st.depths.drop_last().push(d), ..st }, true, false)
                }
            } else {
                (st, true, false)
            }
        },
        LexMode::SingleQuote | LexMode::DoubleQuote => {
            let quote = if st.mode == LexMode::SingleQuote {
                '\''
            } else {
                '"'
            };
            if st.escaped {
                (LexState { escaped: false, ..st }, false, false)
            } else if c == '\\' {
                (LexState { escaped: true, ..st }, false, false)
            } else if c == quote {
                (LexState { mode: LexMode::Code, ..st }, false, false)
            } else {
                (st, false, false)
            }
        },
        LexMode::Template => {
            if st.escaped {
                (LexState { escaped: false, ..st }, false, false)
            } else if c == '\\' {
                (LexState { escaped: true, ..st }, false, false)
            } else if c == '`' {
                (LexState { mode: LexMode::Code, ..st }, false, false)
            } else if c == '$' && next_is(s, i, '{') {
                (
                    LexState { mode: LexMode::Code, depths: st.depths.push(1usize), ..st },
                    false,
                    true,
                )
            } else {
                (st, false, false)
            }
        },
        LexMode::LineComment => {
            if c == '\n' {
                (LexState { mode: LexMode::Code, ..st }, true, false)
            } else {
                (st, false, false)
            }
        },
        LexMode::BlockComment => {
            if c == '*' && next_is(s, i, '/') {
                (LexState { mode: LexMode::Code, ..st }, false, true)
            } else {
                (st, false, false)
            }
        },
    }
}

/// The code mask of `s` from position `i` on, starting in state `st`.
pub open spec fn mask_from(s: Seq<char>, i: int, st: LexState) -> Seq<bool>
    decreases s.len() - i,
{
    if i < 0 || i >= s.len() {
        seq![]
    } else {
        let (next, m, skip) = lex_step(s, i, st);
        if skip {
            seq![m, false] + mask_from(s, i + 2, next)
        } else {
            seq![m] + mask_from(s, i + 1, next)
        }
    }
}

/// For each position of `s`, whether it is code (outside string literals,
/// template text and comments; template expressions count as code).
pub open spec fn code_mask_spec(s: Seq<char>) -> Seq<bool> {
    mask_from(s, 0, initial_state())
}

/// Start positions of the non-overlapping occurrences of `p` in `s` found
/// scanning left to right from `from` (`str::match_indices`); an empty `p`
/// occurs at every position up to and including the end.
pub open spec fn match_positions(s: Seq<char>, p: Seq<char>, from: int) -> Seq<int>
    decreases s.len() + 1 - from,
{
    if from < 0 || from > s.len() {
        seq![]
    } else if p.len() == 0 {
        seq![from] + match_positions(s, p, from + 1)
    } else if exists|i: int| first_match_from(s, p, from, i) {
        let i = choose|i: int| first_match_from(s, p, from, i);
        seq![i] + match_positions(s, p, i + p.len())
    } else {
        seq![]
    }
}

/// Positions of the code occurrences of `p` in `s`.
pub open spec fn code_occurrences_spec(s: Seq<char>, p: Seq<char>) -> Seq<int> {
    let mask = code_mask_spec(s);
    match_positions(s, p, 0).filter(|i: int| 0 <= i < mask.len() && mask[i])
}

/// The characters of `s` from `i` on, with comments blanked out, starting in
/// `mode` with the backslash flag `escaped`.
pub open spec fn blank_from(s: Seq<char>, i: int, mode: LexMode, escaped: bool) -> Seq<char>
    decreases s.len() - i,
{
    if i < 0 || i >= s.len() {
        seq![]
    } else {
        let c = s[i];
        match mode {
            LexMode::Code => {
                if c == '\'' {
                    seq![c] + blank_from(s, i + 1, LexMode::SingleQuote, escaped)
                } else if c == '"' {
                    seq![c] + blank_from(s, i + 1, LexMode::DoubleQuote, escaped)
                } else if c == '`' {
                    seq![c] + blank_from(s, i + 1, LexMode::Template, escaped)
                } else if c == '/' && next_is(s, i, '/') {
                    seq![' '] + blank_from(s, i + 1, LexMode::LineComment, escaped)
                } else if c == '/' && next_is(s, i, '*') {
                    seq![' '] + blank_from(s, i + 1, LexMode::BlockComment, escaped)
                } else {
                    seq![c] + blank_from(s, i + 1, mode, escaped)
                }
            },
            LexMode::SingleQuote | LexMode::DoubleQuote | LexMode::Template => {
                let closing = if mode == LexMode::SingleQuote {
                    '\''
                } else if mode == LexMode::DoubleQuote {
                    '"'
                } else {
                    '`'
                };
                if escaped {
                    seq![c] + blank_from(s, i + 1, mode, false)
                } else if c == '\\' {
                    seq![c] + blank_from(s, i + 1, mode, true)
                } else if c == closing {
                    seq![c] + blank_from(s, i + 1, LexMode::Code, escaped)
                } else {
                    seq![c] + blank_from(s, i + 1, mode, escaped)
                }
            },
            LexMode::LineComment => {
                if c == '\n' {
                    seq![c] + blank_from(s, i + 1, LexMode::Code, escaped)
                } else {
                    seq![' '] + blank_from(s, i + 1, mode, escaped)
                }
            },
            LexMode::BlockComment => {
                if c == '*' && next_is(s, i, '/') {
                    seq![' ', ' '] + blank_from(s, i + 2, LexMode::Code, escaped)
                } else if c != '\n' {
                    seq![' '] + blank_from(s, i + 1, mode, escaped)
                } else {
                    seq![c] + blank_from(s, i + 1, mode, escaped)
                }
            },
        }
    }
}

/// `s` with every comment character other than a line break replaced by a space.
pub open spec fn without_comments_spec(s: Seq<char>) -> Seq<char> {
    blank_from(s, 0, LexMode::Code, false)
}

pub proof fn lemma_mask_from_len(s: Seq<char>, i: int, st: LexState)
    requires
        0 <= i <= s.len(),
    ensures
        mask_from(s, i, st).len() == s.len() - i,
    decreases s.len() - i,
{
    if i < s.len() {
        let (next, m, skip) = lex_step(s, i, st);
        if skip {
            lemma_mask_from_len(s, i + 2, next);
        } else {
            lemma_mask_from_len(s, i + 1, next);
        }
    }
}

pub proof fn lemma_blank_from_shape(s: Seq<char>, i: int, mode: LexMode, escaped: bool)
    requires
        0 <= i <= s.len(),
    ensures
        blank_from(s, i, mode, escaped).len() == s.len() - i,
        forall|k: int|
            0 <= k < s.len() - i ==> {
                let c = #[trigger] blank_from(s, i, mode, escaped)[k];
                (c == s[i + k] || c == ' ') && (c == '\n' <==> s[i + k] == '\n')
            },
    decreases s.len() - i,
{
    if i < s.len() {
        let c = s[i];
        reveal_with_fuel(blank_from, 1);
        let out = blank_from(s, i, mode, escaped);
        let (rest, step) = match mode {
            LexMode::Code => {
                if c == '\'' {
                    (blank_from(s, i + 1, LexMode::SingleQuote, escaped), 1int)
                } else if c == '"' {
                    (blank_from(s, i + 1, LexMode::DoubleQuote, escaped), 1int)
                } else if c == '`' {
                    (blank_from(s, i + 1, LexMode::Template, escaped), 1int)
                } else if c == '/' && next_is(s, i, '/') {
                    (blank_from(s, i + 1, LexMode::LineComment, escaped), 1int)
                } else if c == '/' && next_is(s, i, '*') {
                    (blank_from(s, i + 1, LexMode::BlockComment, escaped), 1int)
                } else {
                    (blank_from(s, i + 1, mode, escaped), 1int)
                }
            },
            LexMode::SingleQuote | LexMode::DoubleQuote | LexMode::Template => {
                let closing = if mode == LexMode::SingleQuote {
                    '\''
                } else if mode == LexMode::DoubleQuote {
                    '"'
                } else {
                    '`'
                };
                if escaped {
                    (blank_from(s, i + 1, mode, false), 1int)
                } else if c == '\\' {
                    (blank_from(s, i + 1, mode, true), 1int)
                } else if c == closing {
                    (blank_from(s, i + 1, LexMode::Code, escaped), 1int)
                } else {
                    (blank_from(s, i + 1, mode, escaped), 1int)
                }
            },
            LexMode::LineComment => {
                if c == '\n' {
                    (blank_from(s, i + 1, LexMode::Code, escaped), 1int)
                } else {
                    (blank_from(s, i + 1, mode, escaped), 1int)
                }
            },
            LexMode::BlockComment => {
                if c == '*' && next_is(s, i, '/') {
                    (blank_from(s, i + 2, LexMode::Code, escaped), 2int)
                } else {
                    (blank_from(s, i + 1, mode, escaped), 1int)
                }
            },
        };
        assert(out =~= out.take(step) + rest);
        lemma_blank_rest(s, i, mode, escaped);
    }
}

proof fn lemma_blank_rest(s: Seq<char>, i: int, mode: LexMode, escaped: bool)
    requires
        0 <= i < s.len(),
    ensures
        blank_from(s, i, mode, escaped).len() == s.len() - i,
        forall|k: int|
            0 <= k < s.len() - i ==> {
                let c = #[trigger] blank_from(s, i, mode, escaped)[k];
                (c == s[i + k] || c == ' ') && (c == '\n' <==> s[i + k] == '\n')
            },
    decreases s.len() - i, 0int,
{
    let c = s[i];
    match mode {
        LexMode::Code => {
            if c == '\'' {
                lemma_blank_from_shape(s, i + 1, LexMode::SingleQuote, escaped);
            } else if c == '"' {
                lemma_blank_from_shape(s, i + 1, LexMode::DoubleQuote, escaped);
            } else if c == '`' {
                lemma_blank_from_shape(s, i + 1, LexMode::Template, escaped);
            } else if c == '/' && next_is(s, i, '/') {
                lemma_blank_from_shape(s, i + 1, LexMode::LineComment, escaped);
            } else if c == '/' && next_is(s, i, '*') {
                lemma_blank_from_shape(s, i + 1, LexMode::BlockComment, escaped);
            } else {
                lemma_blank_from_shape(s, i + 1, mode, escaped);
            }
        },
        LexMode::SingleQuote | LexMode::DoubleQuote | LexMode::Template => {
            lemma_blank_from_shape(s, i + 1, mode, false);
            lemma_blank_from_shape(s, i + 1, mode, true);
            lemma_blank_from_shape(s, i + 1, LexMode::Code, escaped);
            lemma_blank_from_shape(s, i + 1, mode, escaped);
        },
        LexMode::LineComment => {
            lemma_blank_from_shape(s, i + 1, LexMode::Code, escaped);
            lemma_blank_from_shape(s, i + 1, mode, escaped);
        },
        LexMode::BlockComment => {
            if c == '*' && next_is(s, i, '/') {
                lemma_blank_from_shape(s, i + 2, LexMode::Code, escaped);
            } else {
                lemma_blank_from_shape(s, i + 1, mode, escaped);
            }
        },
    }
    let out = blank_from(s, i, mode, escaped);
    assert forall|k: int| 0 <= k < s.len() - i implies {
        let c = #[trigger] out[k];
        (c == s[i + k] || c == ' ') && (c == '\n' <==> s[i + k] == '\n')
    } by {
        if k >= 1 {
        }
    }
}

/// One executable lexer step, equal to `lex_step`.
fn lex_step_exec(
    s: &[char],
    i: usize,
    mode: LexMode,
    escaped: bool,
    depths: &mut Vec<usize>,
) -> (r: (LexMode, bool, bool, bool))
    requires
        i < s.len(),
        forall|k: int| 0 <= k < old(depths)@.len() ==> 1 <= #[trigger] old(depths)@[k] <= i,
    ensures
        ({
            let (next, m, skip) = lex_step(
                s@,
                i as int,
                LexState { mode, escaped, depths: old(depths)@ },
            );
            r.0 == next.mode && r.1 == next.escaped && final(depths)@ == next.depths && r.2 == m
                && r.3 == skip
        }),
        forall|k: int| 0 <= k < final(depths)@.len() ==> 1 <= #[trigger] final(depths)@[k] <= i + 1,
        r.3 ==> i + 1 < s.len(),
{
    let c = s[i];
    let has_next = i + 1 < s.len();
    match mode {
        LexMode::Code => {
            if c == '\'' {
                (LexMode::SingleQuote, escaped, false, false)
            } else if c == '"' {
                (LexMode::DoubleQuote, escaped, false, false)
            } else if c == '`' {
                (LexMode::Template, escaped, false, false)
            } else if c == '/' && has_next && s[i + 1] == '/' {
                (LexMode::LineComment, escaped, false, false)
            } else if c == '/' && has_next && s[i + 1] == '*' {
                (LexMode::BlockComment, escaped, false, false)
            } else if c == '{' && depths.len() > 0 {
                let d = depths.pop().unwrap();
                depths.push(d + 1);
                (mode, escaped, true, false)
            } else if c == '}' && depths.len() > 0 {
                let d = depths.pop().unwrap();
                let d = d - 1;
                if d == 0 {
                    (LexMode::Template, escaped, false, false)
                } else {
                    depths.push(d);
                    (mode, escaped, true, false)
                }
            } else {
                (mode, escaped, true, false)
            }
        },
        LexMode::SingleQuote | LexMode::DoubleQuote => {
            let quote = if mode == LexMode::SingleQuote {
                '\''
            } else {
                '"'
            };
            if escaped {
                (mode, false, false, false)
            } else if c == '\\' {
                (mode, true, false, false)
            } else if c == quote {
                (LexMode::Code, escaped, false, false)
            } else {
                (mode, escaped, false, false)
            }
        },
        LexMode::Template => {
            if escaped {
                (mode, false, false, false)
            } else if c == '\\' {
                (mode, true, false, false)
            } else if c == '`' {
                (LexMode::Code, escaped, false, false)
            } else if c == '$' && has_next && s[i + 1] == '{' {
                depths.push(1);
                (LexMode::Code, escaped, false, true)
            } else {
                (mode, escaped, false, false)
            }
        },
        LexMode::LineComment => {
            if c == '\n' {
                (LexMode::Code, escaped, true, false)
            } else {
                (mode, escaped, false, false)
            }
        },
        LexMode::BlockComment => {
            if c == '*' && has_next && s[i + 1] == '/' {
                (LexMode::Code, escaped, false, true)
            } else {
                (mode, escaped, false, false)
            }
        },
    }
}

/// The code mask of `content`: entry `i` is `true` exactly when character `i`
/// is code rather than part of a string literal, template text or comment.
pub fn code_mask_chars(content: &[char]) -> (mask: Vec<bool>)
    ensures
        mask@ == code_mask_spec(content@),
        mask@.len() == content@.len(),
{
    let mut mask: Vec<bool> = Vec::new();
    let mut mode = LexMode::Code;
    let mut escaped = false;
    let mut depths: Vec<usize> = Vec::new();
    let mut index: usize = 0;
    while index < content.len()
        invariant
            index <= content.len(),
            mask@.len() == index,
            mask@ + mask_from(content@, index as int, LexState { mode, escaped, depths: depths@ })
                == code_mask_spec(content@),
            forall|k: int| 0 <= k < depths@.len() ==> 1 <= #[trigger] depths@[k] <= index,
        decreases content.len() - index,
    {
        let ghost st = LexState { mode, escaped, depths: depths@ };
        let (next_mode, next_escaped, m, skip) = lex_step_exec(
            content,
            index,
            mode,
            escaped,
            &mut depths,
        );
        let ghost next = LexState { mode: next_mode, escaped: next_escaped, depths: depths@ };
        mode = next_mode;
        escaped = next_escaped;
        mask.push(m);
        if skip {
            mask.push(false);
            proof {
                assert(mask_from(content@, index as int, st) == seq![m, false] + mask_from(
                    content@,
                    index + 2,
                    next,
                ));
            }
            index = index + 2;
        } else {
            proof {
                assert(mask_from(content@, index as int, st) == seq![m] + mask_from(
                    content@,
                    index + 1,
                    next,
                ));
            }
            index = index + 1;
        }
    }
    proof {
        lemma_mask_from_len(content@, 0, initial_state());
    }
    mask
}

/// The code mask of `content`, one entry per character.
pub fn code_mask(content: &str) -> (mask: Vec<bool>)
    ensures
        mask@ == code_mask_spec(content@),
        mask@.len() == content@.len(),
{
    let chars = chars_of(content);
    code_mask_chars(&chars)
}

pub proof fn lemma_match_positions_bounds(s: Seq<char>, p: Seq<char>, from: int)
    ensures
        forall|k: int|
            0 <= k < match_positions(s, p, from).len() ==> from <= #[trigger] match_positions(
                s,
                p,
                from,
            )[k] <= s.len(),
    decreases s.len() + 1 - from,
{
    if 0 <= from <= s.len() {
        if p.len() == 0 {
            lemma_match_positions_bounds(s, p, from + 1);
            let r = match_positions(s, p, from);
            assert forall|k: int| 0 <= k < r.len() implies from <= #[trigger] r[k] <= s.len() by {
                if k > 0 {
                    assert(r[k] == match_positions(s, p, from + 1)[k - 1]);
                }
            }
        } else if exists|i: int| first_match_from(s, p, from, i) {
            let i = choose|i: int| first_match_from(s, p, from, i);
            lemma_match_positions_bounds(s, p, i + p.len());
            let r = match_positions(s, p, from);
            assert(r == seq![i] + match_positions(s, p, i + p.len()));
            assert forall|k: int| 0 <= k < r.len() implies from <= #[trigger] r[k] <= s.len() by {
                if k > 0 {
                    assert(r[k] == match_positions(s, p, i + p.len())[k - 1]);
                }
            }
        }
    }
}

/// Positions of the non-overlapping left-to-right occurrences of `needle` in
/// `content` at or after `from`.
pub(crate) fn match_positions_exec(content: &[char], needle: &[char]) -> (r: Vec<usize>)
    ensures
        r@.map_values(|x: usize| x as int) == match_positions(content@, needle@, 0),
{
    let mut r: Vec<usize> = Vec::new();
    let mut from: usize = 0;
    while from <= content.len()
        invariant
            r@.map_values(|x: usize| x as int) + match_positions(content@, needle@, from as int)
                == match_positions(content@, needle@, 0),
        decreases content.len() + 1 - from,
    {
        let ghost old_r = r@;
        if needle.len() == 0 {
            r.push(from);
            proof {
                assert(r@.map_values(|x: usize| x as int) =~= old_r.map_values(|x: usize| x as int).push(
                    from as int,
                ));
            }
            if from == content.len() {
                assert(match_positions(content@, needle@, from + 1) =~= Seq::<int>::empty());
                assert(r@.map_values(|x: usize| x as int) == match_positions(content@, needle@, 0));
                return r;
            }
            from = from + 1;
        } else {
            match find_from(content, needle, from) {
                Some(i) => {
                    assert(first_match_from(content@, needle@, from as int, i as int));
                    let ghost j = choose|j: int| first_match_from(content@, needle@, from as int, j);
                    assert(j == i) by {
                        if j < i {
                        } else if i < j {
                        }
                    }
                    r.push(i);
                    proof {
                        assert(r@.map_values(|x: usize| x as int) =~= old_r.map_values(
                            |x: usize| x as int,
                        ).push(i as int));
                    }
                    from = i + needle.len();
                },
                None => {
                    assert(!exists|j: int| first_match_from(content@, needle@, from as int, j));
                    assert(r@.map_values(|x: usize| x as int) + match_positions(content@, needle@, from as int)
                        =~= r@.map_values(|x: usize| x as int));
                    return r;
                },
            }
        }
    }
    assert(match_positions(content@, needle@, from as int) =~= Seq::<int>::empty());
    assert(r@.map_values(|x: usize| x as int) + match_positions(content@, needle@, from as int)
        =~= r@.map_values(|x: usize| x as int));
    r
}


/// Every position found for a non-empty pattern is a real occurrence of it.
pub proof fn lemma_match_positions_match(s: Seq<char>, p: Seq<char>, from: int)
    requires
        p.len() > 0,
    ensures
        forall|k: int|
            0 <= k < match_positions(s, p, from).len() ==> matches_at(
                s,
                p,
                #[trigger] match_positions(s, p, from)[k],
            ),
    decreases s.len() + 1 - from,
{
    if 0 <= from <= s.len() && exists|i: int| first_match_from(s, p, from, i) {
        let i = choose|i: int| first_match_from(s, p, from, i);
        lemma_match_positions_match(s, p, i + p.len());
        let r = match_positions(s, p, from);
        let rest = match_positions(s, p, i + p.len());
        assert(r == seq![i] + rest);
        assert forall|k: int| 0 <= k < r.len() implies matches_at(s, p, #[trigger] r[k]) by {
            if k > 0 {
                assert(r[k] == rest[k - 1]);
            }
        }
    }
}

/// A code occurrence of a non-empty pattern is an occurrence that starts in code.
pub proof fn lemma_code_occurrence(s: Seq<char>, p: Seq<char>, k: int)
    requires
        p.len() > 0,
        0 <= k < code_occurrences_spec(s, p).len(),
    ensures
        matches_at(s, p, code_occurrences_spec(s, p)[k]),
        code_occurrences_spec(s, p)[k] < code_mask_spec(s).len(),
        code_mask_spec(s)[code_occurrences_spec(s, p)[k]],
{
    let mask = code_mask_spec(s);
    let mp = match_positions(s, p, 0);
    let pred = |i: int| 0 <= i < mask.len() && mask[i];
    let occ = mp.filter(pred);
    assert(occ == code_occurrences_spec(s, p));
    mp.lemma_filter_pred(pred, k);
    assert(occ.contains(occ[k]));
    mp.lemma_filter_contains_rev(pred, occ[k]);
    lemma_match_positions_match(s, p, 0);
    let j = choose|j: int| 0 <= j < mp.len() && mp[j] == occ[k];
    assert(matches_at(s, p, mp[j]));
}

/// Positions of the occurrences of `needle` that start in code.
pub fn code_occurrences_chars(content: &[char], needle: &[char]) -> (r: Vec<usize>)
    ensures
        r@.map_values(|x: usize| x as int) == code_occurrences_spec(content@, needle@),
{
    let mask = code_mask_chars(content);
    let all = match_positions_exec(content, needle);
    let ghost pred = |i: int| 0 <= i < mask@.len() && mask@[i];
    let ghost all_int = all@.map_values(|x: usize| x as int);
    let mut r: Vec<usize> = Vec::new();
    let mut k: usize = 0;
    while k < all.len()
        invariant
            k <= all.len(),
            all_int == all@.map_values(|x: usize| x as int),
            pred == (|i: int| 0 <= i < mask@.len() && mask@[i]),
            r@.map_values(|x: usize| x as int) == all_int.take(k as int).filter(pred),
        decreases all.len() - k,
    {
        let i = all[k];
        let ghost old_r = r@;
        proof {
            assert(all_int.take(k + 1).drop_last() =~= all_int.take(k as int));
            reveal_with_fuel(Seq::filter, 1);
        }
        if i < mask.len() && mask[i] {
            r.push(i);
            proof {
                assert(r@.map_values(|x: usize| x as int) =~= old_r.map_values(|x: usize| x as int).push(
                    i as int,
                ));
            }
        }
        k = k + 1;
    }
    assert(all_int.take(all.len() as int) =~= all_int);
    r
}

/// Character positions where `needle` occurs in code (not inside string
/// literals, template text or comments).
pub fn code_occurrences(content: &str, needle: &str) -> (r: Vec<usize>)
    ensures
        r@.map_values(|x: usize| x as int) == code_occurrences_spec(content@, needle@),
{
    let c = chars_of(content);
    let n = chars_of(needle);
    code_occurrences_chars(&c, &n)
}

/// Whether `needle` occurs in code.
pub fn contains_code_chars(content: &[char], needle: &[char]) -> (r: bool)
    ensures
        r == (code_occurrences_spec(content@, needle@).len() > 0),
{
    let v = code_occurrences_chars(content, needle);
    v.len() > 0
}

/// Whether `needle` occurs in code.
pub fn contains_code(content: &str, needle: &str) -> (r: bool)
    ensures
        r == (code_occurrences_spec(content@, needle@).len() > 0),
{
    let c = chars_of(content);
    let n = chars_of(needle);
    contains_code_chars(&c, &n)
}

/// `content` with comments blanked out.
pub fn without_comments_chars(content: &[char]) -> (out: Vec<char>)
    ensures
        out@ == without_comments_spec(content@),
{
    let mut out: Vec<char> = Vec::new();
    let mut mode = LexMode::Code;
    let mut escaped = false;
    let mut index: usize = 0;
    while index < content.len()
        invariant
            index <= content.len(),
            out@ + blank_from(content@, index as int, mode, escaped) == without_comments_spec(
                content@,
            ),
        decreases content.len() - index,
    {
        let ghost old_out = out@;
        let ghost old_mode = mode;
        let ghost old_escaped = escaped;
        let c = content[index];
        let has_next = index + 1 < content.len();
        let mut step: usize = 1;
        match mode {
            LexMode::Code => {
                if c == '\'' {
                    out.push(c);
                    mode = LexMode::SingleQuote;
                } else if c == '"' {
                    out.push(c);
                    mode = LexMode::DoubleQuote;
                } else if c == '`' {
                    out.push(c);
                    mode = LexMode::Template;
                } else if c == '/' && has_next && content[index + 1] == '/' {
                    out.push(' ');
                    mode = LexMode::LineComment;
                } else if c == '/' && has_next && content[index + 1] == '*' {
                    out.push(' ');
                    mode = LexMode::BlockComment;
                } else {
                    out.push(c);
                }
            },
            LexMode::SingleQuote | LexMode::DoubleQuote | LexMode::Template => {
                let closing = match mode {
                    LexMode::SingleQuote => '\'',
                    LexMode::DoubleQuote => '"',
                    _ => '`',
                };
                out.push(c);
                if escaped {
                    escaped = false;
                } else if c == '\\' {
                    escaped = true;
                } else if c == closing {
                    mode = LexMode::Code;
                }
            },
            LexMode::LineComment => {
                if c == '\n' {
                    out.push(c);
                    mode = LexMode::Code;
                } else {
                    out.push(' ');
                }
            },
            LexMode::BlockComment => {
                if c == '*' && has_next && content[index + 1] == '/' {
                    out.push(' ');
                    out.push(' ');
                    step = 2;
                    mode = LexMode::Code;
                } else if c != '\n' {
                    out.push(' ');
                } else {
                    out.push(c);
                }
            },
        }
        proof {
            let rest = blank_from(content@, index + step, mode, escaped);
            assert(blank_from(content@, index as int, old_mode, old_escaped) == out@.skip(
                old_out.len() as int,
            ) + rest);
            assert(out@ =~= old_out + out@.skip(old_out.len() as int));
        }
        index = index + step;
    }
    assert(blank_from(content@, index as int, mode, escaped) =~= Seq::<char>::empty());
    assert(out@ + Seq::<char>::empty() =~= out@);
    out
}

/// `content` with the characters of `//` and `/* */` comments (outside string
/// and template literals) replaced by spaces; line breaks are kept.
pub fn without_comments(content: &str) -> (out: String)
    ensures
        out@ == without_comments_spec(content@),
{
    let c = chars_of(content);
    let o = without_comments_chars(&c);
    string_of(&o)
}

/// Blanking comments keeps the length, changes characters only into spaces,
/// and keeps every line break where it was.
pub proof fn law_without_comments_shape(s: Seq<char>)
    ensures
        without_comments_spec(s).len() == s.len(),
        forall|k: int|
            0 <= k < s.len() ==> (#[trigger] without_comments_spec(s)[k] == s[k]
                || without_comments_spec(s)[k] == ' '),
        forall|k: int|
            0 <= k < s.len() ==> (#[trigger] without_comments_spec(s)[k] == '\n' <==> s[k]
                == '\n'),
{
    lemma_blank_from_shape(s, 0, LexMode::Code, false);
}

/// The code mask has one entry per character.
pub proof fn law_code_mask_length(s: Seq<char>)
    ensures
        code_mask_spec(s).len() == s.len(),
{
    lemma_mask_from_len(s, 0, initial_state());
}

} // verus!
