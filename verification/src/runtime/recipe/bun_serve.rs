//! `Bun.serve({ port, fetch })` becomes `Deno.serve`, for a fetch handler that
//! is either a one-parameter method or the `fetch` of a Hono application.
use vstd::prelude::*;
use crate::model::{Diagnostic, DiagnosticView};
use crate::runtime::lex::{
    code_mask_chars, code_mask_spec, code_occurrences_chars, code_occurrences_spec,
    lemma_code_occurrence, without_comments_chars, without_comments_spec,
};
use crate::runtime::model::{DenoPermission, PermissionSet};
use crate::text::{
    chars_of, comma_items, comma_items_exec, ends_with, find_char, find_char_exec, is_ascii_ws,
    is_ascii_ws_exec, keep_nonempty, leading_ws, lemma_find_char_bounds, lemma_trim_start_skip,
    matches_at, push_chars, push_str, slice_of, starts_with, str_ends_with, str_eq, str_starts_with,
    strip_cr, strip_prefix, strip_suffix, texts, lemma_texts_push, trim, trim_bounds, trim_start,
    chars_eq,
};
use super::bun_file::skip_ascii_ws;
use super::{
    apply_spec, blocking, close_from, counts_one, edits_view, finish, lemma_close_from_bounds,
    lemma_edits_view_push, lemma_fitting_edits_select, line_bounds, matching_close, ranges_fit,
    recipe_blocking, Edit, RecipeId, TransformResult, TransformView,
};

verus! {

/// Index of the `right` matching the code `left` at `open` in `content`.
pub open spec fn matching_delimiter_spec(content: Seq<char>, open: int, left: char, right: char) -> Option<
    int,
> {
    let mask = code_mask_spec(content);
    if open < 0 || open >= content.len() || content[open] != left || !mask[open] {
        None
    } else {
        close_from(content, mask, left, right, open, 0)
    }
}

pub fn matching_delimiter(content: &[char], mask: &[bool], open: usize, left: char, right: char) -> (r:
    Option<usize>)
    requires
        mask@ == code_mask_spec(content@),
        mask@.len() == content@.len(),
        left != right,
    ensures
        r matches Some(c) ==> matching_delimiter_spec(content@, open as int, left, right) == Some(
            c as int,
        ) && open < c < content@.len(),
        r is None ==> matching_delimiter_spec(content@, open as int, left, right) is None,
{
    if open >= content.len() || content[open] != left || !mask[open] {
        return None;
    }
    proof {
        lemma_close_from_bounds(content@, mask@, left, right, open as int, 0);
    }
    let r = matching_close(content, mask, left, right, open);
    proof {
        if r is Some {
            assert(r->0 != open) by {
                if r->0 == open {
                    assert(content@[open as int] == right);
                }
            }
        }
    }
    r
}

/// Top-level comma-separated pieces from position `i` on, given the open
/// brace, bracket and parenthesis counts and the start of the current piece.
pub open spec fn split_from(
    content: Seq<char>,
    mask: Seq<bool>,
    i: int,
    braces: nat,
    brackets: nat,
    parens: nat,
    start: int,
) -> Option<Seq<Seq<char>>>
    decreases content.len() - i,
{
    if i < 0 || i >= content.len() || i >= mask.len() {
        if braces != 0 || brackets != 0 || parens != 0 {
            None
        } else {
            Some(keep_nonempty(trim(content.subrange(start, content.len() as int))))
        }
    } else if !mask[i] {
        split_from(content, mask, i + 1, braces, brackets, parens, start)
    } else {
        let c = content[i];
        if c == '{' {
            split_from(content, mask, i + 1, braces + 1, brackets, parens, start)
        } else if c == '}' {
            if braces == 0 {
                None
            } else {
                split_from(content, mask, i + 1, (braces - 1) as nat, brackets, parens, start)
            }
        } else if c == '[' {
            split_from(content, mask, i + 1, braces, brackets + 1, parens, start)
        } else if c == ']' {
            if brackets == 0 {
                None
            } else {
                split_from(content, mask, i + 1, braces, (brackets - 1) as nat, parens, start)
            }
        } else if c == '(' {
            split_from(content, mask, i + 1, braces, brackets, parens + 1, start)
        } else if c == ')' {
            if parens == 0 {
                None
            } else {
                split_from(content, mask, i + 1, braces, brackets, (parens - 1) as nat, start)
            }
        } else if c == ',' && braces == 0 && brackets == 0 && parens == 0 {
            match split_from(content, mask, i + 1, braces, brackets, parens, i + 1) {
                Some(rest) => Some(seq![trim(content.subrange(start, i))] + rest),
                None => None,
            }
        } else {
            split_from(content, mask, i + 1, braces, brackets, parens, start)
        }
    }
}

/// The top-level, comma-separated, trimmed properties of an object body
/// (a trailing empty piece dropped), or `None` when its brackets are unbalanced.
pub open spec fn split_properties_spec(content: Seq<char>) -> Option<Seq<Seq<char>>> {
    split_from(content, code_mask_spec(content), 0, 0, 0, 0, 0)
}

pub fn split_properties(content: &[char]) -> (r: Option<Vec<Vec<char>>>)
    ensures
        r matches Some(v) ==> split_properties_spec(content@) == Some(texts(v@)),
        r is None ==> split_properties_spec(content@) is None,
{
    let mask = code_mask_chars(content);
    let ghost m = mask@;
    let mut braces: usize = 0;
    let mut brackets: usize = 0;
    let mut parens: usize = 0;
    let mut start: usize = 0;
    let mut out: Vec<Vec<char>> = Vec::new();
    let mut i: usize = 0;
    while i < content.len()
        invariant
            i <= content.len(),
            m == mask@,
            m == code_mask_spec(content@),
            m.len() == content@.len(),
            start <= i,
            braces <= i,
            brackets <= i,
            parens <= i,
            split_from(content@, m, 0, 0, 0, 0, 0) == match split_from(
                content@,
                m,
                i as int,
                braces as nat,
                brackets as nat,
                parens as nat,
                start as int,
            ) {
                Some(rest) => Some(texts(out@) + rest),
                None => None::<Seq<Seq<char>>>,
            },
        decreases content.len() - i,
    {
        if mask[i] {
            let c = content[i];
            if c == '{' {
                braces = braces + 1;
            } else if c == '}' {
                if braces == 0 {
                    return None;
                }
                braces = braces - 1;
            } else if c == '[' {
                brackets = brackets + 1;
            } else if c == ']' {
                if brackets == 0 {
                    return None;
                }
                brackets = brackets - 1;
            } else if c == '(' {
                parens = parens + 1;
            } else if c == ')' {
                if parens == 0 {
                    return None;
                }
                parens = parens - 1;
            } else if c == ',' && braces == 0 && brackets == 0 && parens == 0 {
                let (a, b) = trim_bounds(content, start, i);
                let piece = slice_of(content, a, b);
                let ghost before = out@;
                out.push(piece);
                proof {
                    lemma_texts_push(before, piece);
                    match split_from(content@, m, i + 1, 0, 0, 0, i + 1) {
                        Some(rest) => {
                            assert(texts(before) + (seq![piece@] + rest) =~= texts(out@) + rest);
                        },
                        None => {},
                    }
                }
                start = i + 1;
            }
        }
        i = i + 1;
    }
    if braces != 0 || brackets != 0 || parens != 0 {
        return None;
    }
    let (a, b) = trim_bounds(content, start, content.len());
    let ghost before = out@;
    if a < b {
        let piece = slice_of(content, a, b);
        out.push(piece);
        proof {
            lemma_texts_push(before, piece);
        }
    }
    proof {
        assert(texts(out@) =~= texts(before) + keep_nonempty(
            trim(content@.subrange(start as int, content@.len() as int)),
        ));
    }
    Some(out)
}

/// `fetch(request) { ... }` (optionally `async`) as an arrow function.
pub open spec fn method_handler_spec(property: Seq<char>) -> Option<Seq<char>> {
    let asynchronous = starts_with(property, "async "@);
    let rest0 = if asynchronous {
        property.skip(6)
    } else {
        property
    };
    match strip_prefix(rest0, "fetch"@) {
        None => None,
        Some(rest) => {
            let leading = rest.len() - trim_start(rest).len();
            let open = (if asynchronous {
                6int
            } else {
                0int
            }) + 5 + leading;
            match matching_delimiter_spec(property, open, '(', ')') {
                None => None,
                Some(close) => match split_properties_spec(property.subrange(open + 1, close)) {
                    None => None,
                    Some(params) => if params.len() != 1 {
                        None
                    } else {
                        let after = trim_start(property.skip(close + 1));
                        if !starts_with(after, "{"@) {
                            None
                        } else {
                            let block_open = property.len() - after.len();
                            match matching_delimiter_spec(property, block_open, '{', '}') {
                                None => None,
                                Some(block_close) => if trim(property.skip(block_close + 1)).len()
                                    > 0 {
                                    None
                                } else {
                                    Some(
                                        (if asynchronous {
                                            "async "@
                                        } else {
                                            ""@
                                        }) + "("@ + property.subrange(open + 1, close) + ") => "@
                                            + property.subrange(block_open, block_close + 1),
                                    )
                                },
                            }
                        }
                    },
                },
            }
        },
    }
}

pub fn method_handler(property: &[char]) -> (r: Option<Vec<char>>)
    ensures
        r matches Some(v) ==> method_handler_spec(property@) == Some(v@),
        r is None ==> method_handler_spec(property@) is None,
{
    proof {
        reveal_strlit("async ");
        reveal_strlit("fetch");
        reveal_strlit("{");
    }
    let asynchronous = str_starts_with(property, "async ");
    let base: usize = if asynchronous {
        6
    } else {
        0
    };
    let rest0 = slice_of(property, base, property.len());
    assert(rest0@ =~= (if asynchronous {
        property@.skip(6)
    } else {
        property@
    }));
    if !str_starts_with(&rest0, "fetch") {
        return None;
    }
    let lead_end = leading_ws(property, base + 5, property.len());
    let ghost rest = rest0@.skip(5);
    proof {
        assert(rest =~= property@.skip(base + 5));
        lemma_trim_start_skip(rest, lead_end - base - 5);
    }
    let open = lead_end;
    let mask = code_mask_chars(property);
    let close = match matching_delimiter(property, &mask, open, '(', ')') {
        Some(c) => c,
        None => {
            return None;
        },
    };
    let inner = slice_of(property, open + 1, close);
    let params = match split_properties(&inner) {
        Some(p) => p,
        None => {
            return None;
        },
    };
    if params.len() != 1 {
        return None;
    }
    let block_open = leading_ws(property, close + 1, property.len());
    proof {
        lemma_trim_start_skip(property@.skip(close + 1), block_open - close - 1);
        assert(property@.skip(close + 1).skip(block_open - close - 1) =~= property@.skip(
            block_open as int,
        ));
    }
    if block_open >= property.len() || property[block_open] != '{' {
        return None;
    }
    let block_close = match matching_delimiter(property, &mask, block_open, '{', '}') {
        Some(c) => c,
        None => {
            return None;
        },
    };
    let (ta, tb) = trim_bounds(property, block_close + 1, property.len());
    assert(property@.subrange(block_close + 1, property@.len() as int) =~= property@.skip(
        block_close + 1,
    ));
    if ta < tb {
        return None;
    }
    let mut out: Vec<char> = Vec::new();
    if asynchronous {
        push_str(&mut out, "async ");
    }
    push_str(&mut out, "(");
    push_chars(&mut out, &inner);
    push_str(&mut out, ") => ");
    let block = slice_of(property, block_open, block_close + 1);
    push_chars(&mut out, &block);
    proof {
        reveal_strlit("");
        reveal_strlit("(");
        reveal_strlit(") => ");
    }
    assert(out@ =~= (if asynchronous {
        "async "@
    } else {
        ""@
    }) + "("@ + inner@ + ") => "@ + block@);
    Some(out)
}


/// `s` without its trailing semicolons.
pub open spec fn trim_semicolons(s: Seq<char>) -> Seq<char>
    decreases s.len(),
{
    if s.len() > 0 && s.last() == ';' {
        trim_semicolons(s.drop_last())
    } else {
        s
    }
}

pub open spec fn hono_tail(t: Seq<char>) -> bool {
    ||| t == "from \"hono\""@
    ||| t == "from 'hono'"@
    ||| t == "from \"npm:hono\""@
    ||| t == "from 'npm:hono'"@
}

/// Whether `line` imports `Hono` from the `hono` package by name; `None` when
/// the line is an import whose `}` comes before its `{`, where the check cannot
/// take the names between them.
pub open spec fn line_imports_hono(line: Seq<char>) -> Option<bool> {
    let trimmed = trim(line);
    match strip_prefix(trimmed, "import "@) {
        None => Some(false),
        Some(body) => match (find_char(body, '{'), find_char(body, '}')) {
            (Some(o), Some(c)) => if c < o {
                None
            } else {
                Some(
                    comma_items(body.subrange(o + 1, c)).contains("Hono"@) && hono_tail(
                        trim_semicolons(trim(body.skip(c + 1))),
                    ),
                )
            },
            _ => Some(false),
        },
    }
}

/// Whether one of the lines from `pos` on imports `Hono`, checking lines in
/// order and stopping at the first that does (or that cannot be checked).
pub open spec fn hono_from(c: Seq<char>, pos: int) -> Option<bool>
    decreases c.len() - pos,
{
    if pos < 0 || pos >= c.len() {
        Some(false)
    } else {
        proof {
            lemma_find_char_bounds(c.skip(pos), '\n');
        }
        let (len, next) = line_bounds(c, pos);
        match line_imports_hono(strip_cr(c.subrange(pos, pos + len))) {
            None => None,
            Some(true) => Some(true),
            Some(false) => hono_from(c, next),
        }
    }
}

/// `<prefix><id> = new Hono(...` once trimmed.
pub open spec fn decl_assigns(t: Seq<char>, prefix: Seq<char>, id: Seq<char>) -> bool {
    match strip_prefix(t, prefix) {
        None => false,
        Some(d) => match find_char(d, '=') {
            None => false,
            Some(i) => trim(d.take(i)) == id && starts_with(trim_start(d.skip(i + 1)), "new Hono("@),
        },
    }
}

pub open spec fn declares_hono(line: Seq<char>, id: Seq<char>) -> bool {
    let t = trim(line);
    decl_assigns(t, "const "@, id) || decl_assigns(t, "let "@, id) || decl_assigns(t, "var "@, id)
}

/// Whether a line from `pos` on declares `id` as a new Hono application.
pub open spec fn assigned_from(c: Seq<char>, id: Seq<char>, pos: int) -> bool
    decreases c.len() - pos,
{
    if pos < 0 || pos >= c.len() {
        false
    } else {
        proof {
            lemma_find_char_bounds(c.skip(pos), '\n');
        }
        let (len, next) = line_bounds(c, pos);
        declares_hono(strip_cr(c.subrange(pos, pos + len)), id) || assigned_from(c, id, next)
    }
}

pub open spec fn ident_chars(id: Seq<char>) -> bool {
    forall|j: int|
        0 <= j < id.len() ==> (id[j] == '_' || id[j] == '$' || crate::text::unicode_alphanumeric(
            #[trigger] id[j],
        ))
}

/// The handler for `fetch: <value>` when `value` is the `fetch` of a Hono
/// application that the file imports and creates; the outer `None` marks a file
/// whose import check cannot be made.
pub open spec fn hono_fetch_handler_spec(content: Seq<char>, value: Seq<char>) -> Option<
    Option<Seq<char>>,
> {
    let v = trim(value);
    match strip_suffix(v, ".fetch"@) {
        None => Some(None),
        Some(id) => {
            let c = without_comments_spec(content);
            if id.len() == 0 || !ident_chars(id) {
                Some(None)
            } else {
                match hono_from(c, 0) {
                    None => None,
                    Some(false) => Some(None),
                    Some(true) => if assigned_from(c, id, 0) {
                        Some(Some(v))
                    } else {
                        Some(None)
                    },
                }
            }
        },
    }
}

fn trim_semicolons_exec(s: &[char], from: usize, to: usize) -> (r: usize)
    requires
        from <= to <= s.len(),
    ensures
        from <= r <= to,
        s@.subrange(from as int, r as int) == trim_semicolons(s@.subrange(from as int, to as int)),
{
    let mut k = to;
    while k > from && s[k - 1] == ';'
        invariant
            from <= k <= to <= s.len(),
            trim_semicolons(s@.subrange(from as int, k as int)) == trim_semicolons(
                s@.subrange(from as int, to as int),
            ),
        decreases k - from,
    {
        assert(s@.subrange(from as int, k as int).drop_last() =~= s@.subrange(from as int, k - 1));
        k = k - 1;
    }
    k
}

fn contains_text(items: &[Vec<char>], t: &str) -> (r: bool)
    ensures
        r == texts(items@).contains(t@),
{
    let mut i: usize = 0;
    while i < items.len()
        invariant
            i <= items.len(),
            forall|j: int| 0 <= j < i ==> texts(items@)[j] != t@,
        decreases items.len() - i,
    {
        if str_eq(&items[i], t) {
            assert(texts(items@)[i as int] == t@);
            return true;
        }
        i = i + 1;
    }
    false
}

fn line_imports_hono_exec(line: &[char]) -> (r: Option<bool>)
    ensures
        r == line_imports_hono(line@),
{
    proof {
        reveal_strlit("import ");
    }
    let (a, b) = trim_bounds(line, 0, line.len());
    assert(line@.subrange(0, line@.len() as int) =~= line@);
    let trimmed = slice_of(line, a, b);
    if !str_starts_with(&trimmed, "import ") {
        return Some(false);
    }
    let body = slice_of(&trimmed, 7, trimmed.len());
    assert(body@ =~= trimmed@.skip(7));
    proof {
        lemma_find_char_bounds(body@, '{');
        lemma_find_char_bounds(body@, '}');
    }
    let o = match find_char_exec(&body, '{') {
        Some(i) => i,
        None => {
            return Some(false);
        },
    };
    let c = match find_char_exec(&body, '}') {
        Some(i) => i,
        None => {
            return Some(false);
        },
    };
    if c < o {
        return None;
    }
    let names = comma_items_exec(&body, o + 1, c);
    let has = contains_text(&names, "Hono");
    let (ta, tb) = trim_bounds(&body, c + 1, body.len());
    assert(body@.subrange(c + 1, body@.len() as int) =~= body@.skip(c + 1));
    let te = trim_semicolons_exec(&body, ta, tb);
    let tail = slice_of(&body, ta, te);
    let ok_tail = str_eq(&tail, "from \"hono\"") || str_eq(&tail, "from 'hono'") || str_eq(
        &tail,
        "from \"npm:hono\"",
    ) || str_eq(&tail, "from 'npm:hono'");
    Some(has && ok_tail)
}

/// The next line of `c` from `pos`: its end (before `\n`), the start of the
/// line after it, and its text without a trailing `\r`.
fn next_line(c: &[char], pos: usize) -> (r: (usize, usize, Vec<char>))
    requires
        pos < c.len(),
    ensures
        line_bounds(c@, pos as int) == (r.0 - pos, r.1 as int),
        pos <= r.0 <= c.len(),
        pos < r.1 <= c.len(),
        r.2@ == strip_cr(c@.subrange(pos as int, r.0 as int)),
{
    let mut e = pos;
    while e < c.len() && c[e] != '\n'
        invariant
            pos <= e <= c.len(),
            forall|j: int| pos <= j < e ==> c@[j] != '\n',
        decreases c.len() - e,
    {
        e = e + 1;
    }
    proof {
        if e < c.len() {
            crate::text::lemma_find_char_first(c@.skip(pos as int), '\n', e - pos);
        } else {
            crate::text::lemma_find_char_none(c@.skip(pos as int), '\n');
        }
    }
    let next = if e < c.len() {
        e + 1
    } else {
        c.len()
    };
    let mut end = e;
    if end > pos && c[end - 1] == '\r' {
        end = end - 1;
    }
    let line = slice_of(c, pos, end);
    assert(line@ =~= strip_cr(c@.subrange(pos as int, e as int)));
    (e, next, line)
}

fn hono_lines(c: &[char]) -> (r: Option<bool>)
    ensures
        r == hono_from(c@, 0),
{
    let mut pos: usize = 0;
    while pos < c.len()
        invariant
            pos <= c.len(),
            hono_from(c@, 0) == hono_from(c@, pos as int),
        decreases c.len() - pos,
    {
        let (e, next, line) = next_line(c, pos);
        proof {
            lemma_find_char_bounds(c@.skip(pos as int), '\n');
        }
        match line_imports_hono_exec(&line) {
            None => {
                return None;
            },
            Some(true) => {
                return Some(true);
            },
            Some(false) => {},
        }
        pos = next;
    }
    Some(false)
}

fn decl_assigns_exec(t: &[char], prefix: &str, id: &[char]) -> (r: bool)
    ensures
        r == decl_assigns(t@, prefix@, id@),
{
    if !str_starts_with(t, prefix) {
        return false;
    }
    let pl = chars_of(prefix).len();
    let d = slice_of(t, pl, t.len());
    assert(d@ =~= t@.skip(prefix@.len() as int));
    proof {
        lemma_find_char_bounds(d@, '=');
    }
    let i = match find_char_exec(&d, '=') {
        Some(i) => i,
        None => {
            return false;
        },
    };
    let (a, b) = trim_bounds(&d, 0, i);
    assert(d@.subrange(0, i as int) =~= d@.take(i as int));
    let name = slice_of(&d, a, b);
    if !chars_eq(&name, id) {
        return false;
    }
    let k = leading_ws(&d, i + 1, d.len());
    proof {
        lemma_trim_start_skip(d@.skip(i + 1), k - i - 1);
        assert(d@.skip(i + 1).skip(k - i - 1) =~= d@.skip(k as int));
    }
    let rest = slice_of(&d, k, d.len());
    assert(rest@ =~= d@.skip(k as int));
    str_starts_with(&rest, "new Hono(")
}

fn assigned_lines(c: &[char], id: &[char]) -> (r: bool)
    ensures
        r == assigned_from(c@, id@, 0),
{
    let mut pos: usize = 0;
    while pos < c.len()
        invariant
            pos <= c.len(),
            assigned_from(c@, id@, 0) == assigned_from(c@, id@, pos as int),
        decreases c.len() - pos,
    {
        let (e, next, line) = next_line(c, pos);
        proof {
            lemma_find_char_bounds(c@.skip(pos as int), '\n');
        }
        let (a, b) = trim_bounds(&line, 0, line.len());
        assert(line@.subrange(0, line@.len() as int) =~= line@);
        let t = slice_of(&line, a, b);
        if decl_assigns_exec(&t, "const ", id) || decl_assigns_exec(&t, "let ", id)
            || decl_assigns_exec(&t, "var ", id) {
            return true;
        }
        pos = next;
    }
    false
}

fn ident_chars_exec(id: &[char]) -> (r: bool)
    ensures
        r == ident_chars(id@),
{
    let mut j: usize = 0;
    while j < id.len()
        invariant
            j <= id.len(),
            forall|k: int|
                0 <= k < j ==> (id@[k] == '_' || id@[k] == '$' || crate::text::unicode_alphanumeric(
                    #[trigger] id@[k],
                )),
        decreases id.len() - j,
    {
        let ch = id[j];
        if !(ch == '_' || ch == '$' || crate::text::char_is_alphanumeric(ch)) {
            return false;
        }
        j = j + 1;
    }
    true
}

/// The handler for `fetch: <value>`; the outer `None` marks a file whose
/// import check cannot be made.
pub fn hono_fetch_handler(content: &[char], value: &[char]) -> (r: Option<Option<Vec<char>>>)
    ensures
        r matches Some(Some(v)) ==> hono_fetch_handler_spec(content@, value@) == Some(Some(v@)),
        r matches Some(None) ==> hono_fetch_handler_spec(content@, value@) == Some(
            None::<Seq<char>>,
        ),
        r is None ==> hono_fetch_handler_spec(content@, value@) is None,
{
    proof {
        reveal_strlit(".fetch");
    }
    let (a, b) = trim_bounds(value, 0, value.len());
    assert(value@.subrange(0, value@.len() as int) =~= value@);
    let v = slice_of(value, a, b);
    if !str_ends_with(&v, ".fetch") {
        return Some(None);
    }
    let id = slice_of(&v, 0, v.len() - 6);
    assert(id@ =~= v@.take(v@.len() - 6));
    let c = without_comments_chars(content);
    if id.len() == 0 || !ident_chars_exec(&id) {
        return Some(None);
    }
    match hono_lines(&c) {
        None => None,
        Some(false) => Some(None),
        Some(true) => {
            if assigned_lines(&c, &id) {
                Some(Some(v))
            } else {
                Some(None)
            }
        },
    }
}


/// The port expression and handler chosen by the properties `props` (starting
/// from `port` and `handler`); the inner `None` marks a property outside the
/// recipe and the outer `None` a file whose import check cannot be made.
pub open spec fn serve_props(
    content: Seq<char>,
    props: Seq<Seq<char>>,
    port: Option<Seq<char>>,
    handler: Option<Seq<char>>,
) -> Option<Option<(Option<Seq<char>>, Option<Seq<char>>)>>
    decreases props.len(),
{
    if props.len() == 0 {
        Some(Some((port, handler)))
    } else {
        let p = props[0];
        if p == "port"@ {
            serve_props(content, props.drop_first(), Some("port"@), handler)
        } else if starts_with(p, "port:"@) {
            serve_props(content, props.drop_first(), Some(trim(p.skip(5))), handler)
        } else if starts_with(p, "fetch:"@) {
            match hono_fetch_handler_spec(content, p.skip(6)) {
                None => None,
                Some(h) => serve_props(content, props.drop_first(), port, h),
            }
        } else if starts_with(p, "fetch("@) || starts_with(p, "async fetch("@) {
            serve_props(content, props.drop_first(), port, method_handler_spec(p))
        } else {
            Some(None)
        }
    }
}

pub open spec fn deno_serve_call(port: Option<Seq<char>>, handler: Seq<char>) -> Seq<char> {
    match port {
        None => "Deno.serve("@ + handler + ")"@,
        Some(p) => "Deno.serve({ port: "@ + p + " }, "@ + handler + ")"@,
    }
}

/// The end and replacement text of the `Bun.serve` call at `start`; the inner
/// `None` marks a call outside the recipe and the outer `None` a call whose
/// object closes after the call itself, or a file whose import check cannot be
/// made.
pub open spec fn serve_replacement_spec(content: Seq<char>, start: int) -> Option<
    Option<(int, Seq<char>)>,
> {
    let cursor = skip_ascii_ws(content, start + 9);
    if cursor >= content.len() || content[cursor] != '(' {
        Some(None)
    } else {
        match matching_delimiter_spec(content, cursor, '(', ')') {
            None => Some(None),
            Some(call_close) => {
                let inner = content.subrange(cursor + 1, call_close);
                let arguments = trim(inner);
                if !starts_with(arguments, "{"@) || !ends_with(arguments, "}"@) {
                    Some(None)
                } else {
                    match find_char(inner, '{') {
                        None => Some(None),
                        Some(f) => {
                            let object_open = cursor + 1 + f;
                            match matching_delimiter_spec(content, object_open, '{', '}') {
                                None => Some(None),
                                Some(object_close) => if object_close + 1 > call_close {
                                    None
                                } else if object_close + 1 != call_close && trim(
                                    content.subrange(object_close + 1, call_close),
                                ).len() > 0 {
                                    Some(None)
                                } else {
                                    match split_properties_spec(
                                        content.subrange(object_open + 1, object_close),
                                    ) {
                                        None => Some(None),
                                        Some(props) => match serve_props(
                                            content,
                                            props,
                                            None,
                                            None,
                                        ) {
                                            None => None,
                                            Some(None) => Some(None),
                                            Some(Some(chosen)) => match chosen.1 {
                                                None => Some(None),
                                                Some(h) => Some(
                                                    Some((call_close + 1, deno_serve_call(chosen.0, h))),
                                                ),
                                            },
                                        },
                                    }
                                },
                            }
                        },
                    }
                }
            },
        }
    }
}

pub open spec fn serve_unsupported(path: Seq<char>) -> DiagnosticView {
    recipe_blocking(
        "RUNTIME_BUN_SERVE_UNSUPPORTED"@,
        path,
        "Bun.serve uses options outside the deterministic fetch-handler recipe."@,
        "Use only fetch and an optional port, or migrate routes, WebSockets, and lifecycle hooks manually."@,
    )
}

/// Edits and refusals for the `Bun.serve` calls at `starts`; `None` when one
/// of them cannot be examined.
pub open spec fn serve_scan(path: Seq<char>, content: Seq<char>, starts: Seq<int>) -> Option<
    (Seq<(int, int, Seq<char>)>, Seq<DiagnosticView>),
>
    decreases starts.len(),
{
    if starts.len() == 0 {
        Some((seq![], seq![]))
    } else {
        match serve_replacement_spec(content, starts[0]) {
            None => None,
            Some(step) => match serve_scan(path, content, starts.drop_first()) {
                None => None,
                Some(rest) => match step {
                    Some(r) => Some((seq![(starts[0], r.0, r.1)] + rest.0, rest.1)),
                    None => Some((rest.0, seq![serve_unsupported(path)] + rest.1)),
                },
            },
        }
    }
}

/// The `Bun.serve` calls of `content` can all be examined: none has an
/// argument object that closes after the call, and the Hono import check
/// meets no import line whose `}` precedes its `{`.
pub open spec fn serve_examinable(content: Seq<char>) -> bool {
    serve_scan(""@, content, code_occurrences_spec(content, "Bun.serve"@)) is Some
}

pub proof fn lemma_serve_scan_path(p1: Seq<char>, p2: Seq<char>, content: Seq<char>, starts: Seq<int>)
    ensures
        (serve_scan(p1, content, starts) is Some) == (serve_scan(p2, content, starts) is Some),
    decreases starts.len(),
{
    if starts.len() > 0 {
        lemma_serve_scan_path(p1, p2, content, starts.drop_first());
    }
}

/// The serve recipe applied to a whole file.
pub open spec fn transform_spec(path: Seq<char>, content: Seq<char>) -> TransformView {
    match serve_scan(path, content, code_occurrences_spec(content, "Bun.serve"@)) {
        Some(scan) => TransformView {
            content: apply_spec(content, scan.0),
            counts: counts_one(RecipeId::ServeToDenoServe, scan.0.len() as int),
            diagnostics: scan.1,
            permissions: if scan.0.len() == 0 {
                Set::empty()
            } else {
                set![DenoPermission::Net]
            },
        },
        None => TransformView {
            content: content,
            counts: super::no_counts(),
            diagnostics: seq![],
            permissions: Set::empty(),
        },
    }
}

fn copy_chars(t: &[char]) -> (r: Vec<char>)
    ensures
        r@ == t@,
{
    slice_of(t, 0, t.len())
}

/// The port and handler chosen by the properties; see `serve_props`.
fn choose_props(content: &[char], props: &[Vec<char>]) -> (r: Option<
    Option<(Option<Vec<char>>, Option<Vec<char>>)>,
>)
    ensures
        match r {
            None => serve_props(content@, texts(props@), None, None) is None,
            Some(None) => serve_props(content@, texts(props@), None, None) == Some(
                None::<(Option<Seq<char>>, Option<Seq<char>>)>,
            ),
            Some(Some(c)) => serve_props(content@, texts(props@), None, None) == Some(
                Some(
                    (
                        match c.0 {
                            Some(p) => Some(p@),
                            None => None::<Seq<char>>,
                        },
                        match c.1 {
                            Some(h) => Some(h@),
                            None => None::<Seq<char>>,
                        },
                    ),
                ),
            ),
        },
{
    proof {
        reveal_strlit("port");
        reveal_strlit("port:");
        reveal_strlit("fetch:");
    }
    let ghost ps = texts(props@);
    let mut port: Option<Vec<char>> = None;
    let mut handler: Option<Vec<char>> = None;
    let mut i: usize = 0;
    assert(ps.skip(0) =~= ps);
    while i < props.len()
        invariant
            i <= props.len(),
            ps == texts(props@),
            serve_props(content@, ps, None, None) == serve_props(
                content@,
                ps.skip(i as int),
                match port {
                    Some(p) => Some(p@),
                    None => None::<Seq<char>>,
                },
                match handler {
                    Some(h) => Some(h@),
                    None => None::<Seq<char>>,
                },
            ),
        decreases props.len() - i,
    {
        let p = &props[i];
        proof {
            reveal_strlit("port");
            reveal_strlit("port:");
            reveal_strlit("fetch:");
            assert(ps.skip(i as int)[0] == p@);
            assert(ps.skip(i as int).drop_first() =~= ps.skip(i + 1));
        }
        if str_eq(p, "port") {
            port = Some(chars_of("port"));
        } else if str_starts_with(p, "port:") {
            let (a, b) = trim_bounds(p, 5, p.len());
            assert(p@.subrange(5, p@.len() as int) =~= p@.skip(5));
            port = Some(slice_of(p, a, b));
        } else if str_starts_with(p, "fetch:") {
            let value = slice_of(p, 6, p.len());
            assert(value@ =~= p@.skip(6));
            match hono_fetch_handler(content, &value) {
                None => {
                    return None;
                },
                Some(h) => {
                    handler = h;
                },
            }
        } else if str_starts_with(p, "fetch(") || str_starts_with(p, "async fetch(") {
            handler = method_handler(p);
        } else {
            return Some(None);
        }
        i = i + 1;
    }
    assert(ps.skip(i as int).len() == 0);
    Some(Some((port, handler)))
}

/// The end and replacement of the `Bun.serve` call at `start`; see
/// `serve_replacement_spec`.
fn serve_replacement(content: &[char], mask: &[bool], start: usize) -> (r: Option<
    Option<(usize, Vec<char>)>,
>)
    requires
        mask@ == code_mask_spec(content@),
        mask@.len() == content@.len(),
        start + 9 <= content@.len(),
    ensures
        match r {
            None => serve_replacement_spec(content@, start as int) is None,
            Some(None) => serve_replacement_spec(content@, start as int) == Some(
                None::<(int, Seq<char>)>,
            ),
            Some(Some(x)) => serve_replacement_spec(content@, start as int) == Some(
                Some((x.0 as int, x.1@)),
            ) && start < x.0 <= content@.len(),
        },
{
    proof {
        reveal_strlit("{");
        reveal_strlit("}");
    }
    let mut cursor = start + 9;
    while cursor < content.len() && is_ascii_ws_exec(content[cursor])
        invariant
            start + 9 <= cursor <= content.len(),
            skip_ascii_ws(content@, start + 9) == skip_ascii_ws(content@, cursor as int),
        decreases content.len() - cursor,
    {
        cursor = cursor + 1;
    }
    assert(skip_ascii_ws(content@, cursor as int) == cursor as int);
    if cursor >= content.len() || content[cursor] != '(' {
        return Some(None);
    }
    let call_close = match matching_delimiter(content, mask, cursor, '(', ')') {
        Some(c) => c,
        None => {
            return Some(None);
        },
    };
    let inner = slice_of(content, cursor + 1, call_close);
    let (a, b) = trim_bounds(&inner, 0, inner.len());
    assert(inner@.subrange(0, inner@.len() as int) =~= inner@);
    let arguments = slice_of(&inner, a, b);
    if !str_starts_with(&arguments, "{") || !str_ends_with(&arguments, "}") {
        return Some(None);
    }
    proof {
        lemma_find_char_bounds(inner@, '{');
    }
    let f = match find_char_exec(&inner, '{') {
        Some(f) => f,
        None => {
            return Some(None);
        },
    };
    let object_open = cursor + 1 + f;
    assert(content@[object_open as int] == inner@[f as int]);
    let object_close = match matching_delimiter(content, mask, object_open, '{', '}') {
        Some(c) => c,
        None => {
            return Some(None);
        },
    };
    if object_close + 1 > call_close {
        return None;
    }
    if object_close + 1 != call_close {
        let (ta, tb) = trim_bounds(content, object_close + 1, call_close);
        if ta < tb {
            return Some(None);
        }
    }
    let body = slice_of(content, object_open + 1, object_close);
    let props = match split_properties(&body) {
        Some(p) => p,
        None => {
            return Some(None);
        },
    };
    let chosen = match choose_props(content, &props) {
        None => {
            return None;
        },
        Some(None) => {
            return Some(None);
        },
        Some(Some(c)) => c,
    };
    let (port, handler) = chosen;
    let h = match handler {
        None => {
            return Some(None);
        },
        Some(h) => h,
    };
    let mut out: Vec<char> = Vec::new();
    match &port {
        None => {
            push_str(&mut out, "Deno.serve(");
            push_chars(&mut out, &h);
            push_str(&mut out, ")");
        },
        Some(p) => {
            push_str(&mut out, "Deno.serve({ port: ");
            push_chars(&mut out, p);
            push_str(&mut out, " }, ");
            push_chars(&mut out, &h);
            push_str(&mut out, ")");
        },
    }
    Some(Some((call_close + 1, out)))
}

/// Rewrites each `Bun.serve` call of `content` that passes only `fetch` and an
/// optional `port`; the rewritten file needs network permission.
/// Whether every `Bun.serve` call of `content` can be examined, as
/// `serve_examinable` states it.
pub fn examinable(content: &str) -> (r: bool)
    ensures
        r == serve_examinable(content@),
{
    let chars = chars_of(content);
    let mask = code_mask_chars(&chars);
    let mut needle: Vec<char> = Vec::new();
    push_str(&mut needle, "Bun.serve");
    proof {
        reveal_strlit("Bun.serve");
    }
    let starts = code_occurrences_chars(&chars, &needle);
    let ghost occ = code_occurrences_spec(chars@, "Bun.serve"@);
    let mut k: usize = 0;
    assert(occ.skip(0) =~= occ);
    while k < starts.len()
        invariant
            k <= starts.len(),
            mask@ == code_mask_spec(chars@),
            mask@.len() == chars@.len(),
            occ == code_occurrences_spec(chars@, "Bun.serve"@),
            starts@.map_values(|x: usize| x as int) == occ,
            (serve_scan(""@, chars@, occ) is Some) == (serve_scan(""@, chars@, occ.skip(k as int)) is Some),
            chars@ == content@,
        decreases starts.len() - k,
    {
        let start = starts[k];
        let ghost here = occ.skip(k as int);
        proof {
            reveal_strlit("Bun.serve");
            assert(occ[k as int] == start as int);
            lemma_code_occurrence(chars@, "Bun.serve"@, k as int);
            assert(here.drop_first() =~= occ.skip(k + 1));
            assert(here[0] == start as int);
        }
        match serve_replacement(&chars, &mask, start) {
            None => {
                proof {
                    assert(serve_scan(""@, chars@, here) is None);
                }
                return false;
            },
            Some(_) => {},
        }
        k = k + 1;
    }
    assert(occ.skip(k as int) =~= Seq::<int>::empty());
    true
}

pub fn transform(path: &str, content: &str) -> (r: TransformResult)
    requires
        serve_examinable(content@),
    ensures
        r.wf(),
        r@ == transform_spec(path@, content@),
{
    let chars = chars_of(content);
    let mask = code_mask_chars(&chars);
    let mut needle: Vec<char> = Vec::new();
    push_str(&mut needle, "Bun.serve");
    proof {
        reveal_strlit("Bun.serve");
    }
    let starts = code_occurrences_chars(&chars, &needle);
    let ghost occ = code_occurrences_spec(chars@, "Bun.serve"@);
    proof {
        lemma_serve_scan_path(""@, path@, chars@, occ);
    }
    let ghost total = serve_scan(path@, chars@, occ).unwrap();
    let mut edits: Vec<Edit> = Vec::new();
    let mut diagnostics: Vec<Diagnostic> = Vec::new();
    let mut k: usize = 0;
    assert(occ.skip(0) =~= occ);
    while k < starts.len()
        invariant
            k <= starts.len(),
            mask@ == code_mask_spec(chars@),
            mask@.len() == chars@.len(),
            occ == code_occurrences_spec(chars@, "Bun.serve"@),
            starts@.map_values(|x: usize| x as int) == occ,
            serve_scan(path@, chars@, occ) == Some(total),
            serve_scan(path@, chars@, occ.skip(k as int)) matches Some(rest) && edits_view(edits@)
                + rest.0 == total.0 && diagnostics@.map_values(|d: Diagnostic| d@) + rest.1
                == total.1,
            ranges_fit(edits_view(edits@), chars@.len() as int),
        decreases starts.len() - k,
    {
        let start = starts[k];
        let ghost here = occ.skip(k as int);
        proof {
            reveal_strlit("Bun.serve");
            assert(occ[k as int] == start as int);
            lemma_code_occurrence(chars@, "Bun.serve"@, k as int);
            assert(here.drop_first() =~= occ.skip(k + 1));
            assert(here[0] == start as int);
        }
        let ghost rest = serve_scan(path@, chars@, occ.skip(k + 1)).unwrap();
        match serve_replacement(&chars, &mask, start) {
            None => {
                proof {
                    assert(serve_scan(path@, chars@, here) is None);
                }
                assert(false);
            },
            Some(Some(x)) => {
                let (end, text) = x;
                let e = Edit { start, end, text };
                let ghost before = edits@;
                edits.push(e);
                proof {
                    lemma_edits_view_push(before, e);
                    assert(edits_view(edits@) + rest.0 =~= edits_view(before) + (seq![e@]
                        + rest.0));
                    assert forall|i: int| 0 <= i < edits_view(edits@).len() implies 0
                        <= #[trigger] edits_view(edits@)[i].0 <= edits_view(edits@)[i].1
                        <= chars@.len() by {
                        if i < before.len() {
                            assert(edits_view(edits@)[i] == edits_view(before)[i]);
                        }
                    }
                }
            },
            Some(None) => {
                let d = blocking(
                    "RUNTIME_BUN_SERVE_UNSUPPORTED",
                    path,
                    "Bun.serve uses options outside the deterministic fetch-handler recipe.",
                    "Use only fetch and an optional port, or migrate routes, WebSockets, and lifecycle hooks manually.",
                );
                let ghost before = diagnostics@;
                diagnostics.push(d);
                proof {
                    assert(diagnostics@.map_values(|d: Diagnostic| d@) + rest.1 =~= before.map_values(
                        |d: Diagnostic| d@,
                    ) + (seq![d@] + rest.1));
                }
            },
        }
        k = k + 1;
    }
    proof {
        assert(occ.skip(k as int).len() == 0);
        assert(edits_view(edits@) + Seq::<(int, int, Seq<char>)>::empty() =~= edits_view(edits@));
        assert(diagnostics@.map_values(|d: Diagnostic| d@) + Seq::<DiagnosticView>::empty()
            =~= diagnostics@.map_values(|d: Diagnostic| d@));
        lemma_fitting_edits_select(edits_view(edits@), chars@.len() as int);
    }
    let count = edits.len();
    let mut permissions = PermissionSet::new();
    if count > 0 {
        permissions.insert(DenoPermission::Net);
    }
    assert(permissions@ =~= (if count == 0 {
        Set::empty()
    } else {
        set![DenoPermission::Net]
    }));
    finish(&chars, &edits, RecipeId::ServeToDenoServe, count, diagnostics, permissions)
}

} // verus!
