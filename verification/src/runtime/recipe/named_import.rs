//! Recognition of single-line named ES imports such as
//! `import { a, b as c } from "module";`.
use vstd::prelude::*;
use crate::text::{
    chars_of, comma_items, comma_items_exec, ends_with, find_char, find_char_exec, push_str,
    slice_of, starts_with, str_ends_with, str_starts_with, strip_prefix, texts, trim,
    trim_bounds, trim_start, words, words_exec, chars_eq, leading_ws, lemma_trim_start_skip,
    lemma_find_char_bounds,
};

verus! {

/// A parsed named import: the line's indentation, the listed names (each
/// trimmed, possibly with an `as` alias) and whether it ended in `;`.
pub struct NamedImport {
    pub indentation: Vec<char>,
    pub names: Vec<Vec<char>>,
    pub semicolon: Vec<char>,
}

pub struct NamedImportView {
    pub indentation: Seq<char>,
    pub names: Seq<Seq<char>>,
    pub semicolon: Seq<char>,
}

impl View for NamedImport {
    type V = NamedImportView;

    open spec fn view(&self) -> NamedImportView {
        NamedImportView {
            indentation: self.indentation@,
            names: texts(self.names@),
            semicolon: self.semicolon@,
        }
    }
}

/// `from "<specifier>"` in one of the two quote styles, optionally followed by `;`.
pub open spec fn from_clause(specifier: Seq<char>, quote: char, semicolon: bool) -> Seq<char> {
    "from "@ + seq![quote] + specifier + seq![quote] + (if semicolon {
        ";"@
    } else {
        ""@
    })
}

pub open spec fn accepted_tail(tail: Seq<char>, specifier: Seq<char>) -> bool {
    ||| tail == from_clause(specifier, '"', true)
    ||| tail == from_clause(specifier, '\'', true)
    ||| tail == from_clause(specifier, '"', false)
    ||| tail == from_clause(specifier, '\'', false)
}

/// The named import written on `line` from module `specifier`, if the line is
/// exactly `import { ... } from "<specifier>"` with an optional `;`.
pub open spec fn parse_spec(line: Seq<char>, specifier: Seq<char>) -> Option<NamedImportView> {
    let trimmed = trim_start(line);
    let indentation = line.take(line.len() - trimmed.len());
    match strip_prefix(trimmed, "import "@) {
        None => None,
        Some(body) => match (find_char(body, '{'), find_char(body, '}')) {
            (Some(open), Some(close)) => {
                let tail = trim(body.skip(close + 1));
                if trim(body.take(open)).len() > 0 || close < open {
                    None
                } else if !accepted_tail(tail, specifier) {
                    None
                } else {
                    Some(
                        NamedImportView {
                            indentation,
                            names: comma_items(body.subrange(open + 1, close)),
                            semicolon: if ends_with(tail, ";"@) {
                                ";"@
                            } else {
                                ""@
                            },
                        },
                    )
                }
            },
            _ => None,
        },
    }
}

/// The exported name of an import item (`a` in `a as b`).
pub open spec fn imported_name_spec(name: Seq<char>) -> Option<Seq<char>> {
    if words(name).len() > 0 {
        Some(words(name)[0])
    } else {
        None
    }
}

/// The local binding of an import item: `a` for `a`, `b` for `a as b`.
pub open spec fn local_name_spec(name: Seq<char>) -> Option<Seq<char>> {
    let w = words(name);
    if w.len() == 1 {
        Some(w[0])
    } else if w.len() == 3 && w[1] == "as"@ {
        Some(w[2])
    } else {
        None
    }
}

fn from_clause_exec(specifier: &str, quote: char, semicolon: bool) -> (r: Vec<char>)
    ensures
        r@ == from_clause(specifier@, quote, semicolon),
{
    let mut r: Vec<char> = Vec::new();
    push_str(&mut r, "from ");
    r.push(quote);
    push_str(&mut r, specifier);
    r.push(quote);
    if semicolon {
        r.push(';');
    }
    proof {
        reveal_strlit("from ");
        reveal_strlit(";");
        reveal_strlit("");
    }
    assert(r@ =~= from_clause(specifier@, quote, semicolon));
    r
}

/// Parses `line` as a named import from `specifier`.
pub fn parse(line: &[char], specifier: &str) -> (r: Option<NamedImport>)
    ensures
        r matches Some(v) ==> parse_spec(line@, specifier@) == Some(v@),
        r is None ==> parse_spec(line@, specifier@) is None,
{
    let lead = leading_ws(line, 0, line.len());
    proof {
        lemma_trim_start_skip(line@, lead as int);
    }
    let trimmed = slice_of(line, lead, line.len());
    assert(trimmed@ =~= trim_start(line@));
    if !str_starts_with(&trimmed, "import ") {
        return None;
    }
    proof {
        reveal_strlit("import ");
    }
    let body = slice_of(&trimmed, 7, trimmed.len());
    assert(body@ =~= trimmed@.skip(7));
    let open = match find_char_exec(&body, '{') {
        Some(i) => i,
        None => {
            return None;
        },
    };
    let close = match find_char_exec(&body, '}') {
        Some(i) => i,
        None => {
            return None;
        },
    };
    let (a0, b0) = trim_bounds(&body, 0, open);
    assert(body@.subrange(0, open as int) =~= body@.take(open as int));
    proof {
        assert(strip_prefix(trimmed@, "import "@) == Some(body@));
        lemma_find_char_bounds(body@, '{');
        lemma_find_char_bounds(body@, '}');
        assert(find_char(body@, '{') == Some(open as int));
        assert(find_char(body@, '}') == Some(close as int));
    }
    if a0 < b0 || close < open {
        assert(trim(body@.take(open as int)).len() == b0 - a0);
        return None;
    }
    let (a1, b1) = trim_bounds(&body, close + 1, body.len());
    assert(body@.subrange(close + 1, body.len() as int) =~= body@.skip(close + 1));
    let tail = slice_of(&body, a1, b1);
    let dq = from_clause_exec(specifier, '"', true);
    let sq = from_clause_exec(specifier, '\'', true);
    let dn = from_clause_exec(specifier, '"', false);
    let sn = from_clause_exec(specifier, '\'', false);
    if !chars_eq(&tail, &dq) && !chars_eq(&tail, &sq) && !chars_eq(&tail, &dn) && !chars_eq(
        &tail,
        &sn,
    ) {
        return None;
    }
    let names = comma_items_exec(&body, open + 1, close);
    let semicolon: Vec<char> = if str_ends_with(&tail, ";") {
        chars_of(";")
    } else {
        chars_of("")
    };
    let indentation = slice_of(line, 0, lead);
    assert(indentation@ =~= line@.take(line@.len() - trim_start(line@).len()));
    Some(NamedImport { indentation, names, semicolon })
}

/// The exported name of an import item.
pub fn imported_name(name: &[char]) -> (r: Option<Vec<char>>)
    ensures
        r matches Some(v) ==> imported_name_spec(name@) == Some(v@),
        r is None ==> imported_name_spec(name@) is None,
{
    let w = words_exec(name);
    if w.len() > 0 {
        assert(texts(w@)[0] == w@[0]@);
        Some(slice_of(&w[0], 0, w[0].len()))
    } else {
        None
    }
}

/// The local binding introduced by an import item.
pub fn local_name(name: &[char]) -> (r: Option<Vec<char>>)
    ensures
        r matches Some(v) ==> local_name_spec(name@) == Some(v@),
        r is None ==> local_name_spec(name@) is None,
{
    let w = words_exec(name);
    if w.len() == 1 {
        assert(texts(w@)[0] == w@[0]@);
        Some(slice_of(&w[0], 0, w[0].len()))
    } else if w.len() == 3 && crate::text::str_eq(&w[1], "as") {
        assert(texts(w@)[1] == w@[1]@);
        assert(texts(w@)[2] == w@[2]@);
        Some(slice_of(&w[2], 0, w[2].len()))
    } else {
        proof {
            if w.len() == 3 {
                assert(texts(w@)[1] == w@[1]@);
            }
        }
        None
    }
}

} // verus!
