//! `bun:test` imports are split into `node:test` and `@std/expect` imports.
use vstd::prelude::*;
use crate::model::{Diagnostic, DiagnosticView};
use crate::runtime::lex::code_mask_spec;
use crate::runtime::model::PermissionSet;
use crate::text::{chars_of, join, join_exec, push_chars, push_str, str_eq, texts, lemma_texts_push};
use super::named_import::{imported_name, imported_name_spec, parse, parse_spec, NamedImport};
use super::{
    apply_spec, blocking, counts_one, recipe_blocking, scan_import_lines, scan_lines, finish,
    LineRecipe, RecipeId, TransformResult, TransformView,
};

verus! {

/// The `bun:test` exports that `node:test` provides under the same name.
pub open spec fn node_test_name(n: Seq<char>) -> bool {
    ||| n == "test"@
    ||| n == "describe"@
    ||| n == "it"@
    ||| n == "suite"@
    ||| n == "before"@
    ||| n == "after"@
    ||| n == "beforeEach"@
    ||| n == "afterEach"@
}

pub open spec fn test_api_unsupported(path: Seq<char>) -> DiagnosticView {
    recipe_blocking(
        "RUNTIME_BUN_TEST_API_UNSUPPORTED"@,
        path,
        "A bun:test API has no verified node:test or @std/expect mapping."@,
        "Replace unsupported mocks, spies, or matchers explicitly before retrying."@,
    )
}

/// The import items split into those for `node:test` and those for
/// `@std/expect`, in their order, or the refusal of an unmapped item.
pub open spec fn partition_names(path: Seq<char>, names: Seq<Seq<char>>) -> Result<
    (Seq<Seq<char>>, Seq<Seq<char>>),
    DiagnosticView,
>
    decreases names.len(),
{
    if names.len() == 0 {
        Ok((seq![], seq![]))
    } else {
        let rest = partition_names(path, names.drop_first());
        match imported_name_spec(names[0]) {
            Some(base) => if base == "expect"@ {
                match rest {
                    Ok(p) => Ok((p.0, seq![names[0]] + p.1)),
                    Err(d) => Err(d),
                }
            } else if node_test_name(base) {
                match rest {
                    Ok(p) => Ok((seq![names[0]] + p.0, p.1)),
                    Err(d) => Err(d),
                }
            } else {
                Err(test_api_unsupported(path))
            },
            None => Err(test_api_unsupported(path)),
        }
    }
}

pub open spec fn import_line(
    indentation: Seq<char>,
    names: Seq<Seq<char>>,
    module: Seq<char>,
    semicolon: Seq<char>,
) -> Seq<char> {
    indentation + "import { "@ + join(names, ", "@) + " } from \""@ + module + "\""@ + semicolon
}

/// The rewrite of one `bun:test` import line, or the reason it is refused.
pub open spec fn transform_test_import_spec(path: Seq<char>, line: Seq<char>) -> Result<
    Seq<char>,
    DiagnosticView,
> {
    match parse_spec(line, "bun:test"@) {
        None => Err(
            recipe_blocking(
                "RUNTIME_BUN_TEST_IMPORT_UNSUPPORTED"@,
                path,
                "The bun:test import shape is outside the deterministic named-import recipe."@,
                "Use named imports, then retry the runtime migration."@,
            ),
        ),
        Some(import) => match partition_names(path, import.names) {
            Err(d) => Err(d),
            Ok(p) => {
                let node = if p.0.len() > 0 {
                    seq![import_line(import.indentation, p.0, "node:test"@, import.semicolon)]
                } else {
                    seq![]
                };
                let expect = if p.1.len() > 0 {
                    seq![import_line(import.indentation, p.1, "jsr:@std/expect"@, import.semicolon)]
                } else {
                    seq![]
                };
                Ok(join(node + expect, "\n"@))
            },
        },
    }
}

fn is_node_test_name(n: &[char]) -> (r: bool)
    ensures
        r == node_test_name(n@),
{
    str_eq(n, "test") || str_eq(n, "describe") || str_eq(n, "it") || str_eq(n, "suite") || str_eq(
        n,
        "before",
    ) || str_eq(n, "after") || str_eq(n, "beforeEach") || str_eq(n, "afterEach")
}

fn copy_text(t: &[char]) -> (r: Vec<char>)
    ensures
        r@ == t@,
{
    crate::text::slice_of(t, 0, t.len())
}

fn import_line_exec(import: &NamedImport, names: &[Vec<char>], module: &str) -> (r: Vec<char>)
    ensures
        r@ == import_line(import@.indentation, texts(names@), module@, import@.semicolon),
{
    let joined = join_exec(names, ", ");
    let mut out: Vec<char> = Vec::new();
    push_chars(&mut out, &import.indentation);
    push_str(&mut out, "import { ");
    push_chars(&mut out, &joined);
    push_str(&mut out, " } from \"");
    push_str(&mut out, module);
    push_str(&mut out, "\"");
    push_chars(&mut out, &import.semicolon);
    out
}

/// Rewrites one `bun:test` import line.
pub fn transform_test_import(path: &str, line: &[char]) -> (r: Result<Vec<char>, Diagnostic>)
    ensures
        match r {
            Ok(v) => transform_test_import_spec(path@, line@) == Ok::<Seq<char>, DiagnosticView>(
                v@,
            ),
            Err(d) => transform_test_import_spec(path@, line@) == Err::<Seq<char>, DiagnosticView>(
                d@,
            ),
        },
{
    let import = match parse(line, "bun:test") {
        Some(i) => i,
        None => {
            return Err(
                blocking(
                    "RUNTIME_BUN_TEST_IMPORT_UNSUPPORTED",
                    path,
                    "The bun:test import shape is outside the deterministic named-import recipe.",
                    "Use named imports, then retry the runtime migration.",
                ),
            );
        },
    };
    let ghost names = import@.names;
    let mut node_names: Vec<Vec<char>> = Vec::new();
    let mut expect_names: Vec<Vec<char>> = Vec::new();
    let mut i: usize = 0;
    assert(names.skip(0) =~= names);
    while i < import.names.len()
        invariant
            i <= import.names.len(),
            names == texts(import.names@),
            names == import@.names,
            parse_spec(line@, "bun:test"@) == Some(import@),
            partition_names(path@, names) == match partition_names(path@, names.skip(i as int)) {
                Ok(p) => Ok::<(Seq<Seq<char>>, Seq<Seq<char>>), DiagnosticView>(
                    (texts(node_names@) + p.0, texts(expect_names@) + p.1),
                ),
                Err(d) => Err(d),
            },
        decreases import.names.len() - i,
    {
        let name = &import.names[i];
        proof {
            assert(names.skip(i as int)[0] == name@);
            assert(names.skip(i as int).drop_first() =~= names.skip(i + 1));
        }
        let base = imported_name(name);
        let mut kind: u8 = 0;
        match &base {
            Some(b) => {
                if str_eq(b, "expect") {
                    kind = 1;
                } else if is_node_test_name(b) {
                    kind = 2;
                }
            },
            None => {},
        }
        if kind == 0 {
            assert(partition_names(path@, names.skip(i as int)) == Err::<
                (Seq<Seq<char>>, Seq<Seq<char>>),
                DiagnosticView,
            >(test_api_unsupported(path@)));
            return Err(
                blocking(
                    "RUNTIME_BUN_TEST_API_UNSUPPORTED",
                    path,
                    "A bun:test API has no verified node:test or @std/expect mapping.",
                    "Replace unsupported mocks, spies, or matchers explicitly before retrying.",
                ),
            );
        }
        let item = copy_text(name);
        if kind == 1 {
            let ghost before = expect_names@;
            expect_names.push(item);
            proof {
                lemma_texts_push(before, item);
                match partition_names(path@, names.skip(i + 1)) {
                    Ok(p) => {
                        assert(texts(before) + (seq![name@] + p.1) =~= texts(expect_names@) + p.1);
                    },
                    Err(d) => {},
                }
            }
        } else {
            let ghost before = node_names@;
            node_names.push(item);
            proof {
                lemma_texts_push(before, item);
                match partition_names(path@, names.skip(i + 1)) {
                    Ok(p) => {
                        assert(texts(before) + (seq![name@] + p.0) =~= texts(node_names@) + p.0);
                    },
                    Err(d) => {},
                }
            }
        }
        i = i + 1;
    }
    assert(names.skip(i as int).len() == 0);
    assert(texts(node_names@) + Seq::<Seq<char>>::empty() =~= texts(node_names@));
    assert(texts(expect_names@) + Seq::<Seq<char>>::empty() =~= texts(expect_names@));
    let mut lines: Vec<Vec<char>> = Vec::new();
    if node_names.len() > 0 {
        let l = import_line_exec(&import, &node_names, "node:test");
        lines.push(l);
    }
    let ghost mid = lines@;
    if expect_names.len() > 0 {
        let l = import_line_exec(&import, &expect_names, "jsr:@std/expect");
        lines.push(l);
        proof {
            lemma_texts_push(mid, l);
        }
    }
    proof {
        let node = if node_names@.len() > 0 {
            seq![import_line(import@.indentation, texts(node_names@), "node:test"@, import@.semicolon)]
        } else {
            seq![]
        };
        let expect = if expect_names@.len() > 0 {
            seq![
                import_line(
                    import@.indentation,
                    texts(expect_names@),
                    "jsr:@std/expect"@,
                    import@.semicolon,
                ),
            ]
        } else {
            seq![]
        };
        assert(texts(mid) =~= node);
        assert(texts(lines@) =~= node + expect);
    }
    Ok(join_exec(&lines, "\n"))
}

/// The `bun:test` recipe applied to a whole file.
pub open spec fn transform_spec(path: Seq<char>, content: Seq<char>) -> TransformView {
    let scan = scan_lines(LineRecipe::Test, path, content, code_mask_spec(content), 0);
    TransformView {
        content: apply_spec(content, scan.edits),
        counts: counts_one(RecipeId::TestToNodeTest, scan.count),
        diagnostics: scan.diagnostics,
        permissions: Set::empty(),
    }
}

/// Rewrites every `bun:test` import of `content`.
pub fn transform(path: &str, content: &str) -> (r: TransformResult)
    ensures
        r.wf(),
        r@ == transform_spec(path@, content@),
{
    let chars = chars_of(content);
    let (edits, diagnostics, count) = scan_import_lines(LineRecipe::Test, path, &chars);
    finish(&chars, &edits, RecipeId::TestToNodeTest, count, diagnostics, PermissionSet::new())
}

} // verus!
