//! `import { Database } from "bun:sqlite"` becomes `DatabaseSync` from
//! `node:sqlite`, when the file only uses the members both APIs share.
use vstd::prelude::*;
use crate::model::{Diagnostic, DiagnosticView};
use crate::runtime::lex::{code_mask_spec, code_occurrences_spec, contains_code_chars};
use crate::runtime::model::PermissionSet;
use crate::text::{chars_of, join, join_exec, push_chars, push_str, str_eq, texts, lemma_texts_push};
use super::named_import::{
    imported_name, imported_name_spec, local_name, local_name_spec, parse, parse_spec,
};
use super::{
    apply_spec, blocking, counts_one, recipe_blocking, scan_import_lines, scan_lines, finish,
    LineRecipe, RecipeId, TransformResult, TransformView,
};

verus! {

/// `.member(` as it appears in a call of a database member.
pub open spec fn member_call(member: Seq<char>) -> Seq<char> {
    "."@ + member + "("@
}

/// Whether code in `content` calls a `Database` member that `node:sqlite` lacks.
pub open spec fn uses_incompatible_member(content: Seq<char>) -> bool {
    ||| code_occurrences_spec(content, member_call("query"@)).len() > 0
    ||| code_occurrences_spec(content, member_call("run"@)).len() > 0
    ||| code_occurrences_spec(content, member_call("serialize"@)).len() > 0
    ||| code_occurrences_spec(content, member_call("transaction"@)).len() > 0
}

pub open spec fn api_unsupported(path: Seq<char>) -> DiagnosticView {
    recipe_blocking(
        "RUNTIME_BUN_SQLITE_API_UNSUPPORTED"@,
        path,
        "A bun:sqlite export has no enabled deterministic node:sqlite mapping."@,
        "Limit the import to Database or migrate the additional SQLite API explicitly."@,
    )
}

pub open spec fn alias_unsupported(path: Seq<char>) -> DiagnosticView {
    recipe_blocking(
        "RUNTIME_BUN_SQLITE_IMPORT_UNSUPPORTED"@,
        path,
        "The bun:sqlite Database alias could not be parsed safely."@,
        "Use a direct named import or a single 'as' alias."@,
    )
}

pub open spec fn member_unsupported(path: Seq<char>) -> DiagnosticView {
    recipe_blocking(
        "RUNTIME_BUN_SQLITE_API_UNSUPPORTED"@,
        path,
        "The Bun Database value uses a member outside the verified node:sqlite subset."@,
        "Rewrite the value to use prepare, exec, and close before retrying."@,
    )
}

pub open spec fn prepend_ok(p: Seq<Seq<char>>, r: Result<Seq<Seq<char>>, DiagnosticView>) -> Result<
    Seq<Seq<char>>,
    DiagnosticView,
> {
    match r {
        Ok(x) => Ok(p + x),
        Err(d) => Err(d),
    }
}

/// `DatabaseSync as <local>` for each imported name, or the first refusal.
pub open spec fn map_database_names(
    path: Seq<char>,
    names: Seq<Seq<char>>,
    content: Seq<char>,
) -> Result<Seq<Seq<char>>, DiagnosticView>
    decreases names.len(),
{
    if names.len() == 0 {
        Ok(seq![])
    } else if imported_name_spec(names[0]) != Some("Database"@) {
        Err(api_unsupported(path))
    } else {
        match local_name_spec(names[0]) {
            None => Err(alias_unsupported(path)),
            Some(local) => if uses_incompatible_member(content) {
                Err(member_unsupported(path))
            } else {
                prepend_ok(
                    seq!["DatabaseSync as "@ + local],
                    map_database_names(path, names.drop_first(), content),
                )
            },
        }
    }
}

/// The rewrite of one `bun:sqlite` import line of `content`, or the reason it is refused.
pub open spec fn transform_import_spec(path: Seq<char>, line: Seq<char>, content: Seq<char>) -> Result<
    Seq<char>,
    DiagnosticView,
> {
    match parse_spec(line, "bun:sqlite"@) {
        None => Err(
            recipe_blocking(
                "RUNTIME_BUN_SQLITE_IMPORT_UNSUPPORTED"@,
                path,
                "The bun:sqlite import shape is outside the deterministic Database recipe."@,
                "Use a named Database import and the shared prepare, exec, and close API subset."@,
            ),
        ),
        Some(import) => match map_database_names(path, import.names, content) {
            Err(d) => Err(d),
            Ok(mapped) => Ok(
                import.indentation + "import { "@ + join(mapped, ", "@) + " } from \"node:sqlite\""@
                    + import.semicolon,
            ),
        },
    }
}

fn member_used(content: &[char]) -> (r: bool)
    ensures
        r == uses_incompatible_member(content@),
{
    let mut q: Vec<char> = Vec::new();
    push_str(&mut q, ".query(");
    let mut ru: Vec<char> = Vec::new();
    push_str(&mut ru, ".run(");
    let mut se: Vec<char> = Vec::new();
    push_str(&mut se, ".serialize(");
    let mut tr: Vec<char> = Vec::new();
    push_str(&mut tr, ".transaction(");
    proof {
        reveal_strlit(".query(");
        reveal_strlit(".run(");
        reveal_strlit(".serialize(");
        reveal_strlit(".transaction(");
        reveal_strlit(".");
        reveal_strlit("(");
        reveal_strlit("query");
        reveal_strlit("run");
        reveal_strlit("serialize");
        reveal_strlit("transaction");
        assert(q@ =~= member_call("query"@));
        assert(ru@ =~= member_call("run"@));
        assert(se@ =~= member_call("serialize"@));
        assert(tr@ =~= member_call("transaction"@));
    }
    contains_code_chars(content, &q) || contains_code_chars(content, &ru) || contains_code_chars(
        content,
        &se,
    ) || contains_code_chars(content, &tr)
}

/// Rewrites one `bun:sqlite` import line of `content`.
pub fn transform_import(path: &str, line: &[char], content: &[char]) -> (r: Result<
    Vec<char>,
    Diagnostic,
>)
    ensures
        match r {
            Ok(v) => transform_import_spec(path@, line@, content@) == Ok::<
                Seq<char>,
                DiagnosticView,
            >(v@),
            Err(d) => transform_import_spec(path@, line@, content@) == Err::<
                Seq<char>,
                DiagnosticView,
            >(d@),
        },
{
    let import = match parse(line, "bun:sqlite") {
        Some(i) => i,
        None => {
            return Err(
                blocking(
                    "RUNTIME_BUN_SQLITE_IMPORT_UNSUPPORTED",
                    path,
                    "The bun:sqlite import shape is outside the deterministic Database recipe.",
                    "Use a named Database import and the shared prepare, exec, and close API subset.",
                ),
            );
        },
    };
    let incompatible = member_used(content);
    let ghost names = import@.names;
    let mut mapped: Vec<Vec<char>> = Vec::new();
    let mut i: usize = 0;
    assert(names.skip(0) =~= names);
    while i < import.names.len()
        invariant
            i <= import.names.len(),
            names == texts(import.names@),
            names == import@.names,
            parse_spec(line@, "bun:sqlite"@) == Some(import@),
            incompatible == uses_incompatible_member(content@),
            map_database_names(path@, names, content@) == prepend_ok(
                texts(mapped@),
                map_database_names(path@, names.skip(i as int), content@),
            ),
        decreases import.names.len() - i,
    {
        let name = &import.names[i];
        proof {
            assert(names.skip(i as int)[0] == name@);
            assert(names.skip(i as int).drop_first() =~= names.skip(i + 1));
        }
        let is_database = match imported_name(name) {
            Some(n) => str_eq(&n, "Database"),
            None => false,
        };
        if !is_database {
            assert(map_database_names(path@, names.skip(i as int), content@) == Err::<
                Seq<Seq<char>>,
                DiagnosticView,
            >(api_unsupported(path@)));
            return Err(
                blocking(
                    "RUNTIME_BUN_SQLITE_API_UNSUPPORTED",
                    path,
                    "A bun:sqlite export has no enabled deterministic node:sqlite mapping.",
                    "Limit the import to Database or migrate the additional SQLite API explicitly.",
                ),
            );
        }
        let local = match local_name(name) {
            Some(l) => l,
            None => {
                assert(map_database_names(path@, names.skip(i as int), content@) == Err::<
                    Seq<Seq<char>>,
                    DiagnosticView,
                >(alias_unsupported(path@)));
                return Err(
                    blocking(
                        "RUNTIME_BUN_SQLITE_IMPORT_UNSUPPORTED",
                        path,
                        "The bun:sqlite Database alias could not be parsed safely.",
                        "Use a direct named import or a single 'as' alias.",
                    ),
                );
            },
        };
        if incompatible {
            return Err(
                blocking(
                    "RUNTIME_BUN_SQLITE_API_UNSUPPORTED",
                    path,
                    "The Bun Database value uses a member outside the verified node:sqlite subset.",
                    "Rewrite the value to use prepare, exec, and close before retrying.",
                ),
            );
        }
        let mut item: Vec<char> = Vec::new();
        push_str(&mut item, "DatabaseSync as ");
        push_chars(&mut item, &local);
        let ghost before = mapped@;
        mapped.push(item);
        proof {
            lemma_texts_push(before, item);
            assert(texts(before) + seq!["DatabaseSync as "@ + local@] =~= texts(mapped@));
            let r = map_database_names(path@, names.skip(i + 1), content@);
            match r {
                Ok(x) => {
                    assert(texts(before) + (seq!["DatabaseSync as "@ + local@] + x) =~= texts(
                        mapped@,
                    ) + x);
                },
                Err(d) => {},
            }
        }
        i = i + 1;
    }
    assert(names.skip(i as int).len() == 0);
    assert(texts(mapped@) + Seq::<Seq<char>>::empty() =~= texts(mapped@));
    let joined = join_exec(&mapped, ", ");
    let mut out: Vec<char> = Vec::new();
    push_chars(&mut out, &import.indentation);
    push_str(&mut out, "import { ");
    push_chars(&mut out, &joined);
    push_str(&mut out, " } from \"node:sqlite\"");
    push_chars(&mut out, &import.semicolon);
    Ok(out)
}

/// The SQLite recipe applied to a whole file.
pub open spec fn transform_spec(path: Seq<char>, content: Seq<char>) -> TransformView {
    let scan = scan_lines(LineRecipe::Sqlite, path, content, code_mask_spec(content), 0);
    TransformView {
        content: apply_spec(content, scan.edits),
        counts: counts_one(RecipeId::SqliteToNodeSqlite, scan.count),
        diagnostics: scan.diagnostics,
        permissions: Set::empty(),
    }
}

/// Rewrites every `bun:sqlite` import of `content` that the recipe supports.
pub fn transform(path: &str, content: &str) -> (r: TransformResult)
    ensures
        r.wf(),
        r@ == transform_spec(path@, content@),
{
    let chars = chars_of(content);
    let (edits, diagnostics, count) = scan_import_lines(LineRecipe::Sqlite, path, &chars);
    finish(&chars, &edits, RecipeId::SqliteToNodeSqlite, count, diagnostics, PermissionSet::new())
}

} // verus!
