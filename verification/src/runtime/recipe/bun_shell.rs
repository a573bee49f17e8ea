//! `import { $ } from "bun"` becomes an import of the dax shell module.
use vstd::prelude::*;
use crate::model::{Diagnostic, DiagnosticView};
use crate::runtime::lex::code_mask_spec;
use crate::runtime::model::{DenoPermission, PermissionSet};
use crate::text::{chars_of, push_chars, push_str, str_eq};
use super::named_import::{
    imported_name, imported_name_spec, local_name, local_name_spec, parse, parse_spec,
};
use super::{
    apply_spec, blocking, counts_one, recipe_blocking, scan_import_lines, scan_lines, finish,
    LineRecipe, RecipeId, TransformResult, TransformView,
};

verus! {

pub open spec fn dax_specifier() -> Seq<char> {
    "jsr:@david/dax@0.49.0"@
}

/// The rewrite of one `bun` import line, or the reason it is refused.
pub open spec fn transform_import_spec(path: Seq<char>, line: Seq<char>) -> Result<
    Seq<char>,
    DiagnosticView,
> {
    match parse_spec(line, "bun"@) {
        None => Err(
            recipe_blocking(
                "RUNTIME_BUN_SHELL_IMPORT_UNSUPPORTED"@,
                path,
                "The Bun shell import shape is outside the deterministic dax recipe."@,
                "Use one named $ import from bun before retrying."@,
            ),
        ),
        Some(import) => if import.names.len() != 1 || imported_name_spec(import.names[0]) != Some(
            "$"@,
        ) {
            Err(
                recipe_blocking(
                    "RUNTIME_BUN_SHELL_API_UNSUPPORTED"@,
                    path,
                    "The bun import contains exports beyond the supported $ shell template."@,
                    "Split the $ import and migrate the remaining Bun exports explicitly."@,
                ),
            )
        } else {
            match local_name_spec(import.names[0]) {
                None => Err(
                    recipe_blocking(
                        "RUNTIME_BUN_SHELL_IMPORT_UNSUPPORTED"@,
                        path,
                        "The Bun shell alias could not be parsed safely."@,
                        "Use a direct named import or a single 'as' alias."@,
                    ),
                ),
                Some(local) => Ok(
                    import.indentation + "import "@ + local + " from \""@ + dax_specifier() + "\""@
                        + import.semicolon,
                ),
            }
        },
    }
}

/// Rewrites one `bun` import line.
pub fn transform_import(path: &str, line: &[char]) -> (r: Result<Vec<char>, Diagnostic>)
    ensures
        match r {
            Ok(v) => transform_import_spec(path@, line@) == Ok::<Seq<char>, DiagnosticView>(v@),
            Err(d) => transform_import_spec(path@, line@) == Err::<Seq<char>, DiagnosticView>(d@),
        },
{
    let import = match parse(line, "bun") {
        Some(i) => i,
        None => {
            return Err(
                blocking(
                    "RUNTIME_BUN_SHELL_IMPORT_UNSUPPORTED",
                    path,
                    "The Bun shell import shape is outside the deterministic dax recipe.",
                    "Use one named $ import from bun before retrying.",
                ),
            );
        },
    };
    let ok_name = if import.names.len() != 1 {
        false
    } else {
        match imported_name(&import.names[0]) {
            Some(n) => str_eq(&n, "$"),
            None => false,
        }
    };
    proof {
        if import.names.len() == 1 {
            assert(import@.names[0] == import.names@[0]@);
        }
    }
    if !ok_name {
        return Err(
            blocking(
                "RUNTIME_BUN_SHELL_API_UNSUPPORTED",
                path,
                "The bun import contains exports beyond the supported $ shell template.",
                "Split the $ import and migrate the remaining Bun exports explicitly.",
            ),
        );
    }
    let local = match local_name(&import.names[0]) {
        Some(l) => l,
        None => {
            return Err(
                blocking(
                    "RUNTIME_BUN_SHELL_IMPORT_UNSUPPORTED",
                    path,
                    "The Bun shell alias could not be parsed safely.",
                    "Use a direct named import or a single 'as' alias.",
                ),
            );
        },
    };
    let mut out: Vec<char> = Vec::new();
    push_chars(&mut out, &import.indentation);
    push_str(&mut out, "import ");
    push_chars(&mut out, &local);
    push_str(&mut out, " from \"");
    push_str(&mut out, "jsr:@david/dax@0.49.0");
    push_str(&mut out, "\"");
    push_chars(&mut out, &import.semicolon);
    Ok(out)
}

/// The shell recipe applied to a whole file.
pub open spec fn transform_spec(path: Seq<char>, content: Seq<char>) -> TransformView {
    let scan = scan_lines(LineRecipe::Shell, path, content, code_mask_spec(content), 0);
    TransformView {
        content: apply_spec(content, scan.edits),
        counts: counts_one(RecipeId::ShellToDax, scan.count),
        diagnostics: scan.diagnostics,
        permissions: if scan.count == 0 {
            Set::empty()
        } else {
            set![DenoPermission::Env, DenoPermission::Run]
        },
    }
}

/// Rewrites every `bun` shell import of `content` to dax; the rewritten file
/// needs the environment and subprocess permissions.
pub fn transform(path: &str, content: &str) -> (r: TransformResult)
    ensures
        r.wf(),
        r@ == transform_spec(path@, content@),
{
    let chars = chars_of(content);
    let (edits, diagnostics, count) = scan_import_lines(LineRecipe::Shell, path, &chars);
    let mut permissions = PermissionSet::new();
    if count > 0 {
        permissions.insert(DenoPermission::Env);
        permissions.insert(DenoPermission::Run);
    }
    assert(permissions@ =~= (if count == 0 {
        Set::empty()
    } else {
        set![DenoPermission::Env, DenoPermission::Run]
    }));
    finish(&chars, &edits, RecipeId::ShellToDax, count, diagnostics, permissions)
}

} // verus!
