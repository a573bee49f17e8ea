//! The recipes applied to one file in turn, and what is left unmigrated.
use vstd::prelude::*;
use crate::model::{Diagnostic, DiagnosticView};
use crate::runtime::lex::{
    code_occurrences, code_occurrences_spec, contains_code, without_comments, without_comments_spec,
};
use crate::runtime::model::{DenoPermission, PermissionSet, RuntimeFile, RuntimeRecipeApplication};
use crate::text::{
    chars_of, contains_seq, ends_with, rfind_char, rfind_char_exec, slice_of, starts_with,
    str_contains, str_ends_with, str_starts_with,
};
use super::manifest::{source_entry, source_entry_spec};
use super::{
    blocking, no_counts, recipe_at, recipe_blocking, recipe_name, RecipeId, TransformResult,
    TransformView,
};

verus! {

/// Results of two recipes run one after the other: the second one's text,
/// the counts added up, the diagnostics one after the other and the
/// permissions of both.
pub open spec fn merge_view(a: TransformView, b: TransformView) -> TransformView {
    TransformView {
        content: b.content,
        counts: Seq::new(8, |k: int| (a.counts[k] + b.counts[k]) as usize),
        diagnostics: a.diagnostics + b.diagnostics,
        permissions: a.permissions.union(b.permissions),
    }
}

impl TransformResult {
    /// Appends the next recipe's result, as `merge_view` states.
    pub fn merge(&mut self, next: TransformResult)
        requires
            old(self).wf(),
            next.wf(),
            forall|k: int| 0 <= k < 8 ==> old(self).counts@[k] + next.counts@[k] <= usize::MAX,
        ensures
            final(self).wf(),
            final(self)@ == merge_view(old(self)@, next@),
    {
        let TransformResult { content, counts, diagnostics, required_permissions } = next;
        let mut diagnostics = diagnostics;
        let mut sums: Vec<usize> = Vec::new();
        let mut k: usize = 0;
        while k < 8
            invariant
                k <= 8,
                self.counts@.len() == 8,
                counts@.len() == 8,
                forall|j: int| 0 <= j < 8 ==> self.counts@[j] + counts@[j] <= usize::MAX,
                sums@ == Seq::new(k as nat, |j: int| (self.counts@[j] + counts@[j]) as usize),
            decreases 8 - k,
        {
            sums.push(self.counts[k] + counts[k]);
            k = k + 1;
        }
        self.content = content;
        self.counts = sums;
        self.diagnostics.append(&mut diagnostics);
        self.required_permissions.extend(&required_permissions);
        assert(self@.counts =~= merge_view(old(self)@, next@).counts);
        assert(self@.diagnostics =~= merge_view(old(self)@, next@).diagnostics);
    }
}

pub open spec fn remaining_import_spec(path: Seq<char>, content: Seq<char>) -> Seq<DiagnosticView> {
    let c = without_comments_spec(content);
    let module = if contains_seq(c, "\"bun:"@) || contains_seq(c, "'bun:"@) {
        seq![
            recipe_blocking(
                "RUNTIME_BUN_MODULE_UNSUPPORTED"@,
                path,
                "A Bun-specific module import has no enabled deterministic recipe."@,
                "Replace the reported Bun module with a reviewed Deno, Node, npm, or JSR equivalent."@,
            ),
        ]
    } else {
        seq![]
    };
    let shell = if contains_seq(c, " from \"bun\""@) || contains_seq(c, " from 'bun'"@) {
        seq![
            recipe_blocking(
                "RUNTIME_BUN_SHELL_UNSUPPORTED"@,
                path,
                "The Bun runtime import remains outside the deterministic recipe set."@,
                "Replace Bun shell APIs with Deno.Command or a reviewed dax integration."@,
            ),
        ]
    } else {
        seq![]
    };
    module + shell
}

/// The refusals for Bun imports that no recipe took care of.
pub fn remaining_import(path: &str, content: &str) -> (r: Vec<Diagnostic>)
    ensures
        r@.map_values(|d: Diagnostic| d@) == remaining_import_spec(path@, content@),
{
    let mut diagnostics: Vec<Diagnostic> = Vec::new();
    let stripped = without_comments(content);
    let c = chars_of(stripped.as_str());
    if str_contains(&c, "\"bun:") || str_contains(&c, "'bun:") {
        diagnostics.push(
            blocking(
                "RUNTIME_BUN_MODULE_UNSUPPORTED",
                path,
                "A Bun-specific module import has no enabled deterministic recipe.",
                "Replace the reported Bun module with a reviewed Deno, Node, npm, or JSR equivalent.",
            ),
        );
    }
    let ghost first = diagnostics@;
    if str_contains(&c, " from \"bun\"") || str_contains(&c, " from 'bun'") {
        diagnostics.push(
            blocking(
                "RUNTIME_BUN_SHELL_UNSUPPORTED",
                path,
                "The Bun runtime import remains outside the deterministic recipe set.",
                "Replace Bun shell APIs with Deno.Command or a reviewed dax integration.",
            ),
        );
    }
    assert(diagnostics@.map_values(|d: Diagnostic| d@) =~= remaining_import_spec(path@, content@));
    diagnostics
}

/// A refusal when `cond` holds, nothing otherwise.
pub open spec fn refusal_if(cond: bool, d: DiagnosticView) -> Seq<DiagnosticView> {
    if cond {
        seq![d]
    } else {
        seq![]
    }
}

pub open spec fn remaining_source_spec(path: Seq<char>, content: Seq<char>) -> Seq<DiagnosticView> {
    remaining_import_spec(path, content) + refusal_if(
        code_occurrences_spec(content, "Bun.serve"@).len() > 0,
        recipe_blocking(
            "RUNTIME_BUN_SERVE_UNSUPPORTED"@,
            path,
            "A Bun.serve call uses options outside the safe fetch-handler recipe."@,
            "Reduce the call to fetch plus an optional port, or migrate routes and WebSocket behavior manually."@,
        ),
    ) + refusal_if(
        code_occurrences_spec(content, "Bun.file"@).len() > 0,
        recipe_blocking(
            "RUNTIME_BUN_FILE_UNSUPPORTED"@,
            path,
            "A Bun.file call uses behavior outside the safe text/json recipe."@,
            "Replace the call with a reviewed Deno file API and declare its required permission."@,
        ),
    ) + refusal_if(
        code_occurrences_spec(content, "Bun."@).len() > 0,
        recipe_blocking(
            "RUNTIME_BUN_GLOBAL_UNSUPPORTED"@,
            path,
            "A Bun global API remains after applying the available runtime recipes."@,
            "Migrate the reported Bun API explicitly before applying this plan."@,
        ),
    ) + refusal_if(
        code_occurrences_spec(content, "HTMLRewriter"@).len() > 0,
        recipe_blocking(
            "RUNTIME_HTML_REWRITER_UNSUPPORTED"@,
            path,
            "HTMLRewriter has no direct Deno runtime equivalent."@,
            "Choose and review an HTML parser or npm-compatible replacement."@,
        ),
    ) + refusal_if(
        contains_seq(content, "type: \"macro\""@) || contains_seq(content, "type: 'macro'"@),
        recipe_blocking(
            "RUNTIME_BUN_MACRO_UNSUPPORTED"@,
            path,
            "Bun build-time macros have no direct Deno equivalent."@,
            "Move the macro work into an explicit build script before migration."@,
        ),
    )
}

fn push_if(diagnostics: &mut Vec<Diagnostic>, cond: bool, d: Diagnostic)
    ensures
        final(diagnostics)@.map_values(|x: Diagnostic| x@) == old(diagnostics)@.map_values(
            |x: Diagnostic| x@,
        ) + refusal_if(cond, d@),
{
    let ghost before = diagnostics@;
    if cond {
        diagnostics.push(d);
    }
    assert(diagnostics@.map_values(|x: Diagnostic| x@) =~= before.map_values(|x: Diagnostic| x@)
        + refusal_if(cond, d@));
}

/// The refusals for Bun usage that the source recipes left in place.
pub fn remaining_source_diagnostics(path: &str, content: &str) -> (r: Vec<Diagnostic>)
    ensures
        r@.map_values(|d: Diagnostic| d@) == remaining_source_spec(path@, content@),
{
    let mut diagnostics = remaining_import(path, content);
    let serve = code_occurrences(content, "Bun.serve");
    push_if(
        &mut diagnostics,
        serve.len() > 0,
        blocking(
            "RUNTIME_BUN_SERVE_UNSUPPORTED",
            path,
            "A Bun.serve call uses options outside the safe fetch-handler recipe.",
            "Reduce the call to fetch plus an optional port, or migrate routes and WebSocket behavior manually.",
        ),
    );
    let file = code_occurrences(content, "Bun.file");
    push_if(
        &mut diagnostics,
        file.len() > 0,
        blocking(
            "RUNTIME_BUN_FILE_UNSUPPORTED",
            path,
            "A Bun.file call uses behavior outside the safe text/json recipe.",
            "Replace the call with a reviewed Deno file API and declare its required permission.",
        ),
    );
    push_if(
        &mut diagnostics,
        contains_code(content, "Bun."),
        blocking(
            "RUNTIME_BUN_GLOBAL_UNSUPPORTED",
            path,
            "A Bun global API remains after applying the available runtime recipes.",
            "Migrate the reported Bun API explicitly before applying this plan.",
        ),
    );
    push_if(
        &mut diagnostics,
        contains_code(content, "HTMLRewriter"),
        blocking(
            "RUNTIME_HTML_REWRITER_UNSUPPORTED",
            path,
            "HTMLRewriter has no direct Deno runtime equivalent.",
            "Choose and review an HTML parser or npm-compatible replacement.",
        ),
    );
    let c = chars_of(content);
    push_if(
        &mut diagnostics,
        str_contains(&c, "type: \"macro\"") || str_contains(&c, "type: 'macro'"),
        blocking(
            "RUNTIME_BUN_MACRO_UNSUPPORTED",
            path,
            "Bun build-time macros have no direct Deno equivalent.",
            "Move the macro work into an explicit build script before migration.",
        ),
    );
    diagnostics
}

pub open spec fn unchanged_view(content: Seq<char>) -> TransformView {
    TransformView { content, counts: no_counts(), diagnostics: seq![], permissions: Set::empty() }
}

/// The first three source recipes: test imports, SQLite, shell.
pub open spec fn import_chain(path: Seq<char>, content: Seq<char>) -> TransformView {
    let r1 = merge_view(unchanged_view(content), super::imports::transform_spec(path, content));
    let r2 = merge_view(r1, super::bun_sqlite::transform_spec(path, r1.content));
    merge_view(r2, super::bun_shell::transform_spec(path, r2.content))
}

/// The source recipes in turn, with the refusals for what they left.
pub open spec fn source_chain(path: Seq<char>, content: Seq<char>) -> TransformView {
    let r3 = import_chain(path, content);
    let r4 = merge_view(r3, super::bun_serve::transform_spec(path, r3.content));
    let r5 = merge_view(r4, super::bun_file::transform_spec(path, r4.content));
    TransformView { diagnostics: r5.diagnostics + remaining_source_spec(path, r5.content), ..r5 }
}

/// The last segment of a `/`-separated path.
pub open spec fn file_name(path: Seq<char>) -> Seq<char> {
    match rfind_char(path, '/') {
        Some(i) => path.skip(i + 1),
        None => path,
    }
}

pub open spec fn tsconfig_file(path: Seq<char>) -> bool {
    starts_with(file_name(path), "tsconfig"@) && ends_with(file_name(path), ".json"@)
}

pub open spec fn bunfig_unsupported(path: Seq<char>) -> DiagnosticView {
    recipe_blocking(
        "RUNTIME_BUNFIG_UNSUPPORTED"@,
        path,
        "bunfig.toml requires a semantic configuration migration."@,
        "Move reviewed tasks and tooling settings into deno.json before applying the runtime plan."@,
    )
}

/// What the recipes make of one file.
pub open spec fn transform_file_view(path: Seq<char>, content: Seq<char>, perms: Set<DenoPermission>) -> TransformView {
    if source_entry_spec(path) {
        source_chain(path, content)
    } else if ends_with(path, "package.json"@) {
        merge_view(unchanged_view(content), super::manifest::manifest_spec(path, content, perms))
    } else if tsconfig_file(path) {
        merge_view(unchanged_view(content), super::tsconfig::tsconfig_spec(path, content))
    } else if ends_with(path, "bunfig.toml"@) {
        TransformView { diagnostics: seq![bunfig_unsupported(path)], ..unchanged_view(content) }
    } else {
        unchanged_view(content)
    }
}

/// Whether the source recipes can examine the file: every `Bun.serve` call
/// left after the import recipes can be examined.
pub open spec fn file_examinable(path: Seq<char>, content: Seq<char>) -> bool {
    source_entry_spec(path) ==> super::bun_serve::serve_examinable(import_chain(path, content).content)
}

/// The applications recorded for a file: each recipe with a nonzero count,
/// in recipe order.
pub open spec fn applications_spec(path: Seq<char>, counts: Seq<usize>) -> Seq<(Seq<char>, Seq<char>, usize)> {
    Seq::new(8, |k: int| (recipe_name(recipe_at(k)), path, counts[k])).filter(
        |a: (Seq<char>, Seq<char>, usize)| a.2 > 0,
    )
}

/// The recipes' output for one file.
pub struct RecipeOutput {
    pub content: String,
    pub applications: Vec<RuntimeRecipeApplication>,
    pub diagnostics: Vec<Diagnostic>,
    pub required_permissions: PermissionSet,
}

pub open spec fn application_view(a: RuntimeRecipeApplication) -> (Seq<char>, Seq<char>, usize) {
    (a.recipe_id@, a.path@, a.replacements)
}

fn import_steps(path: &str, content: &str) -> (r: TransformResult)
    ensures
        r.wf(),
        r@ == import_chain(path@, content@),
{
    let mut result = TransformResult::unchanged(content);
    let next = super::imports::transform(path, result.content.as_str());
    result.merge(next);
    let next = super::bun_sqlite::transform(path, result.content.as_str());
    result.merge(next);
    let next = super::bun_shell::transform(path, result.content.as_str());
    result.merge(next);
    result
}

/// Whether `transform_file` can take the file, as `file_examinable` states.
pub fn can_transform_file(file: &RuntimeFile) -> (r: bool)
    ensures
        r == file_examinable(file.path@, file.content@),
{
    let p = chars_of(file.path.as_str());
    if !source_entry(&p) {
        return true;
    }
    let r3 = import_steps(file.path.as_str(), file.content.as_str());
    super::bun_serve::examinable(r3.content.as_str())
}

pub(crate) fn file_name_exec(p: &[char]) -> (r: Vec<char>)
    ensures
        r@ == file_name(p@),
{
    match rfind_char_exec(p, '/') {
        Some(i) => {
            proof {
                crate::text::lemma_rfind_char_bounds(p@, '/');
            }
            slice_of(p, i + 1, p.len())
        },
        None => {
            let r = slice_of(p, 0, p.len());
            assert(r@ =~= p@);
            r
        },
    }
}

pub(crate) fn is_tsconfig_file(path: &str) -> (r: bool)
    ensures
        r == tsconfig_file(path@),
{
    let p = chars_of(path);
    let name = match rfind_char_exec(&p, '/') {
        Some(i) => {
            proof {
                crate::text::lemma_rfind_char_bounds(p@, '/');
            }
            slice_of(&p, i + 1, p.len())
        },
        None => p,
    };
    assert(name@ == file_name(path@));
    str_starts_with(&name, "tsconfig") && str_ends_with(&name, ".json")
}

/// The recipes applied to one file: the source recipes in turn for a
/// JavaScript or TypeScript file, the manifest recipe for `package.json`, the
/// configuration recipe for `tsconfig*.json`, and a refusal for
/// `bunfig.toml`.
pub fn transform_file(file: &RuntimeFile, permissions: &PermissionSet) -> (r: RecipeOutput)
    requires
        permissions.wf(),
        file_examinable(file.path@, file.content@),
    ensures
        r.required_permissions.wf(),
        ({
            let v = transform_file_view(file.path@, file.content@, permissions@);
            &&& r.content@ == v.content
            &&& r.applications@.map_values(|a: RuntimeRecipeApplication| application_view(a))
                == applications_spec(file.path@, v.counts)
            &&& r.diagnostics@.map_values(|d: Diagnostic| d@) == v.diagnostics
            &&& r.required_permissions@ == v.permissions
        }),
{
    let path = file.path.as_str();
    let p = chars_of(path);
    let mut result = TransformResult::unchanged(file.content.as_str());
    if source_entry(&p) {
        result = import_steps(path, file.content.as_str());
        let next = super::bun_serve::transform(path, result.content.as_str());
        result.merge(next);
        let next = super::bun_file::transform(path, result.content.as_str());
        result.merge(next);
        let mut rest = remaining_source_diagnostics(path, result.content.as_str());
        result.diagnostics.append(&mut rest);
    } else if str_ends_with(&p, "package.json") {
        let next = super::manifest::transform(path, file.content.as_str(), permissions);
        result.merge(next);
    } else if is_tsconfig_file(path) {
        let next = super::tsconfig::transform(path, file.content.as_str());
        result.merge(next);
    } else if str_ends_with(&p, "bunfig.toml") {
        result.diagnostics.push(
            blocking(
                "RUNTIME_BUNFIG_UNSUPPORTED",
                path,
                "bunfig.toml requires a semantic configuration migration.",
                "Move reviewed tasks and tooling settings into deno.json before applying the runtime plan.",
            ),
        );
    }
    let ghost v = result@;
    let mut applications: Vec<RuntimeRecipeApplication> = Vec::new();
    let ghost all = Seq::new(8, |k: int| (recipe_name(recipe_at(k)), path@, v.counts[k]));
    let ghost pred = |a: (Seq<char>, Seq<char>, usize)| a.2 > 0;
    let mut k: usize = 0;
    while k < 8
        invariant
            k <= 8,
            result.wf(),
            v == result@,
            all == Seq::new(8, |k: int| (recipe_name(recipe_at(k)), path@, v.counts[k])),
            pred == (|a: (Seq<char>, Seq<char>, usize)| a.2 > 0),
            applications@.map_values(|a: RuntimeRecipeApplication| application_view(a)) == all.take(
                k as int,
            ).filter(pred),
        decreases 8 - k,
    {
        let id = RecipeId::from_index(k);
        proof {
            assert(all.take(k + 1).drop_last() =~= all.take(k as int));
            reveal_with_fuel(Seq::filter, 1);
        }
        let ghost before = applications@;
        if result.counts[k] > 0 {
            applications.push(
                RuntimeRecipeApplication {
                    recipe_id: id.as_str().to_owned(),
                    path: path.to_owned(),
                    replacements: result.counts[k],
                },
            );
            assert(applications@.map_values(|a: RuntimeRecipeApplication| application_view(a))
                =~= before.map_values(|a: RuntimeRecipeApplication| application_view(a)).push(
                all[k as int],
            ));
        }
        k = k + 1;
    }
    assert(all.take(8) =~= all);
    RecipeOutput {
        content: result.content,
        applications,
        diagnostics: result.diagnostics,
        required_permissions: result.required_permissions,
    }
}

} // verus!
