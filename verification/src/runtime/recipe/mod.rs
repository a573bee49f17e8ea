//! Deterministic source rewrites from Bun APIs to Deno equivalents.
//!
//! Every recipe produces edits (a character range and its replacement text);
//! edits are applied in order of their start, and an edit that starts inside
//! an earlier kept edit is dropped.
pub mod bun_file;
pub mod chain;
pub mod bun_serve;
pub mod bun_shell;
pub mod bun_sqlite;
pub mod imports;
pub mod manifest;
pub mod named_import;
pub mod tsconfig;

use vstd::prelude::*;
use crate::model::{blocking_view, blocking_with_evidence, Diagnostic, DiagnosticView};
use crate::runtime::model::{DenoPermission, PermissionSet};
use crate::text::{
    chars_of, contains_seq, find_char, find_char_exec, leading_ws, lemma_find_char_bounds,
    lemma_trim_start_skip, push_chars, slice_of, starts_with, str_contains, str_starts_with,
    string_of, trim_start,
};
use crate::runtime::lex::{code_mask_spec};

verus! {

/// One edit: characters `start..end` of the text become `text`.
pub struct Edit {
    pub start: usize,
    pub end: usize,
    pub text: Vec<char>,
}

impl View for Edit {
    type V = (int, int, Seq<char>);

    open spec fn view(&self) -> (int, int, Seq<char>) {
        (self.start as int, self.end as int, self.text@)
    }
}

pub open spec fn edits_view(s: Seq<Edit>) -> Seq<(int, int, Seq<char>)> {
    s.map_values(|e: Edit| e@)
}

pub open spec fn replacements_view(s: Seq<(usize, usize, String)>) -> Seq<(int, int, Seq<char>)> {
    s.map_values(|r: (usize, usize, String)| (r.0 as int, r.1 as int, r.2@))
}

/// Stable insertion of `e` after every edit that starts no later than it.
pub open spec fn insert_by_start(s: Seq<(int, int, Seq<char>)>, e: (int, int, Seq<char>)) -> Seq<
    (int, int, Seq<char>),
>
    decreases s.len(),
{
    if s.len() == 0 {
        seq![e]
    } else if s.last().0 <= e.0 {
        s.push(e)
    } else {
        insert_by_start(s.drop_last(), e).push(s.last())
    }
}

/// The edits ordered by start; edits with equal starts keep their order.
pub open spec fn sort_by_start(s: Seq<(int, int, Seq<char>)>) -> Seq<(int, int, Seq<char>)>
    decreases s.len(),
{
    if s.len() == 0 {
        seq![]
    } else {
        insert_by_start(sort_by_start(s.drop_last()), s.last())
    }
}

/// Keeps each edit that starts at or after the end of the last kept one.
pub open spec fn select_from(s: Seq<(int, int, Seq<char>)>, prev_end: int) -> Seq<
    (int, int, Seq<char>),
>
    decreases s.len(),
{
    if s.len() == 0 {
        seq![]
    } else if s[0].0 >= prev_end {
        seq![s[0]] + select_from(s.drop_first(), s[0].1)
    } else {
        select_from(s.drop_first(), prev_end)
    }
}

/// The edits that take effect.
pub open spec fn selected_edits(s: Seq<(int, int, Seq<char>)>) -> Seq<(int, int, Seq<char>)> {
    select_from(sort_by_start(s), 0)
}

/// `content` from `cursor` on, with the ordered edits `sel` applied.
pub open spec fn splice(content: Seq<char>, sel: Seq<(int, int, Seq<char>)>, cursor: int) -> Seq<
    char,
>
    decreases sel.len(),
{
    if sel.len() == 0 {
        content.subrange(cursor, content.len() as int)
    } else {
        content.subrange(cursor, sel[0].0) + sel[0].2 + splice(content, sel.drop_first(), sel[0].1)
    }
}

/// The text after applying `edits` to `content`.
pub open spec fn apply_spec(content: Seq<char>, edits: Seq<(int, int, Seq<char>)>) -> Seq<char> {
    splice(content, selected_edits(edits), 0)
}

/// Every edit covers a range inside a text of length `len`.
pub open spec fn ranges_fit(edits: Seq<(int, int, Seq<char>)>, len: int) -> bool {
    forall|i: int| 0 <= i < edits.len() ==> 0 <= #[trigger] edits[i].0 <= edits[i].1 <= len
}

/// Each edit starts at or after `cursor` and at or after the end of the one before.
pub open spec fn chained(sel: Seq<(int, int, Seq<char>)>, cursor: int) -> bool {
    &&& sel.len() > 0 ==> sel[0].0 >= cursor
    &&& forall|i: int| 0 <= i < sel.len() - 1 ==> #[trigger] sel[i + 1].0 >= sel[i].1
}

pub open spec fn starts_sorted(s: Seq<(int, int, Seq<char>)>) -> bool {
    forall|i: int, j: int| 0 <= i < j < s.len() ==> #[trigger] s[i].0 <= #[trigger] s[j].0
}


/// The recipes, in the order of their identifiers.
#[derive(Debug, Clone, Copy, PartialEq, Eq, Structural)]
pub enum RecipeId {
    FileToDenoFileApi,
    RuntimeTypesRemove,
    ScriptsToDeno,
    ServeToDenoServe,
    ShellToDax,
    SqliteToNodeSqlite,
    TestToNodeTest,
    TypesToDeno,
}

pub open spec fn recipe_index(r: RecipeId) -> int {
    match r {
        RecipeId::FileToDenoFileApi => 0,
        RecipeId::RuntimeTypesRemove => 1,
        RecipeId::ScriptsToDeno => 2,
        RecipeId::ServeToDenoServe => 3,
        RecipeId::ShellToDax => 4,
        RecipeId::SqliteToNodeSqlite => 5,
        RecipeId::TestToNodeTest => 6,
        RecipeId::TypesToDeno => 7,
    }
}

pub open spec fn recipe_at(i: int) -> RecipeId {
    if i == 0 {
        RecipeId::FileToDenoFileApi
    } else if i == 1 {
        RecipeId::RuntimeTypesRemove
    } else if i == 2 {
        RecipeId::ScriptsToDeno
    } else if i == 3 {
        RecipeId::ServeToDenoServe
    } else if i == 4 {
        RecipeId::ShellToDax
    } else if i == 5 {
        RecipeId::SqliteToNodeSqlite
    } else if i == 6 {
        RecipeId::TestToNodeTest
    } else {
        RecipeId::TypesToDeno
    }
}

pub open spec fn recipe_name(r: RecipeId) -> Seq<char> {
    match r {
        RecipeId::FileToDenoFileApi => "bun.file-to-deno-file-api"@,
        RecipeId::RuntimeTypesRemove => "bun.runtime-types-remove"@,
        RecipeId::ScriptsToDeno => "bun.scripts-to-deno"@,
        RecipeId::ServeToDenoServe => "bun.serve-to-deno.serve"@,
        RecipeId::ShellToDax => "bun.shell-to-dax"@,
        RecipeId::SqliteToNodeSqlite => "bun.sqlite-to-node.sqlite"@,
        RecipeId::TestToNodeTest => "bun.test-to-node.test"@,
        RecipeId::TypesToDeno => "bun.types-to-deno"@,
    }
}

impl RecipeId {
    /// The recipe's stable identifier.
    pub fn as_str(self) -> (r: &'static str)
        ensures
            r@ == recipe_name(self),
    {
        match self {
            RecipeId::FileToDenoFileApi => "bun.file-to-deno-file-api",
            RecipeId::RuntimeTypesRemove => "bun.runtime-types-remove",
            RecipeId::ScriptsToDeno => "bun.scripts-to-deno",
            RecipeId::ServeToDenoServe => "bun.serve-to-deno.serve",
            RecipeId::ShellToDax => "bun.shell-to-dax",
            RecipeId::SqliteToNodeSqlite => "bun.sqlite-to-node.sqlite",
            RecipeId::TestToNodeTest => "bun.test-to-node.test",
            RecipeId::TypesToDeno => "bun.types-to-deno",
        }
    }

    pub fn index(self) -> (r: usize)
        ensures
            r as int == recipe_index(self),
            r < 8,
    {
        match self {
            RecipeId::FileToDenoFileApi => 0,
            RecipeId::RuntimeTypesRemove => 1,
            RecipeId::ScriptsToDeno => 2,
            RecipeId::ServeToDenoServe => 3,
            RecipeId::ShellToDax => 4,
            RecipeId::SqliteToNodeSqlite => 5,
            RecipeId::TestToNodeTest => 6,
            RecipeId::TypesToDeno => 7,
        }
    }

    pub fn from_index(i: usize) -> (r: RecipeId)
        requires
            i < 8,
        ensures
            r == recipe_at(i as int),
            recipe_index(r) == i,
    {
        if i == 0 {
            RecipeId::FileToDenoFileApi
        } else if i == 1 {
            RecipeId::RuntimeTypesRemove
        } else if i == 2 {
            RecipeId::ScriptsToDeno
        } else if i == 3 {
            RecipeId::ServeToDenoServe
        } else if i == 4 {
            RecipeId::ShellToDax
        } else if i == 5 {
            RecipeId::SqliteToNodeSqlite
        } else if i == 6 {
            RecipeId::TestToNodeTest
        } else {
            RecipeId::TypesToDeno
        }
    }
}

/// What one recipe (or a chain of them) did to a file.
pub struct TransformResult {
    pub content: String,
    /// Replacements made, indexed by `RecipeId::index`.
    pub counts: Vec<usize>,
    pub diagnostics: Vec<Diagnostic>,
    pub required_permissions: PermissionSet,
}

pub struct TransformView {
    pub content: Seq<char>,
    pub counts: Seq<usize>,
    pub diagnostics: Seq<DiagnosticView>,
    pub permissions: Set<DenoPermission>,
}

impl View for TransformResult {
    type V = TransformView;

    open spec fn view(&self) -> TransformView {
        TransformView {
            content: self.content@,
            counts: self.counts@,
            diagnostics: self.diagnostics@.map_values(|d: Diagnostic| d@),
            permissions: self.required_permissions@,
        }
    }
}

/// All-zero counts except `n` for recipe `id`.
pub open spec fn counts_one(id: RecipeId, n: int) -> Seq<usize> {
    Seq::new(8, |k: int| if k == recipe_index(id) { n as usize } else { 0usize })
}

pub open spec fn no_counts() -> Seq<usize> {
    Seq::new(8, |k: int| 0usize)
}

/// All-zero counts except `n` for recipe `a` and `m` for recipe `b`.
pub open spec fn counts_two(a: RecipeId, n: int, b: RecipeId, m: int) -> Seq<usize> {
    Seq::new(
        8,
        |k: int|
            if k == recipe_index(a) {
                n as usize
            } else if k == recipe_index(b) {
                m as usize
            } else {
                0usize
            },
    )
}

/// The counts vector of `counts_two`.
pub fn counts_vec(a: RecipeId, n: usize, b: RecipeId, m: usize) -> (r: Vec<usize>)
    requires
        recipe_index(a) != recipe_index(b),
    ensures
        r@ == counts_two(a, n as int, b, m as int),
{
    let ia = a.index();
    let ib = b.index();
    let mut counts: Vec<usize> = Vec::new();
    let mut i: usize = 0;
    while i < 8
        invariant
            i <= 8,
            ia as int == recipe_index(a),
            ib as int == recipe_index(b),
            counts@ == Seq::new(
                i as nat,
                |k: int|
                    if k == recipe_index(a) {
                        n
                    } else if k == recipe_index(b) {
                        m
                    } else {
                        0usize
                    },
            ),
        decreases 8 - i,
    {
        if i == ia {
            counts.push(n);
        } else if i == ib {
            counts.push(m);
        } else {
            counts.push(0);
        }
        i = i + 1;
    }
    assert(counts@ =~= counts_two(a, n as int, b, m as int));
    counts
}

impl TransformResult {
    pub open spec fn wf(&self) -> bool {
        &&& self.counts@.len() == 8
        &&& self.required_permissions.wf()
    }

    /// `content` untouched, with nothing counted, reported or required.
    pub fn unchanged(content: &str) -> (r: TransformResult)
        ensures
            r.wf(),
            r@ == (TransformView {
                content: content@,
                counts: no_counts(),
                diagnostics: seq![],
                permissions: Set::empty(),
            }),
    {
        let mut counts: Vec<usize> = Vec::new();
        let mut i: usize = 0;
        while i < 8
            invariant
                i <= 8,
                counts@ == Seq::new(i as nat, |k: int| 0usize),
            decreases 8 - i,
        {
            counts.push(0);
            i = i + 1;
        }
        let r = TransformResult {
            content: content.to_owned(),
            counts,
            diagnostics: Vec::new(),
            required_permissions: PermissionSet::new(),
        };
        assert(r@.counts =~= no_counts());
        assert(r@.diagnostics =~= Seq::<DiagnosticView>::empty());
        r
    }
}

impl TransformResult {
    /// `content` untouched, with nothing counted or required and the one
    /// diagnostic `d`.
    pub fn refused(content: &str, d: Diagnostic) -> (r: TransformResult)
        ensures
            r.wf(),
            r@ == (TransformView {
                content: content@,
                counts: no_counts(),
                diagnostics: seq![d@],
                permissions: Set::empty(),
            }),
    {
        let mut r = TransformResult::unchanged(content);
        let ghost before = r.diagnostics@;
        r.diagnostics.push(d);
        assert(r@.diagnostics =~= seq![d@]);
        r
    }
}

/// The evidence detail every recipe diagnostic carries.
pub open spec fn recipe_detail() -> Seq<char> {
    "Bun-specific runtime semantics require an explicit recipe."@
}

pub open spec fn recipe_blocking(
    code: Seq<char>,
    path: Seq<char>,
    summary: Seq<char>,
    remediation: Seq<char>,
) -> DiagnosticView {
    blocking_view(code, summary, path, recipe_detail(), remediation)
}

/// A blocking error about `path` whose evidence notes that Bun semantics need
/// an explicit recipe.
pub fn blocking(code: &str, path: &str, summary: &str, remediation: &str) -> (d: Diagnostic)
    ensures
        d@ == recipe_blocking(code@, path@, summary@, remediation@),
{
    blocking_with_evidence(
        code,
        summary,
        path,
        "Bun-specific runtime semantics require an explicit recipe.",
        remediation,
    )
}

/// Builds a result from the recipe's edits and bookkeeping.
pub fn finish(
    content: &[char],
    edits: &[Edit],
    id: RecipeId,
    count: usize,
    diagnostics: Vec<Diagnostic>,
    permissions: PermissionSet,
) -> (r: TransformResult)
    requires
        ranges_fit(selected_edits(edits_view(edits@)), content@.len() as int),
        permissions.wf(),
    ensures
        r.wf(),
        r@ == (TransformView {
            content: apply_spec(content@, edits_view(edits@)),
            counts: counts_one(id, count as int),
            diagnostics: diagnostics@.map_values(|d: Diagnostic| d@),
            permissions: permissions@,
        }),
{
    let out = apply_edits(content, edits);
    let mut counts: Vec<usize> = Vec::new();
    let target = id.index();
    let mut i: usize = 0;
    while i < 8
        invariant
            i <= 8,
            target as int == recipe_index(id),
            counts@ == Seq::new(
                i as nat,
                |k: int| if k == recipe_index(id) { count } else { 0usize },
            ),
        decreases 8 - i,
    {
        if i == target {
            counts.push(count);
        } else {
            counts.push(0);
        }
        i = i + 1;
    }
    let r = TransformResult {
        content: string_of(&out),
        counts,
        diagnostics,
        required_permissions: permissions,
    };
    assert(r@.counts =~= counts_one(id, count as int));
    r
}

/// Import lines that a line recipe rewrites.
#[derive(Debug, Clone, Copy, PartialEq, Eq, Structural)]
pub enum LineRecipe {
    Test,
    Sqlite,
    Shell,
}

/// Whether an import line (already stripped of indentation) concerns the recipe.
pub open spec fn line_wanted(kind: LineRecipe, trimmed: Seq<char>) -> bool {
    match kind {
        LineRecipe::Test => contains_seq(trimmed, "bun:test"@),
        LineRecipe::Sqlite => contains_seq(trimmed, "bun:sqlite"@),
        LineRecipe::Shell => contains_seq(trimmed, "from \"bun\""@) || contains_seq(
            trimmed,
            "from 'bun'"@,
        ),
    }
}

pub open spec fn line_result(kind: LineRecipe, path: Seq<char>, line: Seq<char>, content: Seq<char>) -> Result<
    Seq<char>,
    DiagnosticView,
> {
    match kind {
        LineRecipe::Test => imports::transform_test_import_spec(path, line),
        LineRecipe::Sqlite => bun_sqlite::transform_import_spec(path, line, content),
        LineRecipe::Shell => bun_shell::transform_import_spec(path, line),
    }
}

/// Edits, diagnostics and rewrite count of a line recipe.
pub struct ScanView {
    pub edits: Seq<(int, int, Seq<char>)>,
    pub diagnostics: Seq<DiagnosticView>,
    pub count: int,
}

/// Length of the line starting at `pos` (without its `\n`), and where the next
/// line starts.
pub open spec fn line_bounds(content: Seq<char>, pos: int) -> (int, int) {
    match find_char(content.skip(pos), '\n') {
        Some(i) => (i, pos + i + 1),
        None => (content.len() - pos, content.len() as int),
    }
}

/// The line recipe applied to the lines starting at or after `pos`: a line is
/// rewritten when its first non-blank character is code, it starts with
/// `import ` and it concerns the recipe.
pub open spec fn scan_lines(
    kind: LineRecipe,
    path: Seq<char>,
    content: Seq<char>,
    mask: Seq<bool>,
    pos: int,
) -> ScanView
    decreases content.len() - pos,
{
    if pos < 0 || pos >= content.len() {
        ScanView { edits: seq![], diagnostics: seq![], count: 0 }
    } else {
        proof {
            lemma_find_char_bounds(content.skip(pos), '\n');
        }
        let (len, next) = line_bounds(content, pos);
        let line = content.subrange(pos, pos + len);
        let trimmed = trim_start(line);
        let at = pos + line.len() - trimmed.len();
        let tail = scan_lines(kind, path, content, mask, next);
        if 0 <= at < mask.len() && mask[at] && starts_with(trimmed, "import "@) && line_wanted(
            kind,
            trimmed,
        ) {
            match line_result(kind, path, line, content) {
                Ok(v) => ScanView {
                    edits: seq![(pos, pos + len, v)] + tail.edits,
                    diagnostics: tail.diagnostics,
                    count: tail.count + 1,
                },
                Err(d) => ScanView {
                    edits: tail.edits,
                    diagnostics: seq![d] + tail.diagnostics,
                    count: tail.count,
                },
            }
        } else {
            tail
        }
    }
}

pub proof fn lemma_scan_bounds(
    kind: LineRecipe,
    path: Seq<char>,
    content: Seq<char>,
    mask: Seq<bool>,
    pos: int,
)
    requires
        0 <= pos,
    ensures
        0 <= scan_lines(kind, path, content, mask, pos).count,
        pos <= content.len() ==> scan_lines(kind, path, content, mask, pos).count <= content.len()
            - pos,
        ranges_fit(scan_lines(kind, path, content, mask, pos).edits, content.len() as int),
    decreases content.len() - pos,
{
    if pos < content.len() {
        lemma_find_char_bounds(content.skip(pos), '\n');
        let (len, next) = line_bounds(content, pos);
        assert(pos < next <= content.len());
        assert(pos + len <= content.len());
        lemma_scan_bounds(kind, path, content, mask, next);
        let line = content.subrange(pos, pos + len);
        let trimmed = trim_start(line);
        let at = pos + line.len() - trimmed.len();
        let t = scan_lines(kind, path, content, mask, next);
        let s = scan_lines(kind, path, content, mask, pos);
        if 0 <= at < mask.len() && mask[at] && starts_with(trimmed, "import "@) && line_wanted(
            kind,
            trimmed,
        ) {
            match line_result(kind, path, line, content) {
                Ok(v) => {
                    assert(s.edits == seq![(pos, pos + len, v)] + t.edits);
                    assert forall|i: int| 0 <= i < s.edits.len() implies 0 <= #[trigger] s.edits[
                        i].0 <= s.edits[i].1 <= content.len() by {
                        if i > 0 {
                            assert(s.edits[i] == t.edits[i - 1]);
                        }
                    }
                },
                Err(d) => {},
            }
        }
    }
}

#[verifier::rlimit(40)]
/// Which lines of `content` the recipe `kind` rewrites, with their rewrites,
/// the diagnostics of the lines it refuses, and how many it rewrote.
pub fn scan_import_lines(kind: LineRecipe, path: &str, content: &[char]) -> (r: (
    Vec<Edit>,
    Vec<Diagnostic>,
    usize,
))
    ensures
        edits_view(r.0@) == scan_lines(kind, path@, content@, code_mask_spec(content@), 0).edits,
        r.1@.map_values(|d: Diagnostic| d@) == scan_lines(
            kind,
            path@,
            content@,
            code_mask_spec(content@),
            0,
        ).diagnostics,
        r.2 as int == scan_lines(kind, path@, content@, code_mask_spec(content@), 0).count,
        ranges_fit(selected_edits(edits_view(r.0@)), content@.len() as int),
{
    let mask = crate::runtime::lex::code_mask_chars(content);
    let ghost m = mask@;
    let ghost total = scan_lines(kind, path@, content@, m, 0);
    proof {
        lemma_scan_bounds(kind, path@, content@, m, 0);
    }
    let mut edits: Vec<Edit> = Vec::new();
    let mut diagnostics: Vec<Diagnostic> = Vec::new();
    let mut count: usize = 0;
    let mut pos: usize = 0;
    while pos < content.len()
        invariant
            pos <= content.len(),
            m == mask@,
            m.len() == content.len(),
            total == scan_lines(kind, path@, content@, m, 0),
            total.count <= content.len(),
            edits_view(edits@) + scan_lines(kind, path@, content@, m, pos as int).edits
                == total.edits,
            diagnostics@.map_values(|d: Diagnostic| d@) + scan_lines(
                kind,
                path@,
                content@,
                m,
                pos as int,
            ).diagnostics == total.diagnostics,
            count + scan_lines(kind, path@, content@, m, pos as int).count == total.count,
        decreases content.len() - pos,
    {
        let mut e = pos;
        while e < content.len() && content[e] != '\n'
            invariant
                pos <= e <= content.len(),
                forall|j: int| pos <= j < e ==> content@[j] != '\n',
            decreases content.len() - e,
        {
            e = e + 1;
        }
        let ghost rest = content@.skip(pos as int);
        proof {
            if e < content.len() {
                crate::text::lemma_find_char_first(rest, '\n', e - pos);
            } else {
                crate::text::lemma_find_char_none(rest, '\n');
            }
        }
        let next = if e < content.len() {
            e + 1
        } else {
            content.len()
        };
        let line = slice_of(content, pos, e);
        let lead = leading_ws(&line, 0, line.len());
        proof {
            lemma_trim_start_skip(line@, lead as int);
            lemma_scan_bounds(kind, path@, content@, m, next as int);
        }
        let trimmed = slice_of(&line, lead, line.len());
        assert(trimmed@ =~= trim_start(line@));
        let at = pos + lead;
        let wanted = match kind {
            LineRecipe::Test => str_contains(&trimmed, "bun:test"),
            LineRecipe::Sqlite => str_contains(&trimmed, "bun:sqlite"),
            LineRecipe::Shell => str_contains(&trimmed, "from \"bun\"") || str_contains(
                &trimmed,
                "from 'bun'",
            ),
        };
        let ghost tail = scan_lines(kind, path@, content@, m, next as int);
        if at < mask.len() && mask[at] && str_starts_with(&trimmed, "import ") && wanted {
            let result = match kind {
                LineRecipe::Test => imports::transform_test_import(path, &line),
                LineRecipe::Sqlite => bun_sqlite::transform_import(path, &line, content),
                LineRecipe::Shell => bun_shell::transform_import(path, &line),
            };
            match result {
                Ok(v) => {
                    let ghost before = edits@;
                    let ed = Edit { start: pos, end: e, text: v };
                    edits.push(ed);
                    proof {
                        lemma_edits_view_push(before, ed);
                        assert(edits_view(edits@) + tail.edits =~= edits_view(before) + scan_lines(
                            kind,
                            path@,
                            content@,
                            m,
                            pos as int,
                        ).edits);
                    }
                    count = count + 1;
                },
                Err(d) => {
                    let ghost before = diagnostics@;
                    diagnostics.push(d);
                    proof {
                        assert(diagnostics@.map_values(|d: Diagnostic| d@) + tail.diagnostics
                            =~= before.map_values(|d: Diagnostic| d@) + scan_lines(
                            kind,
                            path@,
                            content@,
                            m,
                            pos as int,
                        ).diagnostics);
                    }
                },
            }
        }
        pos = next;
    }
    proof {
        assert(edits_view(edits@) + Seq::<(int, int, Seq<char>)>::empty() =~= edits_view(edits@));
        assert(diagnostics@.map_values(|d: Diagnostic| d@) + Seq::<DiagnosticView>::empty()
            =~= diagnostics@.map_values(|d: Diagnostic| d@));
        lemma_fitting_edits_select(edits_view(edits@), content@.len() as int);
    }
    (edits, diagnostics, count)
}


/// Index of the code `right` that closes the bracket pair opened by the
/// first code `left` at or after `i`, given `depth` pairs already open.  A code
/// `right` with no pair open ends the search without a match.
pub open spec fn close_from(
    content: Seq<char>,
    mask: Seq<bool>,
    left: char,
    right: char,
    i: int,
    depth: nat,
) -> Option<int>
    decreases content.len() - i,
{
    if i < 0 || i >= content.len() || i >= mask.len() {
        None
    } else if !mask[i] {
        close_from(content, mask, left, right, i + 1, depth)
    } else if content[i] == left {
        close_from(content, mask, left, right, i + 1, depth + 1)
    } else if content[i] == right {
        if depth == 0 {
            None
        } else if depth == 1 {
            Some(i)
        } else {
            close_from(content, mask, left, right, i + 1, (depth - 1) as nat)
        }
    } else {
        close_from(content, mask, left, right, i + 1, depth)
    }
}

pub proof fn lemma_close_from_bounds(
    content: Seq<char>,
    mask: Seq<bool>,
    left: char,
    right: char,
    i: int,
    depth: nat,
)
    ensures
        close_from(content, mask, left, right, i, depth) matches Some(c) ==> i <= c
            < content.len() && content[c] == right,
    decreases content.len() - i,
{
    if 0 <= i < content.len() && i < mask.len() {
        if !mask[i] || content[i] == left || content[i] != right {
            if content[i] == left && mask[i] {
                lemma_close_from_bounds(content, mask, left, right, i + 1, depth + 1);
            } else {
                lemma_close_from_bounds(content, mask, left, right, i + 1, depth);
            }
        } else if depth > 1 {
            lemma_close_from_bounds(content, mask, left, right, i + 1, (depth - 1) as nat);
        }
    }
}

/// The position of the code `right` closing the code `left` at `open`
/// (scanning from `open` with no pair open).
pub fn matching_close(content: &[char], mask: &[bool], left: char, right: char, open: usize) -> (r:
    Option<usize>)
    requires
        mask@.len() == content@.len(),
    ensures
        r == (match close_from(content@, mask@, left, right, open as int, 0) {
            Some(c) => Some(c as usize),
            None => None::<usize>,
        }),
        r matches Some(c) ==> open <= c < content@.len() && content@[c as int] == right,
{
    proof {
        lemma_close_from_bounds(content@, mask@, left, right, open as int, 0);
    }
    let mut depth: usize = 0;
    let mut i = open;
    while i < content.len()
        invariant
            mask@.len() == content@.len(),
            open <= i,
            depth <= i - open,
            close_from(content@, mask@, left, right, open as int, 0) == close_from(
                content@,
                mask@,
                left,
                right,
                i as int,
                depth as nat,
            ),
        decreases content.len() - i,
    {
        if mask[i] {
            if content[i] == left {
                depth = depth + 1;
            } else if content[i] == right {
                if depth == 0 {
                    return None;
                } else if depth == 1 {
                    return Some(i);
                } else {
                    depth = depth - 1;
                }
            }
        }
        i = i + 1;
    }
    None
}

proof fn lemma_insert_by_start(s: Seq<(int, int, Seq<char>)>, e: (int, int, Seq<char>), j: int)
    requires
        0 <= j <= s.len(),
        forall|k: int| 0 <= k < j ==> #[trigger] s[k].0 <= e.0,
        forall|k: int| j <= k < s.len() ==> #[trigger] s[k].0 > e.0,
    ensures
        insert_by_start(s, e) == s.insert(j, e),
    decreases s.len(),
{
    if s.len() == 0 {
        assert(s.insert(j, e) =~= seq![e]);
    } else if s.last().0 <= e.0 {
        assert(j == s.len());
        assert(s.insert(j, e) =~= s.push(e));
    } else {
        lemma_insert_by_start(s.drop_last(), e, j);
        assert(s.drop_last().insert(j, e).push(s.last()) =~= s.insert(j, e));
    }
}

proof fn lemma_insert_contains(s: Seq<(int, int, Seq<char>)>, e: (int, int, Seq<char>), x: (int, int, Seq<char>))
    requires
        insert_by_start(s, e).contains(x),
    ensures
        x == e || s.contains(x),
    decreases s.len(),
{
    if s.len() > 0 && s.last().0 > e.0 {
        let t = insert_by_start(s.drop_last(), e);
        let i = choose|i: int| 0 <= i < t.push(s.last()).len() && t.push(s.last())[i] == x;
        if i < t.len() {
            assert(t.contains(x));
            lemma_insert_contains(s.drop_last(), e, x);
            if x != e {
                let k = choose|k: int| 0 <= k < s.drop_last().len() && s.drop_last()[k] == x;
                assert(s[k] == x);
            }
        } else {
            assert(s[s.len() - 1] == x);
        }
    } else if s.len() > 0 {
        let i = choose|i: int| 0 <= i < s.push(e).len() && s.push(e)[i] == x;
        if i < s.len() {
            assert(s[i] == x);
        }
    }
}

proof fn lemma_sort_contains(s: Seq<(int, int, Seq<char>)>, x: (int, int, Seq<char>))
    requires
        sort_by_start(s).contains(x),
    ensures
        s.contains(x),
    decreases s.len(),
{
    if s.len() > 0 {
        lemma_insert_contains(sort_by_start(s.drop_last()), s.last(), x);
        if x != s.last() {
            lemma_sort_contains(s.drop_last(), x);
            let k = choose|k: int| 0 <= k < s.drop_last().len() && s.drop_last()[k] == x;
            assert(s[k] == x);
        } else {
            assert(s[s.len() - 1] == x);
        }
    }
}

proof fn lemma_select_contains(s: Seq<(int, int, Seq<char>)>, p: int, x: (int, int, Seq<char>))
    requires
        select_from(s, p).contains(x),
    ensures
        s.contains(x),
    decreases s.len(),
{
    if s.len() > 0 {
        if s[0].0 >= p {
            let t = select_from(s.drop_first(), s[0].1);
            let i = choose|i: int| 0 <= i < (seq![s[0]] + t).len() && (seq![s[0]] + t)[i] == x;
            if i == 0 {
                assert(s[0] == x);
            } else {
                assert(t[i - 1] == x);
                assert(t.contains(x));
                lemma_select_contains(s.drop_first(), s[0].1, x);
                let k = choose|k: int| 0 <= k < s.drop_first().len() && s.drop_first()[k] == x;
                assert(s[k + 1] == x);
            }
        } else {
            lemma_select_contains(s.drop_first(), p, x);
            let k = choose|k: int| 0 <= k < s.drop_first().len() && s.drop_first()[k] == x;
            assert(s[k + 1] == x);
        }
    }
}

/// When every edit fits the text, so does every edit that takes effect.
pub proof fn lemma_fitting_edits_select(edits: Seq<(int, int, Seq<char>)>, len: int)
    requires
        ranges_fit(edits, len),
    ensures
        ranges_fit(selected_edits(edits), len),
{
    let sel = selected_edits(edits);
    assert forall|i: int| 0 <= i < sel.len() implies 0 <= #[trigger] sel[i].0 <= sel[i].1 <= len by {
        assert(sel.contains(sel[i]));
        lemma_select_contains(sort_by_start(edits), 0, sel[i]);
        lemma_sort_contains(edits, sel[i]);
        let k = choose|k: int| 0 <= k < edits.len() && edits[k] == sel[i];
        assert(0 <= edits[k].0 <= edits[k].1 <= len);
    }
}

/// The edits that take effect start in order and never overlap.
pub proof fn law_selected_edits_disjoint(s: Seq<(int, int, Seq<char>)>, p: int)
    ensures
        chained(select_from(s, p), p),
    decreases s.len(),
{
    if s.len() > 0 {
        if s[0].0 >= p {
            law_selected_edits_disjoint(s.drop_first(), s[0].1);
            let t = select_from(s.drop_first(), s[0].1);
            let r = seq![s[0]] + t;
            assert forall|i: int| 0 <= i < r.len() - 1 implies #[trigger] r[i + 1].0 >= r[i].1 by {
                if i > 0 {
                    assert(r[i] == t[i - 1]);
                    assert(r[i + 1] == t[i]);
                    let i1 = i - 1;
                    assert(0 <= i1 < t.len() - 1);
                    assert(t[i1 + 1].0 >= t[i1].1);
                } else {
                    assert(r[0] == s[0]);
                    assert(r[1] == t[0]);
                    assert(chained(t, s[0].1));
                    assert(t[0].0 >= s[0].1);
                }
            }
        } else {
            law_selected_edits_disjoint(s.drop_first(), p);
        }
    }
}

/// Applying no edits leaves the text unchanged.
pub proof fn law_no_edits_identity(content: Seq<char>)
    ensures
        apply_spec(content, seq![]) == content,
{
    assert(sort_by_start(Seq::<(int, int, Seq<char>)>::empty()) =~= seq![]);
    assert(content.subrange(0, content.len() as int) =~= content);
}

fn copy_edit(e: &Edit) -> (r: Edit)
    ensures
        r@ == e@,
{
    Edit { start: e.start, end: e.end, text: slice_of(&e.text, 0, e.text.len()) }
}

proof fn lemma_edits_view_push(s: Seq<Edit>, e: Edit)
    ensures
        edits_view(s.push(e)) == edits_view(s).push(e@),
{
    assert(edits_view(s.push(e)) =~= edits_view(s).push(e@));
}

/// The edits ordered by start, stably.
fn sort_edits(edits: &[Edit]) -> (r: Vec<Edit>)
    ensures
        edits_view(r@) == sort_by_start(edits_view(edits@)),
{
    let ghost ev = edits_view(edits@);
    let mut out: Vec<Edit> = Vec::new();
    let mut i: usize = 0;
    while i < edits.len()
        invariant
            i <= edits.len(),
            ev == edits_view(edits@),
            edits_view(out@) == sort_by_start(ev.take(i as int)),
            starts_sorted(edits_view(out@)),
        decreases edits.len() - i,
    {
        let e = copy_edit(&edits[i]);
        let mut j = out.len();
        while j > 0 && out[j - 1].start > e.start
            invariant
                j <= out.len(),
                starts_sorted(edits_view(out@)),
                forall|k: int| j <= k < out.len() ==> #[trigger] out@[k].start > e.start,
            decreases j,
        {
            j = j - 1;
        }
        let ghost ov = edits_view(out@);
        proof {
            assert forall|k: int| 0 <= k < j implies #[trigger] ov[k].0 <= e@.0 by {
                if j > 0 {
                    assert(ov[k].0 <= ov[j - 1].0);
                }
            }
            assert forall|k: int| j <= k < ov.len() implies #[trigger] ov[k].0 > e@.0 by {
                assert(out@[k].start > e.start);
            }
            lemma_insert_by_start(ov, e@, j as int);
            assert(ev.take(i + 1).drop_last() =~= ev.take(i as int));
            assert(ev.take(i + 1).last() == e@);
        }
        out.insert(j, e);
        proof {
            assert(edits_view(out@) =~= ov.insert(j as int, e@));
            let nv = edits_view(out@);
            assert forall|a: int, b: int| 0 <= a < b < nv.len() implies #[trigger] nv[a].0
                <= #[trigger] nv[b].0 by {
                if a < j && b == j {
                    assert(ov[a].0 <= e@.0);
                } else if a == j && b > j {
                    assert(nv[b] == ov[b - 1]);
                } else if a < j && b > j {
                    assert(nv[b] == ov[b - 1]);
                    assert(ov[a].0 <= ov[b - 1].0);
                } else if a > j {
                    assert(nv[a] == ov[a - 1]);
                    assert(nv[b] == ov[b - 1]);
                }
            }
        }
        i = i + 1;
    }
    assert(ev.take(edits.len() as int) =~= ev);
    out
}

/// The edits that take effect, in order.
fn select_edits(sorted: &[Edit]) -> (r: Vec<Edit>)
    ensures
        edits_view(r@) == select_from(edits_view(sorted@), 0),
{
    let ghost sv = edits_view(sorted@);
    let mut out: Vec<Edit> = Vec::new();
    let mut prev_end: usize = 0;
    let mut k: usize = 0;
    assert(sv.skip(0) =~= sv);
    while k < sorted.len()
        invariant
            k <= sorted.len(),
            sv == edits_view(sorted@),
            edits_view(out@) + select_from(sv.skip(k as int), prev_end as int) == select_from(sv, 0),
        decreases sorted.len() - k,
    {
        proof {
            assert(sv.skip(k as int).drop_first() =~= sv.skip(k + 1));
            assert(sv.skip(k as int)[0] == sorted@[k as int]@);
        }
        if sorted[k].start >= prev_end {
            let e = copy_edit(&sorted[k]);
            let ghost before = out@;
            prev_end = sorted[k].end;
            out.push(e);
            proof {
                lemma_edits_view_push(before, e);
                assert(edits_view(out@) + select_from(sv.skip(k + 1), prev_end as int) =~= edits_view(
                    before,
                ) + select_from(sv.skip(k as int), sorted@[k as int].start as int));
            }
        }
        k = k + 1;
    }
    assert(select_from(sv.skip(k as int), prev_end as int) =~= Seq::<(int, int, Seq<char>)>::empty());
    assert(edits_view(out@) + Seq::<(int, int, Seq<char>)>::empty() =~= edits_view(out@));
    out
}

/// Applies the ordered, non-overlapping edits `sel` to `content`.
fn splice_edits(content: &[char], sel: &[Edit]) -> (r: Vec<char>)
    requires
        ranges_fit(edits_view(sel@), content@.len() as int),
        chained(edits_view(sel@), 0),
    ensures
        r@ == splice(content@, edits_view(sel@), 0),
{
    let ghost sv = edits_view(sel@);
    let mut out: Vec<char> = Vec::new();
    let mut cursor: usize = 0;
    let mut k: usize = 0;
    assert(sv.skip(0) =~= sv);
    while k < sel.len()
        invariant
            k <= sel.len(),
            sv == edits_view(sel@),
            ranges_fit(sv, content@.len() as int),
            chained(sv, 0),
            cursor <= content.len(),
            k < sel.len() ==> cursor <= sv[k as int].0,
            out@ + splice(content@, sv.skip(k as int), cursor as int) == splice(content@, sv, 0),
        decreases sel.len() - k,
    {
        let ghost before = out@;
        let ghost c0 = cursor as int;
        proof {
            assert(sv[k as int] == sel@[k as int]@);
            assert(0 <= sv[k as int].0 <= sv[k as int].1 <= content@.len());
            assert(sv.skip(k as int).drop_first() =~= sv.skip(k + 1));
            assert(sv.skip(k as int)[0] == sv[k as int]);
            if k + 1 < sel.len() {
                assert(sv[k + 1].0 >= sv[k as int].1);
            }
        }
        let piece = slice_of(content, cursor, sel[k].start);
        push_chars(&mut out, &piece);
        push_chars(&mut out, &sel[k].text);
        cursor = sel[k].end;
        proof {
            assert(splice(content@, sv.skip(k as int), c0) == content@.subrange(c0, sv[k as int].0)
                + sv[k as int].2 + splice(content@, sv.skip(k + 1), sv[k as int].1));
            assert(out@ + splice(content@, sv.skip(k + 1), cursor as int) =~= before + splice(
                content@,
                sv.skip(k as int),
                c0,
            ));
        }
        k = k + 1;
    }
    assert(sv.skip(k as int) =~= Seq::<(int, int, Seq<char>)>::empty());
    let tail = slice_of(content, cursor, content.len());
    push_chars(&mut out, &tail);
    out
}

/// `content` with the edits applied.
pub fn apply_edits(content: &[char], edits: &[Edit]) -> (r: Vec<char>)
    requires
        ranges_fit(selected_edits(edits_view(edits@)), content@.len() as int),
    ensures
        r@ == apply_spec(content@, edits_view(edits@)),
{
    let sorted = sort_edits(edits);
    let sel = select_edits(&sorted);
    proof {
        law_selected_edits_disjoint(edits_view(sorted@), 0);
    }
    splice_edits(content, &sel)
}

/// Applies the replacements `(start, end, text)` (character positions) in
/// order of their start; a replacement that starts before the end of the
/// previously applied one is skipped.
pub fn apply_replacements(content: &str, replacements: &[(usize, usize, String)]) -> (r: String)
    requires
        ranges_fit(selected_edits(replacements_view(replacements@)), content@.len() as int),
    ensures
        r@ == apply_spec(content@, replacements_view(replacements@)),
{
    let mut edits: Vec<Edit> = Vec::new();
    let mut i: usize = 0;
    while i < replacements.len()
        invariant
            i <= replacements.len(),
            edits_view(edits@) == replacements_view(replacements@).take(i as int),
        decreases replacements.len() - i,
    {
        let text = chars_of(replacements[i].2.as_str());
        let e = Edit { start: replacements[i].0, end: replacements[i].1, text };
        let ghost before = edits@;
        edits.push(e);
        proof {
            lemma_edits_view_push(before, e);
            assert(replacements_view(replacements@).take(i + 1) =~= replacements_view(
                replacements@,
            ).take(i as int).push(e@));
        }
        i = i + 1;
    }
    assert(replacements_view(replacements@).take(replacements.len() as int) =~= replacements_view(
        replacements@,
    ));
    let c = chars_of(content);
    let out = apply_edits(&c, &edits);
    string_of(&out)
}

} // verus!
