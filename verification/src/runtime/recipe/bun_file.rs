//! `Bun.file(path).text()` and awaited `Bun.file(path).json()` become Deno
//! file reads.
use vstd::prelude::*;
use crate::model::{Diagnostic, DiagnosticView};
use crate::runtime::lex::{code_mask_chars, code_mask_spec, code_occurrences_chars, code_occurrences_spec, lemma_code_occurrence};
use crate::runtime::model::{DenoPermission, PermissionSet};
use crate::text::{
    chars_of, is_ascii_alnum, is_ascii_alnum_exec, is_ascii_ws, is_ascii_ws_exec, lemma_trim_end_take,
    matches_at, matches_at_exec, push_chars, push_str, slice_of, trailing_ws, trim_end,
};
use super::{
    apply_spec, blocking, close_from, counts_one, edits_view, finish, lemma_edits_view_push,
    lemma_fitting_edits_select, matching_close, ranges_fit, recipe_blocking, Edit, RecipeId,
    TransformResult, TransformView,
};

verus! {

/// The first position at or after `i` that is not ASCII whitespace.
pub open spec fn skip_ascii_ws(content: Seq<char>, i: int) -> int
    decreases content.len() - i,
{
    if 0 <= i < content.len() && is_ascii_ws(content[i]) {
        skip_ascii_ws(content, i + 1)
    } else {
        i
    }
}

pub open spec fn is_word_char(c: char) -> bool {
    is_ascii_alnum(c) || c == '_'
}

/// Where a standalone `await` keyword ends right before `start` (whitespace
/// aside), if there is one.
pub open spec fn preceding_await_spec(content: Seq<char>, start: int) -> Option<int> {
    let t = trim_end(content.take(start));
    if t.len() < 5 {
        None
    } else {
        let a = t.len() - 5;
        if t.skip(a) != "await"@ || (a > 0 && is_word_char(t[a - 1])) {
            None
        } else {
            Some(a)
        }
    }
}

pub enum FileStep {
    Skip,
    Replace((int, int, Seq<char>)),
    Refuse(DiagnosticView),
}

pub open spec fn json_unsupported(path: Seq<char>) -> DiagnosticView {
    recipe_blocking(
        "RUNTIME_BUN_FILE_JSON_UNSUPPORTED"@,
        path,
        "Bun.file(...).json() is only rewritten when directly awaited."@,
        "Await the JSON read explicitly or migrate its promise flow manually."@,
    )
}

/// What the recipe does with the `Bun.file` call starting at `start`.
pub open spec fn file_step(path: Seq<char>, content: Seq<char>, start: int) -> FileStep {
    let open = skip_ascii_ws(content, start + 8);
    if open >= content.len() || content[open] != '(' {
        FileStep::Skip
    } else {
        match close_from(content, code_mask_spec(content), '(', ')', open, 0) {
            None => FileStep::Skip,
            Some(close) => {
                let argument = content.subrange(open + 1, close);
                if matches_at(content, ".text()"@, close + 1) {
                    FileStep::Replace(
                        (start, close + 8, "Deno.readTextFile("@ + argument + ")"@),
                    )
                } else if matches_at(content, ".json()"@, close + 1) {
                    match preceding_await_spec(content, start) {
                        Some(a) => FileStep::Replace(
                            (
                                a,
                                close + 8,
                                "JSON.parse(await Deno.readTextFile("@ + argument + "))"@,
                            ),
                        ),
                        None => FileStep::Refuse(json_unsupported(path)),
                    }
                } else {
                    FileStep::Skip
                }
            },
        }
    }
}

/// Edits and refusals for the `Bun.file` calls starting at `starts`.
pub open spec fn file_scan(path: Seq<char>, content: Seq<char>, starts: Seq<int>) -> (
    Seq<(int, int, Seq<char>)>,
    Seq<DiagnosticView>,
)
    decreases starts.len(),
{
    if starts.len() == 0 {
        (seq![], seq![])
    } else {
        let rest = file_scan(path, content, starts.drop_first());
        match file_step(path, content, starts[0]) {
            FileStep::Skip => rest,
            FileStep::Replace(e) => (seq![e] + rest.0, rest.1),
            FileStep::Refuse(d) => (rest.0, seq![d] + rest.1),
        }
    }
}

/// The file recipe applied to a whole file.
pub open spec fn transform_spec(path: Seq<char>, content: Seq<char>) -> TransformView {
    let scan = file_scan(path, content, code_occurrences_spec(content, "Bun.file"@));
    TransformView {
        content: apply_spec(content, scan.0),
        counts: counts_one(RecipeId::FileToDenoFileApi, scan.0.len() as int),
        diagnostics: scan.1,
        permissions: if scan.0.len() == 0 {
            Set::empty()
        } else {
            set![DenoPermission::Read]
        },
    }
}

/// Where a standalone `await` ends right before `start`.
pub fn preceding_await(content: &[char], start: usize) -> (r: Option<usize>)
    requires
        start <= content.len(),
    ensures
        r matches Some(a) ==> preceding_await_spec(content@, start as int) == Some(a as int),
        r is None ==> preceding_await_spec(content@, start as int) is None,
        r matches Some(a) ==> a <= start,
{
    let k = trailing_ws(content, 0, start);
    proof {
        lemma_trim_end_take(content@.take(start as int), k as int);
        assert(content@.take(start as int).take(k as int) =~= content@.take(k as int));
    }
    if k < 5 {
        return None;
    }
    let a = k - 5;
    let mut aw: Vec<char> = Vec::new();
    push_str(&mut aw, "await");
    proof {
        reveal_strlit("await");
        assert(content@.take(k as int).skip(a as int) =~= content@.subrange(a as int, k as int));
    }
    let is_await = matches_at_exec(content, &aw, a);
    proof {
        if is_await {
            assert(content@.subrange(a as int, k as int) =~= "await"@);
        } else {
            assert(content@.subrange(a as int, k as int) != "await"@);
        }
    }
    if !is_await {
        return None;
    }
    if a > 0 && (is_ascii_alnum_exec(content[a - 1]) || content[a - 1] == '_') {
        assert(content@.take(k as int)[a - 1] == content@[a - 1]);
        return None;
    }
    proof {
        if a > 0 {
            assert(content@.take(k as int)[a - 1] == content@[a - 1]);
        }
    }
    Some(a)
}

fn make_text(prefix: &str, argument: &[char], suffix: &str) -> (r: Vec<char>)
    ensures
        r@ == prefix@ + argument@ + suffix@,
{
    let mut out: Vec<char> = Vec::new();
    push_str(&mut out, prefix);
    push_chars(&mut out, argument);
    push_str(&mut out, suffix);
    out
}

/// Rewrites the `Bun.file` calls of `content` whose result is read as text,
/// or awaited and read as JSON; the rewritten file needs read permission.
pub fn transform(path: &str, content: &str) -> (r: TransformResult)
    ensures
        r.wf(),
        r@ == transform_spec(path@, content@),
{
    let chars = chars_of(content);
    let mask = code_mask_chars(&chars);
    let mut needle: Vec<char> = Vec::new();
    push_str(&mut needle, "Bun.file");
    proof {
        reveal_strlit("Bun.file");
        reveal_strlit(".text()");
        reveal_strlit(".json()");
    }
    let starts = code_occurrences_chars(&chars, &needle);
    let ghost occ = code_occurrences_spec(chars@, "Bun.file"@);
    let ghost total = file_scan(path@, chars@, occ);
    let mut text_suffix: Vec<char> = Vec::new();
    push_str(&mut text_suffix, ".text()");
    let mut json_suffix: Vec<char> = Vec::new();
    push_str(&mut json_suffix, ".json()");
    let mut edits: Vec<Edit> = Vec::new();
    let mut diagnostics: Vec<Diagnostic> = Vec::new();
    let mut k: usize = 0;
    assert(occ.skip(0) =~= occ);
    while k < starts.len()
        invariant
            k <= starts.len(),
            mask@ == code_mask_spec(chars@),
            mask@.len() == chars@.len(),
            needle@ == "Bun.file"@,
            text_suffix@ == ".text()"@,
            json_suffix@ == ".json()"@,
            occ == code_occurrences_spec(chars@, "Bun.file"@),
            starts@.map_values(|x: usize| x as int) == occ,
            total == file_scan(path@, chars@, occ),
            edits_view(edits@) + file_scan(path@, chars@, occ.skip(k as int)).0 == total.0,
            diagnostics@.map_values(|d: Diagnostic| d@) + file_scan(path@, chars@, occ.skip(k as int)).1
                == total.1,
            ranges_fit(edits_view(edits@), chars@.len() as int),
        decreases starts.len() - k,
    {
        let start = starts[k];
        let ghost rest = file_scan(path@, chars@, occ.skip(k + 1));
        proof {
            reveal_strlit("Bun.file");
            reveal_strlit(".text()");
            reveal_strlit(".json()");
            assert(occ[k as int] == start as int);
            lemma_code_occurrence(chars@, "Bun.file"@, k as int);
            assert(occ.skip(k as int).drop_first() =~= occ.skip(k + 1));
            assert(occ.skip(k as int)[0] == start as int);
        }
        let mut open = start + 8;
        while open < chars.len() && is_ascii_ws_exec(chars[open])
            invariant
                start + 8 <= open <= chars.len(),
                skip_ascii_ws(chars@, start + 8) == skip_ascii_ws(chars@, open as int),
            decreases chars.len() - open,
        {
            open = open + 1;
        }
        assert(skip_ascii_ws(chars@, open as int) == open as int);
        assert(skip_ascii_ws(chars@, start + 8) == open as int);
        proof {
            super::lemma_close_from_bounds(chars@, mask@, '(', ')', open as int, 0);
        }
        let mut step_edit: Option<Edit> = None;
        let mut step_diag: Option<Diagnostic> = None;
        if open < chars.len() && chars[open] == '(' {
            match matching_close(&chars, &mask, '(', ')', open) {
                None => {},
                Some(close) => {
                    assert(close_from(chars@, mask@, '(', ')', open as int, 0) == Some(close as int));
                    let argument = slice_of(&chars, open + 1, close);
                    if matches_at_exec(&chars, &text_suffix, close + 1) {
                        let text = make_text("Deno.readTextFile(", &argument, ")");
                        step_edit = Some(Edit { start, end: close + 8, text });
                    } else if matches_at_exec(&chars, &json_suffix, close + 1) {
                        match preceding_await(&chars, start) {
                            Some(a) => {
                                let text = make_text(
                                    "JSON.parse(await Deno.readTextFile(",
                                    &argument,
                                    "))",
                                );
                                step_edit = Some(Edit { start: a, end: close + 8, text });
                            },
                            None => {
                                step_diag = Some(
                                    blocking(
                                        "RUNTIME_BUN_FILE_JSON_UNSUPPORTED",
                                        path,
                                        "Bun.file(...).json() is only rewritten when directly awaited.",
                                        "Await the JSON read explicitly or migrate its promise flow manually.",
                                    ),
                                );
                            },
                        }
                    }
                },
            }
        }
        assert(step_edit matches Some(x) ==> x.start <= x.end <= chars.len());
        proof {
            match file_step(path@, chars@, start as int) {
                FileStep::Skip => {
                    assert(step_edit is None && step_diag is None);
                },
                FileStep::Replace(e) => {
                    assert(step_edit matches Some(x) && x@ == e);
                    assert(step_diag is None);
                },
                FileStep::Refuse(d) => {
                    assert(step_edit is None);
                    assert(step_diag matches Some(x) && x@ == d);
                },
            }
        }
        match step_edit {
            Some(e) => {
                let ghost before = edits@;
                edits.push(e);
                proof {
                    lemma_edits_view_push(before, e);
                    assert(edits_view(edits@) + rest.0 =~= edits_view(before) + (seq![e@]
                        + rest.0));
                    assert forall|i: int| 0 <= i < edits_view(edits@).len() implies 0
                        <= #[trigger] edits_view(edits@)[i].0 <= edits_view(edits@)[i].1
                        <= chars@.len() by {
                        if i < before.len() {
                            assert(edits_view(edits@)[i] == edits_view(before)[i]);
                        }
                    }
                }
            },
            None => {},
        }
        match step_diag {
            Some(d) => {
                let ghost before = diagnostics@;
                diagnostics.push(d);
                proof {
                    assert(diagnostics@.map_values(|d: Diagnostic| d@) + rest.1 =~= before.map_values(
                        |d: Diagnostic| d@,
                    ) + (seq![d@] + rest.1));
                }
            },
            None => {},
        }
        k = k + 1;
    }
    proof {
        assert(occ.skip(k as int).len() == 0);
        assert(edits_view(edits@) + Seq::<(int, int, Seq<char>)>::empty() =~= edits_view(edits@));
        assert(diagnostics@.map_values(|d: Diagnostic| d@) + Seq::<DiagnosticView>::empty()
            =~= diagnostics@.map_values(|d: Diagnostic| d@));
        lemma_fitting_edits_select(edits_view(edits@), chars@.len() as int);
    }
    let count = edits.len();
    let mut permissions = PermissionSet::new();
    if count > 0 {
        permissions.insert(DenoPermission::Read);
    }
    assert(permissions@ =~= (if count == 0 {
        Set::empty()
    } else {
        set![DenoPermission::Read]
    }));
    finish(&chars, &edits, RecipeId::FileToDenoFileApi, count, diagnostics, permissions)
}

} // verus!
