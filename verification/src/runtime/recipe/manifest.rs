//! `package.json`: Bun type packages are removed and Bun scripts become Deno
//! commands.
use vstd::prelude::*;
use crate::json::{
    find_member, lemma_object_view, member_index, members_view, normalized_json, read_json,
    serde_json_pretty, serde_json_read, strip_json_comments_and_trailing_commas, without_member,
    write_json_pretty, Json, JsonValue,
};
use crate::model::{Diagnostic, DiagnosticView};
use crate::runtime::model::{flag_spec, permission_at, DenoPermission, PermissionSet};
use crate::text::{
    chars_of, ends_with, join, push_chars, push_str, str_ends_with, str_eq, string_of, texts,
    words, words_exec,
};
use super::{
    blocking, counts_two, counts_vec, recipe_blocking, RecipeId, TransformResult, TransformView,
};

verus! {

/// A path or command argument naming a JavaScript or TypeScript file.
pub open spec fn source_entry_spec(v: Seq<char>) -> bool {
    ||| ends_with(v, ".js"@)
    ||| ends_with(v, ".jsx"@)
    ||| ends_with(v, ".mjs"@)
    ||| ends_with(v, ".cjs"@)
    ||| ends_with(v, ".ts"@)
    ||| ends_with(v, ".tsx"@)
    ||| ends_with(v, ".mts"@)
    ||| ends_with(v, ".cts"@)
}

pub fn source_entry(value: &[char]) -> (r: bool)
    ensures
        r == source_entry_spec(value@),
{
    str_ends_with(value, ".js") || str_ends_with(value, ".jsx") || str_ends_with(value, ".mjs")
        || str_ends_with(value, ".cjs") || str_ends_with(value, ".ts") || str_ends_with(value, ".tsx")
        || str_ends_with(value, ".mts") || str_ends_with(value, ".cts")
}

/// The permissions of `perms` in declaration order.
pub open spec fn ordered_permissions(perms: Set<DenoPermission>) -> Seq<DenoPermission> {
    Seq::new(8, |i: int| permission_at(i)).filter(|p: DenoPermission| perms.contains(p))
}

/// The Deno flags of `perms`, space separated.
pub open spec fn permission_flags_spec(perms: Set<DenoPermission>) -> Seq<char> {
    join(ordered_permissions(perms).map_values(|p: DenoPermission| flag_spec(p)), " "@)
}

pub fn permission_flags(permissions: &PermissionSet) -> (r: Vec<char>)
    requires
        permissions.wf(),
    ensures
        r@ == permission_flags_spec(permissions@),
{
    let ps = permissions.to_vec();
    let mut flags: Vec<Vec<char>> = Vec::new();
    let mut i: usize = 0;
    while i < ps.len()
        invariant
            i <= ps.len(),
            ps@ == ordered_permissions(permissions@),
            texts(flags@) == ps@.take(i as int).map_values(|p: DenoPermission| flag_spec(p)),
        decreases ps.len() - i,
    {
        let f = chars_of(ps[i].flag());
        let ghost before = flags@;
        flags.push(f);
        proof {
            crate::text::lemma_texts_push(before, f);
            assert(ps@.take(i + 1) =~= ps@.take(i as int).push(ps@[i as int]));
        }
        assert(texts(flags@) =~= ps@.take(i + 1).map_values(|p: DenoPermission| flag_spec(p)));
        i = i + 1;
    }
    assert(ps@.take(ps.len() as int) =~= ps@);
    crate::text::join_exec(&flags, " ")
}

/// `deno run`, with `--watch` when asked, the permission flags and the entry.
pub open spec fn deno_run_spec(entry: Seq<char>, watch: bool, perms: Set<DenoPermission>) -> Seq<char> {
    let base = if watch {
        "deno run --watch"@
    } else {
        "deno run"@
    };
    let flags = permission_flags_spec(perms);
    (if flags.len() == 0 {
        base
    } else {
        base + " "@ + flags
    }) + " "@ + entry
}

pub fn deno_run(entry: &[char], watch: bool, permissions: &PermissionSet) -> (r: Vec<char>)
    requires
        permissions.wf(),
    ensures
        r@ == deno_run_spec(entry@, watch, permissions@),
{
    let mut command = if watch {
        chars_of("deno run --watch")
    } else {
        chars_of("deno run")
    };
    let flags = permission_flags(permissions);
    if flags.len() > 0 {
        push_str(&mut command, " ");
        push_chars(&mut command, &flags);
    }
    push_str(&mut command, " ");
    push_chars(&mut command, entry);
    command
}

/// Characters that give a script shell semantics.
pub open spec fn shell_char(c: char) -> bool {
    c == '&' || c == '|' || c == ';' || c == '>' || c == '<' || c == '`' || c == '$'
}

/// A name `deno task` can be given as it stands.
pub open spec fn task_name(t: Seq<char>) -> bool {
    forall|i: int|
        0 <= i < t.len() ==> {
            let c = #[trigger] t[i];
            ('a' <= c <= 'z') || ('A' <= c <= 'Z') || ('0' <= c <= '9') || c == '_' || c == '-'
                || c == ':' || c == '.'
        }
}

/// The Deno form of a package script: `None` when it does not run Bun,
/// `Err` when it does in a way with no deterministic Deno form.
pub open spec fn transform_script_spec(command: Seq<char>, perms: Set<DenoPermission>) -> Option<
    Result<Seq<char>, ()>,
> {
    let t = words(command);
    let flags = permission_flags_spec(perms);
    if !(t.contains("bun"@) || t.contains("bunx"@)) {
        None
    } else if exists|i: int| 0 <= i < command.len() && shell_char(#[trigger] command[i]) {
        Some(Err(()))
    } else if t.len() == 2 && t[0] == "bun"@ && t[1] == "test"@ {
        Some(
            Ok(
                if flags.len() == 0 {
                    "deno test"@
                } else {
                    "deno test "@ + flags
                },
            ),
        )
    } else if t.len() == 4 && t[0] == "bun"@ && t[1] == "run"@ && t[2] == "--hot"@ && source_entry_spec(t[3]) {
        Some(Ok(deno_run_spec(t[3], true, perms)))
    } else if t.len() == 3 && t[0] == "bun"@ && t[1] == "--hot"@ && source_entry_spec(t[2]) {
        Some(Ok(deno_run_spec(t[2], true, perms)))
    } else if t.len() == 3 && t[0] == "bun"@ && t[1] == "run"@ && source_entry_spec(t[2]) {
        Some(Ok(deno_run_spec(t[2], false, perms)))
    } else if t.len() == 2 && t[0] == "bun"@ && source_entry_spec(t[1]) {
        Some(Ok(deno_run_spec(t[1], false, perms)))
    } else if t.len() == 3 && t[0] == "bun"@ && t[1] == "run"@ && task_name(t[2]) {
        Some(Ok("deno task "@ + t[2]))
    } else {
        Some(Err(()))
    }
}

fn is_task_name(t: &[char]) -> (r: bool)
    ensures
        r == task_name(t@),
{
    let mut i: usize = 0;
    while i < t.len()
        invariant
            i <= t.len(),
            forall|j: int|
                0 <= j < i ==> {
                    let c = #[trigger] t@[j];
                    ('a' <= c <= 'z') || ('A' <= c <= 'Z') || ('0' <= c <= '9') || c == '_' || c
                        == '-' || c == ':' || c == '.'
                },
        decreases t.len() - i,
    {
        let c = t[i];
        if !(('a' <= c && c <= 'z') || ('A' <= c && c <= 'Z') || ('0' <= c && c <= '9') || c == '_'
            || c == '-' || c == ':' || c == '.') {
            return false;
        }
        i = i + 1;
    }
    true
}

fn has_shell_char(command: &[char]) -> (r: bool)
    ensures
        r == exists|i: int| 0 <= i < command@.len() && shell_char(#[trigger] command@[i]),
{
    let mut i: usize = 0;
    while i < command.len()
        invariant
            i <= command.len(),
            forall|j: int| 0 <= j < i ==> !shell_char(#[trigger] command@[j]),
        decreases command.len() - i,
    {
        let c = command[i];
        if c == '&' || c == '|' || c == ';' || c == '>' || c == '<' || c == '`' || c == '$' {
            assert(shell_char(command@[i as int]));
            return true;
        }
        i = i + 1;
    }
    false
}

fn mentions_bun(tokens: &Vec<Vec<char>>) -> (r: bool)
    ensures
        r == (texts(tokens@).contains("bun"@) || texts(tokens@).contains("bunx"@)),
{
    let ghost t = texts(tokens@);
    let mut i: usize = 0;
    while i < tokens.len()
        invariant
            i <= tokens.len(),
            t == texts(tokens@),
            forall|j: int| 0 <= j < i ==> t[j] != "bun"@ && t[j] != "bunx"@,
        decreases tokens.len() - i,
    {
        if str_eq(&tokens[i], "bun") || str_eq(&tokens[i], "bunx") {
            assert(t[i as int] == tokens@[i as int]@);
            return true;
        }
        assert(t[i as int] == tokens@[i as int]@);
        i = i + 1;
    }
    assert(!t.contains("bun"@));
    assert(!t.contains("bunx"@));
    false
}

/// The Deno form of a package script, as `transform_script_spec` states it.
pub fn transform_script(command: &[char], permissions: &PermissionSet) -> (r: Option<Result<Vec<char>, ()>>)
    requires
        permissions.wf(),
    ensures
        match (r, transform_script_spec(command@, permissions@)) {
            (None, None) => true,
            (Some(Err(_)), Some(Err(_))) => true,
            (Some(Ok(x)), Some(Ok(y))) => x@ == y,
            _ => false,
        },
{
    let tokens = words_exec(command);
    let ghost t = texts(tokens@);
    assert(t == words(command@));
    if !mentions_bun(&tokens) {
        return None;
    }
    if has_shell_char(command) {
        return Some(Err(()));
    }
    let n = tokens.len();
    proof {
        if n > 0 { assert(t[0] == tokens@[0]@); }
        if n > 1 { assert(t[1] == tokens@[1]@); }
        if n > 2 { assert(t[2] == tokens@[2]@); }
        if n > 3 { assert(t[3] == tokens@[3]@); }
    }
    if n == 2 && str_eq(&tokens[0], "bun") && str_eq(&tokens[1], "test") {
        let flags = permission_flags(permissions);
        if flags.len() > 0 {
            let mut out = chars_of("deno test ");
            push_chars(&mut out, &flags);
            return Some(Ok(out));
        }
        return Some(Ok(chars_of("deno test")));
    }
    if n == 4 && str_eq(&tokens[0], "bun") && str_eq(&tokens[1], "run") && str_eq(&tokens[2], "--hot")
        && source_entry(&tokens[3]) {
        return Some(Ok(deno_run(&tokens[3], true, permissions)));
    }
    if n == 3 && str_eq(&tokens[0], "bun") && str_eq(&tokens[1], "--hot") && source_entry(&tokens[2]) {
        return Some(Ok(deno_run(&tokens[2], true, permissions)));
    }
    if n == 3 && str_eq(&tokens[0], "bun") && str_eq(&tokens[1], "run") && source_entry(&tokens[2]) {
        return Some(Ok(deno_run(&tokens[2], false, permissions)));
    }
    if n == 2 && str_eq(&tokens[0], "bun") && source_entry(&tokens[1]) {
        return Some(Ok(deno_run(&tokens[1], false, permissions)));
    }
    if n == 3 && str_eq(&tokens[0], "bun") && str_eq(&tokens[1], "run") && is_task_name(&tokens[2]) {
        let mut out = chars_of("deno task ");
        push_chars(&mut out, &tokens[2]);
        return Some(Ok(out));
    }
    Some(Err(()))
}

/// Members of a dependency section without the Bun type packages, and how
/// many were removed.
pub open spec fn strip_runtime_types(entries: Seq<(Seq<char>, Json)>) -> (Seq<(Seq<char>, Json)>, int) {
    let a = without_member(entries, "bun-types"@);
    let b = without_member(a, "@types/bun"@);
    let n1: int = if find_member(entries, "bun-types"@) is Some { 1 } else { 0 };
    let n2: int = if find_member(a, "@types/bun"@) is Some { 1 } else { 0 };
    (b, n1 + n2)
}

/// The manifest members with the section `key`, when it is an object,
/// stripped of the Bun type packages, and how many were removed.
pub open spec fn strip_section_spec(ms: Seq<(Seq<char>, Json)>, key: Seq<char>) -> (Seq<(Seq<char>, Json)>, int) {
    match find_member(ms, key) {
        Some(i) => match ms[i].1 {
            Json::Object(entries) => {
                let (e2, n) = strip_runtime_types(entries);
                (ms.update(i, (ms[i].0, Json::Object(e2))), n)
            },
            _ => (ms, 0),
        },
        None => (ms, 0),
    }
}

/// The four dependency sections stripped in turn.
pub open spec fn strip_sections(ms: Seq<(Seq<char>, Json)>) -> (Seq<(Seq<char>, Json)>, int) {
    let (a, n1) = strip_section_spec(ms, "dependencies"@);
    let (b, n2) = strip_section_spec(a, "devDependencies"@);
    let (c, n3) = strip_section_spec(b, "optionalDependencies"@);
    let (d, n4) = strip_section_spec(c, "peerDependencies"@);
    (d, n1 + n2 + n3 + n4)
}

pub open spec fn script_unsupported(path: Seq<char>, name: Seq<char>) -> DiagnosticView {
    recipe_blocking(
        "RUNTIME_BUN_SCRIPT_UNSUPPORTED"@,
        path + "#/scripts/"@ + name,
        "A package script mixes Bun with unsupported flags or shell semantics."@,
        "Rewrite the script as a direct deno run, deno task, or deno test command."@,
    )
}

/// The scripts with each Bun command rewritten, how many were, and the
/// refusals, in member order.
pub open spec fn rewrite_scripts(
    entries: Seq<(Seq<char>, Json)>,
    perms: Set<DenoPermission>,
    path: Seq<char>,
) -> (Seq<(Seq<char>, Json)>, int, Seq<DiagnosticView>)
    decreases entries.len(),
{
    if entries.len() == 0 {
        (seq![], 0, seq![])
    } else {
        let (rest, n, ds) = rewrite_scripts(entries.drop_last(), perms, path);
        let name = entries.last().0;
        let value = entries.last().1;
        match value {
            Json::Str(command) => match transform_script_spec(command, perms) {
                Some(Ok(t)) => (rest.push((name, Json::Str(t))), n + 1, ds),
                Some(Err(_)) => (rest.push((name, value)), n, ds.push(script_unsupported(path, name))),
                None => (rest.push((name, value)), n, ds),
            },
            _ => (rest.push((name, value)), n, ds),
        }
    }
}

/// The manifest object after both steps, the number of type packages
/// removed, the number of scripts rewritten and the refusals.
pub open spec fn manifest_outcome(
    ms: Seq<(Seq<char>, Json)>,
    perms: Set<DenoPermission>,
    path: Seq<char>,
) -> (Seq<(Seq<char>, Json)>, int, int, Seq<DiagnosticView>) {
    let (m1, deps) = strip_sections(ms);
    match find_member(m1, "scripts"@) {
        Some(i) => match m1[i].1 {
            Json::Object(entries) => {
                let (e2, n, ds) = rewrite_scripts(entries, perms, path);
                (m1.update(i, (m1[i].0, Json::Object(e2))), deps, n, ds)
            },
            _ => (m1, deps, 0, seq![]),
        },
        None => (m1, deps, 0, seq![]),
    }
}

pub open spec fn manifest_invalid(path: Seq<char>, summary: Seq<char>) -> DiagnosticView {
    recipe_blocking(
        "RUNTIME_MANIFEST_INVALID"@,
        path,
        summary,
        "Repair the manifest before retrying the runtime migration."@,
    )
}

/// What the manifest recipe makes of `package.json` at `path`.
pub open spec fn manifest_spec(path: Seq<char>, content: Seq<char>, perms: Set<DenoPermission>) -> TransformView {
    match serde_json_read(normalized_json(content)) {
        Err(_) => TransformView {
            content,
            counts: super::no_counts(),
            diagnostics: seq![manifest_invalid(path, "package.json could not be parsed for runtime recipes."@)],
            permissions: Set::empty(),
        },
        Ok(Json::Object(ms)) => {
            let (m, deps, scripts, ds) = manifest_outcome(ms, perms, path);
            TransformView {
                content: if deps + scripts == 0 {
                    content
                } else {
                    serde_json_pretty(Json::Object(m)) + "\n"@
                },
                counts: counts_two(RecipeId::RuntimeTypesRemove, deps, RecipeId::ScriptsToDeno, scripts),
                diagnostics: ds,
                permissions: Set::empty(),
            }
        },
        Ok(_) => TransformView {
            content,
            counts: super::no_counts(),
            diagnostics: seq![manifest_invalid(path, "package.json must contain a JSON object."@)],
            permissions: Set::empty(),
        },
    }
}

fn remove_member(entries: &mut Vec<(String, JsonValue)>, key: &str) -> (removed: bool)
    ensures
        members_view(final(entries)@) == without_member(members_view(old(entries)@), key@),
        removed == (find_member(members_view(old(entries)@), key@) is Some),
{
    match member_index(entries, key) {
        Some(i) => {
            let ghost before = entries@;
            let _x = entries.remove(i);
            assert(members_view(entries@) =~= members_view(before).remove(i as int));
            true
        },
        None => false,
    }
}

fn strip_section(members: &mut Vec<(String, JsonValue)>, key: &str) -> (n: usize)
    ensures
        (members_view(final(members)@), n as int) == strip_section_spec(members_view(old(members)@), key@),
        n <= 2,
{
    let ghost before = members@;
    match member_index(members, key) {
        None => 0,
        Some(i) => {
            let (name, value) = members.remove(i);
            let ghost removed = members@;
            match value {
                JsonValue::Object(entries) => {
                    let mut entries = entries;
                    proof {
                        lemma_object_view(entries);
                    }
                    let r1 = remove_member(&mut entries, "bun-types");
                    let r2 = remove_member(&mut entries, "@types/bun");
                    let n: usize = (if r1 { 1 } else { 0 }) + (if r2 { 1 } else { 0 });
                    proof {
                        lemma_object_view(entries);
                    }
                    members.insert(i, (name, JsonValue::Object(entries)));
                    assert(members_view(members@) =~= members_view(before).update(
                        i as int,
                        (members_view(before)[i as int].0, Json::Object(members_view(entries@))),
                    ));
                    n
                },
                other => {
                    members.insert(i, (name, other));
                    assert(members@ =~= before);
                    0
                },
            }
        },
    }
}

fn rewrite_script_members(
    entries: Vec<(String, JsonValue)>,
    path: &str,
    permissions: &PermissionSet,
) -> (r: (Vec<(String, JsonValue)>, usize, Vec<Diagnostic>))
    requires
        permissions.wf(),
    ensures
        (members_view(r.0@), r.1 as int, r.2@.map_values(|d: Diagnostic| d@)) == rewrite_scripts(
            members_view(entries@),
            permissions@,
            path@,
        ),
{
    let ghost all = members_view(entries@);
    let total = entries.len();
    let mut rest = entries;
    let mut out: Vec<(String, JsonValue)> = Vec::new();
    let mut count: usize = 0;
    let mut diagnostics: Vec<Diagnostic> = Vec::new();
    let mut k: usize = 0;
    while k < total
        invariant
            k <= total == all.len(),
            members_view(rest@) == all.skip(k as int),
            rest@.len() == total - k,
            (members_view(out@), count as int, diagnostics@.map_values(|d: Diagnostic| d@)) == rewrite_scripts(
                all.take(k as int),
                permissions@,
                path@,
            ),
            count <= k,
            permissions.wf(),
        decreases total - k,
    {
        let ghost rv = rest@;
        let (name, value) = rest.remove(0);
        assert forall|j: int| 0 <= j < members_view(rest@).len() implies members_view(rest@)[j] == all.skip(k + 1)[j] by {
            assert(rest@[j] == rv[j + 1]);
            assert(all.skip(k + 1)[j] == all.skip(k as int)[j + 1]);
        }
        assert(members_view(rest@) =~= all.skip(k + 1));
        assert(all[k as int] == members_view(rv)[0]);
        assert(all.take(k + 1).drop_last() =~= all.take(k as int));
        let ghost pv = members_view(out@);
        let ghost dv = diagnostics@.map_values(|d: Diagnostic| d@);
        match value {
            JsonValue::Str(command) => {
                let cs = chars_of(command.as_str());
                match transform_script(&cs, permissions) {
                    Some(Ok(t)) => {
                        out.push((name, JsonValue::Str(string_of(&t))));
                        count = count + 1;
                    },
                    Some(Err(_)) => {
                        let mut location = chars_of(path);
                        push_str(&mut location, "#/scripts/");
                        let nc = chars_of(name.as_str());
                        push_chars(&mut location, &nc);
                        let loc = string_of(&location);
                        let d = blocking(
                            "RUNTIME_BUN_SCRIPT_UNSUPPORTED",
                            loc.as_str(),
                            "A package script mixes Bun with unsupported flags or shell semantics.",
                            "Rewrite the script as a direct deno run, deno task, or deno test command.",
                        );
                        diagnostics.push(d);
                        out.push((name, JsonValue::Str(command)));
                    },
                    None => {
                        out.push((name, JsonValue::Str(command)));
                    },
                }
            },
            other => {
                out.push((name, other));
            },
        }
        assert(members_view(out@) =~= pv.push(members_view(out@).last()));
        assert(diagnostics@.map_values(|d: Diagnostic| d@) =~= dv || diagnostics@.map_values(
            |d: Diagnostic| d@,
        ) =~= dv.push(diagnostics@.map_values(|d: Diagnostic| d@).last()));
        k = k + 1;
    }
    assert(all.take(total as int) =~= all);
    (out, count, diagnostics)
}

/// The manifest recipe, as `manifest_spec` states it.
pub fn transform(path: &str, content: &str, permissions: &PermissionSet) -> (r: TransformResult)
    requires
        permissions.wf(),
    ensures
        r.wf(),
        r@ == manifest_spec(path@, content@, permissions@),
{
    let normalized = strip_json_comments_and_trailing_commas(content);
    let parsed = read_json(normalized.as_str());
    let value = match parsed {
        Err(_) => {
            return TransformResult::refused(
                content,
                blocking(
                    "RUNTIME_MANIFEST_INVALID",
                    path,
                    "package.json could not be parsed for runtime recipes.",
                    "Repair the manifest before retrying the runtime migration.",
                ),
            );
        },
        Ok(v) => v,
    };
    let mut members = match value {
        JsonValue::Object(m) => m,
        _ => {
            return TransformResult::refused(
                content,
                blocking(
                    "RUNTIME_MANIFEST_INVALID",
                    path,
                    "package.json must contain a JSON object.",
                    "Repair the manifest before retrying the runtime migration.",
                ),
            );
        },
    };
    proof {
        lemma_object_view(members);
    }
    let ghost g0 = members_view(members@);
    assert(serde_json_read(normalized_json(content@)) == Ok::<Json, Seq<char>>(Json::Object(g0)));
    let n1 = strip_section(&mut members, "dependencies");
    let n2 = strip_section(&mut members, "devDependencies");
    let n3 = strip_section(&mut members, "optionalDependencies");
    let n4 = strip_section(&mut members, "peerDependencies");
    let deps = n1 + n2 + n3 + n4;
    let ghost m1 = members_view(members@);
    assert(strip_sections(g0) == (m1, deps as int));
    let mut scripts: usize = 0;
    let mut diagnostics: Vec<Diagnostic> = Vec::new();
    match member_index(&members, "scripts") {
        Some(i) => {
            let ghost before = members@;
            let (name, value) = members.remove(i);
            match value {
                JsonValue::Object(entries) => {
                    proof {
                        lemma_object_view(entries);
                    }
                    let (e2, n, ds) = rewrite_script_members(entries, path, permissions);
                    scripts = n;
                    diagnostics = ds;
                    proof {
                        lemma_object_view(e2);
                    }
                    members.insert(i, (name, JsonValue::Object(e2)));
                    assert(members_view(members@) =~= m1.update(
                        i as int,
                        (m1[i as int].0, Json::Object(members_view(e2@))),
                    ));
                },
                other => {
                    members.insert(i, (name, other));
                    assert(members@ =~= before);
                },
            }
        },
        None => {},
    }
    let ghost outcome = manifest_outcome(g0, permissions@, path@);
    assert(outcome.0 == members_view(members@));
    assert(outcome.1 == deps as int);
    assert(outcome.2 == scripts as int);
    assert(outcome.3 == diagnostics@.map_values(|d: Diagnostic| d@));
    let counts = counts_vec(RecipeId::RuntimeTypesRemove, deps, RecipeId::ScriptsToDeno, scripts);
    let new_content = if deps == 0 && scripts == 0 {
        content.to_owned()
    } else {
        proof {
            lemma_object_view(members);
        }
        let ghost mv = members_view(members@);
        let doc = JsonValue::Object(members);
        assert(doc@ == Json::Object(mv));
        let text = write_json_pretty(&doc);
        let mut cs = chars_of(text.as_str());
        push_str(&mut cs, "\n");
        string_of(&cs)
    };
    let r = TransformResult {
        content: new_content,
        counts,
        diagnostics,
        required_permissions: PermissionSet::new(),
    };
    r
}

} // verus!
