//! The runtime inspection: which repository entries are runtime inputs,
//! which of them are refused, what evidence of Bun runtime use their text
//! holds, and the repository fingerprint over all of it. The walk over the
//! repository and the reading of files happen outside; each entry arrives
//! here as a plain value.
use vstd::prelude::*;
use crate::cleanup::{
    bun_package_at, bun_script, bun_type_packages, contains_command_token, declares, dependency_sections,
    is_source_code_path, section_at, source_code_path,
};
use crate::digest::{decimal, decimal_u64, digest_bytes_spec, digest_text, frame, push_frame, short_digest, short_digest_spec};
use crate::json::{
    array_items, as_array, as_object, get, get_in, get_member, json5_read, json_view, member_index, normalized_json,
    object_members, read_json, read_json5, serde_json_read, string_value, strip_json_comments_and_trailing_commas, Json,
    JsonValue,
};
use crate::model::{blocking_view, blocking_with_evidence, diagnostics_view, Diagnostic, DiagnosticView};
use crate::project_ir::{concat_texts, counted, lemma_concat_step, push_counted_start};
use crate::text::{
    chars_of, contains_seq, ends_with, push_chars, push_str, rfind_char, rfind_char_exec, slice_of, starts_with,
    str_contains, str_ends_with, str_eq, str_starts_with, string_of, strs, texts,
};
use super::lex::{code_occurrences_spec, contains_code, without_comments_chars, without_comments_spec};
use super::model::{RuntimeFile, RuntimeInspection};
use super::recipe::chain::{is_tsconfig_file, tsconfig_file};
use super::recipe::tsconfig::bun_types_entry;

verus! {

/// Runtime inputs larger than this many bytes are refused.
pub const MAX_RUNTIME_FILE_BYTES: u64 = 512000;

/// One entry of the repository walk.
pub enum RuntimeEntry {
    /// A symbolic link, and whether it points at a directory.
    Symlink { path: String, target_is_directory: bool },
    /// A file: its size when it could be had, and its text when it was read
    /// (only runtime inputs within the size limit are read).
    File { path: String, size: Option<u64>, content: Option<String> },
}

/// Sources, package manifests, `bunfig.toml` and `tsconfig*.json` files.
pub open spec fn runtime_input_path_spec(path: Seq<char>) -> bool {
    ||| source_code_path(path)
    ||| path == "package.json"@
    ||| ends_with(path, "/package.json"@)
    ||| path == "bunfig.toml"@
    ||| ends_with(path, "/bunfig.toml"@)
    ||| tsconfig_file(path)
}

/// Whether the inspection reads the file at `path`.
pub fn runtime_input_path(path: &str) -> (r: bool)
    ensures
        r == runtime_input_path_spec(path@),
{
    if is_source_code_path(path) {
        return true;
    }
    let c = chars_of(path);
    if str_eq(&c, "package.json") || str_ends_with(&c, "/package.json") || str_eq(&c, "bunfig.toml") || str_ends_with(
        &c,
        "/bunfig.toml",
    ) {
        return true;
    }
    is_tsconfig_file(path)
}

/// Whether the text, comments removed, imports a `bun:` module or `bun`.
pub open spec fn import_evidence_spec(content: Seq<char>) -> bool {
    let w = without_comments_spec(content);
    contains_seq(w, "\"bun:"@) || contains_seq(w, "'bun:"@) || contains_seq(w, " from \"bun\""@) || contains_seq(
        w,
        " from 'bun'"@,
    )
}

fn import_specifier_evidence(content: &str) -> (r: bool)
    ensures
        r == import_evidence_spec(content@),
{
    let w = without_comments_chars(&chars_of(content));
    str_contains(&w, "\"bun:") || str_contains(&w, "'bun:") || str_contains(&w, " from \"bun\"") || str_contains(
        &w,
        " from 'bun'",
    )
}

/// Whether a manifest (JSON with comments and trailing commas) declares a
/// Bun type package or has a script that runs `bun` or `bunx`; text that
/// does not parse holds no such reference.
pub open spec fn manifest_bun_spec(content: Seq<char>) -> bool {
    match serde_json_read(normalized_json(content)) {
        Ok(doc) => {
            ||| exists|s: int, n: int|
                0 <= s < 4 && 0 <= n < 2 && #[trigger] declares(
                    doc,
                    dependency_sections()[s],
                    bun_type_packages()[n],
                )
            ||| scripts_run_bun(doc)
        },
        Err(_) => false,
    }
}

fn declares_bun_types(doc: &JsonValue) -> (r: bool)
    ensures
        r == exists|s: int, n: int|
            0 <= s < 4 && 0 <= n < 2 && #[trigger] declares(
                json_view(*doc),
                dependency_sections()[s],
                bun_type_packages()[n],
            ),
{
    let ghost d = json_view(*doc);
    let mut idx: usize = 0;
    while idx < 8
        invariant
            idx <= 8,
            d == json_view(*doc),
            forall|s: int, n: int|
                0 <= s < 4 && 0 <= n < 2 && s * 2 + n < idx ==> !#[trigger] declares(
                    d,
                    dependency_sections()[s],
                    bun_type_packages()[n],
                ),
        decreases 8 - idx,
    {
        let s = idx / 2;
        let n = idx % 2;
        let declared = match object_members(get_member(doc, section_at(s))) {
            Some(ms) => member_index(ms, bun_package_at(n)).is_some(),
            None => false,
        };
        assert(declared == declares(d, dependency_sections()[s as int], bun_type_packages()[n as int]));
        if declared {
            return true;
        }
        idx = idx + 1;
    }
    false
}

/// Whether one of the manifest's scripts runs `bun` or `bunx`.
pub open spec fn scripts_run_bun(doc: Json) -> bool {
    match as_object(get(doc, "scripts"@)) {
        Some(ms) => any_bun_script(ms),
        None => false,
    }
}

pub open spec fn any_bun_script(ms: Seq<(Seq<char>, Json)>) -> bool {
    exists|i: int| 0 <= i < ms.len() && #[trigger] bun_script(ms[i].1)
}

pub open spec fn any_bun_types(types: Seq<Json>) -> bool {
    exists|i: int| 0 <= i < types.len() && #[trigger] bun_types_entry(types[i])
}

fn runs_bun_script(doc: &JsonValue) -> (r: bool)
    ensures
        r == scripts_run_bun(json_view(*doc)),
{
    match object_members(get_member(doc, "scripts")) {
        None => false,
        Some(ms) => {
            let ghost mv = as_object(get(json_view(*doc), "scripts"@)).unwrap();
            proof {
                crate::json::lemma_object_view(*ms);
            }
            let mut i: usize = 0;
            while i < ms.len()
                invariant
                    i <= ms.len(),
                    mv == crate::json::members_view(ms@),
                    mv.len() == ms.len(),
                    as_object(get(json_view(*doc), "scripts"@)) == Some(mv),
                    forall|j: int| 0 <= j < i ==> !#[trigger] bun_script(mv[j].1),
                decreases ms.len() - i,
            {
                assert(mv[i as int].1 == json_view(ms@[i as int].1));
                proof {
                    reveal_strlit("bun");
                    reveal_strlit("bunx");
                }
                let found = match string_value(Some(&ms[i].1)) {
                    Some(cmd) => contains_command_token(cmd.as_str(), "bun") || contains_command_token(
                        cmd.as_str(),
                        "bunx",
                    ),
                    None => false,
                };
                proof {
                    reveal_strlit("bun");
                    reveal_strlit("bunx");
                }
                assert(found == bun_script(mv[i as int].1));
                if found {
                    assert(as_object(get(json_view(*doc), "scripts"@)) == Some(mv));
                    assert(0 <= i < mv.len() && bun_script(mv[i as int].1));
                    assert(any_bun_script(mv));
                    assert(scripts_run_bun(json_view(*doc)));
                    return true;
                }
                i = i + 1;
            }
            false
        },
    }
}

fn manifest_has_bun_runtime(content: &str) -> (r: bool)
    ensures
        r == manifest_bun_spec(content@),
{
    let normalized = strip_json_comments_and_trailing_commas(content);
    match read_json(normalized.as_str()) {
        Err(_) => false,
        Ok(doc) => declares_bun_types(&doc) || runs_bun_script(&doc),
    }
}

/// Whether a TypeScript configuration (JSON5) lists a Bun type package in
/// `compilerOptions.types`; text that does not parse lists none.
pub open spec fn tsconfig_bun_spec(content: Seq<char>) -> bool {
    match json5_read(content) {
        Ok(j) => match as_array(get_in(get(j, "compilerOptions"@), "types"@)) {
            Some(types) => any_bun_types(types),
            None => false,
        },
        Err(_) => false,
    }
}

fn tsconfig_has_bun_types(content: &str) -> (r: bool)
    ensures
        r == tsconfig_bun_spec(content@),
{
    match read_json5(content) {
        Err(_) => false,
        Ok(doc) => {
            let options = get_member(&doc, "compilerOptions");
            let types = match options {
                Some(o) => get_member(o, "types"),
                None => None,
            };
            match array_items(types) {
                None => false,
                Some(items) => {
                        let ghost tv = items@.map_values(|x: JsonValue| json_view(x));
                    assert(as_array(get_in(get(json_view(doc), "compilerOptions"@), "types"@)) == Some(tv));
                    let mut i: usize = 0;
                    while i < items.len()
                        invariant
                            i <= items.len(),
                            tv == items@.map_values(|x: JsonValue| json_view(x)),
                            json5_read(content@) == Ok::<Json, Seq<char>>(json_view(doc)),
                            as_array(get_in(get(json_view(doc), "compilerOptions"@), "types"@)) == Some(tv),
                            forall|j: int| 0 <= j < i ==> !#[trigger] bun_types_entry(tv[j]),
                        decreases items.len() - i,
                    {
                        let hit = match string_value(Some(&items[i])) {
                            Some(s) => {
                                let sc = chars_of(s.as_str());
                                str_eq(&sc, "bun-types") || str_eq(&sc, "@types/bun")
                            },
                            None => false,
                        };
                        assert(hit == bun_types_entry(tv[i as int]));
                        if hit {
                            assert(json5_read(content@) == Ok::<Json, Seq<char>>(json_view(doc)));
                            assert(0 <= i < tv.len() && bun_types_entry(tv[i as int]));
                            assert(any_bun_types(tv));
                            assert(tsconfig_bun_spec(content@));
                            return true;
                        }
                        i = i + 1;
                    }
                    false
                },
            }
        },
    }
}

/// The evidence of Bun runtime use in one input file.
pub open spec fn bun_evidence_spec(path: Seq<char>, content: Seq<char>) -> Seq<Seq<char>> {
    if source_code_path(path) {
        (if code_occurrences_spec(content, "Bun."@).len() > 0 {
            seq![path + ":Bun global API"@]
        } else {
            seq![]
        }) + (if import_evidence_spec(content) {
            seq![path + ":Bun module import"@]
        } else {
            seq![]
        })
    } else if ends_with(path, "package.json"@) && manifest_bun_spec(content) {
        seq![path + ":Bun runtime manifest reference"@]
    } else if ends_with(path, ".json"@) && tsconfig_bun_spec(content) {
        seq![path + ":Bun TypeScript types"@]
    } else if ends_with(path, "bunfig.toml"@) {
        seq![path + ":Bun runtime configuration"@]
    } else {
        seq![]
    }
}

fn labelled(path: &str, label: &str) -> (r: String)
    ensures
        r@ == path@ + label@,
{
    let mut t = chars_of(path);
    push_str(&mut t, label);
    string_of(&t)
}

/// The evidence of Bun runtime use in one input file (see `bun_evidence_spec`).
pub fn bun_evidence(path: &str, content: &str) -> (r: Vec<String>)
    ensures
        strs(r@) == bun_evidence_spec(path@, content@),
{
    let mut evidence: Vec<String> = Vec::new();
    let p = chars_of(path);
    if is_source_code_path(path) {
        let global = contains_code(content, "Bun.");
        if global {
            evidence.push(labelled(path, ":Bun global API"));
        }
        let ghost first = strs(evidence@);
        if import_specifier_evidence(content) {
            evidence.push(labelled(path, ":Bun module import"));
        }
        assert(strs(evidence@) =~= bun_evidence_spec(path@, content@));
    } else if str_ends_with(&p, "package.json") && manifest_has_bun_runtime(content) {
        evidence.push(labelled(path, ":Bun runtime manifest reference"));
        assert(strs(evidence@) =~= bun_evidence_spec(path@, content@));
    } else if str_ends_with(&p, ".json") && tsconfig_has_bun_types(content) {
        evidence.push(labelled(path, ":Bun TypeScript types"));
        assert(strs(evidence@) =~= bun_evidence_spec(path@, content@));
    } else if str_ends_with(&p, "bunfig.toml") {
        evidence.push(labelled(path, ":Bun runtime configuration"));
        assert(strs(evidence@) =~= bun_evidence_spec(path@, content@));
    } else {
        assert(strs(evidence@) =~= bun_evidence_spec(path@, content@));
    }
    evidence
}

/// A symbolic link refused by the inspection.
pub open spec fn symlink_refused(path: Seq<char>) -> DiagnosticView {
    blocking_view(
        "RUNTIME_SOURCE_SYMLINK_UNSUPPORTED"@,
        "A runtime source or source directory is represented by a symbolic link."@,
        path,
        "The runtime inspection boundary cannot safely read this entry."@,
        "Replace the symlink with repository-owned files before planning the migration."@,
    )
}

/// A runtime input over the size limit.
pub open spec fn oversized_refused(path: Seq<char>) -> DiagnosticView {
    blocking_view(
        "RUNTIME_SOURCE_FILE_TOO_LARGE"@,
        "A runtime input exceeds the deterministic inspection size limit."@,
        path,
        "The runtime inspection boundary cannot safely read this entry."@,
        "Split the file below 512,000 bytes or migrate it explicitly before retrying."@,
    )
}

/// The path of an entry.
pub open spec fn entry_path(e: RuntimeEntry) -> Seq<char> {
    match e {
        RuntimeEntry::Symlink { path, .. } => path@,
        RuntimeEntry::File { path, .. } => path@,
    }
}

/// A link that points at a directory or stands where a runtime input would.
pub open spec fn refused_link(e: RuntimeEntry) -> bool {
    match e {
        RuntimeEntry::Symlink { path, target_is_directory } => target_is_directory || runtime_input_path_spec(path@),
        _ => false,
    }
}

/// The size of a runtime input over the limit.
pub open spec fn oversize(e: RuntimeEntry) -> Option<u64> {
    match e {
        RuntimeEntry::File { path, size, .. } => if runtime_input_path_spec(path@) {
            match size {
                Some(n) => if n > MAX_RUNTIME_FILE_BYTES {
                    Some(n)
                } else {
                    None
                },
                None => None,
            }
        } else {
            None
        },
        _ => None,
    }
}

/// The text of a runtime input that was read within the size limit.
pub open spec fn read_text(e: RuntimeEntry) -> Option<Seq<char>> {
    match e {
        RuntimeEntry::File { path, size, content } => if runtime_input_path_spec(path@) {
            match size {
                Some(n) => if n > MAX_RUNTIME_FILE_BYTES {
                    None
                } else {
                    match content {
                        Some(c) => Some(c@),
                        None => None,
                    }
                },
                None => None,
            }
        } else {
            None
        },
        _ => None,
    }
}

/// What one entry adds to the fingerprint.
pub open spec fn entry_items(e: RuntimeEntry) -> Seq<Seq<char>> {
    if refused_link(e) {
        seq![frame(entry_path(e)) + frame("unsafe:symlink"@)]
    } else if let Some(n) = oversize(e) {
        seq![frame(entry_path(e)) + frame("unsafe:size:"@ + decimal(n as nat))]
    } else if let Some(c) = read_text(e) {
        seq![frame(entry_path(e)) + frame(digest_bytes_spec(vstd::utf8::encode_utf8(c)))]
    } else {
        seq![]
    }
}

/// What one entry adds to the refusals.
pub open spec fn entry_diagnostics(e: RuntimeEntry) -> Seq<DiagnosticView> {
    if refused_link(e) {
        seq![symlink_refused(entry_path(e))]
    } else if oversize(e) is Some {
        seq![oversized_refused(entry_path(e))]
    } else {
        seq![]
    }
}

/// What one entry adds to the input files.
pub open spec fn entry_files(e: RuntimeEntry) -> Seq<(Seq<char>, Seq<char>)> {
    match read_text(e) {
        Some(c) => seq![(entry_path(e), c)],
        None => seq![],
    }
}

/// What one entry adds to the evidence.
pub open spec fn entry_evidence(e: RuntimeEntry) -> Seq<Seq<char>> {
    match read_text(e) {
        Some(c) => bun_evidence_spec(entry_path(e), c),
        None => seq![],
    }
}

pub open spec fn all_items(es: Seq<RuntimeEntry>) -> Seq<Seq<char>>
    decreases es.len(),
{
    if es.len() == 0 {
        seq![]
    } else {
        all_items(es.drop_last()) + entry_items(es.last())
    }
}

pub open spec fn all_diagnostics(es: Seq<RuntimeEntry>) -> Seq<DiagnosticView>
    decreases es.len(),
{
    if es.len() == 0 {
        seq![]
    } else {
        all_diagnostics(es.drop_last()) + entry_diagnostics(es.last())
    }
}

pub open spec fn all_files(es: Seq<RuntimeEntry>) -> Seq<(Seq<char>, Seq<char>)>
    decreases es.len(),
{
    if es.len() == 0 {
        seq![]
    } else {
        all_files(es.drop_last()) + entry_files(es.last())
    }
}

pub open spec fn all_evidence(es: Seq<RuntimeEntry>) -> Seq<Seq<char>>
    decreases es.len(),
{
    if es.len() == 0 {
        seq![]
    } else {
        all_evidence(es.drop_last()) + entry_evidence(es.last())
    }
}

/// The repository fingerprint of the entries.
pub open spec fn runtime_fingerprint(es: Seq<RuntimeEntry>) -> Seq<char> {
    short_digest_spec("runtime_repo_"@, counted(all_items(es)))
}

pub open spec fn files_view(files: Seq<RuntimeFile>) -> Seq<(Seq<char>, Seq<char>)> {
    files.map_values(|f: RuntimeFile| (f.path@, f.content@))
}

fn push_item(items: &mut Vec<Vec<char>>, path: &str, value: &[char])
    ensures
        texts(final(items)@) == texts(old(items)@).push(frame(path@) + frame(value@)),
{
    let ghost before = texts(items@);
    let mut t: Vec<char> = Vec::new();
    push_frame(&mut t, &chars_of(path));
    push_frame(&mut t, value);
    assert(t@ =~= frame(path@) + frame(value@));
    items.push(t);
    assert(texts(items@) =~= before.push(frame(path@) + frame(value@)));
}

fn inspect_entry(
    e: &RuntimeEntry,
    files: &mut Vec<RuntimeFile>,
    evidence: &mut Vec<String>,
    diagnostics: &mut Vec<Diagnostic>,
    items: &mut Vec<Vec<char>>,
)
    ensures
        files_view(final(files)@) == files_view(old(files)@) + entry_files(*e),
        strs(final(evidence)@) == strs(old(evidence)@) + entry_evidence(*e),
        diagnostics_view(final(diagnostics)@) == diagnostics_view(old(diagnostics)@) + entry_diagnostics(*e),
        texts(final(items)@) == texts(old(items)@) + entry_items(*e),
{
    let ghost f0 = files_view(files@);
    let ghost v0 = strs(evidence@);
    let ghost d0 = diagnostics_view(diagnostics@);
    let ghost i0 = texts(items@);
    match e {
        RuntimeEntry::Symlink { path, target_is_directory } => {
            if *target_is_directory || runtime_input_path(path.as_str()) {
                push_item(items, path.as_str(), &chars_of("unsafe:symlink"));
                diagnostics.push(
                    blocking_with_evidence(
                        "RUNTIME_SOURCE_SYMLINK_UNSUPPORTED",
                        "A runtime source or source directory is represented by a symbolic link.",
                        path.as_str(),
                        "The runtime inspection boundary cannot safely read this entry.",
                        "Replace the symlink with repository-owned files before planning the migration.",
                    ),
                );
                assert(diagnostics_view(diagnostics@) =~= d0 + entry_diagnostics(*e));
            } else {
                assert(diagnostics_view(diagnostics@) =~= d0 + entry_diagnostics(*e));
            }
            assert(texts(items@) =~= i0 + entry_items(*e));
            assert(files_view(files@) =~= f0 + entry_files(*e));
            assert(strs(evidence@) =~= v0 + entry_evidence(*e));
        },
        RuntimeEntry::File { path, size, content } => {
            if !runtime_input_path(path.as_str()) {
                assert(texts(items@) =~= i0 + entry_items(*e));
                assert(files_view(files@) =~= f0 + entry_files(*e));
                assert(strs(evidence@) =~= v0 + entry_evidence(*e));
                assert(diagnostics_view(diagnostics@) =~= d0 + entry_diagnostics(*e));
                return;
            }
            match size {
                None => {
                    assert(texts(items@) =~= i0 + entry_items(*e));
                    assert(files_view(files@) =~= f0 + entry_files(*e));
                    assert(strs(evidence@) =~= v0 + entry_evidence(*e));
                    assert(diagnostics_view(diagnostics@) =~= d0 + entry_diagnostics(*e));
                },
                Some(n) => {
                    if *n > MAX_RUNTIME_FILE_BYTES {
                        let mut value = chars_of("unsafe:size:");
                        let d = decimal_u64(*n);
                        push_chars(&mut value, &d);
                        push_item(items, path.as_str(), &value);
                        diagnostics.push(
                            blocking_with_evidence(
                                "RUNTIME_SOURCE_FILE_TOO_LARGE",
                                "A runtime input exceeds the deterministic inspection size limit.",
                                path.as_str(),
                                "The runtime inspection boundary cannot safely read this entry.",
                                "Split the file below 512,000 bytes or migrate it explicitly before retrying.",
                            ),
                        );
                        assert(texts(items@) =~= i0 + entry_items(*e));
                        assert(files_view(files@) =~= f0 + entry_files(*e));
                        assert(strs(evidence@) =~= v0 + entry_evidence(*e));
                        assert(diagnostics_view(diagnostics@) =~= d0 + entry_diagnostics(*e));
                    } else {
                        match content {
                            None => {
                                assert(texts(items@) =~= i0 + entry_items(*e));
                                assert(files_view(files@) =~= f0 + entry_files(*e));
                                assert(strs(evidence@) =~= v0 + entry_evidence(*e));
                                assert(diagnostics_view(diagnostics@) =~= d0 + entry_diagnostics(*e));
                            },
                            Some(c) => {
                                let digest = digest_text(c.as_str());
                                push_item(items, path.as_str(), &chars_of(digest.as_str()));
                                let found = bun_evidence(path.as_str(), c.as_str());
                                let mut k: usize = 0;
                                while k < found.len()
                                    invariant
                                        k <= found.len(),
                                        strs(evidence@) == v0 + strs(found@).take(k as int),
                                    decreases found.len() - k,
                                {
                                    let ghost before = evidence@;
                                    evidence.push(found[k].as_str().to_owned());
                                    assert(strs(evidence@) =~= strs(before).push(found@[k as int]@));
                                    assert(strs(found@).take(k + 1) =~= strs(found@).take(k as int).push(
                                        found@[k as int]@,
                                    ));
                                    assert(strs(evidence@) =~= v0 + strs(found@).take(k + 1));
                                    k = k + 1;
                                }
                                assert(strs(found@).take(found.len() as int) =~= strs(found@));
                                files.push(RuntimeFile { path: path.as_str().to_owned(), content: c.as_str().to_owned() });
                                assert(texts(items@) =~= i0 + entry_items(*e));
                                assert(files_view(files@) =~= f0 + entry_files(*e));
                                assert(strs(evidence@) =~= v0 + entry_evidence(*e));
                                assert(diagnostics_view(diagnostics@) =~= d0 + entry_diagnostics(*e));
                            },
                        }
                    }
                },
            }
        },
    }
}

/// The runtime inspection of the repository's entries, in walk order: the
/// runtime inputs read, the evidence of Bun use in them, the entries
/// refused, and the fingerprint over what each input contributed.
pub fn inspect_runtime_entries(entries: &Vec<RuntimeEntry>) -> (r: RuntimeInspection)
    ensures
        r.fingerprint@ == runtime_fingerprint(entries@),
        files_view(r.files@) == all_files(entries@),
        strs(r.bun_evidence@) == all_evidence(entries@),
        diagnostics_view(r.input_diagnostics@) == all_diagnostics(entries@),
{
    let ghost es = entries@;
    let mut files: Vec<RuntimeFile> = Vec::new();
    let mut evidence: Vec<String> = Vec::new();
    let mut diagnostics: Vec<Diagnostic> = Vec::new();
    let mut items: Vec<Vec<char>> = Vec::new();
    assert(files_view(files@) =~= all_files(es.take(0)));
    assert(strs(evidence@) =~= all_evidence(es.take(0)));
    assert(diagnostics_view(diagnostics@) =~= all_diagnostics(es.take(0)));
    assert(texts(items@) =~= all_items(es.take(0)));
    let mut i: usize = 0;
    while i < entries.len()
        invariant
            i <= entries.len(),
            es == entries@,
            files_view(files@) == all_files(es.take(i as int)),
            strs(evidence@) == all_evidence(es.take(i as int)),
            diagnostics_view(diagnostics@) == all_diagnostics(es.take(i as int)),
            texts(items@) == all_items(es.take(i as int)),
        decreases entries.len() - i,
    {
        assert(es.take(i + 1).drop_last() =~= es.take(i as int));
        assert(es.take(i + 1).last() == es[i as int]);
        inspect_entry(&entries[i], &mut files, &mut evidence, &mut diagnostics, &mut items);
        i = i + 1;
    }
    assert(es.take(entries.len() as int) =~= es);
    let ghost all = texts(items@);
    let mut text: Vec<char> = Vec::new();
    push_counted_start(&mut text, items.len());
    let ghost base = text@;
    let mut k: usize = 0;
    assert(all.take(0) =~= Seq::<Seq<char>>::empty());
    while k < items.len()
        invariant
            k <= items.len(),
            all == texts(items@),
            text@ == base + concat_texts(all.take(k as int)),
        decreases items.len() - k,
    {
        push_chars(&mut text, &items[k]);
        proof {
            lemma_concat_step(all, k as int);
        }
        assert(text@ =~= base + concat_texts(all.take(k + 1)));
        k = k + 1;
    }
    assert(all.take(items.len() as int) =~= all);
    assert(text@ =~= counted(all_items(es)));
    let fingerprint = short_digest("runtime_repo_", &text);
    RuntimeInspection { fingerprint, files, bun_evidence: evidence, input_diagnostics: diagnostics }
}

/// What a verification finds left of one refused input: its location and
/// code, or the code alone.
pub open spec fn residue(d: DiagnosticView) -> Seq<char> {
    if d.evidence.len() > 0 {
        d.evidence[0].0 + ":"@ + d.code
    } else {
        d.code
    }
}

/// The Bun references an inspection still finds: its evidence, then one
/// residue for each refused input.
pub fn residual_references(inspection: &RuntimeInspection) -> (r: Vec<String>)
    ensures
        strs(r@) == strs(inspection.bun_evidence@) + diagnostics_view(inspection.input_diagnostics@).map_values(
            |d: DiagnosticView| residue(d),
        ),
{
    let ghost ev = strs(inspection.bun_evidence@);
    let ghost dv = diagnostics_view(inspection.input_diagnostics@);
    let mut r: Vec<String> = Vec::new();
    let mut i: usize = 0;
    while i < inspection.bun_evidence.len()
        invariant
            i <= inspection.bun_evidence.len(),
            ev == strs(inspection.bun_evidence@),
            strs(r@) == ev.take(i as int),
        decreases inspection.bun_evidence.len() - i,
    {
        let ghost before = r@;
        r.push(inspection.bun_evidence[i].as_str().to_owned());
        assert(strs(r@) =~= strs(before).push(ev[i as int]));
        assert(strs(r@) =~= ev.take(i + 1));
        i = i + 1;
    }
    assert(ev.take(ev.len() as int) =~= ev);
    let mut j: usize = 0;
    while j < inspection.input_diagnostics.len()
        invariant
            j <= inspection.input_diagnostics.len(),
            ev == strs(inspection.bun_evidence@),
            dv == diagnostics_view(inspection.input_diagnostics@),
            strs(r@) == ev + dv.take(j as int).map_values(|d: DiagnosticView| residue(d)),
        decreases inspection.input_diagnostics.len() - j,
    {
        let d = &inspection.input_diagnostics[j];
        assert(dv[j as int] == d@);
        let text = if d.evidence.len() > 0 {
            let mut t = chars_of(d.evidence[0].location.as_str());
            push_str(&mut t, ":");
            push_str(&mut t, d.code.as_str());
            string_of(&t)
        } else {
            d.code.as_str().to_owned()
        };
        assert(text@ == residue(dv[j as int]));
        let ghost before = r@;
        r.push(text);
        assert(strs(r@) =~= strs(before).push(residue(dv[j as int])));
        assert(dv.take(j + 1).map_values(|d: DiagnosticView| residue(d)) =~= dv.take(j as int).map_values(
            |d: DiagnosticView| residue(d),
        ).push(residue(dv[j as int])));
        assert(strs(r@) =~= ev + dv.take(j + 1).map_values(|d: DiagnosticView| residue(d)));
        j = j + 1;
    }
    assert(dv.take(dv.len() as int) =~= dv);
    r
}

} // verus!
