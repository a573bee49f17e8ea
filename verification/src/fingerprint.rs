//! The repository fingerprint: a SHA-256 digest over each relevant file's
//! path and the digest of its content, with the values of secret settings
//! in registry configuration files redacted first, so that rotating a
//! secret leaves the fingerprint unchanged.
use vstd::prelude::*;
use crate::digest::{digest_bytes, digest_bytes_spec, hex_lower, hex_lower_exec, sha256, sha256_digest};
use crate::lock_graph::graph::decode_utf8;
use crate::model::{ascii_lowercase, ascii_lowercase_exec};
use crate::runtime::recipe::chain::file_name;
use crate::text::{
    chars_of, contains_seq, find_char, find_char_exec, lemma_find_char_bounds, lemma_find_char_none, push_chars,
    push_str, slice_of, str_contains, str_eq, string_of,
};

verus! {

/// Registry configuration files, whose secret settings are redacted.
pub open spec fn sensitive_config_path(path: Seq<char>) -> bool {
    let n = file_name(path);
    n == ".npmrc"@ || n == ".yarnrc"@ || n == ".yarnrc.yml"@
}

/// A setting whose (lower-cased) name mentions a token, authentication, a
/// password or a secret.
pub open spec fn sensitive_key(key: Seq<char>) -> bool {
    let k = ascii_lowercase(key);
    contains_seq(k, "token"@) || contains_seq(k, "auth"@) || contains_seq(k, "password"@) || contains_seq(
        k,
        "secret"@,
    )
}

/// Where a setting's name ends: the first `=`, or else the first `:`.
pub open spec fn separator(line: Seq<char>) -> Option<int> {
    match find_char(line, '=') {
        Some(i) => Some(i),
        None => find_char(line, ':'),
    }
}

/// A line with the value of a secret setting replaced by `<redacted>`.
pub open spec fn redact_line(line: Seq<char>) -> Seq<char> {
    match separator(line) {
        Some(i) => if sensitive_key(line.take(i)) {
            line.take(i + 1) + "<redacted>"@
        } else {
            line
        },
        None => line,
    }
}

/// Each `\n`-separated line redacted.
pub open spec fn redact_lines(s: Seq<char>) -> Seq<char>
    decreases s.len(),
{
    proof {
        lemma_find_char_bounds(s, '\n');
    }
    match find_char(s, '\n') {
        None => redact_line(s),
        Some(i) => redact_line(s.take(i)) + "\n"@ + redact_lines(s.skip(i + 1)),
    }
}

/// The text of a file as the fingerprint sees it.
pub open spec fn redacted_spec(path: Seq<char>, content: Seq<char>) -> Seq<char> {
    if sensitive_config_path(path) {
        redact_lines(content)
    } else {
        content
    }
}

fn redact_one(line: &[char]) -> (r: Vec<char>)
    ensures
        r@ == redact_line(line@),
{
    let sep = match find_char_exec(line, '=') {
        Some(i) => Some(i),
        None => find_char_exec(line, ':'),
    };
    match sep {
        None => slice_of(line, 0, line.len()),
        Some(i) => {
            proof {
                lemma_find_char_bounds(line@, '=');
                lemma_find_char_bounds(line@, ':');
            }
            let key = slice_of(line, 0, i);
            let k = ascii_lowercase_exec(&key);
            if str_contains(&k, "token") || str_contains(&k, "auth") || str_contains(&k, "password") || str_contains(
                &k,
                "secret",
            ) {
                let mut out = slice_of(line, 0, i + 1);
                push_str(&mut out, "<redacted>");
                out
            } else {
                let out = slice_of(line, 0, line.len());
                assert(out@ =~= line@);
                out
            }
        },
    }
}

/// The text of a file with the values of secret settings redacted when the
/// file is a registry configuration (see `redacted_spec`).
pub fn redact_sensitive_text(path: &str, content: &str) -> (r: String)
    ensures
        r@ == redacted_spec(path@, content@),
{
    let p = chars_of(path);
    let name = crate::runtime::recipe::chain::file_name_exec(&p);
    if !(str_eq(&name, ".npmrc") || str_eq(&name, ".yarnrc") || str_eq(&name, ".yarnrc.yml")) {
        return content.to_owned();
    }
    let c = chars_of(content);
    let mut out: Vec<char> = Vec::new();
    let mut pos: usize = 0;
    assert(c@.skip(0) =~= c@);
    loop
        invariant_except_break
            pos <= c.len(),
            redact_lines(c@) == out@ + redact_lines(c@.skip(pos as int)),
        invariant
            c@ == content@,
        ensures
            out@ == redact_lines(c@),
        decreases c.len() - pos,
    {
        let rest = slice_of(&c, pos, c.len());
        assert(rest@ =~= c@.skip(pos as int));
        proof {
            lemma_find_char_bounds(rest@, '\n');
        }
        match find_char_exec(&rest, '\n') {
            None => {
                let line = redact_one(&rest);
                push_chars(&mut out, &line);
                assert(out@ == redact_lines(c@));
                break ;
            },
            Some(i) => {
                let head = slice_of(&rest, 0, i);
                assert(head@ =~= rest@.take(i as int));
                let line = redact_one(&head);
                push_chars(&mut out, &line);
                push_str(&mut out, "\n");
                assert(rest@.skip(i + 1) =~= c@.skip(pos + i + 1));
                pos = pos + i + 1;
            },
        }
    }
    string_of(&out)
}

/// The bytes of a file as the fingerprint sees them: the redacted text of a
/// UTF-8 file, other files as they are.
pub open spec fn seen_bytes(path: Seq<char>, bytes: Seq<u8>) -> Seq<u8> {
    if vstd::utf8::valid_utf8(bytes) {
        vstd::utf8::encode_utf8(redacted_spec(path, vstd::utf8::decode_utf8(bytes)))
    } else {
        bytes
    }
}

/// One file's part of the fingerprinted bytes: its path, a zero byte, the
/// digest of what the fingerprint sees of it, and a newline.
pub open spec fn fingerprint_entry(path: Seq<char>, bytes: Seq<u8>) -> Seq<u8> {
    vstd::utf8::encode_utf8(path) + seq![0u8] + vstd::utf8::encode_utf8(digest_bytes_spec(seen_bytes(path, bytes)))
        + seq![10u8]
}

pub open spec fn fingerprint_input(files: Seq<(Seq<char>, Seq<u8>)>) -> Seq<u8>
    decreases files.len(),
{
    if files.len() == 0 {
        seq![]
    } else {
        fingerprint_input(files.drop_last()) + fingerprint_entry(files.last().0, files.last().1)
    }
}

/// The fingerprint of the relevant files, in the order given.
pub open spec fn fingerprint_spec(files: Seq<(Seq<char>, Seq<u8>)>) -> Seq<char> {
    "sha256:"@ + hex_lower(sha256(fingerprint_input(files)))
}

pub open spec fn files_view(files: Seq<(String, Vec<u8>)>) -> Seq<(Seq<char>, Seq<u8>)> {
    files.map_values(|f: (String, Vec<u8>)| (f.0@, f.1@))
}

fn push_bytes(out: &mut Vec<u8>, bytes: &[u8])
    ensures
        final(out)@ == old(out)@ + bytes@,
{
    let ghost base = out@;
    let mut i: usize = 0;
    while i < bytes.len()
        invariant
            i <= bytes.len(),
            out@ == base + bytes@.take(i as int),
        decreases bytes.len() - i,
    {
        out.push(bytes[i]);
        assert(bytes@.take(i + 1) =~= bytes@.take(i as int).push(bytes@[i as int]));
        i = i + 1;
    }
    assert(bytes@.take(bytes.len() as int) =~= bytes@);
}

fn seen(path: &str, bytes: &[u8]) -> (r: Vec<u8>)
    ensures
        r@ == seen_bytes(path@, bytes@),
{
    match decode_utf8(bytes) {
        Ok(text) => {
            let redacted = redact_sensitive_text(path, text.as_str());
            let mut out: Vec<u8> = Vec::new();
            push_bytes(&mut out, redacted.as_str().as_bytes());
            out
        },
        Err(_) => {
            let mut out: Vec<u8> = Vec::new();
            push_bytes(&mut out, bytes);
            out
        },
    }
}

/// The repository fingerprint of the relevant files (path and content), in
/// the order given (see `fingerprint_spec`).
pub fn repository_fingerprint(files: &Vec<(String, Vec<u8>)>) -> (r: String)
    ensures
        r@ == fingerprint_spec(files_view(files@)),
{
    let ghost fv = files_view(files@);
    let mut input: Vec<u8> = Vec::new();
    let mut i: usize = 0;
    while i < files.len()
        invariant
            i <= files.len(),
            fv == files_view(files@),
            input@ == fingerprint_input(fv.take(i as int)),
        decreases files.len() - i,
    {
        assert(fv.take(i + 1).drop_last() =~= fv.take(i as int));
        let path = files[i].0.as_str();
        let ghost before = input@;
        push_bytes(&mut input, path.as_bytes());
        input.push(0u8);
        let s = seen(path, files[i].1.as_slice());
        let d = digest_bytes(s.as_slice());
        push_bytes(&mut input, d.as_str().as_bytes());
        input.push(10u8);
        assert(input@ =~= before + fingerprint_entry(fv[i as int].0, fv[i as int].1));
        i = i + 1;
    }
    assert(fv.take(files.len() as int) =~= fv);
    let digest = sha256_digest(input.as_slice());
    let hex = hex_lower_exec(&digest);
    let mut out: Vec<char> = Vec::new();
    push_str(&mut out, "sha256:");
    push_chars(&mut out, &hex);
    string_of(&out)
}

/// Rotating the value of a secret setting in a registry configuration
/// file changes neither what the fingerprint sees of the file nor the
/// fingerprint.
pub proof fn law_secret_rotation(
    before: Seq<(Seq<char>, Seq<u8>)>,
    after: Seq<(Seq<char>, Seq<u8>)>,
    k: int,
    key: Seq<char>,
    old_value: Seq<char>,
    new_value: Seq<char>,
)
    requires
        before.len() == after.len(),
        0 <= k < before.len(),
        forall|j: int| 0 <= j < before.len() && j != k ==> before[j] == after[j],
        before[k].0 == after[k].0,
        sensitive_config_path(before[k].0),
        sensitive_key(key),
        forall|j: int| 0 <= j < key.len() ==> key[j] != '=' && key[j] != '\n',
        forall|j: int| 0 <= j < old_value.len() ==> old_value[j] != '\n',
        forall|j: int| 0 <= j < new_value.len() ==> new_value[j] != '\n',
        before[k].1 == vstd::utf8::encode_utf8(key + "="@ + old_value),
        after[k].1 == vstd::utf8::encode_utf8(key + "="@ + new_value),
    ensures
        seen_bytes(before[k].0, before[k].1) == seen_bytes(after[k].0, after[k].1),
        fingerprint_spec(before) == fingerprint_spec(after),
{
    reveal_strlit("=");
    let l1 = key + "="@ + old_value;
    let l2 = key + "="@ + new_value;
    vstd::utf8::encode_utf8_valid_utf8(l1);
    vstd::utf8::encode_utf8_valid_utf8(l2);
    vstd::utf8::encode_utf8_decode_utf8(l1);
    vstd::utf8::encode_utf8_decode_utf8(l2);
    lemma_find_char_none(l1, '\n');
    lemma_find_char_none(l2, '\n');
    crate::text::lemma_find_char_first(l1, '=', key.len() as int);
    crate::text::lemma_find_char_first(l2, '=', key.len() as int);
    assert(l1.take(key.len() as int) =~= key);
    assert(l2.take(key.len() as int) =~= key);
    assert(l1.take(key.len() as int + 1) =~= l2.take(key.len() as int + 1));
    assert(redact_lines(l1) == redact_lines(l2));
    lemma_same_input(before, after, before.len() as int, k);
}

proof fn lemma_same_input(before: Seq<(Seq<char>, Seq<u8>)>, after: Seq<(Seq<char>, Seq<u8>)>, n: int, k: int)
    requires
        before.len() == after.len(),
        0 <= n <= before.len(),
        0 <= k < before.len(),
        forall|j: int| 0 <= j < before.len() && j != k ==> before[j] == after[j],
        before[k].0 == after[k].0,
        seen_bytes(before[k].0, before[k].1) == seen_bytes(after[k].0, after[k].1),
    ensures
        fingerprint_input(before.take(n)) == fingerprint_input(after.take(n)),
        n == before.len() ==> fingerprint_spec(before) == fingerprint_spec(after),
    decreases n,
{
    if n > 0 {
        lemma_same_input(before, after, n - 1, k);
        assert(before.take(n).drop_last() =~= before.take(n - 1));
        assert(after.take(n).drop_last() =~= after.take(n - 1));
        assert(fingerprint_entry(before[n - 1].0, before[n - 1].1) == fingerprint_entry(after[n - 1].0, after[n - 1].1));
    }
    if n == before.len() {
        assert(before.take(n) =~= before);
        assert(after.take(n) =~= after);
    }
}

} // verus!
