//! Sealed store envelopes: a stored plan or run is written as its content,
//! the digest of the content's JSON text and the store schema version, and
//! is refused on reading unless both still match.
use vstd::prelude::*;
use crate::digest::{digest_bytes_spec, digest_text};
use crate::json::{as_str, get, get_in, get_member, serde_json_compact, string_value, write_json, Json, JsonValue};
use crate::text::{chars_eq, chars_of, push_str, starts_with, str_eq, str_starts_with, string_of};

verus! {

/// The digest of a JSON value: that of the UTF-8 bytes of its compact text.
pub open spec fn digest_json_spec(v: Json) -> Seq<char> {
    digest_bytes_spec(vstd::utf8::encode_utf8(serde_json_compact(v)))
}

/// The digest of a JSON value (see `digest_json_spec`).
pub fn digest_json(v: &JsonValue) -> (r: String)
    ensures
        r@ == digest_json_spec(v@),
{
    let text = write_json(v);
    digest_text(text.as_str())
}

/// The envelope of `content`, its members in the order serde_json keeps
/// them.
pub open spec fn sealed(content: Json) -> Json {
    Json::Object(
        seq![
            ("content"@, content),
            ("digest"@, Json::Str(digest_json_spec(content))),
            ("storeSchemaVersion"@, Json::Str("1.0"@)),
        ],
    )
}

/// Seals `content` in a store envelope.
pub fn seal(content: JsonValue) -> (r: JsonValue)
    ensures
        r@ == sealed(content@),
{
    let digest = digest_json(&content);
    let ghost c = content@;
    let mut members: Vec<(String, JsonValue)> = Vec::new();
    members.push(("content".to_owned(), content));
    members.push(("digest".to_owned(), JsonValue::Str(digest)));
    members.push(("storeSchemaVersion".to_owned(), JsonValue::Str("1.0".to_owned())));
    proof {
        reveal_strlit("1.0");
        crate::json::lemma_object_view(members);
    }
    let ghost mv = crate::json::members_view(members@);
    assert(mv[0] == ("content"@, c));
    assert(mv[1] == ("digest"@, Json::Str(digest_json_spec(c))));
    assert(mv[2] == ("storeSchemaVersion"@, Json::Str("1.0"@)));
    assert(mv =~= seq![
        ("content"@, c),
        ("digest"@, Json::Str(digest_json_spec(c))),
        ("storeSchemaVersion"@, Json::Str("1.0"@)),
    ]);
    let r = JsonValue::Object(members);
    r
}

/// What reading an envelope at `path` gives: its content when the schema
/// version is `1.0` and the digest matches the content; a refusal when it
/// does not, or when the envelope lacks its content, digest or version.
pub open spec fn open_spec(path: Seq<char>, envelope: Json) -> Result<Json, Seq<char>> {
    match (get(envelope, "content"@), as_str(get(envelope, "digest"@)), as_str(get(envelope, "storeSchemaVersion"@))) {
        (Some(content), Some(digest), Some(version)) => if version == "1.0"@ && digest == digest_json_spec(content) {
            Ok(content)
        } else {
            Err("stored artifact failed integrity verification: "@ + path)
        },
        _ => Err("stored artifact is not a store envelope: "@ + path),
    }
}

fn message(prefix: &str, path: &str) -> (r: String)
    ensures
        r@ == prefix@ + path@,
{
    let mut t = chars_of(prefix);
    push_str(&mut t, path);
    string_of(&t)
}

/// The content of the envelope read at `path` (see `open_spec`).
pub fn open_envelope<'a>(path: &str, envelope: &'a JsonValue) -> (r: Result<&'a JsonValue, String>)
    ensures
        match r {
            Ok(c) => open_spec(path@, envelope@) == Ok::<Json, Seq<char>>(c@),
            Err(e) => open_spec(path@, envelope@) == Err::<Json, Seq<char>>(e@),
        },
{
    let content = get_member(envelope, "content");
    let digest = string_value(get_member(envelope, "digest"));
    let version = string_value(get_member(envelope, "storeSchemaVersion"));
    match (content, digest, version) {
        (Some(c), Some(d), Some(v)) => {
            let actual = digest_json(c);
            let vc = chars_of(v.as_str());
            if str_eq(&vc, "1.0") && chars_eq(&chars_of(d.as_str()), &chars_of(actual.as_str())) {
                Ok(c)
            } else {
                Err(message("stored artifact failed integrity verification: ", path))
            }
        },
        _ => Err(message("stored artifact is not a store envelope: ", path)),
    }
}

/// What reading the stored plan `plan_id` from its envelope gives: refused
/// for an identifier without the `plan_` prefix (before anything is read),
/// as `open_spec` says, or when the plan inside carries another identifier.
pub open spec fn open_plan_spec(plan_id: Seq<char>, path: Seq<char>, envelope: Json) -> Result<Json, Seq<char>> {
    if !starts_with(plan_id, "plan_"@) {
        Err("plan identifiers must start with plan_"@)
    } else {
        match open_spec(path, envelope) {
            Err(e) => Err(e),
            Ok(c) => if as_str(get_in(get(c, "plan"@), "planId"@)) == Some(plan_id) {
                Ok(c)
            } else {
                Err("stored plan identity does not match its path"@)
            },
        }
    }
}

/// What reading the stored run `run_id` from its envelope gives, as
/// `open_plan_spec` says of plans.
pub open spec fn open_run_spec(run_id: Seq<char>, path: Seq<char>, envelope: Json) -> Result<Json, Seq<char>> {
    if !starts_with(run_id, "run_"@) {
        Err("run identifiers must start with run_"@)
    } else {
        match open_spec(path, envelope) {
            Err(e) => Err(e),
            Ok(c) => if as_str(get(c, "runId"@)) == Some(run_id) {
                Ok(c)
            } else {
                Err("stored run identity does not match its path"@)
            },
        }
    }
}

/// The content of the stored plan `plan_id` read at `path` (see
/// `open_plan_spec`).
pub fn open_plan_envelope<'a>(plan_id: &str, path: &str, envelope: &'a JsonValue) -> (r: Result<&'a JsonValue, String>)
    ensures
        match r {
            Ok(c) => open_plan_spec(plan_id@, path@, envelope@) == Ok::<Json, Seq<char>>(c@),
            Err(e) => open_plan_spec(plan_id@, path@, envelope@) == Err::<Json, Seq<char>>(e@),
        },
{
    let id = chars_of(plan_id);
    if !str_starts_with(&id, "plan_") {
        return Err("plan identifiers must start with plan_".to_owned());
    }
    let c = open_envelope(path, envelope)?;
    let stored_id = match get_member(c, "plan") {
        Some(p) => string_value(get_member(p, "planId")),
        None => None,
    };
    match stored_id {
        Some(s) => {
            if chars_eq(&chars_of(s.as_str()), &id) {
                Ok(c)
            } else {
                Err("stored plan identity does not match its path".to_owned())
            }
        },
        None => Err("stored plan identity does not match its path".to_owned()),
    }
}

/// The content of the stored run `run_id` read at `path` (see
/// `open_run_spec`).
pub fn open_run_envelope<'a>(run_id: &str, path: &str, envelope: &'a JsonValue) -> (r: Result<&'a JsonValue, String>)
    ensures
        match r {
            Ok(c) => open_run_spec(run_id@, path@, envelope@) == Ok::<Json, Seq<char>>(c@),
            Err(e) => open_run_spec(run_id@, path@, envelope@) == Err::<Json, Seq<char>>(e@),
        },
{
    let id = chars_of(run_id);
    if !str_starts_with(&id, "run_") {
        return Err("run identifiers must start with run_".to_owned());
    }
    let c = open_envelope(path, envelope)?;
    match string_value(get_member(c, "runId")) {
        Some(s) => {
            if chars_eq(&chars_of(s.as_str()), &id) {
                Ok(c)
            } else {
                Err("stored run identity does not match its path".to_owned())
            }
        },
        None => Err("stored run identity does not match its path".to_owned()),
    }
}

/// What is sealed opens again: an envelope made by `seal` gives back its
/// content, wherever it is read.
pub proof fn law_sealed_opens(path: Seq<char>, content: Json)
    ensures
        open_spec(path, sealed(content)) == Ok::<Json, Seq<char>>(content),
{
    reveal_strlit("1.0");
    reveal_strlit("content");
    reveal_strlit("digest");
    reveal_strlit("storeSchemaVersion");
    let ms = seq![
        ("content"@, content),
        ("digest"@, Json::Str(digest_json_spec(content))),
        ("storeSchemaVersion"@, Json::Str("1.0"@)),
    ];
    assert(crate::json::find_member(ms, "content"@) == Some(0int));
    assert("content"@.len() != "digest"@.len());
    assert("content"@.len() != "storeSchemaVersion"@.len());
    assert("digest"@.len() != "storeSchemaVersion"@.len());
    assert(ms[0].0 != "digest"@);
    assert(crate::json::find_member_from(ms, "digest"@, 1) == Some(1int));
    assert(crate::json::find_member(ms, "digest"@) == Some(1int));
    assert(ms[0].0 != "storeSchemaVersion"@);
    assert(ms[1].0 != "storeSchemaVersion"@);
    assert(crate::json::find_member_from(ms, "storeSchemaVersion"@, 2) == Some(2int));
    assert(crate::json::find_member_from(ms, "storeSchemaVersion"@, 1) == Some(2int));
    assert(crate::json::find_member(ms, "storeSchemaVersion"@) == Some(2int));
}

/// A sealed document whose content changed afterwards is refused: when the
/// digest of the new content differs from the sealed one, reading gives the
/// integrity failure.
pub proof fn law_tampered_refused(path: Seq<char>, content: Json, tampered: Json)
    requires
        digest_json_spec(tampered) != digest_json_spec(content),
    ensures
        ({
            let env = match sealed(content) {
                Json::Object(ms) => Json::Object(ms.update(0, ("content"@, tampered))),
                _ => sealed(content),
            };
            open_spec(path, env) == Err::<Json, Seq<char>>("stored artifact failed integrity verification: "@ + path)
        }),
{
    reveal_strlit("1.0");
    reveal_strlit("content");
    reveal_strlit("digest");
    reveal_strlit("storeSchemaVersion");
    let ms = seq![
        ("content"@, tampered),
        ("digest"@, Json::Str(digest_json_spec(content))),
        ("storeSchemaVersion"@, Json::Str("1.0"@)),
    ];
    let m0 = seq![
        ("content"@, content),
        ("digest"@, Json::Str(digest_json_spec(content))),
        ("storeSchemaVersion"@, Json::Str("1.0"@)),
    ];
    assert(m0.update(0, ("content"@, tampered)) =~= ms);
    assert(crate::json::find_member(ms, "content"@) == Some(0int));
    assert("content"@.len() != "digest"@.len());
    assert("content"@.len() != "storeSchemaVersion"@.len());
    assert("digest"@.len() != "storeSchemaVersion"@.len());
    assert(ms[0].0 != "digest"@);
    assert(crate::json::find_member_from(ms, "digest"@, 1) == Some(1int));
    assert(crate::json::find_member(ms, "digest"@) == Some(1int));
    assert(ms[0].0 != "storeSchemaVersion"@);
    assert(ms[1].0 != "storeSchemaVersion"@);
    assert(crate::json::find_member_from(ms, "storeSchemaVersion"@, 2) == Some(2int));
    assert(crate::json::find_member_from(ms, "storeSchemaVersion"@, 1) == Some(2int));
    assert(crate::json::find_member(ms, "storeSchemaVersion"@) == Some(2int));
}

} // verus!
