//! `tsconfig*.json`: the Bun type packages leave `compilerOptions.types`.
use vstd::prelude::*;
use crate::json::{
    find_member, json5_read, json_view, lemma_array_view, lemma_object_view, member_index, members_view,
    read_json5, serde_json_pretty, without_member, write_json_pretty, Json, JsonValue,
};
use crate::model::Diagnostic;
use crate::runtime::model::PermissionSet;
use crate::text::{chars_of, push_str, str_eq, string_of};
use super::{blocking, counts_one, no_counts, recipe_blocking, RecipeId, TransformResult, TransformView};

verus! {

/// A `types` entry naming Bun's type package.
pub open spec fn bun_types_entry(v: Json) -> bool {
    v == Json::Str("bun-types"@) || v == Json::Str("@types/bun"@)
}

pub open spec fn kept_types(types: Seq<Json>) -> Seq<Json> {
    types.filter(|v: Json| !bun_types_entry(v))
}

/// The configuration with the Bun entries of `compilerOptions.types`
/// removed (and `types` itself when nothing is left), and how many went;
/// `None` when there is no such array.
pub open spec fn cleaned_config(j: Json) -> Option<(Json, int)> {
    match j {
        Json::Object(top) => match find_member(top, "compilerOptions"@) {
            Some(ci) => match top[ci].1 {
                Json::Object(co) => match find_member(co, "types"@) {
                    Some(ti) => match co[ti].1 {
                        Json::Array(types) => {
                            let kept = kept_types(types);
                            let co2 = if kept.len() == 0 {
                                without_member(co, "types"@)
                            } else {
                                co.update(ti, (co[ti].0, Json::Array(kept)))
                            };
                            Some(
                                (
                                    Json::Object(top.update(ci, (top[ci].0, Json::Object(co2)))),
                                    types.len() - kept.len(),
                                ),
                            )
                        },
                        _ => None,
                    },
                    None => None,
                },
                _ => None,
            },
            None => None,
        },
        _ => None,
    }
}

/// What the TypeScript configuration recipe makes of the file at `path`.
pub open spec fn tsconfig_spec(path: Seq<char>, content: Seq<char>) -> TransformView {
    let unchanged = TransformView {
        content,
        counts: no_counts(),
        diagnostics: seq![],
        permissions: Set::empty(),
    };
    match json5_read(content) {
        Err(_) => TransformView {
            content,
            counts: no_counts(),
            diagnostics: seq![
                recipe_blocking(
                    "RUNTIME_TSCONFIG_INVALID"@,
                    path,
                    "TypeScript configuration could not be parsed for Bun type cleanup."@,
                    "Repair the configuration before retrying the runtime migration."@,
                ),
            ],
            permissions: Set::empty(),
        },
        Ok(j) => match cleaned_config(j) {
            Some((j2, removed)) => if removed == 0 {
                unchanged
            } else {
                TransformView {
                    content: serde_json_pretty(j2) + "\n"@,
                    counts: counts_one(RecipeId::TypesToDeno, removed),
                    diagnostics: seq![],
                    permissions: Set::empty(),
                }
            },
            None => unchanged,
        },
    }
}

fn is_bun_types_entry(v: &JsonValue) -> (r: bool)
    ensures
        r == bun_types_entry(v@),
{
    match v {
        JsonValue::Str(s) => {
            let cs = chars_of(s.as_str());
            str_eq(&cs, "bun-types") || str_eq(&cs, "@types/bun")
        },
        _ => false,
    }
}

/// The entries that are not Bun type packages, in order.
fn keep_types(types: Vec<JsonValue>) -> (r: Vec<JsonValue>)
    ensures
        r@.map_values(|x: JsonValue| x@) == kept_types(types@.map_values(|x: JsonValue| x@)),
{
    let ghost all = types@.map_values(|x: JsonValue| x@);
    let ghost pred = |v: Json| !bun_types_entry(v);
    let total = types.len();
    let mut rest = types;
    let mut out: Vec<JsonValue> = Vec::new();
    let mut k: usize = 0;
    while k < total
        invariant
            k <= total == all.len(),
            rest@.len() == total - k,
            rest@.map_values(|x: JsonValue| x@) == all.skip(k as int),
            out@.map_values(|x: JsonValue| x@) == all.take(k as int).filter(pred),
            pred == (|v: Json| !bun_types_entry(v)),
        decreases total - k,
    {
        let ghost rv = rest@;
        let item = rest.remove(0);
        assert forall|j: int| 0 <= j < rest@.len() implies json_view(#[trigger] rest@[j]) == all.skip(k + 1)[j] by {
            assert(rest@[j] == rv[j + 1]);
            assert(all.skip(k + 1)[j] == all.skip(k as int)[j + 1]);
        }
        assert(rest@.map_values(|x: JsonValue| x@) =~= all.skip(k + 1));
        assert(item@ == all[k as int]) by {
            assert(rv.map_values(|x: JsonValue| x@)[0] == all.skip(k as int)[0]);
        }
        proof {
            assert(all.take(k + 1).drop_last() =~= all.take(k as int));
            reveal_with_fuel(Seq::filter, 1);
        }
        let ghost before = out@;
        if !is_bun_types_entry(&item) {
            out.push(item);
            assert(out@.map_values(|x: JsonValue| x@) =~= before.map_values(|x: JsonValue| x@).push(all[k as int]));
        }
        k = k + 1;
    }
    assert(all.take(total as int) =~= all);
    out
}

/// The TypeScript configuration recipe, as `tsconfig_spec` states it.
pub fn transform(path: &str, content: &str) -> (r: TransformResult)
    ensures
        r.wf(),
        r@ == tsconfig_spec(path@, content@),
{
    let parsed = read_json5(content);
    let value = match parsed {
        Err(_) => {
            return TransformResult::refused(
                content,
                blocking(
                    "RUNTIME_TSCONFIG_INVALID",
                    path,
                    "TypeScript configuration could not be parsed for Bun type cleanup.",
                    "Repair the configuration before retrying the runtime migration.",
                ),
            );
        },
        Ok(v) => v,
    };
    let mut top = match value {
        JsonValue::Object(m) => m,
        _ => {
            return TransformResult::unchanged(content);
        },
    };
    proof {
        lemma_object_view(top);
    }
    let ghost t0 = members_view(top@);
    let ci = match member_index(&top, "compilerOptions") {
        Some(i) => i,
        None => {
            return TransformResult::unchanged(content);
        },
    };
    let ghost top_orig = top@;
    let (cname, cvalue) = top.remove(ci);
    let mut co = match cvalue {
        JsonValue::Object(m) => m,
        _ => {
            return TransformResult::unchanged(content);
        },
    };
    proof {
        lemma_object_view(co);
    }
    let ghost c0 = members_view(co@);
    let ti = match member_index(&co, "types") {
        Some(i) => i,
        None => {
            return TransformResult::unchanged(content);
        },
    };
    let ghost co_orig = co@;
    let (tname, tvalue) = co.remove(ti);
    let types = match tvalue {
        JsonValue::Array(items) => items,
        _ => {
            return TransformResult::unchanged(content);
        },
    };
    proof {
        lemma_array_view(types);
    }
    let ghost tv = types@.map_values(|x: JsonValue| x@);
    assert(tv == c0[ti as int].1->Array_0);
    let before = types.len();
    let kept = keep_types(types);
    proof {
        tv.filter_lemma(|v: Json| !bun_types_entry(v));
        assert(kept@.len() == kept_types(tv).len());
    }
    let removed = before - kept.len();
    if removed == 0 {
        return TransformResult::unchanged(content);
    }
    let ghost co_removed = co@;
    if kept.len() == 0 {
        assert(members_view(co@) =~= without_member(c0, "types"@));
    } else {
        proof {
            lemma_array_view(kept);
        }
        assert(kept@.map_values(|x: JsonValue| x@) =~= kept@.map_values(|x: JsonValue| json_view(x)));
        let ghost kv = json_view(JsonValue::Array(kept));
        assert(kv == Json::Array(kept_types(tv)));
        co.insert(ti, (tname, JsonValue::Array(kept)));
        assert(co@ =~= co_orig.update(ti as int, co@[ti as int]));
        assert(json_view(co@[ti as int].1) == kv);
        assert(co@[ti as int].0 == co_orig[ti as int].0);
        assert(members_view(co@) =~= c0.update(ti as int, (c0[ti as int].0, Json::Array(kept_types(c0[ti as int].1->Array_0)))));
    }
    let ghost c2 = members_view(co@);
    proof {
        lemma_object_view(co);
    }
    let ghost cv = json_view(JsonValue::Object(co));
    assert(cv == Json::Object(c2));
    top.insert(ci, (cname, JsonValue::Object(co)));
    assert(top@ =~= top_orig.update(ci as int, top@[ci as int]));
    assert(json_view(top@[ci as int].1) == cv);
    let ghost t2 = members_view(top@);
    assert(t2 =~= t0.update(ci as int, (t0[ci as int].0, Json::Object(c2))));
    proof {
        lemma_object_view(top);
    }
    let doc = JsonValue::Object(top);
    let text = write_json_pretty(&doc);
    let mut cs = chars_of(text.as_str());
    push_str(&mut cs, "\n");
    let r = TransformResult {
        content: string_of(&cs),
        counts: super::counts_vec(RecipeId::TypesToDeno, removed, RecipeId::FileToDenoFileApi, 0),
        diagnostics: Vec::new(),
        required_permissions: PermissionSet::new(),
    };
    assert(counts_one(RecipeId::TypesToDeno, removed as int) =~= super::counts_two(
        RecipeId::TypesToDeno,
        removed as int,
        RecipeId::FileToDenoFileApi,
        0,
    ));
    assert(r@.diagnostics =~= Seq::<crate::model::DiagnosticView>::empty());
    r
}

} // verus!
