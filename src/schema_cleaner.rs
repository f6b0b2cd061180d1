//! Rewrites a tool's JSON Schema into the subset that the upstream accepts.
use vstd::prelude::*;

use crate::json::{
    has_key, lemma_array_view, lemma_object_view, lookup, member_views, put, put_member,
    remove_member, find_member, views, without_key, Json, JsonMember, JsonValue, Member,
};
use crate::text::{after_last, copy_str, same_text};

verus! {

broadcast use vstd::std_specs::vec::group_vec_axioms;

/// The keywords that the upstream refuses and that cleaning drops.
pub open spec fn removed_keyword(k: Seq<char>) -> bool {
    ||| k == "additionalProperties"@
    ||| k == "default"@
    ||| k == "$schema"@
    ||| k == "$defs"@
    ||| k == "definitions"@
    ||| k == "$ref"@
    ||| k == "$id"@
    ||| k == "$comment"@
    ||| k == "title"@
    ||| k == "minLength"@
    ||| k == "maxLength"@
    ||| k == "pattern"@
    ||| k == "format"@
    ||| k == "minItems"@
    ||| k == "maxItems"@
    ||| k == "examples"@
    ||| k == "allOf"@
    ||| k == "anyOf"@
    ||| k == "oneOf"@
    ||| k == "not"@
    ||| k == "if"@
    ||| k == "then"@
    ||| k == "else"@
    ||| k == "dependentSchemas"@
    ||| k == "dependentRequired"@
    ||| k == "unevaluatedProperties"@
    ||| k == "unevaluatedItems"@
    ||| k == "contentMediaType"@
    ||| k == "contentEncoding"@
    ||| k == "const"@
}

/// The members whose keys are not removed keywords, in order.
pub open spec fn strip(ms: Seq<Member>) -> Seq<Member>
    decreases ms.len(),
{
    if ms.len() == 0 {
        ms
    } else if removed_keyword(ms.last().key) {
        strip(ms.drop_last())
    } else {
        strip(ms.drop_last()).push(ms.last())
    }
}

/// Whether a type name is `"null"`.
pub open spec fn is_null_type(t: Json) -> bool {
    t == Json::Str("null"@)
}

/// The type names that are not `"null"`, in order.
pub open spec fn non_null(ts: Seq<Json>) -> Seq<Json>
    decreases ts.len(),
{
    if ts.len() == 0 {
        ts
    } else if is_null_type(ts.last()) {
        non_null(ts.drop_last())
    } else {
        non_null(ts.drop_last()).push(ts.last())
    }
}

/// Whether a list of type names holds `"null"`.
pub open spec fn has_null(ts: Seq<Json>) -> bool {
    exists|i: int| 0 <= i < ts.len() && is_null_type(#[trigger] ts[i])
}

/// The schema `{type: t}`.
pub open spec fn type_item(t: Json) -> Json {
    Json::Object(seq![Member { key: "type"@, value: t }])
}

/// The members after a type list is coerced: `"null"` in the list sets
/// `nullable: true`; one remaining type replaces the list; two or more replace
/// `type` by `anyOf` with one `{type: T}` per remaining type.
pub open spec fn coerce(ms: Seq<Member>) -> Seq<Member> {
    match lookup(ms, "type"@) {
        Some(Json::Array(ts)) => {
            let nn = non_null(ts);
            let m1 = if has_null(ts) {
                put(ms, "nullable"@, Json::Bool(true))
            } else {
                ms
            };
            if nn.len() == 1 {
                put(m1, "type"@, nn[0])
            } else if nn.len() > 1 {
                put(
                    without_key(m1, "type"@),
                    "anyOf"@,
                    Json::Array(Seq::new(nn.len(), |i: int| type_item(nn[i]))),
                )
            } else {
                m1
            }
        },
        _ => ms,
    }
}

/// A cleaned schema: the nested schemas under `properties` and `items` are
/// cleaned, the removed keywords dropped and a type list coerced.
pub open spec fn clean(j: Json) -> Json
    decreases j,
{
    match j {
        Json::Object(ms) => Json::Object(coerce(strip(clean_members(ms)))),
        _ => j,
    }
}

/// The members with the schemas that they hold cleaned.
pub open spec fn clean_members(ms: Seq<Member>) -> Seq<Member>
    decreases ms,
{
    Seq::new(
        ms.len(),
        |i: int|
            if 0 <= i < ms.len() {
                clean_member(ms[i])
            } else {
                Member { key: Seq::empty(), value: Json::Null }
            },
    )
}

/// The properties with each schema cleaned.
pub open spec fn clean_properties(ps: Seq<Member>) -> Seq<Member>
    decreases ps,
{
    Seq::new(
        ps.len(),
        |k: int|
            if 0 <= k < ps.len() {
                Member { key: ps[k].key, value: clean(ps[k].value) }
            } else {
                Member { key: Seq::empty(), value: Json::Null }
            },
    )
}

/// The schemas of an item list, each cleaned.
pub open spec fn clean_all(xs: Seq<Json>) -> Seq<Json>
    decreases xs,
{
    Seq::new(
        xs.len(),
        |k: int|
            if 0 <= k < xs.len() {
                clean(xs[k])
            } else {
                Json::Null
            },
    )
}

/// A member with the schemas that it holds cleaned.
pub open spec fn clean_member(m: Member) -> Member
    decreases m,
{
    if m.key == "properties"@ {
        match m.value {
            Json::Object(ps) => Member { key: m.key, value: Json::Object(clean_properties(ps)) },
            _ => m,
        }
    } else if m.key == "items"@ {
        match m.value {
            Json::Object(_) => Member { key: m.key, value: clean(m.value) },
            Json::Array(xs) => Member { key: m.key, value: Json::Array(clean_all(xs)) },
            _ => m,
        }
    } else {
        m
    }
}

/// Whether a key is a removed keyword.
pub fn is_removed_keyword(k: &str) -> (r: bool)
    ensures
        r == removed_keyword(k@),
{
    same_text(k, "additionalProperties") || same_text(k, "default") || same_text(k, "$schema")
        || same_text(k, "$defs") || same_text(k, "definitions") || same_text(k, "$ref")
        || same_text(k, "$id") || same_text(k, "$comment") || same_text(k, "title")
        || same_text(k, "minLength") || same_text(k, "maxLength") || same_text(k, "pattern")
        || same_text(k, "format") || same_text(k, "minItems") || same_text(k, "maxItems")
        || same_text(k, "examples") || same_text(k, "allOf") || same_text(k, "anyOf")
        || same_text(k, "oneOf") || same_text(k, "not") || same_text(k, "if") || same_text(
        k,
        "then",
    ) || same_text(k, "else") || same_text(k, "dependentSchemas") || same_text(
        k,
        "dependentRequired",
    ) || same_text(k, "unevaluatedProperties") || same_text(k, "unevaluatedItems")
        || same_text(k, "contentMediaType") || same_text(k, "contentEncoding") || same_text(
        k,
        "const",
    )
}

fn strip_members(ms: &Vec<JsonMember>) -> (r: Vec<JsonMember>)
    ensures
        member_views(r@) == strip(member_views(ms@)),
{
    let ghost all = member_views(ms@);
    let mut out: Vec<JsonMember> = Vec::new();
    let mut i: usize = 0;
    while i < ms.len()
        invariant
            all == member_views(ms@),
            i <= ms.len(),
            member_views(out@) == strip(all.take(i as int)),
        decreases ms.len() - i,
    {
        let ghost before = out@;
        assert(all.take(i + 1).drop_last() =~= all.take(i as int));
        assert(all.take(i + 1).last() == all[i as int]);
        if !is_removed_keyword(ms[i].key.as_str()) {
            out.push(ms[i].deep_copy());
            assert(member_views(out@) =~= member_views(before).push(all[i as int]));
        }
        i += 1;
    }
    assert(all.take(ms.len() as int) =~= all);
    out
}

fn is_null_name(t: &JsonValue) -> (r: bool)
    ensures
        r == is_null_type(t@),
{
    match t {
        JsonValue::Str(s) => same_text(s.as_str(), "null"),
        _ => false,
    }
}

fn split_types(ts: &Vec<JsonValue>) -> (r: (Vec<JsonValue>, bool))
    ensures
        views(r.0@) == non_null(views(ts@)),
        r.1 == has_null(views(ts@)),
{
    let ghost all = views(ts@);
    let mut out: Vec<JsonValue> = Vec::new();
    let mut seen = false;
    let mut i: usize = 0;
    while i < ts.len()
        invariant
            all == views(ts@),
            i <= ts.len(),
            views(out@) == non_null(all.take(i as int)),
            seen == exists|j: int| 0 <= j < i && is_null_type(#[trigger] all[j]),
        decreases ts.len() - i,
    {
        let ghost before = out@;
        assert(all.take(i + 1).drop_last() =~= all.take(i as int));
        assert(all.take(i + 1).last() == all[i as int]);
        if is_null_name(&ts[i]) {
            seen = true;
        } else {
            out.push(ts[i].deep_copy());
            assert(views(out@) =~= views(before).push(all[i as int]));
        }
        i += 1;
    }
    assert(all.take(ts.len() as int) =~= all);
    (out, seen)
}

fn type_items(nn: &Vec<JsonValue>) -> (r: Vec<JsonValue>)
    ensures
        views(r@) == Seq::new(views(nn@).len(), |i: int| type_item(views(nn@)[i])),
{
    let mut out: Vec<JsonValue> = Vec::new();
    let mut i: usize = 0;
    while i < nn.len()
        invariant
            i <= nn.len(),
            out.len() == i,
            forall|j: int| 0 <= j < i ==> (#[trigger] out@[j])@ == type_item(nn@[j]@),
        decreases nn.len() - i,
    {
        let members = vec![JsonMember { key: copy_str("type"), value: nn[i].deep_copy() }];
        proof {
            lemma_object_view(members);
            assert(member_views(members@) =~= seq![Member { key: "type"@, value: nn@[i as int]@ }]);
        }
        out.push(JsonValue::Object(members));
        i += 1;
    }
    assert(views(out@) =~= Seq::new(views(nn@).len(), |i: int| type_item(views(nn@)[i])));
    out
}

fn coerce_members(ms: &mut Vec<JsonMember>)
    ensures
        member_views(final(ms)@) == coerce(member_views(old(ms)@)),
{
    let ghost before = member_views(ms@);
    let found = find_member(ms, "type");
    let i = match found {
        Some(i) => i,
        None => {
            return;
        },
    };
    let (nn, seen) = match &ms[i].value {
        JsonValue::Array(ts) => {
            proof {
                lemma_array_view(*ts);
            }
            split_types(ts)
        },
        _ => {
            return;
        },
    };
    if seen {
        put_member(ms, "nullable", JsonValue::Bool(true));
    }
    if nn.len() == 1 {
        put_member(ms, "type", nn[0].deep_copy());
    } else if nn.len() > 1 {
        remove_member(ms, "type");
        let items = type_items(&nn);
        proof {
            lemma_array_view(items);
        }
        put_member(ms, "anyOf", JsonValue::Array(items));
    }
}

/// Cleans a schema: see [`clean`].
pub fn clean_value(v: &JsonValue) -> (r: JsonValue)
    ensures
        r@ == clean(v@),
    decreases v,
{
    match v {
        JsonValue::Object(ms) => {
            let mut out: Vec<JsonMember> = Vec::new();
            let mut i: usize = 0;
            while i < ms.len()
                invariant
                    *v == JsonValue::Object(*ms),
                    i <= ms.len(),
                    out.len() == i,
                    forall|j: int| 0 <= j < i ==> (#[trigger] out@[j])@ == clean_member(ms@[j]@),
                decreases ms.len() - i,
            {
                proof {
                    assert(decreases_to!(*v => v->Object_0));
                    assert(decreases_to!(v->Object_0 => v->Object_0[i as int]));
                }
                out.push(clean_member_value(&ms[i]));
                i += 1;
            }
            proof {
                lemma_object_view(*ms);
                assert(member_views(out@) =~= clean_members(member_views(ms@)));
            }
            let mut stripped = strip_members(&out);
            coerce_members(&mut stripped);
            proof {
                lemma_object_view(stripped);
            }
            JsonValue::Object(stripped)
        },
        _ => v.deep_copy(),
    }
}

fn clean_member_value(m: &JsonMember) -> (r: JsonMember)
    ensures
        r@ == clean_member(m@),
    decreases m,
{
    if same_text(m.key.as_str(), "properties") {
        match &m.value {
            JsonValue::Object(ps) => {
                let mut out: Vec<JsonMember> = Vec::new();
                let mut k: usize = 0;
                while k < ps.len()
                    invariant
                        m.value == JsonValue::Object(*ps),
                        k <= ps.len(),
                        out.len() == k,
                        forall|j: int|
                            0 <= j < k ==> (#[trigger] out@[j])@ == (Member {
                                key: ps@[j].key@,
                                value: clean(ps@[j].value@),
                            }),
                    decreases ps.len() - k,
                {
                    proof {
                        assert(decreases_to!(*m => m.value));
                        assert(decreases_to!(m.value => m.value->Object_0));
                        assert(decreases_to!(m.value->Object_0 => m.value->Object_0[k as int]));
                        assert(decreases_to!(m.value->Object_0[k as int] => m.value->Object_0[k as int].value));
                    }
                    out.push(JsonMember { key: ps[k].key.clone(), value: clean_value(&ps[k].value) });
                    k += 1;
                }
                proof {
                    lemma_object_view(*ps);
                    lemma_object_view(out);
                    assert(member_views(out@) =~= clean_properties(member_views(ps@)));
                }
                JsonMember { key: m.key.clone(), value: JsonValue::Object(out) }
            },
            _ => m.deep_copy(),
        }
    } else if same_text(m.key.as_str(), "items") {
        match &m.value {
            JsonValue::Object(_) => {
                proof {
                    assert(decreases_to!(*m => m.value));
                }
                JsonMember { key: m.key.clone(), value: clean_value(&m.value) }
            },
            JsonValue::Array(xs) => {
                let mut out: Vec<JsonValue> = Vec::new();
                let mut k: usize = 0;
                while k < xs.len()
                    invariant
                        m.value == JsonValue::Array(*xs),
                        k <= xs.len(),
                        out.len() == k,
                        forall|j: int| 0 <= j < k ==> (#[trigger] out@[j])@ == clean(xs@[j]@),
                    decreases xs.len() - k,
                {
                    proof {
                        assert(decreases_to!(*m => m.value));
                        assert(decreases_to!(m.value => m.value->Array_0));
                        assert(decreases_to!(m.value->Array_0 => m.value->Array_0[k as int]));
                    }
                    out.push(clean_value(&xs[k]));
                    k += 1;
                }
                proof {
                    lemma_array_view(*xs);
                    lemma_array_view(out);
                    assert(views(out@) =~= clean_all(views(xs@)));
                }
                JsonMember { key: m.key.clone(), value: JsonValue::Array(out) }
            },
            _ => m.deep_copy(),
        }
    } else {
        m.deep_copy()
    }
}

/// Cleans a JSON Schema in place: drops the keywords that the upstream refuses,
/// coerces type lists, and does the same to the schemas under `properties` and
/// `items`.
pub fn clean_json_schema(schema: &mut JsonValue)
    ensures
        final(schema)@ == clean(old(schema)@),
{
    let r = clean_value(schema);
    *schema = r;
}

} // verus!

verus! {

/// Whether every type list of a schema, and of the schemas under its
/// `properties` and `items`, names at most one type besides `"null"`, and
/// that type is not itself a list.
pub open spec fn simple_types(j: Json) -> bool
    decreases j,
{
    match j {
        Json::Object(ms) => simple_type_list(lookup(ms, "type"@)) && forall|i: int|
            0 <= i < ms.len() ==> member_simple(#[trigger] ms[i]),
        _ => true,
    }
}

/// Whether a `type` value is not a list of two or more types besides `"null"`,
/// nor a list whose one such type is a list.
pub open spec fn simple_type_list(t: Option<Json>) -> bool {
    match t {
        Some(Json::Array(ts)) => non_null(ts).len() <= 1 && (non_null(ts).len() == 1
            ==> !(non_null(ts)[0] is Array)),
        _ => true,
    }
}

/// Whether the schemas that a member holds have simple type lists.
pub open spec fn member_simple(m: Member) -> bool
    decreases m,
{
    if m.key == "properties"@ {
        match m.value {
            Json::Object(ps) => forall|k: int|
                0 <= k < ps.len() ==> simple_types(#[trigger] ps[k].value),
            _ => true,
        }
    } else if m.key == "items"@ {
        match m.value {
            Json::Object(_) => simple_types(m.value),
            Json::Array(xs) => forall|k: int| 0 <= k < xs.len() ==> simple_types(#[trigger] xs[k]),
            _ => true,
        }
    } else {
        true
    }
}

/// Whether no removed keyword is left in a schema, nor in the schemas under
/// its `properties` and `items`.
pub open spec fn keyword_free(j: Json) -> bool
    decreases j,
{
    match j {
        Json::Object(ms) => forall|i: int|
            0 <= i < ms.len() ==> !removed_keyword((#[trigger] ms[i]).key) && member_keyword_free(
                ms[i],
            ),
        _ => true,
    }
}

/// Whether the schemas that a member holds are free of removed keywords.
pub open spec fn member_keyword_free(m: Member) -> bool
    decreases m,
{
    if m.key == "properties"@ {
        match m.value {
            Json::Object(ps) => forall|k: int|
                0 <= k < ps.len() ==> keyword_free(#[trigger] ps[k].value),
            _ => true,
        }
    } else if m.key == "items"@ {
        match m.value {
            Json::Object(_) => keyword_free(m.value),
            Json::Array(xs) => forall|k: int| 0 <= k < xs.len() ==> keyword_free(#[trigger] xs[k]),
            _ => true,
        }
    } else {
        true
    }
}

proof fn lemma_kept_type()
    ensures
        !removed_keyword("type"@),
{
    reveal_strlit("type");
    reveal_strlit("additionalProperties");
    assert("additionalProperties"@.len() != "type"@.len());
    reveal_strlit("default");
    assert("default"@.len() != "type"@.len());
    reveal_strlit("$schema");
    assert("$schema"@.len() != "type"@.len());
    reveal_strlit("$defs");
    assert("$defs"@.len() != "type"@.len());
    reveal_strlit("definitions");
    assert("definitions"@.len() != "type"@.len());
    reveal_strlit("$ref");
    assert("$ref"@[0] != "type"@[0]);
    reveal_strlit("$id");
    assert("$id"@.len() != "type"@.len());
    reveal_strlit("$comment");
    assert("$comment"@.len() != "type"@.len());
    reveal_strlit("title");
    assert("title"@.len() != "type"@.len());
    reveal_strlit("minLength");
    assert("minLength"@.len() != "type"@.len());
    reveal_strlit("maxLength");
    assert("maxLength"@.len() != "type"@.len());
    reveal_strlit("pattern");
    assert("pattern"@.len() != "type"@.len());
    reveal_strlit("format");
    assert("format"@.len() != "type"@.len());
    reveal_strlit("minItems");
    assert("minItems"@.len() != "type"@.len());
    reveal_strlit("maxItems");
    assert("maxItems"@.len() != "type"@.len());
    reveal_strlit("examples");
    assert("examples"@.len() != "type"@.len());
    reveal_strlit("allOf");
    assert("allOf"@.len() != "type"@.len());
    reveal_strlit("anyOf");
    assert("anyOf"@.len() != "type"@.len());
    reveal_strlit("oneOf");
    assert("oneOf"@.len() != "type"@.len());
    reveal_strlit("not");
    assert("not"@.len() != "type"@.len());
    reveal_strlit("if");
    assert("if"@.len() != "type"@.len());
    reveal_strlit("then");
    assert("then"@[1] != "type"@[1]);
    reveal_strlit("else");
    assert("else"@[0] != "type"@[0]);
    reveal_strlit("dependentSchemas");
    assert("dependentSchemas"@.len() != "type"@.len());
    reveal_strlit("dependentRequired");
    assert("dependentRequired"@.len() != "type"@.len());
    reveal_strlit("unevaluatedProperties");
    assert("unevaluatedProperties"@.len() != "type"@.len());
    reveal_strlit("unevaluatedItems");
    assert("unevaluatedItems"@.len() != "type"@.len());
    reveal_strlit("contentMediaType");
    assert("contentMediaType"@.len() != "type"@.len());
    reveal_strlit("contentEncoding");
    assert("contentEncoding"@.len() != "type"@.len());
    reveal_strlit("const");
    assert("const"@.len() != "type"@.len());
}

proof fn lemma_kept_nullable()
    ensures
        !removed_keyword("nullable"@),
{
    reveal_strlit("nullable");
    reveal_strlit("additionalProperties");
    assert("additionalProperties"@.len() != "nullable"@.len());
    reveal_strlit("default");
    assert("default"@.len() != "nullable"@.len());
    reveal_strlit("$schema");
    assert("$schema"@.len() != "nullable"@.len());
    reveal_strlit("$defs");
    assert("$defs"@.len() != "nullable"@.len());
    reveal_strlit("definitions");
    assert("definitions"@.len() != "nullable"@.len());
    reveal_strlit("$ref");
    assert("$ref"@.len() != "nullable"@.len());
    reveal_strlit("$id");
    assert("$id"@.len() != "nullable"@.len());
    reveal_strlit("$comment");
    assert("$comment"@[0] != "nullable"@[0]);
    reveal_strlit("title");
    assert("title"@.len() != "nullable"@.len());
    reveal_strlit("minLength");
    assert("minLength"@.len() != "nullable"@.len());
    reveal_strlit("maxLength");
    assert("maxLength"@.len() != "nullable"@.len());
    reveal_strlit("pattern");
    assert("pattern"@.len() != "nullable"@.len());
    reveal_strlit("format");
    assert("format"@.len() != "nullable"@.len());
    reveal_strlit("minItems");
    assert("minItems"@[0] != "nullable"@[0]);
    reveal_strlit("maxItems");
    assert("maxItems"@[0] != "nullable"@[0]);
    reveal_strlit("examples");
    assert("examples"@[0] != "nullable"@[0]);
    reveal_strlit("allOf");
    assert("allOf"@.len() != "nullable"@.len());
    reveal_strlit("anyOf");
    assert("anyOf"@.len() != "nullable"@.len());
    reveal_strlit("oneOf");
    assert("oneOf"@.len() != "nullable"@.len());
    reveal_strlit("not");
    assert("not"@.len() != "nullable"@.len());
    reveal_strlit("if");
    assert("if"@.len() != "nullable"@.len());
    reveal_strlit("then");
    assert("then"@.len() != "nullable"@.len());
    reveal_strlit("else");
    assert("else"@.len() != "nullable"@.len());
    reveal_strlit("dependentSchemas");
    assert("dependentSchemas"@.len() != "nullable"@.len());
    reveal_strlit("dependentRequired");
    assert("dependentRequired"@.len() != "nullable"@.len());
    reveal_strlit("unevaluatedProperties");
    assert("unevaluatedProperties"@.len() != "nullable"@.len());
    reveal_strlit("unevaluatedItems");
    assert("unevaluatedItems"@.len() != "nullable"@.len());
    reveal_strlit("contentMediaType");
    assert("contentMediaType"@.len() != "nullable"@.len());
    reveal_strlit("contentEncoding");
    assert("contentEncoding"@.len() != "nullable"@.len());
    reveal_strlit("const");
    assert("const"@.len() != "nullable"@.len());
}

proof fn lemma_kept_description()
    ensures
        !removed_keyword("description"@),
{
    reveal_strlit("description");
    reveal_strlit("additionalProperties");
    assert("additionalProperties"@.len() != "description"@.len());
    reveal_strlit("default");
    assert("default"@.len() != "description"@.len());
    reveal_strlit("$schema");
    assert("$schema"@.len() != "description"@.len());
    reveal_strlit("$defs");
    assert("$defs"@.len() != "description"@.len());
    reveal_strlit("definitions");
    assert("definitions"@[2] != "description"@[2]);
    reveal_strlit("$ref");
    assert("$ref"@.len() != "description"@.len());
    reveal_strlit("$id");
    assert("$id"@.len() != "description"@.len());
    reveal_strlit("$comment");
    assert("$comment"@.len() != "description"@.len());
    reveal_strlit("title");
    assert("title"@.len() != "description"@.len());
    reveal_strlit("minLength");
    assert("minLength"@.len() != "description"@.len());
    reveal_strlit("maxLength");
    assert("maxLength"@.len() != "description"@.len());
    reveal_strlit("pattern");
    assert("pattern"@.len() != "description"@.len());
    reveal_strlit("format");
    assert("format"@.len() != "description"@.len());
    reveal_strlit("minItems");
    assert("minItems"@.len() != "description"@.len());
    reveal_strlit("maxItems");
    assert("maxItems"@.len() != "description"@.len());
    reveal_strlit("examples");
    assert("examples"@.len() != "description"@.len());
    reveal_strlit("allOf");
    assert("allOf"@.len() != "description"@.len());
    reveal_strlit("anyOf");
    assert("anyOf"@.len() != "description"@.len());
    reveal_strlit("oneOf");
    assert("oneOf"@.len() != "description"@.len());
    reveal_strlit("not");
    assert("not"@.len() != "description"@.len());
    reveal_strlit("if");
    assert("if"@.len() != "description"@.len());
    reveal_strlit("then");
    assert("then"@.len() != "description"@.len());
    reveal_strlit("else");
    assert("else"@.len() != "description"@.len());
    reveal_strlit("dependentSchemas");
    assert("dependentSchemas"@.len() != "description"@.len());
    reveal_strlit("dependentRequired");
    assert("dependentRequired"@.len() != "description"@.len());
    reveal_strlit("unevaluatedProperties");
    assert("unevaluatedProperties"@.len() != "description"@.len());
    reveal_strlit("unevaluatedItems");
    assert("unevaluatedItems"@.len() != "description"@.len());
    reveal_strlit("contentMediaType");
    assert("contentMediaType"@.len() != "description"@.len());
    reveal_strlit("contentEncoding");
    assert("contentEncoding"@.len() != "description"@.len());
    reveal_strlit("const");
    assert("const"@.len() != "description"@.len());
}

proof fn lemma_kept_properties()
    ensures
        !removed_keyword("properties"@),
{
    reveal_strlit("properties");
    reveal_strlit("additionalProperties");
    assert("additionalProperties"@.len() != "properties"@.len());
    reveal_strlit("default");
    assert("default"@.len() != "properties"@.len());
    reveal_strlit("$schema");
    assert("$schema"@.len() != "properties"@.len());
    reveal_strlit("$defs");
    assert("$defs"@.len() != "properties"@.len());
    reveal_strlit("definitions");
    assert("definitions"@.len() != "properties"@.len());
    reveal_strlit("$ref");
    assert("$ref"@.len() != "properties"@.len());
    reveal_strlit("$id");
    assert("$id"@.len() != "properties"@.len());
    reveal_strlit("$comment");
    assert("$comment"@.len() != "properties"@.len());
    reveal_strlit("title");
    assert("title"@.len() != "properties"@.len());
    reveal_strlit("minLength");
    assert("minLength"@.len() != "properties"@.len());
    reveal_strlit("maxLength");
    assert("maxLength"@.len() != "properties"@.len());
    reveal_strlit("pattern");
    assert("pattern"@.len() != "properties"@.len());
    reveal_strlit("format");
    assert("format"@.len() != "properties"@.len());
    reveal_strlit("minItems");
    assert("minItems"@.len() != "properties"@.len());
    reveal_strlit("maxItems");
    assert("maxItems"@.len() != "properties"@.len());
    reveal_strlit("examples");
    assert("examples"@.len() != "properties"@.len());
    reveal_strlit("allOf");
    assert("allOf"@.len() != "properties"@.len());
    reveal_strlit("anyOf");
    assert("anyOf"@.len() != "properties"@.len());
    reveal_strlit("oneOf");
    assert("oneOf"@.len() != "properties"@.len());
    reveal_strlit("not");
    assert("not"@.len() != "properties"@.len());
    reveal_strlit("if");
    assert("if"@.len() != "properties"@.len());
    reveal_strlit("then");
    assert("then"@.len() != "properties"@.len());
    reveal_strlit("else");
    assert("else"@.len() != "properties"@.len());
    reveal_strlit("dependentSchemas");
    assert("dependentSchemas"@.len() != "properties"@.len());
    reveal_strlit("dependentRequired");
    assert("dependentRequired"@.len() != "properties"@.len());
    reveal_strlit("unevaluatedProperties");
    assert("unevaluatedProperties"@.len() != "properties"@.len());
    reveal_strlit("unevaluatedItems");
    assert("unevaluatedItems"@.len() != "properties"@.len());
    reveal_strlit("contentMediaType");
    assert("contentMediaType"@.len() != "properties"@.len());
    reveal_strlit("contentEncoding");
    assert("contentEncoding"@.len() != "properties"@.len());
    reveal_strlit("const");
    assert("const"@.len() != "properties"@.len());
}

proof fn lemma_kept_required()
    ensures
        !removed_keyword("required"@),
{
    reveal_strlit("required");
    reveal_strlit("additionalProperties");
    assert("additionalProperties"@.len() != "required"@.len());
    reveal_strlit("default");
    assert("default"@.len() != "required"@.len());
    reveal_strlit("$schema");
    assert("$schema"@.len() != "required"@.len());
    reveal_strlit("$defs");
    assert("$defs"@.len() != "required"@.len());
    reveal_strlit("definitions");
    assert("definitions"@.len() != "required"@.len());
    reveal_strlit("$ref");
    assert("$ref"@.len() != "required"@.len());
    reveal_strlit("$id");
    assert("$id"@.len() != "required"@.len());
    reveal_strlit("$comment");
    assert("$comment"@[0] != "required"@[0]);
    reveal_strlit("title");
    assert("title"@.len() != "required"@.len());
    reveal_strlit("minLength");
    assert("minLength"@.len() != "required"@.len());
    reveal_strlit("maxLength");
    assert("maxLength"@.len() != "required"@.len());
    reveal_strlit("pattern");
    assert("pattern"@.len() != "required"@.len());
    reveal_strlit("format");
    assert("format"@.len() != "required"@.len());
    reveal_strlit("minItems");
    assert("minItems"@[0] != "required"@[0]);
    reveal_strlit("maxItems");
    assert("maxItems"@[0] != "required"@[0]);
    reveal_strlit("examples");
    assert("examples"@[0] != "required"@[0]);
    reveal_strlit("allOf");
    assert("allOf"@.len() != "required"@.len());
    reveal_strlit("anyOf");
    assert("anyOf"@.len() != "required"@.len());
    reveal_strlit("oneOf");
    assert("oneOf"@.len() != "required"@.len());
    reveal_strlit("not");
    assert("not"@.len() != "required"@.len());
    reveal_strlit("if");
    assert("if"@.len() != "required"@.len());
    reveal_strlit("then");
    assert("then"@.len() != "required"@.len());
    reveal_strlit("else");
    assert("else"@.len() != "required"@.len());
    reveal_strlit("dependentSchemas");
    assert("dependentSchemas"@.len() != "required"@.len());
    reveal_strlit("dependentRequired");
    assert("dependentRequired"@.len() != "required"@.len());
    reveal_strlit("unevaluatedProperties");
    assert("unevaluatedProperties"@.len() != "required"@.len());
    reveal_strlit("unevaluatedItems");
    assert("unevaluatedItems"@.len() != "required"@.len());
    reveal_strlit("contentMediaType");
    assert("contentMediaType"@.len() != "required"@.len());
    reveal_strlit("contentEncoding");
    assert("contentEncoding"@.len() != "required"@.len());
    reveal_strlit("const");
    assert("const"@.len() != "required"@.len());
}

proof fn lemma_kept_keys()
    ensures
        !removed_keyword("type"@),
        !removed_keyword("nullable"@),
        !removed_keyword("description"@),
        !removed_keyword("properties"@),
        !removed_keyword("required"@),
{
    lemma_kept_type();
    lemma_kept_nullable();
    lemma_kept_description();
    lemma_kept_properties();
    lemma_kept_required();
}

proof fn lemma_lookup_same(a: Seq<Member>, b: Seq<Member>, k: Seq<char>)
    requires
        a.len() == b.len(),
        forall|i: int| 0 <= i < a.len() ==> ((#[trigger] a[i]).key == k <==> b[i].key == k),
        forall|i: int| 0 <= i < a.len() && (#[trigger] a[i]).key == k ==> a[i].value == b[i].value,
    ensures
        lookup(a, k) == lookup(b, k),
    decreases a.len(),
{
    if a.len() > 0 {
        assert(a[0].key == k <==> b[0].key == k);
        lemma_lookup_same(a.drop_first(), b.drop_first(), k);
    }
}

proof fn lemma_lookup_all(a: Seq<Member>, k: Seq<char>, v: Json)
    requires
        has_key(a, k),
        forall|i: int| 0 <= i < a.len() && (#[trigger] a[i]).key == k ==> a[i].value == v,
    ensures
        lookup(a, k) == Some(v),
    decreases a.len(),
{
    if a.len() > 0 && a[0].key != k {
        let i = choose|i: int| 0 <= i < a.len() && (#[trigger] a[i]).key == k;
        assert(a.drop_first()[i - 1].key == k);
        lemma_lookup_all(a.drop_first(), k, v);
    }
}

proof fn lemma_put(ms: Seq<Member>, k: Seq<char>, v: Json, q: spec_fn(Member) -> bool)
    ensures
        lookup(put(ms, k, v), k) == Some(v),
        forall|k2: Seq<char>| k2 != k ==> lookup(#[trigger] put(ms, k, v), k2) == lookup(ms, k2),
        put(put(ms, k, v), k, v) == put(ms, k, v),
        (forall|i: int| 0 <= i < ms.len() ==> #[trigger] q(ms[i])) && q(Member { key: k, value: v })
            ==> forall|i: int| 0 <= i < put(ms, k, v).len() ==> #[trigger] q(put(ms, k, v)[i]),
{
    let p = put(ms, k, v);
    if has_key(ms, k) {
        let w = choose|i: int| 0 <= i < ms.len() && (#[trigger] ms[i]).key == k;
        assert(p[w].key == k);
        assert(has_key(p, k));
        lemma_lookup_all(p, k, v);
        assert forall|k2: Seq<char>| k2 != k implies lookup(#[trigger] put(ms, k, v), k2) == lookup(ms, k2) by {
            lemma_lookup_same(p, ms, k2);
        }
        assert(put(p, k, v) =~= p);
    } else {
        crate::json::lemma_lookup_some(ms, k);
        crate::json::lemma_lookup_push(ms, Member { key: k, value: v }, k);
        assert forall|k2: Seq<char>| k2 != k implies lookup(#[trigger] put(ms, k, v), k2) == lookup(ms, k2) by {
            crate::json::lemma_lookup_push(ms, Member { key: k, value: v }, k2);
        }
        assert(p[ms.len() as int].key == k);
        assert(has_key(p, k));
        assert(put(p, k, v) =~= p);
    }
}

proof fn lemma_strip(ms: Seq<Member>, q: spec_fn(Member) -> bool, k: Seq<char>)
    ensures
        !removed_keyword(k) ==> lookup(strip(ms), k) == lookup(ms, k),
        forall|i: int| 0 <= i < strip(ms).len() ==> !removed_keyword((#[trigger] strip(ms)[i]).key),
        (forall|i: int| 0 <= i < ms.len() ==> #[trigger] q(ms[i])) ==> forall|i: int|
            0 <= i < strip(ms).len() ==> #[trigger] q(strip(ms)[i]),
        (forall|i: int| 0 <= i < ms.len() ==> !removed_keyword((#[trigger] ms[i]).key)) ==> strip(ms)
            == ms,
    decreases ms.len(),
{
    if ms.len() > 0 {
        let rest = ms.drop_last();
        lemma_strip(rest, q, k);
        assert(rest.push(ms.last()) =~= ms);
        crate::json::lemma_lookup_push(rest, ms.last(), k);
        crate::json::lemma_lookup_push(strip(rest), ms.last(), k);
        if (forall|i: int| 0 <= i < ms.len() ==> #[trigger] q(ms[i])) {
            assert(forall|i: int| 0 <= i < rest.len() ==> #[trigger] q(rest[i])) by {
                assert forall|i: int| 0 <= i < rest.len() implies #[trigger] q(rest[i]) by {
                    assert(rest[i] == ms[i]);
                }
            }
            assert(q(ms[ms.len() - 1]));
        }
        if (forall|i: int| 0 <= i < ms.len() ==> !removed_keyword((#[trigger] ms[i]).key)) {
            assert forall|i: int| 0 <= i < rest.len() implies !removed_keyword((#[trigger] rest[i]).key) by {
                assert(rest[i] == ms[i]);
            }
            assert(!removed_keyword(ms[ms.len() - 1].key));
        }
    }
}

proof fn lemma_clean_members_keys(ms: Seq<Member>, k: Seq<char>)
    requires
        k != "properties"@,
        k != "items"@,
    ensures
        lookup(clean_members(ms), k) == lookup(ms, k),
{
    lemma_lookup_same(clean_members(ms), ms, k);
}

proof fn lemma_clean_laws(j: Json)
    requires
        simple_types(j),
    ensures
        keyword_free(clean(j)),
        clean(clean(j)) == clean(j),
    decreases j,
{
    match j {
        Json::Object(ms) => {
            let cm = clean_members(ms);
            let s = strip(cm);
            let c = coerce(s);
            let q = |m: Member| member_keyword_free(m) && clean_member(m) == m;
            assert forall|i: int| 0 <= i < cm.len() implies #[trigger] q(cm[i]) by {
                assert(member_simple(ms[i]));
                lemma_clean_member_laws(ms[i]);
            }
            reveal_strlit("type");
            reveal_strlit("properties");
            reveal_strlit("items");
            reveal_strlit("nullable");
            assert("type"@.len() != "properties"@.len());
            assert("type"@.len() != "items"@.len());
            assert("nullable"@.len() != "properties"@.len());
            assert("nullable"@.len() != "items"@.len());
            assert("type"@ != "nullable"@);
            lemma_kept_keys();
            lemma_strip(cm, q, "type"@);
            lemma_clean_members_keys(ms, "type"@);
            assert(forall|i: int| 0 <= i < s.len() ==> #[trigger] q(s[i]));
            let nm = Member { key: "nullable"@, value: Json::Bool(true) };
            assert(q(nm));
            let t = lookup(s, "type"@);
            assert(t == lookup(ms, "type"@));
            assert(forall|i: int| 0 <= i < c.len() ==> #[trigger] q(c[i])
                && !removed_keyword(c[i].key)) by {
                let qq = |m: Member| q(m) && !removed_keyword(m.key);
                assert(forall|i: int| 0 <= i < s.len() ==> #[trigger] qq(s[i]));
                assert(qq(nm));
                match t {
                    Some(Json::Array(ts)) => {
                        let nn = non_null(ts);
                        let m1 = if has_null(ts) {
                            put(s, "nullable"@, Json::Bool(true))
                        } else {
                            s
                        };
                        lemma_put(s, "nullable"@, Json::Bool(true), qq);
                        assert(forall|i: int| 0 <= i < m1.len() ==> #[trigger] qq(m1[i]));
                        if nn.len() == 1 {
                            let tm = Member { key: "type"@, value: nn[0] };
                            assert(qq(tm));
                            lemma_put(m1, "type"@, nn[0], qq);
                        }
                    },
                    _ => {},
                }
            }
            assert forall|i: int| 0 <= i < c.len() implies !removed_keyword((#[trigger] c[i]).key)
                && member_keyword_free(c[i]) by {
                assert(q(c[i]));
            }
            // the cleaned members clean to themselves
            let c2 = clean_members(c);
            assert(c2 =~= c) by {
                assert forall|i: int| 0 <= i < c.len() implies #[trigger] c2[i] == c[i] by {
                    assert(q(c[i]));
                }
            }
            lemma_strip(c, q, "type"@);
            assert(strip(c) == c);
            // the type list is gone after one pass
            match t {
                Some(Json::Array(ts)) => {
                    let nn = non_null(ts);
                    let m1 = if has_null(ts) {
                        put(s, "nullable"@, Json::Bool(true))
                    } else {
                        s
                    };
                    lemma_put(s, "nullable"@, Json::Bool(true), q);
                    assert(lookup(m1, "type"@) == t);
                    if nn.len() == 1 {
                        lemma_put(m1, "type"@, nn[0], q);
                        assert(coerce(c) == c);
                    } else {
                        assert(c == m1);
                        if has_null(ts) {
                            lemma_put(s, "nullable"@, Json::Bool(true), q);
                        }
                        assert(coerce(c) == c);
                    }
                },
                _ => {
                    assert(c == s);
                    assert(coerce(c) == c);
                },
            }
            assert(clean(clean(j)) == Json::Object(coerce(strip(c2))));
        },
        _ => {},
    }
}

proof fn lemma_clean_member_laws(m: Member)
    requires
        member_simple(m),
    ensures
        member_keyword_free(clean_member(m)),
        clean_member(clean_member(m)) == clean_member(m),
    decreases m,
{
    reveal_strlit("properties");
    reveal_strlit("items");
    if m.key == "properties"@ {
        match m.value {
            Json::Object(ps) => {
                let cp = clean_properties(ps);
                assert forall|k: int| 0 <= k < ps.len() implies keyword_free(#[trigger] cp[k].value)
                    && clean(cp[k].value) == cp[k].value by {
                    assert(simple_types(ps[k].value));
                    lemma_clean_laws(ps[k].value);
                }
                assert(clean_properties(cp) =~= cp);
            },
            _ => {},
        }
    } else if m.key == "items"@ {
        match m.value {
            Json::Object(_) => {
                lemma_clean_laws(m.value);
            },
            Json::Array(xs) => {
                let cx = clean_all(xs);
                assert forall|k: int| 0 <= k < xs.len() implies keyword_free(#[trigger] cx[k])
                    && clean(cx[k]) == cx[k] by {
                    assert(simple_types(xs[k]));
                    lemma_clean_laws(xs[k]);
                }
                assert(clean_all(cx) =~= cx);
            },
            _ => {},
        }
    }
}

/// After cleaning, no removed keyword is left in the schema nor in the schemas
/// under its `properties` and `items`, where every type list names at most one
/// type besides `"null"` (two or more become an `anyOf`).
pub proof fn lemma_cleaned_schema_is_keyword_free(s: Json)
    requires
        simple_types(s),
    ensures
        keyword_free(clean(s)),
{
    lemma_clean_laws(s);
}

/// Cleaning a cleaned schema changes nothing, where every type list names at
/// most one type besides `"null"` and that type is not a list.
pub proof fn lemma_clean_idempotent(s: Json)
    requires
        simple_types(s),
    ensures
        clean(clean(s)) == clean(s),
{
    lemma_clean_laws(s);
}

} // verus!

verus! {

/// The placeholder properties of a schema that has none.
pub open spec fn placeholder_properties() -> Json {
    Json::Object(
        seq![
            Member {
                key: "reason"@,
                value: Json::Object(
                    seq![
                        Member { key: "type"@, value: Json::Str("string"@) },
                        Member {
                            key: "description"@,
                            value: Json::Str("Reason for calling this tool"@),
                        },
                    ],
                ),
            },
        ],
    )
}

/// The list of required properties that goes with the placeholder.
pub open spec fn placeholder_required() -> Json {
    Json::Array(seq![Json::Str("reason"@)])
}

/// The schema that stands for a schema that is not an object.
pub open spec fn placeholder_schema() -> Json {
    Json::Object(
        seq![
            Member { key: "type"@, value: Json::Str("object"@) },
            Member { key: "properties"@, value: placeholder_properties() },
            Member { key: "required"@, value: placeholder_required() },
        ],
    )
}

/// Whether the members hold a non-empty `properties` object.
pub open spec fn has_properties(ms: Seq<Member>) -> bool {
    match lookup(ms, "properties"@) {
        Some(Json::Object(ps)) => ps.len() > 0,
        _ => false,
    }
}

/// A schema made valid: anything but an object becomes the placeholder; an
/// object without `type` gets `type: "object"`; an object schema without
/// non-empty `properties` gets the placeholder property and requires it.
pub open spec fn ensured(j: Json) -> Json {
    match j {
        Json::Object(ms) => {
            let m1 = if has_key(ms, "type"@) {
                ms
            } else {
                put(ms, "type"@, Json::Str("object"@))
            };
            if lookup(m1, "type"@) == Some(Json::Str("object"@)) && !has_properties(m1) {
                Json::Object(
                    put(
                        put(m1, "properties"@, placeholder_properties()),
                        "required"@,
                        placeholder_required(),
                    ),
                )
            } else {
                Json::Object(m1)
            }
        },
        _ => placeholder_schema(),
    }
}

fn make_placeholder_properties() -> (r: JsonValue)
    ensures
        r@ == placeholder_properties(),
{
    let inner = vec![
        JsonMember::new("type", JsonValue::string("string")),
        JsonMember::new("description", JsonValue::string("Reason for calling this tool")),
    ];
    let inner_v = JsonValue::object(inner);
    assert(member_views(inner@) =~= seq![
        Member { key: "type"@, value: Json::Str("string"@) },
        Member { key: "description"@, value: Json::Str("Reason for calling this tool"@) },
    ]);
    let outer = vec![JsonMember::new("reason", inner_v)];
    let r = JsonValue::object(outer);
    assert(member_views(outer@) =~= seq![
        Member { key: "reason"@, value: inner_v@ },
    ]);
    r
}

fn make_placeholder_required() -> (r: JsonValue)
    ensures
        r@ == placeholder_required(),
{
    let items = vec![JsonValue::string("reason")];
    let r = JsonValue::array(items);
    assert(views(items@) =~= seq![Json::Str("reason"@)]);
    r
}

fn is_string_value(v: &JsonValue, s: &str) -> (r: bool)
    ensures
        r == (v@ == Json::Str(s@)),
{
    match v {
        JsonValue::Str(t) => same_text(t.as_str(), s),
        _ => false,
    }
}

/// Makes a schema valid in place: see [`ensured`].
pub fn ensure_valid_schema(schema: &mut JsonValue)
    ensures
        final(schema)@ == ensured(old(schema)@),
{
    match schema {
        JsonValue::Object(ms) => {
            proof {
                lemma_object_view(*ms);
            }
            let ghost m0 = member_views(ms@);
            match find_member(ms, "type") {
                None => {
                    put_member(ms, "type", JsonValue::string("object"));
                },
                Some(i) => {
                    assert(m0[i as int].key == "type"@);
                    assert(has_key(m0, "type"@));
                },
            }
            let ghost m1 = member_views(ms@);
            assert(m1 == if has_key(m0, "type"@) {
                m0
            } else {
                put(m0, "type"@, Json::Str("object"@))
            });
            let is_object_type = match find_member(ms, "type") {
                Some(i) => is_string_value(&ms[i].value, "object"),
                None => false,
            };
            let has_props = match find_member(ms, "properties") {
                Some(i) => match &ms[i].value {
                    JsonValue::Object(ps) => {
                        proof {
                            lemma_object_view(*ps);
                        }
                        ps.len() > 0
                    },
                    _ => false,
                },
                None => false,
            };
            assert(is_object_type == (lookup(m1, "type"@) == Some(Json::Str("object"@))));
            assert(has_props == has_properties(m1));
            if is_object_type && !has_props {
                put_member(ms, "properties", make_placeholder_properties());
                put_member(ms, "required", make_placeholder_required());
            }
            proof {
                lemma_object_view(*ms);
            }
        },
        _ => {
            let members = vec![
                JsonMember::new("type", JsonValue::string("object")),
                JsonMember::new("properties", make_placeholder_properties()),
                JsonMember::new("required", make_placeholder_required()),
            ];
            assert(member_views(members@) =~= placeholder_schema()->Object_0);
            *schema = JsonValue::object(members);
        },
    }
}

} // verus!

verus! {

/// Whether a number's text is a non-negative integer.
pub open spec fn all_digits(n: Seq<char>) -> bool {
    n.len() > 0 && forall|i: int| 0 <= i < n.len() ==> '0' <= #[trigger] n[i] <= '9'
}

/// The note for an integer constraint `key`, where it holds a non-negative integer.
pub open spec fn count_note(ms: Seq<Member>, key: Seq<char>, label: Seq<char>) -> Seq<Seq<char>> {
    match lookup(ms, key) {
        Some(Json::Number(n)) => if all_digits(n) {
            seq![label + n]
        } else {
            seq![]
        },
        _ => seq![],
    }
}

/// The note for a numeric constraint `key`, where it holds a number.
pub open spec fn number_note(ms: Seq<Member>, key: Seq<char>, label: Seq<char>) -> Seq<Seq<char>> {
    match lookup(ms, key) {
        Some(Json::Number(n)) => seq![label + n],
        _ => seq![],
    }
}

/// The note for a text constraint `key`, where it holds a string.
pub open spec fn text_note(ms: Seq<Member>, key: Seq<char>, label: Seq<char>) -> Seq<Seq<char>> {
    match lookup(ms, key) {
        Some(Json::Str(t)) => seq![label + t],
        _ => seq![],
    }
}

/// The notes that describe the constraints of a schema, in a fixed order.
pub open spec fn constraint_notes(ms: Seq<Member>) -> Seq<Seq<char>> {
    count_note(ms, "minLength"@, "Minimum length: "@) + count_note(
        ms,
        "maxLength"@,
        "Maximum length: "@,
    ) + text_note(ms, "pattern"@, "Pattern: "@) + number_note(ms, "minimum"@, "Minimum: "@)
        + number_note(ms, "maximum"@, "Maximum: "@) + count_note(
        ms,
        "minItems"@,
        "Minimum items: "@,
    ) + count_note(ms, "maxItems"@, "Maximum items: "@)
}

/// The parts joined with `sep` between each two.
pub open spec fn join(parts: Seq<Seq<char>>, sep: Seq<char>) -> Seq<char>
    decreases parts.len(),
{
    if parts.len() == 0 {
        seq![]
    } else if parts.len() == 1 {
        parts[0]
    } else {
        join(parts.drop_last(), sep) + sep + parts.last()
    }
}

/// The members with the constraint notes appended to `description`.
pub open spec fn described(ms: Seq<Member>) -> Seq<Member> {
    let notes = constraint_notes(ms);
    if notes.len() == 0 {
        ms
    } else {
        let existing = match lookup(ms, "description"@) {
            Some(Json::Str(d)) => d,
            _ => seq![],
        };
        let text = if existing.len() == 0 {
            join(notes, ", "@)
        } else {
            existing + ", "@ + join(notes, ", "@)
        };
        put(ms, "description"@, Json::Str(text))
    }
}

/// A schema whose constraints, and those of the schemas under its
/// `properties` and `items`, are described in `description`.
pub open spec fn moved(j: Json) -> Json
    decreases j,
{
    match j {
        Json::Object(ms) => Json::Object(described(moved_members(ms))),
        _ => j,
    }
}

/// The members with the schemas that they hold described.
pub open spec fn moved_members(ms: Seq<Member>) -> Seq<Member>
    decreases ms,
{
    Seq::new(
        ms.len(),
        |i: int|
            if 0 <= i < ms.len() {
                moved_member(ms[i])
            } else {
                Member { key: Seq::empty(), value: Json::Null }
            },
    )
}

/// The properties with each schema described.
pub open spec fn moved_properties(ps: Seq<Member>) -> Seq<Member>
    decreases ps,
{
    Seq::new(
        ps.len(),
        |k: int|
            if 0 <= k < ps.len() {
                Member { key: ps[k].key, value: moved(ps[k].value) }
            } else {
                Member { key: Seq::empty(), value: Json::Null }
            },
    )
}

/// A member with the schemas that it holds described.
pub open spec fn moved_member(m: Member) -> Member
    decreases m,
{
    if m.key == "properties"@ {
        match m.value {
            Json::Object(ps) => Member { key: m.key, value: Json::Object(moved_properties(ps)) },
            _ => m,
        }
    } else if m.key == "items"@ {
        Member { key: m.key, value: moved(m.value) }
    } else {
        m
    }
}

fn digits_only(n: &str) -> (r: bool)
    ensures
        r == all_digits(n@),
{
    let cs = crate::text::chars_of(n);
    if cs.len() == 0 {
        return false;
    }
    let mut i: usize = 0;
    while i < cs.len()
        invariant
            cs@ == n@,
            i <= cs.len(),
            forall|j: int| 0 <= j < i ==> '0' <= #[trigger] n@[j] <= '9',
        decreases cs.len() - i,
    {
        if !('0' <= cs[i] && cs[i] <= '9') {
            return false;
        }
        i += 1;
    }
    true
}

fn push_note(
    notes: &mut Vec<Vec<char>>,
    ms: &Vec<JsonMember>,
    key: &str,
    label: &str,
    kind: u8,
)
    requires
        kind < 3,
    ensures
        views_of_notes(final(notes)@) == views_of_notes(old(notes)@) + if kind == 0 {
            count_note(member_views(ms@), key@, label@)
        } else if kind == 1 {
            number_note(member_views(ms@), key@, label@)
        } else {
            text_note(member_views(ms@), key@, label@)
        },
{
    let ghost before = views_of_notes(notes@);
    match find_member(ms, key) {
        Some(i) => {
            let note: Option<Vec<char>> = match &ms[i].value {
                JsonValue::Number(n) => if kind == 0 && digits_only(n.as_str()) || kind == 1 {
                    let mut c = crate::text::chars_of(label);
                    crate::text::push_str(&mut c, n.as_str());
                    Some(c)
                } else {
                    None
                },
                JsonValue::Str(t) => if kind == 2 {
                    let mut c = crate::text::chars_of(label);
                    crate::text::push_str(&mut c, t.as_str());
                    Some(c)
                } else {
                    None
                },
                _ => None,
            };
            match note {
                Some(c) => {
                    notes.push(c);
                    assert(views_of_notes(notes@) =~= before.push(c@));
                },
                None => {},
            }
        },
        None => {},
    }
}

/// The texts of a list of notes.
pub open spec fn views_of_notes(notes: Seq<Vec<char>>) -> Seq<Seq<char>> {
    Seq::new(notes.len(), |i: int| notes[i]@)
}

fn join_notes(notes: &Vec<Vec<char>>, sep: &str) -> (r: Vec<char>)
    ensures
        r@ == join(views_of_notes(notes@), sep@),
{
    let ghost all = views_of_notes(notes@);
    let mut out: Vec<char> = Vec::new();
    let mut i: usize = 0;
    while i < notes.len()
        invariant
            all == views_of_notes(notes@),
            i <= notes.len(),
            out@ == join(all.take(i as int), sep@),
        decreases notes.len() - i,
    {
        assert(all.take(i + 1).drop_last() =~= all.take(i as int));
        if i > 0 {
            crate::text::push_str(&mut out, sep);
        }
        crate::text::push_chars(&mut out, &notes[i]);
        i += 1;
        if i == 1 {
            assert(out@ =~= join(all.take(i as int), sep@));
        }
    }
    assert(all.take(notes.len() as int) =~= all);
    out
}

fn describe_members(ms: &mut Vec<JsonMember>)
    ensures
        member_views(final(ms)@) == described(member_views(old(ms)@)),
{
    let ghost m0 = member_views(ms@);
    let mut notes: Vec<Vec<char>> = Vec::new();
    assert(views_of_notes(notes@) =~= Seq::<Seq<char>>::empty());
    push_note(&mut notes, ms, "minLength", "Minimum length: ", 0);
    push_note(&mut notes, ms, "maxLength", "Maximum length: ", 0);
    push_note(&mut notes, ms, "pattern", "Pattern: ", 2);
    push_note(&mut notes, ms, "minimum", "Minimum: ", 1);
    push_note(&mut notes, ms, "maximum", "Maximum: ", 1);
    push_note(&mut notes, ms, "minItems", "Minimum items: ", 0);
    push_note(&mut notes, ms, "maxItems", "Maximum items: ", 0);
    assert(views_of_notes(notes@) =~= constraint_notes(m0));
    if notes.len() == 0 {
        return;
    }
    let joined = join_notes(&notes, ", ");
    let existing: Vec<char> = match find_member(ms, "description") {
        Some(i) => match &ms[i].value {
            JsonValue::Str(d) => crate::text::chars_of(d.as_str()),
            _ => Vec::new(),
        },
        None => Vec::new(),
    };
    let text = if existing.len() == 0 {
        joined
    } else {
        let mut t = existing;
        crate::text::push_str(&mut t, ", ");
        crate::text::push_chars(&mut t, &joined);
        t
    };
    let s = crate::text::text_of(&text);
    put_member(ms, "description", JsonValue::Str(s));
}

/// Describes the constraints of a schema: see [`moved`].
pub fn moved_value(v: &JsonValue) -> (r: JsonValue)
    ensures
        r@ == moved(v@),
    decreases v,
{
    match v {
        JsonValue::Object(ms) => {
            let mut out: Vec<JsonMember> = Vec::new();
            let mut i: usize = 0;
            while i < ms.len()
                invariant
                    *v == JsonValue::Object(*ms),
                    i <= ms.len(),
                    out.len() == i,
                    forall|j: int| 0 <= j < i ==> (#[trigger] out@[j])@ == moved_member(ms@[j]@),
                decreases ms.len() - i,
            {
                proof {
                    assert(decreases_to!(*v => v->Object_0));
                    assert(decreases_to!(v->Object_0 => v->Object_0[i as int]));
                }
                out.push(moved_member_value(&ms[i]));
                i += 1;
            }
            proof {
                lemma_object_view(*ms);
                assert(member_views(out@) =~= moved_members(member_views(ms@)));
            }
            describe_members(&mut out);
            proof {
                lemma_object_view(out);
            }
            JsonValue::Object(out)
        },
        _ => v.deep_copy(),
    }
}

fn moved_member_value(m: &JsonMember) -> (r: JsonMember)
    ensures
        r@ == moved_member(m@),
    decreases m,
{
    if same_text(m.key.as_str(), "properties") {
        match &m.value {
            JsonValue::Object(ps) => {
                let mut out: Vec<JsonMember> = Vec::new();
                let mut k: usize = 0;
                while k < ps.len()
                    invariant
                        m.value == JsonValue::Object(*ps),
                        k <= ps.len(),
                        out.len() == k,
                        forall|j: int|
                            0 <= j < k ==> (#[trigger] out@[j])@ == (Member {
                                key: ps@[j].key@,
                                value: moved(ps@[j].value@),
                            }),
                    decreases ps.len() - k,
                {
                    proof {
                        assert(decreases_to!(*m => m.value));
                        assert(decreases_to!(m.value => m.value->Object_0));
                        assert(decreases_to!(m.value->Object_0 => m.value->Object_0[k as int]));
                        assert(decreases_to!(m.value->Object_0[k as int] => m.value->Object_0[k as int].value));
                    }
                    out.push(JsonMember { key: ps[k].key.clone(), value: moved_value(&ps[k].value) });
                    k += 1;
                }
                proof {
                    lemma_object_view(*ps);
                    lemma_object_view(out);
                    assert(member_views(out@) =~= moved_properties(member_views(ps@)));
                }
                JsonMember { key: m.key.clone(), value: JsonValue::Object(out) }
            },
            _ => m.deep_copy(),
        }
    } else if same_text(m.key.as_str(), "items") {
        proof {
            assert(decreases_to!(*m => m.value));
        }
        JsonMember { key: m.key.clone(), value: moved_value(&m.value) }
    } else {
        m.deep_copy()
    }
}

/// Appends a note on each length, pattern, range and item-count constraint of
/// a schema, and of the schemas under its `properties` and `items`, to its
/// `description`.
pub fn move_constraints_to_description(schema: &mut JsonValue)
    ensures
        final(schema)@ == moved(old(schema)@),
{
    let r = moved_value(schema);
    *schema = r;
}

} // verus!

verus! {

/// How deep `$ref` expansion goes into nested schemas.
pub const EXPAND_DEPTH: u32 = 64;

/// The definition that a reference `#/…/NAME` names: the text after its last
/// `/`, where it starts with `#/` and holds a second `/`.
pub open spec fn ref_name(r: Seq<char>) -> Option<Seq<char>> {
    if r.len() >= 2 && r[0] == '#' && r[1] == '/' && exists|i: int| 2 <= i < r.len() && r[i] == '/' {
        Some(after_last(r, '/'))
    } else {
        None
    }
}

/// The members with each member of `dms` added at the end whose key is not
/// yet there.
pub open spec fn merge(base: Seq<Member>, dms: Seq<Member>) -> Seq<Member>
    decreases dms.len(),
{
    if dms.len() == 0 {
        base
    } else {
        let acc = merge(base, dms.drop_last());
        if has_key(acc, dms.last().key) {
            acc
        } else {
            acc.push(dms.last())
        }
    }
}

/// The definitions of a schema: its `$defs`, else its `definitions`, else none.
pub open spec fn defs_of(schema: Json) -> Json {
    match schema.get("$defs"@) {
        Some(d) => d,
        None => match schema.get("definitions"@) {
            Some(d) => d,
            None => Json::Object(seq![]),
        },
    }
}

/// The members without `$ref`, with the fields of the definition that it
/// names merged in.
pub open spec fn resolved(ms: Seq<Member>, defs: Json) -> Seq<Member> {
    match lookup(ms, "$ref"@) {
        None => ms,
        Some(rv) => {
            let base = without_key(ms, "$ref"@);
            match rv {
                Json::Str(r) => match ref_name(r) {
                    Some(n) => match defs.get(n) {
                        Some(Json::Object(dms)) => merge(base, dms),
                        _ => base,
                    },
                    None => base,
                },
                _ => base,
            }
        },
    }
}

/// A schema with its references expanded, down to `depth` levels of nesting
/// under `properties`, `items`, `anyOf`, `oneOf` and `allOf`.
pub open spec fn expand(j: Json, defs: Json, depth: nat) -> Json
    decreases depth, 2nat,
{
    match j {
        Json::Object(ms) => {
            let m1 = resolved(ms, defs);
            if depth == 0 {
                Json::Object(m1)
            } else {
                Json::Object(expand_members(m1, defs, depth))
            }
        },
        _ => j,
    }
}

/// The members with the schemas that they hold expanded one level less deep.
pub open spec fn expand_members(ms: Seq<Member>, defs: Json, depth: nat) -> Seq<Member>
    decreases depth, 1nat,
{
    Seq::new(ms.len(), |i: int| expand_member(ms[i], defs, depth))
}

/// Whether a key holds a list of alternative schemas.
pub open spec fn is_alternatives(k: Seq<char>) -> bool {
    k == "anyOf"@ || k == "oneOf"@ || k == "allOf"@
}

/// A member with the schemas that it holds expanded one level less deep.
pub open spec fn expand_member(m: Member, defs: Json, depth: nat) -> Member
    decreases depth, 0nat,
{
    if depth == 0 {
        m
    } else if m.key == "properties"@ {
        match m.value {
            Json::Object(ps) => Member {
                key: m.key,
                value: Json::Object(expand_properties(ps, defs, (depth - 1) as nat)),
            },
            _ => m,
        }
    } else if m.key == "items"@ {
        Member { key: m.key, value: expand(m.value, defs, (depth - 1) as nat) }
    } else if is_alternatives(m.key) {
        match m.value {
            Json::Array(xs) => Member {
                key: m.key,
                value: Json::Array(expand_all(xs, defs, (depth - 1) as nat)),
            },
            _ => m,
        }
    } else {
        m
    }
}

/// The properties with each schema expanded.
pub open spec fn expand_properties(ps: Seq<Member>, defs: Json, depth: nat) -> Seq<Member>
    decreases depth, 3nat,
{
    Seq::new(ps.len(), |k: int| Member { key: ps[k].key, value: expand(ps[k].value, defs, depth) })
}

/// The schemas of a list, each expanded.
pub open spec fn expand_all(xs: Seq<Json>, defs: Json, depth: nat) -> Seq<Json>
    decreases depth, 3nat,
{
    Seq::new(xs.len(), |k: int| expand(xs[k], defs, depth))
}

/// A schema with its references expanded down to [`EXPAND_DEPTH`] levels of
/// nesting, and its definitions dropped.
pub open spec fn expanded(schema: Json) -> Json {
    match expand(schema, defs_of(schema), EXPAND_DEPTH as nat) {
        Json::Object(ms) => Json::Object(without_key(without_key(ms, "$defs"@), "definitions"@)),
        other => other,
    }
}

fn ref_name_of(r: &str) -> (n: Option<String>)
    ensures
        n matches Some(t) ==> ref_name(r@) == Some(t@),
        n is None ==> ref_name(r@) is None,
{
    let cs = crate::text::chars_of(r);
    if cs.len() < 2 || cs[0] != '#' || cs[1] != '/' {
        return None;
    }
    if crate::text::find_char(&cs, '/', 2).is_none() {
        return None;
    }
    let mut cur: Vec<char> = Vec::new();
    let mut i: usize = 0;
    while i < cs.len()
        invariant
            cs@ == r@,
            i <= cs.len(),
            cur@ == after_last(cs@.take(i as int), '/'),
        decreases cs.len() - i,
    {
        assert(cs@.take(i + 1).drop_last() =~= cs@.take(i as int));
        if cs[i] == '/' {
            cur = Vec::new();
            assert(cur@ =~= after_last(cs@.take(i + 1), '/'));
        } else {
            cur.push(cs[i]);
        }
        i += 1;
    }
    assert(cs@.take(cs.len() as int) =~= cs@);
    Some(crate::text::text_of(&cur))
}

fn merge_members(base: &mut Vec<JsonMember>, dms: &Vec<JsonMember>)
    ensures
        member_views(final(base)@) == merge(member_views(old(base)@), member_views(dms@)),
{
    let ghost b0 = member_views(base@);
    let ghost d = member_views(dms@);
    let mut i: usize = 0;
    assert(d.take(0) =~= Seq::<Member>::empty());
    while i < dms.len()
        invariant
            d == member_views(dms@),
            i <= dms.len(),
            member_views(base@) == merge(b0, d.take(i as int)),
        decreases dms.len() - i,
    {
        let ghost before = base@;
        assert(d.take(i + 1).drop_last() =~= d.take(i as int));
        assert(d.take(i + 1).last() == d[i as int]);
        if !crate::param_remapper::has_member(base, dms[i].key.as_str()) {
            base.push(dms[i].deep_copy());
            assert(member_views(base@) =~= member_views(before).push(d[i as int]));
        }
        i += 1;
    }
    assert(d.take(dms.len() as int) =~= d);
}

fn resolve_members(ms: &mut Vec<JsonMember>, defs: &JsonValue)
    ensures
        member_views(final(ms)@) == resolved(member_views(old(ms)@), defs@),
{
    let ghost m0 = member_views(ms@);
    let found = find_member(ms, "$ref");
    let i = match found {
        None => {
            return;
        },
        Some(i) => i,
    };
    let target: Option<String> = match &ms[i].value {
        JsonValue::Str(r) => ref_name_of(r.as_str()),
        _ => None,
    };
    remove_member(ms, "$ref");
    match target {
        Some(n) => match defs.get(n.as_str()) {
            Some(d) => match d {
                JsonValue::Object(dms) => {
                    proof {
                        lemma_object_view(*dms);
                    }
                    merge_members(ms, dms);
                },
                _ => {},
            },
            None => {},
        },
        None => {},
    }
}

/// Expands the references of a schema: see [`expand`].
pub fn expand_value(v: &JsonValue, defs: &JsonValue, depth: u32) -> (r: JsonValue)
    ensures
        r@ == expand(v@, defs@, depth as nat),
    decreases depth, 2nat,
{
    match v {
        JsonValue::Object(ms) => {
            proof {
                lemma_object_view(*ms);
            }
            let mut m1: Vec<JsonMember> = copy_all(ms);
            resolve_members(&mut m1, defs);
            if depth == 0 {
                proof {
                    lemma_object_view(m1);
                }
                return JsonValue::Object(m1);
            }
            let mut out: Vec<JsonMember> = Vec::new();
            let mut i: usize = 0;
            while i < m1.len()
                invariant
                    depth > 0,
                    i <= m1.len(),
                    out.len() == i,
                    forall|j: int| 0 <= j < i ==> (#[trigger] out@[j])@ == expand_member(m1@[j]@, defs@, depth as nat),
                decreases m1.len() - i,
            {
                out.push(expand_member_value(&m1[i], defs, depth));
                i += 1;
            }
            proof {
                lemma_object_view(out);
                assert(member_views(out@) =~= expand_members(member_views(m1@), defs@, depth as nat));
            }
            JsonValue::Object(out)
        },
        _ => v.deep_copy(),
    }
}

fn copy_all(ms: &Vec<JsonMember>) -> (r: Vec<JsonMember>)
    ensures
        member_views(r@) == member_views(ms@),
{
    let mut out: Vec<JsonMember> = Vec::new();
    let mut i: usize = 0;
    while i < ms.len()
        invariant
            i <= ms.len(),
            out.len() == i,
            forall|j: int| 0 <= j < i ==> (#[trigger] out@[j])@ == ms@[j]@,
        decreases ms.len() - i,
    {
        out.push(ms[i].deep_copy());
        i += 1;
    }
    assert(member_views(out@) =~= member_views(ms@));
    out
}

fn expand_member_value(m: &JsonMember, defs: &JsonValue, depth: u32) -> (r: JsonMember)
    requires
        depth > 0,
    ensures
        r@ == expand_member(m@, defs@, depth as nat),
    decreases depth, 0nat,
{
    let d = depth - 1;
    if same_text(m.key.as_str(), "properties") {
        match &m.value {
            JsonValue::Object(ps) => {
                let mut out: Vec<JsonMember> = Vec::new();
                let mut k: usize = 0;
                while k < ps.len()
                    invariant
                        d == depth - 1,
                        k <= ps.len(),
                        out.len() == k,
                        forall|j: int|
                            0 <= j < k ==> (#[trigger] out@[j])@ == (Member {
                                key: ps@[j].key@,
                                value: expand(ps@[j].value@, defs@, d as nat),
                            }),
                    decreases ps.len() - k,
                {
                    out.push(JsonMember { key: ps[k].key.clone(), value: expand_value(&ps[k].value, defs, d) });
                    k += 1;
                }
                proof {
                    lemma_object_view(*ps);
                    lemma_object_view(out);
                    assert(member_views(out@) =~= expand_properties(member_views(ps@), defs@, d as nat));
                }
                JsonMember { key: m.key.clone(), value: JsonValue::Object(out) }
            },
            _ => m.deep_copy(),
        }
    } else if same_text(m.key.as_str(), "items") {
        JsonMember { key: m.key.clone(), value: expand_value(&m.value, defs, d) }
    } else if same_text(m.key.as_str(), "anyOf") || same_text(m.key.as_str(), "oneOf") || same_text(
        m.key.as_str(),
        "allOf",
    ) {
        match &m.value {
            JsonValue::Array(xs) => {
                let mut out: Vec<JsonValue> = Vec::new();
                let mut k: usize = 0;
                while k < xs.len()
                    invariant
                        d == depth - 1,
                        k <= xs.len(),
                        out.len() == k,
                        forall|j: int| 0 <= j < k ==> (#[trigger] out@[j])@ == expand(xs@[j]@, defs@, d as nat),
                    decreases xs.len() - k,
                {
                    out.push(expand_value(&xs[k], defs, d));
                    k += 1;
                }
                proof {
                    lemma_array_view(*xs);
                    lemma_array_view(out);
                    assert(views(out@) =~= expand_all(views(xs@), defs@, d as nat));
                }
                JsonMember { key: m.key.clone(), value: JsonValue::Array(out) }
            },
            _ => m.deep_copy(),
        }
    } else {
        m.deep_copy()
    }
}

/// Inlines every `#/$defs/NAME` and `#/definitions/NAME` reference of a schema
/// by the fields of the definition that it names (fields already there are
/// kept), and drops the definitions. Expansion goes [`EXPAND_DEPTH`] (64)
/// levels of nested schemas deep, which also stops definitions that refer to
/// themselves; a reference nested deeper keeps its `$ref`.
pub fn expand_refs(schema: &JsonValue) -> (r: JsonValue)
    ensures
        r@ == expanded(schema@),
{
    let no_members: Vec<JsonMember> = Vec::new();
    assert(member_views(no_members@) =~= Seq::<Member>::empty());
    let empty = JsonValue::object(no_members);
    let defs: &JsonValue = match schema.get("$defs") {
        Some(d) => d,
        None => match schema.get("definitions") {
            Some(d) => d,
            None => &empty,
        },
    };
    assert(defs@ == defs_of(schema@));
    let r = expand_value(schema, defs, EXPAND_DEPTH);
    match r {
        JsonValue::Object(mut ms) => {
            proof {
                lemma_object_view(ms);
            }
            remove_member(&mut ms, "$defs");
            remove_member(&mut ms, "definitions");
            proof {
                lemma_object_view(ms);
            }
            JsonValue::Object(ms)
        },
        other => other,
    }
}

} // verus!

verus! {

/// Whether no schema holds `$ref`: neither this one nor those under its
/// `properties`, `items`, `anyOf`, `oneOf` and `allOf`.
pub open spec fn no_refs(j: Json) -> bool
    decreases j,
{
    match j {
        Json::Object(ms) => !has_key(ms, "$ref"@) && forall|i: int|
            0 <= i < ms.len() ==> member_no_refs(#[trigger] ms[i]),
        _ => true,
    }
}

/// Whether no schema that a member holds has `$ref`.
pub open spec fn member_no_refs(m: Member) -> bool
    decreases m,
{
    if m.key == "properties"@ {
        match m.value {
            Json::Object(ps) => forall|k: int| 0 <= k < ps.len() ==> no_refs(#[trigger] ps[k].value),
            _ => true,
        }
    } else if m.key == "items"@ {
        no_refs(m.value)
    } else if is_alternatives(m.key) {
        match m.value {
            Json::Array(xs) => forall|k: int| 0 <= k < xs.len() ==> no_refs(#[trigger] xs[k]),
            _ => true,
        }
    } else {
        true
    }
}

proof fn lemma_expand_without_refs(j: Json, defs: Json, depth: nat)
    requires
        no_refs(j),
    ensures
        expand(j, defs, depth) == j,
    decreases depth, 2nat,
{
    match j {
        Json::Object(ms) => {
            crate::json::lemma_lookup_some(ms, "$ref"@);
            assert(resolved(ms, defs) == ms);
            if depth > 0 {
                let e = expand_members(ms, defs, depth);
                assert forall|i: int| 0 <= i < ms.len() implies #[trigger] e[i] == ms[i] by {
                    assert(member_no_refs(ms[i]));
                    lemma_expand_member_without_refs(ms[i], defs, depth);
                }
                assert(e =~= ms);
            }
        },
        _ => {},
    }
}

proof fn lemma_expand_member_without_refs(m: Member, defs: Json, depth: nat)
    requires
        member_no_refs(m),
        depth > 0,
    ensures
        expand_member(m, defs, depth) == m,
    decreases depth, 0nat,
{
    let d = (depth - 1) as nat;
    if m.key == "properties"@ {
        match m.value {
            Json::Object(ps) => {
                let e = expand_properties(ps, defs, d);
                assert forall|k: int| 0 <= k < ps.len() implies #[trigger] e[k] == ps[k] by {
                    assert(no_refs(ps[k].value));
                    lemma_expand_without_refs(ps[k].value, defs, d);
                }
                assert(e =~= ps);
            },
            _ => {},
        }
    } else if m.key == "items"@ {
        lemma_expand_without_refs(m.value, defs, d);
    } else if is_alternatives(m.key) {
        match m.value {
            Json::Array(xs) => {
                let e = expand_all(xs, defs, d);
                assert forall|k: int| 0 <= k < xs.len() implies #[trigger] e[k] == xs[k] by {
                    assert(no_refs(xs[k]));
                    lemma_expand_without_refs(xs[k], defs, d);
                }
                assert(e =~= xs);
            },
            _ => {},
        }
    }
}

/// A schema without any `$ref`, and without definitions of its own, comes out
/// of reference expansion as it went in.
pub proof fn lemma_expand_refs_fixed_point(s: Json)
    requires
        no_refs(s),
        s matches Json::Object(ms) ==> !has_key(ms, "$defs"@) && !has_key(ms, "definitions"@),
    ensures
        expanded(s) == s,
{
    lemma_expand_without_refs(s, defs_of(s), EXPAND_DEPTH as nat);
    match s {
        Json::Object(ms) => {
            crate::json::lemma_without_key(ms, "$defs"@);
            crate::json::lemma_without_key(ms, "definitions"@);
        },
        _ => {},
    }
}

} // verus!

verus! {

/// Whether no removed keyword is left in a schema, nor in the schemas under
/// its `properties`, `items` and `anyOf`, apart from the `anyOf` list itself,
/// which stands where a type list named several types.
pub open spec fn keyword_free_but_any_of(j: Json) -> bool
    decreases j,
{
    match j {
        Json::Object(ms) => forall|i: int|
            0 <= i < ms.len() ==> ((#[trigger] ms[i]).key == "anyOf"@ || !removed_keyword(ms[i].key))
                && member_free_but_any_of(ms[i]),
        _ => true,
    }
}

/// Whether the schemas that a member holds keep only the `anyOf` of a type list.
pub open spec fn member_free_but_any_of(m: Member) -> bool
    decreases m,
{
    if m.key == "properties"@ {
        match m.value {
            Json::Object(ps) => forall|k: int| 0 <= k < ps.len() ==> keyword_free_but_any_of(#[trigger] ps[k].value),
            _ => true,
        }
    } else if m.key == "items"@ {
        match m.value {
            Json::Object(_) => keyword_free_but_any_of(m.value),
            Json::Array(xs) => forall|k: int| 0 <= k < xs.len() ==> keyword_free_but_any_of(#[trigger] xs[k]),
            _ => true,
        }
    } else if m.key == "anyOf"@ {
        match m.value {
            Json::Array(xs) => forall|k: int| 0 <= k < xs.len() ==> keyword_free_but_any_of(#[trigger] xs[k]),
            _ => true,
        }
    } else {
        true
    }
}

proof fn lemma_key_names_differ()
    ensures
        "type"@ != "anyOf"@,
        "type"@ != "properties"@,
        "type"@ != "items"@,
        "nullable"@ != "anyOf"@,
        "nullable"@ != "properties"@,
        "nullable"@ != "items"@,
        "anyOf"@ != "properties"@,
        "anyOf"@ != "items"@,
{
    reveal_strlit("type");
    reveal_strlit("anyOf");
    reveal_strlit("properties");
    reveal_strlit("items");
    reveal_strlit("nullable");
    assert("type"@.len() != "anyOf"@.len());
    assert("type"@.len() != "properties"@.len());
    assert("type"@[0] != "items"@[0]);
    assert("nullable"@.len() != "anyOf"@.len());
    assert("nullable"@.len() != "properties"@.len());
    assert("nullable"@.len() != "items"@.len());
    assert("anyOf"@.len() != "properties"@.len());
    assert("anyOf"@[0] != "items"@[0]);
}

proof fn lemma_without_key_all(ms: Seq<Member>, k: Seq<char>, q: spec_fn(Member) -> bool)
    requires
        forall|i: int| 0 <= i < ms.len() ==> #[trigger] q(ms[i]),
    ensures
        forall|i: int| 0 <= i < without_key(ms, k).len() ==> #[trigger] q(without_key(ms, k)[i]),
{
    crate::json::lemma_without_key_subset(ms, k);
    assert forall|i: int| 0 <= i < without_key(ms, k).len() implies #[trigger] q(without_key(ms, k)[i]) by {
        let j = choose|j: int| 0 <= j < ms.len() && ms[j] == without_key(ms, k)[i];
        assert(q(ms[j]));
    }
}

proof fn lemma_clean_free_but_any_of(j: Json)
    ensures
        keyword_free_but_any_of(clean(j)),
    decreases j,
{
    match j {
        Json::Object(ms) => {
            let cm = clean_members(ms);
            let s = strip(cm);
            let c = coerce(s);
            lemma_kept_keys();
            lemma_key_names_differ();
            let q = |m: Member| (m.key == "anyOf"@ || !removed_keyword(m.key)) && member_free_but_any_of(m);
            let qm = |m: Member| removed_keyword(m.key) || member_free_but_any_of(m);
            assert forall|i: int| 0 <= i < cm.len() implies #[trigger] qm(cm[i]) by {
                lemma_clean_member_free_but_any_of(ms[i]);
                assert(cm[i].key == ms[i].key);
            }
            lemma_strip(cm, qm, "type"@);
            assert(forall|i: int| 0 <= i < s.len() ==> #[trigger] q(s[i])) by {
                assert forall|i: int| 0 <= i < s.len() implies #[trigger] q(s[i]) by {
                    assert(qm(s[i]));
                    assert(!removed_keyword(s[i].key));
                }
            }
            assert(q(Member { key: "nullable"@, value: Json::Bool(true) }));
            match lookup(s, "type"@) {
                Some(Json::Array(ts)) => {
                    let nn = non_null(ts);
                    let m1 = if has_null(ts) {
                        put(s, "nullable"@, Json::Bool(true))
                    } else {
                        s
                    };
                    lemma_put(s, "nullable"@, Json::Bool(true), q);
                    assert(forall|i: int| 0 <= i < m1.len() ==> #[trigger] q(m1[i]));
                    if nn.len() == 1 {
                        assert(q(Member { key: "type"@, value: nn[0] }));
                        lemma_put(m1, "type"@, nn[0], q);
                    } else if nn.len() > 1 {
                        let items = Seq::new(nn.len(), |i: int| type_item(nn[i]));
                        assert forall|k: int| 0 <= k < items.len() implies keyword_free_but_any_of(#[trigger] items[k]) by {
                            let tm = seq![Member { key: "type"@, value: nn[k] }];
                            assert(items[k] == Json::Object(tm));
                            assert(tm[0].key == "type"@);
                        }
                        assert(q(Member { key: "anyOf"@, value: Json::Array(items) }));
                        lemma_without_key_all(m1, "type"@, q);
                        lemma_put(without_key(m1, "type"@), "anyOf"@, Json::Array(items), q);
                    }
                },
                _ => {},
            }
            assert forall|i: int| 0 <= i < c.len() implies ((#[trigger] c[i]).key == "anyOf"@ || !removed_keyword(c[i].key))
                && member_free_but_any_of(c[i]) by {
                assert(q(c[i]));
            }
        },
        _ => {},
    }
}

proof fn lemma_clean_member_free_but_any_of(m: Member)
    ensures
        clean_member(m).key == m.key,
        m.key != "anyOf"@ ==> member_free_but_any_of(clean_member(m)),
    decreases m,
{
    lemma_key_names_differ();
    if m.key == "properties"@ {
        match m.value {
            Json::Object(ps) => {
                let cp = clean_properties(ps);
                assert forall|k: int| 0 <= k < ps.len() implies keyword_free_but_any_of(#[trigger] cp[k].value) by {
                    lemma_clean_free_but_any_of(ps[k].value);
                }
            },
            _ => {},
        }
    } else if m.key == "items"@ {
        match m.value {
            Json::Object(_) => {
                lemma_clean_free_but_any_of(m.value);
            },
            Json::Array(xs) => {
                let cx = clean_all(xs);
                assert forall|k: int| 0 <= k < xs.len() implies keyword_free_but_any_of(#[trigger] cx[k]) by {
                    lemma_clean_free_but_any_of(xs[k]);
                }
            },
            _ => {},
        }
    }
}

/// After cleaning, no removed keyword is left in the schema nor in the
/// schemas under its `properties`, `items` and `anyOf`, apart from the `anyOf`
/// that a type list of several types becomes.
pub proof fn lemma_cleaned_schema_keeps_only_coerced_any_of(s: Json)
    ensures
        keyword_free_but_any_of(clean(s)),
{
    lemma_clean_free_but_any_of(s);
}

} // verus!
