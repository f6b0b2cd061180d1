//! The JSON form of canonical content blocks.
use vstd::prelude::*;

use crate::claude::{CacheControlEphemeral, ContentBlock, DocumentSource, ImageSource};
use crate::json::{lemma_object_view, member_views, Json, JsonMember, JsonValue, Member};

verus! {

broadcast use vstd::std_specs::vec::group_vec_axioms;

/// The member `k: v`, or nothing where `v` is absent.
pub open spec fn opt_member(k: Seq<char>, v: Option<Json>) -> Seq<Member> {
    match v {
        Some(j) => seq![Member { key: k, value: j }],
        None => seq![],
    }
}

/// The JSON of an optional text.
pub open spec fn opt_text(s: Option<String>) -> Option<Json> {
    match s {
        Some(t) => Some(Json::Str(t@)),
        None => None,
    }
}

/// The JSON of a cache breakpoint.
pub open spec fn cache_json(c: Option<CacheControlEphemeral>) -> Option<Json> {
    match c {
        Some(c) => Some(
            Json::Object(
                seq![Member { key: "type"@, value: Json::Str("ephemeral"@) }] + opt_member("ttl"@, opt_text(c.ttl)),
            ),
        ),
        None => None,
    }
}

/// The JSON of an image source.
pub open spec fn image_source_json(s: ImageSource) -> Json {
    Json::Object(
        seq![
            Member { key: "type"@, value: Json::Str(s.type_@) },
            Member { key: "media_type"@, value: Json::Str(s.media_type@) },
            Member { key: "data"@, value: Json::Str(s.data@) },
        ],
    )
}

/// The JSON of a document source.
pub open spec fn document_source_json(s: DocumentSource) -> Json {
    Json::Object(
        seq![Member { key: "type"@, value: Json::Str(s.type_@) }] + opt_member("media_type"@, opt_text(s.media_type))
            + opt_member("data"@, opt_text(s.data)) + opt_member("url"@, opt_text(s.url)),
    )
}

/// The members of a value that is flattened into a block: those of an object,
/// none otherwise.
pub open spec fn flattened(v: Json) -> Seq<Member> {
    match v {
        Json::Object(ms) => ms,
        _ => seq![],
    }
}

/// The JSON of a content block: `type` first, then its fields in order,
/// absent optional fields left out.
pub open spec fn block_json(b: ContentBlock) -> Json {
    Json::Object(
        match b {
            ContentBlock::Text { text, cache_control } => seq![
                Member { key: "type"@, value: Json::Str("text"@) },
                Member { key: "text"@, value: Json::Str(text@) },
            ] + opt_member("cache_control"@, cache_json(cache_control)),
            ContentBlock::Image { source, cache_control } => seq![
                Member { key: "type"@, value: Json::Str("image"@) },
                Member { key: "source"@, value: image_source_json(source) },
            ] + opt_member("cache_control"@, cache_json(cache_control)),
            ContentBlock::ImageUrl { image_url } => seq![
                Member { key: "type"@, value: Json::Str("image_url"@) },
                Member {
                    key: "image_url"@,
                    value: Json::Object(seq![Member { key: "url"@, value: Json::Str(image_url.url@) }]),
                },
            ],
            ContentBlock::Document { source, cache_control } => seq![
                Member { key: "type"@, value: Json::Str("document"@) },
                Member { key: "source"@, value: document_source_json(source) },
            ] + opt_member("cache_control"@, cache_json(cache_control)),
            ContentBlock::ToolUse { id, name, input, signature, cache_control } => seq![
                Member { key: "type"@, value: Json::Str("tool_use"@) },
                Member { key: "id"@, value: Json::Str(id@) },
                Member { key: "name"@, value: Json::Str(name@) },
                Member { key: "input"@, value: input@ },
            ] + opt_member("signature"@, opt_text(signature)) + opt_member("cache_control"@, cache_json(cache_control)),
            ContentBlock::ToolResult { tool_use_id, content, is_error, cache_control } => seq![
                Member { key: "type"@, value: Json::Str("tool_result"@) },
                Member { key: "tool_use_id"@, value: Json::Str(tool_use_id@) },
                Member { key: "content"@, value: content@ },
            ] + opt_member(
                "is_error"@,
                match is_error {
                    Some(e) => Some(Json::Bool(e)),
                    None => None,
                },
            ) + opt_member("cache_control"@, cache_json(cache_control)),
            ContentBlock::Thinking { thinking, signature, cache_control } => seq![
                Member { key: "type"@, value: Json::Str("thinking"@) },
                Member { key: "thinking"@, value: Json::Str(thinking@) },
            ] + opt_member("signature"@, opt_text(signature)) + opt_member("cache_control"@, cache_json(cache_control)),
            ContentBlock::RedactedThinking { data } => seq![
                Member { key: "type"@, value: Json::Str("redacted_thinking"@) },
                Member { key: "data"@, value: Json::Str(data@) },
            ],
            ContentBlock::SearchResult { data } => seq![
                Member { key: "type"@, value: Json::Str("search_result"@) },
            ] + flattened(data@),
            ContentBlock::ServerToolUse { data } => seq![
                Member { key: "type"@, value: Json::Str("server_tool_use"@) },
            ] + flattened(data@),
            ContentBlock::WebSearchToolResult { data } => seq![
                Member { key: "type"@, value: Json::Str("web_search_tool_result"@) },
            ] + flattened(data@),
        },
    )
}

fn push_opt_text(ms: &mut Vec<JsonMember>, key: &str, v: &Option<String>)
    ensures
        member_views(final(ms)@) == member_views(old(ms)@) + opt_member(key@, opt_text(*v)),
{
    let ghost before = member_views(ms@);
    match v {
        Some(t) => {
            ms.push(JsonMember::new(key, JsonValue::Str(t.clone())));
            assert(member_views(ms@) =~= before + opt_member(key@, opt_text(*v)));
        },
        None => {
            assert(member_views(ms@) =~= before + opt_member(key@, opt_text(*v)));
        },
    }
}

fn cache_value(c: &CacheControlEphemeral) -> (r: JsonValue)
    ensures
        Some(r@) == cache_json(Some(*c)),
{
    let mut ms = vec![JsonMember::new("type", JsonValue::string("ephemeral"))];
    assert(member_views(ms@) =~= seq![Member { key: "type"@, value: Json::Str("ephemeral"@) }]);
    push_opt_text(&mut ms, "ttl", &c.ttl);
    JsonValue::object(ms)
}

fn push_cache(ms: &mut Vec<JsonMember>, c: &Option<CacheControlEphemeral>)
    ensures
        member_views(final(ms)@) == member_views(old(ms)@) + opt_member("cache_control"@, cache_json(*c)),
{
    let ghost before = member_views(ms@);
    match c {
        Some(cc) => {
            ms.push(JsonMember::new("cache_control", cache_value(cc)));
        },
        None => {},
    }
    assert(member_views(ms@) =~= before + opt_member("cache_control"@, cache_json(*c)));
}

fn push_flattened(ms: &mut Vec<JsonMember>, data: &JsonValue)
    ensures
        member_views(final(ms)@) == member_views(old(ms)@) + flattened(data@),
{
    let ghost before = member_views(ms@);
    match data {
        JsonValue::Object(dms) => {
            proof {
                lemma_object_view(*dms);
            }
            let mut i: usize = 0;
            while i < dms.len()
                invariant
                    i <= dms.len(),
                    member_views(ms@) == before + member_views(dms@).take(i as int),
                decreases dms.len() - i,
            {
                let ghost prev = member_views(ms@);
                ms.push(dms[i].deep_copy());
                assert(member_views(ms@) =~= prev.push(member_views(dms@)[i as int]));
                i += 1;
                assert(member_views(ms@) =~= before + member_views(dms@).take(i as int));
            }
            assert(member_views(dms@).take(dms.len() as int) =~= member_views(dms@));
        },
        _ => {
            assert(member_views(ms@) =~= before + flattened(data@));
        },
    }
}

fn start_members(kind: &str) -> (r: Vec<JsonMember>)
    ensures
        member_views(r@) == seq![Member { key: "type"@, value: Json::Str(kind@) }],
{
    let ms = vec![JsonMember::new("type", JsonValue::string(kind))];
    assert(member_views(ms@) =~= seq![Member { key: "type"@, value: Json::Str(kind@) }]);
    ms
}

fn push_text(ms: &mut Vec<JsonMember>, key: &str, v: &String)
    ensures
        member_views(final(ms)@) == member_views(old(ms)@).push(Member { key: key@, value: Json::Str(v@) }),
{
    let ghost before = member_views(ms@);
    ms.push(JsonMember::new(key, JsonValue::Str(v.clone())));
    assert(member_views(ms@) =~= before.push(Member { key: key@, value: Json::Str(v@) }));
}

fn push_value(ms: &mut Vec<JsonMember>, key: &str, v: JsonValue)
    ensures
        member_views(final(ms)@) == member_views(old(ms)@).push(Member { key: key@, value: v@ }),
{
    let ghost before = member_views(ms@);
    let ghost vv = v@;
    ms.push(JsonMember::new(key, v));
    assert(member_views(ms@) =~= before.push(Member { key: key@, value: vv }));
}

/// The JSON of a content block: see [`block_json`].
pub fn block_value(b: &ContentBlock) -> (r: JsonValue)
    ensures
        r@ == block_json(*b),
{
    let ms = match b {
        ContentBlock::Text { text, cache_control } => {
            let mut ms = start_members("text");
            push_text(&mut ms, "text", text);
            push_cache(&mut ms, cache_control);
            ms
        },
        ContentBlock::Image { source, cache_control } => {
            let mut ms = start_members("image");
            let mut src = vec![JsonMember::new("type", JsonValue::Str(source.type_.clone()))];
            assert(member_views(src@) =~= seq![Member { key: "type"@, value: Json::Str(source.type_@) }]);
            push_text(&mut src, "media_type", &source.media_type);
            push_text(&mut src, "data", &source.data);
            assert(member_views(src@) =~= image_source_json(*source)->Object_0);
            push_value(&mut ms, "source", JsonValue::object(src));
            push_cache(&mut ms, cache_control);
            ms
        },
        ContentBlock::ImageUrl { image_url } => {
            let mut ms = start_members("image_url");
            let mut u: Vec<JsonMember> = Vec::new();
            assert(member_views(u@) =~= Seq::<Member>::empty());
            push_text(&mut u, "url", &image_url.url);
            assert(member_views(u@) =~= seq![Member { key: "url"@, value: Json::Str(image_url.url@) }]);
            push_value(&mut ms, "image_url", JsonValue::object(u));
            ms
        },
        ContentBlock::Document { source, cache_control } => {
            let mut ms = start_members("document");
            let mut src = vec![JsonMember::new("type", JsonValue::Str(source.type_.clone()))];
            assert(member_views(src@) =~= seq![Member { key: "type"@, value: Json::Str(source.type_@) }]);
            push_opt_text(&mut src, "media_type", &source.media_type);
            push_opt_text(&mut src, "data", &source.data);
            push_opt_text(&mut src, "url", &source.url);
            assert(member_views(src@) =~= document_source_json(*source)->Object_0);
            push_value(&mut ms, "source", JsonValue::object(src));
            push_cache(&mut ms, cache_control);
            ms
        },
        ContentBlock::ToolUse { id, name, input, signature, cache_control } => {
            let mut ms = start_members("tool_use");
            push_text(&mut ms, "id", id);
            push_text(&mut ms, "name", name);
            push_value(&mut ms, "input", input.deep_copy());
            push_opt_text(&mut ms, "signature", signature);
            push_cache(&mut ms, cache_control);
            ms
        },
        ContentBlock::ToolResult { tool_use_id, content, is_error, cache_control } => {
            let mut ms = start_members("tool_result");
            push_text(&mut ms, "tool_use_id", tool_use_id);
            push_value(&mut ms, "content", content.deep_copy());
            let ghost before = member_views(ms@);
            match is_error {
                Some(e) => push_value(&mut ms, "is_error", JsonValue::Bool(*e)),
                None => {},
            }
            assert(member_views(ms@) =~= before + opt_member(
                "is_error"@,
                match *is_error {
                    Some(e) => Some(Json::Bool(e)),
                    None => None,
                },
            ));
            push_cache(&mut ms, cache_control);
            ms
        },
        ContentBlock::Thinking { thinking, signature, cache_control } => {
            let mut ms = start_members("thinking");
            push_text(&mut ms, "thinking", thinking);
            push_opt_text(&mut ms, "signature", signature);
            push_cache(&mut ms, cache_control);
            ms
        },
        ContentBlock::RedactedThinking { data } => {
            let mut ms = start_members("redacted_thinking");
            push_text(&mut ms, "data", data);
            ms
        },
        ContentBlock::SearchResult { data } => {
            let mut ms = start_members("search_result");
            push_flattened(&mut ms, data);
            ms
        },
        ContentBlock::ServerToolUse { data } => {
            let mut ms = start_members("server_tool_use");
            push_flattened(&mut ms, data);
            ms
        },
        ContentBlock::WebSearchToolResult { data } => {
            let mut ms = start_members("web_search_tool_result");
            push_flattened(&mut ms, data);
            ms
        },
    };
    assert(member_views(ms@) =~= block_json(*b)->Object_0);
    JsonValue::object(ms)
}

} // verus!
