//! Canonical responses and streams rewritten for OpenAI-dialect clients.
use vstd::prelude::*;

use crate::claude::{ContentBlock, ContentBlockDelta, CreateMessageResponse, StopReason, StreamEvent, Usage};
use crate::json::{member_views, views, Json, JsonMember, JsonValue, Member};
use crate::json_text::{json_text, to_json_string};
use crate::param_remapper::{remap_function_call_args, remapped};
use crate::signature_store::{stored, SignatureStore};
use crate::text::{copy_str, decimal, decimal_text, push_str, text_of};
use crate::web_search::{
    annotation_of, cited_all, citations_to_annotations, extract_citations_from_search_result,
    extract_citations_from_tool_result, markdown, merge_citations_into_text,
    search_result_citations, tool_result_citations, Cited, Citation,
};

verus! {

broadcast use vstd::std_specs::vec::group_vec_axioms;

/// What a streamed OpenAI delta carries.
#[derive(Debug, Clone)]
pub enum EventContent {
    Content { content: String },
    Reasoning { reasoning_content: String },
    ToolCalls { tool_calls: Vec<ToolCallDelta> },
    Annotations { annotations: Vec<JsonValue> },
    ContentWithAnnotations { content: String, annotations: Vec<JsonValue> },
}

/// One tool call of a streamed delta.
#[derive(Debug, Clone, PartialEq, Eq)]
pub struct ToolCallDelta {
    pub index: usize,
    pub id: String,
    pub type_: String,
    pub function: ToolCallFunction,
}

/// The function of a streamed tool call.
#[derive(Debug, Clone, PartialEq, Eq)]
pub struct ToolCallFunction {
    pub name: String,
    pub arguments: String,
}

/// The JSON of a streamed tool call.
pub open spec fn tool_call_delta_json(d: ToolCallDelta) -> Json {
    Json::Object(
        seq![
            Member { key: "index"@, value: Json::Number(decimal(d.index as nat)) },
            Member { key: "id"@, value: Json::Str(d.id@) },
            Member { key: "type"@, value: Json::Str(d.type_@) },
            Member {
                key: "function"@,
                value: Json::Object(
                    seq![
                        Member { key: "name"@, value: Json::Str(d.function.name@) },
                        Member { key: "arguments"@, value: Json::Str(d.function.arguments@) },
                    ],
                ),
            },
        ],
    )
}

/// The JSON of the delta of an event.
pub open spec fn delta_json(c: EventContent) -> Json {
    match c {
        EventContent::Content { content } => Json::Object(
            seq![Member { key: "content"@, value: Json::Str(content@) }],
        ),
        EventContent::Reasoning { reasoning_content } => Json::Object(
            seq![Member { key: "reasoning_content"@, value: Json::Str(reasoning_content@) }],
        ),
        EventContent::ToolCalls { tool_calls } => Json::Object(
            seq![
                Member {
                    key: "tool_calls"@,
                    value: Json::Array(
                        Seq::new(tool_calls.len() as nat, |i: int| tool_call_delta_json(tool_calls@[i])),
                    ),
                },
            ],
        ),
        EventContent::Annotations { annotations } => Json::Object(
            seq![Member { key: "annotations"@, value: Json::Array(views(annotations@)) }],
        ),
        EventContent::ContentWithAnnotations { content, annotations } => Json::Object(
            seq![
                Member { key: "content"@, value: Json::Str(content@) },
                Member { key: "annotations"@, value: Json::Array(views(annotations@)) },
            ],
        ),
    }
}

/// The JSON of a streamed OpenAI event: `{"choices":[{"delta":…}]}`.
pub open spec fn event_json(c: EventContent) -> Json {
    Json::Object(
        seq![
            Member {
                key: "choices"@,
                value: Json::Array(
                    seq![Json::Object(seq![Member { key: "delta"@, value: delta_json(c) }])],
                ),
            },
        ],
    )
}

fn tool_call_delta_value(d: &ToolCallDelta) -> (r: JsonValue)
    ensures
        r@ == tool_call_delta_json(*d),
{
    let f = vec![
        JsonMember::new("name", JsonValue::Str(d.function.name.clone())),
        JsonMember::new("arguments", JsonValue::Str(d.function.arguments.clone())),
    ];
    let fv = JsonValue::object(f);
    assert(member_views(f@) =~= tool_call_delta_json(*d)->Object_0[3].value->Object_0);
    let ms = vec![
        JsonMember::new("index", JsonValue::Number(decimal_text(d.index as u64))),
        JsonMember::new("id", JsonValue::Str(d.id.clone())),
        JsonMember::new("type", JsonValue::Str(d.type_.clone())),
        JsonMember::new("function", fv),
    ];
    assert(member_views(ms@) =~= tool_call_delta_json(*d)->Object_0);
    JsonValue::object(ms)
}

fn copy_values(vs: &Vec<JsonValue>) -> (r: Vec<JsonValue>)
    ensures
        views(r@) == views(vs@),
{
    let mut out: Vec<JsonValue> = Vec::new();
    let mut i: usize = 0;
    while i < vs.len()
        invariant
            i <= vs.len(),
            out.len() == i,
            forall|j: int| 0 <= j < i ==> (#[trigger] out@[j])@ == vs@[j]@,
        decreases vs.len() - i,
    {
        out.push(vs[i].deep_copy());
        i += 1;
    }
    assert(views(out@) =~= views(vs@));
    out
}

fn delta_value(c: &EventContent) -> (r: JsonValue)
    ensures
        r@ == delta_json(*c),
{
    match c {
        EventContent::Content { content } => {
            let ms = vec![JsonMember::new("content", JsonValue::Str(content.clone()))];
            assert(member_views(ms@) =~= delta_json(*c)->Object_0);
            JsonValue::object(ms)
        },
        EventContent::Reasoning { reasoning_content } => {
            let ms = vec![JsonMember::new("reasoning_content", JsonValue::Str(reasoning_content.clone()))];
            assert(member_views(ms@) =~= delta_json(*c)->Object_0);
            JsonValue::object(ms)
        },
        EventContent::ToolCalls { tool_calls } => {
            let mut items: Vec<JsonValue> = Vec::new();
            let mut i: usize = 0;
            while i < tool_calls.len()
                invariant
                    i <= tool_calls.len(),
                    items.len() == i,
                    forall|j: int| 0 <= j < i ==> (#[trigger] items@[j])@ == tool_call_delta_json(tool_calls@[j]),
                decreases tool_calls.len() - i,
            {
                items.push(tool_call_delta_value(&tool_calls[i]));
                i += 1;
            }
            assert(views(items@) =~= Seq::new(tool_calls.len() as nat, |i: int| tool_call_delta_json(tool_calls@[i])));
            let arr = JsonValue::array(items);
            let ms = vec![JsonMember::new("tool_calls", arr)];
            assert(member_views(ms@) =~= delta_json(*c)->Object_0);
            JsonValue::object(ms)
        },
        EventContent::Annotations { annotations } => {
            let arr = JsonValue::array(copy_values(annotations));
            let ms = vec![JsonMember::new("annotations", arr)];
            assert(member_views(ms@) =~= delta_json(*c)->Object_0);
            JsonValue::object(ms)
        },
        EventContent::ContentWithAnnotations { content, annotations } => {
            let arr = JsonValue::array(copy_values(annotations));
            let ms = vec![
                JsonMember::new("content", JsonValue::Str(content.clone())),
                JsonMember::new("annotations", arr),
            ];
            assert(member_views(ms@) =~= delta_json(*c)->Object_0);
            JsonValue::object(ms)
        },
    }
}

/// The JSON of a streamed OpenAI event.
pub fn event_value(content: &EventContent) -> (r: JsonValue)
    ensures
        r@ == event_json(*content),
{
    let d = delta_value(content);
    let inner = vec![JsonMember::new("delta", d)];
    let choice = JsonValue::object(inner);
    assert(member_views(inner@) =~= seq![Member { key: "delta"@, value: delta_json(*content) }]);
    let arr_items = vec![choice];
    let arr = JsonValue::array(arr_items);
    assert(views(arr_items@) =~= seq![choice@]);
    let outer = vec![JsonMember::new("choices", arr)];
    assert(member_views(outer@) =~= event_json(*content)->Object_0);
    JsonValue::object(outer)
}

/// The data of the server-sent event for an OpenAI delta: the compact JSON of
/// `{"choices":[{"delta":…}]}`.
pub fn build_event(content: &EventContent) -> (r: String)
    ensures
        r@ == json_text(event_json(*content)),
{
    let v = event_value(content);
    to_json_string(&v)
}

} // verus!

verus! {

/// The concatenated texts of the text blocks.
pub open spec fn response_text(bs: Seq<ContentBlock>) -> Seq<char>
    decreases bs.len(),
{
    if bs.len() == 0 {
        seq![]
    } else {
        response_text(bs.drop_last()) + match bs.last() {
            ContentBlock::Text { text, .. } => text@,
            _ => seq![],
        }
    }
}

/// The OpenAI tool call of a tool-use block: its input renamed for its tool
/// and written as JSON text.
pub open spec fn tool_call_json(id: Seq<char>, name: Seq<char>, input: Json) -> Json {
    Json::Object(
        seq![
            Member { key: "id"@, value: Json::Str(id) },
            Member { key: "type"@, value: Json::Str("function"@) },
            Member {
                key: "function"@,
                value: Json::Object(
                    seq![
                        Member { key: "name"@, value: Json::Str(name) },
                        Member { key: "arguments"@, value: Json::Str(json_text(remapped(name, input))) },
                    ],
                ),
            },
        ],
    )
}

/// The OpenAI tool calls of the tool-use blocks, in order.
pub open spec fn response_tool_calls(bs: Seq<ContentBlock>) -> Seq<Json>
    decreases bs.len(),
{
    if bs.len() == 0 {
        seq![]
    } else {
        let rest = response_tool_calls(bs.drop_last());
        match bs.last() {
            ContentBlock::ToolUse { id, name, input, .. } => rest.push(tool_call_json(id@, name@, input@)),
            _ => rest,
        }
    }
}

/// The citations of the web search and search result blocks, in order.
pub open spec fn response_citations(bs: Seq<ContentBlock>) -> Seq<Cited>
    decreases bs.len(),
{
    if bs.len() == 0 {
        seq![]
    } else {
        response_citations(bs.drop_last()) + match bs.last() {
            ContentBlock::WebSearchToolResult { data } => tool_result_citations(data@),
            ContentBlock::SearchResult { data } => search_result_citations(data@),
            _ => seq![],
        }
    }
}

/// The signatures that tool-use and thinking blocks carry, in order.
pub open spec fn response_signatures(bs: Seq<ContentBlock>) -> Seq<Seq<char>>
    decreases bs.len(),
{
    if bs.len() == 0 {
        seq![]
    } else {
        let rest = response_signatures(bs.drop_last());
        match bs.last() {
            ContentBlock::ToolUse { signature: Some(s), .. } => rest.push(s@),
            ContentBlock::Thinking { signature: Some(s), .. } => rest.push(s@),
            _ => rest,
        }
    }
}

/// The slot after each signature is offered in turn.
pub open spec fn stored_all(slot: Option<Seq<char>>, sigs: Seq<Seq<char>>) -> Option<Seq<char>>
    decreases sigs.len(),
{
    if sigs.len() == 0 {
        slot
    } else {
        stored(stored_all(slot, sigs.drop_last()), sigs.last())
    }
}

/// The OpenAI finish reason of a stop reason.
pub open spec fn finish_reason(r: Option<StopReason>) -> Seq<char> {
    match r {
        Some(StopReason::EndTurn) => "stop"@,
        Some(StopReason::MaxTokens) => "length"@,
        Some(StopReason::StopSequence) => "stop"@,
        Some(StopReason::ToolUse) => "tool_calls"@,
        Some(StopReason::Refusal) => "content_filter"@,
        None => "stop"@,
    }
}

/// The OpenAI usage of token counts: prompt, completion and their sum.
pub open spec fn usage_json(u: Option<Usage>) -> Json {
    match u {
        Some(u) => Json::Object(
            seq![
                Member { key: "prompt_tokens"@, value: Json::Number(decimal(u.input_tokens as nat)) },
                Member { key: "completion_tokens"@, value: Json::Number(decimal(u.output_tokens as nat)) },
                Member {
                    key: "total_tokens"@,
                    value: Json::Number(decimal(u.input_tokens as nat + u.output_tokens as nat)),
                },
            ],
        ),
        None => Json::Null,
    }
}

/// The text content of the OpenAI message: the texts, then the Markdown
/// section of the citations.
pub open spec fn message_text(bs: Seq<ContentBlock>) -> Seq<char> {
    response_text(bs) + markdown(response_citations(bs), None)
}

/// The OpenAI message: `content` is null where there are tool calls and no
/// text, the text otherwise; `tool_calls` and `annotations` appear where
/// there are any.
pub open spec fn message_json(bs: Seq<ContentBlock>) -> Json {
    let text = message_text(bs);
    let calls = response_tool_calls(bs);
    let cites = response_citations(bs);
    Json::Object(
        seq![
            Member { key: "role"@, value: Json::Str("assistant"@) },
            Member {
                key: "content"@,
                value: if text.len() == 0 && calls.len() > 0 {
                    Json::Null
                } else {
                    Json::Str(text)
                },
            },
        ] + (if calls.len() > 0 {
            seq![Member { key: "tool_calls"@, value: Json::Array(calls) }]
        } else {
            seq![]
        }) + (if cites.len() > 0 {
            seq![
                Member {
                    key: "annotations"@,
                    value: Json::Array(Seq::new(cites.len(), |i: int| annotation_of(cites[i]))),
                },
            ]
        } else {
            seq![]
        }),
    )
}

/// The OpenAI `chat.completion` of a canonical response created at `created`.
pub open spec fn completion_json(input: CreateMessageResponse, created: u64) -> Json {
    Json::Object(
        seq![
            Member { key: "id"@, value: Json::Str(input.id@) },
            Member { key: "object"@, value: Json::Str("chat.completion"@) },
            Member { key: "created"@, value: Json::Number(decimal(created as nat)) },
            Member { key: "model"@, value: Json::Str(input.model@) },
            Member {
                key: "choices"@,
                value: Json::Array(
                    seq![
                        Json::Object(
                            seq![
                                Member { key: "index"@, value: Json::Number(decimal(0)) },
                                Member { key: "message"@, value: message_json(input.content@) },
                                Member {
                                    key: "finish_reason"@,
                                    value: Json::Str(finish_reason(input.stop_reason)),
                                },
                            ],
                        ),
                    ],
                ),
            },
            Member { key: "usage"@, value: usage_json(input.usage) },
        ],
    )
}

fn tool_call_value(id: &String, name: &String, input: &JsonValue) -> (r: JsonValue)
    ensures
        r@ == tool_call_json(id@, name@, input@),
{
    let mut args = input.deep_copy();
    remap_function_call_args(name.as_str(), &mut args);
    let text = to_json_string(&args);
    let f = vec![
        JsonMember::new("name", JsonValue::Str(name.clone())),
        JsonMember::new("arguments", JsonValue::Str(text)),
    ];
    let fv = JsonValue::object(f);
    assert(member_views(f@) =~= tool_call_json(id@, name@, input@)->Object_0[2].value->Object_0);
    let ms = vec![
        JsonMember::new("id", JsonValue::Str(id.clone())),
        JsonMember::new("type", JsonValue::string("function")),
        JsonMember::new("function", fv),
    ];
    assert(member_views(ms@) =~= tool_call_json(id@, name@, input@)->Object_0);
    JsonValue::object(ms)
}

fn finish_reason_text(r: Option<StopReason>) -> (s: String)
    ensures
        s@ == finish_reason(r),
{
    let t = match r {
        Some(StopReason::EndTurn) => "stop",
        Some(StopReason::MaxTokens) => "length",
        Some(StopReason::StopSequence) => "stop",
        Some(StopReason::ToolUse) => "tool_calls",
        Some(StopReason::Refusal) => "content_filter",
        None => "stop",
    };
    copy_str(t)
}

fn usage_value(u: Option<Usage>) -> (r: JsonValue)
    ensures
        r@ == usage_json(u),
{
    match u {
        Some(u) => {
            let total: u64 = u.input_tokens as u64 + u.output_tokens as u64;
            let ms = vec![
                JsonMember::new("prompt_tokens", JsonValue::Number(decimal_text(u.input_tokens as u64))),
                JsonMember::new("completion_tokens", JsonValue::Number(decimal_text(u.output_tokens as u64))),
                JsonMember::new("total_tokens", JsonValue::Number(decimal_text(total))),
            ];
            assert(member_views(ms@) =~= usage_json(Some(u))->Object_0);
            JsonValue::object(ms)
        },
        None => JsonValue::Null,
    }
}

/// Rewrites a complete canonical response as an OpenAI `chat.completion`
/// created at `created` (seconds since the Unix epoch): texts are joined,
/// followed by the Markdown section of the citations; tool-use inputs are
/// renamed for their tools and written as JSON text; thinking is left out.
/// Every signature of a tool-use or thinking block is offered to the slot.
pub fn transforms_json(input: CreateMessageResponse, store: &mut SignatureStore, created: u64) -> (r: JsonValue)
    ensures
        r@ == completion_json(input, created),
        final(store)@ == stored_all(old(store)@, response_signatures(input.content@)),
{
    let ghost bs = input.content@;
    let mut text: Vec<char> = Vec::new();
    let mut calls: Vec<JsonValue> = Vec::new();
    let mut cites: Vec<Citation> = Vec::new();
    let ghost slot0 = store@;
    let mut i: usize = 0;
    while i < input.content.len()
        invariant
            bs == input.content@,
            i <= bs.len(),
            text@ == response_text(bs.take(i as int)),
            views(calls@) == response_tool_calls(bs.take(i as int)),
            cited_all(cites@) == response_citations(bs.take(i as int)),
            store@ == stored_all(slot0, response_signatures(bs.take(i as int))),
        decreases bs.len() - i,
    {
        assert(bs.take(i + 1).drop_last() =~= bs.take(i as int));
        assert(bs.take(i + 1).last() == bs[i as int]);
        let ghost calls0 = views(calls@);
        let ghost cites0 = cited_all(cites@);
        let ghost prev = response_signatures(bs.take(i as int));
        match &input.content[i] {
            ContentBlock::Text { text: t, .. } => {
                push_str(&mut text, t.as_str());
            },
            ContentBlock::ToolUse { id, name, input: args, signature, .. } => {
                match signature {
                    Some(sig) => {
                        store.store(sig.as_str());
                        assert(prev.push(sig@).drop_last() =~= prev);
                    },
                    None => {},
                }
                calls.push(tool_call_value(id, name, args));
                assert(views(calls@) =~= calls0.push(tool_call_json(id@, name@, args@)));
            },
            ContentBlock::Thinking { signature, .. } => {
                match signature {
                    Some(sig) => {
                        store.store(sig.as_str());
                        assert(prev.push(sig@).drop_last() =~= prev);
                    },
                    None => {},
                }
            },
            ContentBlock::WebSearchToolResult { data } => {
                let mut found = extract_citations_from_tool_result(data);
                let ghost f = found@;
                cites.append(&mut found);
                assert(cited_all(cites@) =~= cites0 + cited_all(f));
            },
            ContentBlock::SearchResult { data } => {
                let mut found = extract_citations_from_search_result(data);
                let ghost f = found@;
                cites.append(&mut found);
                assert(cited_all(cites@) =~= cites0 + cited_all(f));
            },
            _ => {},
        }
        proof {
            if !(bs[i as int] is ToolUse) {
                assert(views(calls@) =~= calls0);
            }
            if !(bs[i as int] is WebSearchToolResult) && !(bs[i as int] is SearchResult) {
                assert(cites0 + seq![] =~= cites0);
            }
            assert(text@ =~= response_text(bs.take(i + 1)));
        }
        i += 1;
    }
    assert(bs.take(bs.len() as int) =~= bs);
    let base = text_of(&text);
    let content = merge_citations_into_text(base.as_str(), cites.as_slice(), None);
    let ghost msg = message_json(bs);
    let mut message: Vec<JsonMember> = vec![JsonMember::new("role", JsonValue::string("assistant"))];
    let has_calls = calls.len() > 0;
    let has_cites = cites.len() > 0;
    if content.as_str().is_empty() && has_calls {
        message.push(JsonMember::new("content", JsonValue::Null));
    } else {
        message.push(JsonMember::new("content", JsonValue::Str(content)));
    }
    let ghost head = member_views(message@);
    if has_calls {
        message.push(JsonMember::new("tool_calls", JsonValue::array(calls)));
    }
    let ghost mid = member_views(message@);
    if has_cites {
        let anns = citations_to_annotations(cites.as_slice());
        let arr = JsonValue::array(anns);
        assert(views(anns@) =~= Seq::new(
            response_citations(bs).len(),
            |k: int| annotation_of(response_citations(bs)[k]),
        ));
        message.push(JsonMember::new("annotations", arr));
    }
    assert(member_views(message@) =~= msg->Object_0);
    let message_v = JsonValue::object(message);
    let choice_ms = vec![
        JsonMember::new("index", JsonValue::Number(decimal_text(0))),
        JsonMember::new("message", message_v),
        JsonMember::new("finish_reason", JsonValue::Str(finish_reason_text(input.stop_reason))),
    ];
    let choice = JsonValue::object(choice_ms);
    assert(member_views(choice_ms@) =~= completion_json(input, created)->Object_0[4].value->Array_0[0]->Object_0);
    let choices_items = vec![choice];
    let choices = JsonValue::array(choices_items);
    assert(views(choices_items@) =~= completion_json(input, created)->Object_0[4].value->Array_0);
    let out = vec![
        JsonMember::new("id", JsonValue::Str(input.id.clone())),
        JsonMember::new("object", JsonValue::string("chat.completion")),
        JsonMember::new("created", JsonValue::Number(decimal_text(created))),
        JsonMember::new("model", JsonValue::Str(input.model.clone())),
        JsonMember::new("choices", choices),
        JsonMember::new("usage", usage_value(input.usage)),
    ];
    assert(member_views(out@) =~= completion_json(input, created)->Object_0);
    JsonValue::object(out)
}

/// With tool calls, the OpenAI message has `content` null exactly where the
/// accumulated text is empty, and the text otherwise.
pub proof fn lemma_content_null_iff_empty(bs: Seq<ContentBlock>)
    requires
        response_tool_calls(bs).len() > 0,
    ensures
        message_json(bs)->Object_0[1].value == (if message_text(bs).len() == 0 {
            Json::Null
        } else {
            Json::Str(message_text(bs))
        }),
{
}

} // verus!

verus! {

/// A tool call whose arguments are still arriving.
#[derive(Debug, Clone, PartialEq, Eq)]
pub struct ToolCallState {
    pub block_index: usize,
    pub id: String,
    pub name: String,
    pub arguments: String,
}

/// Citations held until the block that they came with closes.
#[derive(Debug, Clone)]
pub struct WebSearchState {
    pub block_index: usize,
    pub citations: Vec<Citation>,
    pub tool_use_id: String,
}

/// A tool call whose block has closed; its arguments still have to be parsed.
#[derive(Debug, Clone, PartialEq, Eq)]
pub struct FinishedToolCall {
    /// The position of this call among the tool calls of the stream.
    pub index: usize,
    pub id: String,
    pub name: String,
    pub arguments: String,
}

/// What one canonical event turns into.
#[derive(Debug, Clone)]
pub enum StreamOutput {
    Nothing,
    Event(EventContent),
    ToolCall(FinishedToolCall),
}

/// The per-stream state of the rewriting of a canonical event stream: tool
/// calls and citations by block index, and the number of tool calls emitted.
pub struct StreamTransducer {
    pub tool_calls: Vec<ToolCallState>,
    pub web_searches: Vec<WebSearchState>,
    pub next_tool_index: usize,
    /// The indexes of the tool calls emitted so far, in order.
    pub emitted: Ghost<Seq<usize>>,
}

/// The position of the first buffered tool call of block `idx`.
pub open spec fn tool_pos(s: Seq<ToolCallState>, idx: usize) -> Option<int> {
    if exists|i: int| 0 <= i < s.len() && s[i].block_index == idx {
        Some(choose|i: int| 0 <= i < s.len() && s[i].block_index == idx && forall|j: int| 0 <= j < i ==> s[j].block_index != idx)
    } else {
        None
    }
}

/// The position of the first buffered citation list of block `idx`.
pub open spec fn search_pos(s: Seq<WebSearchState>, idx: usize) -> Option<int> {
    if exists|i: int| 0 <= i < s.len() && s[i].block_index == idx {
        Some(choose|i: int| 0 <= i < s.len() && s[i].block_index == idx && forall|j: int| 0 <= j < i ==> s[j].block_index != idx)
    } else {
        None
    }
}

/// The buffered tool calls that do not belong to block `idx`.
pub open spec fn tools_without(s: Seq<ToolCallState>, idx: usize) -> Seq<ToolCallState>
    decreases s.len(),
{
    if s.len() == 0 {
        s
    } else if s.last().block_index == idx {
        tools_without(s.drop_last(), idx)
    } else {
        tools_without(s.drop_last(), idx).push(s.last())
    }
}

/// The buffered citation lists that do not belong to block `idx`.
pub open spec fn searches_without(s: Seq<WebSearchState>, idx: usize) -> Seq<WebSearchState>
    decreases s.len(),
{
    if s.len() == 0 {
        s
    } else if s.last().block_index == idx {
        searches_without(s.drop_last(), idx)
    } else {
        searches_without(s.drop_last(), idx).push(s.last())
    }
}

fn copy_tool(t: &ToolCallState) -> (r: ToolCallState)
    ensures
        r == *t,
{
    ToolCallState { block_index: t.block_index, id: t.id.clone(), name: t.name.clone(), arguments: t.arguments.clone() }
}

fn find_tool(s: &Vec<ToolCallState>, idx: usize) -> (r: Option<usize>)
    ensures
        r matches Some(p) ==> tool_pos(s@, idx) == Some(p as int) && p < s.len(),
        r is None ==> tool_pos(s@, idx) is None,
{
    let mut i: usize = 0;
    while i < s.len()
        invariant
            i <= s.len(),
            forall|j: int| 0 <= j < i ==> s@[j].block_index != idx,
        decreases s.len() - i,
    {
        if s[i].block_index == idx {
            let ghost w = choose|k: int|
                0 <= k < s@.len() && s@[k].block_index == idx && forall|j: int| 0 <= j < k ==> s@[j].block_index != idx;
            assert(w == i) by {
                if w < i {
                    assert(s@[w].block_index != idx);
                } else if w > i {
                    assert(s@[i as int].block_index != idx);
                }
            }
            return Some(i);
        }
        i += 1;
    }
    None
}

fn find_search(s: &Vec<WebSearchState>, idx: usize) -> (r: Option<usize>)
    ensures
        r matches Some(p) ==> search_pos(s@, idx) == Some(p as int) && p < s.len(),
        r is None ==> search_pos(s@, idx) is None,
{
    let mut i: usize = 0;
    while i < s.len()
        invariant
            i <= s.len(),
            forall|j: int| 0 <= j < i ==> s@[j].block_index != idx,
        decreases s.len() - i,
    {
        if s[i].block_index == idx {
            let ghost w = choose|k: int|
                0 <= k < s@.len() && s@[k].block_index == idx && forall|j: int| 0 <= j < k ==> s@[j].block_index != idx;
            assert(w == i) by {
                if w < i {
                    assert(s@[w].block_index != idx);
                } else if w > i {
                    assert(s@[i as int].block_index != idx);
                }
            }
            return Some(i);
        }
        i += 1;
    }
    None
}

fn drop_tools(s: &mut Vec<ToolCallState>, idx: usize)
    ensures
        final(s)@ == tools_without(old(s)@, idx),
{
    let ghost all = s@;
    let mut rest: Vec<ToolCallState> = Vec::new();
    std::mem::swap(s, &mut rest);
    let n = rest.len();
    let mut i: usize = 0;
    while rest.len() > 0
        invariant
            all.len() == n,
            i <= n,
            rest@ == all.skip(i as int),
            s@ == tools_without(all.take(i as int), idx),
        decreases rest.len(),
    {
        assert(all.take(i + 1).drop_last() =~= all.take(i as int));
        assert(all.take(i + 1).last() == all[i as int]);
        let x = rest.remove(0);
        assert(rest@ =~= all.skip(i + 1));
        if x.block_index != idx {
            s.push(x);
        }
        i += 1;
    }
    assert(all.take(n as int) =~= all);
}

fn drop_searches(s: &mut Vec<WebSearchState>, idx: usize)
    ensures
        final(s)@ == searches_without(old(s)@, idx),
{
    let ghost all = s@;
    let mut rest: Vec<WebSearchState> = Vec::new();
    std::mem::swap(s, &mut rest);
    let n = rest.len();
    let mut i: usize = 0;
    while rest.len() > 0
        invariant
            all.len() == n,
            i <= n,
            rest@ == all.skip(i as int),
            s@ == searches_without(all.take(i as int), idx),
        decreases rest.len(),
    {
        assert(all.take(i + 1).drop_last() =~= all.take(i as int));
        assert(all.take(i + 1).last() == all[i as int]);
        let x = rest.remove(0);
        assert(rest@ =~= all.skip(i + 1));
        if x.block_index != idx {
            s.push(x);
        }
        i += 1;
    }
    assert(all.take(n as int) =~= all);
}

impl StreamTransducer {
    /// Whether the emitted indexes are 0, 1, 2, … up to the next one.
    pub open spec fn wf(&self) -> bool {
        &&& self.emitted@.len() == self.next_tool_index
        &&& forall|i: int| 0 <= i < self.emitted@.len() ==> self.emitted@[i] == i
    }

    /// A transducer at the start of a stream.
    pub fn new() -> (r: StreamTransducer)
        ensures
            r.wf(),
            r.next_tool_index == 0,
            r.tool_calls@.len() == 0,
            r.web_searches@.len() == 0,
    {
        StreamTransducer {
            tool_calls: Vec::new(),
            web_searches: Vec::new(),
            next_tool_index: 0,
            emitted: Ghost(Seq::empty()),
        }
    }

    /// Rewrites one canonical event. A tool-use block start is buffered; its
    /// argument fragments are appended; its stop hands the call out with the
    /// next tool-call index. A web search or search result block start buffers
    /// its citations, which its stop hands out as annotations where there are
    /// any. Text and thinking fragments become content and reasoning deltas;
    /// a signature fragment is offered to the slot; every other event gives
    /// nothing.
    pub fn on_event(&mut self, event: StreamEvent, store: &mut SignatureStore) -> (r: StreamOutput)
        requires
            old(self).wf(),
            old(self).next_tool_index < usize::MAX,
        ensures
            final(self).wf(),
            r matches StreamOutput::ToolCall(c) ==> c.index == old(self).next_tool_index
                && final(self).next_tool_index == old(self).next_tool_index + 1
                && final(self).emitted@ == old(self).emitted@.push(c.index),
            !(r is ToolCall) ==> final(self).next_tool_index == old(self).next_tool_index,
            match event {
                StreamEvent::ContentBlockStart { index, content_block: ContentBlock::ToolUse { id, name, .. } } => {
                    &&& r is Nothing
                    &&& final(self).tool_calls@ == tools_without(old(self).tool_calls@, index).push(
                        ToolCallState { block_index: index, id, name, arguments: final(self).tool_calls@.last().arguments },
                    )
                    &&& final(self).tool_calls@.last().arguments@ == Seq::<char>::empty()
                    &&& final(self).web_searches == old(self).web_searches
                    &&& *final(store) == *old(store)
                },
                StreamEvent::ContentBlockStart { index, content_block: ContentBlock::WebSearchToolResult { data } } => {
                    &&& r is Nothing
                    &&& final(self).tool_calls == old(self).tool_calls
                    &&& final(self).web_searches@.drop_last() == searches_without(old(self).web_searches@, index)
                    &&& final(self).web_searches@.last().block_index == index
                    &&& cited_all(final(self).web_searches@.last().citations@) == tool_result_citations(data@)
                    &&& final(self).web_searches@.last().tool_use_id@ == crate::web_search::text_or_empty(data@.get("tool_use_id"@))
                    &&& *final(store) == *old(store)
                },
                StreamEvent::ContentBlockStart { index, content_block: ContentBlock::SearchResult { data } } => {
                    &&& r is Nothing
                    &&& final(self).tool_calls == old(self).tool_calls
                    &&& final(self).web_searches@.drop_last() == searches_without(old(self).web_searches@, index)
                    &&& final(self).web_searches@.last().block_index == index
                    &&& cited_all(final(self).web_searches@.last().citations@) == search_result_citations(data@)
                    &&& final(self).web_searches@.last().tool_use_id@ == Seq::<char>::empty()
                    &&& *final(store) == *old(store)
                },
                StreamEvent::ContentBlockDelta { delta: ContentBlockDelta::TextDelta { text }, .. } => {
                    &&& r matches StreamOutput::Event(EventContent::Content { content }) && content == text
                    &&& final(self).tool_calls == old(self).tool_calls
                    &&& final(self).web_searches == old(self).web_searches
                    &&& *final(store) == *old(store)
                },
                StreamEvent::ContentBlockDelta { delta: ContentBlockDelta::ThinkingDelta { thinking }, .. } => {
                    &&& r matches StreamOutput::Event(EventContent::Reasoning { reasoning_content }) && reasoning_content == thinking
                    &&& final(self).tool_calls == old(self).tool_calls
                    &&& final(self).web_searches == old(self).web_searches
                    &&& *final(store) == *old(store)
                },
                StreamEvent::ContentBlockDelta { index, delta: ContentBlockDelta::InputJsonDelta { partial_json } } => {
                    &&& r is Nothing
                    &&& final(self).web_searches == old(self).web_searches
                    &&& final(self).tool_calls@.len() == old(self).tool_calls@.len()
                    &&& match tool_pos(old(self).tool_calls@, index) {
                        Some(p) => {
                            &&& final(self).tool_calls@[p].arguments@ == old(self).tool_calls@[p].arguments@ + partial_json@
                            &&& final(self).tool_calls@[p].block_index == old(self).tool_calls@[p].block_index
                            &&& final(self).tool_calls@[p].id == old(self).tool_calls@[p].id
                            &&& final(self).tool_calls@[p].name == old(self).tool_calls@[p].name
                            &&& forall|j: int| 0 <= j < final(self).tool_calls@.len() && j != p
                                ==> final(self).tool_calls@[j] == old(self).tool_calls@[j]
                        },
                        None => final(self).tool_calls == old(self).tool_calls,
                    }
                    &&& *final(store) == *old(store)
                },
                StreamEvent::ContentBlockDelta { delta: ContentBlockDelta::SignatureDelta { signature }, .. } => {
                    &&& r is Nothing
                    &&& final(self).tool_calls == old(self).tool_calls
                    &&& final(self).web_searches == old(self).web_searches
                    &&& final(store)@ == stored(old(store)@, signature@)
                },
                StreamEvent::ContentBlockStop { index } => {
                    &&& *final(store) == *old(store)
                    &&& match tool_pos(old(self).tool_calls@, index) {
                        Some(p) => {
                            let t = old(self).tool_calls@[p];
                            &&& r == StreamOutput::ToolCall(FinishedToolCall {
                                index: old(self).next_tool_index,
                                id: t.id,
                                name: t.name,
                                arguments: t.arguments,
                            })
                            &&& final(self).tool_calls@ == tools_without(old(self).tool_calls@, index)
                            &&& final(self).web_searches == old(self).web_searches
                        },
                        None => {
                            &&& final(self).tool_calls == old(self).tool_calls
                            &&& match search_pos(old(self).web_searches@, index) {
                                Some(p) => {
                                    let w = old(self).web_searches@[p];
                                    &&& final(self).web_searches@ == searches_without(old(self).web_searches@, index)
                                    &&& if w.citations.len() > 0 {
                                        r matches StreamOutput::Event(EventContent::Annotations { annotations })
                                            && annotations.len() == w.citations.len()
                                            && forall|i: int| 0 <= i < annotations.len()
                                                ==> (#[trigger] annotations@[i])@ == annotation_of(w.citations@[i]@)
                                    } else {
                                        r is Nothing
                                    }
                                },
                                None => r is Nothing,
                            }
                        },
                    }
                },
                _ => {
                    &&& r is Nothing
                    &&& final(self).tool_calls == old(self).tool_calls
                    &&& final(self).web_searches == old(self).web_searches
                    &&& *final(store) == *old(store)
                },
            },
    {
        match event {
            StreamEvent::ContentBlockStart { index, content_block } => {
                match content_block {
                    ContentBlock::ToolUse { id, name, .. } => {
                        drop_tools(&mut self.tool_calls, index);
                        self.tool_calls.push(ToolCallState { block_index: index, id, name, arguments: String::new() });
                    },
                    ContentBlock::WebSearchToolResult { data } => {
                        let tool_use_id = match data.get_str("tool_use_id") {
                            Some(t) => copy_str(t),
                            None => String::new(),
                        };
                        let citations = extract_citations_from_tool_result(&data);
                        drop_searches(&mut self.web_searches, index);
                        self.web_searches.push(WebSearchState { block_index: index, citations, tool_use_id });
                    },
                    ContentBlock::SearchResult { data } => {
                        let citations = extract_citations_from_search_result(&data);
                        drop_searches(&mut self.web_searches, index);
                        self.web_searches.push(WebSearchState { block_index: index, citations, tool_use_id: String::new() });
                    },
                    _ => {},
                }
                StreamOutput::Nothing
            },
            StreamEvent::ContentBlockDelta { index, delta } => {
                match delta {
                    ContentBlockDelta::TextDelta { text } => StreamOutput::Event(EventContent::Content { content: text }),
                    ContentBlockDelta::ThinkingDelta { thinking } => StreamOutput::Event(
                        EventContent::Reasoning { reasoning_content: thinking },
                    ),
                    ContentBlockDelta::InputJsonDelta { partial_json } => {
                        match find_tool(&self.tool_calls, index) {
                            Some(p) => {
                                let t = copy_tool(&self.tool_calls[p]);
                                let args = crate::text::concat(t.arguments.as_str(), partial_json.as_str());
                                let updated = ToolCallState { block_index: t.block_index, id: t.id, name: t.name, arguments: args };
                                self.tool_calls.set(p, updated);
                            },
                            None => {},
                        }
                        StreamOutput::Nothing
                    },
                    ContentBlockDelta::SignatureDelta { signature } => {
                        store.store(signature.as_str());
                        StreamOutput::Nothing
                    },
                }
            },
            StreamEvent::ContentBlockStop { index } => {
                match find_tool(&self.tool_calls, index) {
                    Some(p) => {
                        let t = copy_tool(&self.tool_calls[p]);
                        drop_tools(&mut self.tool_calls, index);
                        let emit = self.next_tool_index;
                        self.next_tool_index = emit + 1;
                        self.emitted = Ghost(self.emitted@.push(emit));
                        return StreamOutput::ToolCall(FinishedToolCall { index: emit, id: t.id, name: t.name, arguments: t.arguments });
                    },
                    None => {},
                }
                match find_search(&self.web_searches, index) {
                    Some(p) => {
                        let anns = citations_to_annotations(self.web_searches[p].citations.as_slice());
                        let has = self.web_searches[p].citations.len() > 0;
                        drop_searches(&mut self.web_searches, index);
                        if has {
                            StreamOutput::Event(EventContent::Annotations { annotations: anns })
                        } else {
                            StreamOutput::Nothing
                        }
                    },
                    None => StreamOutput::Nothing,
                }
            },
            _ => StreamOutput::Nothing,
        }
    }
}

/// The arguments of a finished tool call: what parsing its text gave, or an
/// empty object where that failed, renamed for its tool.
pub open spec fn finished_arguments(name: Seq<char>, parsed: Option<Json>) -> Json {
    remapped(
        name,
        match parsed {
            Some(v) => v,
            None => Json::Object(seq![]),
        },
    )
}

/// The OpenAI delta of a finished tool call, given what parsing its argument
/// text gave: the arguments, renamed for the tool, written as JSON text.
pub fn build_tool_call_event(call: &FinishedToolCall, parsed: Option<JsonValue>) -> (r: EventContent)
    ensures
        r matches EventContent::ToolCalls { tool_calls } && tool_calls.len() == 1 && tool_calls@[0].index
            == call.index && tool_calls@[0].id@ == call.id@ && tool_calls@[0].type_@ == "function"@
            && tool_calls@[0].function.name@ == call.name@ && tool_calls@[0].function.arguments@
            == json_text(finished_arguments(call.name@, match parsed {
            Some(v) => Some(v@),
            None => None,
        })),
{
    let mut args = match parsed {
        Some(v) => v,
        None => {
            let no_members: Vec<JsonMember> = Vec::new();
            assert(member_views(no_members@) =~= Seq::<Member>::empty());
            JsonValue::object(no_members)
        },
    };
    remap_function_call_args(call.name.as_str(), &mut args);
    let text = to_json_string(&args);
    let delta = ToolCallDelta {
        index: call.index,
        id: call.id.clone(),
        type_: copy_str("function"),
        function: ToolCallFunction { name: call.name.clone(), arguments: text },
    };
    EventContent::ToolCalls { tool_calls: vec![delta] }
}

/// A streamed tool-call delta carries its tool calls and no `content` member.
pub proof fn lemma_tool_call_delta_has_no_content(c: EventContent)
    requires
        c is ToolCalls,
    ensures
        delta_json(c)->Object_0.len() == 1,
        delta_json(c)->Object_0[0].key == "tool_calls"@,
{
}

/// The tool-call indexes that a stream emits start at 0 and strictly increase.
pub proof fn lemma_tool_call_indexes_increase(t: StreamTransducer, i: int, j: int)
    requires
        t.wf(),
        0 <= i < j < t.emitted@.len(),
    ensures
        t.emitted@[0] == 0,
        t.emitted@[i] < t.emitted@[j],
{
}

} // verus!

verus! {

/// Moves every value of `rest` to the end of `out`.
pub fn append_values(out: &mut Vec<JsonValue>, rest: &mut Vec<JsonValue>)
    ensures
        views(final(out)@) == views(old(out)@) + views(old(rest)@),
{
    let ghost a = views(out@);
    let ghost b = views(rest@);
    out.append(rest);
    assert(views(out@) =~= a + b);
}

} // verus!
