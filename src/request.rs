//! Normalization of incoming requests into the canonical form.
use vstd::prelude::*;

use crate::claude::{
    clean_cache_control_from_messages, ContentBlock, CreateMessageParams, Message, MessageContent,
    Role, Thinking, Usage,
};
use crate::image_converter::{blocks_processed, process_image_blocks};
use crate::json::{Json, JsonValue};
use crate::text::{copy_str, ends_with, has_substring, has_suffix, chars_of, slice_chars, text_of, trim_of, trimmed, contains};
use crate::thinking_utils::{
    blocks_of, has_valid_signature_for_function_calls, is_valid_thinking,
    kept_block, kept_blocks, needs_thinking_recovery, disable_for_history, recovery_needed,
    valid_signature, history_has_signature, should_disable_thinking_due_to_history,
    strip_invalid_thinking_blocks, stripped_of,
};

verus! {

broadcast use vstd::std_specs::vec::group_vec_axioms;

/// The errors that request handling reports.
#[derive(Debug, Clone, PartialEq, Eq)]
pub enum ClewdrError {
    /// The boundary guard refused the credentials.
    InvalidAuth,
    /// The body matched neither dialect.
    DeserializeError { msg: String },
    /// The request broke a rule found after parsing.
    BadRequest { msg: String },
    /// The request is the connection probe.
    TestMessage,
    /// Reading the body failed.
    InternalError { msg: String },
}

/// The dialect that a client speaks.
#[derive(Debug, Clone, Copy, PartialEq, Eq, Structural)]
pub enum ClaudeApiFormat {
    Claude,
    OpenAI,
}

/// What the web ingress hands on with a request.
#[derive(Debug, Clone)]
pub struct ClaudeWebContext {
    pub stream: bool,
    pub api_format: ClaudeApiFormat,
    pub stop_sequences: Vec<String>,
    pub usage: Usage,
}

/// What the code ingress hands on with a request.
#[derive(Debug, Clone)]
pub struct ClaudeCodeContext {
    pub stream: bool,
    pub api_format: ClaudeApiFormat,
    pub system_prompt_hash: Option<u64>,
    pub usage: Usage,
}

/// The context of a request, by ingress.
#[derive(Debug, Clone)]
pub enum ClaudeContext {
    Web(ClaudeWebContext),
    Code(ClaudeCodeContext),
}

/// A request of the web ingress with its context.
#[derive(Debug, Clone)]
pub struct ClaudeWebPreprocess(pub CreateMessageParams, pub ClaudeContext);

/// A request of the code ingress with its context.
#[derive(Debug, Clone)]
pub struct ClaudeCodePreprocess(pub CreateMessageParams, pub ClaudeContext);

/// The dialect of a request path: OpenAI where it holds `chat/completions`.
pub fn format_of_path(path: &str) -> (r: ClaudeApiFormat)
    ensures
        r == (if contains(path@, "chat/completions"@) {
            ClaudeApiFormat::OpenAI
        } else {
            ClaudeApiFormat::Claude
        }),
{
    if has_substring(path, "chat/completions") {
        ClaudeApiFormat::OpenAI
    } else {
        ClaudeApiFormat::Claude
    }
}

/// Whether `new` is the blocks `old` sanitized: each text trimmed and dropped
/// where it became empty, every other block kept.
pub open spec fn blocks_sanitized(old: Seq<ContentBlock>, new: Seq<ContentBlock>) -> bool
    decreases old.len(),
{
    if old.len() == 0 {
        new.len() == 0
    } else {
        match old.last() {
            ContentBlock::Text { text, .. } => if trim_of(text@).len() == 0 {
                blocks_sanitized(old.drop_last(), new)
            } else {
                &&& new.len() > 0
                &&& new.last() matches ContentBlock::Text { text: t, cache_control } && t@ == trim_of(text@) && cache_control is None
                &&& blocks_sanitized(old.drop_last(), new.drop_last())
            },
            other => {
                &&& new.len() > 0
                &&& new.last() == other
                &&& blocks_sanitized(old.drop_last(), new.drop_last())
            },
        }
    }
}

/// Whether a sanitized message is dropped: an assistant message left empty.
pub open spec fn sanitized_message(old: Message, new: Option<Message>) -> bool {
    match old.content {
        MessageContent::Text { content } => if old.role == Role::Assistant && trim_of(content@).len() == 0 {
            new is None
        } else {
            match new {
                Some(m) => m.role == old.role && match m.content {
                    MessageContent::Text { content: t } => t@ == trim_of(content@),
                    _ => false,
                },
                None => false,
            }
        },
        MessageContent::Blocks { content } => exists|bs: Seq<ContentBlock>| #[trigger] blocks_sanitized(content@, bs) && if old.role == Role::Assistant && bs.len() == 0 {
            new is None
        } else {
            match new {
                Some(m) => m.role == old.role && match m.content {
                    MessageContent::Blocks { content: c } => c@ == bs,
                    _ => false,
                },
                None => false,
            }
        },
    }
}

/// Whether `new` is the messages `old` sanitized, in order.
pub open spec fn messages_sanitized(old: Seq<Message>, new: Seq<Message>) -> bool
    decreases old.len(),
{
    if old.len() == 0 {
        new.len() == 0
    } else {
        ||| (sanitized_message(old.last(), None) && messages_sanitized(old.drop_last(), new))
        ||| (new.len() > 0 && sanitized_message(old.last(), Some(new.last())) && messages_sanitized(old.drop_last(), new.drop_last()))
    }
}

fn sanitize_blocks(blocks: Vec<ContentBlock>) -> (r: Vec<ContentBlock>)
    ensures
        blocks_sanitized(blocks@, r@),
{
    let ghost all = blocks@;
    let mut rest = blocks;
    let n = rest.len();
    let mut out: Vec<ContentBlock> = Vec::new();
    let mut i: usize = 0;
    while rest.len() > 0
        invariant
            all.len() == n,
            i <= n,
            rest@ == all.skip(i as int),
            blocks_sanitized(all.take(i as int), out@),
        decreases rest.len(),
    {
        assert(all.take(i + 1).drop_last() =~= all.take(i as int));
        assert(all.take(i + 1).last() == all[i as int]);
        let b = rest.remove(0);
        assert(rest@ =~= all.skip(i + 1));
        let ghost before = out@;
        match b {
            ContentBlock::Text { text, .. } => {
                let t = trimmed(text.as_str());
                if !t.as_str().is_empty() {
                    out.push(ContentBlock::Text { text: t, cache_control: None });
                    assert(out@.drop_last() =~= before);
                }
            },
            other => {
                out.push(other);
                assert(out@.drop_last() =~= before);
            },
        }
        i += 1;
    }
    assert(all.take(n as int) =~= all);
    out
}

/// Trims every text and text block, drops the text blocks that become empty,
/// and drops the assistant messages that are left empty.
pub fn sanitize_messages(msgs: Vec<Message>) -> (r: Vec<Message>)
    ensures
        messages_sanitized(msgs@, r@),
{
    let ghost all = msgs@;
    let mut rest = msgs;
    let n = rest.len();
    let mut out: Vec<Message> = Vec::new();
    let mut i: usize = 0;
    while rest.len() > 0
        invariant
            all.len() == n,
            i <= n,
            rest@ == all.skip(i as int),
            messages_sanitized(all.take(i as int), out@),
        decreases rest.len(),
    {
        assert(all.take(i + 1).drop_last() =~= all.take(i as int));
        assert(all.take(i + 1).last() == all[i as int]);
        let m = rest.remove(0);
        assert(rest@ =~= all.skip(i + 1));
        let ghost before = out@;
        let role = m.role;
        let ghost old_m = m;
        let kept: Option<Message> = match m.content {
            MessageContent::Text { content } => {
                let t = trimmed(content.as_str());
                if role == Role::Assistant && t.as_str().is_empty() {
                    None
                } else {
                    Some(Message { role, content: MessageContent::Text { content: t } })
                }
            },
            MessageContent::Blocks { content } => {
                let ghost cv = content@;
                let bs = sanitize_blocks(content);
                assert(blocks_sanitized(cv, bs@));
                if role == Role::Assistant && bs.len() == 0 {
                    None
                } else {
                    Some(Message { role, content: MessageContent::Blocks { content: bs } })
                }
            },
        };
        assert(sanitized_message(old_m, kept));
        match kept {
            Some(k) => {
                out.push(k);
                assert(out@.drop_last() =~= before);
            },
            None => {},
        }
        i += 1;
    }
    assert(all.take(n as int) =~= all);
    out
}

/// Whether `new` is message `old` with its image references converted, and
/// those that cannot be dropped.
pub open spec fn images_processed(old: Message, new: Message) -> bool {
    &&& new.role == old.role
    &&& match (old.content, new.content) {
        (MessageContent::Blocks { content: o }, MessageContent::Blocks { content: n }) => {
            blocks_processed(o@, n@)
        },
        (MessageContent::Text { content: o }, MessageContent::Text { content: n }) => n == o,
        _ => false,
    }
}

/// Converts the image references of every message with blocks, dropping
/// those that cannot be converted.
pub fn process_message_images(msgs: Vec<Message>) -> (r: Vec<Message>)
    ensures
        r.len() == msgs.len(),
        forall|i: int| 0 <= i < r.len() ==> images_processed(msgs@[i], #[trigger] r@[i]),
{
    let ghost all = msgs@;
    let mut rest = msgs;
    let n = rest.len();
    let mut out: Vec<Message> = Vec::new();
    let mut i: usize = 0;
    while rest.len() > 0
        invariant
            all.len() == n,
            i <= n,
            rest@ == all.skip(i as int),
            out.len() == i,
            forall|j: int| 0 <= j < i ==> images_processed(all[j], #[trigger] out@[j]),
        decreases rest.len(),
    {
        let m = rest.remove(0);
        assert(rest@ =~= all.skip(i + 1));
        let role = m.role;
        let content = match m.content {
            MessageContent::Blocks { content } => MessageContent::Blocks { content: process_image_blocks(content) },
            other => other,
        };
        out.push(Message { role, content });
        i += 1;
    }
    out
}

/// The canonical probe: one user message whose only content is `Hi`, as one
/// text or as one text block without a cache breakpoint.
pub open spec fn is_probe(msgs: Seq<Message>) -> bool {
    &&& msgs.len() == 1
    &&& msgs[0].role == Role::User
    &&& match msgs[0].content {
        MessageContent::Text { content } => content@ == "Hi"@,
        MessageContent::Blocks { content } => content.len() == 1 && match content@[0] {
            ContentBlock::Text { text, cache_control } => text@ == "Hi"@ && cache_control is None,
            _ => false,
        },
    }
}

/// Whether a request is the connection probe: not streamed, and its messages
/// are the canonical probe.
pub fn is_test_message(body: &CreateMessageParams) -> (r: bool)
    ensures
        r == (!(body.stream == Some(true)) && is_probe(body.messages@)),
{
    let streamed = match body.stream {
        Some(s) => s,
        None => false,
    };
    if streamed || body.messages.len() != 1 || body.messages[0].role != Role::User {
        return false;
    }
    match &body.messages[0].content {
        MessageContent::Text { content } => crate::text::same_text(content.as_str(), "Hi"),
        MessageContent::Blocks { content } => {
            if content.len() != 1 {
                return false;
            }
            match &content[0] {
                ContentBlock::Text { text, cache_control } => crate::text::same_text(text.as_str(), "Hi") && cache_control.is_none(),
                _ => false,
            }
        },
    }
}

/// What normalization found besides the request itself.
#[derive(Debug, Clone, Copy, PartialEq, Eq, Structural)]
pub struct NormalizeReport {
    /// Thinking was dropped because of the history.
    pub thinking_disabled: bool,
    /// Thinking needs recovering and no valid signature is at hand.
    pub recovery_without_signature: bool,
}

proof fn lemma_strip_keeps_clean(new: Message, old: Message)
    requires
        stripped_of(new, old),
        !old.has_cache_control(),
    ensures
        !new.has_cache_control(),
{
    if old.role == Role::Assistant && old.content is Blocks {
        lemma_kept_subset(blocks_of(old));
        if new.has_cache_control() {
            let i = choose|i: int| 0 <= i < blocks_of(new).len() && (#[trigger] blocks_of(new)[i]).has_cache_control();
            let j = choose|j: int| 0 <= j < blocks_of(old).len() && blocks_of(old)[j] == kept_blocks(blocks_of(old))[i];
            assert(blocks_of(old)[j].has_cache_control());
        }
    }
}

proof fn lemma_kept_subset(bs: Seq<ContentBlock>)
    ensures
        forall|i: int| 0 <= i < kept_blocks(bs).len() ==> exists|j: int| 0 <= j < bs.len() && bs[j] == #[trigger] kept_blocks(bs)[i],
    decreases bs.len(),
{
    if bs.len() > 0 {
        let rest = bs.drop_last();
        lemma_kept_subset(rest);
        let k = kept_blocks(bs);
        assert forall|i: int| 0 <= i < k.len() implies exists|j: int| 0 <= j < bs.len() && bs[j] == #[trigger] k[i] by {
            if kept_block(bs.last()) && i == k.len() - 1 {
                assert(bs[bs.len() - 1] == k[i]);
            } else {
                assert(k[i] == kept_blocks(rest)[i]);
                let j = choose|j: int| 0 <= j < rest.len() && rest[j] == kept_blocks(rest)[i];
                assert(bs[j] == rest[j]);
            }
        }
    }
}

/// Whether `new` is `old` with each message's image references converted.
pub open spec fn all_images_processed(old: Seq<Message>, new: Seq<Message>) -> bool {
    new.len() == old.len() && forall|i: int| 0 <= i < new.len() ==> images_processed(old[i], #[trigger] new[i])
}

/// Whether `new` is `old` with every cache-control marker removed.
pub open spec fn all_cleared(old: Seq<Message>, new: Seq<Message>) -> bool {
    new.len() == old.len() && forall|i: int| 0 <= i < new.len() ==> Message::is_cleared_of(#[trigger] new[i], old[i])
}

/// Whether `new` is `old` with invalid thinking stripped.
pub open spec fn all_stripped(old: Seq<Message>, new: Seq<Message>) -> bool {
    new.len() == old.len() && forall|i: int| 0 <= i < new.len() ==> stripped_of(#[trigger] new[i], old[i])
}

/// Whether `out` is what normalization makes of `msgs`: sanitized, image
/// references converted, cache-control markers removed, invalid thinking
/// stripped.
pub open spec fn messages_normalized(msgs: Seq<Message>, out: Seq<Message>) -> bool {
    exists|s1: Seq<Message>, s2: Seq<Message>, s3: Seq<Message>|
        #[trigger] messages_sanitized(msgs, s1) && #[trigger] all_images_processed(s1, s2) && #[trigger] all_cleared(s2, s3)
            && all_stripped(s3, out)
}

/// Normalizes a canonical request: sanitizes its messages, converts image
/// references, strips cache-control markers, reads a `-thinking` model
/// suffix (which turns thinking on with a budget of 4096 where the request
/// has none), strips thinking blocks without a valid signature, and drops
/// thinking where the last assistant turn used tools without valid thinking
/// (stripping keeps every tool use and every valid thinking block, so the
/// stripped history decides as the unstripped one would). The report says
/// whether thinking was dropped, and whether thinking is on, recovery is
/// needed and no valid signature is at hand. `global_sig` is the slot's signature, which decides whether a
/// needed recovery has a signature at hand.
pub fn normalize_request(body: CreateMessageParams, global_sig: &Option<String>) -> (r: (CreateMessageParams, NormalizeReport))
    ensures
        ({
            let out = r.0;
            &&& messages_normalized(body.messages@, out.messages@)
            &&& forall|i: int| 0 <= i < out.messages.len() ==> !(#[trigger] out.messages@[i]).has_cache_control()
            &&& forall|i: int, k: int|
                0 <= i < out.messages.len() && out.messages@[i].role == Role::Assistant && 0 <= k < blocks_of(out.messages@[i]).len()
                    && blocks_of(out.messages@[i])[k] is Thinking ==> is_valid_thinking(#[trigger] blocks_of(out.messages@[i])[k])
            &&& if ends_with(body.model@, "-thinking"@) {
                out.model@ == body.model@.take(body.model@.len() - 9)
            } else {
                out.model == body.model
            }
            &&& r.1.thinking_disabled == ((body.thinking is Some || ends_with(body.model@, "-thinking"@))
                && disable_for_history(out.messages@))
            &&& (r.1.thinking_disabled ==> out.thinking is None)
            &&& r.1.recovery_without_signature == (out.thinking is Some && recovery_needed(out.messages@)
                && !(valid_signature(*global_sig) || history_has_signature(out.messages@)))
            &&& (!r.1.thinking_disabled ==> (if ends_with(body.model@, "-thinking"@) {
                match body.thinking {
                    Some(t) => out.thinking == Some(t),
                    None => out.thinking matches Some(t) && t.budget_tokens == 4096 && t.type_@ == "enabled"@,
                }
            } else {
                out.thinking == body.thinking
            }))
            &&& out.system == body.system && out.tools == body.tools && out.stream == body.stream
            &&& out.max_tokens == body.max_tokens && out.stop_sequences == body.stop_sequences
        }),
{
    let mut body = body;
    let ghost m0 = body.messages@;
    let msgs = sanitize_messages(body.messages);
    let ghost s1 = msgs@;
    let mut msgs = process_message_images(msgs);
    let ghost s2 = msgs@;
    clean_cache_control_from_messages(&mut msgs);
    let ghost cleaned = msgs@;
    let mut model = body.model;
    let mut thinking = body.thinking;
    let ghost model0 = model;
    let ghost thinking0 = thinking;
    proof {
        reveal_strlit("-thinking");
    }
    if has_suffix(model.as_str(), "-thinking") {
        let cs = chars_of(model.as_str());
        let kept = slice_chars(&cs, 0, cs.len() - 9);
        model = text_of(&kept);
        if thinking.is_none() {
            thinking = Some(Thinking::new(4096));
        }
    }
    strip_invalid_thinking_blocks(&mut msgs);
    let mut disabled = false;
    if thinking.is_some() && should_disable_thinking_due_to_history(msgs.as_slice()) {
        thinking = None;
        disabled = true;
    }
    proof {
        assert(messages_sanitized(m0, s1) && all_images_processed(s1, s2) && all_cleared(s2, cleaned) && all_stripped(cleaned, msgs@));
        assert forall|i: int| 0 <= i < msgs.len() implies !(#[trigger] msgs@[i]).has_cache_control() by {
            lemma_strip_keeps_clean(msgs@[i], cleaned[i]);
        }
        assert forall|i: int, k: int|
            0 <= i < msgs.len() && msgs@[i].role == Role::Assistant && 0 <= k < blocks_of(msgs@[i]).len()
                && blocks_of(msgs@[i])[k] is Thinking implies is_valid_thinking(#[trigger] blocks_of(msgs@[i])[k]) by {
            crate::thinking_utils::lemma_stripped_thinking_is_valid(msgs@[i], cleaned[i], k);
        }
    }
    let recovery_without_signature = thinking.is_some() && needs_thinking_recovery(msgs.as_slice())
        && !has_valid_signature_for_function_calls(msgs.as_slice(), global_sig);
    body.messages = msgs;
    body.model = model;
    body.thinking = thinking;
    (body, NormalizeReport { thinking_disabled: disabled, recovery_without_signature })
}

} // verus!

verus! {

/// Checks the web ingress: a normalized request that is the probe fails with
/// `TestMessage`; any other gets its context, with the estimated input tokens.
pub fn web_preprocess(body: CreateMessageParams, format: ClaudeApiFormat) -> (r: Result<ClaudeWebPreprocess, ClewdrError>)
    ensures
        (r is Err) == (!(body.stream == Some(true)) && is_probe(body.messages@)),
        r matches Err(e) ==> e == ClewdrError::TestMessage,
        r matches Ok(p) ==> p.0 == body && match p.1 {
            ClaudeContext::Web(c) => {
                &&& c.stream == (body.stream == Some(true))
                &&& c.api_format == format
                &&& c.usage.output_tokens == 0
                &&& c.usage.input_tokens == crate::tokens::input_estimate(body)
                &&& c.stop_sequences@ == (match body.stop_sequences {
                    Some(s) => s@,
                    None => seq![],
                })
            },
            _ => false,
        },
{
    if is_test_message(&body) {
        return Err(ClewdrError::TestMessage);
    }
    let stream = match body.stream {
        Some(s) => s,
        None => false,
    };
    let input_tokens = body.count_tokens();
    let stop_sequences = match &body.stop_sequences {
        Some(s) => copy_texts(s),
        None => Vec::new(),
    };
    let info = ClaudeWebContext {
        stream,
        api_format: format,
        stop_sequences,
        usage: Usage { input_tokens, output_tokens: 0 },
    };
    Ok(ClaudeWebPreprocess(body, ClaudeContext::Web(info)))
}

fn copy_texts(v: &Vec<String>) -> (r: Vec<String>)
    ensures
        r@ == v@,
{
    let mut out: Vec<String> = Vec::new();
    let mut i: usize = 0;
    while i < v.len()
        invariant
            i <= v.len(),
            out@ == v@.take(i as int),
        decreases v.len() - i,
    {
        out.push(v[i].clone());
        i += 1;
        assert(out@ =~= v@.take(i as int));
    }
    assert(v@.take(v.len() as int) =~= v@);
    out
}

/// Whether a model forbids setting both temperature and top-p.
pub open spec fn exclusive_sampling(model: Seq<char>) -> bool {
    contains(model, "opus-4-1"@) || contains(model, "sonnet-4-5"@) || contains(model, "opus-4-5"@)
}

/// Whether a system item's `text` holds the marker.
pub open spec fn mentions_assistant(v: Json, marker: Seq<char>) -> bool {
    match v.get_str("text"@) {
        Some(t) => contains(t, marker),
        None => false,
    }
}

/// Whether some item's `text` holds the marker.
pub open spec fn any_mentions(items: Seq<Json>, marker: Seq<char>) -> bool {
    exists|i: int| 0 <= i < items.len() && mentions_assistant(#[trigger] items[i], marker)
}

/// Whether a system prompt already names the coding assistant: a string that
/// holds the marker, or a list with an item whose `text` holds it.
pub open spec fn names_assistant(system: Option<Json>, marker: Seq<char>) -> bool {
    match system {
        Some(Json::Str(s)) => contains(s, marker),
        Some(Json::Array(items)) => any_mentions(items, marker),
        _ => false,
    }
}

/// The JSON text block of a text.
pub open spec fn text_block_json(t: Seq<char>) -> Json {
    Json::Object(seq![
        crate::json::Member { key: "type"@, value: Json::Str("text"@) },
        crate::json::Member { key: "text"@, value: Json::Str(t) },
    ])
}

/// The system prompt with the prelude put first: a string becomes the list of
/// the prelude and itself, a list gets the prelude in front, anything else
/// becomes the prelude alone.
pub open spec fn with_prelude(system: Option<Json>, prelude: Seq<char>) -> Json {
    match system {
        Some(Json::Str(s)) => Json::Array(seq![text_block_json(prelude), text_block_json(s)]),
        Some(Json::Array(items)) => Json::Array(seq![text_block_json(prelude)] + items),
        _ => Json::Array(seq![text_block_json(prelude)]),
    }
}

/// Whether a system item carries a cache breakpoint object.
pub open spec fn cached_item(v: Json) -> bool {
    v.get("cache_control"@) matches Some(Json::Object(_))
}

/// The system items that carry a cache breakpoint, in order.
pub open spec fn cached_items(items: Seq<Json>) -> Seq<Json>
    decreases items.len(),
{
    if items.len() == 0 {
        seq![]
    } else if cached_item(items.last()) {
        cached_items(items.drop_last()).push(items.last())
    } else {
        cached_items(items.drop_last())
    }
}

fn names_assistant_exec(system: &Option<JsonValue>, marker: &str) -> (r: bool)
    ensures
        r == names_assistant(match system {
            Some(v) => Some(v@),
            None => None,
        }, marker@),
{
    match system {
        Some(JsonValue::Str(s)) => has_substring(s.as_str(), marker),
        Some(JsonValue::Array(items)) => {
            proof {
                crate::json::lemma_array_view(*items);
            }
            let mut i: usize = 0;
            while i < items.len()
                invariant
                    *system == Some(JsonValue::Array(*items)),
                    JsonValue::Array(*items)@ == Json::Array(crate::json::views(items@)),
                    i <= items.len(),
                    forall|j: int| 0 <= j < i ==> !mentions_assistant(#[trigger] items@[j]@, marker@),
                decreases items.len() - i,
            {
                match items[i].get_str("text") {
                    Some(t) => {
                        if has_substring(t, marker) {
                            assert(crate::json::views(items@)[i as int] == items@[i as int]@);
                            assert(mentions_assistant(crate::json::views(items@)[i as int], marker@));
                            assert(system->0@ == Json::Array(crate::json::views(items@)));
                            assert(any_mentions(crate::json::views(items@), marker@));
                            return true;
                        }
                    },
                    None => {},
                }
                i += 1;
            }
            proof {
                assert forall|j: int| 0 <= j < items.len() implies !mentions_assistant(#[trigger] crate::json::views(items@)[j], marker@) by {
                    assert(crate::json::views(items@)[j] == items@[j]@);
                }
            }
            false
        },
        _ => false,
    }
}

fn text_block_value(t: &str) -> (r: JsonValue)
    ensures
        r@ == text_block_json(t@),
{
    let ms = vec![
        crate::json::JsonMember::new("type", JsonValue::string("text")),
        crate::json::JsonMember::new("text", JsonValue::string(t)),
    ];
    assert(crate::json::member_views(ms@) =~= text_block_json(t@)->Object_0);
    JsonValue::object(ms)
}

/// The system prompt with the prelude put first: see [`with_prelude`].
pub fn put_prelude(system: Option<JsonValue>, prelude_text: &str) -> (r: JsonValue)
    ensures
        r@ == with_prelude(match system {
            Some(v) => Some(v@),
            None => None,
        }, prelude_text@),
{
    let prelude = text_block_value(prelude_text);
    match system {
        Some(JsonValue::Str(s)) => {
            let items = vec![prelude, text_block_value(s.as_str())];
            assert(crate::json::views(items@) =~= seq![text_block_json(prelude_text@), text_block_json(s@)]);
            JsonValue::array(items)
        },
        Some(JsonValue::Array(items)) => {
            proof {
                crate::json::lemma_array_view(items);
            }
            let ghost old_items = crate::json::views(items@);
            let mut all = vec![prelude];
            let mut rest = items;
            crate::claude2oai::append_values(&mut all, &mut rest);
            assert(crate::json::views(all@) =~= seq![text_block_json(prelude_text@)] + old_items);
            JsonValue::array(all)
        },
        _ => {
            let items = vec![prelude];
            assert(crate::json::views(items@) =~= seq![text_block_json(prelude_text@)]);
            JsonValue::array(items)
        },
    }
}

/// The system items that carry a cache breakpoint: see [`cached_items`].
pub fn cached_system_items(system: &Option<JsonValue>) -> (r: Vec<JsonValue>)
    ensures
        crate::json::views(r@) == (match system {
            Some(v) => match v@ {
                Json::Array(items) => cached_items(items),
                _ => seq![],
            },
            None => seq![],
        }),
{
    match system {
        Some(JsonValue::Array(items)) => {
            proof {
                crate::json::lemma_array_view(*items);
            }
            let ghost all = crate::json::views(items@);
            let mut out: Vec<JsonValue> = Vec::new();
            let mut i: usize = 0;
            while i < items.len()
                invariant
                    all == crate::json::views(items@),
                    i <= items.len(),
                    crate::json::views(out@) == cached_items(all.take(i as int)),
                decreases items.len() - i,
            {
                assert(all.take(i + 1).drop_last() =~= all.take(i as int));
                assert(all.take(i + 1).last() == items@[i as int]@);
                let is_cached = match items[i].get("cache_control") {
                    Some(JsonValue::Object(_)) => true,
                    _ => false,
                };
                if is_cached {
                    let ghost before = crate::json::views(out@);
                    out.push(items[i].deep_copy());
                    assert(crate::json::views(out@) =~= before.push(items@[i as int]@));
                }
                i += 1;
            }
            assert(all.take(items.len() as int) =~= all);
            out
        },
        Some(v) => {
            let r: Vec<JsonValue> = Vec::new();
            assert(crate::json::views(r@) =~= Seq::<Json>::empty());
            proof {
                if v@ is Array {
                    assert(false);
                }
            }
            r
        },
        None => {
            let r: Vec<JsonValue> = Vec::new();
            assert(crate::json::views(r@) =~= Seq::<Json>::empty());
            r
        },
    }
}

/// The system prompt of the code ingress: as it is where it holds the
/// marker, else with the prelude put first.
pub open spec fn code_system(system: Option<JsonValue>, prelude: Seq<char>, marker: Seq<char>) -> Json {
    let sys0 = match system {
        Some(v) => Some(v@),
        None => None,
    };
    if names_assistant(sys0, marker) {
        sys0->0
    } else {
        with_prelude(sys0, prelude)
    }
}

/// Checks and completes a normalized request of the code ingress: clears
/// `top_p` where the model forbids it beside `temperature`, fails with
/// `TestMessage` on the probe, puts the configured prelude before a system
/// prompt that does not hold the assistant's marker, and gathers the system
/// items with cache breakpoints, whose hash the caller adds to the context.
/// A system prompt that is not a list then (a string that already holds the
/// marker) fails with `BadRequest`. The context's hash is left unset here.
pub fn code_preprocess(
    body: CreateMessageParams,
    format: ClaudeApiFormat,
    prelude: String,
    marker: &str,
) -> (r: Result<(ClaudeCodePreprocess, Vec<JsonValue>), ClewdrError>)
    ensures
        (!(body.stream == Some(true)) && is_probe(body.messages@)) ==> r == Err::<(ClaudeCodePreprocess, Vec<JsonValue>), ClewdrError>(ClewdrError::TestMessage),
        !(!(body.stream == Some(true)) && is_probe(body.messages@)) ==> (r is Ok <==> code_system(body.system, prelude@, marker@) is Array),
        r matches Err(ClewdrError::BadRequest { msg }) ==> msg@ == "System prompt is not an array"@,
        r matches Err(e) ==> (e is TestMessage || e is BadRequest),
        r matches Ok((p, cached)) ==> {
            let sys = code_system(body.system, prelude@, marker@);
            &&& p.0.messages == body.messages
            &&& p.0.model == body.model
            &&& p.0.thinking == body.thinking
            &&& p.0.temperature == body.temperature
            &&& (if exclusive_sampling(body.model@) && body.temperature is Some {
                p.0.top_p is None
            } else {
                p.0.top_p == body.top_p
            })
            &&& match p.0.system {
                Some(v) => v@ == sys,
                None => false,
            }
            &&& match p.1 {
                ClaudeContext::Code(c) => {
                    &&& c.stream == (body.stream == Some(true))
                    &&& c.api_format == format
                    &&& c.system_prompt_hash is None
                    &&& c.usage.output_tokens == 0
                    &&& c.usage.input_tokens == crate::tokens::input_estimate(p.0)
                },
                _ => false,
            }
            &&& crate::json::views(cached@) == (match sys {
                Json::Array(items) => cached_items(items),
                _ => seq![],
            })
        },
{
    let mut body = body;
    if (has_substring(body.model.as_str(), "opus-4-1") || has_substring(body.model.as_str(), "sonnet-4-5")
        || has_substring(body.model.as_str(), "opus-4-5")) && body.temperature.is_some() {
        body.top_p = None;
    }
    if is_test_message(&body) {
        return Err(ClewdrError::TestMessage);
    }
    let stream = match body.stream {
        Some(s) => s,
        None => false,
    };
    if !names_assistant_exec(&body.system, marker) {
        let old_system = body.system;
        body.system = Some(put_prelude(old_system, prelude.as_str()));
    }
    match &body.system {
        Some(JsonValue::Array(_)) => {},
        _ => {
            return Err(ClewdrError::BadRequest { msg: copy_str("System prompt is not an array") });
        },
    }
    let cached = cached_system_items(&body.system);
    let input_tokens = body.count_tokens();
    let info = ClaudeCodeContext {
        stream,
        api_format: format,
        system_prompt_hash: None,
        usage: Usage { input_tokens, output_tokens: 0 },
    };
    Ok((ClaudeCodePreprocess(body, ClaudeContext::Code(info)), cached))
}

} // verus!
