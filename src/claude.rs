//! The canonical data model that both dialects are mapped into.
use vstd::prelude::*;

use crate::json::{free_of, lemma_strip_key_frees, strip_key, Json, JsonMember, JsonValue};
use crate::text::copy_str;

verus! {

/// The parameters that every request must carry.
#[derive(Debug)]
pub struct RequiredMessageParams {
    pub model: String,
    pub messages: Vec<Message>,
    pub max_tokens: u32,
}

/// The token budget that a request without one gets.
pub fn default_max_tokens() -> (r: u32)
    ensures
        r == 8192,
{
    8192
}

/// The thinking budget that a thinking setting without one gets.
pub fn default_budget_tokens() -> (r: u64)
    ensures
        r == 10000,
{
    10000
}

/// The thinking type that a thinking setting without one gets.
pub fn default_thinking_type() -> (r: String)
    ensures
        r@ == "enabled"@,
{
    copy_str("enabled")
}

/// Parameters of a canonical request. `temperature` and `top_p` are held as
/// the text of their JSON numbers.
#[derive(Debug, Clone)]
pub struct CreateMessageParams {
    pub max_tokens: u32,
    pub messages: Vec<Message>,
    pub model: String,
    pub system: Option<JsonValue>,
    pub temperature: Option<String>,
    pub stop_sequences: Option<Vec<String>>,
    pub stream: Option<bool>,
    pub thinking: Option<Thinking>,
    pub top_k: Option<u32>,
    pub top_p: Option<String>,
    pub tools: Option<Vec<Tool>>,
    pub tool_choice: Option<ToolChoice>,
    pub metadata: Option<Metadata>,
    pub n: Option<u32>,
}

/// Thinking mode of a request.
#[derive(Debug, Clone, PartialEq, Eq)]
pub struct Thinking {
    pub budget_tokens: u64,
    pub type_: String,
}

impl Thinking {
    /// Thinking enabled with the given budget.
    pub fn new(budget_tokens: u64) -> (r: Thinking)
        ensures
            r.budget_tokens == budget_tokens,
            r.type_@ == "enabled"@,
    {
        Thinking { budget_tokens, type_: copy_str("enabled") }
    }
}

impl CreateMessageParams {
    /// A request with only the required fields set.
    pub fn new(required: RequiredMessageParams) -> (r: CreateMessageParams)
        ensures
            r.model == required.model,
            r.messages == required.messages,
            r.max_tokens == required.max_tokens,
            r.system is None && r.temperature is None && r.stop_sequences is None,
            r.stream is None && r.thinking is None && r.top_k is None && r.top_p is None,
            r.tools is None && r.tool_choice is None && r.metadata is None && r.n is None,
    {
        CreateMessageParams {
            max_tokens: required.max_tokens,
            messages: required.messages,
            model: required.model,
            system: None,
            temperature: None,
            stop_sequences: None,
            stream: None,
            thinking: None,
            top_k: None,
            top_p: None,
            tools: None,
            tool_choice: None,
            metadata: None,
            n: None,
        }
    }

    /// Sets the system prompt to a string.
    pub fn with_system(self, system: &str) -> (r: CreateMessageParams)
        ensures
            r == (CreateMessageParams { system: r.system, ..self }),
            r.system matches Some(v) && v@ == Json::Str(system@),
    {
        CreateMessageParams { system: Some(JsonValue::string(system)), ..self }
    }

    /// Sets the temperature, given as the text of a JSON number.
    pub fn with_temperature(self, temperature: String) -> (r: CreateMessageParams)
        ensures
            r == (CreateMessageParams { temperature: Some(temperature), ..self }),
    {
        CreateMessageParams { temperature: Some(temperature), ..self }
    }

    /// Sets the stop sequences.
    pub fn with_stop_sequences(self, stop_sequences: Vec<String>) -> (r: CreateMessageParams)
        ensures
            r == (CreateMessageParams { stop_sequences: Some(stop_sequences), ..self }),
    {
        CreateMessageParams { stop_sequences: Some(stop_sequences), ..self }
    }

    /// Sets whether the response is streamed.
    pub fn with_stream(self, stream: bool) -> (r: CreateMessageParams)
        ensures
            r == (CreateMessageParams { stream: Some(stream), ..self }),
    {
        CreateMessageParams { stream: Some(stream), ..self }
    }

    /// Sets top-k sampling.
    pub fn with_top_k(self, top_k: u32) -> (r: CreateMessageParams)
        ensures
            r == (CreateMessageParams { top_k: Some(top_k), ..self }),
    {
        CreateMessageParams { top_k: Some(top_k), ..self }
    }

    /// Sets top-p sampling, given as the text of a JSON number.
    pub fn with_top_p(self, top_p: String) -> (r: CreateMessageParams)
        ensures
            r == (CreateMessageParams { top_p: Some(top_p), ..self }),
    {
        CreateMessageParams { top_p: Some(top_p), ..self }
    }

    /// Sets the tools.
    pub fn with_tools(self, tools: Vec<Tool>) -> (r: CreateMessageParams)
        ensures
            r == (CreateMessageParams { tools: Some(tools), ..self }),
    {
        CreateMessageParams { tools: Some(tools), ..self }
    }

    /// Sets the tool choice.
    pub fn with_tool_choice(self, tool_choice: ToolChoice) -> (r: CreateMessageParams)
        ensures
            r == (CreateMessageParams { tool_choice: Some(tool_choice), ..self }),
    {
        CreateMessageParams { tool_choice: Some(tool_choice), ..self }
    }

    /// Sets the metadata.
    pub fn with_metadata(self, metadata: Metadata) -> (r: CreateMessageParams)
        ensures
            r == (CreateMessageParams { metadata: Some(metadata), ..self }),
    {
        CreateMessageParams { metadata: Some(metadata), ..self }
    }
}

/// A message of a conversation.
#[derive(Debug, Clone, PartialEq, Eq)]
pub struct Message {
    pub role: Role,
    pub content: MessageContent,
}

/// Who sent a message.
#[derive(Debug, Clone, Copy, PartialEq, Eq, Hash, Structural)]
pub enum Role {
    System,
    User,
    Assistant,
}

/// The content of a message: one text, or a list of blocks.
#[derive(Debug, Clone, PartialEq, Eq)]
pub enum MessageContent {
    Text { content: String },
    Blocks { content: Vec<ContentBlock> },
}

/// A content block of a message.
#[derive(Debug, Clone, PartialEq, Eq)]
pub enum ContentBlock {
    Text { text: String, cache_control: Option<CacheControlEphemeral> },
    Image { source: ImageSource, cache_control: Option<CacheControlEphemeral> },
    ImageUrl { image_url: ImageUrl },
    Document { source: DocumentSource, cache_control: Option<CacheControlEphemeral> },
    ToolUse {
        id: String,
        name: String,
        input: JsonValue,
        signature: Option<String>,
        cache_control: Option<CacheControlEphemeral>,
    },
    ToolResult {
        tool_use_id: String,
        content: JsonValue,
        is_error: Option<bool>,
        cache_control: Option<CacheControlEphemeral>,
    },
    Thinking {
        thinking: String,
        signature: Option<String>,
        cache_control: Option<CacheControlEphemeral>,
    },
    RedactedThinking { data: String },
    SearchResult { data: JsonValue },
    ServerToolUse { data: JsonValue },
    WebSearchToolResult { data: JsonValue },
}

impl ContentBlock {
    /// Whether this block carries a cache-control marker: its own, or a
    /// `cache_control` member anywhere in the JSON of a tool result's content
    /// or of a raw block.
    pub open spec fn has_cache_control(&self) -> bool {
        match self {
            ContentBlock::Text { cache_control, .. } => cache_control is Some,
            ContentBlock::Image { cache_control, .. } => cache_control is Some,
            ContentBlock::Document { cache_control, .. } => cache_control is Some,
            ContentBlock::ToolUse { cache_control, .. } => cache_control is Some,
            ContentBlock::ToolResult { content, cache_control, .. } => cache_control is Some || !free_of(
                content@,
                "cache_control"@,
            ),
            ContentBlock::Thinking { cache_control, .. } => cache_control is Some,
            ContentBlock::SearchResult { data } => !free_of(data@, "cache_control"@),
            ContentBlock::ServerToolUse { data } => !free_of(data@, "cache_control"@),
            ContentBlock::WebSearchToolResult { data } => !free_of(data@, "cache_control"@),
            _ => false,
        }
    }

    /// Whether `new` is `old` with every cache-control marker removed: its
    /// own marker, and every `cache_control` member at any depth of a tool
    /// result's content or of a raw block's JSON; all else unchanged.
    pub open spec fn cleared_of(new: ContentBlock, old: ContentBlock) -> bool {
        match old {
            ContentBlock::Text { text, .. } => new == ContentBlock::Text { text, cache_control: None },
            ContentBlock::Image { source, .. } => new == ContentBlock::Image { source, cache_control: None },
            ContentBlock::Document { source, .. } => new == ContentBlock::Document { source, cache_control: None },
            ContentBlock::ToolUse { id, name, input, signature, .. } => new == ContentBlock::ToolUse {
                id,
                name,
                input,
                signature,
                cache_control: None,
            },
            ContentBlock::ToolResult { tool_use_id, content, is_error, .. } => match new {
                ContentBlock::ToolResult { tool_use_id: t, content: c, is_error: e, cache_control } => {
                    &&& t == tool_use_id
                    &&& e == is_error
                    &&& cache_control is None
                    &&& c@ == strip_key(content@, "cache_control"@)
                },
                _ => false,
            },
            ContentBlock::Thinking { thinking, signature, .. } => new == ContentBlock::Thinking {
                thinking,
                signature,
                cache_control: None,
            },
            ContentBlock::SearchResult { data } => match new {
                ContentBlock::SearchResult { data: d } => d@ == strip_key(data@, "cache_control"@),
                _ => false,
            },
            ContentBlock::ServerToolUse { data } => match new {
                ContentBlock::ServerToolUse { data: d } => d@ == strip_key(data@, "cache_control"@),
                _ => false,
            },
            ContentBlock::WebSearchToolResult { data } => match new {
                ContentBlock::WebSearchToolResult { data: d } => d@ == strip_key(data@, "cache_control"@),
                _ => false,
            },
            other => new == other,
        }
    }

    /// Removes every cache-control marker of this block: see [`ContentBlock::cleared_of`].
    pub fn clear_cache_control(&mut self)
        ensures
            ContentBlock::cleared_of(*final(self), *old(self)),
            !final(self).has_cache_control(),
    {
        match self {
            ContentBlock::Text { cache_control, .. } => *cache_control = None,
            ContentBlock::Image { cache_control, .. } => *cache_control = None,
            ContentBlock::Document { cache_control, .. } => *cache_control = None,
            ContentBlock::ToolUse { cache_control, .. } => *cache_control = None,
            ContentBlock::ToolResult { content, cache_control, .. } => {
                *cache_control = None;
                let stripped = content.strip_key("cache_control");
                proof {
                    lemma_strip_key_frees(content@, "cache_control"@);
                }
                *content = stripped;
            },
            ContentBlock::Thinking { cache_control, .. } => *cache_control = None,
            ContentBlock::SearchResult { data } => {
                let stripped = data.strip_key("cache_control");
                proof {
                    lemma_strip_key_frees(data@, "cache_control"@);
                }
                *data = stripped;
            },
            ContentBlock::ServerToolUse { data } => {
                let stripped = data.strip_key("cache_control");
                proof {
                    lemma_strip_key_frees(data@, "cache_control"@);
                }
                *data = stripped;
            },
            ContentBlock::WebSearchToolResult { data } => {
                let stripped = data.strip_key("cache_control");
                proof {
                    lemma_strip_key_frees(data@, "cache_control"@);
                }
                *data = stripped;
            },
            _ => {},
        }
    }

    /// A text block.
    pub fn text(text: &str) -> (r: ContentBlock)
        ensures
            r matches ContentBlock::Text { text: t, cache_control: None } && t@ == text@,
    {
        ContentBlock::Text { text: copy_str(text), cache_control: None }
    }

    /// An image block.
    pub fn image(type_: &str, media_type: &str, data: &str) -> (r: ContentBlock)
        ensures
            r matches ContentBlock::Image { source: s, cache_control: None } && s.type_@ == type_@
                && s.media_type@ == media_type@ && s.data@ == data@,
    {
        ContentBlock::Image {
            source: ImageSource {
                type_: copy_str(type_),
                media_type: copy_str(media_type),
                data: copy_str(data),
            },
            cache_control: None,
        }
    }
}

impl Message {
    /// Whether some block of this message carries a cache-control marker.
    pub open spec fn has_cache_control(&self) -> bool {
        match self.content {
            MessageContent::Blocks { content } => exists|i: int|
                0 <= i < content.len() && (#[trigger] content[i]).has_cache_control(),
            MessageContent::Text { .. } => false,
        }
    }

    /// Whether `new` is `old` with every cache-control marker removed.
    pub open spec fn is_cleared_of(new: Message, old: Message) -> bool {
        &&& new.role == old.role
        &&& match (new.content, old.content) {
            (MessageContent::Blocks { content: n }, MessageContent::Blocks { content: o }) => {
                &&& n.len() == o.len()
                &&& forall|i: int| 0 <= i < n.len() ==> ContentBlock::cleared_of(#[trigger] n[i], o[i])
            },
            (MessageContent::Text { content: n }, MessageContent::Text { content: o }) => n == o,
            _ => false,
        }
    }

    /// Removes every cache-control marker from the blocks of this message.
    pub fn clear_cache_control(&mut self)
        ensures
            Message::is_cleared_of(*final(self), *old(self)),
            !final(self).has_cache_control(),
    {
        match &mut self.content {
            MessageContent::Blocks { content } => {
                let ghost before = content@;
                let mut i: usize = 0;
                while i < content.len()
                    invariant
                        content.len() == before.len(),
                        i <= content.len(),
                        forall|j: int| 0 <= j < i ==> ContentBlock::cleared_of(#[trigger] content@[j], before[j]),
                        forall|j: int| 0 <= j < i ==> !(#[trigger] content@[j]).has_cache_control(),
                        forall|j: int| i <= j < content.len() ==> #[trigger] content@[j] == before[j],
                    decreases content.len() - i,
                {
                    content[i].clear_cache_control();
                    i += 1;
                }
            },
            MessageContent::Text { .. } => {},
        }
    }

    /// A message of one text.
    pub fn new_text(role: Role, text: &str) -> (r: Message)
        ensures
            r.role == role,
            r.content matches MessageContent::Text { content } && content@ == text@,
    {
        Message { role, content: MessageContent::Text { content: copy_str(text) } }
    }

    /// A message of blocks.
    pub fn new_blocks(role: Role, blocks: Vec<ContentBlock>) -> (r: Message)
        ensures
            r.role == role,
            r.content == (MessageContent::Blocks { content: blocks }),
    {
        Message { role, content: MessageContent::Blocks { content: blocks } }
    }
}

/// Removes every cache-control marker from every message.
pub fn clean_cache_control_from_messages(messages: &mut Vec<Message>)
    ensures
        final(messages).len() == old(messages).len(),
        forall|i: int|
            0 <= i < final(messages).len() ==> Message::is_cleared_of(
                #[trigger] final(messages)@[i],
                old(messages)@[i],
            ),
        forall|i: int| 0 <= i < final(messages).len() ==> !(#[trigger] final(messages)@[i]).has_cache_control(),
{
    let ghost before = messages@;
    let mut i: usize = 0;
    while i < messages.len()
        invariant
            messages.len() == before.len(),
            i <= messages.len(),
            forall|j: int| 0 <= j < i ==> Message::is_cleared_of(#[trigger] messages@[j], before[j]),
            forall|j: int| 0 <= j < i ==> !(#[trigger] messages@[j]).has_cache_control(),
            forall|j: int| i <= j < messages.len() ==> #[trigger] messages@[j] == before[j],
        decreases messages.len() - i,
    {
        messages[i].clear_cache_control();
        i += 1;
    }
}

/// Where the data of a document block comes from.
#[derive(Debug, Clone, PartialEq, Eq)]
pub struct DocumentSource {
    pub type_: String,
    pub media_type: Option<String>,
    pub data: Option<String>,
    pub url: Option<String>,
}

/// Where the data of an image block comes from.
#[derive(Debug, Clone, PartialEq, Eq)]
pub struct ImageSource {
    pub type_: String,
    pub media_type: String,
    pub data: String,
}

/// An image referenced by URL, as the OpenAI dialect writes it.
#[derive(Debug, Clone, PartialEq, Eq)]
pub struct ImageUrl {
    pub url: String,
}

/// A cache breakpoint.
#[derive(Debug, Clone, PartialEq, Eq)]
pub struct CacheControlEphemeral {
    pub type_: CacheControlType,
    pub ttl: Option<String>,
}

/// The kind of a cache breakpoint.
#[derive(Debug, Clone, Copy, PartialEq, Eq, Structural)]
pub enum CacheControlType {
    Ephemeral,
}

/// A tool that a request offers: custom, built in, or passed through as it came.
#[derive(Debug, Clone)]
pub enum Tool {
    Custom(CustomTool),
    Known(KnownTool),
    Raw(JsonValue),
}

/// A tool defined by the client, with a schema for its input.
#[derive(Debug, Clone)]
pub struct CustomTool {
    pub name: String,
    pub description: Option<String>,
    pub input_schema: JsonValue,
    pub cache_control: Option<CacheControlEphemeral>,
    pub type_: Option<CustomToolType>,
}

/// The type marker of a custom tool.
#[derive(Debug, Clone, Copy, PartialEq, Eq, Structural)]
pub enum CustomToolType {
    Custom,
}

/// A tool built into the upstream; `extra` holds the members that are not modelled.
#[derive(Debug, Clone)]
pub enum KnownTool {
    Bash20250124 {
        name: ToolNameBash,
        cache_control: Option<CacheControlEphemeral>,
        extra: Vec<JsonMember>,
    },
    TextEditor20250124 {
        name: ToolNameStrReplaceEditor,
        cache_control: Option<CacheControlEphemeral>,
        extra: Vec<JsonMember>,
    },
    TextEditor20250429 {
        name: ToolNameStrReplaceBasedEditTool,
        cache_control: Option<CacheControlEphemeral>,
        extra: Vec<JsonMember>,
    },
    TextEditor20250728 {
        name: ToolNameStrReplaceBasedEditTool,
        cache_control: Option<CacheControlEphemeral>,
        max_characters: Option<u32>,
        extra: Vec<JsonMember>,
    },
    WebSearch20250305 {
        name: ToolNameWebSearch,
        allowed_domains: Option<Vec<String>>,
        blocked_domains: Option<Vec<String>>,
        cache_control: Option<CacheControlEphemeral>,
        max_uses: Option<u32>,
        user_location: Option<WebSearchUserLocation>,
        extra: Vec<JsonMember>,
    },
}

/// The name of the built-in bash tool.
#[derive(Debug, Clone, Copy, PartialEq, Eq, Structural)]
pub enum ToolNameBash {
    Bash,
}

/// The name of the older built-in text editor tool.
#[derive(Debug, Clone, Copy, PartialEq, Eq, Structural)]
pub enum ToolNameStrReplaceEditor {
    StrReplaceEditor,
}

/// The name of the newer built-in text editor tool.
#[derive(Debug, Clone, Copy, PartialEq, Eq, Structural)]
pub enum ToolNameStrReplaceBasedEditTool {
    StrReplaceBasedEditTool,
}

/// The name of the built-in web search tool.
#[derive(Debug, Clone, Copy, PartialEq, Eq, Structural)]
pub enum ToolNameWebSearch {
    WebSearch,
}

/// The approximate location that web search may use.
#[derive(Debug, Clone)]
pub struct WebSearchUserLocation {
    pub type_: WebSearchUserLocationType,
    pub city: Option<String>,
    pub country: Option<String>,
    pub region: Option<String>,
    pub timezone: Option<String>,
}

/// The kind of a web search location.
#[derive(Debug, Clone, Copy, PartialEq, Eq, Structural)]
pub enum WebSearchUserLocationType {
    Approximate,
}

/// How the model should use tools: a bare tag, or the object form.
#[derive(Debug, Clone)]
pub enum ToolChoice {
    Simple(ToolChoiceSimple),
    Object(ToolChoiceObject),
}

/// The bare tags of a tool choice.
#[derive(Debug, Clone, Copy, PartialEq, Eq, Structural)]
pub enum ToolChoiceSimple {
    Auto,
    Any,
    /// The tag `none`: no tool may be used.
    NoTool,
}

/// The object form of a tool choice.
#[derive(Debug, Clone)]
pub enum ToolChoiceObject {
    Auto { disable_parallel_tool_use: Option<bool> },
    Any { disable_parallel_tool_use: Option<bool> },
    Tool { name: String, disable_parallel_tool_use: Option<bool> },
    /// The type `none`: no tool may be used.
    NoTool,
}

impl ToolChoice {
    /// The object form of a tool choice: a bare tag becomes the object with the
    /// same type and no further fields; the object form stays as it is.
    pub open spec fn object_form(self) -> ToolChoice {
        match self {
            ToolChoice::Simple(ToolChoiceSimple::Auto) => ToolChoice::Object(
                ToolChoiceObject::Auto { disable_parallel_tool_use: None },
            ),
            ToolChoice::Simple(ToolChoiceSimple::Any) => ToolChoice::Object(
                ToolChoiceObject::Any { disable_parallel_tool_use: None },
            ),
            ToolChoice::Simple(ToolChoiceSimple::NoTool) => ToolChoice::Object(ToolChoiceObject::NoTool),
            other => other,
        }
    }

    /// Upgrades a bare tag to the object form.
    pub fn to_object_format(self) -> (r: ToolChoice)
        ensures
            r == self.object_form(),
            r is Object,
    {
        match self {
            ToolChoice::Simple(simple) => {
                let obj = match simple {
                    ToolChoiceSimple::Auto => ToolChoiceObject::Auto { disable_parallel_tool_use: None },
                    ToolChoiceSimple::Any => ToolChoiceObject::Any { disable_parallel_tool_use: None },
                    ToolChoiceSimple::NoTool => ToolChoiceObject::NoTool,
                };
                ToolChoice::Object(obj)
            },
            obj => obj,
        }
    }
}

/// Request metadata: named text fields.
#[derive(Debug, Clone, PartialEq, Eq)]
pub struct Metadata {
    pub fields: Vec<(String, String)>,
}

/// A complete canonical response.
#[derive(Debug, Clone)]
pub struct CreateMessageResponse {
    pub content: Vec<ContentBlock>,
    pub id: String,
    pub model: String,
    pub role: Role,
    pub stop_reason: Option<StopReason>,
    pub stop_sequence: Option<String>,
    pub type_: String,
    pub usage: Option<Usage>,
}

/// Why generation stopped.
#[derive(Debug, Clone, Copy, PartialEq, Eq, Structural)]
pub enum StopReason {
    EndTurn,
    MaxTokens,
    StopSequence,
    ToolUse,
    Refusal,
}

/// Token counts of a response.
#[derive(Debug, Clone, Copy, PartialEq, Eq, Structural)]
pub struct Usage {
    pub input_tokens: u32,
    pub output_tokens: u32,
}

/// Token counts as a stream reports them.
#[derive(Debug, Clone, Copy, PartialEq, Eq, Structural)]
pub struct StreamUsage {
    pub input_tokens: u32,
    pub output_tokens: u32,
}

/// Parameters of a token-count request.
#[derive(Debug, Clone)]
pub struct CountMessageTokensParams {
    pub model: String,
    pub messages: Vec<Message>,
}

/// The answer to a token-count request.
#[derive(Debug, Clone, Copy, PartialEq, Eq, Structural)]
pub struct CountMessageTokensResponse {
    pub input_tokens: u32,
}

/// An event of a canonical response stream.
#[derive(Debug, Clone)]
pub enum StreamEvent {
    MessageStart { message: MessageStartContent },
    ContentBlockStart { index: usize, content_block: ContentBlock },
    ContentBlockDelta { index: usize, delta: ContentBlockDelta },
    ContentBlockStop { index: usize },
    MessageDelta { delta: MessageDeltaContent, usage: Option<StreamUsage> },
    MessageStop,
    Ping,
    Error { error: StreamError },
}

/// The message that a stream opens with.
#[derive(Debug, Clone)]
pub struct MessageStartContent {
    pub id: String,
    pub type_: String,
    pub role: Role,
    pub content: Vec<ContentBlock>,
    pub model: String,
    pub stop_reason: Option<StopReason>,
    pub stop_sequence: Option<String>,
    pub usage: Option<Usage>,
}

/// A fragment of a content block in a stream.
#[derive(Debug, Clone, PartialEq, Eq)]
pub enum ContentBlockDelta {
    TextDelta { text: String },
    InputJsonDelta { partial_json: String },
    ThinkingDelta { thinking: String },
    SignatureDelta { signature: String },
}

/// The closing facts of a streamed message.
#[derive(Debug, Clone, PartialEq, Eq)]
pub struct MessageDeltaContent {
    pub stop_reason: Option<StopReason>,
    pub stop_sequence: Option<String>,
}

/// An error reported inside a stream.
#[derive(Debug, Clone, PartialEq, Eq)]
pub struct StreamError {
    pub type_: String,
    pub message: String,
}

} // verus!

verus! {

/// A fresh message id.
///
/// Relies on `uuid::Uuid::new_v4` and its hyphenated text, which is 36
/// characters long whatever the random bits.
#[verifier::external_body]
fn new_message_id() -> (r: String)
    ensures
        r@.len() == 36,
{
    uuid::Uuid::new_v4().to_string()
}

impl CreateMessageResponse {
    /// A response of one text block, under a fresh id.
    pub fn text(content: String, model: String, usage: Usage) -> (r: CreateMessageResponse)
        ensures
            r.content@.len() == 1,
            r.content@[0] matches ContentBlock::Text { text, cache_control } && text@ == content@ && cache_control is None,
            r.id@.len() == 36,
            r.model == model,
            r.role == Role::Assistant,
            r.stop_reason is None,
            r.stop_sequence is None,
            r.type_@ == "message"@,
            r.usage == Some(usage),
    {
        CreateMessageResponse {
            content: vec![ContentBlock::text(content.as_str())],
            id: new_message_id(),
            model,
            role: Role::Assistant,
            stop_reason: None,
            stop_sequence: None,
            type_: copy_str("message"),
            usage: Some(usage),
        }
    }
}

} // verus!
