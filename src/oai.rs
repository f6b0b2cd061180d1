//! The OpenAI chat dialect and its conversion to the canonical form.
use vstd::prelude::*;

use crate::block_json::{block_json, block_value};
use crate::claude::{
    default_max_tokens, ContentBlock, CreateMessageParams as ClaudeCreateMessageParams,
    CustomTool, CustomToolType, KnownTool, Message, MessageContent, Metadata, Role, Thinking,
    Tool, ToolChoice, ToolNameBash, ToolNameStrReplaceBasedEditTool, ToolNameStrReplaceEditor,
    ToolNameWebSearch,
};
use crate::image_converter::{blocks_processed, process_image_blocks};
use crate::json::{member_views, views, Json, JsonMember, JsonValue, Member};
use crate::param_remapper::{remap_oai_to_claude_args, remapped};
use crate::text::{copy_str, same_text};
use crate::web_search::{annotations_to_web_search_content, search_items};

verus! {

broadcast use vstd::std_specs::vec::group_vec_axioms;

/// The roles of the OpenAI dialect, with `tool` for tool results.
#[derive(Debug, Clone, Copy, PartialEq, Eq, Hash, Structural)]
pub enum OaiRole {
    System,
    User,
    Assistant,
    Tool,
}

/// The canonical role of an OpenAI role: a tool result is a user turn.
pub open spec fn role_of(r: OaiRole) -> Role {
    match r {
        OaiRole::System => Role::System,
        OaiRole::User => Role::User,
        OaiRole::Assistant => Role::Assistant,
        OaiRole::Tool => Role::User,
    }
}

impl From<OaiRole> for Role {
    fn from(role: OaiRole) -> (r: Role) {
        match role {
            OaiRole::System => Role::System,
            OaiRole::User => Role::User,
            OaiRole::Assistant => Role::Assistant,
            OaiRole::Tool => Role::User,
        }
    }
}

impl vstd::std_specs::convert::FromSpecImpl<OaiRole> for Role {
    open spec fn obeys_from_spec() -> bool {
        true
    }

    open spec fn from_spec(v: OaiRole) -> Role {
        role_of(v)
    }
}

/// How much thinking a client asks for.
#[derive(Debug, Clone, Copy, PartialEq, Eq, Structural)]
pub enum Effort {
    Low,
    Medium,
    High,
}

impl Effort {
    /// The thinking budget of an effort.
    pub open spec fn budget(self) -> u64 {
        match self {
            Effort::Low => 256,
            Effort::Medium => 2048,
            Effort::High => 16384,
        }
    }

    /// The thinking budget of an effort: 256, 2048 or 16384 tokens.
    pub fn budget_tokens(&self) -> (r: u64)
        ensures
            r == self.budget(),
    {
        match self {
            Effort::Low => 256,
            Effort::Medium => 2048,
            Effort::High => 16384,
        }
    }
}

/// The content of an OpenAI message: a text, a list of blocks, or null.
#[derive(Debug, Clone)]
pub enum OaiMessageContent {
    Text(String),
    Blocks(Vec<ContentBlock>),
    Null,
}

impl Default for OaiMessageContent {
    /// Null content, as a message without `content` has.
    fn default() -> (r: OaiMessageContent)
        ensures
            r is Null,
    {
        OaiMessageContent::Null
    }
}

impl OaiMessageContent {
    /// The canonical content: null becomes the empty text.
    pub fn to_claude_format(self) -> (r: MessageContent)
        ensures
            match self {
                OaiMessageContent::Text(t) => r == (MessageContent::Text { content: t }),
                OaiMessageContent::Blocks(bs) => r == (MessageContent::Blocks { content: bs }),
                OaiMessageContent::Null => r matches MessageContent::Text { content } && content@.len() == 0,
            },
    {
        match self {
            OaiMessageContent::Text(text) => MessageContent::Text { content: text },
            OaiMessageContent::Blocks(blocks) => MessageContent::Blocks { content: blocks },
            OaiMessageContent::Null => MessageContent::Text { content: String::new() },
        }
    }
}

/// A message of the OpenAI dialect.
#[derive(Debug, Clone)]
pub struct OaiMessage {
    pub role: OaiRole,
    pub content: OaiMessageContent,
    pub tool_call_id: Option<String>,
    pub tool_calls: Option<Vec<OaiToolCall>>,
    pub annotations: Option<Vec<JsonValue>>,
}

/// A tool call of an assistant message.
#[derive(Debug, Clone, PartialEq, Eq)]
pub struct OaiToolCall {
    pub id: String,
    pub type_: String,
    pub function: OaiToolCallFunction,
}

/// The function of a tool call; its arguments are JSON text.
#[derive(Debug, Clone, PartialEq, Eq)]
pub struct OaiToolCallFunction {
    pub name: String,
    pub arguments: String,
}

/// A tool that an OpenAI-dialect request offers.
#[derive(Debug, Clone)]
pub enum OaiTool {
    Function { function: OaiToolFunction },
    Custom(CustomTool),
    Other,
}

/// An OpenAI function definition.
#[derive(Debug, Clone)]
pub struct OaiToolFunction {
    pub name: String,
    pub description: Option<String>,
    pub parameters: Option<JsonValue>,
}

/// The text content of a tool result: a text stays a string, blocks become
/// their JSON list, null becomes the empty string.
pub open spec fn tool_result_content(c: OaiMessageContent) -> Json {
    match c {
        OaiMessageContent::Text(t) => Json::Str(t@),
        OaiMessageContent::Blocks(bs) => Json::Array(Seq::new(bs.len() as nat, |i: int| block_json(bs@[i]))),
        OaiMessageContent::Null => Json::Str(seq![]),
    }
}

/// The input of a tool call: what parsing its arguments gave, or an empty
/// object, renamed for the tool.
pub open spec fn call_input(name: Seq<char>, parsed: Option<Json>) -> Json {
    remapped(
        name,
        match parsed {
            Some(v) => v,
            None => Json::Object(seq![]),
        },
    )
}

/// The parse outcome handed in for tool call `i`.
pub open spec fn parsed_at(parsed: Seq<Option<JsonValue>>, i: int) -> Option<Json> {
    if 0 <= i < parsed.len() {
        match parsed[i] {
            Some(v) => Some(v@),
            None => None,
        }
    } else {
        None
    }
}

/// Whether `b` is the tool-use block of call `c` with the given parse outcome.
pub open spec fn is_tool_use_of(b: ContentBlock, c: OaiToolCall, parsed: Option<Json>) -> bool {
    b matches ContentBlock::ToolUse { id, name, input, signature, cache_control } && id == c.id && name
        == c.function.name && input@ == call_input(c.function.name@, parsed) && signature is None
        && cache_control is None
}

/// The blocks that open an assistant message with tool calls: a non-empty
/// text as one text block, the blocks as they are, nothing for null.
pub open spec fn leading_blocks(c: OaiMessageContent, bs: Seq<ContentBlock>) -> bool {
    match c {
        OaiMessageContent::Text(t) => if t@.len() > 0 {
            bs.len() == 1 && bs[0] == (ContentBlock::Text { text: t, cache_control: None })
        } else {
            bs.len() == 0
        },
        OaiMessageContent::Blocks(v) => bs == v@,
        OaiMessageContent::Null => bs.len() == 0,
    }
}

/// Whether `r` is the canonical message of OpenAI message `m`, given the parse
/// outcomes of the arguments of its tool calls.
pub open spec fn oai_converted(m: OaiMessage, parsed: Seq<Option<JsonValue>>, r: Message) -> bool {
    match m.role {
        OaiRole::Tool => {
            &&& r.role == Role::User
            &&& match r.content {
                MessageContent::Blocks { content } => content.len() == 1 && match content@[0] {
                    ContentBlock::ToolResult { tool_use_id, content: c, is_error, cache_control } => {
                        &&& tool_use_id@ == (match m.tool_call_id {
                            Some(t) => t@,
                            None => seq![],
                        })
                        &&& c@ == tool_result_content(m.content)
                        &&& is_error is None
                        &&& cache_control is None
                    },
                    _ => false,
                },
                _ => false,
            }
        },
        OaiRole::Assistant if m.tool_calls is Some => {
            let calls = m.tool_calls->0@;
            &&& r.role == Role::Assistant
            &&& r.content matches MessageContent::Blocks { content } && {
                let n = content.len() - calls.len();
                &&& content.len() >= calls.len()
                &&& leading_blocks(m.content, content@.take(n))
                &&& forall|i: int| 0 <= i < calls.len() ==> is_tool_use_of(#[trigger] content@[n + i], calls[i], parsed_at(parsed, i))
            }
        },
        _ => {
            &&& r.role == role_of(m.role)
            &&& plain_converted(m, r.content)
        },
    }
}

/// The blocks of a message that is neither a tool result nor a tool-calling
/// assistant turn: its image references converted (those that cannot be are
/// dropped), a non-empty text as one
/// text block, and one `web_search` tool result for its annotations where
/// they convert to any web search items.
pub open spec fn plain_blocks(m: OaiMessage, bs: Seq<ContentBlock>) -> bool {
    let items = match m.annotations {
        Some(anns) => search_items(views(anns@)),
        None => seq![],
    };
    let k = if items.len() > 0 { 1int } else { 0int };
    &&& bs.len() >= k
    &&& match m.content {
        OaiMessageContent::Blocks(v) => blocks_processed(v@, bs.take(bs.len() - k)),
        OaiMessageContent::Text(t) => if t@.len() > 0 {
            bs.len() - k == 1 && bs[0] == (ContentBlock::Text { text: t, cache_control: None })
        } else {
            bs.len() == k
        },
        OaiMessageContent::Null => bs.len() == k,
    }
    &&& (k == 1 ==> match bs.last() {
        ContentBlock::ToolResult { tool_use_id, content, is_error, cache_control } => {
            &&& tool_use_id@ == "web_search"@
            &&& content@ == Json::Array(items)
            &&& is_error is None
            &&& cache_control is None
        },
        _ => false,
    })
}

/// The content of such a message: its blocks, or the empty text where there
/// are none.
pub open spec fn plain_converted(m: OaiMessage, c: MessageContent) -> bool {
    match c {
        MessageContent::Blocks { content } => content.len() > 0 && plain_blocks(m, content@),
        MessageContent::Text { content } => content@.len() == 0 && plain_blocks(m, seq![]),
    }
}

fn blocks_value(bs: &Vec<ContentBlock>) -> (r: JsonValue)
    ensures
        r@ == Json::Array(Seq::new(bs.len() as nat, |i: int| block_json(bs@[i]))),
{
    let mut items: Vec<JsonValue> = Vec::new();
    let mut i: usize = 0;
    while i < bs.len()
        invariant
            i <= bs.len(),
            items.len() == i,
            forall|j: int| 0 <= j < i ==> (#[trigger] items@[j])@ == block_json(bs@[j]),
        decreases bs.len() - i,
    {
        items.push(block_value(&bs[i]));
        i += 1;
    }
    assert(views(items@) =~= Seq::new(bs.len() as nat, |i: int| block_json(bs@[i])));
    JsonValue::array(items)
}

fn empty_object() -> (r: JsonValue)
    ensures
        r@ == Json::Object(seq![]),
{
    let no_members: Vec<JsonMember> = Vec::new();
    assert(member_views(no_members@) =~= Seq::<Member>::empty());
    JsonValue::object(no_members)
}

/// Converts an OpenAI message to the canonical form, given what parsing the
/// argument text of each of its tool calls gave (`None` where it failed or is
/// missing): a tool result becomes a user message with one `tool_result`
/// whose content stays a string; an assistant message with tool calls keeps
/// its text or blocks and gets one `tool_use` per call, with the arguments
/// renamed for the tool; any other message has its image references
/// converted (those that cannot be are dropped) and its annotations added as a `web_search` tool result.
pub fn convert_oai_message(msg: OaiMessage, parsed_arguments: Vec<Option<JsonValue>>) -> (r: Message)
    ensures
        oai_converted(msg, parsed_arguments@, r),
{
    let ghost m = msg;
    let ghost parsed = parsed_arguments@;
    match msg.role {
        OaiRole::Tool => {
            let tool_use_id = match msg.tool_call_id {
                Some(t) => t,
                None => String::new(),
            };
            let content = match &msg.content {
                OaiMessageContent::Text(text) => JsonValue::Str(text.clone()),
                OaiMessageContent::Blocks(blocks) => blocks_value(blocks),
                OaiMessageContent::Null => JsonValue::Str(String::new()),
            };
            let block = ContentBlock::ToolResult { tool_use_id, content, is_error: None, cache_control: None };
            Message { role: Role::User, content: MessageContent::Blocks { content: vec![block] } }
        },
        OaiRole::Assistant if msg.tool_calls.is_some() => {
            let calls = match msg.tool_calls {
                Some(c) => c,
                None => Vec::new(),
            };
            let mut blocks: Vec<ContentBlock> = match msg.content {
                OaiMessageContent::Text(text) => if text.as_str().is_empty() {
                    Vec::new()
                } else {
                    vec![ContentBlock::Text { text, cache_control: None }]
                },
                OaiMessageContent::Blocks(content) => content,
                OaiMessageContent::Null => Vec::new(),
            };
            let ghost lead = blocks@;
            let n = blocks.len();
            let mut i: usize = 0;
            while i < calls.len()
                invariant
                    m.tool_calls == Some(calls),
                    parsed == parsed_arguments@,
                    i <= calls.len(),
                    blocks.len() == n + i,
                    blocks@.take(n as int) == lead,
                    forall|j: int| 0 <= j < i ==> is_tool_use_of(#[trigger] blocks@[n + j], calls@[j], parsed_at(parsed, j)),
                decreases calls.len() - i,
            {
                let tc = &calls[i];
                let mut input = if i < parsed_arguments.len() {
                    match &parsed_arguments[i] {
                        Some(v) => v.deep_copy(),
                        None => empty_object(),
                    }
                } else {
                    empty_object()
                };
                remap_oai_to_claude_args(tc.function.name.as_str(), &mut input);
                let ghost before = blocks@;
                blocks.push(
                    ContentBlock::ToolUse {
                        id: tc.id.clone(),
                        name: tc.function.name.clone(),
                        input,
                        signature: None,
                        cache_control: None,
                    },
                );
                assert(blocks@.take(n as int) =~= before.take(n as int));
                assert forall|j: int| 0 <= j < i + 1 implies is_tool_use_of(#[trigger] blocks@[n + j], calls@[j], parsed_at(parsed, j)) by {
                    if j < i {
                        assert(blocks@[n + j] == before[n + j]);
                    }
                }
                i += 1;
            }
            Message { role: Role::Assistant, content: MessageContent::Blocks { content: blocks } }
        },
        _ => {
            let role = msg.role;
            let mut blocks: Vec<ContentBlock> = match msg.content {
                OaiMessageContent::Blocks(content) => process_image_blocks(content),
                OaiMessageContent::Text(text) => if text.as_str().is_empty() {
                    Vec::new()
                } else {
                    vec![ContentBlock::Text { text, cache_control: None }]
                },
                OaiMessageContent::Null => Vec::new(),
            };
            let ghost main = blocks@;
            match &msg.annotations {
                Some(annotations) => {
                    if annotations.len() > 0 {
                        let items = annotations_to_web_search_content(annotations.as_slice());
                        if items.len() > 0 {
                            let content = JsonValue::array(items);
                            blocks.push(
                                ContentBlock::ToolResult {
                                    tool_use_id: copy_str("web_search"),
                                    content,
                                    is_error: None,
                                    cache_control: None,
                                },
                            );
                        }
                    } else {
                        assert(views(annotations@) =~= Seq::<Json>::empty());
                    }
                },
                None => {},
            }
            assert(blocks@.take(main.len() as int) =~= main);
            assert(main.take(main.len() as int) =~= main);
            let role = match role {
                OaiRole::System => Role::System,
                OaiRole::User => Role::User,
                OaiRole::Assistant => Role::Assistant,
                OaiRole::Tool => Role::User,
            };
            if blocks.len() == 0 {
                assert(Seq::<ContentBlock>::empty().take(0) =~= main);
                assert(plain_blocks(m, seq![]));
                Message { role, content: MessageContent::Text { content: String::new() } }
            } else {
                assert(plain_blocks(m, blocks@));
                Message { role, content: MessageContent::Blocks { content: blocks } }
            }
        },
    }
}

} // verus!

verus! {

/// The input schema that a function without parameters gets.
pub open spec fn default_parameters() -> Json {
    Json::Object(
        seq![
            Member { key: "type"@, value: Json::Str("object"@) },
            Member { key: "properties"@, value: Json::Object(seq![]) },
        ],
    )
}

/// Whether `r` is the canonical tool of OpenAI tool `t`: the functions named
/// `web_search`, `bash`, `str_replace_editor` and `str_replace_based_edit_tool`
/// become the built-in tools, any other function a custom tool; a custom tool
/// is marked custom; any other tool becomes an empty raw object.
pub open spec fn tool_converted(t: OaiTool, r: Tool) -> bool {
    match t {
        OaiTool::Function { function } => {
            let n = function.name@;
            if n == "web_search"@ {
                r matches Tool::Known(KnownTool::WebSearch20250305 { allowed_domains, blocked_domains, cache_control, max_uses, user_location, extra, .. })
                    && allowed_domains is None && blocked_domains is None && cache_control is None && max_uses is None
                    && user_location is None && extra.len() == 0
            } else if n == "bash"@ {
                r matches Tool::Known(KnownTool::Bash20250124 { cache_control, extra, .. }) && cache_control is None && extra.len() == 0
            } else if n == "str_replace_editor"@ {
                r matches Tool::Known(KnownTool::TextEditor20250124 { cache_control, extra, .. }) && cache_control is None && extra.len() == 0
            } else if n == "str_replace_based_edit_tool"@ {
                r matches Tool::Known(KnownTool::TextEditor20250728 { cache_control, max_characters, extra, .. }) && cache_control is None
                    && max_characters is None && extra.len() == 0
            } else {
                r matches Tool::Custom(c) && c.name == function.name && c.description == function.description
                    && c.input_schema@ == (match function.parameters {
                    Some(p) => p@,
                    None => default_parameters(),
                }) && c.cache_control is None && c.type_ == Some(CustomToolType::Custom)
            }
        },
        OaiTool::Custom(c) => r == Tool::Custom(CustomTool { type_: Some(CustomToolType::Custom), ..c }),
        OaiTool::Other => r matches Tool::Raw(v) && v@ == Json::Object(seq![]),
    }
}

fn default_parameters_value() -> (r: JsonValue)
    ensures
        r@ == default_parameters(),
{
    let ms = vec![
        JsonMember::new("type", JsonValue::string("object")),
        JsonMember::new("properties", empty_object()),
    ];
    assert(member_views(ms@) =~= default_parameters()->Object_0);
    JsonValue::object(ms)
}

/// Converts an OpenAI tool to a canonical tool: see [`tool_converted`].
pub fn tool_from_oai(oai_tool: OaiTool) -> (r: Tool)
    ensures
        tool_converted(oai_tool, r),
{
    match oai_tool {
        OaiTool::Function { function } => {
            let n = function.name.as_str();
            if same_text(n, "web_search") {
                Tool::Known(
                    KnownTool::WebSearch20250305 {
                        name: ToolNameWebSearch::WebSearch,
                        allowed_domains: None,
                        blocked_domains: None,
                        cache_control: None,
                        max_uses: None,
                        user_location: None,
                        extra: Vec::new(),
                    },
                )
            } else if same_text(n, "bash") {
                Tool::Known(KnownTool::Bash20250124 { name: ToolNameBash::Bash, cache_control: None, extra: Vec::new() })
            } else if same_text(n, "str_replace_editor") {
                Tool::Known(
                    KnownTool::TextEditor20250124 {
                        name: ToolNameStrReplaceEditor::StrReplaceEditor,
                        cache_control: None,
                        extra: Vec::new(),
                    },
                )
            } else if same_text(n, "str_replace_based_edit_tool") {
                Tool::Known(
                    KnownTool::TextEditor20250728 {
                        name: ToolNameStrReplaceBasedEditTool::StrReplaceBasedEditTool,
                        cache_control: None,
                        max_characters: None,
                        extra: Vec::new(),
                    },
                )
            } else {
                let input_schema = match function.parameters {
                    Some(p) => p,
                    None => default_parameters_value(),
                };
                Tool::Custom(
                    CustomTool {
                        name: function.name,
                        description: function.description,
                        input_schema,
                        cache_control: None,
                        type_: Some(CustomToolType::Custom),
                    },
                )
            }
        },
        OaiTool::Custom(custom) => Tool::Custom(CustomTool { type_: Some(CustomToolType::Custom), ..custom }),
        OaiTool::Other => Tool::Raw(empty_object()),
    }
}

/// A tool schema through the whole cleaning pipeline: references expanded,
/// constraints described, keywords cleaned, validity ensured.
pub open spec fn prepared_schema(s: Json) -> Json {
    crate::schema_cleaner::ensured(
        crate::schema_cleaner::clean(crate::schema_cleaner::moved(crate::schema_cleaner::expanded(s))),
    )
}

/// Whether a raw tool is dropped: anything but a non-empty object.
pub open spec fn raw_dropped(v: Json) -> bool {
    match v {
        Json::Object(ms) => ms.len() == 0,
        _ => true,
    }
}

/// Whether `r` is what tool `t` becomes on its way upstream: a custom tool
/// gets its schema prepared and is marked custom; a raw tool that is not a
/// non-empty object is dropped; any other tool stays.
pub open spec fn tool_prepared(t: Tool, r: Option<Tool>) -> bool {
    match t {
        Tool::Custom(c) => r matches Some(Tool::Custom(d)) && d.name == c.name && d.description == c.description
            && d.cache_control == c.cache_control && d.type_ == Some(CustomToolType::Custom)
            && d.input_schema@ == prepared_schema(c.input_schema@),
        Tool::Raw(v) => if raw_dropped(v@) {
            r is None
        } else {
            r == Some(Tool::Raw(v))
        },
        Tool::Known(k) => r == Some(Tool::Known(k)),
    }
}

/// Prepares a tool for the upstream: see [`tool_prepared`].
pub fn prepare_tool(tool: Tool) -> (r: Option<Tool>)
    ensures
        tool_prepared(tool, r),
{
    match tool {
        Tool::Custom(custom) => {
            let expanded = crate::schema_cleaner::expand_refs(&custom.input_schema);
            let mut schema = expanded;
            crate::schema_cleaner::move_constraints_to_description(&mut schema);
            crate::schema_cleaner::clean_json_schema(&mut schema);
            crate::schema_cleaner::ensure_valid_schema(&mut schema);
            Some(
                Tool::Custom(
                    CustomTool {
                        name: custom.name,
                        description: custom.description,
                        input_schema: schema,
                        cache_control: custom.cache_control,
                        type_: Some(CustomToolType::Custom),
                    },
                ),
            )
        },
        Tool::Raw(v) => {
            let dropped = match &v {
                JsonValue::Object(ms) => {
                    proof {
                        crate::json::lemma_object_view(*ms);
                    }
                    ms.len() == 0
                },
                _ => true,
            };
            if dropped {
                None
            } else {
                Some(Tool::Raw(v))
            }
        },
        Tool::Known(k) => Some(Tool::Known(k)),
    }
}

} // verus!

verus! {

/// A request whose messages are already canonical but whose other fields
/// follow the OpenAI dialect. Numbers that may be fractional are held as the
/// text of their JSON numbers.
#[derive(Debug, Clone)]
pub struct CreateMessageParams {
    pub max_completion_tokens: Option<u32>,
    pub max_tokens: Option<u32>,
    pub messages: Vec<Message>,
    pub model: String,
    pub reasoning_effort: Option<Effort>,
    pub frequency_penalty: Option<String>,
    pub temperature: Option<String>,
    pub stop: Option<Vec<String>>,
    pub stream: Option<bool>,
    pub thinking: Option<Thinking>,
    pub top_k: Option<u32>,
    pub top_p: Option<String>,
    pub logit_bias: Option<JsonValue>,
    pub tools: Option<Vec<OaiTool>>,
    pub tool_choice: Option<ToolChoice>,
    pub metadata: Option<Metadata>,
    pub n: Option<u32>,
}

/// An OpenAI-dialect request.
#[derive(Debug, Clone)]
pub struct OaiCreateMessageParams {
    pub max_completion_tokens: Option<u32>,
    pub max_tokens: Option<u32>,
    pub messages: Vec<OaiMessage>,
    pub model: String,
    pub reasoning_effort: Option<Effort>,
    pub temperature: Option<String>,
    pub stop: Option<Vec<String>>,
    pub stream: Option<bool>,
    pub thinking: Option<Thinking>,
    pub top_k: Option<u32>,
    pub top_p: Option<String>,
    pub tools: Option<Vec<OaiTool>>,
    pub tool_choice: Option<ToolChoice>,
    pub metadata: Option<Metadata>,
    pub n: Option<u32>,
}

/// The messages that are not system messages, in order.
pub open spec fn non_system(ms: Seq<Message>) -> Seq<Message>
    decreases ms.len(),
{
    if ms.len() == 0 {
        ms
    } else if ms.last().role == Role::System {
        non_system(ms.drop_last())
    } else {
        non_system(ms.drop_last()).push(ms.last())
    }
}

/// The JSON of the text blocks of a message's content: a text is one block.
pub open spec fn text_blocks_json(c: MessageContent) -> Seq<Json> {
    match c {
        MessageContent::Text { content } => seq![block_json(ContentBlock::Text { text: content, cache_control: None })],
        MessageContent::Blocks { content } => text_blocks_of(content@),
    }
}

/// The JSON of the text blocks among blocks, in order.
pub open spec fn text_blocks_of(bs: Seq<ContentBlock>) -> Seq<Json>
    decreases bs.len(),
{
    if bs.len() == 0 {
        seq![]
    } else if bs.last() is Text {
        text_blocks_of(bs.drop_last()).push(block_json(bs.last()))
    } else {
        text_blocks_of(bs.drop_last())
    }
}

/// The JSON text blocks of the system messages, in order.
pub open spec fn system_blocks(ms: Seq<Message>) -> Seq<Json>
    decreases ms.len(),
{
    if ms.len() == 0 {
        seq![]
    } else if ms.last().role == Role::System {
        system_blocks(ms.drop_last()) + text_blocks_json(ms.last().content)
    } else {
        system_blocks(ms.drop_last())
    }
}

/// The system prompt that the system messages make: their text blocks, where
/// there are any.
pub open spec fn system_prompt(ms: Seq<Message>) -> Option<Json> {
    if system_blocks(ms).len() > 0 {
        Some(Json::Array(system_blocks(ms)))
    } else {
        None
    }
}

fn push_text_blocks(out: &mut Vec<JsonValue>, c: &MessageContent)
    ensures
        views(final(out)@) == views(old(out)@) + text_blocks_json(*c),
{
    let ghost start = views(out@);
    match c {
        MessageContent::Text { content } => {
            let b = ContentBlock::Text { text: content.clone(), cache_control: None };
            out.push(block_value(&b));
            assert(views(out@) =~= start + text_blocks_json(*c));
        },
        MessageContent::Blocks { content } => {
            let mut i: usize = 0;
            while i < content.len()
                invariant
                    i <= content.len(),
                    views(out@) == start + text_blocks_of(content@.take(i as int)),
                decreases content.len() - i,
            {
                assert(content@.take(i + 1).drop_last() =~= content@.take(i as int));
                assert(content@.take(i + 1).last() == content@[i as int]);
                let ghost before = views(out@);
                if matches!(content[i], ContentBlock::Text { .. }) {
                    out.push(block_value(&content[i]));
                    assert(views(out@) =~= before.push(block_json(content@[i as int])));
                }
                i += 1;
                assert(views(out@) =~= start + text_blocks_of(content@.take(i as int)));
            }
            assert(content@.take(content.len() as int) =~= content@);
        },
    }
}

/// Splits system messages off: the other messages in order, and the system
/// prompt of [`system_prompt`].
pub fn split_system(messages: Vec<Message>) -> (r: (Vec<Message>, Option<JsonValue>))
    ensures
        r.0@ == non_system(messages@),
        match (r.1, system_prompt(messages@)) {
            (Some(v), Some(j)) => v@ == j,
            (None, None) => true,
            _ => false,
        },
{
    let ghost all = messages@;
    let mut rest = messages;
    let n = rest.len();
    let mut others: Vec<Message> = Vec::new();
    let mut texts: Vec<JsonValue> = Vec::new();
    let mut i: usize = 0;
    while rest.len() > 0
        invariant
            all.len() == n,
            i <= n,
            rest@ == all.skip(i as int),
            others@ == non_system(all.take(i as int)),
            views(texts@) == system_blocks(all.take(i as int)),
        decreases rest.len(),
    {
        assert(all.take(i + 1).drop_last() =~= all.take(i as int));
        assert(all.take(i + 1).last() == all[i as int]);
        let m = rest.remove(0);
        assert(rest@ =~= all.skip(i + 1));
        if m.role == Role::System {
            push_text_blocks(&mut texts, &m.content);
        } else {
            others.push(m);
        }
        i += 1;
    }
    assert(all.take(n as int) =~= all);
    let system = if texts.len() > 0 {
        Some(JsonValue::array(texts))
    } else {
        None
    };
    (others, system)
}

/// The token budget of a request: `max_tokens`, else `max_completion_tokens`,
/// else 8192.
pub open spec fn budget_of(max_tokens: Option<u32>, max_completion_tokens: Option<u32>) -> u32 {
    match max_tokens {
        Some(t) => t,
        None => match max_completion_tokens {
            Some(t) => t,
            None => 8192,
        },
    }
}

/// Whether `r` is the thinking setting of a request: the one it gives, else
/// one from its reasoning effort.
pub open spec fn thinking_of(thinking: Option<Thinking>, effort: Option<Effort>, r: Option<Thinking>) -> bool {
    match thinking {
        Some(t) => r == Some(t),
        None => match effort {
            Some(e) => r matches Some(t) && t.budget_tokens == e.budget() && t.type_@ == "enabled"@,
            None => r is None,
        },
    }
}

/// Whether `p` is what OpenAI tool `t` becomes, converted and prepared.
pub open spec fn converted_prepared(t: OaiTool, p: Option<Tool>) -> bool {
    exists|c: Tool| #[trigger] tool_converted(t, c) && tool_prepared(c, p)
}

/// Whether the prepared tools are those of `tools`, each converted and
/// prepared, the dropped ones left out.
pub open spec fn tools_prepared(tools: Option<Vec<OaiTool>>, r: Option<Vec<Tool>>) -> bool {
    match tools {
        None => r is None,
        Some(ts) => r matches Some(out) && exists|kept: Seq<Option<Tool>>|
            kept.len() == ts.len() && (forall|i: int|
                0 <= i < ts.len() ==> converted_prepared(ts@[i], #[trigger] kept[i]))
                && out@ == #[trigger] somes(kept),
    }
}

/// The present values among options, in order.
pub open spec fn somes(s: Seq<Option<Tool>>) -> Seq<Tool>
    decreases s.len(),
{
    if s.len() == 0 {
        seq![]
    } else {
        match s.last() {
            Some(t) => somes(s.drop_last()).push(t),
            None => somes(s.drop_last()),
        }
    }
}

fn prepare_tools(tools: Option<Vec<OaiTool>>) -> (r: Option<Vec<Tool>>)
    ensures
        tools_prepared(tools, r),
{
    match tools {
        None => None,
        Some(ts) => {
            let ghost all = ts@;
            let mut rest = ts;
            let n = rest.len();
            let mut out: Vec<Tool> = Vec::new();
            let ghost mut kept: Seq<Option<Tool>> = seq![];
            let mut i: usize = 0;
            while rest.len() > 0
                invariant
                    all.len() == n,
                    i <= n,
                    rest@ == all.skip(i as int),
                    kept.len() == i,
                    forall|j: int| 0 <= j < i ==> converted_prepared(all[j], #[trigger] kept[j]),
                    out@ == somes(kept),
                decreases rest.len(),
            {
                let t = rest.remove(0);
                assert(rest@ =~= all.skip(i + 1));
                let c = tool_from_oai(t);
                let ghost cv = c;
                let p = prepare_tool(c);
                let ghost before = kept;
                proof {
                    kept = kept.push(p);
                    assert(kept.drop_last() =~= before);
                    assert(tool_converted(all[i as int], cv) && tool_prepared(cv, kept[i as int]));
                    assert(converted_prepared(all[i as int], kept[i as int]));
                    assert forall|j: int| 0 <= j < i + 1 implies converted_prepared(all[j], #[trigger] kept[j]) by {
                        if j < i {
                            assert(kept[j] == before[j]);
                        }
                    }
                }
                match p {
                    Some(tool) => out.push(tool),
                    None => {},
                }
                i += 1;
            }
            assert(all.take(n as int) =~= all);
            assert(out@ == somes(kept));
            Some(out)
        },
    }
}

fn thinking_from(thinking: Option<Thinking>, effort: Option<Effort>) -> (r: Option<Thinking>)
    ensures
        thinking_of(thinking, effort, r),
{
    match thinking {
        Some(t) => Some(t),
        None => match effort {
            Some(e) => Some(Thinking::new(e.budget_tokens())),
            None => None,
        },
    }
}

/// Whether `r` is the canonical request made of the given fields: the
/// system messages become the system prompt, the token budget and thinking
/// fall back as described, the tools are prepared, a bare tool choice takes
/// the object form, and the rest is carried over.
pub open spec fn assembled(
    messages: Seq<Message>,
    model: String,
    max_tokens: Option<u32>,
    max_completion_tokens: Option<u32>,
    thinking: Option<Thinking>,
    effort: Option<Effort>,
    tools: Option<Vec<OaiTool>>,
    tool_choice: Option<ToolChoice>,
    r: ClaudeCreateMessageParams,
) -> bool {
    &&& r.messages@ == non_system(messages)
    &&& match (r.system, system_prompt(messages)) {
        (Some(v), Some(j)) => v@ == j,
        (None, None) => true,
        _ => false,
    }
    &&& r.max_tokens == budget_of(max_tokens, max_completion_tokens)
    &&& r.model == model
    &&& thinking_of(thinking, effort, r.thinking)
    &&& tools_prepared(tools, r.tools)
    &&& r.tool_choice == match tool_choice {
        Some(tc) => Some(tc.object_form()),
        None => None,
    }
}

impl CreateMessageParams {
    /// The canonical request: see [`assembled`].
    pub fn into_claude(self) -> (r: ClaudeCreateMessageParams)
        ensures
            assembled(
                self.messages@,
                self.model,
                self.max_tokens,
                self.max_completion_tokens,
                self.thinking,
                self.reasoning_effort,
                self.tools,
                self.tool_choice,
                r,
            ),
            r.stop_sequences == self.stop,
            r.temperature == self.temperature,
            r.stream == self.stream,
            r.top_k == self.top_k,
            r.top_p == self.top_p,
            r.metadata == self.metadata,
            r.n == self.n,
    {
        let (messages, system) = split_system(self.messages);
        let max_tokens = match self.max_tokens {
            Some(t) => t,
            None => match self.max_completion_tokens {
                Some(t) => t,
                None => default_max_tokens(),
            },
        };
        let tool_choice = match self.tool_choice {
            Some(tc) => Some(tc.to_object_format()),
            None => None,
        };
        ClaudeCreateMessageParams {
            max_tokens,
            messages,
            model: self.model,
            system,
            temperature: self.temperature,
            stop_sequences: self.stop,
            stream: self.stream,
            thinking: thinking_from(self.thinking, self.reasoning_effort),
            top_k: self.top_k,
            top_p: self.top_p,
            tools: prepare_tools(self.tools),
            tool_choice,
            metadata: self.metadata,
            n: self.n,
        }
    }
}

/// Whether the messages are the canonical conversions of the OpenAI
/// messages, each with its parse outcomes.
pub open spec fn all_converted(
    ms: Seq<OaiMessage>,
    parsed: Seq<Vec<Option<JsonValue>>>,
    r: Seq<Message>,
) -> bool {
    &&& r.len() == ms.len()
    &&& forall|i: int|
        0 <= i < ms.len() ==> oai_converted(
            ms[i],
            if i < parsed.len() {
                parsed[i]@
            } else {
                seq![]
            },
            #[trigger] r[i],
        )
}

impl OaiCreateMessageParams {
    /// The canonical request, given for each message the parse outcomes of
    /// the arguments of its tool calls: the messages are converted with
    /// [`convert_oai_message`], then assembled as [`assembled`] says.
    pub fn into_claude(self, parsed_arguments: Vec<Vec<Option<JsonValue>>>) -> (r: ClaudeCreateMessageParams)
        ensures
            exists|converted: Seq<Message>|
                all_converted(self.messages@, parsed_arguments@, converted) && assembled(
                    converted,
                    self.model,
                    self.max_tokens,
                    self.max_completion_tokens,
                    self.thinking,
                    self.reasoning_effort,
                    self.tools,
                    self.tool_choice,
                    r,
                ),
            r.stop_sequences == self.stop,
            r.temperature == self.temperature,
            r.stream == self.stream,
            r.top_k == self.top_k,
            r.top_p == self.top_p,
            r.metadata == self.metadata,
            r.n == self.n,
    {
        let ghost all = self.messages@;
        let ghost parsed = parsed_arguments@;
        let mut rest = self.messages;
        let mut parsed_rest = parsed_arguments;
        let n = rest.len();
        let mut converted: Vec<Message> = Vec::new();
        let mut i: usize = 0;
        while rest.len() > 0
            invariant
                all.len() == n,
                i <= n,
                rest@ == all.skip(i as int),
                parsed_rest@ == if i < parsed.len() { parsed.skip(i as int) } else { seq![] },
                converted.len() == i,
                forall|j: int|
                    0 <= j < i ==> oai_converted(
                        all[j],
                        if j < parsed.len() {
                            parsed[j]@
                        } else {
                            seq![]
                        },
                        #[trigger] converted@[j],
                    ),
            decreases rest.len(),
        {
            let m = rest.remove(0);
            assert(rest@ =~= all.skip(i + 1));
            let p = if parsed_rest.len() > 0 {
                let p = parsed_rest.remove(0);
                assert(parsed_rest@ =~= if i + 1 < parsed.len() { parsed.skip(i + 1) } else { seq![] });
                p
            } else {
                Vec::new()
            };
            let ghost pv = p@;
            assert(pv == if i < parsed.len() { parsed[i as int]@ } else { seq![] });
            converted.push(convert_oai_message(m, p));
            i += 1;
        }
        assert(all_converted(all, parsed, converted@));
        let params = CreateMessageParams {
            max_completion_tokens: self.max_completion_tokens,
            max_tokens: self.max_tokens,
            messages: converted,
            model: self.model,
            reasoning_effort: self.reasoning_effort,
            frequency_penalty: None,
            temperature: self.temperature,
            stop: self.stop,
            stream: self.stream,
            thinking: self.thinking,
            top_k: self.top_k,
            top_p: self.top_p,
            logit_bias: None,
            tools: self.tools,
            tool_choice: self.tool_choice,
            metadata: self.metadata,
            n: self.n,
        };
        params.into_claude()
    }
}

} // verus!
